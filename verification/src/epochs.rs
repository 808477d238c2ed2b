//! Epochs: one for each calendar date the game world was reset on. An
//! epoch is created when a poll first observes its date and is never
//! changed; how long it has lasted and whether it is the current one is
//! derived from the job runs whenever it is read.

use crate::db::{DbJobRun, ResetDate};
use crate::tick::TickFailure;
use crate::time::{CalendarDate, Timestamp, date_precedes};
use vstd::prelude::*;

verus! {

/// A stored epoch.
#[derive(Clone, Copy, Debug, PartialEq, Eq, Structural)]
pub struct EpochRow {
    pub reset_id: i64,
    pub reset: CalendarDate,
    pub first_ts: Timestamp,
}

/// The table of epochs, in the order in which they were created. It holds
/// one epoch for each date, whatever is asked of it.
pub struct EpochTable {
    rows: Vec<EpochRow>,
}

impl View for EpochTable {
    type V = Seq<EpochRow>;

    closed spec fn view(&self) -> Seq<EpochRow> {
        self.rows@
    }
}

impl EpochTable {
    /// Whether the table holds one epoch for each date, each under a
    /// number of its own.
    pub open spec fn wf(&self) -> bool {
        is_epoch_table(self@)
    }

    /// The table of the epochs that are stored, if they are a table: none
    /// if two of them share a date or a number.
    pub fn from_rows(rows: Vec<EpochRow>) -> (r: Option<EpochTable>)
        ensures
            match r {
                Some(table) => table@ == rows@ && table.wf(),
                None => !is_epoch_table(rows@),
            },
    {
        let n = rows.len();
        let mut j: usize = 0;
        while j < n
            invariant
                j <= n,
                n == rows@.len(),
                forall|a: int, b: int|
                    0 <= a < b < j ==> (#[trigger] rows@[a]).reset != (#[trigger] rows@[b]).reset
                        && rows@[a].reset_id != rows@[b].reset_id,
            decreases n - j,
        {
            let mut i: usize = 0;
            while i < j
                invariant
                    i <= j < n,
                    n == rows@.len(),
                    forall|a: int|
                        0 <= a < i ==> (#[trigger] rows@[a]).reset != rows@[j as int].reset
                            && rows@[a].reset_id != rows@[j as int].reset_id,
                decreases j - i,
            {
                if rows[i].reset == rows[j].reset || rows[i].reset_id == rows[j].reset_id {
                    return None;
                }
                i += 1;
            }
            j += 1;
        }
        Some(EpochTable { rows })
    }

    /// The greatest number an epoch is stored under.
    pub fn greatest_epoch_id(&self) -> (id: i64)
        ensures
            id == greatest_id(self@),
    {
        let mut id: i64 = 0;
        let mut i: usize = 0;
        assert(self.rows@.take(0) =~= Seq::<EpochRow>::empty());
        while i < self.rows.len()
            invariant
                i <= self.rows@.len(),
                id == greatest_id(self.rows@.take(i as int)),
            decreases self.rows@.len() - i,
        {
            let ghost upto = self.rows@.take(i + 1);
            assert(upto.drop_last() =~= self.rows@.take(i as int));
            if self.rows[i].reset_id > id {
                id = self.rows[i].reset_id;
            }
            i += 1;
        }
        assert(self.rows@.take(i as int) =~= self.rows@);
        id
    }

    /// A table without epochs.
    pub fn new() -> (table: EpochTable)
        ensures
            table@ == Seq::<EpochRow>::empty(),
            table.wf(),
    {
        EpochTable { rows: Vec::new() }
    }

    /// The stored epochs, in the order of their creation.
    pub fn rows(&self) -> (rows: &Vec<EpochRow>)
        ensures
            rows@ == self@,
    {
        &self.rows
    }

    /// The stored epoch of a date.
    pub fn find(&self, reset: CalendarDate) -> (r: Option<EpochRow>)
        ensures
            match position_of_date(self@, reset) {
                Some(k) => r == Some(self@[k]),
                None => r is None,
            },
    {
        let mut i: usize = 0;
        while i < self.rows.len()
            invariant
                i <= self.rows@.len(),
                position_of_date(self.rows@.take(i as int), reset) is None,
            decreases self.rows@.len() - i,
        {
            let ghost upto = self.rows@.take(i + 1);
            assert(upto.drop_last() =~= self.rows@.take(i as int));
            if self.rows[i].reset == reset {
                proof {
                    lemma_found_stays_found(self.rows@, i + 1, reset);
                }
                return Some(self.rows[i]);
            }
            i += 1;
        }
        assert(self.rows@.take(i as int) =~= self.rows@);
        None
    }

    /// Looks up the epoch of a date and creates it, first seen at `now`, if
    /// there is none; `job_runs` are the job runs recorded so far. The epoch
    /// is handed out as it is read: a stored one as last seen at its latest
    /// job run, a created one as last seen at `now`, either one ongoing
    /// unless an epoch of a later date is stored. Fails only if there is no
    /// number left for another epoch.
    pub fn load_or_create_reset_date(
        &mut self,
        job_runs: &Vec<DbJobRun>,
        reset_date: CalendarDate,
        now: Timestamp,
    ) -> (r: Result<ResetDate, TickFailure>)
        requires
            old(self).wf(),
        ensures
            final(self).wf(),
            final(self)@ == rows_after(old(self)@, reset_date, now),
            r == match epoch_handed_out(old(self)@, job_runs@, reset_date, now) {
                Some(epoch) => Ok::<ResetDate, TickFailure>(epoch),
                None => Err::<ResetDate, TickFailure>(TickFailure::StoreFailed),
            },
    {
        proof {
            lemma_load_or_create_keeps_table(self@, reset_date, now);
        }
        let ghost stored = self@;
        let is_ongoing = !has_later_epoch(&self.rows, reset_date);
        match self.find(reset_date) {
            Some(epoch) => {
                let latest_ts = match latest_job_run(job_runs, epoch.reset_id) {
                    Some(job) => job.query_time,
                    None => epoch.first_ts,
                };
                proof {
                    lemma_position_of_date(stored, reset_date);
                }
                Ok(
                    ResetDate {
                        reset_id: epoch.reset_id,
                        reset: epoch.reset,
                        first_ts: epoch.first_ts,
                        latest_ts,
                        is_ongoing,
                    },
                )
            },
            None => {
                let greatest = self.greatest_epoch_id();
                if greatest == i64::MAX {
                    return Err(TickFailure::StoreFailed);
                }
                let reset_id: i64 = greatest + 1;
                self.rows.push(EpochRow { reset_id, reset: reset_date, first_ts: now });
                Ok(
                    ResetDate {
                        reset_id,
                        reset: reset_date,
                        first_ts: now,
                        latest_ts: now,
                        is_ongoing,
                    },
                )
            },
        }
    }
}

/// Where the epoch of a date stands among the rows, if there is one.
pub open spec fn position_of_date(rows: Seq<EpochRow>, reset: CalendarDate) -> Option<int>
    decreases rows.len(),
{
    if rows.len() == 0 {
        None
    } else {
        match position_of_date(rows.drop_last(), reset) {
            Some(k) => Some(k),
            None => if rows.last().reset == reset {
                Some(rows.len() - 1)
            } else {
                None
            },
        }
    }
}

/// Whether the rows hold one epoch for each date, each under a number of
/// its own.
pub open spec fn is_epoch_table(rows: Seq<EpochRow>) -> bool {
    forall|i: int, j: int|
        0 <= i < j < rows.len() ==> (#[trigger] rows[i]).reset != (#[trigger] rows[j]).reset
            && rows[i].reset_id != rows[j].reset_id
}

/// The greatest number an epoch is stored under; 0 if none is stored under
/// a number above 0.
pub open spec fn greatest_id(rows: Seq<EpochRow>) -> int
    decreases rows.len(),
{
    if rows.len() == 0 {
        0
    } else {
        let before = greatest_id(rows.drop_last());
        if rows.last().reset_id > before {
            rows.last().reset_id as int
        } else {
            before
        }
    }
}

/// The epoch that load-or-create hands out for a date: the stored one, or
/// a new one first seen at `now`, under the number after the greatest in
/// use; none if there is no number left.
pub open spec fn epoch_for(rows: Seq<EpochRow>, reset: CalendarDate, now: Timestamp) -> Option<
    EpochRow,
> {
    match position_of_date(rows, reset) {
        Some(k) => Some(rows[k]),
        None => if greatest_id(rows) < i64::MAX {
            Some(EpochRow { reset_id: (greatest_id(rows) + 1) as i64, reset, first_ts: now })
        } else {
            None
        },
    }
}

/// The rows after load-or-create for a date: as before if the date has an
/// epoch or none can be added, else grown by the new epoch.
pub open spec fn rows_after(rows: Seq<EpochRow>, reset: CalendarDate, now: Timestamp) -> Seq<
    EpochRow,
> {
    match (position_of_date(rows, reset), epoch_for(rows, reset, now)) {
        (None, Some(created)) => rows.push(created),
        _ => rows,
    }
}

/// The latest job run of an epoch: the one with the greatest query time,
/// and of several with the same the one recorded last.
pub open spec fn latest_job(job_runs: Seq<DbJobRun>, reset_id: i64) -> Option<DbJobRun>
    decreases job_runs.len(),
{
    if job_runs.len() == 0 {
        None
    } else {
        let before = latest_job(job_runs.drop_last(), reset_id);
        let run = job_runs.last();
        if run.reset_id != reset_id {
            before
        } else {
            match before {
                Some(latest) => if latest.query_time.precedes_or_equals(run.query_time) {
                    Some(run)
                } else {
                    Some(latest)
                },
                None => Some(run),
            }
        }
    }
}

/// Whether there is an epoch of a later date.
pub open spec fn is_superseded(rows: Seq<EpochRow>, reset: CalendarDate) -> bool {
    exists|k: int| 0 <= k < rows.len() && date_precedes(reset, (#[trigger] rows[k]).reset)
}

/// An epoch as it is read, given the query time of its latest job run.
pub open spec fn epoch_as_read(row: EpochRow, rows: Seq<EpochRow>, latest_ts: Timestamp) -> ResetDate {
    ResetDate {
        reset_id: row.reset_id,
        reset: row.reset,
        first_ts: row.first_ts,
        latest_ts,
        is_ongoing: !is_superseded(rows, row.reset),
    }
}

/// When a stored epoch was last seen: at its latest job run, or when it was
/// first seen if it has none.
pub open spec fn last_seen(row: EpochRow, job_runs: Seq<DbJobRun>) -> Timestamp {
    match latest_job(job_runs, row.reset_id) {
        Some(job) => job.query_time,
        None => row.first_ts,
    }
}

/// The epoch that load-or-create hands out for a date, as it is read: the
/// stored one, or a new one first and last seen at `now`; either one is
/// ongoing unless an epoch of a later date is stored.
pub open spec fn epoch_handed_out(
    rows: Seq<EpochRow>,
    job_runs: Seq<DbJobRun>,
    reset: CalendarDate,
    now: Timestamp,
) -> Option<ResetDate> {
    match position_of_date(rows, reset) {
        Some(k) => Some(epoch_as_read(rows[k], rows, last_seen(rows[k], job_runs))),
        None => match epoch_for(rows, reset, now) {
            Some(created) => Some(epoch_as_read(created, rows, now)),
            None => None,
        },
    }
}

/// One call of load-or-create: the date asked for and the instant of the call.
pub struct EpochCall {
    pub reset: CalendarDate,
    pub now: Timestamp,
}

/// The rows after a sequence of calls of load-or-create, one after another.
pub open spec fn rows_after_calls(rows: Seq<EpochRow>, calls: Seq<EpochCall>) -> Seq<EpochRow>
    decreases calls.len(),
{
    if calls.len() == 0 {
        rows
    } else {
        rows_after(rows_after_calls(rows, calls.drop_last()), calls.last().reset, calls.last().now)
    }
}

/// The epoch that the call at position `i` of a sequence of calls hands out.
pub open spec fn epoch_of_call(rows: Seq<EpochRow>, calls: Seq<EpochCall>, i: int) -> Option<
    EpochRow,
> {
    epoch_for(rows_after_calls(rows, calls.take(i)), calls[i].reset, calls[i].now)
}

/// The epochs that have a job run, as they are read, in the order of their
/// creation.
pub open spec fn epochs_as_read(
    upto: Seq<EpochRow>,
    rows: Seq<EpochRow>,
    job_runs: Seq<DbJobRun>,
) -> Seq<ResetDate>
    decreases upto.len(),
{
    if upto.len() == 0 {
        Seq::<ResetDate>::empty()
    } else {
        let before = epochs_as_read(upto.drop_last(), rows, job_runs);
        match latest_job(job_runs, upto.last().reset_id) {
            Some(job) => before.push(epoch_as_read(upto.last(), rows, job.query_time)),
            None => before,
        }
    }
}

/// Where the epoch of the latest date stands among the rows, and of
/// several of that date the one created first.
pub open spec fn position_of_latest(rows: Seq<EpochRow>) -> Option<int>
    decreases rows.len(),
{
    if rows.len() == 0 {
        None
    } else {
        match position_of_latest(rows.drop_last()) {
            Some(k) => if date_precedes(rows[k].reset, rows.last().reset) {
                Some(rows.len() - 1)
            } else {
                Some(k)
            },
            None => Some(rows.len() - 1),
        }
    }
}

/// The epoch of the latest date as it is read; an epoch without job run
/// counts as last seen when it was first seen.
pub open spec fn latest_epoch_as_read(rows: Seq<EpochRow>, job_runs: Seq<DbJobRun>) -> Option<
    ResetDate,
> {
    match position_of_latest(rows) {
        Some(k) => Some(epoch_as_read(rows[k], rows, last_seen(rows[k], job_runs))),
        None => None,
    }
}

/// The position of a date is a position that holds the date, and the first
/// that does; there is none exactly if no row holds the date.
pub proof fn lemma_position_of_date(rows: Seq<EpochRow>, reset: CalendarDate)
    ensures
        match position_of_date(rows, reset) {
            Some(k) => 0 <= k < rows.len() && rows[k].reset == reset && forall|j: int|
                0 <= j < k ==> (#[trigger] rows[j]).reset != reset,
            None => forall|j: int| 0 <= j < rows.len() ==> (#[trigger] rows[j]).reset != reset,
        },
    decreases rows.len(),
{
    if rows.len() > 0 {
        let init = rows.drop_last();
        lemma_position_of_date(init, reset);
        match position_of_date(init, reset) {
            Some(k) => {
                assert forall|j: int| 0 <= j < k implies (#[trigger] rows[j]).reset != reset by {
                    assert(init[j] == rows[j]);
                }
            },
            None => {
                assert forall|j: int| 0 <= j < rows.len() - 1 implies (#[trigger] rows[j]).reset
                    != reset by {
                    assert(init[j] == rows[j]);
                }
            },
        }
    }
}

/// The epoch of the latest date is an epoch of the table, and no epoch has
/// a later date.
pub proof fn lemma_position_of_latest(rows: Seq<EpochRow>)
    ensures
        match position_of_latest(rows) {
            Some(k) => 0 <= k < rows.len() && !is_superseded(rows, rows[k].reset),
            None => rows.len() == 0,
        },
    decreases rows.len(),
{
    if rows.len() > 0 {
        let init = rows.drop_last();
        lemma_position_of_latest(init);
        match position_of_latest(rows) {
            Some(k) => {
                assert forall|j: int| 0 <= j < rows.len() implies !date_precedes(
                    rows[k].reset,
                    (#[trigger] rows[j]).reset,
                ) by {
                    if j < init.len() {
                        assert(init[j] == rows[j]);
                    }
                }
            },
            None => {},
        }
    }
}

/// A date found among the first rows is found at the same place among all.
pub proof fn lemma_found_stays_found(rows: Seq<EpochRow>, n: int, reset: CalendarDate)
    requires
        0 <= n <= rows.len(),
        position_of_date(rows.take(n), reset) is Some,
    ensures
        position_of_date(rows, reset) == position_of_date(rows.take(n), reset),
    decreases rows.len() - n,
{
    if n < rows.len() {
        let next = rows.take(n + 1);
        assert(next.drop_last() =~= rows.take(n));
        lemma_found_stays_found(rows, n + 1, reset);
    } else {
        assert(rows.take(n) =~= rows);
    }
}

/// No epoch is stored under a number above the greatest.
pub proof fn lemma_greatest_id(rows: Seq<EpochRow>)
    ensures
        0 <= greatest_id(rows) <= i64::MAX,
        forall|k: int| 0 <= k < rows.len() ==> (#[trigger] rows[k]).reset_id <= greatest_id(rows),
    decreases rows.len(),
{
    if rows.len() > 0 {
        let init = rows.drop_last();
        lemma_greatest_id(init);
        assert forall|k: int| 0 <= k < rows.len() implies (#[trigger] rows[k]).reset_id
            <= greatest_id(rows) by {
            if k < init.len() {
                assert(init[k] == rows[k]);
            }
        }
    }
}

/// Load-or-create keeps the table a table: one epoch for each date, each
/// under a number of its own.
pub proof fn lemma_load_or_create_keeps_table(
    rows: Seq<EpochRow>,
    reset: CalendarDate,
    now: Timestamp,
)
    requires
        is_epoch_table(rows),
    ensures
        is_epoch_table(rows_after(rows, reset, now)),
{
    lemma_position_of_date(rows, reset);
    lemma_greatest_id(rows);
}

/// Epochs are only ever added: whatever load-or-create is asked, the
/// epochs that were stored stay as they are, in their places.
pub proof fn lemma_epochs_are_kept(rows: Seq<EpochRow>, reset: CalendarDate, now: Timestamp)
    ensures
        rows_after(rows, reset, now).len() >= rows.len(),
        rows_after(rows, reset, now).take(rows.len() as int) == rows,
{
}

/// Load-or-create is idempotent: asked twice for the same date, at whatever
/// instants, it hands out the same epoch both times, and the second time
/// the table stays as it is.
pub proof fn lemma_load_or_create_idempotent(
    rows: Seq<EpochRow>,
    reset: CalendarDate,
    first_call: Timestamp,
    second_call: Timestamp,
)
    requires
        epoch_for(rows, reset, first_call) is Some,
    ensures
        epoch_for(rows_after(rows, reset, first_call), reset, second_call) == epoch_for(
            rows,
            reset,
            first_call,
        ),
        rows_after(rows_after(rows, reset, first_call), reset, second_call) == rows_after(
            rows,
            reset,
            first_call,
        ),
{
    let after = rows_after(rows, reset, first_call);
    lemma_position_of_date(rows, reset);
    lemma_position_of_date(after, reset);
}

/// What load-or-create hands out is the epoch it stores or found stored;
/// a created epoch was first and last seen at the call, and an epoch of a
/// date that no stored epoch follows is ongoing.
pub proof fn lemma_epoch_handed_out(
    rows: Seq<EpochRow>,
    job_runs: Seq<DbJobRun>,
    reset: CalendarDate,
    now: Timestamp,
)
    ensures
        match (epoch_handed_out(rows, job_runs, reset, now), epoch_for(rows, reset, now)) {
            (Some(epoch), Some(row)) => {
                &&& epoch.reset_id == row.reset_id
                &&& epoch.reset == reset
                &&& epoch.first_ts == row.first_ts
                &&& position_of_date(rows, reset) is None ==> epoch.first_ts == now
                    && epoch.latest_ts == now
                &&& position_of_date(rows, reset) is Some ==> epoch.latest_ts == last_seen(
                    row,
                    job_runs,
                )
                &&& epoch.is_ongoing == !is_superseded(rows, reset)
            },
            (None, None) => true,
            _ => false,
        },
{
    lemma_position_of_date(rows, reset);
}

/// A date that has an epoch keeps it, at its place, through whatever calls
/// of load-or-create follow.
pub proof fn lemma_epoch_stays(
    rows: Seq<EpochRow>,
    calls: Seq<EpochCall>,
    reset: CalendarDate,
    n: int,
    m: int,
)
    requires
        0 <= n <= m <= calls.len(),
        position_of_date(rows_after_calls(rows, calls.take(n)), reset) is Some,
    ensures
        position_of_date(rows_after_calls(rows, calls.take(m)), reset) == position_of_date(
            rows_after_calls(rows, calls.take(n)),
            reset,
        ),
        rows_after_calls(rows, calls.take(m))[position_of_date(
            rows_after_calls(rows, calls.take(n)),
            reset,
        )->0] == rows_after_calls(rows, calls.take(n))[position_of_date(
            rows_after_calls(rows, calls.take(n)),
            reset,
        )->0],
    decreases m - n,
{
    if n < m {
        lemma_epoch_stays(rows, calls, reset, n, m - 1);
        let before = rows_after_calls(rows, calls.take(m - 1));
        let after = rows_after_calls(rows, calls.take(m));
        assert(calls.take(m).drop_last() =~= calls.take(m - 1));
        assert(calls.take(m).last() == calls[m - 1]);
        assert(after == rows_after(before, calls[m - 1].reset, calls[m - 1].now));
        lemma_position_of_date(before, reset);
        if after.len() > before.len() {
            assert(after.drop_last() =~= before);
        }
    }
}

/// Any sequence of calls of load-or-create keeps the table a table: one
/// epoch for each date, each under a number of its own.
pub proof fn lemma_calls_keep_table(rows: Seq<EpochRow>, calls: Seq<EpochCall>)
    requires
        is_epoch_table(rows),
    ensures
        is_epoch_table(rows_after_calls(rows, calls)),
    decreases calls.len(),
{
    if calls.len() > 0 {
        lemma_calls_keep_table(rows, calls.drop_last());
        lemma_load_or_create_keeps_table(
            rows_after_calls(rows, calls.drop_last()),
            calls.last().reset,
            calls.last().now,
        );
    }
}

/// However often load-or-create is called for a date, and whatever calls
/// for other dates come between: every call that hands out an epoch for the
/// date hands out the same one, and in the end the table holds that epoch
/// and no other for the date.
pub proof fn lemma_one_epoch_for_a_date(
    rows: Seq<EpochRow>,
    calls: Seq<EpochCall>,
    i: int,
    j: int,
)
    requires
        is_epoch_table(rows),
        0 <= i <= j < calls.len(),
        calls[i].reset == calls[j].reset,
        epoch_of_call(rows, calls, i) is Some,
    ensures
        epoch_of_call(rows, calls, j) == epoch_of_call(rows, calls, i),
        is_epoch_table(rows_after_calls(rows, calls)),
        position_of_date(rows_after_calls(rows, calls), calls[i].reset) matches Some(k)
            && rows_after_calls(rows, calls)[k] == epoch_of_call(rows, calls, i)->0,
        forall|k: int|
            0 <= k < rows_after_calls(rows, calls).len() && (#[trigger] rows_after_calls(
                rows,
                calls,
            )[k]).reset == calls[i].reset ==> rows_after_calls(rows, calls)[k] == epoch_of_call(
                rows,
                calls,
                i,
            )->0,
{
    let reset = calls[i].reset;
    let before = rows_after_calls(rows, calls.take(i));
    let after = rows_after_calls(rows, calls.take(i + 1));
    let end = rows_after_calls(rows, calls);
    assert(calls.take(i + 1).drop_last() =~= calls.take(i));
    assert(calls.take(i + 1).last() == calls[i]);
    assert(after == rows_after(before, reset, calls[i].now));
    lemma_position_of_date(before, reset);
    lemma_position_of_date(after, reset);
    if position_of_date(before, reset) is None {
        assert(after.drop_last() =~= before);
    }
    assert(position_of_date(after, reset) is Some);
    assert(after[position_of_date(after, reset)->0] == epoch_of_call(rows, calls, i)->0);
    lemma_epoch_stays(rows, calls, reset, i + 1, calls.len() as int);
    assert(calls.take(calls.len() as int) =~= calls);
    lemma_calls_keep_table(rows, calls);
    lemma_position_of_date(end, reset);
    if i < j {
        lemma_epoch_stays(rows, calls, reset, i + 1, j);
    } else {
        lemma_load_or_create_idempotent(before, reset, calls[i].now, calls[i].now);
    }
}

/// Exactly one of the epochs of a table is ongoing, unless the table is empty.
pub proof fn lemma_one_epoch_is_ongoing(rows: Seq<EpochRow>, i: int, j: int)
    requires
        is_epoch_table(rows),
        0 <= i < rows.len(),
        0 <= j < rows.len(),
        !is_superseded(rows, rows[i].reset),
        !is_superseded(rows, rows[j].reset),
    ensures
        i == j,
{
}

/// Whether there is an epoch of a later date than `reset`.
pub fn has_later_epoch(rows: &Vec<EpochRow>, reset: CalendarDate) -> (r: bool)
    ensures
        r == is_superseded(rows@, reset),
{
    let mut i: usize = 0;
    while i < rows.len()
        invariant
            i <= rows.len(),
            forall|k: int| 0 <= k < i ==> !date_precedes(reset, (#[trigger] rows@[k]).reset),
        decreases rows.len() - i,
    {
        if reset.is_before(&rows[i].reset) {
            return true;
        }
        i += 1;
    }
    false
}

/// The epoch of a date as it is read, if the date has an epoch and the
/// epoch a job run.
pub fn load_reset_date(rows: &Vec<EpochRow>, job_runs: &Vec<DbJobRun>, reset_date: CalendarDate) -> (r:
    Option<ResetDate>)
    ensures
        r == match position_of_date(rows@, reset_date) {
            Some(k) => match latest_job(job_runs@, rows@[k].reset_id) {
                Some(job) => Some(epoch_as_read(rows@[k], rows@, job.query_time)),
                None => None,
            },
            None => None,
        },
{
    let mut i: usize = 0;
    while i < rows.len()
        invariant
            i <= rows.len(),
            position_of_date(rows@.take(i as int), reset_date) is None,
        decreases rows.len() - i,
    {
        let ghost upto = rows@.take(i + 1);
        assert(upto.drop_last() =~= rows@.take(i as int));
        if rows[i].reset == reset_date {
            proof {
                lemma_found_stays_found(rows@, i + 1, reset_date);
            }
            let row = rows[i];
            return match latest_job_run(job_runs, row.reset_id) {
                Some(job) => Some(
                    ResetDate {
                        reset_id: row.reset_id,
                        reset: row.reset,
                        first_ts: row.first_ts,
                        latest_ts: job.query_time,
                        is_ongoing: !has_later_epoch(rows, row.reset),
                    },
                ),
                None => None,
            };
        }
        i += 1;
    }
    assert(rows@.take(i as int) =~= rows@);
    None
}

/// All epochs that have a job run, as they are read: each with the query
/// time of its latest job run, and ongoing if no epoch has a later date.
pub fn load_reset_dates(rows: &Vec<EpochRow>, job_runs: &Vec<DbJobRun>) -> (epochs: Vec<ResetDate>)
    ensures
        epochs@ == epochs_as_read(rows@, rows@, job_runs@),
{
    let mut epochs: Vec<ResetDate> = Vec::new();
    let mut i: usize = 0;
    while i < rows.len()
        invariant
            i <= rows.len(),
            epochs@ == epochs_as_read(rows@.take(i as int), rows@, job_runs@),
        decreases rows.len() - i,
    {
        let row = rows[i];
        let ghost upto = rows@.take(i + 1);
        assert(upto.drop_last() =~= rows@.take(i as int));
        match latest_job_run(job_runs, row.reset_id) {
            Some(job) => {
                epochs.push(
                    ResetDate {
                        reset_id: row.reset_id,
                        reset: row.reset,
                        first_ts: row.first_ts,
                        latest_ts: job.query_time,
                        is_ongoing: !has_later_epoch(rows, row.reset),
                    },
                );
            },
            None => {},
        }
        i += 1;
    }
    assert(rows@.take(i as int) =~= rows@);
    epochs
}

/// Finds the latest job run of an epoch.
pub fn latest_job_run(job_runs: &Vec<DbJobRun>, reset_id: i64) -> (r: Option<DbJobRun>)
    ensures
        r == latest_job(job_runs@, reset_id),
{
    let mut latest: Option<DbJobRun> = None;
    let mut i: usize = 0;
    while i < job_runs.len()
        invariant
            i <= job_runs.len(),
            latest == latest_job(job_runs@.take(i as int), reset_id),
        decreases job_runs.len() - i,
    {
        let run = job_runs[i];
        let ghost upto = job_runs@.take(i + 1);
        assert(upto.drop_last() =~= job_runs@.take(i as int));
        if run.reset_id == reset_id {
            latest = match latest {
                Some(so_far) => if so_far.query_time.is_at_or_before(&run.query_time) {
                    Some(run)
                } else {
                    Some(so_far)
                },
                None => Some(run),
            };
        }
        i += 1;
    }
    assert(job_runs@.take(i as int) =~= job_runs@);
    latest
}

/// The epoch of the latest date as it is read.
pub fn load_latest_reset_date(rows: &Vec<EpochRow>, job_runs: &Vec<DbJobRun>) -> (r: Option<
    ResetDate,
>)
    ensures
        r == latest_epoch_as_read(rows@, job_runs@),
{
    let mut latest: Option<usize> = None;
    let mut i: usize = 0;
    while i < rows.len()
        invariant
            i <= rows.len(),
            match latest {
                Some(k) => position_of_latest(rows@.take(i as int)) == Some(k as int) && k < i,
                None => position_of_latest(rows@.take(i as int)) is None,
            },
        decreases rows.len() - i,
    {
        let ghost upto = rows@.take(i + 1);
        assert(upto.drop_last() =~= rows@.take(i as int));
        latest = match latest {
            Some(k) => {
                if rows[k].reset.is_before(&rows[i].reset) {
                    Some(i)
                } else {
                    Some(k)
                }
            },
            None => Some(i),
        };
        i += 1;
    }
    assert(rows@.take(i as int) =~= rows@);
    match latest {
        Some(k) => {
            let row = rows[k];
            let latest_ts = match latest_job_run(job_runs, row.reset_id) {
                Some(job) => job.query_time,
                None => row.first_ts,
            };
            Some(
                ResetDate {
                    reset_id: row.reset_id,
                    reset: row.reset,
                    first_ts: row.first_ts,
                    latest_ts,
                    is_ongoing: !has_later_epoch(rows, row.reset),
                },
            )
        },
        None => None,
    }
}

} // verus!
