//! Fetching a listing page by page: the first page tells how many there
//! are, the others follow in page order.

use crate::model::{
    GetMeta, ListWaypointsInSystemResponse, ListWaypointsInSystemResponseData, Meta,
};
use vstd::prelude::*;

verus! {

/// Items asked for per page.
pub const PAGE_LIMIT: u32 = 20;

/// Which page to fetch, and how many items it may hold.
#[derive(Clone, Copy, Debug, PartialEq, Eq, Structural)]
pub struct PaginationInput {
    pub page: u32,
    pub limit: u32,
}

/// Pages needed to list `total` items at `limit` items a page: the quotient
/// rounded up. A page size of zero can never exhaust a listing that has
/// items, so the count is then as large as it can be.
pub open spec fn page_count(total: u32, limit: u32) -> int {
    if limit == 0 {
        if total == 0 {
            0
        } else {
            u32::MAX as int
        }
    } else {
        (total + limit - 1) / (limit as int)
    }
}

/// The request for page `page`.
pub open spec fn page_request(page: int) -> PaginationInput {
    PaginationInput { page: page as u32, limit: PAGE_LIMIT }
}

/// The requests for all pages after the first, in page order.
pub open spec fn remaining_requests(meta: Meta) -> Seq<PaginationInput> {
    Seq::new(
        if page_count(meta.total, meta.limit) <= 1 {
            0nat
        } else {
            (page_count(meta.total, meta.limit) - 1) as nat
        },
        |i: int| page_request(i + 2),
    )
}

/// The page count is the least number of pages that hold every item.
pub proof fn lemma_page_count_is_ceiling(total: u32, limit: u32)
    requires
        limit > 0,
    ensures
        page_count(total, limit) * limit >= total,
        (page_count(total, limit) - 1) * limit < total || page_count(total, limit) == 0,
        0 <= page_count(total, limit) <= total,
{
    let n = page_count(total, limit);
    let l = limit as int;
    let t = total as int;
    assert((t + l - 1) == l * ((t + l - 1) / l) + (t + l - 1) % l) by {
        vstd::arithmetic::div_mod::lemma_fundamental_div_mod(t + l - 1, l);
    }
    assert(n * l == l * n) by (nonlinear_arith);
    assert((n - 1) * l == n * l - l) by (nonlinear_arith);
    if n > t {
        assert(n * l >= (t + 1) * l) by (nonlinear_arith)
            requires
                n >= t + 1,
                l > 0,
        ;
        assert((t + 1) * l == t * l + l) by (nonlinear_arith);
        assert(t * l >= t) by (nonlinear_arith)
            requires
                t >= 0,
                l >= 1,
        ;
    }
}

/// How many pages a listing with this envelope has.
pub fn total_number_pages(meta: &Meta) -> (pages: u32)
    ensures
        pages == page_count(meta.total, meta.limit),
{
    if meta.limit == 0 {
        if meta.total == 0 {
            0
        } else {
            u32::MAX
        }
    } else {
        proof {
            lemma_page_count_is_ceiling(meta.total, meta.limit);
        }
        ((meta.total as u64 + meta.limit as u64 - 1) / (meta.limit as u64)) as u32
    }
}

/// The requests that remain once the first page has told how the listing is paged.
pub fn remaining_page_requests(meta: &Meta) -> (requests: Vec<PaginationInput>)
    ensures
        requests@ == remaining_requests(*meta),
{
    let pages = total_number_pages(meta);
    let mut requests: Vec<PaginationInput> = Vec::new();
    let mut page: u32 = 1;
    while page < pages
        invariant
            1 <= page,
            pages == page_count(meta.total, meta.limit),
            page <= pages || page == 1,
            requests@.len() == page - 1,
            forall|i: int| 0 <= i < requests@.len() ==> requests@[i] == page_request(i + 2),
        decreases pages - page,
    {
        page += 1;
        requests.push(PaginationInput { page, limit: PAGE_LIMIT });
    }
    requests
}

/// Whether `pages` are the pages of a listing as `call` answered for them:
/// the first page, and for each request that its envelope leaves open the
/// page that answers it, in page order.
pub open spec fn are_all_pages<T: GetMeta, E, F: Fn(PaginationInput) -> Result<T, E>>(
    pages: Seq<T>,
    call: F,
) -> bool {
    &&& pages.len() >= 1
    &&& pages.len() == 1 + remaining_requests(pages[0].meta()).len()
    &&& call.ensures((page_request(1),), Ok(pages[0]))
    &&& forall|i: int|
        1 <= i < pages.len() ==> call.ensures(
            (remaining_requests(pages[0].meta())[i - 1],),
            Ok(#[trigger] pages[i]),
        )
}

/// Whether `failure` is how `call` answered for a page of the listing: for
/// the first page, or for one of the requests that the first page's
/// envelope leaves open.
pub open spec fn is_page_failure<T: GetMeta, E, F: Fn(PaginationInput) -> Result<T, E>>(
    failure: E,
    call: F,
) -> bool {
    ||| call.ensures((page_request(1),), Err(failure))
    ||| exists|first: T, i: int|
        #![trigger remaining_requests(first.meta())[i]]
        {
            &&& call.ensures((page_request(1),), Ok(first))
            &&& 0 <= i < remaining_requests(first.meta()).len()
            &&& call.ensures((remaining_requests(first.meta())[i],), Err(failure))
        }
}

/// Fetches every page of a listing. The first page is fetched first; the
/// envelope it carries decides how many follow. The pages come back in page
/// order, each the answer to its own request. One page that cannot be
/// fetched fails the whole, and no page is handed out.
pub fn paginate<T: GetMeta, E, F: Fn(PaginationInput) -> Result<T, E>>(call: F) -> (r: Result<
    Vec<T>,
    E,
>)
    requires
        forall|input: PaginationInput| call.requires((input,)),
    ensures
        match r {
            Ok(pages) => are_all_pages(pages@, call),
            Err(failure) => is_page_failure(failure, call),
        },
{
    let first_page = match call(PaginationInput { page: 1, limit: PAGE_LIMIT }) {
        Ok(page) => page,
        Err(failure) => {
            return Err(failure);
        },
    };
    let meta = first_page.get_meta();
    let requests = remaining_page_requests(&meta);
    let mut pages: Vec<T> = Vec::new();
    pages.push(first_page);
    let mut i: usize = 0;
    while i < requests.len()
        invariant
            i <= requests.len(),
            forall|input: PaginationInput| call.requires((input,)),
            pages.len() == i + 1,
            pages[0].meta() == meta,
            requests@ == remaining_requests(meta),
            call.ensures((page_request(1),), Ok(pages[0])),
            forall|k: int|
                1 <= k < pages.len() ==> call.ensures((requests@[k - 1],), Ok(#[trigger] pages[k])),
        decreases requests.len() - i,
    {
        match call(requests[i]) {
            Ok(page) => {
                pages.push(page);
            },
            Err(failure) => {
                return Err(failure);
            },
        }
        i += 1;
    }
    Ok(pages)
}

/// A page that hands out the items it holds.
pub trait Page: GetMeta + Sized {
    type Item;

    /// The items of the page, in their order.
    spec fn items(&self) -> Seq<Self::Item>;

    fn into_items(self) -> (items: Vec<Self::Item>)
        ensures
            items@ == self.items(),
    ;
}

impl Page for ListWaypointsInSystemResponse {
    type Item = ListWaypointsInSystemResponseData;

    open spec fn items(&self) -> Seq<ListWaypointsInSystemResponseData> {
        self.data@
    }

    fn into_items(self) -> (items: Vec<ListWaypointsInSystemResponseData>) {
        self.data
    }
}

/// The items of the pages, page after page.
pub open spec fn all_items<T: Page>(pages: Seq<T>) -> Seq<T::Item>
    decreases pages.len(),
{
    if pages.len() == 0 {
        Seq::<T::Item>::empty()
    } else {
        all_items(pages.drop_last()) + pages.last().items()
    }
}

/// Puts the items of the pages one after another, in page order.
pub fn concatenate<T: Page>(pages: Vec<T>) -> (items: Vec<T::Item>)
    ensures
        items@ == all_items(pages@),
{
    let mut items: Vec<T::Item> = Vec::new();
    for page in it: pages
        invariant
            it.seq() == pages@,
            items@ == all_items(pages@.take(it.index() as int)),
    {
        let ghost upto = pages@.take(it.index() + 1);
        assert(upto.drop_last() =~= pages@.take(it.index() as int));
        assert(upto.last() == page);
        let mut part = page.into_items();
        items.append(&mut part);
    }
    assert(pages@.take(pages@.len() as int) =~= pages@);
    items
}

/// Fetches a whole listing: the items of all its pages, in page order,
/// without gap and without an item of a page twice. One page that cannot be
/// fetched fails the whole, and no item is handed out.
pub fn paginate_items<T: Page, E, F: Fn(PaginationInput) -> Result<T, E>>(call: F) -> (r: Result<
    Vec<T::Item>,
    E,
>)
    requires
        forall|input: PaginationInput| call.requires((input,)),
    ensures
        match r {
            Ok(items) => exists|pages: Seq<T>|
                are_all_pages(pages, call) && items@ == #[trigger] all_items(pages),
            Err(failure) => is_page_failure(failure, call),
        },
{
    match paginate(call) {
        Ok(pages) => {
            let ghost fetched = pages@;
            let items = concatenate(pages);
            assert(are_all_pages(fetched, call) && items@ == all_items(fetched));
            Ok(items)
        },
        Err(failure) => Err(failure),
    }
}

} // verus!
