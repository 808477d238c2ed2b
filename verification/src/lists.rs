//! Lists as the collector and the queries use them: every element named
//! once, what is known left out, and a vector turned round to be taken apart
//! from its front.

use crate::text::{contains_text, copy_text, texts};
use itertools::Itertools;
use vstd::prelude::*;

verus! {

/// The elements of `s` in order, each kept where it first occurs.
pub open spec fn distinct<A>(s: Seq<A>) -> Seq<A>
    decreases s.len(),
{
    if s.len() == 0 {
        Seq::<A>::empty()
    } else {
        let before = distinct(s.drop_last());
        if before.contains(s.last()) {
            before
        } else {
            before.push(s.last())
        }
    }
}

/// The elements of `s` in order, without those that `known` holds.
pub open spec fn without<A>(s: Seq<A>, known: Seq<A>) -> Seq<A>
    decreases s.len(),
{
    if s.len() == 0 {
        Seq::<A>::empty()
    } else {
        let before = without(s.drop_last(), known);
        if known.contains(s.last()) {
            before
        } else {
            before.push(s.last())
        }
    }
}

/// A sequence grown by one element holds what it held before, and that element.
pub proof fn lemma_push_contains<A>(t: Seq<A>, x: A)
    ensures
        forall|a: A| #[trigger] t.push(x).contains(a) <==> t.contains(a) || a == x,
{
    assert forall|a: A| #[trigger] t.push(x).contains(a) <==> t.contains(a) || a == x by {
        if t.contains(a) {
            let k = choose|k: int| 0 <= k < t.len() && t[k] == a;
            assert(t.push(x)[k] == a);
        }
        if a == x {
            assert(t.push(x)[t.len() as int] == a);
        }
    }
}

/// `distinct` holds exactly the elements of the sequence, each once.
pub proof fn lemma_distinct<A>(s: Seq<A>)
    ensures
        distinct(s).no_duplicates(),
        forall|a: A| distinct(s).contains(a) <==> s.contains(a),
    decreases s.len(),
{
    if s.len() > 0 {
        let init = s.drop_last();
        lemma_distinct(init);
        assert(s =~= init.push(s.last()));
        lemma_push_contains(init, s.last());
        lemma_push_contains(distinct(init), s.last());
    }
}

/// A sequence that names nothing twice is left as it is by `distinct`.
pub proof fn lemma_distinct_no_duplicates_fixed<A>(s: Seq<A>)
    requires
        s.no_duplicates(),
    ensures
        distinct(s) == s,
    decreases s.len(),
{
    if s.len() > 0 {
        let init = s.drop_last();
        lemma_distinct_no_duplicates_fixed(init);
    }
}

/// What `distinct` made is left as it is by `distinct`.
pub proof fn lemma_distinct_again<A>(s: Seq<A>)
    ensures
        distinct(distinct(s)) == distinct(s),
{
    lemma_distinct(s);
    lemma_distinct_no_duplicates_fixed(distinct(s));
}

/// `without` keeps exactly the elements that `known` lacks, and adds no
/// duplicate.
pub proof fn lemma_without<A>(s: Seq<A>, known: Seq<A>)
    ensures
        forall|a: A| without(s, known).contains(a) <==> s.contains(a) && !known.contains(a),
        s.no_duplicates() ==> without(s, known).no_duplicates(),
    decreases s.len(),
{
    if s.len() > 0 {
        let init = s.drop_last();
        lemma_without(init, known);
        assert(s =~= init.push(s.last()));
        lemma_push_contains(init, s.last());
        lemma_push_contains(without(init, known), s.last());
    }
}

/// Calls `Itertools::unique` on the texts and collects what it yields.
/// Trusted: the adaptor yields the items in their order and passes over
/// every item equal to one it has yielded before.
#[verifier::external_body]
pub(crate) fn unique_texts(items: Vec<String>) -> (kept: Vec<String>)
    ensures
        texts(kept@) == distinct(texts(items@)),
{
    items.into_iter().unique().collect()
}

/// The texts of `items` that `known` lacks, in order.
pub fn texts_without(items: Vec<String>, known: &Vec<String>) -> (kept: Vec<String>)
    ensures
        texts(kept@) == without(texts(items@), texts(known@)),
{
    let mut kept: Vec<String> = Vec::new();
    let mut i: usize = 0;
    while i < items.len()
        invariant
            i <= items.len(),
            texts(kept@) == without(texts(items@).take(i as int), texts(known@)),
        decreases items.len() - i,
    {
        let ghost upto = texts(items@).take(i + 1);
        assert(upto.drop_last() =~= texts(items@).take(i as int));
        if !contains_text(known, &items[i]) {
            kept.push(copy_text(&items[i]));
        }
        i += 1;
    }
    assert(texts(items@).take(i as int) =~= texts(items@));
    kept
}

} // verus!
