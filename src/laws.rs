//! Properties of the whole merge: completeness, tolerance of failed pages,
//! the single-page case, and stability of the ordering.

use vstd::prelude::*;
use crate::aggregate::{
    FetchOutcome, assembled, fan_out_pages, kept_records, outcome_records,
};
use crate::envelope::{bodies_of, json_text};
use crate::record::{
    Record, insert_by_id, insert_pos, lemma_sort_by_id_spec, sort_by_id_spec, sorted_by_id,
};

verus! {

/// Every page of the fan-out was fetched.
pub open spec fn all_fetched(os: Seq<FetchOutcome>) -> bool {
    forall|k: int| 0 <= k < os.len() ==> (#[trigger] os[k]) is Fetched
}

/// The number of records over all fetched pages.
pub open spec fn fetched_len(os: Seq<FetchOutcome>) -> nat
    decreases os.len(),
{
    if os.len() == 0 {
        0
    } else {
        outcome_records(os[0]).len() + fetched_len(os.drop_first())
    }
}

/// Some fetched page holds a record with this id.
pub open spec fn id_in_pages(os: Seq<FetchOutcome>, id: u64) -> bool {
    exists|k: int, i: int|
        0 <= k < os.len() && 0 <= i < outcome_records(os[k]).len() && (#[trigger] outcome_records(
            os[k],
        )[i]).id == id
}

/// Some record of `s` has this id.
pub open spec fn id_in(s: Seq<Record>, id: u64) -> bool {
    exists|i: int| 0 <= i < s.len() && (#[trigger] s[i]).id == id
}

proof fn lemma_kept_len(os: Seq<FetchOutcome>)
    ensures
        kept_records(os).len() == fetched_len(os),
    decreases os.len(),
{
    if os.len() > 0 {
        lemma_kept_len(os.drop_first());
    }
}

proof fn lemma_kept_ids(os: Seq<FetchOutcome>, id: u64)
    ensures
        id_in(kept_records(os), id) <==> id_in_pages(os, id),
    decreases os.len(),
{
    if os.len() > 0 {
        let rest = os.drop_first();
        lemma_kept_ids(rest, id);
        let a = outcome_records(os[0]);
        let b = kept_records(rest);
        let s = kept_records(os);
        assert(s == a + b);
        if id_in(s, id) {
            let i = choose|i: int| 0 <= i < s.len() && (#[trigger] s[i]).id == id;
            if i < a.len() {
                assert(outcome_records(os[0])[i].id == id);
            } else {
                assert(b[i - a.len()].id == id);
                let (k, j) = choose|k: int, j: int|
                    0 <= k < rest.len() && 0 <= j < outcome_records(rest[k]).len() && (
                    #[trigger] outcome_records(rest[k])[j]).id == id;
                assert(rest[k] == os[k + 1]);
                assert(outcome_records(os[k + 1])[j].id == id);
            }
        }
        if id_in_pages(os, id) {
            let (k, j) = choose|k: int, j: int|
                0 <= k < os.len() && 0 <= j < outcome_records(os[k]).len() && (
                #[trigger] outcome_records(os[k])[j]).id == id;
            if k == 0 {
                assert(s[j].id == id);
            } else {
                assert(rest[k - 1] == os[k]);
                assert(outcome_records(rest[k - 1])[j].id == id);
                let i = choose|i: int| 0 <= i < b.len() && (#[trigger] b[i]).id == id;
                assert(s[a.len() + i].id == id);
            }
        }
    }
}

proof fn lemma_same_multiset_ids(s: Seq<Record>, t: Seq<Record>, id: u64)
    requires
        s.to_multiset() == t.to_multiset(),
    ensures
        id_in(s, id) <==> id_in(t, id),
{
    s.to_multiset_ensures();
    t.to_multiset_ensures();
    if id_in(s, id) {
        let i = choose|i: int| 0 <= i < s.len() && (#[trigger] s[i]).id == id;
        let x = s[i];
        assert(s.contains(x));
        assert(s.to_multiset().count(x) > 0);
        assert(t.to_multiset().count(x) > 0);
        assert(t.contains(x));
        let j = choose|j: int| 0 <= j < t.len() && t[j] == x;
        assert(t[j].id == id);
    }
    if id_in(t, id) {
        let i = choose|i: int| 0 <= i < t.len() && (#[trigger] t[i]).id == id;
        let x = t[i];
        assert(t.contains(x));
        assert(t.to_multiset().count(x) > 0);
        assert(s.to_multiset().count(x) > 0);
        assert(s.contains(x));
        let j = choose|j: int| 0 <= j < s.len() && s[j] == x;
        assert(s[j].id == id);
    }
}

/// When every page is fetched and the pages together hold as many records as
/// the API reports, the collection holds exactly that many records, and an id
/// is in it exactly when it is on the first page or on a fetched page.
pub proof fn lemma_complete_when_all_fetched(
    first: Seq<Record>,
    os: Seq<FetchOutcome>,
    count: nat,
)
    requires
        all_fetched(os),
        first.len() + fetched_len(os) == count,
    ensures
        assembled(first, os).len() == count,
        forall|id: u64|
            id_in(assembled(first, os), id) <==> (id_in(first, id) || id_in_pages(os, id)),
{
    let all = first + kept_records(os);
    lemma_sort_by_id_spec(all);
    lemma_kept_len(os);
    assert forall|id: u64|
        id_in(assembled(first, os), id) <==> (id_in(first, id) || id_in_pages(os, id)) by {
        lemma_same_multiset_ids(assembled(first, os), all, id);
        lemma_kept_ids(os, id);
        if id_in(all, id) {
            let i = choose|i: int| 0 <= i < all.len() && (#[trigger] all[i]).id == id;
            if i < first.len() {
                assert(first[i].id == id);
            } else {
                assert(kept_records(os)[i - first.len()].id == id);
            }
        }
        if id_in(first, id) {
            let i = choose|i: int| 0 <= i < first.len() && (#[trigger] first[i]).id == id;
            assert(all[i].id == id);
        }
        if id_in(kept_records(os), id) {
            let i = choose|i: int|
                0 <= i < kept_records(os).len() && (#[trigger] kept_records(os)[i]).id == id;
            assert(all[first.len() + i].id == id);
        }
    }
}

proof fn lemma_kept_without_failed(os: Seq<FetchOutcome>, k: int)
    requires
        0 <= k < os.len(),
        os[k] is Failed,
    ensures
        kept_records(os) == kept_records(os.remove(k)),
    decreases os.len(),
{
    if k == 0 {
        assert(os.remove(0) =~= os.drop_first());
        assert(outcome_records(os[0]) + kept_records(os.drop_first()) =~= kept_records(
            os.drop_first(),
        ));
    } else {
        let rest = os.drop_first();
        lemma_kept_without_failed(rest, k - 1);
        assert(os.remove(k).drop_first() =~= rest.remove(k - 1));
        assert(os.remove(k)[0] == os[0]);
    }
}

/// A failed page is simply left out: the collection is the one that the
/// remaining pages give, ordered and holding exactly their records and the
/// first page's.
pub proof fn lemma_failed_page_dropped(first: Seq<Record>, os: Seq<FetchOutcome>, k: int)
    requires
        0 <= k < os.len(),
        os[k] is Failed,
    ensures
        assembled(first, os) == assembled(first, os.remove(k)),
        sorted_by_id(assembled(first, os)),
        assembled(first, os).to_multiset() == (first + kept_records(
            os.remove(k),
        )).to_multiset(),
{
    lemma_kept_without_failed(os, k);
    lemma_sort_by_id_spec(first + kept_records(os));
}

/// A collection of one page fetches no other page, and is its first page's
/// records, ordered by id.
pub proof fn lemma_single_page(first: Seq<Record>)
    ensures
        fan_out_pages(1) == Seq::<u64>::empty(),
        assembled(first, Seq::empty()) == sort_by_id_spec(first),
        sorted_by_id(assembled(first, Seq::empty())),
        assembled(first, Seq::empty()).to_multiset() == first.to_multiset(),
{
    assert(kept_records(Seq::<FetchOutcome>::empty()) =~= Seq::<Record>::empty());
    assert(first + Seq::<Record>::empty() =~= first);
    lemma_sort_by_id_spec(first);
}

/// Ordering a sequence that is already ordered by id leaves it unchanged.
pub proof fn lemma_sorted_is_fixed(s: Seq<Record>)
    requires
        sorted_by_id(s),
    ensures
        sort_by_id_spec(s) == s,
    decreases s.len(),
{
    if s.len() > 0 {
        let t = s.drop_last();
        assert(sorted_by_id(t));
        lemma_sorted_is_fixed(t);
        if t.len() > 0 {
            assert(t.last().id <= s.last().id);
        }
        assert(insert_pos(t, s.last().id) == t.len());
        assert(insert_by_id(t, s.last()) =~= s);
    }
}

/// Running the ordering again on its own output gives the same sequence, so
/// that the merge, run again on what it produced, reproduces it.
pub proof fn lemma_sort_idempotent(s: Seq<Record>)
    ensures
        sort_by_id_spec(sort_by_id_spec(s)) == sort_by_id_spec(s),
{
    lemma_sort_by_id_spec(s);
    lemma_sorted_is_fixed(sort_by_id_spec(s));
}

/// The JSON text of the merged collection is the same when the merge is run
/// again on what it produced: ordering it again changes no byte.
pub proof fn lemma_output_text_stable(first: Seq<Record>, os: Seq<FetchOutcome>)
    ensures
        json_text(bodies_of(sort_by_id_spec(assembled(first, os)))) == json_text(
            bodies_of(assembled(first, os)),
        ),
{
    lemma_sort_idempotent(first + kept_records(os));
}

} // verus!
