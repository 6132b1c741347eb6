//! Planning the fan-out over pages and merging what it brought back.

use vstd::prelude::*;
use crate::record::{Record, sort_by_id, sort_by_id_spec, sorted_by_id};

verus! {

/// Why a page's body could not be read as a page envelope.
#[derive(PartialEq, Eq, Structural, Clone, Copy, Debug)]
pub enum DecodeError {
    /// The body is not JSON text.
    NotJson,
    /// The body has no `info` object with an unsigned `count` and `pages`.
    BadInfo,
    /// The body has no `results` array.
    BadResults,
    /// An element of `results` has no unsigned `id`.
    BadId,
}

/// Why one page fetch failed.
#[derive(PartialEq, Eq, Structural, Clone, Copy, Debug)]
pub enum PageError {
    /// The request never got a response (DNS, connection, timeout).
    Transport,
    /// The response came with a status outside 200..=299.
    Status(u16),
    /// The response body was not a page envelope.
    Decode(DecodeError),
}

/// What one page fetch gave: its records, or the cause of its failure.
pub enum FetchOutcome {
    Fetched(Vec<Record>),
    Failed(PageError),
}

/// The records that an outcome contributes: all of a fetched page, none of
/// a failed one.
pub open spec fn outcome_records(o: FetchOutcome) -> Seq<Record> {
    match o {
        FetchOutcome::Fetched(v) => v@,
        FetchOutcome::Failed(_) => Seq::empty(),
    }
}

/// The records of all fetched pages, page after page, failed pages left out.
pub open spec fn kept_records(os: Seq<FetchOutcome>) -> Seq<Record>
    decreases os.len(),
{
    if os.len() == 0 {
        Seq::empty()
    } else {
        outcome_records(os[0]) + kept_records(os.drop_first())
    }
}

/// The pages that the fan-out fetches once page one is in hand: 2 through
/// `pages`, in order; none when the collection has a single page (or none).
pub open spec fn fan_out_pages(pages: u64) -> Seq<u64> {
    if pages < 2 {
        Seq::empty()
    } else {
        Seq::new((pages - 1) as nat, |i: int| (i + 2) as u64)
    }
}

/// The final collection: the first page's records and those of every fetched
/// page, ordered by id.
pub open spec fn assembled(first: Seq<Record>, os: Seq<FetchOutcome>) -> Seq<Record> {
    sort_by_id_spec(first + kept_records(os))
}

/// Pages 2 through `pages`, each to be fetched on its own.
pub fn pages_to_fetch(pages: u64) -> (r: Vec<u64>)
    ensures
        r@ == fan_out_pages(pages),
{
    let mut r: Vec<u64> = Vec::new();
    if pages < 2 {
        assert(r@ =~= fan_out_pages(pages));
        return r;
    }
    let mut p: u64 = 2;
    while p <= pages
        invariant
            2 <= p,
            p <= pages + 1,
            pages >= 2,
            r@.len() == p - 2,
            forall|i: int| 0 <= i < r@.len() ==> r@[i] == i + 2,
        decreases pages + 1 - p,
    {
        r.push(p);
        if p == pages {
            assert(r@ =~= fan_out_pages(pages));
            return r;
        }
        p = p + 1;
    }
    assert(r@ =~= fan_out_pages(pages));
    r
}

/// Tells a fetched page from a failed one.
pub fn outcome_of(page: Result<Vec<Record>, PageError>) -> (r: FetchOutcome)
    ensures
        page is Ok ==> r == FetchOutcome::Fetched(page->Ok_0),
        page is Err ==> r == FetchOutcome::Failed(page->Err_0),
{
    match page {
        Ok(v) => FetchOutcome::Fetched(v),
        Err(e) => FetchOutcome::Failed(e),
    }
}

/// The records of every fetched page, page after page; failed pages are
/// dropped.
pub fn collect_records(outcomes: Vec<FetchOutcome>) -> (r: Vec<Record>)
    ensures
        r@ == kept_records(outcomes@),
{
    let mut rest = outcomes;
    let mut out: Vec<Record> = Vec::new();
    let ghost orig = rest@;
    while rest.len() > 0
        invariant
            out@ + kept_records(rest@) == kept_records(orig),
        decreases rest.len(),
    {
        let ghost before = rest@;
        let o = rest.remove(0);
        proof {
            assert(before.drop_first() =~= rest@);
        }
        match o {
            FetchOutcome::Fetched(mut v) => {
                out.append(&mut v);
            },
            FetchOutcome::Failed(_) => {},
        }
        assert(kept_records(before) == outcome_records(o) + kept_records(rest@));
    }
    assert(kept_records(rest@) =~= Seq::<Record>::empty());
    assert(out@ + Seq::<Record>::empty() =~= out@);
    out
}

/// Merges the first page with the outcomes of the fan-out and orders the
/// whole by id.
pub fn assemble(first_page: Vec<Record>, outcomes: Vec<FetchOutcome>) -> (r: Vec<Record>)
    ensures
        r@ == assembled(first_page@, outcomes@),
        sorted_by_id(r@),
        r@.to_multiset() == (first_page@ + kept_records(outcomes@)).to_multiset(),
{
    let mut all = first_page;
    let mut rest = collect_records(outcomes);
    all.append(&mut rest);
    sort_by_id(all)
}

} // verus!
