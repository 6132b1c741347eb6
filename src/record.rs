//! Records keyed by a numeric id, and their stable ordering by that id.

use vstd::prelude::*;

verus! {

#[verifier::external_type_specification]
#[verifier::external_body]
pub struct ExJsonValue(serde_json::Value);

/// One entity of a collection: its numeric id, and the whole JSON object it
/// came from, carried through untouched.
pub struct Record {
    pub id: u64,
    pub body: serde_json::Value,
}

impl Record {
    pub fn new(id: u64, body: serde_json::Value) -> (r: Record)
        ensures
            r.id == id,
            r.body == body,
    {
        Record { id, body }
    }

    pub fn id(&self) -> (r: u64)
        ensures
            r == self.id,
    {
        self.id
    }

    pub fn body(&self) -> (r: &serde_json::Value)
        ensures
            *r == self.body,
    {
        &self.body
    }
}

/// Every record's id is at most the id of each record after it.
pub open spec fn sorted_by_id(s: Seq<Record>) -> bool {
    forall|i: int, j: int| 0 <= i <= j < s.len() ==> s[i].id <= s[j].id
}

/// Where a record with `id` goes in `s`: after the last record whose id is at
/// most `id`, scanning from the back; in a sorted `s`, after all records with
/// an id at most `id`.
pub open spec fn insert_pos(s: Seq<Record>, id: u64) -> nat
    decreases s.len(),
{
    if s.len() == 0 {
        0
    } else if s.last().id <= id {
        s.len()
    } else {
        insert_pos(s.drop_last(), id)
    }
}

/// `s` with `r` placed after every record whose id is at most `r.id`.
pub open spec fn insert_by_id(s: Seq<Record>, r: Record) -> Seq<Record> {
    s.insert(insert_pos(s, r.id) as int, r)
}

/// The stable ordering of `s` by id: records taken in order, each inserted
/// after the records already placed whose id is at most its own.
pub open spec fn sort_by_id_spec(s: Seq<Record>) -> Seq<Record>
    decreases s.len(),
{
    if s.len() == 0 {
        Seq::empty()
    } else {
        insert_by_id(sort_by_id_spec(s.drop_last()), s.last())
    }
}

pub proof fn lemma_insert_pos_bound(s: Seq<Record>, id: u64)
    ensures
        insert_pos(s, id) <= s.len(),
    decreases s.len(),
{
    if s.len() > 0 && s.last().id > id {
        lemma_insert_pos_bound(s.drop_last(), id);
    }
}

/// In a sorted sequence, the records before the insertion point have an id
/// at most `id` and those from it on have a greater one.
pub proof fn lemma_insert_pos_splits(s: Seq<Record>, id: u64)
    requires
        sorted_by_id(s),
    ensures
        insert_pos(s, id) <= s.len(),
        forall|i: int| 0 <= i < insert_pos(s, id) ==> s[i].id <= id,
        forall|i: int| insert_pos(s, id) <= i < s.len() ==> s[i].id > id,
    decreases s.len(),
{
    lemma_insert_pos_bound(s, id);
    if s.len() > 0 {
        let t = s.drop_last();
        if s.last().id > id {
            assert(sorted_by_id(t));
            lemma_insert_pos_splits(t, id);
            assert forall|i: int| 0 <= i < insert_pos(s, id) implies s[i].id <= id by {
                assert(t[i] == s[i]);
            }
            assert forall|i: int| insert_pos(s, id) <= i < s.len() implies s[i].id > id by {
                if i < t.len() {
                    assert(t[i] == s[i]);
                }
            }
        } else {
            assert forall|i: int| 0 <= i < insert_pos(s, id) implies s[i].id <= id by {
                assert(s[i].id <= s[s.len() - 1].id);
            }
        }
    }
}

proof fn lemma_insert_keeps_sorted(s: Seq<Record>, r: Record)
    requires
        sorted_by_id(s),
    ensures
        sorted_by_id(insert_by_id(s, r)),
{
    lemma_insert_pos_splits(s, r.id);
    let p = insert_pos(s, r.id) as int;
    let t = insert_by_id(s, r);
    assert forall|i: int, j: int| 0 <= i <= j < t.len() implies t[i].id <= t[j].id by {
        if i < p && j < p {
        } else if i < p && j == p {
        } else if i < p {
            assert(t[j] == s[j - 1]);
        } else if i == p && j > p {
            assert(t[j] == s[j - 1]);
        } else if i > p {
            assert(t[i] == s[i - 1]);
            assert(t[j] == s[j - 1]);
        }
    }
}

proof fn lemma_insert_multiset(s: Seq<Record>, r: Record)
    ensures
        insert_by_id(s, r).to_multiset() == s.to_multiset().insert(r),
        insert_by_id(s, r).len() == s.len() + 1,
{
    lemma_insert_pos_bound(s, r.id);
    let p = insert_pos(s, r.id) as int;
    let a = s.subrange(0, p);
    let b = s.subrange(p, s.len() as int);
    assert(s =~= a + b);
    assert(insert_by_id(s, r) =~= a.push(r) + b);
    vstd::seq_lib::lemma_multiset_commutative(a.push(r), b);
    vstd::seq_lib::lemma_multiset_commutative(a, b);
    a.to_multiset_ensures();
    assert(a.push(r).to_multiset() == a.to_multiset().insert(r));
    assert(a.to_multiset().insert(r).add(b.to_multiset()) =~= a.to_multiset().add(
        b.to_multiset(),
    ).insert(r));
}

/// The ordering by id is sorted and holds exactly the records it was given.
pub proof fn lemma_sort_by_id_spec(s: Seq<Record>)
    ensures
        sorted_by_id(sort_by_id_spec(s)),
        sort_by_id_spec(s).to_multiset() == s.to_multiset(),
        sort_by_id_spec(s).len() == s.len(),
    decreases s.len(),
{
    if s.len() == 0 {
        assert(s =~= Seq::<Record>::empty());
    } else {
        let t = s.drop_last();
        lemma_sort_by_id_spec(t);
        lemma_insert_keeps_sorted(sort_by_id_spec(t), s.last());
        lemma_insert_multiset(sort_by_id_spec(t), s.last());
        assert(s =~= t.push(s.last()));
        t.to_multiset_ensures();
    }
}

/// Orders the records by id, ascending; records with equal ids keep the order
/// in which they were given.
pub fn sort_by_id(records: Vec<Record>) -> (r: Vec<Record>)
    ensures
        r@ == sort_by_id_spec(records@),
        sorted_by_id(r@),
        r@.to_multiset() == records@.to_multiset(),
{
    let mut input = records;
    let mut out: Vec<Record> = Vec::new();
    let mut taken: Vec<Record> = Vec::new();
    let ghost orig = input@;
    // Take the records from the back, then feed them in their first order.
    while input.len() > 0
        invariant
            orig =~= input@ + taken@.reverse(),
        decreases input.len(),
    {
        let rec = input.pop().unwrap();
        taken.push(rec);
    }
    let ghost rest = taken@;
    let mut done: usize = 0;
    let n: usize = taken.len();
    while taken.len() > 0
        invariant
            orig =~= rest.reverse(),
            n == rest.len(),
            taken@ =~= rest.subrange(0, rest.len() - done),
            done <= n,
            out@ == sort_by_id_spec(orig.subrange(0, done as int)),
        decreases taken.len(),
    {
        let rec = taken.pop().unwrap();
        proof {
            assert(rec == orig[done as int]);
            assert(orig.subrange(0, done + 1).drop_last() =~= orig.subrange(0, done as int));
        }
        let id = rec.id;
        let mut j: usize = out.len();
        proof {
            assert(out@.subrange(0, j as int) =~= out@);
        }
        while j > 0 && out[j - 1].id > id
            invariant
                j <= out@.len(),
                insert_pos(out@.subrange(0, j as int), id) == insert_pos(out@, id),
            decreases j,
        {
            proof {
                assert(out@.subrange(0, j as int).drop_last() =~= out@.subrange(0, j - 1));
            }
            j = j - 1;
        }
        proof {
            if j == 0 {
                assert(out@.subrange(0, 0) =~= Seq::<Record>::empty());
            }
        }
        out.insert(j, rec);
        done = done + 1;
    }
    proof {
        assert(orig.subrange(0, done as int) =~= orig);
        lemma_sort_by_id_spec(orig);
    }
    out
}

} // verus!
