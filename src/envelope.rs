//! Reading a page envelope out of a response body, and writing a collection
//! back out as JSON text.

use vstd::prelude::*;
use crate::aggregate::{DecodeError, FetchOutcome, PageError};
use crate::record::Record;

verus! {

#[verifier::external_type_specification]
#[verifier::external_body]
pub struct ExJsonError(serde_json::Error);

/// One page of a collection as the API reports it: the total number of
/// records when reported, the total number of pages, and this page's records.
pub struct PageEnvelope {
    pub count: Option<u64>,
    pub pages: u64,
    pub records: Vec<Record>,
}

/// The value that serde_json parses out of JSON text, or `None` when the text
/// is not JSON.
pub uninterp spec fn parsed_json(s: Seq<char>) -> Option<serde_json::Value>;

/// The member `key` of a JSON object; `None` for a missing key or a value
/// that is not an object.
pub uninterp spec fn json_member(v: serde_json::Value, key: Seq<char>) -> Option<
    serde_json::Value,
>;

/// A JSON value as an unsigned integer, when it is one.
pub uninterp spec fn json_u64(v: serde_json::Value) -> Option<u64>;

/// The elements of a JSON array, when the value is one.
pub uninterp spec fn json_array(v: serde_json::Value) -> Option<Seq<serde_json::Value>>;

/// The compact JSON text of an array of values.
pub uninterp spec fn json_text(vs: Seq<serde_json::Value>) -> Seq<char>;

/// Relies on serde_json::from_str: parses JSON text into a value, or fails;
/// the outcome depends on the text alone.
#[verifier::external_body]
fn parse_json(body: &str) -> (r: Result<serde_json::Value, serde_json::Error>)
    ensures
        r is Ok <==> parsed_json(body@) is Some,
        r is Ok ==> r->Ok_0 == parsed_json(body@)->Some_0,
{
    serde_json::from_str::<serde_json::Value>(body)
}

/// Relies on serde_json::Value::get: the member `key` of an object, if any.
#[verifier::external_body]
fn member<'a>(v: &'a serde_json::Value, key: &str) -> (r: Option<&'a serde_json::Value>)
    ensures
        r is Some <==> json_member(*v, key@) is Some,
        r is Some ==> *r->Some_0 == json_member(*v, key@)->Some_0,
{
    v.get(key)
}

/// Relies on serde_json::Value::as_u64: the value as an unsigned integer, if
/// it is one.
#[verifier::external_body]
fn as_unsigned(v: &serde_json::Value) -> (r: Option<u64>)
    ensures
        r == json_u64(*v),
{
    v.as_u64()
}

/// Relies on serde_json::Value::as_array: the elements of an array value, if
/// it is one (cloned).
#[verifier::external_body]
fn elements(v: &serde_json::Value) -> (r: Option<Vec<serde_json::Value>>)
    ensures
        r is Some <==> json_array(*v) is Some,
        r is Some ==> r->Some_0@ == json_array(*v)->Some_0,
{
    v.as_array().cloned()
}

/// Relies on serde_json::to_string: the JSON text of an array of the records'
/// objects, in the records' order; a `Value` always serializes.
#[verifier::external_body]
fn write_json(records: &Vec<Record>) -> (r: Result<String, serde_json::Error>)
    ensures
        r is Ok,
        r->Ok_0@ == json_text(bodies_of(records@)),
{
    let bodies: Vec<&serde_json::Value> = records.iter().map(|r| &r.body).collect();
    serde_json::to_string(&bodies)
}

/// The JSON objects of a sequence of records, in order.
pub open spec fn bodies_of(rs: Seq<Record>) -> Seq<serde_json::Value> {
    rs.map_values(|x: Record| x.body)
}

/// An unsigned integer member of an object.
pub open spec fn member_u64(v: serde_json::Value, key: Seq<char>) -> Option<u64> {
    match json_member(v, key) {
        Some(x) => json_u64(x),
        None => None,
    }
}

/// An unsigned integer member of the envelope's `info` object.
pub open spec fn info_u64(v: serde_json::Value, key: Seq<char>) -> Option<u64> {
    match json_member(v, "info"@) {
        Some(info) => member_u64(info, key),
        None => None,
    }
}

/// `info.pages` of an envelope.
pub open spec fn envelope_pages(v: serde_json::Value) -> Option<u64> {
    info_u64(v, "pages"@)
}

/// `info.count` of an envelope.
pub open spec fn envelope_count(v: serde_json::Value) -> Option<u64> {
    info_u64(v, "count"@)
}

/// The elements of the envelope's `results` array.
pub open spec fn result_items(v: serde_json::Value) -> Option<Seq<serde_json::Value>> {
    match json_member(v, "results"@) {
        Some(res) => json_array(res),
        None => None,
    }
}

/// The `id` of an element of `results`.
pub open spec fn item_id(x: serde_json::Value) -> Option<u64> {
    member_u64(x, "id"@)
}

/// Every element has an unsigned `id`.
pub open spec fn all_have_ids(items: Seq<serde_json::Value>) -> bool {
    forall|i: int| 0 <= i < items.len() ==> (#[trigger] item_id(items[i])) is Some
}

/// The records are the elements, one for one: each keeps its element whole
/// and takes its `id`.
pub open spec fn records_match(rs: Seq<Record>, items: Seq<serde_json::Value>) -> bool {
    &&& rs.len() == items.len()
    &&& forall|i: int|
        0 <= i < items.len() ==> (#[trigger] rs[i]).body == items[i] && item_id(items[i])
            == Some(rs[i].id)
}

/// Why a parsed value is not a page envelope, or `None` when it is one: it
/// needs an unsigned `info.pages`, a `results` array, and an unsigned `id` in
/// each element, checked in that order.
pub open spec fn envelope_error(v: serde_json::Value) -> Option<DecodeError> {
    if envelope_pages(v) is None {
        Some(DecodeError::BadInfo)
    } else if result_items(v) is None {
        Some(DecodeError::BadResults)
    } else if !all_have_ids(result_items(v)->Some_0) {
        Some(DecodeError::BadId)
    } else {
        None
    }
}

/// `e` is what the envelope `v` holds.
pub open spec fn envelope_matches(e: PageEnvelope, v: serde_json::Value) -> bool {
    &&& e.count == envelope_count(v)
    &&& envelope_pages(v) == Some(e.pages)
    &&& result_items(v) is Some
    &&& records_match(e.records@, result_items(v)->Some_0)
}

/// Why a response body is not a page envelope, or `None` when it is one.
pub open spec fn body_error(body: Seq<char>) -> Option<DecodeError> {
    match parsed_json(body) {
        None => Some(DecodeError::NotJson),
        Some(v) => envelope_error(v),
    }
}

/// `e` is what the response body holds.
pub open spec fn body_matches(e: PageEnvelope, body: Seq<char>) -> bool {
    parsed_json(body) is Some && envelope_matches(e, parsed_json(body)->Some_0)
}

/// A record from an element of `results`: its id, when it has one, and the
/// element itself.
pub fn record_from(id: Option<u64>, body: serde_json::Value) -> (r: Result<Record, DecodeError>)
    ensures
        id is None ==> r == Err::<Record, DecodeError>(DecodeError::BadId),
        id is Some ==> r is Ok && r->Ok_0.id == id->Some_0 && r->Ok_0.body == body,
{
    match id {
        Some(n) => Ok(Record::new(n, body)),
        None => Err(DecodeError::BadId),
    }
}

/// A page envelope from the numbers of its `info` object and the records of
/// its `results`; `pages` is required and checked first, `count` is optional.
pub fn envelope_from(
    count: Option<u64>,
    pages: Option<u64>,
    records: Result<Vec<Record>, DecodeError>,
) -> (r: Result<PageEnvelope, DecodeError>)
    ensures
        pages is None ==> r == Err::<PageEnvelope, DecodeError>(DecodeError::BadInfo),
        (pages is Some && records is Err) ==> r == Err::<PageEnvelope, DecodeError>(
            records->Err_0,
        ),
        (pages is Some && records is Ok) ==> r is Ok && r->Ok_0.count == count && r->Ok_0.pages
            == pages->Some_0 && r->Ok_0.records@ == records->Ok_0@,
{
    match pages {
        Some(p) => match records {
            Ok(v) => Ok(PageEnvelope { count, pages: p, records: v }),
            Err(e) => Err(e),
        },
        None => Err(DecodeError::BadInfo),
    }
}

fn unsigned_member(v: &serde_json::Value, key: &str) -> (r: Option<u64>)
    ensures
        r == member_u64(*v, key@),
{
    match member(v, key) {
        Some(x) => as_unsigned(x),
        None => None,
    }
}

/// The records of the elements of `results`, in order; fails on the first
/// element without an unsigned `id`.
fn records_of(items: Vec<serde_json::Value>) -> (r: Result<Vec<Record>, DecodeError>)
    ensures
        all_have_ids(items@) ==> r is Ok && records_match(r->Ok_0@, items@),
        !all_have_ids(items@) ==> r == Err::<Vec<Record>, DecodeError>(DecodeError::BadId),
{
    let ghost orig = items@;
    let mut rest = items;
    let mut out: Vec<Record> = Vec::new();
    while rest.len() > 0
        invariant
            orig == items@,
            out@.len() <= orig.len(),
            rest@ == orig.subrange(out@.len() as int, orig.len() as int),
            records_match(out@, orig.subrange(0, out@.len() as int)),
        decreases rest.len(),
    {
        let ghost k = out@.len() as int;
        let item = rest.remove(0);
        assert(item == orig[k]);
        let id = unsigned_member(&item, "id");
        match record_from(id, item) {
            Ok(rec) => {
                out.push(rec);
                assert(records_match(out@, orig.subrange(0, out@.len() as int))) by {
                    assert forall|i: int| 0 <= i < out@.len() implies (#[trigger] out@[i]).body
                        == orig.subrange(0, out@.len() as int)[i] && item_id(orig.subrange(
                        0,
                        out@.len() as int,
                    )[i]) == Some(out@[i].id) by {
                        if i < k {
                            assert(orig.subrange(0, k)[i] == orig[i]);
                        }
                    }
                }
            },
            Err(e) => {
                assert(!all_have_ids(orig)) by {
                    assert(item_id(orig[k]) is None);
                }
                return Err(e);
            },
        }
    }
    assert(orig.subrange(0, orig.len() as int) =~= orig);
    assert(all_have_ids(orig)) by {
        assert forall|i: int| 0 <= i < orig.len() implies (#[trigger] item_id(orig[i])) is Some by {
            assert(item_id(orig[i]) == Some(out@[i].id));
        }
    }
    Ok(out)
}

/// Reads a page envelope out of a parsed response body.
pub fn envelope_of(v: &serde_json::Value) -> (r: Result<PageEnvelope, DecodeError>)
    ensures
        envelope_error(*v) is Some ==> r == Err::<PageEnvelope, DecodeError>(
            envelope_error(*v)->Some_0,
        ),
        envelope_error(*v) is None ==> r is Ok && envelope_matches(r->Ok_0, *v),
{
    let (count, pages) = match member(v, "info") {
        Some(info) => (unsigned_member(info, "count"), unsigned_member(info, "pages")),
        None => (None, None),
    };
    let records = match member(v, "results") {
        Some(res) => match elements(res) {
            Some(items) => records_of(items),
            None => Err(DecodeError::BadResults),
        },
        None => Err(DecodeError::BadResults),
    };
    envelope_from(count, pages, records)
}

/// Reads a page envelope out of a response body.
pub fn decode_page(body: &str) -> (r: Result<PageEnvelope, DecodeError>)
    ensures
        body_error(body@) is Some ==> r == Err::<PageEnvelope, DecodeError>(
            body_error(body@)->Some_0,
        ),
        body_error(body@) is None ==> r is Ok && body_matches(r->Ok_0, body@),
{
    match parse_json(body) {
        Ok(v) => envelope_of(&v),
        Err(_) => Err(DecodeError::NotJson),
    }
}

/// Whether an HTTP status is a success: 200 through 299.
pub fn status_ok(status: u16) -> (r: bool)
    ensures
        r == (200 <= status <= 299),
{
    200 <= status && status <= 299
}

/// Checks a response's status, then reads its body as a page envelope.
pub fn read_response(status: u16, body: &str) -> (r: Result<PageEnvelope, PageError>)
    ensures
        !(200 <= status <= 299) ==> r == Err::<PageEnvelope, PageError>(
            PageError::Status(status),
        ),
        (200 <= status <= 299 && body_error(body@) is Some) ==> r == Err::<
            PageEnvelope,
            PageError,
        >(PageError::Decode(body_error(body@)->Some_0)),
        (200 <= status <= 299 && body_error(body@) is None) ==> r is Ok && body_matches(
            r->Ok_0,
            body@,
        ),
{
    if !status_ok(status) {
        return Err(PageError::Status(status));
    }
    match decode_page(body) {
        Ok(e) => Ok(e),
        Err(e) => Err(PageError::Decode(e)),
    }
}

/// The records that a well-formed response body holds, one per element of
/// its `results`.
pub open spec fn body_items(body: Seq<char>) -> Seq<serde_json::Value> {
    result_items(parsed_json(body)->Some_0)->Some_0
}

/// The outcome of one fan-out fetch from its response: the page's records
/// when the status is a success and the body a page envelope, else the cause.
pub fn page_outcome(status: u16, body: &str) -> (r: FetchOutcome)
    ensures
        !(200 <= status <= 299) ==> r == FetchOutcome::Failed(PageError::Status(status)),
        (200 <= status <= 299 && body_error(body@) is Some) ==> r == FetchOutcome::Failed(
            PageError::Decode(body_error(body@)->Some_0),
        ),
        (200 <= status <= 299 && body_error(body@) is None) ==> r is Fetched && records_match(
            r->Fetched_0@,
            body_items(body@),
        ),
{
    match read_response(status, body) {
        Ok(e) => FetchOutcome::Fetched(e.records),
        Err(e) => FetchOutcome::Failed(e),
    }
}

/// The collection as JSON text: an array of the records' objects, in order.
pub fn render(records: &Vec<Record>) -> (r: String)
    ensures
        r@ == json_text(bodies_of(records@)),
{
    match write_json(records) {
        Ok(s) => s,
        Err(_) => String::new(),
    }
}

} // verus!
