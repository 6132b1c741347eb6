use rickmorty_fetch::aggregate::{
    assemble, collect_records, outcome_of, pages_to_fetch, DecodeError, FetchOutcome, PageError,
};
use rickmorty_fetch::endpoint::{collection_url, page_url};
use rickmorty_fetch::envelope::{
    decode_page, envelope_from, page_outcome, read_response, record_from, render, status_ok,
};
use rickmorty_fetch::record::{sort_by_id, Record};

fn ids(records: &[Record]) -> Vec<u64> {
    records.iter().map(|r| r.id()).collect()
}

fn page_body(count: u64, pages: u64, records: &str) -> String {
    format!(
        "{{\"info\":{{\"count\":{},\"pages\":{},\"next\":null,\"prev\":null}},\"results\":[{}]}}",
        count, pages, records
    )
}

fn rec(id: u64, name: &str) -> Record {
    let body = serde_json::from_str(&format!("{{\"id\":{},\"name\":\"{}\"}}", id, name)).unwrap();
    Record::new(id, body)
}

fn fetched(body: &str) -> FetchOutcome {
    page_outcome(200, body)
}

#[test]
fn collection_url_joins_root_and_name() {
    assert_eq!(
        collection_url("https://rickandmortyapi.com/api", "character"),
        "https://rickandmortyapi.com/api/character"
    );
}

#[test]
fn page_url_appends_page_number() {
    assert_eq!(
        page_url("https://rickandmortyapi.com/api", "episode", 3),
        "https://rickandmortyapi.com/api/episode?page=3"
    );
    assert_eq!(page_url("r", "c", 42), "r/c?page=42");
    assert_eq!(page_url("r", "c", 0), "r/c?page=0");
    assert_eq!(
        page_url("r", "c", u64::MAX),
        format!("r/c?page={}", u64::MAX)
    );
}

#[test]
fn pages_to_fetch_covers_two_through_last() {
    assert_eq!(pages_to_fetch(0), Vec::<u64>::new());
    assert_eq!(pages_to_fetch(1), Vec::<u64>::new());
    assert_eq!(pages_to_fetch(2), vec![2]);
    assert_eq!(pages_to_fetch(5), vec![2, 3, 4, 5]);
}

#[test]
fn sort_orders_by_id_and_keeps_ties_in_order() {
    let v = vec![rec(5, "e"), rec(2, "b"), rec(5, "f"), rec(1, "a"), rec(2, "c")];
    let s = sort_by_id(v);
    assert_eq!(ids(&s), vec![1, 2, 2, 5, 5]);
    assert_eq!(s[1].body()["name"], "b");
    assert_eq!(s[2].body()["name"], "c");
    assert_eq!(s[3].body()["name"], "e");
    assert_eq!(s[4].body()["name"], "f");
}

#[test]
fn sort_of_empty_is_empty() {
    assert!(sort_by_id(Vec::new()).is_empty());
}

#[test]
fn sorted_output_is_sorted_pairwise() {
    let v = vec![rec(9, "i"), rec(3, "c"), rec(7, "g"), rec(1, "a"), rec(4, "d"), rec(8, "h")];
    let s = sort_by_id(v);
    for w in s.windows(2) {
        assert!(w[0].id() <= w[1].id());
    }
    assert_eq!(s.len(), 6);
}

#[test]
fn sorting_twice_changes_nothing() {
    let v = vec![rec(3, "c"), rec(1, "a"), rec(2, "b")];
    let once = render(&sort_by_id(v));
    let v2 = vec![rec(3, "c"), rec(1, "a"), rec(2, "b")];
    let twice = render(&sort_by_id(sort_by_id(v2)));
    assert_eq!(once, twice);
}

#[test]
fn collect_records_drops_failed_pages() {
    let outcomes = vec![
        FetchOutcome::Fetched(vec![rec(4, "d")]),
        FetchOutcome::Failed(PageError::Transport),
        FetchOutcome::Fetched(vec![rec(2, "b"), rec(6, "f")]),
    ];
    assert_eq!(ids(&collect_records(outcomes)), vec![4, 2, 6]);
}

#[test]
fn outcome_of_tells_pages_apart() {
    assert!(matches!(outcome_of(Ok(vec![rec(1, "a")])), FetchOutcome::Fetched(v) if v.len() == 1));
    assert!(matches!(
        outcome_of(Err(PageError::Transport)),
        FetchOutcome::Failed(PageError::Transport)
    ));
}

#[test]
fn decode_page_reads_info_and_results() {
    let body = page_body(826, 42, "{\"id\":3,\"name\":\"x\"},{\"id\":1,\"name\":\"y\"}");
    let e = decode_page(&body).unwrap();
    assert_eq!(e.count, Some(826));
    assert_eq!(e.pages, 42);
    assert_eq!(ids(&e.records), vec![3, 1]);
    assert_eq!(e.records[0].body()["name"], "x");
}

#[test]
fn decode_page_without_count_is_accepted() {
    let e = decode_page("{\"info\":{\"pages\":2},\"results\":[{\"id\":4}]}").unwrap();
    assert_eq!(e.count, None);
    assert_eq!(e.pages, 2);
    assert_eq!(ids(&e.records), vec![4]);
}

#[test]
fn decode_page_errors() {
    assert_eq!(decode_page("not json").err(), Some(DecodeError::NotJson));
    assert_eq!(
        decode_page("{\"results\":[]}").err(),
        Some(DecodeError::BadInfo)
    );
    assert_eq!(
        decode_page("{\"info\":{\"count\":1,\"pages\":-1},\"results\":[]}").err(),
        Some(DecodeError::BadInfo)
    );
    assert_eq!(
        decode_page("{\"info\":{\"count\":1},\"results\":[]}").err(),
        Some(DecodeError::BadInfo)
    );
    assert_eq!(
        decode_page("{\"info\":{\"count\":1,\"pages\":1}}").err(),
        Some(DecodeError::BadResults)
    );
    assert_eq!(
        decode_page("{\"info\":{\"count\":1,\"pages\":1},\"results\":{}}").err(),
        Some(DecodeError::BadResults)
    );
    assert_eq!(
        decode_page(&page_body(1, 1, "{\"name\":\"no id\"}")).err(),
        Some(DecodeError::BadId)
    );
    assert_eq!(
        decode_page(&page_body(1, 1, "{\"id\":\"7\"}")).err(),
        Some(DecodeError::BadId)
    );
}

#[test]
fn record_and_envelope_from_parts() {
    assert_eq!(record_from(None, serde_json::Value::Null).err(), Some(DecodeError::BadId));
    assert_eq!(record_from(Some(8), serde_json::Value::Null).unwrap().id(), 8);
    let no_count = envelope_from(None, Some(1), Ok(Vec::new())).unwrap();
    assert_eq!((no_count.count, no_count.pages), (None, 1));
    assert_eq!(envelope_from(Some(1), None, Ok(Vec::new())).err(), Some(DecodeError::BadInfo));
    assert_eq!(
        envelope_from(Some(1), Some(1), Err(DecodeError::BadId)).err(),
        Some(DecodeError::BadId)
    );
    let e = envelope_from(Some(3), Some(2), Ok(vec![rec(1, "a")])).unwrap();
    assert_eq!((e.count, e.pages, e.records.len()), (Some(3), 2, 1));
}

#[test]
fn status_and_response_checks() {
    assert!(status_ok(200));
    assert!(status_ok(299));
    assert!(!status_ok(199));
    assert!(!status_ok(300));
    assert!(!status_ok(404));
    let body = page_body(1, 1, "{\"id\":1}");
    assert_eq!(read_response(404, &body).err(), Some(PageError::Status(404)));
    assert_eq!(
        read_response(200, "{").err(),
        Some(PageError::Decode(DecodeError::NotJson))
    );
    assert!(read_response(200, &body).is_ok());
    assert!(matches!(
        page_outcome(500, &body),
        FetchOutcome::Failed(PageError::Status(500))
    ));
}

#[test]
fn render_writes_records_in_order() {
    let out = render(&vec![rec(2, "b"), rec(10, "j")]);
    assert_eq!(out, "[{\"id\":2,\"name\":\"b\"},{\"id\":10,\"name\":\"j\"}]");
    assert_eq!(render(&Vec::new()), "[]");
}

#[test]
fn scenario_two_pages_are_merged_in_id_order() {
    let first = decode_page(&page_body(3, 2, "{\"id\":3,\"n\":\"c\"},{\"id\":1,\"n\":\"a\"}")).unwrap();
    assert_eq!(pages_to_fetch(first.pages), vec![2]);
    let second = fetched(&page_body(3, 2, "{\"id\":2,\"n\":\"b\"}"));
    let out = assemble(first.records, vec![second]);
    assert_eq!(ids(&out), vec![1, 2, 3]);
    assert_eq!(
        render(&out),
        "[{\"id\":1,\"n\":\"a\"},{\"id\":2,\"n\":\"b\"},{\"id\":3,\"n\":\"c\"}]"
    );
}

#[test]
fn all_pages_fetched_gives_reported_count() {
    let first = decode_page(&page_body(5, 3, "{\"id\":5},{\"id\":1}")).unwrap();
    let rest = vec![
        fetched(&page_body(5, 3, "{\"id\":4},{\"id\":2}")),
        fetched(&page_body(5, 3, "{\"id\":3}")),
    ];
    let count = first.count.unwrap();
    let out = assemble(first.records, rest);
    assert_eq!(out.len() as u64, count);
    assert_eq!(ids(&out), vec![1, 2, 3, 4, 5]);
}

#[test]
fn failed_page_is_left_out() {
    let first = decode_page(&page_body(5, 3, "{\"id\":5},{\"id\":1}")).unwrap();
    let rest = vec![
        FetchOutcome::Failed(PageError::Transport),
        fetched(&page_body(5, 3, "{\"id\":3}")),
    ];
    let out = assemble(first.records, rest);
    assert_eq!(ids(&out), vec![1, 3, 5]);
}

#[test]
fn failed_decode_page_is_left_out() {
    let first = decode_page(&page_body(4, 3, "{\"id\":4}")).unwrap();
    let rest = vec![
        fetched(&page_body(4, 3, "{\"id\":2},{\"id\":3}")),
        fetched("<html>busy</html>"),
    ];
    let out = assemble(first.records, rest);
    assert_eq!(ids(&out), vec![2, 3, 4]);
}

#[test]
fn single_page_needs_no_fan_out() {
    let first = decode_page(&page_body(3, 1, "{\"id\":9},{\"id\":4},{\"id\":6}")).unwrap();
    let plan = pages_to_fetch(first.pages);
    assert!(plan.is_empty());
    let out = assemble(first.records, Vec::new());
    assert_eq!(ids(&out), vec![4, 6, 9]);
}

#[test]
fn same_input_gives_same_output() {
    let run = || {
        let first = decode_page(&page_body(3, 2, "{\"id\":3,\"z\":1,\"a\":2},{\"id\":1}")).unwrap();
        let out = assemble(first.records, vec![fetched(&page_body(3, 2, "{\"id\":2}"))]);
        render(&out)
    };
    assert_eq!(run(), run());
}
