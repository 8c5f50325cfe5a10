use hubble::fetch::{
    apply_dated_response, apply_response, conditional_headers, header_date, FetchError, FetchOutcome,
    FetchResponse, HeaderDate,
};
use hubble::file_meta::FileMeta;
use hubble::id::Id;
use hubble::importers::Feed;
use hubble::query::{display_bias, sanitize_query, votes_bucket, Query, QueryError};
use hubble::search::{build_search_docs, AkaText, SearchDoc, TitleText};
use hubble::sweep::{plan_feed, AnchorLatch, SweepStatus};
use hubble::importers::ImporterScheduling;

fn ok_response(etag: &str, last_modified: &str, length: &str) -> FetchResponse {
    FetchResponse {
        status: 200,
        etag: Some(etag.to_string()),
        last_modified: Some(last_modified.to_string()),
        content_length: Some(length.to_string()),
    }
}

fn imported_meta() -> FileMeta {
    let mut m = FileMeta::new("cache/title.basics.tsv.gz".to_string());
    m.etag = Some("\"old\"".to_string());
    m.last_modified = Some(0);
    m.mark_imported(1_700_000_000);
    m
}

#[test]
fn fresh_meta_has_nothing() {
    let m = FileMeta::new("cache/title.akas.tsv.gz".to_string());
    assert_eq!(m.etag, None);
    assert_eq!(m.last_modified, None);
    assert_eq!(m.imported_at, None);
    assert_eq!(m.downloaded_at, None);
    assert!(m.needs_import());
    assert_eq!(m.sidecar_path(), "cache/title.akas.tsv.gz.json");
}

#[test]
fn conditional_headers_carry_validators() {
    let m = imported_meta();
    let h = conditional_headers(&m);
    assert_eq!(h.if_none_match, Some("\"old\"".to_string()));
    assert_eq!(h.if_modified_since, Some("Thu, 1 Jan 1970 00:00:00 +0000".to_string()));
    let fresh = FileMeta::new("x".to_string());
    let h = conditional_headers(&fresh);
    assert_eq!(h.if_none_match, None);
    assert_eq!(h.if_modified_since, None);
}

#[test]
fn not_modified_changes_nothing() {
    let mut m = imported_meta();
    let resp = FetchResponse { status: 304, etag: None, last_modified: None, content_length: None };
    assert_eq!(apply_response(&mut m, &resp, Some(10)), Ok(FetchOutcome::NotModified));
    assert_eq!(m.etag, Some("\"old\"".to_string()));
    assert_eq!(m.imported_at, Some(1_700_000_000));
}

#[test]
fn same_length_keeps_file_and_import() {
    let mut m = imported_meta();
    let resp = ok_response("\"new\"", "Wed, 18 Feb 2015 23:16:09 GMT", "1024");
    assert_eq!(apply_response(&mut m, &resp, Some(1024)), Ok(FetchOutcome::SameSize));
    assert_eq!(m.etag, Some("\"new\"".to_string()));
    assert_eq!(m.last_modified, Some(1424301369));
    assert_eq!(m.imported_at, Some(1_700_000_000));
}

#[test]
fn changed_length_downloads_and_clears_import() {
    let mut m = imported_meta();
    let resp = ok_response("\"new\"", "Wed, 18 Feb 2015 23:16:09 GMT", "2048");
    assert_eq!(apply_response(&mut m, &resp, Some(1024)), Ok(FetchOutcome::Download));
    assert_eq!(m.imported_at, None);
    assert_eq!(m.etag, Some("\"new\"".to_string()));
    // no cached file yet
    let mut fresh = FileMeta::new("x".to_string());
    assert_eq!(apply_response(&mut fresh, &resp, None), Ok(FetchOutcome::Download));
    // a second fetch of the unchanged file does not download again
    assert_eq!(apply_response(&mut fresh, &resp, Some(2048)), Ok(FetchOutcome::SameSize));
}

#[test]
fn bad_responses_are_errors() {
    let mut m = imported_meta();
    let resp = FetchResponse { status: 500, etag: None, last_modified: None, content_length: None };
    assert_eq!(apply_response(&mut m, &resp, None), Err(FetchError::UnexpectedStatus(500)));
    let resp = ok_response("\"e\"", "yesterday", "10");
    assert_eq!(apply_response(&mut m, &resp, None), Err(FetchError::MalformedLastModified));
    let resp = ok_response("\"e\"", "Wed, 18 Feb 2015 23:16:09 GMT", "ten");
    assert_eq!(apply_response(&mut m, &resp, None), Err(FetchError::MalformedContentLength));
    assert_eq!(m.etag, Some("\"old\"".to_string()));
    assert_eq!(m.imported_at, Some(1_700_000_000));
}

fn title(id: u32, primary: &str, original: Option<&str>) -> TitleText {
    TitleText { id, primary_title: primary.to_string(), original_title: original.map(|s| s.to_string()) }
}

fn aka(id: u32, ordering: i32, text: &str) -> AkaText {
    AkaText { title_id: id, ordering, title: text.to_string() }
}

fn find<'a>(docs: &'a [SearchDoc], id: u32, text: &str) -> Vec<&'a SearchDoc> {
    docs.iter().filter(|d| d.title_id == id && d.text == text).collect()
}

#[test]
fn primary_title_wins_over_aka() {
    let titles = vec![title(1, "Star Wars", None)];
    let akas = vec![aka(1, 5, "Guerre stellari"), aka(1, 3, "Star Wars"), aka(1, 1, "")];
    let docs = build_search_docs(&titles, &akas);
    assert_eq!(docs.len(), 2);
    let sw = find(&docs, 1, "Star Wars");
    assert_eq!(sw.len(), 1);
    assert!(sw[0].is_display);
    assert_eq!(sw[0].ordering, 0);
    let it = find(&docs, 1, "Guerre stellari");
    assert_eq!(it.len(), 1);
    assert!(!it[0].is_display);
    assert_eq!(it[0].ordering, 5);
}

#[test]
fn smallest_aka_ordering_wins() {
    let titles = vec![title(2, "Amélie", Some("Le fabuleux destin d'Amélie Poulain"))];
    let akas = vec![
        aka(2, 7, "Die fabelhafte Welt der Amélie"),
        aka(2, 4, "Die fabelhafte Welt der Amélie"),
        aka(2, 9, "Die fabelhafte Welt der Amélie"),
        aka(2, 2, "Le fabuleux destin d'Amélie Poulain"),
        aka(3, 1, "Amélie"),
    ];
    let docs = build_search_docs(&titles, &akas);
    assert_eq!(docs.len(), 4);
    let de = find(&docs, 2, "Die fabelhafte Welt der Amélie");
    assert_eq!(de.len(), 1);
    assert_eq!(de[0].ordering, 4);
    assert!(!de[0].is_display);
    let fr = find(&docs, 2, "Le fabuleux destin d'Amélie Poulain");
    assert_eq!(fr.len(), 1);
    assert!(fr[0].is_display);
    assert_eq!(fr[0].ordering, 2);
    let other = find(&docs, 3, "Amélie");
    assert_eq!(other.len(), 1);
    assert!(!other[0].is_display);
}

#[test]
fn one_display_doc_per_title() {
    let titles = vec![title(1, "A", None), title(2, "A", None), title(3, "", None)];
    let docs = build_search_docs(&titles, &vec![]);
    assert_eq!(docs.len(), 2);
    assert!(docs.iter().all(|d| d.is_display && d.text == "A"));
}

#[test]
fn latch_and_feed_plans() {
    let mut latch = AnchorLatch::new();
    assert!(latch.must_wait(ImporterScheduling::WaitForBasics));
    assert!(!latch.must_wait(ImporterScheduling::IsBasics));
    latch.fire();
    assert!(latch.is_fired());
    assert!(!latch.must_wait(ImporterScheduling::WaitForBasics));

    let mut status = SweepStatus::new();
    let fresh = FileMeta::new("x".to_string());
    let done = imported_meta();
    let p = plan_feed(Feed::Ratings, &fresh);
    assert!(p.import && !p.marks_search_update && !p.fires_latch);
    status.record(p);
    assert!(!status.needs_search_update);
    let p = plan_feed(Feed::Basics, &done);
    assert!(!p.import && !p.marks_search_update && p.fires_latch);
    status.record(p);
    assert!(!status.needs_search_update);
    let p = plan_feed(Feed::Akas, &fresh);
    assert!(p.import && p.marks_search_update);
    status.record(p);
    assert!(status.needs_search_update);
}

#[test]
fn titles_request_needs_input() {
    assert_eq!(Query.plan_titles(None, None, None).err(), Some(QueryError::MissingInput));
    assert_eq!(Query.plan_titles(None, Some(vec![]), Some(3)).err(), Some(QueryError::MissingInput));
    let p = Query.plan_titles(None, Some(vec![Id(1), Id(2), Id(3)]), None).ok().unwrap();
    assert_eq!(p.ids, vec![Id(1), Id(2), Id(3)]);
    assert_eq!(p.search, None);
    assert_eq!(p.limit, 25);
    let p = Query.plan_titles(Some("star: wars".to_string()), None, Some(5)).ok().unwrap();
    assert_eq!(p.search, Some("star wars".to_string()));
    assert_eq!(p.limit, 5);
    assert!(p.ids.is_empty());
}

#[test]
fn score_parts() {
    assert_eq!(sanitize_query("a:b::c"), "abc");
    assert_eq!(sanitize_query(""), "");
    assert_eq!(votes_bucket(0), 10);
    assert_eq!(votes_bucket(9), 10);
    assert_eq!(votes_bucket(10), 15);
    assert_eq!(votes_bucket(999), 20);
    assert_eq!(votes_bucket(5000), 25);
    assert_eq!(display_bias(true), 10);
    assert_eq!(display_bias(false), -50);
}

#[test]
fn dated_response_uses_the_given_date() {
    let mut m = imported_meta();
    let resp = ok_response("\"v2\"", "ignored here", "2048");
    assert_eq!(apply_dated_response(&mut m, &resp, HeaderDate::At(86400), Some(1024)), Ok(FetchOutcome::Download));
    assert_eq!(m.last_modified, Some(86400));
    assert_eq!(m.imported_at, None);
    let mut m = imported_meta();
    assert_eq!(apply_dated_response(&mut m, &resp, HeaderDate::Absent, Some(2048)), Ok(FetchOutcome::SameSize));
    assert_eq!(m.last_modified, None);
    assert_eq!(m.imported_at, Some(1_700_000_000));
    assert_eq!(
        apply_dated_response(&mut m, &resp, HeaderDate::Malformed, Some(2048)),
        Err(FetchError::MalformedLastModified)
    );
    assert_eq!(header_date(&ok_response("e", "Wed, 18 Feb 2015 23:16:09 GMT", "1")), HeaderDate::At(1424301369));
    assert_eq!(header_date(&ok_response("e", "not a date", "1")), HeaderDate::Malformed);
    let absent = FetchResponse { status: 200, etag: None, last_modified: None, content_length: None };
    assert_eq!(header_date(&absent), HeaderDate::Absent);
}
