use xh::download::{default_file_name, decimal_string, range_header_value, Download, DownloadState, WriteMode};
use xh::error::Error;
use xh::headers::{default_headers, remove_header, request_headers};
use xh::item::RequestItem;
use xh::render::{content_kind, format_headers, indent_json, render_body, ContentKind, JsonFormatter, Pretty};
use xh::request::{body_source, default_method, get_user_agent, BodySource, Print};
use xh::request_items::{Body, RequestItems};
use xh::status::{exit_code, warn_on_redirect};
use xh::url::{construct_url, qualify_url, query_string};

fn s(x: &str) -> String {
    x.to_string()
}

fn pairs(p: &[(&str, &str)]) -> Vec<(String, String)> {
    p.iter().map(|(a, b)| (s(a), s(b))).collect()
}

#[test]
fn exit_codes_follow_status_checks() {
    for follow in [false, true] {
        assert_eq!(exit_code(200, follow, true, false), 0);
        assert_eq!(exit_code(404, follow, true, false), 4);
        assert_eq!(exit_code(503, follow, false, false), 0);
    }
    assert_eq!(exit_code(301, false, true, false), 3);
    assert_eq!(exit_code(301, true, true, false), 0);
    assert_eq!(exit_code(500, false, true, false), 5);
    assert_eq!(exit_code(599, false, false, true), 5);
    assert_eq!(exit_code(600, false, true, false), 0);
}

#[test]
fn redirect_warning_only_on_failure() {
    assert!(warn_on_redirect(true, 4));
    assert!(!warn_on_redirect(true, 0));
    assert!(!warn_on_redirect(false, 5));
}

#[test]
fn resume_sends_range_and_appends() {
    let mut d = Download::start(true, Some(1024));
    assert_eq!(d.state, DownloadState::Resuming);
    assert_eq!(d.range_header(), Some(s("bytes=1024-")));
    assert_eq!(d.begin_transfer(), WriteMode::Append);
    d.on_chunk(100);
    d.on_chunk(400);
    d.on_finish();
    assert_eq!(d.state, DownloadState::Complete);
    assert_eq!(d.file_size(), 1024 + 500);
}

#[test]
fn fresh_download_truncates() {
    let mut d = Download::start(false, Some(77));
    assert_eq!(d.range_header(), None);
    assert_eq!(d.begin_transfer(), WriteMode::Truncate);
    d.on_chunk(10);
    d.on_error();
    assert_eq!(d.state, DownloadState::Failed);
    assert_eq!(d.file_size(), 10);
    let d = Download::start(true, None);
    assert_eq!(d.state, DownloadState::Start);
    assert_eq!(d.range_header(), None);
}

#[test]
fn decimal_writing() {
    assert_eq!(decimal_string(0), "0");
    assert_eq!(decimal_string(1234), "1234");
    assert_eq!(decimal_string(u64::MAX), u64::MAX.to_string());
    assert_eq!(range_header_value(0), "bytes=0-");
}

#[test]
fn qualify_adds_scheme_and_localhost() {
    assert_eq!(qualify_url("example.com", None), "https://example.com");
    assert_eq!(qualify_url(":3000/api", None), "https://localhost:3000/api");
    assert_eq!(qualify_url("example.com", Some("http")), "http://example.com");
    assert_eq!(qualify_url("example.com", Some("ftp://")), "ftp://example.com");
    assert_eq!(qualify_url("http://example.com", Some("https")), "http://example.com");
}

#[test]
fn qualified_url_without_query_is_unchanged() {
    assert_eq!(construct_url("https://example.com/a?x=1", None, &vec![]).unwrap(), "https://example.com/a?x=1");
    let once = construct_url("example.com/p", None, &vec![]).unwrap();
    assert_eq!(construct_url(&once, None, &vec![]).unwrap(), once);
}

#[test]
fn query_items_follow_url_query() {
    let q = pairs(&[("a", "2"), ("b", "x y")]);
    assert_eq!(
        construct_url("http://example.com/?a=1", None, &q).unwrap(),
        "http://example.com/?a=1&a=2&b=x+y"
    );
    assert_eq!(construct_url("http://example.com/p#frag", None, &q).unwrap(), "http://example.com/p?a=2&b=x+y#frag");
    assert_eq!(construct_url("http://example.com/?", None, &q).unwrap(), "http://example.com/?a=2&b=x+y");
}

#[test]
fn parsed_url_is_normalized() {
    assert_eq!(construct_url("HTTP://Example.COM", None, &vec![]).unwrap(), "http://example.com/");
    assert_eq!(construct_url("example.com", Some("http"), &pairs(&[("q", "1")])).unwrap(), "http://example.com/?q=1");
}

#[test]
fn query_string_encodes_pairs() {
    assert_eq!(query_string(&pairs(&[("k", "a&b"), ("é", "=")])), "k=a%26b&%C3%A9=%3D");
    assert_eq!(query_string(&vec![]), "");
}

#[test]
fn invalid_url_is_reported() {
    assert_eq!(construct_url("http://[::1", None, &vec![]), Err(Error::InvalidUrl(s("http://[::1"))));
}

#[test]
fn default_headers_follow_body() {
    let json = Some(Body::Json(vec![]));
    let d = default_headers(&json, "ua");
    assert_eq!(
        d,
        pairs(&[
            ("accept-encoding", "gzip, deflate"),
            ("connection", "keep-alive"),
            ("user-agent", "ua"),
            ("accept", "application/json, */*")
        ])
    );
    let raw = Some(Body::Raw(vec![1]));
    let d = default_headers(&raw, "ua");
    assert_eq!(d[3], (s("accept"), s("application/json, */*")));
    assert_eq!(d[4], (s("content-type"), s("application/json")));
    assert_eq!(default_headers(&None, "ua")[3], (s("accept"), s("*/*")));
    assert_eq!(default_headers(&Some(Body::Form(vec![])), "ua")[3], (s("accept"), s("*/*")));
}

#[test]
fn request_headers_set_then_unset() {
    let items = RequestItems::new(vec![
        RequestItem::parse("Accept:text/html").unwrap(),
        RequestItem::parse("X-A:1").unwrap(),
        RequestItem::parse("CONNECTION:").unwrap(),
        RequestItem::parse("x-a:2").unwrap(),
    ]);
    let h = request_headers(&items, &None, "ua");
    assert_eq!(
        h,
        pairs(&[("accept-encoding", "gzip, deflate"), ("user-agent", "ua"), ("accept", "text/html"), ("x-a", "2")])
    );
}

#[test]
fn removing_absent_header_changes_nothing() {
    let mut h = pairs(&[("A", "1"), ("B", "2")]);
    remove_header(&mut h, &s("C"));
    assert_eq!(h, pairs(&[("A", "1"), ("B", "2")]));
    remove_header(&mut h, &s("A"));
    assert_eq!(h, pairs(&[("B", "2")]));
}

#[test]
fn header_block_lines() {
    assert_eq!(format_headers(&pairs(&[("a", "1"), ("b", "2")])), "a: 1\nb: 2\n\n");
    assert_eq!(format_headers(&vec![]), "\n");
}

#[test]
fn content_kinds() {
    assert_eq!(content_kind("application/json"), ContentKind::Json);
    assert_eq!(content_kind("application/problem+json; charset=utf-8"), ContentKind::Json);
    assert_eq!(content_kind("text/html"), ContentKind::Other);
    assert_eq!(content_kind(""), ContentKind::Other);
}

#[test]
fn pretty_json_keeps_key_order() {
    let out = render_body("application/json", Pretty::All, &b"{\"b\":2,\"a\":1}".to_vec());
    assert_eq!(String::from_utf8(out).unwrap(), "{\n    \"b\": 2,\n    \"a\": 1\n}");
}

#[test]
fn indent_nested_and_empty() {
    let out = indent_json(b"{ \"x\" : [1, {}], \"s\": \"a, {b}\\\"\" }");
    assert_eq!(
        String::from_utf8(out).unwrap(),
        "{\n    \"x\": [\n        1,\n        {}\n    ],\n    \"s\": \"a, {b}\\\"\"\n}"
    );
}

#[test]
fn unknown_content_passes_through() {
    let bytes = vec![0u8, 255, 10, 123, 32];
    assert_eq!(render_body("application/octet-stream", Pretty::Plain, &bytes), bytes);
    assert_eq!(render_body("application/octet-stream", Pretty::All, &bytes), bytes);
    let json = b"{\"b\": 2}".to_vec();
    assert_eq!(render_body("application/json", Pretty::Plain, &json), json);
    assert_eq!(render_body("application/json", Pretty::Colors, &json), json);
}

#[test]
fn invalid_json_falls_back_to_raw() {
    let bad = b"{\"a\":".to_vec();
    assert_eq!(render_body("application/json", Pretty::Format, &bad), bad);
}

#[test]
fn pretty_modes() {
    assert_eq!(Pretty::auto(true), Pretty::All);
    assert_eq!(Pretty::auto(false), Pretty::Plain);
    assert!(Pretty::Format.format() && !Pretty::Format.color());
    assert!(!Pretty::Colors.format() && Pretty::Colors.color());
}

#[test]
fn print_defaults() {
    let p = Print::new(false, false, false, false, false, true, false);
    assert!(!p.request_headers && !p.request_body && p.response_headers && p.response_body);
    let p = Print::new(false, false, false, false, false, false, false);
    assert!(p.response_body && !p.response_headers);
    let p = Print::new(true, false, false, true, false, true, false);
    assert!(p.request_headers && p.request_body && p.response_headers && p.response_body);
    let p = Print::new(false, false, false, false, false, true, true);
    assert!(p.response_headers && !p.response_body);
    let p = Print::new(false, false, false, false, true, true, false);
    assert!(p.request_headers && p.request_body && !p.response_headers);
}

#[test]
fn body_sources() {
    assert_eq!(body_source(&None, true), Ok(BodySource::Stdin));
    assert_eq!(body_source(&Some(Body::Form(vec![])), true), Err(Error::ConflictingBodySources));
    assert_eq!(body_source(&Some(Body::Form(vec![])), false), Ok(BodySource::Items));
}

#[test]
fn agent_and_method() {
    assert_eq!(get_user_agent(true), "xh/0.0.0 (test mode)");
    assert_eq!(get_user_agent(false), "xh/0.1.0");
    assert_eq!(default_method(true), "POST");
    assert_eq!(default_method(false), "GET");
}

#[test]
fn chunked_formatting_matches_whole() {
    let text = b"{\"k\": [1, 2], \"s\": \"x\\\"y\"}";
    let whole = indent_json(text);
    for split in 0..text.len() {
        let mut f = JsonFormatter::new();
        let mut out = f.feed(&text[..split]);
        out.extend(f.feed(&text[split..]));
        assert_eq!(out, whole);
    }
}

#[test]
fn download_file_names() {
    assert_eq!(default_file_name("/files/report.pdf"), "report.pdf");
    assert_eq!(default_file_name("/files/"), "index.html");
    assert_eq!(default_file_name("/"), "index.html");
    assert_eq!(default_file_name(""), "index.html");
    assert_eq!(default_file_name("name"), "name");
}
