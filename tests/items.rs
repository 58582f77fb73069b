use xh::error::Error;
use xh::item::{split_item, RequestItem, Separator};
use xh::request_items::{Body, FieldValue, RequestItems};

fn items(tokens: &[&str]) -> RequestItems {
    RequestItems::new(tokens.iter().map(|t| RequestItem::parse(t).unwrap()).collect())
}

fn s(x: &str) -> String {
    x.to_string()
}

#[test]
fn parse_header_to_set() {
    assert_eq!(
        RequestItem::parse("X-Api-Key:abc").unwrap(),
        RequestItem::HttpHeader(s("X-Api-Key"), s("abc"))
    );
}

#[test]
fn parse_header_to_unset() {
    assert_eq!(
        RequestItem::parse("X-Api-Key:").unwrap(),
        RequestItem::HttpHeaderToUnset(s("X-Api-Key"))
    );
}

#[test]
fn parse_query_param() {
    assert_eq!(RequestItem::parse("page==2").unwrap(), RequestItem::UrlParam(s("page"), s("2")));
}

#[test]
fn parse_json_field() {
    assert_eq!(
        RequestItem::parse("active:=true").unwrap(),
        RequestItem::JSONField(s("active"), serde_json::Value::Bool(true))
    );
    assert_eq!(
        RequestItem::parse("tags:=[1,2]").unwrap(),
        RequestItem::JSONField(s("tags"), serde_json::from_str("[1,2]").unwrap())
    );
}

#[test]
fn parse_data_field() {
    assert_eq!(RequestItem::parse("name=Bob").unwrap(), RequestItem::DataField(s("name"), s("Bob")));
}

#[test]
fn parse_file_field() {
    assert_eq!(
        RequestItem::parse("avatar@./pic.png").unwrap(),
        RequestItem::FormFile(s("avatar"), s("./pic.png"))
    );
}

#[test]
fn parse_first_separator_wins() {
    assert_eq!(RequestItem::parse("a=b:c").unwrap(), RequestItem::DataField(s("a"), s("b:c")));
    assert_eq!(RequestItem::parse("url==http://x").unwrap(), RequestItem::UrlParam(s("url"), s("http://x")));
}

#[test]
fn parse_escaped_separator_in_name() {
    assert_eq!(RequestItem::parse("a\\=b=c").unwrap(), RequestItem::DataField(s("a=b"), s("c")));
    assert_eq!(RequestItem::parse("x\\:y:z").unwrap(), RequestItem::HttpHeader(s("x:y"), s("z")));
}

#[test]
fn parse_malformed_tokens() {
    assert_eq!(RequestItem::parse("nothing"), Err(Error::MalformedRequestItem(s("nothing"))));
    assert_eq!(RequestItem::parse("bad\\q=1"), Err(Error::MalformedRequestItem(s("bad\\q=1"))));
    assert_eq!(RequestItem::parse("trailing\\"), Err(Error::MalformedRequestItem(s("trailing\\"))));
    assert_eq!(RequestItem::parse("age:=notjson"), Err(Error::MalformedRequestItem(s("age:=notjson"))));
}

#[test]
fn split_reports_parts() {
    assert_eq!(split_item("k:=1"), Some((s("k"), Separator::Json, s("1"))));
    assert_eq!(split_item("k@"), Some((s("k"), Separator::File, s(""))));
    assert_eq!(split_item("plain"), None);
}

#[test]
fn json_body_keeps_strings_and_parsed_values() {
    let body = items(&["name=Bob", "age:=30"]).body(false, false).unwrap();
    assert_eq!(
        body,
        Some(Body::Json(vec![
            (s("name"), FieldValue::Text(s("Bob"))),
            (s("age"), FieldValue::Json(serde_json::Value::from(30))),
        ]))
    );
}

#[test]
fn json_body_last_duplicate_wins_in_place() {
    let body = items(&["a=1", "b=2", "a=3"]).body(false, false).unwrap();
    assert_eq!(
        body,
        Some(Body::Json(vec![(s("a"), FieldValue::Text(s("3"))), (s("b"), FieldValue::Text(s("2")))]))
    );
}

#[test]
fn file_with_json_fails_in_either_order_and_mode() {
    for tokens in [["f@x", "j:=1"], ["j:=1", "f@x"]] {
        let it = items(&tokens);
        assert_eq!(it.body(false, false), Err(Error::IncompatibleBodyFields));
        assert_eq!(it.body(true, false), Err(Error::IncompatibleBodyFields));
        assert_eq!(it.body(true, true), Err(Error::IncompatibleBodyFields));
    }
}

#[test]
fn file_in_json_mode_fails() {
    assert_eq!(items(&["f@x"]).body(false, false), Err(Error::IncompatibleBodyFields));
}

#[test]
fn json_field_in_form_mode_fails() {
    assert_eq!(items(&["a=1", "j:=1"]).body(true, false), Err(Error::IncompatibleBodyFields));
}

#[test]
fn form_with_text_only_is_urlencoded() {
    let body = items(&["a=1", "a=2"]).body(true, false).unwrap();
    assert_eq!(body, Some(Body::Form(vec![(s("a"), s("1")), (s("a"), s("2"))])));
}

#[test]
fn form_with_file_is_multipart() {
    let body = items(&["f@p.png", "a=1"]).body(true, false).unwrap();
    assert_eq!(body, Some(Body::Multipart(vec![(s("a"), s("1"))], vec![(s("f"), s("p.png"))])));
}

#[test]
fn form_multipart_requested_without_files() {
    let body = items(&["a=1"]).body(true, true).unwrap();
    assert_eq!(body, Some(Body::Multipart(vec![(s("a"), s("1"))], vec![])));
}

#[test]
fn no_body_items_give_no_body() {
    let it = items(&["X-A:b", "q==1"]);
    assert_eq!(it.body(false, false), Ok(None));
    assert_eq!(it.body(true, false), Ok(None));
}

#[test]
fn query_keeps_order_and_duplicates() {
    let it = items(&["a==1", "h:v", "b==2", "a==3"]);
    assert_eq!(it.query(), vec![(s("a"), s("1")), (s("b"), s("2")), (s("a"), s("3"))]);
}

#[test]
fn headers_set_and_unset_lists() {
    let it = items(&["X-A:1", "X-B:2", "x-a:3", "X-C:"]);
    let (set, unset) = it.headers();
    assert_eq!(set, vec![(s("x-a"), s("3")), (s("x-b"), s("2"))]);
    assert_eq!(unset, vec![s("x-c")]);
}
