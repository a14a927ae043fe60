use tapi::api::{
    custom_headers, member_headers, status_error, status_is_success, ApiClient, ApiEndpoints,
};

fn pairs(headers: Vec<tapi::api::Header>) -> Vec<(String, String)> {
    headers.into_iter().map(|h| (h.name, h.value)).collect()
}

fn pair(a: &str, b: &str) -> (String, String) {
    (a.to_string(), b.to_string())
}

#[test]
fn custom_headers_come_from_a_json_object() {
    assert!(custom_headers(&None).is_empty());
    assert!(custom_headers(&Some("".into())).is_empty());
    assert!(custom_headers(&Some("  \n".into())).is_empty());
    assert!(custom_headers(&Some("not json".into())).is_empty());
    assert!(custom_headers(&Some("[1,2]".into())).is_empty());
    let got = pairs(custom_headers(&Some(
        r#"{"x-b": "2", "x-a": "1", "n": 5, "bad name": "v", "x-c": "line\nbreak", "x-d": ""}"#.into(),
    )));
    assert_eq!(got, vec![pair("x-a", "1"), pair("x-b", "2"), pair("x-d", "")]);
}

#[test]
fn members_make_headers_in_their_order() {
    let got = pairs(member_headers(vec![
        ("x-z".to_string(), Some("1".to_string())),
        ("x-y".to_string(), None),
        ("x-a".to_string(), Some("2".to_string())),
        ("".to_string(), Some("3".to_string())),
    ]));
    assert_eq!(got, vec![pair("x-z", "1"), pair("x-a", "2")]);
}

#[test]
fn storage_and_ocr_requests() {
    let mut endpoints = ApiEndpoints::default();
    endpoints.storage_headers = Some(r#"{"x-team": "red"}"#.into());
    let client = ApiClient::new_with_endpoints("k".into(), endpoints);
    assert_eq!(
        pairs(client.storage_headers("u1,u2")),
        vec![pair("Authorization", "Bearer k"), pair("x-team", "red"), pair("storage_urls", "u1,u2")]
    );
    assert_eq!(pairs(client.ocr_headers()), vec![pair("Authorization", "Bearer k")]);
    assert_eq!(status_error("Storage", "404 Not Found"), "Storage API Error: 404 Not Found");
    assert_eq!(status_error("OCR", "500"), "OCR API Error: 500");
    assert!(status_is_success(204) && !status_is_success(304) && !status_is_success(199));
}

#[test]
fn a_value_may_hold_tabs_and_anything_from_the_space_on_but_delete() {
    let got = pairs(member_headers(vec![
        ("x-tab".to_string(), Some("a\tb".to_string())),
        ("x-del".to_string(), Some("a\u{7f}b".to_string())),
        ("x-wide".to_string(), Some("é日本".to_string())),
        ("x-bell".to_string(), Some("a\u{7}b".to_string())),
        ("x-tilde".to_string(), Some(" ~".to_string())),
    ]));
    assert_eq!(got, vec![pair("x-tab", "a\tb"), pair("x-wide", "é日本"), pair("x-tilde", " ~")]);
}
