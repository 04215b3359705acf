use rdiff::{get_body_text, get_headers_text, get_status_text, ErrorKind, Headers, ResponseExt, ResponseProfile};

fn response(headers: &[(&str, &str)], body: &str) -> ResponseExt {
    ResponseExt {
        version: "HTTP/1.1".to_string(),
        status: "200 OK".to_string(),
        headers: Headers { entries: headers.iter().map(|(k, v)| (k.to_string(), v.to_string())).collect() },
        body: body.to_string(),
    }
}

#[test]
fn filtered_response_drops_skipped_header_and_key() {
    let resp = response(
        &[("content-type", "application/json"), ("X-Foo", "1"), ("X-Bar", "2")],
        "{\"a\":1,\"b\":2}",
    );
    let profile = ResponseProfile::new(vec!["X-Bar".to_string()], vec!["b".to_string()]);
    let text = resp.filter_text(&profile).unwrap();
    assert!(text.contains("X-Foo: 1"));
    assert!(!text.contains("X-Bar"));
    let body = get_body_text(&resp, &profile.skip_body).unwrap();
    let v: serde_json::Value = serde_json::from_str(&body).unwrap();
    let mut expected = serde_json::Map::new();
    expected.insert("a".to_string(), serde_json::Value::from(1));
    assert_eq!(v, serde_json::Value::Object(expected));
    assert_eq!(
        text,
        "HTTP/1.1:200 OK\ncontent-type: application/json\nX-Foo: 1\n\n{\n  \"a\": 1\n}"
    );
}

#[test]
fn skip_headers_is_case_sensitive() {
    let resp = response(&[("x-bar", "2")], "");
    let text = get_headers_text(&resp, &vec!["X-Bar".to_string()]).unwrap();
    assert_eq!(text, "x-bar: 2\n\n");
}

#[test]
fn status_text() {
    let resp = response(&[], "");
    assert_eq!(get_status_text(&resp).unwrap(), "HTTP/1.1:200 OK");
}

#[test]
fn non_json_body_passes_through() {
    let resp = response(&[("content-type", "text/plain")], "{\"b\": 2}");
    assert_eq!(get_body_text(&resp, &vec!["b".to_string()]).unwrap(), "{\"b\": 2}");
    let resp = response(&[], "raw");
    assert_eq!(get_body_text(&resp, &vec![]).unwrap(), "raw");
}

#[test]
fn json_array_is_kept_whole() {
    let resp = response(&[("content-type", "application/json; charset=utf-8")], "[1,2]");
    assert_eq!(get_body_text(&resp, &vec!["0".to_string()]).unwrap(), "[1,2]");
    let resp = response(&[("content-type", "application/json")], " 42 ");
    assert_eq!(get_body_text(&resp, &vec![]).unwrap(), " 42 ");
}

#[test]
fn missing_skip_key_is_ignored() {
    let resp = response(&[("content-type", "application/json")], "{\"a\":1}");
    assert_eq!(get_body_text(&resp, &vec!["zz".to_string()]).unwrap(), "{\n  \"a\": 1\n}");
}

#[test]
fn malformed_json_body_fails() {
    let resp = response(&[("content-type", "application/json")], "{not json");
    assert!(matches!(get_body_text(&resp, &vec![]), Err(ErrorKind::BodyDecode)));
    assert!(matches!(resp.filter_text(&ResponseProfile::default()), Err(ErrorKind::BodyDecode)));
}

#[test]
fn header_keys_in_order() {
    let resp = response(&[("b", "1"), ("a", "2"), ("b", "3")], "");
    assert_eq!(resp.get_header_keys(), vec!["b".to_string(), "a".to_string(), "b".to_string()]);
}
