use rdiff::{ErrorKind, ExtraArgs, Headers, JsonDoc, JsonField, JsonObject, Method, RequestProfile};

fn pairs(v: &[(&str, &str)]) -> Vec<(String, String)> {
    v.iter().map(|(k, x)| (k.to_string(), x.to_string())).collect()
}

fn profile(url: &str, headers: Headers, body: Option<JsonDoc>) -> RequestProfile {
    RequestProfile::new(Method::Post, url.to_string(), None, headers, body)
}

#[test]
fn url_query_moves_into_params() {
    let p = RequestProfile::from_url("http://h/x?a=1").unwrap();
    assert_eq!(p.url, "http://h/x");
    assert_eq!(p.method, Method::Get);
    match &p.params {
        Some(JsonDoc::Object(o)) => {
            assert_eq!(o.fields.len(), 1);
            assert_eq!(o.fields[0].0, "a");
            assert!(matches!(&o.fields[0].1, JsonField::Text(v) if v == "1"));
        }
        other => panic!("unexpected params {:?}", other),
    }
    assert!(p.body.is_none());
    assert!(p.headers.entries.is_empty());
}

#[test]
fn repeated_query_key_keeps_last_value() {
    let p = RequestProfile::from_url("http://h/x?a=1&a=2").unwrap();
    let (_, q, _) = p.generate(&ExtraArgs::default()).unwrap();
    let url = p.get_url(&ExtraArgs::default()).unwrap();
    assert_eq!(url, "http://h/x?a=2");
    assert_eq!(q.fields.len(), 1);
    assert_eq!(q.fields[0].0, "a");
    assert!(matches!(&q.fields[0].1, JsonField::Text(v) if v == "2"));
}

#[test]
fn malformed_url_is_refused() {
    assert!(matches!(RequestProfile::from_url("not a url"), Err(ErrorKind::UrlParse)));
    let r = RequestProfile::try_new(Method::Get, "::".to_string(), None, Headers::new(), None);
    assert!(matches!(r, Err(ErrorKind::UrlParse)));
}

#[test]
fn new_normalises_the_url() {
    let p = RequestProfile::new(Method::Get, "HTTP://Example.com".to_string(), None, Headers::new(), None);
    assert_eq!(p.url, "http://example.com/");
}

#[test]
fn default_content_type_and_empty_body() {
    let p = profile("http://h/", Headers::new(), None);
    let (headers, query, body) = p.generate(&ExtraArgs::default()).unwrap();
    assert_eq!(headers.entries, pairs(&[("content-type", "application/json")]));
    assert!(query.fields.is_empty());
    assert_eq!(body, "{}");
}

#[test]
fn body_override_replaces_template_and_last_wins() {
    let mut template = JsonObject::new();
    template.insert("k".to_string(), JsonField::Json(serde_json::Value::String("old".to_string())));
    template.insert("n".to_string(), JsonField::Json(serde_json::Value::from(5)));
    let p = profile("http://h/", Headers::new(), Some(JsonDoc::Object(template)));
    let args = ExtraArgs { query: vec![], header: vec![], body: pairs(&[("k", "new"), ("k", "newer")]) };
    let (_, _, body) = p.generate(&args).unwrap();
    let v: serde_json::Value = serde_json::from_str(&body).unwrap();
    assert_eq!(v["k"], serde_json::Value::String("newer".to_string()));
    assert_eq!(v["n"], serde_json::Value::from(5));
    assert_eq!(body, "{\"k\":\"newer\",\"n\":5}");
}

#[test]
fn unsupported_content_type_fails() {
    let mut h = Headers::new();
    h.set("content-type".to_string(), "text/plain".to_string());
    let mut b = JsonObject::new();
    b.insert("a".to_string(), JsonField::Text("1".to_string()));
    let p = profile("http://h/", h, Some(JsonDoc::Object(b)));
    assert!(matches!(p.generate(&ExtraArgs::default()), Err(ErrorKind::UnsupportedContentType)));
}

#[test]
fn header_override_sets_content_type() {
    let p = profile("http://h/", Headers::new(), None);
    let args = ExtraArgs {
        query: vec![],
        header: pairs(&[("Content-Type", "application/x-www-form-urlencoded")]),
        body: pairs(&[("a", "1"), ("b", "x y")]),
    };
    let (headers, _, body) = p.generate(&args).unwrap();
    assert_eq!(headers.entries, pairs(&[("content-type", "application/x-www-form-urlencoded")]));
    assert_eq!(body, "a=1&b=x+y");
}

#[test]
fn content_type_parameters_are_ignored() {
    let p = profile("http://h/", Headers::new(), None);
    let args = ExtraArgs { query: vec![], header: pairs(&[("content-type", "application/json; charset=utf-8")]), body: pairs(&[("a", "1")]) };
    let (_, _, body) = p.generate(&args).unwrap();
    assert_eq!(body, "{\"a\":\"1\"}");
}

#[test]
fn multipart_is_form_encoded() {
    let p = profile("http://h/", Headers::new(), None);
    let args = ExtraArgs { query: vec![], header: pairs(&[("content-type", "multipart/form-data")]), body: pairs(&[("a", "1")]) };
    let (_, _, body) = p.generate(&args).unwrap();
    assert_eq!(body, "a=1");
}

#[test]
fn invalid_header_override_fails() {
    let p = profile("http://h/", Headers::new(), None);
    let args = ExtraArgs { query: vec![], header: pairs(&[("bad name", "v")]), body: vec![] };
    assert!(matches!(p.generate(&args), Err(ErrorKind::InvalidHeader)));
    let args = ExtraArgs { query: vec![], header: pairs(&[("x-ok", "line\nbreak")]), body: vec![] };
    assert!(matches!(p.generate(&args), Err(ErrorKind::InvalidHeader)));
}

#[test]
fn header_override_replaces_earlier_values() {
    let mut h = Headers::new();
    h.set("x-a".to_string(), "1".to_string());
    h.entries.push(("x-a".to_string(), "2".to_string()));
    h.set("x-b".to_string(), "3".to_string());
    let p = profile("http://h/", h, None);
    let args = ExtraArgs { query: vec![], header: pairs(&[("X-A", "9")]), body: vec![] };
    let (headers, _, _) = p.generate(&args).unwrap();
    assert_eq!(headers.entries, pairs(&[("x-b", "3"), ("x-a", "9"), ("content-type", "application/json")]));
}

#[test]
fn generate_is_deterministic() {
    let mut b = JsonObject::new();
    b.insert("z".to_string(), JsonField::Text("1".to_string()));
    b.insert("a".to_string(), JsonField::Text("2".to_string()));
    let p = profile("http://h/", Headers::new(), Some(JsonDoc::Object(b)));
    let args = ExtraArgs { query: pairs(&[("q", "1")]), header: pairs(&[("x-k", "v")]), body: pairs(&[("m", "3")]) };
    let (h1, q1, b1) = p.generate(&args).unwrap();
    let (h2, q2, b2) = p.generate(&args).unwrap();
    assert_eq!(h1.entries, h2.entries);
    assert_eq!(format!("{:?}", q1), format!("{:?}", q2));
    assert_eq!(b1, b2);
}

#[test]
fn get_url_appends_query() {
    let p = profile("http://h/x", Headers::new(), None);
    assert_eq!(p.get_url(&ExtraArgs::default()).unwrap(), "http://h/x");
    let args = ExtraArgs { query: pairs(&[("b", "2"), ("a", "1")]), header: vec![], body: vec![] };
    assert_eq!(p.get_url(&args).unwrap(), "http://h/x?a=1&b=2");
}

#[test]
fn get_url_fails_like_generate() {
    let mut h = Headers::new();
    h.set("content-type".to_string(), "text/plain".to_string());
    let p = profile("http://h/x", h, None);
    assert!(matches!(p.get_url(&ExtraArgs::default()), Err(ErrorKind::UnsupportedContentType)));
}

#[test]
fn profile_parses_from_str() {
    let p: RequestProfile = "https://example.com/api?x=1&y=2".parse().unwrap();
    assert_eq!(p.url, "https://example.com/api");
    assert_eq!(p.get_url(&ExtraArgs::default()).unwrap(), "https://example.com/api?x=1&y=2");
    assert!("nope".parse::<RequestProfile>().is_err());
}

#[test]
fn hand_built_content_type_counts_in_any_case() {
    let mut h = Headers::new();
    h.entries.push(("Content-Type".to_string(), "application/x-www-form-urlencoded".to_string()));
    let p = profile("http://h/", h, None);
    let args = ExtraArgs { query: vec![], header: vec![], body: pairs(&[("a", "1")]) };
    let (headers, _, body) = p.generate(&args).unwrap();
    assert_eq!(headers.entries, pairs(&[("Content-Type", "application/x-www-form-urlencoded")]));
    assert_eq!(body, "a=1");
    let args = ExtraArgs { query: vec![], header: pairs(&[("content-type", "application/json")]), body: vec![] };
    let (headers, _, _) = p.generate(&args).unwrap();
    assert_eq!(headers.entries, pairs(&[("content-type", "application/json")]));
}

#[test]
fn insert_replaces_a_field_in_place() {
    let mut o = JsonObject::new();
    o.insert("a".to_string(), JsonField::Text("1".to_string()));
    o.insert("b".to_string(), JsonField::Text("2".to_string()));
    o.insert("a".to_string(), JsonField::Text("3".to_string()));
    assert_eq!(o.fields.len(), 2);
    assert_eq!(o.fields[0].0, "a");
    assert!(matches!(&o.fields[0].1, JsonField::Text(v) if v == "3"));
}
