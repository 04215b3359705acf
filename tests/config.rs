use rdiff::{
    is_default, DiffConfig, DiffProfile, ErrorKind, Headers, JsonDoc, JsonObject, Method, RequestConfig,
    RequestProfile, ResponseProfile, ShapeField, Side, Validateable,
};

fn request(params: Option<JsonDoc>, body: Option<JsonDoc>) -> RequestProfile {
    RequestProfile::new(Method::Get, "http://h/".to_string(), params, Headers::new(), body)
}

fn diff_profile(params: Option<JsonDoc>) -> DiffProfile {
    DiffProfile::new(request(params, None), request(None, None), ResponseProfile::default())
}

#[test]
fn config_error_names_the_bad_profile() {
    let good = diff_profile(Some(JsonDoc::Object(JsonObject::new())));
    let bad = diff_profile(Some(JsonDoc::Other(serde_json::Value::Array(vec![]))));
    let config = DiffConfig::new(vec![("good".to_string(), good), ("bad".to_string(), bad)]);
    match config.validate() {
        Err(ErrorKind::ConfigValidation(name, cause)) => {
            assert_eq!(name, "bad");
            assert!(matches!(*cause, ErrorKind::InvalidRequest(Side::Req1, ShapeField::Params)));
        }
        other => panic!("unexpected {:?}", other),
    }
    let alone = DiffConfig::new(vec![("good".to_string(), diff_profile(None))]);
    assert!(alone.validate().is_ok());
}

#[test]
fn request_profile_shape_errors() {
    let p = request(None, Some(JsonDoc::Other(serde_json::Value::from(3))));
    assert!(matches!(p.validate(), Err(ErrorKind::InvalidShape(ShapeField::Body))));
    let p = request(Some(JsonDoc::Other(serde_json::Value::Null)), None);
    assert!(matches!(p.validate(), Err(ErrorKind::InvalidShape(ShapeField::Params))));
    assert!(request(None, None).validate().is_ok());
}

#[test]
fn second_request_error_is_named() {
    let p = DiffProfile::new(
        request(None, None),
        request(None, Some(JsonDoc::Other(serde_json::Value::Bool(true)))),
        ResponseProfile::default(),
    );
    assert!(matches!(p.validate(), Err(ErrorKind::InvalidRequest(Side::Req2, ShapeField::Body))));
}

#[test]
fn request_config_lookup_and_validation() {
    let config = RequestConfig::new(vec![
        ("one".to_string(), request(None, None)),
        ("two".to_string(), request(Some(JsonDoc::Other(serde_json::Value::from("s"))), None)),
    ]);
    assert!(config.get_profile("one").is_some());
    assert!(config.get_profile("One").is_none());
    assert!(config.get_profile("three").is_none());
    match config.validate() {
        Err(ErrorKind::ConfigValidation(name, cause)) => {
            assert_eq!(name, "two");
            assert!(matches!(*cause, ErrorKind::InvalidShape(ShapeField::Params)));
        }
        other => panic!("unexpected {:?}", other),
    }
}

#[test]
fn diff_config_lookup() {
    let config = DiffConfig::new(vec![("a".to_string(), diff_profile(None))]);
    assert!(config.get_profile("a").is_some());
    assert!(config.get_profile("b").is_none());
}

#[test]
fn default_response_profile() {
    assert!(is_default(&ResponseProfile::default()));
    assert!(is_default(&ResponseProfile::new(vec![], vec![])));
    assert!(!is_default(&ResponseProfile::new(vec!["x".to_string()], vec![])));
    assert!(!is_default(&ResponseProfile::new(vec![], vec!["y".to_string()])));
}

#[test]
fn response_profiles_compare_by_contents() {
    let a = ResponseProfile::new(vec!["x".to_string()], vec!["y".to_string()]);
    let b = ResponseProfile::new(vec!["x".to_string()], vec!["y".to_string()]);
    let c = ResponseProfile::new(vec!["x".to_string()], vec![]);
    assert!(a == b);
    assert!(a != c);
    assert!(ResponseProfile::default() == ResponseProfile::new(vec![], vec![]));
}
