use rdiff::{parse_key_val, ExtraArgs, KeyValType, RunArgs};
use rdiff::ErrorKind;

#[test]
fn query_token_is_classified() {
    let kv = parse_key_val("a=1").unwrap();
    assert_eq!(kv.key_val_type, KeyValType::Query);
    assert_eq!(kv.key, "a");
    assert_eq!(kv.value, "1");
}

#[test]
fn body_token_is_trimmed() {
    let kv = parse_key_val(" @name = bob ").unwrap();
    assert_eq!(kv.key_val_type, KeyValType::Body);
    assert_eq!(kv.key, "name");
    assert_eq!(kv.value, "bob");
}

#[test]
fn header_token_is_classified() {
    let kv = parse_key_val("%X-Token=abc").unwrap();
    assert_eq!(kv.key_val_type, KeyValType::Header);
    assert_eq!(kv.key, "X-Token");
    assert_eq!(kv.value, "abc");
}

#[test]
fn split_happens_at_first_equals() {
    let kv = parse_key_val("q=a=b").unwrap();
    assert_eq!(kv.key, "q");
    assert_eq!(kv.value, "a=b");
}

#[test]
fn token_without_equals_is_refused() {
    assert!(matches!(parse_key_val("novalue"), Err(ErrorKind::InvalidOverride)));
}

#[test]
fn empty_key_is_refused() {
    assert!(matches!(parse_key_val("=v"), Err(ErrorKind::InvalidOverride)));
    assert!(matches!(parse_key_val("@=v"), Err(ErrorKind::InvalidOverride)));
    assert!(matches!(parse_key_val("%=v"), Err(ErrorKind::InvalidOverride)));
}

#[test]
fn non_alphabetic_key_is_refused() {
    assert!(matches!(parse_key_val("1a=b"), Err(ErrorKind::InvalidOverride)));
    assert!(matches!(parse_key_val("-a=b"), Err(ErrorKind::InvalidOverride)));
}

#[test]
fn unicode_alphabetic_key_is_a_query() {
    let kv = parse_key_val("été=chaud").unwrap();
    assert_eq!(kv.key_val_type, KeyValType::Query);
    assert_eq!(kv.key, "été");
}

#[test]
fn classification_keeps_order_and_duplicates() {
    let tokens = ["a=1", "@x=1", "%h=1", "b=2", "a=3", "@x=2"];
    let kvs: Vec<_> = tokens.iter().map(|t| parse_key_val(t).unwrap()).collect();
    let args = ExtraArgs::from_key_vals(kvs);
    assert_eq!(
        args.query,
        vec![("a".to_string(), "1".to_string()), ("b".to_string(), "2".to_string()), ("a".to_string(), "3".to_string())]
    );
    assert_eq!(args.header, vec![("h".to_string(), "1".to_string())]);
    assert_eq!(args.body, vec![("x".to_string(), "1".to_string()), ("x".to_string(), "2".to_string())]);
}

#[test]
fn parsing_twice_gives_the_same_classification() {
    for t in ["a=1", "@b = 2", "%c=3", "bad", "9=1"] {
        let first = parse_key_val(t);
        let second = parse_key_val(t);
        match (first, second) {
            (Ok(x), Ok(y)) => {
                assert_eq!(x.key_val_type, y.key_val_type);
                assert_eq!(x.key, y.key);
                assert_eq!(x.value, y.value);
            }
            (Err(_), Err(_)) => {}
            _ => panic!("parses differ for {}", t),
        }
    }
}

#[test]
fn config_file_defaults() {
    let args = RunArgs { profile: "p".to_string(), extra_params: vec![], config: None };
    assert_eq!(args.config_file(), "./rdiff.yaml");
    let args = RunArgs { profile: "p".to_string(), extra_params: vec![], config: Some("x.yaml".to_string()) };
    assert_eq!(args.config_file(), "x.yaml");
}

#[test]
fn rendered_token_parses_back() {
    for t in [" @name = bob ", "%X-Token=abc", "q = a=b ", "key=", "\u{3000}k\u{a0}=v\t"] {
        let kv = parse_key_val(t).unwrap();
        let prefix = match kv.key_val_type {
            KeyValType::Body => "@",
            KeyValType::Header => "%",
            KeyValType::Query => "",
        };
        let again = parse_key_val(&format!("{}{}={}", prefix, kv.key, kv.value)).unwrap();
        assert_eq!(again.key_val_type, kv.key_val_type);
        assert_eq!(again.key, kv.key);
        assert_eq!(again.value, kv.value);
    }
    let kv = parse_key_val("\u{3000}k\u{a0}=v\t").unwrap();
    assert_eq!(kv.key, "k");
    assert_eq!(kv.value, "v");
}
