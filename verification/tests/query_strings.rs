use http_server::query_string::{QueryString, Value};

#[test]
fn single_then_promoted_to_multiple() {
    let qs = QueryString::parse("k=a");
    match qs.get("k").unwrap() {
        Value::Single(v) => assert_eq!(*v, "a"),
        Value::Multiple(_) => panic!("k occurred once"),
    }
    let qs = QueryString::parse("k=a&k=b");
    match qs.get("k").unwrap() {
        Value::Single(_) => panic!("k occurred twice"),
        Value::Multiple(vs) => assert_eq!(vs.as_slice(), &["a", "b"]),
    }
}

#[test]
fn values_keep_encounter_order() {
    let qs = QueryString::parse("z=last&a=first&z=again");
    match qs.get("z").unwrap() {
        Value::Single(_) => panic!("z occurred twice"),
        Value::Multiple(vs) => assert_eq!(vs.as_slice(), &["last", "again"]),
    }
    match qs.get("a").unwrap() {
        Value::Single(v) => assert_eq!(*v, "first"),
        Value::Multiple(_) => panic!("a occurred once"),
    }
}

#[test]
fn empty_fragments_count_as_empty_keys() {
    let qs = QueryString::parse("a=1&&a=2");
    match qs.get("").unwrap() {
        Value::Single(v) => assert_eq!(*v, ""),
        Value::Multiple(_) => panic!("the empty key occurred once"),
    }
    match qs.get("a").unwrap() {
        Value::Single(_) => panic!("a occurred twice"),
        Value::Multiple(vs) => assert_eq!(vs.as_slice(), &["1", "2"]),
    }
}

#[test]
fn value_with_equals_splits_only_once() {
    let qs = QueryString::parse("expr=1=2=3");
    match qs.get("expr").unwrap() {
        Value::Single(v) => assert_eq!(*v, "1=2=3"),
        Value::Multiple(_) => panic!("expr occurred once"),
    }
}

#[test]
fn no_percent_decoding_happens() {
    let qs = QueryString::parse("q=a%20b+c");
    match qs.get("q").unwrap() {
        Value::Single(v) => assert_eq!(*v, "a%20b+c"),
        Value::Multiple(_) => panic!("q occurred once"),
    }
}

#[test]
fn missing_key_yields_none() {
    let qs = QueryString::parse("a=1&b=2");
    assert!(qs.get("c").is_none());
    assert!(qs.get("A").is_none());
}
