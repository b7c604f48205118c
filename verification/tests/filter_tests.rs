use scim_proto::filter::{parse_aname, parse_attr_path, parse_filter, AttrPath, ScimFilter};
use scim_proto::wire::WireValue;

#[test]
fn test_scimfilter_attrname() {
    assert!(parse_aname("abcd-_").is_ok());
    assert!(parse_aname("aB-_CD").is_ok());
    assert!(parse_aname("a1-_23").is_ok());
    assert!(parse_aname("-bcd").is_err());
    assert!(parse_aname("_bcd").is_err());
    assert!(parse_aname("0bcd").is_err());
}

#[test]
fn test_scimfilter_attrpath() {
    assert!(parse_attr_path("abcd") == Ok(AttrPath { a: "abcd".to_string(), s: None }));

    assert!(
        parse_attr_path("abcd.abcd")
            == Ok(AttrPath { a: "abcd".to_string(), s: Some("abcd".to_string()) })
    );

    assert!(parse_attr_path("abcd.0").is_err());
    assert!(parse_attr_path("abcd._").is_err());
    assert!(parse_attr_path("abcd,0").is_err());
    assert!(parse_attr_path(".abcd").is_err());
}

#[test]
fn test_scimfilter_pres() {
    let r = parse_filter("abcd pr").expect("present filter should parse");
    match r {
        ScimFilter::Present(p) => {
            assert_eq!(p.a, "abcd");
            assert!(p.s.is_none());
        },
        _ => panic!("expected a presence filter"),
    }
}

#[test]
fn test_scimfilter_eq() {
    let r = parse_filter("abcd eq dcba").expect("equality filter should parse");
    match r {
        ScimFilter::Equal(p, v) => {
            assert_eq!(p.a, "abcd");
            assert!(p.s.is_none());
            match v {
                WireValue::Str(s) => assert_eq!(s, "dcba"),
                _ => panic!("expected a string value"),
            }
        },
        _ => panic!("expected an equality filter"),
    }
}

#[test]
fn filter_eq_with_sub_attribute() {
    let r = parse_filter("emails.value eq bjensen").expect("filter should parse");
    match r {
        ScimFilter::Equal(p, _) => {
            assert_eq!(p.a, "emails");
            assert_eq!(p.s, Some("value".to_string()));
        },
        _ => panic!("expected an equality filter"),
    }
}

#[test]
fn filter_eq_quoted_string() {
    let r = parse_filter("title eq \"Tour Guide\"").expect("filter should parse");
    match r {
        ScimFilter::Equal(_, WireValue::Str(s)) => assert_eq!(s, "Tour Guide"),
        _ => panic!("expected a string value"),
    }
}

#[test]
fn filter_eq_number_and_bool() {
    match parse_filter("height eq 42").expect("filter should parse") {
        ScimFilter::Equal(_, WireValue::Number(n)) => assert_eq!(n, "42"),
        _ => panic!("expected a number value"),
    }
    match parse_filter("height eq -7").expect("filter should parse") {
        ScimFilter::Equal(_, WireValue::Number(n)) => assert_eq!(n, "-7"),
        _ => panic!("expected a number value"),
    }
    match parse_filter("active eq true").expect("filter should parse") {
        ScimFilter::Equal(_, WireValue::Bool(b)) => assert!(b),
        _ => panic!("expected a boolean value"),
    }
}

#[test]
fn filter_rejects_malformed() {
    assert!(parse_filter("abcd").is_err());
    assert!(parse_filter("abcd xx").is_err());
    assert!(parse_filter("0bcd pr").is_err());
    assert!(parse_filter("abcd eq").is_err());
    assert!(parse_filter("abcd eq ").is_err());
    assert!(parse_filter("abcd eq \"unclosed").is_err());
}
