use jevi::json::Object;
use jevi::{Error, Json};

fn json(raw: &str) -> Json {
    Json::parse(raw).expect("is JSON")
}

#[test]
fn values_read_and_write_as_they_are() {
    for raw in [
        "null",
        "true",
        "false",
        "0",
        "-0.0",
        "42",
        "-7",
        "18446744073709551615",
        "-9223372036854775808",
        "0.1",
        "2.57",
        "1e-7",
        r#""""#,
        r#""\"\\\n\u0001 ñ ☃""#,
        "[]",
        "[1,[2,[3]],{}]",
        "{}",
        r#"{"z":1,"a":{"z":null,"a":[true]},"m":"x"}"#,
    ] {
        let j = json(raw);
        assert_eq!(j.to_text(), raw);
        assert_eq!(json(&j.to_text()), j);
        assert_eq!(json(&j.to_pretty().expect("is written")), j);
    }
    assert_eq!(json(" { \"a\" : [ 1 , 2 ] } ").to_text(), r#"{"a":[1,2]}"#);
}

#[test]
fn numbers_keep_what_they_are() {
    assert_eq!(json("42").as_u64(), Some(42));
    assert_eq!(json("42.0").as_u64(), None);
    assert_eq!(json("-42").as_u64(), None);
    assert_eq!(json("42").as_real().map(|r| r.bits), Some(42.0f64.to_bits()));
    assert_eq!(json("0.3").as_real().map(|r| r.bits), Some(0.3f64.to_bits()));
    assert_eq!(json("0.30000000000000004").as_real().map(|r| r.bits), Some((0.1f64 + 0.2).to_bits()));
    assert_eq!(json("2").as_real().map(|r| r.fixed()).as_deref(), Some("2.00"));
    assert_eq!(json("2").as_real().map(|r| r.plain.as_str()), Some("2"));
    assert_eq!(json("2").as_real().map(|r| r.text.as_str()), Some("2.0"));
    assert_eq!(Json::whole(u64::MAX).to_text(), "18446744073709551615");
    assert_eq!(Json::whole(7), json("7"));
    assert!(json("\"7\"").as_real().is_none());
}

#[test]
fn a_text_that_is_no_json_is_refused() {
    for raw in ["", "{", "[1,]", "nul", "1 2", "'a'", "1e999", r#""\ud800""#] {
        assert!(Json::parse(raw).is_err(), "{raw}");
    }
    assert_eq!(Json::parse("[1,]").expect_err("fails"), "trailing comma at line 1 column 4");
}

#[test]
fn nesting_has_a_limit() {
    let nested = |n: usize| format!("{}{}", "[".repeat(n), "]".repeat(n));
    assert!(Json::parse(&nested(127)).is_ok());
    assert!(Json::parse(&nested(128)).is_err());
}

#[test]
fn a_key_that_comes_twice_keeps_its_last_value() {
    assert_eq!(json(r#"{"a":1,"b":2,"a":3}"#).to_text(), r#"{"a":3,"b":2}"#);
}

#[test]
fn objects_keep_their_order() {
    let o = Object::new().with("b", Json::whole(1)).with("a", Json::whole(2)).with("b", Json::whole(3));
    assert_eq!(o.len(), 2);
    assert_eq!((o.key_at(0), o.key_at(1)), ("b", "a"));
    assert_eq!(o.value_at(0), &Json::whole(3));
    assert_eq!(o.get("a"), Some(&Json::whole(2)));
    assert!(o.get("c").is_none() && !o.contains_key("c") && o.contains_key("b"));
    let less = o.without("b");
    assert_eq!(less.len(), 1);
    assert_eq!(less.key_at(0), "a");
    assert_eq!(o.without("c"), o);
    assert!(o.without("a").without("b").is_empty());
    assert_eq!(o.clone(), o);
}

#[test]
fn a_value_is_read_only_as_what_it_is() {
    let j = json(r#"{"t":"x","n":1,"a":[1],"o":{},"b":true,"z":null}"#);
    let at = |k: &str| j.get(k).expect("is there");
    assert_eq!(at("t").as_str(), Some("x"));
    assert_eq!(at("a").as_array().map(|v| v.len()), Some(1));
    assert!(at("o").as_object().is_some());
    for k in ["n", "a", "o", "b", "z"] {
        assert!(at(k).as_str().is_none());
    }
    for k in ["t", "n", "a", "b", "z"] {
        assert!(at(k).as_object().is_none());
        assert!(at(k).get("t").is_none());
    }
    assert!(at("o").as_array().is_none());
}

#[test]
fn failures_have_a_kind_a_code_and_a_line() {
    let e = Error::no_answer("no_key", "none");
    assert_eq!((e.kind(), e.code()), ("no_key", 4));
    assert_eq!(e.to_string(), "no answer (no_key: none)");
    let e = Error::invalid("flags", "bad");
    assert_eq!((e.kind(), e.code()), ("flags", 5));
    assert_eq!(e.to_string(), "invalid input (flags: bad)");
}
