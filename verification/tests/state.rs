use jevi::state::{build_state, state_len};
use jevi::Json;

#[test]
fn a_long_string_state_is_truncated_and_says_so() {
    let raw = "x".repeat(200);
    let b = build_state(&raw, false, 50).expect("builds");
    assert_eq!(b.chars, 50);
    assert!(b
        .state
        .as_str()
        .expect("string")
        .contains("150 characters truncated"));
}

#[test]
fn truncation_is_reported_to_the_caller_not_only_to_the_model() {
    // The marker inside the text is for the model to read. `dropped` is for whoever has
    // to decide whether this answer is about the whole input — and until it existed, a
    // state cut in half produced a document indistinguishable from a complete one.
    assert_eq!(
        build_state(&"x".repeat(200), false, 50)
            .expect("builds")
            .dropped,
        150
    );
}

#[test]
fn a_state_that_fits_reports_nothing_dropped() {
    assert_eq!(build_state("short", false, 50).expect("builds").dropped, 0);
}

#[test]
fn a_json_state_is_never_truncated() {
    let raw = format!(r#"{{"a":"{}"}}"#, "x".repeat(200));
    let b = build_state(&raw, true, 50).expect("builds");
    assert_eq!(b.state.get("a").and_then(Json::as_str).expect("string").len(), 200);
    assert_eq!(b.dropped, 0);
}

#[test]
fn an_empty_state_is_refused_before_any_network() {
    assert_eq!(build_state("   \n", false, 0).expect_err("fails").code(), 5);
}

#[test]
fn a_cut_counts_characters_and_not_bytes() {
    let b = build_state("añejo ☃ nieve", false, 7).expect("builds");
    assert_eq!(
        b.state.as_str(),
        Some("añejo ☃\n\n[jevi: 6 characters truncated]")
    );
    assert_eq!((b.chars, b.dropped), (7, 6));
    let b = build_state("añejo ☃ nieve", false, 13).expect("builds");
    assert_eq!(b.state.as_str(), Some("añejo ☃ nieve"));
    assert_eq!((b.chars, b.dropped), (13, 0));
}

#[test]
fn no_cap_sends_everything() {
    let raw = "x".repeat(100_000);
    let b = build_state(&raw, false, 0).expect("builds");
    assert_eq!((b.chars, b.dropped), (100_000, 0));
}

#[test]
fn white_space_around_a_text_is_kept() {
    let b = build_state("  x\n", false, 0).expect("builds");
    assert_eq!(b.state.as_str(), Some("  x\n"));
    assert_eq!(b.chars, 4);
}

#[test]
fn a_blank_text_is_refused_as_json_too() {
    let e = build_state("\u{a0}\u{2003}\t", true, 0).expect_err("fails");
    assert_eq!(e.to_string(), "invalid input (state: the text to judge is empty)");
}

#[test]
fn a_state_that_should_be_json_must_be() {
    let e = build_state("{", true, 0).expect_err("fails");
    assert_eq!(e.kind(), "state");
    assert!(e.to_string().starts_with("invalid input (state: --state-json but not JSON: EOF"));
}

#[test]
fn a_state_is_as_long_as_what_is_sent() {
    assert_eq!(state_len(&Json::Text("añejo".to_string())), 5);
    assert_eq!(state_len(&Json::parse(r#"{ "a" : "ñ" , "b" : [ 1, 2 ] }"#).expect("is JSON")), 19);
    assert_eq!(state_len(&Json::Null), 4);
}
