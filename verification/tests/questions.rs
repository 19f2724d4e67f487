use jevi::json::Object;
use jevi::notes::{note, set_quiet};
use jevi::number::Real;
use jevi::questions::{check_choice_len, parse_decide, shorthand, split_list};
use jevi::{Error, Json, Notes, Prepared, QuestionSet};

fn double(x: f64) -> Real {
    Real {
        bits: x.to_bits(),
        text: serde_json::Value::from(x).to_string(),
        plain: format!("{x}"),
    }
}

fn notes() -> Notes {
    Notes::new(&None)
}

fn prepared(raw: &str) -> Result<Prepared, Error> {
    QuestionSet::parse(raw, "test")?.prepare(&mut notes())
}

fn said(r: Result<Prepared, Error>) -> String {
    r.expect_err("is refused").to_string()
}

fn one(question: &str) -> Result<Prepared, Error> {
    prepared(&format!(r#"{{"version":1,"questions":{{"q":{question}}}}}"#))
}

#[test]
fn decide_and_notes_never_reach_the_wire() {
    let set = QuestionSet::parse(
        r#"{"version":1,"questions":{"q":{"type":"noul","instructions":"i",
             "decide":{"yes":0.8,"no":0.2},"notes":"measured tuesday"}}}"#,
        "test",
    )
    .expect("parses");
    let prepared = set.prepare(&mut notes()).expect("prepares");
    let wire = prepared.wire.get("q").and_then(Json::as_object).expect("object");
    assert!(!wire.contains_key("decide"));
    assert!(!wire.contains_key("notes"));
    assert_eq!(prepared.decide[0].yes, double(0.8));
}

#[test]
fn an_unknown_question_field_still_travels() {
    let set = QuestionSet::parse(
        r#"{"version":1,"questions":{"q":{"type":"noul","instructions":"i","future":42}}}"#,
        "test",
    )
    .expect("parses");
    let prepared = set.prepare(&mut notes()).expect("prepares");
    assert_eq!(
        prepared.wire.get("q").and_then(|q| q.get("future")).and_then(Json::as_u64),
        Some(42)
    );
}

#[test]
fn a_threshold_the_wrong_way_round_is_refused() {
    let set = QuestionSet::parse(
        r#"{"version":1,"questions":{"q":{"type":"noul","instructions":"i",
             "decide":{"yes":0.2,"no":0.8}}}}"#,
        "test",
    )
    .expect("parses");
    assert!(set.prepare(&mut notes()).is_err());
}

fn choice_with(n: usize) -> Result<Prepared, Error> {
    let crit: Vec<String> = (0..n).map(|i| format!(r#""o{i}":"opcion {i}""#)).collect();
    QuestionSet::parse(
        &format!(
            r#"{{"version":1,"questions":{{"q":{{"type":"choice","instructions":"i",
               "criteria":{{{}}}}}}}}}"#,
            crit.join(",")
        ),
        "test",
    )?
    .prepare(&mut notes())
}

#[test]
fn one_option_is_not_a_choice() {
    assert!(choice_with(1).is_err());
}

#[test]
fn more_than_eight_options_is_allowed_because_the_api_allows_it() {
    // The case this was blocking: seven tappable rows plus "scroll" and "done".
    assert!(choice_with(9).is_ok());
    assert!(choice_with(255).is_ok());
}

#[test]
fn past_what_the_api_takes_is_refused_here_instead_of_over_the_wire() {
    assert!(choice_with(256).is_err());
}

#[test]
fn score_levels_are_still_capped_at_what_the_api_enforces() {
    // Measured: 10 levels are accepted, 11 come back
    // `Too many score levels. Must have at most 10 levels.`
    let over = QuestionSet::parse(
        r#"{"version":1,"questions":{"q":{"type":"score","instructions":"i",
           "criteria":["a","b","c","d","e","f","g","h","i","j","k"]}}}"#,
        "test",
    )
    .expect("parses");
    assert!(over.prepare(&mut notes()).is_err());
}

#[test]
fn a_typo_in_a_top_level_key_is_an_error_not_a_silent_default() {
    assert!(
        QuestionSet::parse(r#"{"version":1,"max_char":100,"questions":{}}"#, "test").is_err()
    );
}

#[test]
fn names_wire_and_cuts_line_up_in_the_order_of_the_file() {
    let p = prepared(
        r#"{"version":1,"model":"m","max_chars":700,"questions":{
            "z":{"type":"noul","instructions":"i","decide":{"yes":0.8}},
            "a":{"type":"choice","instructions":"i","criteria":{"x":"x","y":"y"}},
            "m":{"type":"score","instructions":"i","criteria":["lo","hi"],"decide":{"min_confidence":0.5}}}}"#,
    )
    .expect("prepares");
    assert_eq!(p.names, ["z", "a", "m"]);
    assert_eq!(p.wire.key_at(0), "z");
    assert_eq!(p.wire.key_at(1), "a");
    assert_eq!(p.wire.key_at(2), "m");
    assert_eq!(p.decide[0].yes, double(0.8));
    assert_eq!(p.decide[1].yes, double(0.9));
    assert_eq!(p.decide[2].min_confidence, double(0.5));
    assert!(p.decide[0].tuned && !p.decide[1].tuned && p.decide[2].tuned);
    assert!(!p.decide[0].gated && !p.decide[1].gated && p.decide[2].gated);
    assert_eq!(p.model.as_deref(), Some("m"));
    assert_eq!(p.max_chars, Some(700));
}

#[test]
fn a_set_needs_a_version_it_understands_and_a_question() {
    assert_eq!(
        said(prepared(r#"{"version":2,"questions":{"q":{}}}"#)),
        "invalid input (question_file: unknown version 2 (this build understands 1))"
    );
    assert_eq!(
        said(prepared(r#"{"version":1,"questions":{}}"#)),
        "invalid input (question_file: no questions in the set)"
    );
    assert_eq!(
        said(prepared(r#"{"version":1,"questions":{"q":7}}"#)),
        "invalid input (question_file: question `q` is not an object)"
    );
    // A set that does not say is of the first version.
    assert!(prepared(r#"{"questions":{"q":{"type":"noul","instructions":"i"}}}"#).is_ok());
}

#[test]
fn a_file_that_is_no_set_is_refused() {
    for raw in [
        "",
        "nope",
        "7",
        "null",
        r#"{"version":1}"#,
        r#"{"version":1,"questions":[]}"#,
        r#"{"version":"1","questions":{}}"#,
        r#"{"version":-1,"questions":{}}"#,
        r#"{"version":4294967296,"questions":{}}"#,
        r#"{"version":1,"model":7,"questions":{}}"#,
        r#"{"version":1,"max_chars":1.5,"questions":{}}"#,
        r#"{"version":1,"version":1,"questions":{}}"#,
    ] {
        let e = QuestionSet::parse(raw, "here.json").expect_err(raw);
        assert_eq!(e.kind(), "question_file");
        assert_eq!(e.code(), 5);
        assert!(e.to_string().starts_with("invalid input (question_file: here.json: "), "{raw}");
    }
    assert!(QuestionSet::parse(r#"{"version":1,"model":null,"max_chars":null,"questions":{}}"#, "x").is_ok());
}

#[test]
fn a_refused_file_says_what_is_wrong_with_it() {
    for (raw, said) in [
        (r#"{"version":1,"max_char":100,"questions":{}}"#, "unknown field `max_char`, expected one of `version`, `model`, `max_chars`, `questions` at line 1 column 23"),
        (r#"{"version":1,"questions":{},"version":1}"#, "duplicate field `version` at line 1 column 37"),
        (r#"{"version":1,"\u0076ersion":1,"questions":{}}"#, "duplicate field `version` at line 1 column 27"),
        (r#"{"version":1}"#, "missing field `questions` at line 1 column 13"),
        (r#"{"version":"1","questions":{}}"#, r#"invalid type: string "1", expected u32 at line 1 column 14"#),
        (r#"{"version":-1,"questions":{}}"#, "invalid value: integer `-1`, expected u32 at line 1 column 13"),
        (r#"{"version":4294967296,"questions":{}}"#, "invalid value: integer `4294967296`, expected u32 at line 1 column 21"),
        (r#"{"version":1.5,"questions":{}}"#, "invalid type: floating point `1.5`, expected u32 at line 1 column 14"),
        (r#"{"version":null,"questions":{}}"#, "invalid type: null, expected u32 at line 1 column 15"),
        (r#"{"model":7,"questions":{}}"#, "invalid type: integer `7`, expected a string at line 1 column 10"),
        (r#"{"model":true,"questions":{}}"#, "invalid type: boolean `true`, expected a string at line 1 column 13"),
        (r#"{"max_chars":[1],"questions":{}}"#, "invalid type: sequence, expected usize at line 1 column 13"),
        (r#"{"max_chars":-5,"questions":{}}"#, "invalid value: integer `-5`, expected usize at line 1 column 15"),
        (r#"{"questions":[]}"#, "invalid type: sequence, expected a map at line 1 column 13"),
        (r#"[1]"#, "invalid length 3, expected struct QuestionSet with 4 elements at line 1 column 3"),
        (r#"[1,null,null,{},5]"#, "trailing characters at line 1 column 17"),
        ("7", "invalid type: integer `7`, expected struct QuestionSet at line 1 column 1"),
    ] {
        let e = QuestionSet::parse(raw, "f").expect_err(raw);
        assert_eq!(e.to_string(), format!("invalid input (question_file: f: {said})"), "{raw}");
    }
    assert!(QuestionSet::parse(r#"[1,null,null,{}]"#, "f").is_ok());
    // A colon or a brace inside a string, and keys further in, are no keys of the set.
    assert!(QuestionSet::parse(r#"{"model":"a\":{\"version\":1","questions":{"version":{"version":1}}}"#, "f").is_ok());
}

#[test]
fn a_question_needs_a_type_and_instructions() {
    assert!(said(one(r#"{"instructions":"i"}"#)).ends_with("missing `type`)"));
    assert!(said(one(r#"{"type":"noul"}"#)).ends_with("missing `instructions`)"));
    assert!(said(one(r#"{"type":"nope","instructions":"i"}"#)).ends_with("unknown type `nope`)"));
    assert!(said(one(r#"{"type":7,"instructions":"i"}"#)).ends_with("missing `type`)"));
}

#[test]
fn criteria_have_the_shape_of_their_type() {
    let with = |kind: &str, criteria: &str| {
        one(&format!(r#"{{"type":"{kind}","instructions":"i","criteria":{criteria}}}"#))
    };
    assert!(with("noul", r#"{"true":"a","false":"b"}"#).is_ok());
    assert!(said(with("noul", r#"{"true":"a"}"#)).ends_with("noul `criteria` needs both `true` and `false`)"));
    assert!(said(with("noul", "[]"))
        .ends_with("noul `criteria` must be an object with `true` and `false`)"));
    assert!(said(with("choice", "[]")).ends_with("choice needs `criteria` as an object of options)"));
    assert!(said(one(r#"{"type":"choice","instructions":"i"}"#))
        .ends_with("choice needs `criteria` as an object of options)"));
    assert!(said(with("score", "{}")).ends_with("score needs `criteria` as an array of levels)"));
    assert!(said(with("score", r#"["a"]"#)).ends_with("score needs 2-10 levels, got 1)"));
    assert!(with("score", r#"["a","b"]"#).is_ok());
    assert!(with("score", r#"["a","b","c","d","e","f","g","h","i","j"]"#).is_ok());
}

#[test]
fn cuts_are_probabilities() {
    let decide = |raw: &str| parse_decide("q", Some(&Json::parse(raw).expect("is JSON")));
    let said = |raw: &str| decide(raw).expect_err("is refused").to_string();
    assert!(said(r#"{"yes":"high"}"#).ends_with("`decide.yes` is not a number)"));
    assert!(said(r#"{"yes":1.5}"#).ends_with("`decide.yes` must be within 0..1, got 1.5)"));
    assert!(said(r#"{"no":-0.25}"#).ends_with("`decide.no` must be within 0..1, got -0.25)"));
    assert!(said(r#"{"min_confidence":2}"#).ends_with("`decide.min_confidence` must be within 0..1, got 2)"));
    assert!(said(r#"{"yes":0.2,"no":0.8}"#).ends_with("`decide.no` (0.8) is above `decide.yes` (0.2))"));
    assert!(said("[]").ends_with("`decide` is not an object)"));
    let d = decide(r#"{"yes":1,"no":0}"#).expect("is in order");
    assert_eq!(d.yes.bits, 1.0f64.to_bits());
    assert_eq!(d.no.bits, 0);
    assert!(decide(r#"{"yes":0.5,"no":0.5}"#).is_ok());
    let d = parse_decide("q", None).expect("ships");
    assert_eq!(d.yes, double(0.9));
    assert_eq!(d.no, double(0.1));
    assert_eq!(d.min_confidence, double(0.9));
    assert!(!d.tuned && d.validated.is_none());
}

#[test]
fn a_measurement_is_recorded_as_far_as_it_goes() {
    let decide = |raw: &str| {
        parse_decide("q", Some(&Json::parse(raw).expect("is JSON"))).expect("is in order")
    };
    let v = decide(r#"{"validated":{"model":"m","n":300,"max_chars":40000}}"#).validated.expect("is there");
    assert_eq!(v.model.as_deref(), Some("m"));
    assert_eq!(v.max_chars, Some(40000));
    let v = decide(r#"{"validated":{"model":7,"max_chars":"many"}}"#).validated.expect("is there");
    assert!(v.model.is_none() && v.max_chars.is_none());
    assert!(decide(r#"{"validated":true}"#).validated.is_some());
    assert!(!decide(r#"{"validated":{}}"#).tuned);
}

#[test]
fn the_first_question_that_is_wrong_is_named() {
    let e = said(prepared(
        r#"{"version":1,"questions":{"a":{"type":"noul","instructions":"i"},"b":{},"c":{"type":"noul"}}}"#,
    ));
    assert!(e.contains("`b`") && !e.contains("`c`"));
}

#[test]
fn a_wide_choice_is_advised_on_and_never_refused() {
    let mut n = notes();
    assert!(check_choice_len("q", 8, &mut n).is_ok());
    assert!(n.said.is_empty());
    assert!(check_choice_len("q", 9, &mut n).is_ok());
    assert_eq!(n.said.len(), 1);
    assert!(n.said[0].starts_with("jevi: question `q`"));
    assert!(check_choice_len("q", 2, &mut n).is_ok());
    assert!(check_choice_len("q", 1, &mut n).is_err());
    assert!(check_choice_len("q", 0, &mut n).is_err());
    assert!(check_choice_len("q", 256, &mut n).is_err());
    assert_eq!(n.said.len(), 1);
}

#[test]
fn advice_can_be_silenced() {
    let advised = |quiet: Option<&str>, soft: bool| {
        let mut n = Notes::new(&quiet.map(str::to_string));
        set_quiet(&mut n, soft);
        note(&mut n, "mind the gap");
        n.said
    };
    assert_eq!(advised(None, false), ["jevi: mind the gap"]);
    assert_eq!(advised(Some(""), false), ["jevi: mind the gap"]);
    assert_eq!(advised(Some("0"), false), ["jevi: mind the gap"]);
    assert!(advised(Some("1"), false).is_empty());
    assert!(advised(None, true).is_empty());
}

#[test]
fn a_noul_without_criteria_is_advised_on() {
    let mut n = notes();
    let set = QuestionSet::parse(
        r#"{"questions":{"a":{"type":"noul","instructions":"i"},
            "b":{"type":"noul","instructions":"i","criteria":{"true":"t","false":"f"}}}}"#,
        "test",
    )
    .expect("parses");
    set.prepare(&mut n).expect("prepares");
    assert_eq!(n.said.len(), 1);
    assert!(n.said[0].starts_with("jevi: question `a` is a noul with no `criteria`"));
}

#[test]
fn lists_are_trimmed_and_empty_items_dropped() {
    assert_eq!(split_list(" bug , feature,,question ,", "--options").expect("has items"), [
        "bug", "feature", "question"
    ]);
    assert_eq!(
        split_list(" , ,", "--options").expect_err("is empty").to_string(),
        "invalid input (flags: --options is empty)"
    );
    assert!(split_list("", "--levels").is_err());
}

fn typed(options: Option<&str>, levels: Option<&str>) -> Result<Prepared, Error> {
    shorthand("how bad", options, levels, None, None, None, &mut notes())
}

#[test]
fn a_question_typed_at_a_terminal_has_the_shape_of_its_flags() {
    let wire = |p: Prepared| Json::Object(p.wire).to_text();
    assert_eq!(
        wire(typed(None, None).expect("is in order")),
        r#"{"answer":{"instructions":"how bad","type":"noul"}}"#
    );
    assert_eq!(
        wire(typed(Some("bug, feature"), None).expect("is in order")),
        r#"{"answer":{"instructions":"how bad","type":"choice","criteria":{"bug":"bug","feature":"feature"}}}"#
    );
    assert_eq!(
        wire(typed(None, Some("lo,mid,hi")).expect("is in order")),
        r#"{"answer":{"instructions":"how bad","type":"score","criteria":["lo","mid","hi"]}}"#
    );
    assert_eq!(
        said(typed(Some("a,b"), Some("c,d"))),
        "invalid input (flags: --options and --levels are mutually exclusive)"
    );
    assert_eq!(
        said(typed(None, Some("only"))),
        "invalid input (flags: --levels takes 2-10 values, got 1)"
    );
    assert!(said(typed(Some("only"), None)).starts_with("invalid input (question_file: question `answer`"));
    assert_eq!(said(typed(Some(","), None)), "invalid input (flags: --options is empty)");
}

#[test]
fn a_typed_question_takes_its_cuts_from_the_flags() {
    let with = |yes: Option<f64>, no: Option<f64>, min: Option<f64>| {
        shorthand(
            "i",
            None,
            None,
            yes.map(double),
            no.map(double),
            min.map(double),
            &mut notes(),
        )
    };
    let p = with(None, None, None).expect("ships");
    assert!(!p.decide[0].tuned);
    assert_eq!(p.names, ["answer"]);
    let p = with(Some(0.5), None, None).expect("is in order");
    assert!(p.decide[0].tuned);
    assert_eq!(p.decide[0].yes, double(0.5));
    assert_eq!(p.decide[0].no, double(0.1));
    assert_eq!(
        said(with(Some(0.2), Some(0.8), None)),
        "invalid input (flags: --no-at is above --yes-at)"
    );
    // A cut given by hand is taken as it is.
    assert!(with(Some(7.0), None, None).is_ok());
    assert!(with(Some(f64::NAN), None, None).is_ok());
    // Only a minimum that was asked for is one, whatever its value.
    assert!(!with(Some(0.5), None, None).expect("is in order").decide[0].gated);
    assert!(with(None, None, Some(0.9)).expect("is in order").decide[0].gated);
}

#[test]
fn a_set_can_be_read_from_a_value() {
    let j = Json::Object(Object::new().with("questions", Json::Object(Object::new())));
    let set = QuestionSet::from_json(&j).expect("is a set");
    assert!(set.version == 1 && set.model.is_none() && set.max_chars.is_none() && set.questions.is_empty());
    assert_eq!(
        QuestionSet::from_json(&Json::Null).expect_err("is no set"),
        "invalid type: null, expected struct QuestionSet"
    );
    let j = Json::Object(Object::new().with("x", Json::Null).with("version", Json::Null));
    assert_eq!(
        QuestionSet::from_json(&j).expect_err("is no set"),
        "unknown field `x`, expected one of `version`, `model`, `max_chars`, `questions`"
    );
}

#[test]
fn a_question_named_twice_is_asked_once() {
    let p = prepared(
        r#"{"questions":{"a":{"type":"noul"},"b":{"type":"noul","instructions":"i"},
            "a":{"type":"noul","instructions":"last"}}}"#,
    )
    .expect("prepares");
    assert_eq!(p.names, ["a", "b"]);
    assert_eq!(
        p.wire.get("a").and_then(|q| q.get("instructions")).and_then(Json::as_str),
        Some("last")
    );
}
