use jevi::decide::{outcome, outcome_pinned, Provenance, Source};
use jevi::number::Real;
use jevi::{Decide, Json, Outcome, Validated, Verdict};

fn double(x: f64) -> Real {
    Real {
        bits: x.to_bits(),
        text: serde_json::Value::from(x).to_string(),
        plain: format!("{x}"),
    }
}

fn json(raw: &str) -> Json {
    Json::parse(raw).expect("is JSON")
}

fn no_provenance() -> Provenance<'static> {
    Provenance {
        model_used: None,
        state_chars: 0,
    }
}

fn noul(p: f64) -> Json {
    json(&format!(r#"{{"type":"noul","noul":{p}}}"#))
}

#[test]
fn noul_lands_in_the_three_bands() {
    let d = Decide {
        yes: double(0.85),
        no: double(0.5),
        ..Decide::default()
    };
    let at = |p: f64| outcome(&noul(p), &d, &no_provenance()).verdict;
    assert_eq!(at(0.94), Verdict::Yes);
    assert_eq!(at(0.44), Verdict::No);
    assert_eq!(at(0.70), Verdict::Unsure);
}

#[test]
fn a_noul_is_never_given_a_confidence() {
    let out = outcome(&noul(0.96), &Decide::default(), &no_provenance());
    assert!(out.confidence.is_none());
}

#[test]
fn a_choice_below_its_confidence_is_unsure_but_keeps_the_label() {
    let d = Decide {
        min_confidence: double(0.9),
        ..Decide::default()
    };
    let out = outcome(
        &json(r#"{"type":"choice","choice":"bug","confidence":0.61}"#),
        &d,
        &no_provenance(),
    );
    assert_eq!(out.verdict, Verdict::Unsure);
    assert_eq!(out.label.as_deref(), Some("bug"));
}

#[test]
fn a_score_reads_its_label_off_the_legend() {
    let out = outcome(
        &json(
            r#"{"type":"score","score":2.57,"confidence":0.57,
                "legend":{"0":"trivial","1":"minor","2":"major","3":"blocking"}}"#,
        ),
        &Decide::default(),
        &no_provenance(),
    );
    assert_eq!(out.label.as_deref(), Some("blocking"));
    assert_eq!(out.number, Some(double(2.57)));
}

#[test]
fn a_threshold_validated_on_another_model_does_not_get_applied() {
    let d = Decide {
        yes: double(0.85),
        no: double(0.5),
        validated: Some(Validated {
            model: Some("typesafe/jev-1.13".into()),
            max_chars: None,
        }),
        ..Decide::default()
    };
    let p = Provenance {
        model_used: Some("typesafe/jev-2.0"),
        state_chars: 0,
    };
    let out = outcome(&noul(0.99), &d, &p);
    assert_eq!(out.verdict, Verdict::Unsure);
    assert_eq!(out.warning, Some("model_mismatch"));
}

#[test]
fn a_dated_build_of_the_pinned_model_still_counts_as_that_model() {
    let d = Decide {
        validated: Some(Validated {
            model: Some("typesafe/jev-1.13".into()),
            max_chars: None,
        }),
        ..Decide::default()
    };
    let p = Provenance {
        model_used: Some("typesafe/jev-1.13-20260917"),
        state_chars: 0,
    };
    let out = outcome(&noul(0.99), &d, &p);
    assert_eq!(out.verdict, Verdict::Yes);
    assert!(out.warning.is_none());
}

#[test]
fn a_longer_state_than_was_measured_downgrades_the_verdict() {
    let d = Decide {
        validated: Some(Validated {
            model: None,
            max_chars: Some(1000),
        }),
        ..Decide::default()
    };
    let p = Provenance {
        model_used: None,
        state_chars: 4000,
    };
    let out = outcome(&noul(0.99), &d, &p);
    assert_eq!(out.verdict, Verdict::Unsure);
    assert_eq!(out.warning, Some("length_mismatch"));
}

#[test]
fn an_answer_missing_its_field_is_unsure_not_a_failed_call() {
    let out = outcome(&json(r#"{"type":"choice"}"#), &Decide::default(), &no_provenance());
    assert_eq!(out.verdict, Verdict::Unsure);
    assert_eq!(out.warning, Some("incomplete_answer"));
}

#[test]
fn a_question_nobody_validated_says_so() {
    let out = outcome(&noul(0.99), &Decide::default(), &no_provenance());
    assert!(out.defaulted());
}

#[test]
fn the_cuts_themselves_belong_to_the_outer_bands() {
    let d = Decide {
        yes: double(0.85),
        no: double(0.5),
        ..Decide::default()
    };
    let at = |p: f64| outcome(&noul(p), &d, &no_provenance()).verdict;
    assert_eq!(at(0.85), Verdict::Yes);
    assert_eq!(at(0.8499999999999999), Verdict::Unsure);
    assert_eq!(at(0.5), Verdict::No);
    assert_eq!(at(0.5000000000000001), Verdict::Unsure);
    assert_eq!(at(0.0), Verdict::No);
    assert_eq!(at(1.0), Verdict::Yes);
}

#[test]
fn a_state_of_exactly_the_measured_length_keeps_its_verdict() {
    let d = Decide {
        validated: Some(Validated {
            model: None,
            max_chars: Some(1000),
        }),
        ..Decide::default()
    };
    let p = Provenance {
        model_used: None,
        state_chars: 1000,
    };
    let out = outcome(&noul(0.99), &d, &p);
    assert_eq!(out.verdict, Verdict::Yes);
    assert_eq!(out.thresholds.source, Source::Validated);
    assert!(!out.defaulted());
}

#[test]
fn another_model_is_named_before_another_length() {
    let d = Decide {
        validated: Some(Validated {
            model: Some("a".into()),
            max_chars: Some(1),
        }),
        ..Decide::default()
    };
    let p = Provenance {
        model_used: Some("b"),
        state_chars: 2,
    };
    let out = outcome(&noul(0.99), &d, &p);
    assert_eq!(out.warning, Some("model_mismatch"));
    // What the answer said is still shown; only the verdict is taken back.
    assert_eq!(out.number, Some(double(0.99)));
}

#[test]
fn a_model_that_does_not_say_its_name_is_taken_for_the_pinned_one() {
    let d = Decide {
        validated: Some(Validated {
            model: Some("typesafe/jev-1.13".into()),
            max_chars: None,
        }),
        ..Decide::default()
    };
    assert_eq!(outcome(&noul(0.99), &d, &no_provenance()).verdict, Verdict::Yes);
}

#[test]
fn a_pinned_build_is_no_other_build() {
    let d = Decide {
        validated: Some(Validated {
            model: Some("typesafe/jev-1.13-20260917".into()),
            max_chars: None,
        }),
        ..Decide::default()
    };
    let p = Provenance {
        model_used: Some("typesafe/jev-1.13"),
        state_chars: 0,
    };
    assert_eq!(outcome(&noul(0.99), &d, &p).warning, Some("model_mismatch"));
}

fn score(raw: &str, d: &Decide) -> Outcome {
    outcome(&json(raw), d, &no_provenance())
}

#[test]
fn a_score_is_gated_only_where_a_gate_was_asked_for() {
    let doubtful = r#"{"type":"score","score":1.2,"confidence":0.4}"#;
    assert_eq!(score(doubtful, &Decide::default()).verdict, Verdict::Yes);
    let lowered = Decide {
        min_confidence: double(0.5),
        ..Decide::default()
    };
    assert_eq!(score(doubtful, &lowered).verdict, Verdict::Unsure);
    let measured = Decide {
        validated: Some(Validated {
            model: None,
            max_chars: None,
        }),
        ..Decide::default()
    };
    assert_eq!(score(doubtful, &measured).verdict, Verdict::Unsure);
    assert_eq!(score(r#"{"type":"score","score":1.2}"#, &measured).verdict, Verdict::Yes);
}

#[test]
fn a_minimum_that_was_asked_for_gates_a_score_whatever_it_is() {
    let at = |min: f64, gated: bool, confidence: f64| {
        let d = Decide {
            min_confidence: double(min),
            tuned: true,
            gated,
            ..Decide::default()
        };
        score(&format!(r#"{{"type":"score","score":2.0,"confidence":{confidence}}}"#), &d).verdict
    };
    assert_eq!(at(0.95, true, 0.57), Verdict::Unsure);
    assert_eq!(at(0.95, true, 0.95), Verdict::Yes);
    assert_eq!(at(0.95, false, 0.57), Verdict::Unsure);
    assert_eq!(at(0.9, true, 0.57), Verdict::Unsure);
    assert_eq!(at(0.9, true, 0.9), Verdict::Yes);
    // Another cut was asked for, and no minimum.
    assert_eq!(at(0.9, false, 0.57), Verdict::Yes);
    assert_eq!(at(0.5, true, 0.57), Verdict::Yes);
    assert_eq!(at(0.5, true, 0.4), Verdict::Unsure);
}

#[test]
fn an_answer_from_another_model_than_pinned_is_unsure() {
    let p = Provenance {
        model_used: Some("typesafe/jev-2.0"),
        state_chars: 0,
    };
    let under = |pinned: Option<&str>, p: &Provenance<'_>| {
        let out = outcome_pinned(pinned, &noul(0.99), &Decide::default(), p);
        (out.verdict, out.warning)
    };
    assert_eq!(under(Some("typesafe/jev-1.13"), &p), (Verdict::Unsure, Some("model_mismatch")));
    assert_eq!(under(Some("typesafe/jev-2"), &p), (Verdict::Yes, None));
    assert_eq!(under(None, &p), (Verdict::Yes, None));
    assert_eq!(under(Some("typesafe/jev-1.13"), &no_provenance()), (Verdict::Yes, None));
}

#[test]
fn a_score_is_rounded_half_up_and_never_below_the_first_level() {
    let label = |s: &str| {
        score(
            &format!(r#"{{"type":"score","score":{s},"legend":{{"0":"a","1":"b","2":"c","3":"d"}}}}"#),
            &Decide::default(),
        )
        .label
    };
    assert_eq!(label("0").as_deref(), Some("a"));
    assert_eq!(label("0.49").as_deref(), Some("a"));
    assert_eq!(label("0.5").as_deref(), Some("b"));
    assert_eq!(label("1.5").as_deref(), Some("c"));
    assert_eq!(label("2.5").as_deref(), Some("d"));
    assert_eq!(label("-0.7").as_deref(), Some("a"));
    assert_eq!(label("-5").as_deref(), Some("a"));
    assert_eq!(label("17").as_deref(), None);
    assert_eq!(label("1e300").as_deref(), None);
}

#[test]
fn a_choice_without_a_confidence_keeps_what_it_has() {
    let out = outcome(
        &json(r#"{"type":"choice","choice":"bug"}"#),
        &Decide::default(),
        &no_provenance(),
    );
    assert_eq!(out.label.as_deref(), Some("bug"));
    assert_eq!(out.warning, Some("incomplete_answer"));
    let out = outcome(
        &json(r#"{"type":"choice","confidence":0.99}"#),
        &Decide::default(),
        &no_provenance(),
    );
    assert_eq!(out.confidence, Some(double(0.99)));
    assert_eq!(out.verdict, Verdict::Unsure);
}

#[test]
fn an_answer_of_no_known_type_is_unsure() {
    for raw in ["null", "{}", "[1]", r#"{"type":"essay"}"#, r#"{"type":7}"#] {
        let out = outcome(&json(raw), &Decide::default(), &no_provenance());
        assert_eq!(out.verdict, Verdict::Unsure);
        assert_eq!(out.warning, Some("incomplete_answer"));
    }
    let kind = |raw: &str| outcome(&json(raw), &Decide::default(), &no_provenance()).kind;
    assert_eq!(kind("null"), "unknown");
    assert_eq!(kind(r#"{"type":"essay"}"#), "essay");
}

#[test]
fn verdicts_have_words_and_codes() {
    assert_eq!(Verdict::Yes.as_str(), "yes");
    assert_eq!(Verdict::No.as_str(), "no");
    assert_eq!(Verdict::Unsure.as_str(), "unsure");
    assert_eq!(Verdict::Yes.code(), 0);
    assert_eq!(Verdict::No.code(), 1);
    assert_eq!(Verdict::Unsure.code(), 3);
}

#[test]
fn cuts_say_where_they_come_from() {
    let tuned = Decide {
        tuned: true,
        ..Decide::default()
    };
    let source = |d: &Decide| outcome(&noul(0.5), d, &no_provenance()).thresholds.source;
    assert_eq!(source(&Decide::default()), Source::Default);
    assert_eq!(source(&tuned), Source::Custom);
    assert_eq!(Source::Default.as_str(), "default");
    assert_eq!(Source::Custom.as_str(), "custom");
    assert_eq!(Source::Validated.as_str(), "validated");
}
