use jevi::decide::{Source, Thresholds};
use jevi::number::Real;
use jevi::output::{document, failure, terse};
use jevi::{Json, Outcome, Verdict};

fn double(x: f64) -> Real {
    Real {
        bits: x.to_bits(),
        text: serde_json::Value::from(x).to_string(),
        plain: format!("{x}"),
    }
}

fn at<'a>(doc: &'a Json, path: &[&str]) -> Option<&'a Json> {
    let mut here = doc;
    for key in path {
        here = here.get(key)?;
    }
    Some(here)
}

fn text(s: &str) -> Json {
    Json::Text(s.to_string())
}

fn shipped() -> Thresholds {
    Thresholds {
        source: Source::Default,
        yes: double(0.9),
        no: double(0.1),
        min_confidence: double(0.9),
    }
}

fn noul(p: f64, verdict: Verdict) -> Outcome {
    Outcome {
        kind: "noul".into(),
        verdict,
        label: None,
        number: Some(double(p)),
        confidence: None,
        warning: None,
        thresholds: shipped(),
    }
}

#[test]
fn one_question_prints_without_its_name() {
    let out = terse(&["answer".into()], &[noul(0.96, Verdict::Yes)], true);
    assert_eq!(out, "yes\t0.96\n");
}

#[test]
fn several_questions_are_named() {
    let names = vec!["a".to_string(), "b".to_string()];
    let out = terse(
        &names,
        &[noul(0.96, Verdict::Yes), noul(0.04, Verdict::No)],
        false,
    );
    assert_eq!(out, "a\tyes\t0.96\nb\tno\t0.04\n");
}

#[test]
fn a_forced_verdict_says_which_rule_forced_it() {
    let mut o = noul(0.99, Verdict::Unsure);
    o.warning = Some("model_mismatch");
    assert!(terse(&["a".into()], &[o], true).contains("!model_mismatch"));
}

#[test]
fn an_unvalidated_question_is_marked_in_the_document() {
    let o = noul(0.99, Verdict::Yes);
    let doc = document(&["a".into()], &[o], "openrouter", None, None, 1);
    assert_eq!(at(&doc, &["answers", "a", "thresholds"]), Some(&text("default")));
    // Nothing was moved, so there is nothing to disclose and no noise to add.
    assert!(at(&doc, &["answers", "a", "cuts"]).is_none());
}

#[test]
fn a_hand_set_cut_is_disclosed_with_its_value() {
    let mut o = noul(0.71, Verdict::Yes);
    o.thresholds = Thresholds {
        source: Source::Custom,
        yes: double(0.5),
        ..shipped()
    };
    let doc = document(&["a".into()], &[o], "openrouter", None, None, 1);
    assert_eq!(at(&doc, &["answers", "a", "thresholds"]), Some(&text("custom")));
    assert_eq!(
        at(&doc, &["answers", "a", "cuts", "yes"]).and_then(Json::as_real),
        Some(&double(0.5))
    );
}

#[test]
fn a_choice_discloses_the_cut_that_could_have_decided_it_and_not_the_others() {
    let o = Outcome {
        kind: "choice".into(),
        verdict: Verdict::Yes,
        label: Some("bug".into()),
        number: None,
        confidence: Some(double(0.71)),
        warning: None,
        thresholds: Thresholds {
            source: Source::Custom,
            min_confidence: double(0.6),
            ..shipped()
        },
    };
    let doc = document(&["a".into()], &[o], "openrouter", None, None, 1);
    assert_eq!(
        at(&doc, &["answers", "a", "cuts", "min_confidence"]).and_then(Json::as_real),
        Some(&double(0.6))
    );
    assert!(at(&doc, &["answers", "a", "cuts", "yes"]).is_none());
}

#[test]
fn a_line_shows_the_label_where_there_is_one() {
    let mut o = noul(2.57, Verdict::Yes);
    o.kind = "score".into();
    o.label = Some("blocking".into());
    o.confidence = Some(double(0.57));
    assert_eq!(terse(&["a".into()], &[o], true), "blocking\t0.57\n");

    let mut o = noul(2.57, Verdict::Unsure);
    o.label = Some("blocking".into());
    assert_eq!(terse(&["a".into()], &[o], false), "a\tblocking\t!unsure\n");

    let mut o = noul(0.99, Verdict::Unsure);
    o.warning = Some("length_mismatch");
    assert_eq!(
        terse(&["needs_human".into()], &[o], false),
        "needs_human\tunsure\t0.99\t!length_mismatch\n"
    );

    let mut o = noul(0.5, Verdict::Unsure);
    assert_eq!(terse(&["a".into()], &[noul(0.5, Verdict::Unsure)], true), "unsure\t0.50\n");
    o.number = None;
    assert_eq!(terse(&["a".into()], &[o], true), "unsure\n");
}

#[test]
fn an_outcome_without_a_name_is_not_shown() {
    let both = [noul(0.96, Verdict::Yes), noul(0.04, Verdict::No)];
    assert_eq!(terse(&["a".into()], &both, false), "a\tyes\t0.96\n");
    assert_eq!(terse(&[], &both, false), "");
    assert_eq!(terse(&["a".into(), "b".into()], &[], false), "");
}

#[test]
fn a_document_is_written_in_this_order() {
    let mut choice = noul(0.0, Verdict::Unsure);
    choice.kind = "choice".into();
    choice.number = None;
    choice.label = Some("bug".into());
    choice.confidence = Some(double(0.25));
    choice.warning = Some("model_mismatch");
    choice.thresholds.source = Source::Validated;
    let mut score = noul(1.5, Verdict::Yes);
    score.kind = "score".into();
    let usage = Json::parse(r#"{"cost":1e-7}"#).expect("is JSON");
    let doc = document(
        &["n".into(), "c".into(), "s".into()],
        &[noul(0.96, Verdict::Yes), choice, score],
        "openrouter",
        Some("m-1"),
        Some(&usage),
        412,
    );
    assert_eq!(
        doc.to_text(),
        concat_lines(&[
            r#"{"ok":true,"provider":"openrouter","model":"m-1","latency_ms":412,"usage":{"cost":1e-7},"answers":{"#,
            r#""n":{"type":"noul","verdict":"yes","p":0.96,"thresholds":"default"},"#,
            r#""c":{"type":"choice","verdict":"unsure","label":"bug","confidence":0.25,"#,
            r#""warning":"model_mismatch","thresholds":"validated","cuts":{"min_confidence":0.9}},"#,
            r#""s":{"type":"score","verdict":"yes","score":1.5,"thresholds":"default"}}}"#,
        ])
    );
}

fn concat_lines(parts: &[&str]) -> String {
    parts.concat()
}

#[test]
fn a_cut_that_is_no_number_is_written_as_null() {
    let mut o = noul(0.71, Verdict::Yes);
    o.thresholds = Thresholds {
        source: Source::Custom,
        yes: double(f64::NAN),
        no: double(f64::NEG_INFINITY),
        min_confidence: double(0.9),
    };
    let doc = document(&["a".into()], &[o], "openrouter", None, None, 1);
    assert_eq!(
        at(&doc, &["answers", "a", "cuts"]).expect("is there").to_text(),
        r#"{"yes":null,"no":null}"#
    );
}

#[test]
fn a_name_that_comes_twice_keeps_the_last_answer_in_the_first_place() {
    let doc = document(
        &["a".into(), "b".into(), "a".into()],
        &[
            noul(0.96, Verdict::Yes),
            noul(0.5, Verdict::Unsure),
            noul(0.04, Verdict::No),
        ],
        "typesafe",
        None,
        None,
        0,
    );
    let answers = at(&doc, &["answers"]).and_then(Json::as_object).expect("is there");
    assert_eq!(answers.len(), 2);
    assert_eq!(answers.key_at(0), "a");
    assert_eq!(answers.value_at(0).get("verdict"), Some(&text("no")));
}

#[test]
fn a_failure_is_a_document_too() {
    assert_eq!(
        failure("no_key", "say \"please\"").to_text(),
        r#"{"ok":false,"error":{"kind":"no_key","message":"say \"please\""}}"#
    );
}
