use jevi::json::Object;
use jevi::provider::read;
use jevi::{Json, Provider};

fn json(raw: &str) -> Json {
    Json::parse(raw).expect("is JSON")
}

#[test]
fn a_normal_response_is_read() {
    let body = json(
        r#"{
            "model": "typesafe/jev-1.13-20260917",
            "answers": {"q": {"type": "noul", "noul": 0.94}},
            "usage": {"input_tokens": 409, "cost": 1.7e-5}
        }"#,
    );
    let r = read(&body).expect("reads");
    assert_eq!(r.model.as_deref(), Some("typesafe/jev-1.13-20260917"));
    assert!(r.answers.contains_key("q"));
}

#[test]
fn a_body_with_no_answers_is_a_no_answer_not_a_panic() {
    let err = read(&json(r#"{"error": {"message": "nope"}}"#)).expect_err("fails");
    assert_eq!(err.code(), 4);
}

#[test]
fn usage_is_passed_through_untouched() {
    let body = json(r#"{"answers":{},"usage":{"input_tokens":409,"cost":0.25,"deep":[[1],{"a":null}]}}"#);
    let r = read(&body).expect("reads");
    assert_eq!(
        r.usage.expect("is there").to_text(),
        r#"{"input_tokens":409,"cost":0.25,"deep":[[1],{"a":null}]}"#
    );
    assert!(r.model.is_none());
}

#[test]
fn a_body_without_answers_says_what_it_has() {
    let said = |raw: &str| read(&json(raw)).expect_err("fails").to_string();
    assert_eq!(
        said(r#"{"error": {"message": "nope"}}"#),
        r#"no answer (bad_response: no `answers` in the response {"message":"nope"})"#
    );
    assert_eq!(said("[]"), "no answer (bad_response: no `answers` in the response )");
    assert_eq!(said(r#"{"answers":[]}"#), "no answer (bad_response: no `answers` in the response )");
}

#[test]
fn a_body_holds_model_state_and_questions() {
    let questions = Object::new().with("q", json(r#"{"type":"noul"}"#));
    let body = Provider::OpenRouter.body("m", &json(r#"{"b":1,"a":2.50}"#), &questions);
    assert_eq!(
        body.to_text(),
        r#"{"model":"m","state":{"b":1,"a":2.5},"questions":{"q":{"type":"noul"}}}"#
    );
}

#[test]
fn providers_are_known_by_name() {
    assert_eq!(Provider::parse("openrouter").expect("known"), Provider::OpenRouter);
    assert_eq!(Provider::parse("typesafe").expect("known"), Provider::TypeSafe);
    let e = Provider::parse("OpenRouter").expect_err("unknown");
    assert_eq!(
        e.to_string(),
        "invalid input (flags: unknown provider `OpenRouter` (openrouter, typesafe))"
    );
    assert_eq!(Provider::OpenRouter.name(), "openrouter");
    assert_eq!(Provider::TypeSafe.name(), "typesafe");
    assert_eq!(Provider::OpenRouter.env_key(), "OPENROUTER_API_KEY");
    assert_eq!(Provider::TypeSafe.env_key(), "TYPESAFE_API_KEY");
    assert_eq!(
        Provider::OpenRouter.default_url(),
        "https://openrouter.ai/api/alpha/decisions"
    );
    assert_eq!(Provider::TypeSafe.default_url(), "https://api.typesafe.ai/v1/systemone");
    assert_eq!(Provider::OpenRouter.default_model(), "typesafe/jev-1.13");
    assert_eq!(Provider::TypeSafe.default_model(), "jev-latest");
}
