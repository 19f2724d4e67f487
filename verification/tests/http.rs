use jevi::http::{received, status_error, transport_error, Exchange, Next, Post};
use jevi::{Error, Json};

const SECOND: u128 = 1_000_000_000;

#[test]
fn an_over_long_state_is_our_fault_not_the_networks() {
    let e = status_error(
        400,
        Some(r#"{"detail":{"error_type":"max_tokens_exceeded"}}"#),
    );
    assert_eq!(e.code(), 5);
    assert_eq!(e.kind(), "state_too_large");
}

#[test]
fn a_refused_key_is_a_no_answer_so_callers_fall_back() {
    assert_eq!(status_error(401, None).code(), 4);
}

#[test]
fn a_server_error_is_retryable_and_a_bad_request_is_not() {
    assert_eq!(status_error(503, None).kind(), "http_5xx");
    assert_eq!(status_error(400, Some("bad shape")).kind(), "bad_request");
}

#[test]
fn every_status_has_its_words() {
    let said = |code: u16, detail: Option<&str>| status_error(code, detail).to_string();
    assert_eq!(
        said(400, Some("  bad shape\n")),
        "invalid input (bad_request: the API rejected the request: bad shape)"
    );
    assert_eq!(
        said(400, None),
        "invalid input (bad_request: the API rejected the request: )"
    );
    assert_eq!(
        said(400, Some("max_tokens_exceeded")),
        "invalid input (state_too_large: the state is over Jev's 32k-token window; send less)"
    );
    assert_eq!(said(401, Some("x")), "no answer (auth: HTTP 401: the key was refused)");
    assert_eq!(said(403, None), "no answer (auth: HTTP 403: the key was refused)");
    assert_eq!(said(429, None), "no answer (http_429: rate limited)");
    assert_eq!(said(500, Some("x")), "no answer (http_5xx: HTTP 500)");
    assert_eq!(said(599, None), "no answer (http_5xx: HTTP 599)");
    assert_eq!(said(404, Some(" gone ")), "no answer (http: HTTP 404: gone)");
    assert_eq!(said(302, None), "no answer (http: HTTP 302: )");
}

#[test]
fn a_failure_of_the_transport_is_told_apart_by_its_words() {
    assert_eq!(transport_error("io: failed to lookup: dns").kind(), "dns");
    assert_eq!(transport_error("could not resolve host").kind(), "dns");
    assert_eq!(transport_error("dns timeout").kind(), "dns");
    assert_eq!(transport_error("timed out reading").kind(), "timeout");
    assert_eq!(transport_error("timeout: global").kind(), "timeout");
    let e = transport_error("Connection refused");
    assert_eq!(e.kind(), "connect");
    assert_eq!(e.to_string(), "no answer (connect: Connection refused)");
    assert_eq!(e.code(), 4);
}

fn response(code: u16, body: &str) -> Exchange {
    Exchange::Response {
        code,
        body: Ok(body.to_string()),
    }
}

#[test]
fn a_successful_response_is_read_as_json() {
    let j = received(&response(200, r#"{"answers":{}}"#)).expect("reads");
    assert_eq!(j, Json::parse(r#"{"answers":{}}"#).expect("is JSON"));
    assert!(received(&response(299, "1")).is_ok());
    let e = received(&response(200, r#"{"answers":"#)).expect_err("cut off");
    assert_eq!(e.kind(), "truncated");
    assert!(e.to_string().starts_with("no answer (truncated: json: EOF while parsing"));
    let e = received(&Exchange::Response {
        code: 200,
        body: Err("the connection went away".into()),
    })
    .expect_err("cut off");
    assert_eq!(e.to_string(), "no answer (truncated: the connection went away)");
}

#[test]
fn the_reason_for_a_refusal_reaches_the_error() {
    let e = received(&response(400, r#"{"detail":{"error_type":"max_tokens_exceeded"}}"#))
        .expect_err("a 400 is not an answer");
    assert_eq!(e.kind(), "state_too_large");
    assert_eq!(e.code(), 5);
    let e = received(&Exchange::Response {
        code: 400,
        body: Err("unreadable".into()),
    })
    .expect_err("a 400 is not an answer");
    assert_eq!(e.kind(), "bad_request");
    assert_eq!(received(&Exchange::Status(503)).expect_err("fails").kind(), "http_5xx");
    assert_eq!(received(&Exchange::Failure("dns".into())).expect_err("fails").kind(), "dns");
    assert_eq!(received(&response(199, "{}")).expect_err("fails").kind(), "http");
    assert_eq!(received(&response(300, "{}")).expect_err("fails").kind(), "http");
}

fn again(next: Next) -> bool {
    match next {
        Next::Again => true,
        Next::Done(_) => false,
    }
}

#[test]
fn one_retry_and_only_while_there_is_time_for_it() {
    let refused = || Err(transport_error("Connection refused"));
    let mut post = Post::new(2000);
    assert!(post.ready(2 * SECOND).is_ok());
    assert!(again(post.settle(refused(), SECOND)));
    assert!(post.ready(SECOND).is_ok());
    assert!(!again(post.settle(refused(), SECOND)));

    let mut post = Post::new(2000);
    assert!(!again(post.settle(refused(), SECOND - 1)));
}

#[test]
fn only_a_failure_that_may_pass_is_tried_again() {
    let tried = |e: Error| again(Post::new(9000).settle(Err(e), 8 * SECOND));
    assert!(tried(transport_error("Connection refused")));
    assert!(tried(status_error(429, None)));
    assert!(tried(status_error(502, None)));
    assert!(tried(Error::no_answer("truncated", "")));
    assert!(!tried(transport_error("dns")));
    assert!(!tried(transport_error("timed out")));
    assert!(!tried(status_error(400, None)));
    assert!(!tried(status_error(401, None)));
    assert!(!tried(status_error(404, None)));
}

#[test]
fn an_answer_ends_the_call() {
    let mut post = Post::new(9000);
    match post.settle(Ok(Json::Bool(true)), 8 * SECOND) {
        Next::Done(Ok(j)) => assert_eq!(j, Json::Bool(true)),
        other => panic!("{other:?}"),
    }
}

#[test]
fn a_call_without_time_left_is_a_timeout() {
    let e = Post::new(1200).ready(0).expect_err("no time");
    assert_eq!(e.to_string(), "no answer (timeout: no reply within 1200ms)");
    assert_eq!(e.code(), 4);
    assert!(Post::new(1200).ready(1).is_ok());
}
