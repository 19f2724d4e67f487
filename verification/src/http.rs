//! One request, one retry, one deadline. Nothing here knows what a question is.
//!
//! The classification matters more than it looks: a caller that falls back to its old
//! behaviour needs to know whether it failed to *get* an answer (retryable, transient) or
//! sent something that was never going to work (it will fail again, identically).

use vstd::prelude::*;

use crate::codec::{json_reading, sound, DEEPEST};
use crate::error::{invalid, no_answer, says, Error, ErrorView};
use crate::json::{Json, JsonView};
use crate::questions::opt_str;
use crate::text;
use crate::text::{decimal_of, occurs, trimmed};

verus! {

/// What a status that is no success means. `detail` is the body when there was one.
pub open spec fn status_failure(code: u16, detail: Option<Seq<char>>) -> ErrorView {
    let detail = match detail {
        Some(d) => trimmed(d),
        None => trimmed(""@),
    };
    if code == 400 && occurs(detail, "max_tokens_exceeded"@) {
        invalid("state_too_large"@, "the state is over Jev's 32k-token window; send less"@)
    } else if code == 400 {
        invalid("bad_request"@, "the API rejected the request: "@ + detail)
    } else if code == 401 || code == 403 {
        no_answer("auth"@, "HTTP "@ + decimal_of(code as nat) + ": the key was refused"@)
    } else if code == 429 {
        no_answer("http_429"@, "rate limited"@)
    } else if code >= 500 {
        no_answer("http_5xx"@, "HTTP "@ + decimal_of(code as nat))
    } else {
        no_answer("http"@, "HTTP "@ + decimal_of(code as nat) + ": "@ + detail)
    }
}

/// Reads a response we could not use. `detail` is the body when we managed to read one.
pub fn status_error(code: u16, detail: Option<&str>) -> (r: Error)
    ensures
        r@ == status_failure(code, opt_str(detail)),
{
    let detail = match detail {
        Some(d) => text::trim(d),
        None => text::trim(""),
    };
    let number = text::decimal(code as u64);
    if code == 400 && text::contains(detail, "max_tokens_exceeded") {
        Error::invalid("state_too_large", "the state is over Jev's 32k-token window; send less")
    } else if code == 400 {
        Error::invalid("bad_request", text::cat("the API rejected the request: ", detail).as_str())
    } else if code == 401 || code == 403 {
        Error::no_answer("auth", text::cat3("HTTP ", number.as_str(), ": the key was refused").as_str())
    } else if code == 429 {
        Error::no_answer("http_429", "rate limited")
    } else if code >= 500 {
        Error::no_answer("http_5xx", text::cat("HTTP ", number.as_str()).as_str())
    } else {
        Error::no_answer("http", text::cat4("HTTP ", number.as_str(), ": ", detail).as_str())
    }
}

/// What a request that got no response at all means, by what the transport says of it.
pub open spec fn transport_failure(message: Seq<char>) -> ErrorView {
    let kind = if occurs(message, "dns"@) || occurs(message, "resolve"@) {
        "dns"@
    } else if occurs(message, "timed out"@) || occurs(message, "timeout"@) {
        "timeout"@
    } else {
        "connect"@
    };
    no_answer(kind, message)
}

/// Reads the transport's own words on a request that got no response.
///
/// A name that does not resolve is the network being down. Retrying that inside a 2s hook
/// budget only delays the fallback.
pub fn transport_error(message: &str) -> (r: Error)
    ensures
        r@ == transport_failure(message@),
{
    let kind = if text::contains(message, "dns") || text::contains(message, "resolve") {
        "dns"
    } else if text::contains(message, "timed out") || text::contains(message, "timeout") {
        "timeout"
    } else {
        "connect"
    };
    Error::no_answer(kind, message)
}

/// What one request came to.
#[derive(Debug)]
pub enum Exchange {
    /// A response with its status, and its body or what went wrong while reading it.
    Response { code: u16, body: Result<String, String> },
    /// A status that is no success, without a body.
    Status(u16),
    /// No response, and what the transport says of it.
    Failure(String),
}

/// What an [`Exchange`] says.
pub enum ExchangeView {
    Response { code: u16, body: Result<Seq<char>, Seq<char>> },
    Status(u16),
    Failure(Seq<char>),
}

/// The text that was read, or what went wrong.
pub open spec fn read_view(r: Result<String, String>) -> Result<Seq<char>, Seq<char>> {
    match r {
        Ok(t) => Ok(t@),
        Err(m) => Err(m@),
    }
}

impl View for Exchange {
    type V = ExchangeView;

    open spec fn view(&self) -> ExchangeView {
        match self {
            Exchange::Response { code, body } => ExchangeView::Response { code: *code, body: read_view(*body) },
            Exchange::Status(code) => ExchangeView::Status(*code),
            Exchange::Failure(m) => ExchangeView::Failure(m@),
        }
    }
}

/// The status of a response says that it carries what was asked for.
pub open spec fn is_success(code: u16) -> bool {
    200 <= code < 300
}

/// What the body of a successful response is, given what its text reads as.
pub open spec fn body_of(reading: Result<JsonView, Seq<char>>) -> Result<JsonView, ErrorView> {
    match reading {
        Ok(j) => Ok(j),
        Err(m) => Err(no_answer("truncated"@, "json: "@ + m)),
    }
}

/// What one request brought: the JSON of a successful response, else why there is none.
pub open spec fn brought(e: ExchangeView) -> Result<JsonView, ErrorView> {
    match e {
        ExchangeView::Response { code, body } => if is_success(code) {
            match body {
                Ok(t) => body_of(json_reading(t)),
                Err(m) => Err(no_answer("truncated"@, m)),
            }
        } else {
            let detail = match body {
                Ok(t) => t,
                Err(_) => ""@,
            };
            Err(status_failure(code, Some(detail)))
        },
        ExchangeView::Status(code) => Err(status_failure(code, None)),
        ExchangeView::Failure(m) => Err(transport_failure(m)),
    }
}

/// The body of a successful response, given what its text reads as.
pub fn body_read(reading: Result<Json, String>) -> (r: Result<Json, Error>)
    ensures
        says(
            r,
            body_of(
                match reading {
                    Ok(j) => Ok(j@),
                    Err(m) => Err(m@),
                },
            ),
        ),
{
    match reading {
        Ok(j) => Ok(j),
        Err(m) => Err(Error::no_answer("truncated", text::cat("json: ", m.as_str()).as_str())),
    }
}

/// Reads what one request came to. A body that comes back was read from a text, and is
/// written as itself.
pub fn received(e: &Exchange) -> (r: Result<Json, Error>)
    ensures
        says(r, brought(e@)),
        r matches Ok(j) ==> sound(j@, DEEPEST as nat),
{
    match e {
        Exchange::Response { code, body } => if 200 <= *code && *code < 300 {
            match body {
                Ok(t) => body_read(Json::parse(t.as_str())),
                Err(m) => Err(Error::no_answer("truncated", m.as_str())),
            }
        } else {
            match body {
                Ok(t) => Err(status_error(*code, Some(t.as_str()))),
                Err(_) => Err(status_error(*code, Some(""))),
            }
        },
        Exchange::Status(code) => Err(status_error(*code, None)),
        Exchange::Failure(m) => Err(transport_error(m.as_str())),
    }
}

/// The least time, in nanoseconds, that is worth a second request.
pub const RETRY_FROM: u128 = 1_000_000_000;

/// A failure that the same request may not meet again.
pub open spec fn transient(kind: Seq<char>) -> bool {
    kind == "connect"@ || kind == "http_429"@ || kind == "http_5xx"@ || kind == "truncated"@
}

fn is_transient(kind: &str) -> (r: bool)
    ensures
        r == transient(kind@),
{
    text::same(kind, "connect") || text::same(kind, "http_429") || text::same(kind, "http_5xx")
        || text::same(kind, "truncated")
}

/// A request is sent once more: it was the first, its failure was transient, and there is
/// real time left to use.
pub open spec fn goes_again(retried: bool, came: Result<JsonView, ErrorView>, left: u128) -> bool {
    match came {
        Ok(_) => false,
        Err(e) => !retried && transient(e.kind()) && left >= RETRY_FROM,
    }
}

/// One call as it goes on: its deadline, and whether it has been tried twice.
#[derive(Debug)]
pub struct Post {
    pub timeout_ms: u64,
    pub retried: bool,
}

/// A call after one of its requests: it has been tried twice once a request goes again.
pub open spec fn post_after(post: Post, came: Result<JsonView, ErrorView>, left: u128) -> Post {
    if goes_again(post.retried, came, left) {
        Post { retried: true, ..post }
    } else {
        post
    }
}

/// What to do after a request.
#[derive(Debug)]
pub enum Next {
    /// Look at the clock and send once more.
    Again,
    /// The call is over.
    Done(Result<Json, Error>),
}

/// The failure of a call that ran out of time.
pub open spec fn out_of_time(timeout_ms: u64) -> ErrorView {
    no_answer("timeout"@, "no reply within "@ + decimal_of(timeout_ms as nat) + "ms"@)
}

impl Post {
    /// A call that has not sent anything yet.
    pub fn new(timeout_ms: u64) -> (r: Post)
        ensures
            r == (Post { timeout_ms, retried: false }),
    {
        Post { timeout_ms, retried: false }
    }

    /// Whether a request can be sent with `left` nanoseconds to the deadline.
    pub fn ready(&self, left: u128) -> (r: Result<(), Error>)
        ensures
            match r {
                Ok(_) => left > 0,
                Err(e) => left == 0 && e@ == out_of_time(self.timeout_ms),
            },
    {
        if left == 0 {
            Err(
                Error::no_answer(
                    "timeout",
                    text::cat3("no reply within ", text::decimal(self.timeout_ms).as_str(), "ms").as_str(),
                ),
            )
        } else {
            Ok(())
        }
    }

    /// What follows from what a request brought, with `left` nanoseconds to the deadline.
    ///
    /// One retry, and only while there is real time left to use it. Retrying into a 200ms
    /// remainder just spends the budget twice.
    pub fn settle(&mut self, came: Result<Json, Error>, left: u128) -> (r: Next)
        ensures
            final(self).timeout_ms == old(self).timeout_ms,
            *final(self) == post_after(
                *old(self),
                match came {
                    Ok(j) => Ok(j@),
                    Err(e) => Err(e@),
                },
                left,
            ),
            match r {
                Next::Again => came matches Err(e) && goes_again(old(self).retried, Err(e@), left)
                    && final(self).retried,
                Next::Done(done) => done == came && final(self).retried == old(self).retried && match came {
                    Ok(_) => true,
                    Err(e) => !goes_again(old(self).retried, Err(e@), left),
                },
            },
    {
        match came {
            Ok(v) => Next::Done(Ok(v)),
            Err(e) => {
                if !self.retried && is_transient(e.kind()) && left >= RETRY_FROM {
                    self.retried = true;
                    Next::Again
                } else {
                    Next::Done(Err(e))
                }
            },
        }
    }
}

/// One turn of a call: the time left before the request, what the request brought, and the
/// time left after it.
pub struct Round {
    pub before: u128,
    pub came: Result<JsonView, ErrorView>,
    pub after: u128,
}

/// How many requests a call sends, given how each turn would go.
pub open spec fn requests(rounds: Seq<Round>, retried: bool) -> nat
    decreases rounds.len(),
{
    if rounds.len() == 0 || rounds[0].before == 0 {
        0
    } else if goes_again(retried, rounds[0].came, rounds[0].after) {
        1 + requests(rounds.drop_first(), true)
    } else {
        1
    }
}

/// What a call comes to, given how each turn would go; nothing while it is not over.
pub open spec fn call_of(timeout_ms: u64, rounds: Seq<Round>, retried: bool) -> Option<Result<JsonView, ErrorView>>
    decreases rounds.len(),
{
    if rounds.len() == 0 {
        None
    } else if rounds[0].before == 0 {
        Some(Err(out_of_time(timeout_ms)))
    } else if goes_again(retried, rounds[0].came, rounds[0].after) {
        call_of(timeout_ms, rounds.drop_first(), true)
    } else {
        Some(rounds[0].came)
    }
}

/// One retry at most: however the turns go, a call sends no more than two requests and is
/// over after two turns.
pub proof fn lemma_one_retry(timeout_ms: u64, rounds: Seq<Round>)
    ensures
        requests(rounds, false) <= 2,
        rounds.len() >= 2 ==> call_of(timeout_ms, rounds, false) is Some,
{
    reveal_with_fuel(requests, 3);
    reveal_with_fuel(call_of, 3);
}

/// A request that was wrong in itself is not sent again: its failure is what the call comes
/// to, whatever time is left.
pub proof fn lemma_refusals_are_final(timeout_ms: u64, rounds: Seq<Round>, code: u16, detail: Option<Seq<char>>)
    requires
        rounds.len() > 0,
        rounds[0].before > 0,
        code == 400 || code == 401 || code == 403,
        rounds[0].came == Err::<JsonView, ErrorView>(status_failure(code, detail)),
    ensures
        requests(rounds, false) == 1,
        call_of(timeout_ms, rounds, false) == Some(rounds[0].came),
{
    reveal_strlit("state_too_large");
    reveal_strlit("bad_request");
    reveal_strlit("auth");
    reveal_strlit("connect");
    reveal_strlit("http_429");
    reveal_strlit("http_5xx");
    reveal_strlit("truncated");
    assert("state_too_large"@.len() == 15 && "bad_request"@.len() == 11 && "auth"@.len() == 4 && "connect"@.len() == 7
        && "http_429"@.len() == 8 && "http_5xx"@.len() == 8 && "truncated"@.len() == 9);
    assert(!goes_again(false, rounds[0].came, rounds[0].after));
}

/// A refused request is the caller's fault exactly if the status is 400; every other status
/// is a missing answer, which a caller falls back from.
pub proof fn lemma_whose_fault(code: u16, detail: Option<Seq<char>>)
    ensures
        status_failure(code, detail).code() == (if code == 400 {
            5i32
        } else {
            4i32
        }),
{
}

}
