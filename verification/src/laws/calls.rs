//! What is sent, and what is made of what comes back.

use vstd::prelude::*;

use crate::cli::AskView;
use crate::codec::{json_reading, json_text, settled};
use crate::command::{
    call_of, live_line, no_options, plan_notes, plan_of, questions_of, raw_state_of, state_at_of, CallView, PlanView, StateAtView,
    StateFoundView,
};
use crate::config::{config_of, file_reading, resolved, ConfigView, EnvView, SetFilesView};
use crate::decide::{outcome_under, ProvenanceView};
use crate::error::{says, Error, ErrorView};
use crate::http::{
    body_of, brought, goes_again, out_of_time, post_after, status_failure, transport_failure, ExchangeView, Post,
};
use crate::json::{field, lookup, JsonView};
use crate::laws::judging::begins_with;
use crate::notes::{is_on, noted, NotesView};
use crate::provider::{lemma_body_reads_back, reading, Provider};
use crate::questions::{advised, one_off_advice, shorthand_of, PreparedView};
use crate::session::{asked_of, request_of, AnsweredView, AskOptionsView};
use crate::sets::{advice_of, prepared_of, set_reading};
use crate::state::{json_state_of, length_of, state_of, text_state_of, BuiltView};
use crate::text::{decimal_of, is_white, lemma_blank, listed, occurs, trimmed};

verus! {

/// What was answered for a question: the value under its name, or null.
pub open spec fn answer_to(answers: Seq<(Seq<char>, JsonView)>, name: Seq<char>) -> JsonView {
    if lookup(answers, name) is Some {
        lookup(answers, name)->0
    } else {
        JsonView::Null
    }
}

/// A reply with answers is judged question by question: what stands in it under the name of a
/// question, by the cuts of that question, with the model that the reply names and the length
/// that was given, or that the state has where none was. The model, the cost and the time go
/// with it as they came.
pub proof fn lemma_each_answer_meets_its_cuts(
    cfg: ConfigView,
    prepared: PreparedView,
    state: JsonView,
    opts: AskOptionsView,
    body: JsonView,
    latency_ms: u128,
    answers: Seq<(Seq<char>, JsonView)>,
    i: int,
)
    requires
        request_of(cfg, prepared, state, opts, false) is Ok,
        field(body, "answers"@) == Some(JsonView::Object(answers)),
        prepared.names.len() == prepared.decide.len(),
        0 <= i < prepared.names.len(),
    ensures
        asked_of(cfg, prepared, state, opts, Ok(body), latency_ms) matches Ok(a) && {
            let model = match field(body, "model"@) {
                Some(JsonView::Text(m)) => Some(m),
                _ => None,
            };
            let chars = match opts.state_chars {
                Some(n) => n,
                None => length_of(state) as usize,
            };
            &&& a.names == prepared.names
            &&& a.outcomes.len() == prepared.names.len()
            &&& a.outcomes[i] == outcome_under(
                prepared.model,
                answer_to(answers, prepared.names[i]),
                prepared.decide[i],
                ProvenanceView { model_used: model, state_chars: chars },
            )
            &&& a.model == model
            &&& a.usage == field(body, "usage"@)
            &&& a.latency_ms == latency_ms
            &&& request_of(cfg, prepared, state, opts, false) matches Ok(r)
            &&& a.provider == r.provider
        },
{
}

/// A call comes to nothing for the first reason there is: the request could not be made, it
/// brought nothing, or what it brought has no answers.
pub proof fn lemma_why_there_is_no_answer(
    cfg: ConfigView,
    prepared: PreparedView,
    state: JsonView,
    opts: AskOptionsView,
    came: Result<JsonView, ErrorView>,
    latency_ms: u128,
)
    ensures
        request_of(cfg, prepared, state, opts, false) matches Err(e) ==> (asked_of(
            cfg,
            prepared,
            state,
            opts,
            came,
            latency_ms,
        ) matches Err(f) && f == e),
        request_of(cfg, prepared, state, opts, false) is Ok ==> (came matches Err(e) ==> (asked_of(
            cfg,
            prepared,
            state,
            opts,
            came,
            latency_ms,
        ) matches Err(f) && f == e)),
        request_of(cfg, prepared, state, opts, false) is Ok ==> (came matches Ok(body) ==> (!(field(body, "answers"@)
            matches Some(JsonView::Object(_))) ==> (asked_of(cfg, prepared, state, opts, came, latency_ms) matches Err(
            ErrorView::NoAnswer { kind, message },
        ) && kind == "bad_response"@ && begins_with(message, "no `answers` in the response "@)))),
{
    if let Ok(body) = came {
        if !(field(body, "answers"@) matches Some(JsonView::Object(_))) {
            if let Err(f) = reading(body) {
                let message = f->NoAnswer_message;
                let head = "no `answers` in the response "@;
                assert forall|i: int| 0 <= i < head.len() implies #[trigger] message[i] == head[i] by {
                    assert(message.take(head.len() as int) =~= head);
                    assert(message.take(head.len() as int)[i] == message[i]);
                }
            }
        }
    }
}

/// A request goes to the provider that the settings name, with that provider's key and address
/// and the time that is allowed. It holds the questions and the state as they are, and asks for
/// the model that the set pins, or else for the one that the settings name.
pub proof fn lemma_what_is_sent(
    cfg: ConfigView,
    prepared: PreparedView,
    state: JsonView,
    opts: AskOptionsView,
    raw: bool,
)
    ensures
        match request_of(cfg, prepared, state, opts, raw) {
            Ok(r) => {
                &&& cfg.provider(opts.provider) == Ok::<Provider, ErrorView>(r.provider)
                &&& cfg.key(r.provider) == Some(r.key)
                &&& r.url == cfg.url(r.provider)
                &&& r.timeout_ms == cfg.timeout_ms(opts.timeout_ms)
                &&& field(r.body, "state"@) == Some(state)
                &&& field(r.body, "questions"@) == Some(JsonView::Object(prepared.wire))
                &&& field(r.body, "model"@) == Some(
                    JsonView::Text(
                        if prepared.model is Some {
                            prepared.model->0
                        } else {
                            cfg.model(r.provider, opts.model)
                        },
                    ),
                )
                &&& r.body matches JsonView::Object(m) && m.len() == 3
            },
            Err(e) => match cfg.provider(opts.provider) {
                Err(f) => e == f,
                Ok(p) => cfg.key(p) is None && (e matches ErrorView::NoAnswer { kind, message } && kind == "no_key"@
                    && begins_with(message, "no credential for "@ + p.spec_name())),
            },
        },
{
    match request_of(cfg, prepared, state, opts, raw) {
        Ok(r) => {
            let model = if prepared.model is Some {
                prepared.model->0
            } else {
                cfg.model(r.provider, opts.model)
            };
            lemma_body_reads_back(model, state, prepared.wire);
        },
        Err(e) => {
            if let Ok(p) = cfg.provider(opts.provider) {
                let message = e->NoAnswer_message;
                let head = "no credential for "@ + p.spec_name();
                assert forall|i: int| 0 <= i < head.len() implies #[trigger] message[i] == head[i] by {
                    assert(message.take(head.len() as int) =~= head);
                    assert(message.take(head.len() as int)[i] == message[i]);
                }
            }
        },
    }
}

/// A text is sent whole where there is no cap or it is not longer than the cap. A longer one is
/// cut to exactly as many characters as the cap allows, its first ones, and what is sent says
/// behind them how many are missing.
pub proof fn lemma_exactly_the_cap_is_kept(raw: Seq<char>, cap: usize)
    ensures
        cap == 0 || raw.len() <= cap ==> {
            let b = text_state_of(raw, cap);
            b.state == JsonView::Text(raw) && b.chars == raw.len() && b.dropped == 0
        },
        0 < cap < raw.len() ==> {
            let b = text_state_of(raw, cap);
            &&& b.chars == cap
            &&& b.dropped == raw.len() - cap
            &&& b.state matches JsonView::Text(sent)
            &&& begins_with(
                sent,
                raw.subrange(0, cap as int) + "\n\n[jevi: "@ + decimal_of((raw.len() - cap) as nat) + " characters"@,
            )
        },
{
    if 0 < cap < raw.len() {
        let head = raw.subrange(0, cap as int) + "\n\n[jevi: "@ + decimal_of((raw.len() - cap) as nat)
            + " characters"@;
        let sent = text_state_of(raw, cap).state->Text_0;
        reveal_strlit(" characters");
        reveal_strlit(" characters truncated]");
        assert(" characters truncated]"@.take(11) =~= " characters"@);
        assert(sent.take(head.len() as int) =~= head);
        assert forall|i: int| 0 <= i < head.len() implies #[trigger] sent[i] == head[i] by {
            assert(sent.take(head.len() as int)[i] == sent[i]);
        }
    }
}

/// Which texts become a state: any that is not blank, and where it is meant as JSON, only one
/// that is. As JSON it is what it reads as, and as long as its text.
pub proof fn lemma_which_texts_become_a_state(raw: Seq<char>, as_json: bool, cap: usize)
    ensures
        ({
            let blank = forall|i: int| 0 <= i < raw.len() ==> is_white(#[trigger] raw[i]);
            &&& blank ==> state_of(raw, as_json, cap) is Err
            &&& !blank && !as_json ==> (state_of(raw, as_json, cap) matches Ok(b) && b == text_state_of(raw, cap))
            &&& !blank && as_json ==> match json_reading(raw) {
                Ok(j) => state_of(raw, as_json, cap) matches Ok(b) && b.state == j && b.chars == raw.len() && b.dropped
                    == 0,
                Err(_) => state_of(raw, as_json, cap) is Err,
            }
            &&& state_of(raw, as_json, cap) matches Err(e) ==> (e matches ErrorView::Invalid { kind, .. } && kind
                == "state"@)
        }),
{
    lemma_blank(raw);
}

/// A state is as long as its text, or as the JSON text that is sent of it.
pub proof fn lemma_how_long_a_state_is(s: Seq<char>, j: JsonView)
    requires
        !(j is Text),
    ensures
        length_of(JsonView::Text(s)) == s.len(),
        length_of(j) == json_text(settled(j)).len(),
{
}

/// A status that is no success is sorted by its number alone, but for a request that was too
/// large: 400 is the caller's fault, and everything else means that there is no answer.
pub proof fn lemma_what_a_status_means(code: u16, detail: Option<Seq<char>>)
    ensures
        ({
            let e = status_failure(code, detail);
            let said = match detail {
                Some(d) => trimmed(d),
                None => trimmed(""@),
            };
            &&& e is Invalid <==> code == 400
            &&& code == 400 ==> e.kind() == (if occurs(said, "max_tokens_exceeded"@) {
                "state_too_large"@
            } else {
                "bad_request"@
            })
            &&& code == 401 || code == 403 ==> e.kind() == "auth"@
            &&& code == 429 ==> e.kind() == "http_429"@
            &&& code >= 500 ==> e.kind() == "http_5xx"@
            &&& code < 500 && code != 400 && code != 401 && code != 403 && code != 429 ==> e.kind() == "http"@
        }),
{
}

/// What a status is reported with: the number that came, and what the service said with it.
pub proof fn lemma_what_is_said_of_a_status(code: u16, detail: Seq<char>)
    ensures
        ({
            let message = match status_failure(code, Some(detail)) {
                ErrorView::NoAnswer { message, .. } => message,
                ErrorView::Invalid { message, .. } => message,
            };
            let too_large = occurs(trimmed(detail), "max_tokens_exceeded"@);
            &&& code == 400 && !too_large ==> message == "the API rejected the request: "@ + trimmed(detail)
            &&& code >= 500 ==> message == "HTTP "@ + decimal_of(code as nat)
            &&& code == 401 || code == 403 ==> begins_with(message, "HTTP "@ + decimal_of(code as nat))
            &&& code < 500 && code != 400 && code != 401 && code != 403 && code != 429 ==> message == "HTTP "@
                + decimal_of(code as nat) + ": "@ + trimmed(detail)
        }),
{
    if code == 401 || code == 403 {
        let head = "HTTP "@ + decimal_of(code as nat);
        let message = status_failure(code, Some(detail))->NoAnswer_message;
        assert forall|i: int| 0 <= i < head.len() implies #[trigger] message[i] == head[i] by {
            assert(message.take(head.len() as int) =~= head);
            assert(message.take(head.len() as int)[i] == message[i]);
        }
    }
}

/// A request without a response means that there is no answer, in the transport's own words:
/// a name that did not resolve, time that ran out, or no connection.
pub proof fn lemma_what_a_silence_means(message: Seq<char>)
    ensures
        ({
            let e = transport_failure(message);
            let unresolved = occurs(message, "dns"@) || occurs(message, "resolve"@);
            let late = occurs(message, "timed out"@) || occurs(message, "timeout"@);
            &&& e matches ErrorView::NoAnswer { message: said, .. } && said == message
            &&& unresolved ==> e.kind() == "dns"@
            &&& !unresolved && late ==> e.kind() == "timeout"@
            &&& !unresolved && !late ==> e.kind() == "connect"@
        }),
{
}

/// What a request brought: the JSON of a response whose status is from 200 to 299, and nothing
/// otherwise. A body of such a response that is cut short or no JSON counts as truncated.
pub proof fn lemma_what_a_request_brought(code: u16, body: Result<Seq<char>, Seq<char>>, words: Seq<char>)
    ensures
        brought(ExchangeView::Status(code)) == Err::<JsonView, ErrorView>(status_failure(code, None)),
        brought(ExchangeView::Failure(words)) == Err::<JsonView, ErrorView>(transport_failure(words)),
        200 <= code <= 299 ==> match body {
            Ok(t) => match json_reading(t) {
                Ok(j) => brought(ExchangeView::Response { code, body }) == Ok::<JsonView, ErrorView>(j),
                Err(m) => brought(ExchangeView::Response { code, body }) matches Err(ErrorView::NoAnswer {
                    kind,
                    message,
                }) && kind == "truncated"@ && message == "json: "@ + m,
            },
            Err(m) => brought(ExchangeView::Response { code, body }) matches Err(ErrorView::NoAnswer { kind, message })
                && kind == "truncated"@ && message == m,
        },
        !(200 <= code <= 299) ==> brought(ExchangeView::Response { code, body }) == Err::<JsonView, ErrorView>(
            status_failure(
                code,
                Some(
                    match body {
                        Ok(t) => t,
                        Err(_) => ""@,
                    },
                ),
            ),
        ),
{
}

/// A request is sent a second time exactly if it was the first, it failed in a way that may pass
/// and at least a second is left.
pub proof fn lemma_when_a_request_is_sent_again(retried: bool, came: Result<JsonView, ErrorView>, left: u128)
    ensures
        goes_again(retried, came, left) <==> {
            &&& !retried
            &&& left >= 1_000_000_000
            &&& came matches Err(e)
            &&& e.kind() == "connect"@ || e.kind() == "http_429"@ || e.kind() == "http_5xx"@ || e.kind()
                == "truncated"@
        },
{
}

/// The kind of a failure is the kind that it was made with, and its class decides its code.
pub proof fn lemma_kinds_and_codes(kind: Seq<char>, message: Seq<char>)
    ensures
        (ErrorView::NoAnswer { kind, message }).kind() == kind,
        (ErrorView::Invalid { kind, message }).kind() == kind,
        (ErrorView::NoAnswer { kind, message }).code() == 4,
        (ErrorView::Invalid { kind, message }).code() == 5,
        (ErrorView::NoAnswer { kind, message }).text() == "no answer ("@ + kind + ": "@ + message + ")"@,
        (ErrorView::Invalid { kind, message }).text() == "invalid input ("@ + kind + ": "@ + message + ")"@,
{
}

/// A switch is on exactly if it is set to something that is neither empty nor a zero.
pub proof fn lemma_when_a_switch_is_on(v: Seq<char>)
    ensures
        is_on(Some(v)) <==> v.len() > 0 && !(v.len() == 1 && v[0] == '0'),
        !is_on(None),
{
    reveal_strlit("");
    reveal_strlit("0");
    if v.len() == 0 {
        assert(v =~= ""@);
    }
    if v.len() == 1 && v[0] == '0' {
        assert(v =~= "0"@);
    }
}

/// Advice is added to what was said, marked as coming from here, exactly if nothing asks for
/// silence; it never takes anything back.
pub proof fn lemma_when_advice_is_heard(n: NotesView, message: Seq<char>)
    ensures
        n.quiet || n.silenced ==> noted(n, message) == n,
        !n.quiet && !n.silenced ==> noted(n, message).said == n.said.push("jevi: "@ + message),
        noted(n, message).quiet == n.quiet && noted(n, message).silenced == n.silenced,
{
}

/// A command line asks either the questions of a set or one of its own, never both and never
/// none. A set is found, read and prepared; a question of its own goes by its own flags.
pub proof fn lemma_which_questions_are_asked(a: AskView, env: EnvView, found: SetFilesView)
    ensures
        match (a.set, a.instructions) {
            (Some(name), None) => match resolved(env, name, found) {
                Ok(set) => match set_reading(set.0, set.1) {
                    Ok(s) => questions_of(a, env, found) == prepared_of(s),
                    Err(e) => questions_of(a, env, found) == Err::<PreparedView, ErrorView>(e),
                },
                Err(e) => questions_of(a, env, found) == Err::<PreparedView, ErrorView>(e),
            },
            (None, Some(words)) => questions_of(a, env, found) == shorthand_of(
                words,
                a.options,
                a.levels,
                a.yes_at,
                a.no_at,
                a.min_confidence,
            ),
            _ => questions_of(a, env, found) matches Err(ErrorView::Invalid { kind, .. }) && kind == "flags"@,
        },
{
}

/// A plan has the settings of the environment and the file, and the questions that the command
/// line asks; its one question is shown without its name exactly if it was typed there.
pub proof fn lemma_what_is_planned(a: AskView, env: EnvView, file: Option<Seq<char>>, found: SetFilesView)
    ensures
        is_on(env.jevi_disable) ==> (plan_of(a, env, file, found) matches Err(ErrorView::NoAnswer { kind, .. }) && kind
            == "disabled"@),
        !is_on(env.jevi_disable) ==> match (config_of(env, file_reading(file)), questions_of(a, env, found)) {
            (Err(e), _) => plan_of(a, env, file, found) == Err::<PlanView, ErrorView>(e),
            (Ok(_), Err(e)) => plan_of(a, env, file, found) == Err::<PlanView, ErrorView>(e),
            (Ok(cfg), Ok(prepared)) => plan_of(a, env, file, found) matches Ok(p) && p.cfg == cfg && p.prepared
                == prepared && (p.single <==> prepared.names.len() == 1 && a.set is None),
        },
{
}

/// The text to judge is the one on the command line, else the one in the file it names, else
/// what comes in on stdin.
pub proof fn lemma_where_the_text_is(a: AskView)
    ensures
        a.state_text matches Some(t) ==> state_at_of(a) == StateAtView::Given(t),
        a.state_text is None ==> (a.state matches Some(path) ==> state_at_of(a) == StateAtView::File(path)),
        a.state_text is None && a.state is None ==> state_at_of(a) == StateAtView::Stdin,
{
}

/// Whatever text was found is the text to judge; where none could be read, or nobody piped one
/// in, the input was wrong.
pub proof fn lemma_which_text_is_judged(t: Seq<char>, path: Seq<char>, m: Seq<char>)
    ensures
        raw_state_of(StateFoundView::Given(t)) == Ok::<Seq<char>, ErrorView>(t),
        raw_state_of(StateFoundView::File { path, read: Ok(t) }) == Ok::<Seq<char>, ErrorView>(t),
        raw_state_of(StateFoundView::Piped(Ok(t))) == Ok::<Seq<char>, ErrorView>(t),
        raw_state_of(StateFoundView::Terminal) matches Err(ErrorView::Invalid { kind, .. }) && kind == "state"@,
        raw_state_of(StateFoundView::File { path, read: Err(m) }) == Err::<Seq<char>, ErrorView>(
            ErrorView::Invalid { kind: "state"@, message: path + ": "@ + m },
        ),
        raw_state_of(StateFoundView::Piped(Err(m))) == Err::<Seq<char>, ErrorView>(
            ErrorView::Invalid { kind: "state"@, message: m },
        ),
{
}

/// The number of characters that a text may have: the one on the command line, else the one of
/// the question set, else 80000.
pub open spec fn allowed(flag: Option<usize>, set: Option<usize>) -> usize {
    if flag is Some {
        flag->0
    } else if set is Some {
        set->0
    } else {
        80000
    }
}

/// A call carries the state that the text makes under the cap that applies, and what the command
/// line overrides; the length that counts is the length of what was kept.
pub proof fn lemma_what_a_call_carries(a: AskView, plan: PlanView, raw: Seq<char>)
    ensures
        match state_of(raw, a.state_json, allowed(a.max_chars, plan.prepared.max_chars)) {
            Err(e) => call_of(a, plan, raw) == Err::<CallView, ErrorView>(e),
            Ok(built) => {
                let opts = AskOptionsView {
                    provider: a.provider,
                    model: a.model,
                    timeout_ms: a.timeout,
                    state_chars: Some(built.chars as usize),
                };
                match request_of(plan.cfg, plan.prepared, built.state, opts, a.raw) {
                    Err(e) => call_of(a, plan, raw) == Err::<CallView, ErrorView>(e),
                    Ok(r) => call_of(a, plan, raw) matches Ok(c) && c.built == built && c.opts == opts && c.request == r,
                }
            },
        },
{
}

/// A question on the command line is advised on exactly if it is a yes/no question, which has no
/// criteria there, or a choice with more options than are recommended and no more than are taken.
pub proof fn lemma_when_flags_are_advised_on(options: Option<Seq<char>>, levels: Option<Seq<char>>)
    ensures
        one_off_advice(options, levels) is Some <==> levels is None && (options matches Some(list) ==> 8 < listed(
            list,
        ).len() <= 255),
        one_off_advice(options, levels) matches Some(m) ==> begins_with(m, "question `"@ + "answer"@ + "`"@),
{
    if let Some(m) = one_off_advice(options, levels) {
        let head = "question `"@ + "answer"@;
        reveal_strlit("` has ");
        reveal_strlit("`");
        reveal_strlit(
            "` is a noul with no `criteria`; it will be answered, but a state carrying its own instructions flips the verdict far more often without them. Give `criteria` a `true` and a `false` saying what each verdict means. Set JEVI_QUIET=1 to silence this.",
        );
        assert("`"@.len() == 1 && "`"@[0] == '`');
        assert(m[head.len() as int] == '`');
        let start = "question `"@ + "answer"@ + "`"@;
        assert forall|i: int| 0 <= i < start.len() implies #[trigger] m[i] == start[i] by {
            if i < head.len() {
                assert(m.take(head.len() as int) =~= head);
                assert(m.take(head.len() as int)[i] == m[i]);
            }
        }
    }
}

/// On the way to a plan, advice is given on what is asked and on nothing else: on each question
/// of a set that is read, or on the one of the command line. Soft mode is quiet, any other is
/// not, and nothing is advised where everything is switched off or the file could not be read.
pub proof fn lemma_what_a_plan_is_advised_on(
    n: NotesView,
    a: AskView,
    env: EnvView,
    file: Option<Seq<char>>,
    found: SetFilesView,
)
    ensures
        ({
            let start = NotesView { quiet: a.soft, ..n };
            let end = plan_notes(n, a, env, file, found);
            &&& is_on(env.jevi_disable) || config_of(env, file_reading(file)) is Err ==> end == start
            &&& !is_on(env.jevi_disable) && config_of(env, file_reading(file)) is Ok ==> match (a.set, a.instructions) {
                (None, Some(_)) => match one_off_advice(a.options, a.levels) {
                    Some(m) => end == noted(start, m),
                    None => end == start,
                },
                (Some(name), None) => match resolved(env, name, found) {
                    Ok(set) => match set_reading(set.0, set.1) {
                        Ok(s) => if s.version == 1 {
                            end == advice_of(start, s.questions)
                        } else {
                            end == start
                        },
                        Err(_) => end == start,
                    },
                    Err(_) => end == start,
                },
                _ => end == start,
            }
        }),
{
}

/// Advice is heard as a note, and no advice changes nothing.
pub proof fn lemma_advice_is_a_note(n: NotesView, m: Seq<char>)
    ensures
        advised(n, Some(m)) == noted(n, m),
        advised(n, None) == n,
{
}

/// A call that runs out of time has no answer, and says how long it waited.
pub proof fn lemma_time_runs_out(timeout_ms: u64)
    ensures
        out_of_time(timeout_ms) == (ErrorView::NoAnswer {
            kind: "timeout"@,
            message: "no reply within "@ + decimal_of(timeout_ms as nat) + "ms"@,
        }),
{
}

/// The doctor reports how long its request took, which model answered and what it cost.
pub proof fn lemma_what_a_live_check_says(a: AnsweredView)
    ensures
        live_line(a) == "live:      ok in "@ + decimal_of(a.latency_ms as nat) + "ms, model "@ + (if a.model is Some {
            a.model->0
        } else {
            "?"@
        }) + ", usage "@ + (if a.usage is Some {
            json_text(settled(a.usage->0))
        } else {
            "?"@
        }) + "\n"@,
{
}

/// What a reply says: its answers, the model if it is named by a text, and the cost as it came.
/// A reply whose answers are no object has none, and what it says of an error is passed on.
pub proof fn lemma_what_a_reply_says(body: JsonView)
    ensures
        match field(body, "answers"@) {
            Some(JsonView::Object(m)) => reading(body) matches Ok(r) && r.answers == m && r.usage == field(
                body,
                "usage"@,
            ) && match field(body, "model"@) {
                Some(JsonView::Text(t)) => r.model == Some(t),
                _ => r.model is None,
            },
            _ => reading(body) matches Err(ErrorView::NoAnswer { kind, message }) && kind == "bad_response"@
                && message == "no `answers` in the response "@ + (match field(body, "error"@) {
                Some(e) => json_text(settled(e)),
                None => ""@,
            }),
        },
{
}

/// A body that reads as JSON is that JSON; one that does not is cut short.
pub proof fn lemma_what_a_body_is(j: JsonView, m: Seq<char>)
    ensures
        body_of(Ok(j)) == Ok::<JsonView, ErrorView>(j),
        body_of(Err(m)) == Err::<JsonView, ErrorView>(
            ErrorView::NoAnswer { kind: "truncated"@, message: "json: "@ + m },
        ),
{
}

/// A text that is meant as JSON is the state that it reads as, at its full length; one that is
/// none is the caller's fault.
pub proof fn lemma_what_json_becomes(raw: Seq<char>, j: JsonView, m: Seq<char>)
    ensures
        json_state_of(raw, Ok(j)) matches Ok(b) && b.state == j && b.chars == raw.len() && b.dropped == 0,
        json_state_of(raw, Err(m)) == Err::<BuiltView, ErrorView>(
            ErrorView::Invalid { kind: "state"@, message: "--state-json but not JSON: "@ + m },
        ),
{
}

/// A result says one thing: the value it holds or the failure it holds, and no other.
pub proof fn lemma_a_result_says_one_thing<T: View>(
    r: Result<T, Error>,
    a: Result<T::V, ErrorView>,
    b: Result<T::V, ErrorView>,
)
    requires
        says(r, a),
        says(r, b),
    ensures
        a == b,
        r is Ok <==> a is Ok,
        r matches Ok(v) ==> a == Ok::<T::V, ErrorView>(v@),
        r matches Err(e) ==> a == Err::<T::V, ErrorView>(e@),
{
}

/// A call keeps its time, and remembers that it was tried twice from the request that goes again
/// on. So no request after that one goes again, whatever it brings and whatever time is left.
pub proof fn lemma_a_call_remembers(
    post: Post,
    came: Result<JsonView, ErrorView>,
    left: u128,
    then: Result<JsonView, ErrorView>,
    later: u128,
)
    ensures
        post_after(post, came, left).timeout_ms == post.timeout_ms,
        post_after(post, came, left).retried <==> post.retried || goes_again(post.retried, came, left),
        goes_again(post.retried, came, left) ==> !goes_again(post_after(post, came, left).retried, then, later),
{
}

/// A call without overrides overrides nothing.
pub proof fn lemma_no_overrides()
    ensures
        no_options() == (AskOptionsView { provider: None, model: None, timeout_ms: None, state_chars: None }),
{
}

}
