//! One call: what is sent, and what is made of what came back.

use vstd::prelude::*;

use crate::codec::{lemma_sound_field, sound, DEEPEST};
use crate::config::{Config, ConfigView};
use crate::decide;
use crate::decide::{
    lemma_an_incomplete_answer_is_unsure, lemma_outcomes_are_writable, other_model, outcome_under, Outcome, OutcomeView, Provenance,
    ProvenanceView, Verdict,
};
use crate::error::{no_answer, says, Error, ErrorView};
use crate::json::{field, lookup, Json, JsonView, Object};
use crate::notes::{noted, Notes};
use crate::output;
use crate::output::{document_of, failure_of, outcomes_view, writable_outcome, writable_parts};
use crate::provider;
use crate::provider::{lemma_body_reads_back, opt_json, opt_text, reading, request_body, Provider, ResponseView};
use crate::questions;
use crate::questions::{criteria_advice, opt_str, shorthand_of, writable_cuts, writable_prepared, DecideView, Prepared, PreparedView};
use crate::state::{length_of, state_len};
use crate::text;
use crate::text::views;

verus! {

/// Everything one call came back with. `outcomes` lines up with `names` by position.
#[derive(Debug)]
pub struct Answered {
    pub names: Vec<String>,
    pub outcomes: Vec<Outcome>,
    /// The model that actually answered — a dated build of whatever was asked for.
    pub model: Option<String>,
    /// The provider's own usage block, passed through untouched.
    pub usage: Option<Json>,
    pub latency_ms: u128,
    /// The provider used, for the record.
    pub provider: Provider,
}

/// What an [`Answered`] holds.
pub struct AnsweredView {
    pub names: Seq<Seq<char>>,
    pub outcomes: Seq<OutcomeView>,
    pub model: Option<Seq<char>>,
    pub usage: Option<JsonView>,
    pub latency_ms: u128,
    pub provider: Provider,
}

impl View for Answered {
    type V = AnsweredView;

    open spec fn view(&self) -> AnsweredView {
        AnsweredView {
            names: views(self.names@),
            outcomes: outcomes_view(self.outcomes@),
            model: opt_text(self.model),
            usage: opt_json(self.usage),
            latency_ms: self.latency_ms,
            provider: self.provider,
        }
    }
}

/// Per-call overrides. All of them default to what the config resolves.
#[derive(Debug)]
pub struct AskOptions {
    pub provider: Option<String>,
    pub model: Option<String>,
    pub timeout_ms: Option<u64>,
    /// How long the state was, in characters, for the `validated.max_chars` check. Leave it
    /// at `None` and it is measured from the state itself.
    pub state_chars: Option<usize>,
}

/// What [`AskOptions`] say.
pub struct AskOptionsView {
    pub provider: Option<Seq<char>>,
    pub model: Option<Seq<char>>,
    pub timeout_ms: Option<u64>,
    pub state_chars: Option<usize>,
}

impl View for AskOptions {
    type V = AskOptionsView;

    open spec fn view(&self) -> AskOptionsView {
        AskOptionsView {
            provider: opt_text(self.provider),
            model: opt_text(self.model),
            timeout_ms: self.timeout_ms,
            state_chars: self.state_chars,
        }
    }
}

impl Default for AskOptions {
    fn default() -> (r: AskOptions)
        ensures
            r@ == (AskOptionsView { provider: None, model: None, timeout_ms: None, state_chars: None }),
    {
        AskOptions { provider: None, model: None, timeout_ms: None, state_chars: None }
    }
}

/// A request as it goes out.
pub struct Request {
    pub provider: Provider,
    pub url: String,
    pub key: String,
    pub body: Json,
    pub timeout_ms: u64,
}

/// What a [`Request`] says.
pub struct RequestView {
    pub provider: Provider,
    pub url: Seq<char>,
    pub key: Seq<char>,
    pub body: JsonView,
    pub timeout_ms: u64,
}

impl View for Request {
    type V = RequestView;

    open spec fn view(&self) -> RequestView {
        RequestView {
            provider: self.provider,
            url: self.url@,
            key: self.key@,
            body: self.body@,
            timeout_ms: self.timeout_ms,
        }
    }
}

/// What is said where there is no credential, with what to do about it.
pub open spec fn no_key_advice(p: Provider) -> Seq<char> {
    "no credential for "@ + p.spec_name() + " (set "@ + p.spec_env_key() + " or run `jevi config set-key "@
        + p.spec_name() + "`)"@
}

/// The request that puts some questions about a state. `raw` is a call whose reply is not
/// read; it says less where there is no credential.
pub open spec fn request_of(
    cfg: ConfigView,
    prepared: PreparedView,
    state: JsonView,
    opts: AskOptionsView,
    raw: bool,
) -> Result<RequestView, ErrorView> {
    match cfg.provider(opts.provider) {
        Err(e) => Err(e),
        Ok(p) => match cfg.key(p) {
            None => Err(
                no_answer(
                    "no_key"@,
                    if raw {
                        "no credential for "@ + p.spec_name()
                    } else {
                        no_key_advice(p)
                    },
                ),
            ),
            Some(key) => {
                let model = match prepared.model {
                    Some(m) => m,
                    None => cfg.model(p, opts.model),
                };
                Ok(
                    RequestView {
                        provider: p,
                        url: cfg.url(p),
                        key,
                        body: request_body(model, state, prepared.wire),
                        timeout_ms: cfg.timeout_ms(opts.timeout_ms),
                    },
                )
            },
        },
    }
}

/// Borrows a text that may be there.
pub(crate) fn as_deref(s: &Option<String>) -> (r: Option<&str>)
    ensures
        opt_str(r) == opt_text(*s),
{
    match s {
        Some(s) => Some(s.as_str()),
        None => None,
    }
}

fn make_request(cfg: &Config, prepared: &Prepared, state: &Json, opts: &AskOptions, raw: bool) -> (r: Result<
    Request,
    Error,
>)
    ensures
        says(r, request_of(cfg@, prepared@, state@, opts@, raw)),
{
    let p = match cfg.provider(as_deref(&opts.provider)) {
        Ok(p) => p,
        Err(e) => return Err(e),
    };
    let key = match cfg.key_for(p) {
        Some(k) => k,
        None => {
            let short = text::cat("no credential for ", p.name());
            if raw {
                return Err(Error::no_answer("no_key", short.as_str()));
            }
            let long = text::cat5(
                short.as_str(),
                " (set ",
                p.env_key(),
                " or run `jevi config set-key ",
                text::cat(p.name(), "`)").as_str(),
            );
            proof {
                assert(long@ =~= no_key_advice(p));
            }
            return Err(Error::no_answer("no_key", long.as_str()));
        },
    };
    let model = match &prepared.model {
        Some(m) => m.clone(),
        None => cfg.model(p, as_deref(&opts.model)),
    };
    Ok(
        Request {
            provider: p,
            url: cfg.url(p),
            key,
            body: p.body(model.as_str(), state, &prepared.wire),
            timeout_ms: cfg.timeout_ms(opts.timeout_ms),
        },
    )
}

/// The request that [`ask`] needs an answer to.
///
/// Returns `Err(Error::NoAnswer)` when there is no credential.
pub fn ask_request(cfg: &Config, prepared: &Prepared, state: &Json, opts: &AskOptions) -> (r: Result<Request, Error>)
    ensures
        says(r, request_of(cfg@, prepared@, state@, opts@, false)),
{
    make_request(cfg, prepared, state, opts, false)
}

/// The request that [`ask_raw`] needs an answer to.
pub fn ask_raw_request(cfg: &Config, prepared: &Prepared, state: &Json, opts: &AskOptions) -> (r: Result<
    Request,
    Error,
>)
    ensures
        says(r, request_of(cfg@, prepared@, state@, opts@, true)),
{
    make_request(cfg, prepared, state, opts, true)
}

/// The answer under a name; null where there is none.
pub open spec fn answer_for(answers: Seq<(Seq<char>, JsonView)>, name: Seq<char>) -> JsonView {
    match lookup(answers, name) {
        Some(a) => a,
        None => JsonView::Null,
    }
}

/// What each question came to, where the set they come from pins a model or none.
pub open spec fn judged(
    pinned: Option<Seq<char>>,
    names: Seq<Seq<char>>,
    decide: Seq<DecideView>,
    answers: Seq<(Seq<char>, JsonView)>,
    p: ProvenanceView,
) -> Seq<OutcomeView> {
    Seq::new(
        if names.len() <= decide.len() {
            names.len()
        } else {
            decide.len()
        },
        |i: int| outcome_under(pinned, answer_for(answers, names[i]), decide[i], p),
    )
}

/// The circumstances under which an answer was given.
pub open spec fn provenance_of(response: ResponseView, state: JsonView, state_chars: Option<usize>) -> ProvenanceView {
    ProvenanceView {
        model_used: response.model,
        state_chars: match state_chars {
            Some(n) => n,
            None => length_of(state) as usize,
        },
    }
}

/// What a call comes to, given what the request brought.
pub open spec fn asked_of(
    cfg: ConfigView,
    prepared: PreparedView,
    state: JsonView,
    opts: AskOptionsView,
    came: Result<JsonView, ErrorView>,
    latency_ms: u128,
) -> Result<AnsweredView, ErrorView> {
    match (request_of(cfg, prepared, state, opts, false), came) {
        (Err(e), _) => Err(e),
        (Ok(_), Err(e)) => Err(e),
        (Ok(request), Ok(body)) => match reading(body) {
            Err(e) => Err(e),
            Ok(response) => Ok(
                AnsweredView {
                    names: prepared.names,
                    outcomes: judged(
                        prepared.model,
                        prepared.names,
                        prepared.decide,
                        response.answers,
                        provenance_of(response, state, opts.state_chars),
                    ),
                    model: response.model,
                    usage: response.usage,
                    latency_ms,
                    provider: request.provider,
                },
            ),
        },
    }
}

/// What a request brought, the value and the failure each taken by what they say.
pub open spec fn came_view(came: Result<Json, Error>) -> Result<JsonView, ErrorView> {
    match came {
        Ok(j) => Ok(j@),
        Err(e) => Err(e@),
    }
}

fn judge(prepared: &Prepared, answers: &Object, provenance: &Provenance<'_>) -> (r: Vec<Outcome>)
    ensures
        outcomes_view(r@) == judged(prepared@.model, prepared@.names, prepared@.decide, answers@, provenance@),
{
    let mut out: Vec<Outcome> = Vec::new();
    let ghost goal = judged(prepared@.model, prepared@.names, prepared@.decide, answers@, provenance@);
    let pinned = as_deref(&prepared.model);
    let mut i: usize = 0;
    while i < prepared.names.len() && i < prepared.decide.len()
        invariant
            opt_str(pinned) == prepared@.model,
            i <= prepared.names@.len(),
            i <= prepared.decide@.len(),
            goal == judged(prepared@.model, prepared@.names, prepared@.decide, answers@, provenance@),
            outcomes_view(out@) == goal.take(i as int),
        decreases prepared.names@.len() - i,
    {
        let ghost before = out@;
        let o = match answers.get(prepared.names[i].as_str()) {
            Some(a) => decide::outcome_pinned(pinned, a, &prepared.decide[i], provenance),
            None => decide::outcome_pinned(pinned, &Json::Null, &prepared.decide[i], provenance),
        };
        out.push(o);
        proof {
            assert(outcomes_view(out@) =~= outcomes_view(before).push(goal[i as int]));
            assert(goal.take(i + 1) =~= goal.take(i as int).push(goal[i as int]));
        }
        i += 1;
    }
    proof {
        assert(goal.take(goal.len() as int) =~= goal);
    }
    out
}

/// Send one state and its questions, and turn the reply into verdicts: given what
/// [`ask_request`]'s request brought and how long that took.
///
/// Returns `Err(Error::NoAnswer)` when the question could not be put (no credential, no
/// network, a timeout, the service refusing), and `Err(Error::Invalid)` when the request was
/// malformed. Callers that degrade should degrade on the first and surface the second.
pub fn ask(
    cfg: &Config,
    prepared: &Prepared,
    state: &Json,
    opts: &AskOptions,
    came: Result<Json, Error>,
    latency_ms: u128,
) -> (r: Result<Answered, Error>)
    ensures
        says(r, asked_of(cfg@, prepared@, state@, opts@, came_view(came), latency_ms)),
        r matches Ok(a) ==> other_model(prepared@.model, a@.model) ==> forall|i: int|
            0 <= i < a@.outcomes.len() ==> (#[trigger] a@.outcomes[i]).verdict == Verdict::Unsure
                && a@.outcomes[i].warning == Some("model_mismatch"@),
{
    let request = match ask_request(cfg, prepared, state, opts) {
        Ok(request) => request,
        Err(e) => return Err(e),
    };
    let body = match came {
        Ok(body) => body,
        Err(e) => return Err(e),
    };
    let response = match provider::read(&body) {
        Ok(response) => response,
        Err(e) => return Err(e),
    };
    let state_chars = match opts.state_chars {
        Some(n) => n,
        None => state_len(state),
    };
    let provenance = Provenance { model_used: as_deref(&response.model), state_chars };
    let outcomes = judge(prepared, &response.answers, &provenance);
    Ok(
        Answered {
            names: copied(&prepared.names),
            outcomes,
            model: response.model,
            usage: response.usage,
            latency_ms,
            provider: request.provider,
        },
    )
}

fn copied(names: &Vec<String>) -> (r: Vec<String>)
    ensures
        views(r@) == views(names@),
{
    let mut out: Vec<String> = Vec::new();
    let mut i: usize = 0;
    while i < names.len()
        invariant
            i <= names@.len(),
            views(out@) == views(names@).take(i as int),
        decreases names@.len() - i,
    {
        let ghost before = out@;
        out.push(names[i].clone());
        proof {
            assert(views(out@) =~= views(before).push(names@[i as int]@));
            assert(views(names@).take(i + 1) =~= views(names@).take(i as int).push(names@[i as int]@));
        }
        i += 1;
    }
    proof {
        assert(views(names@).take(names@.len() as int) =~= views(names@));
    }
    out
}

/// The raw provider response, for finding out what an unverified endpoint actually returns:
/// given what [`ask_raw_request`]'s request brought. Everything else goes through [`ask`].
pub fn ask_raw(
    cfg: &Config,
    prepared: &Prepared,
    state: &Json,
    opts: &AskOptions,
    came: Result<Json, Error>,
) -> (r: Result<Json, Error>)
    ensures
        says(
            r,
            match request_of(cfg@, prepared@, state@, opts@, true) {
                Err(e) => Err(e),
                Ok(_) => came_view(came),
            },
        ),
{
    match ask_raw_request(cfg, prepared, state, opts) {
        Ok(_) => came,
        Err(e) => Err(e),
    }
}

/// Build a one-off question the way the command line does, for callers that want the same
/// shorthand without going through a file.
pub fn shorthand(instructions: &str, notes: &mut Notes) -> (r: Result<Prepared, Error>)
    ensures
        says(r, shorthand_of(instructions@, None, None, None, None, None)),
        final(notes)@ == noted(old(notes)@, criteria_advice("answer"@)),
{
    questions::shorthand(instructions, None, None, None, None, None, notes)
}

/// The document for an [`Answered`].
pub open spec fn answered_document(a: AnsweredView) -> JsonView {
    JsonView::Object(
        document_of(a.names, a.outcomes, a.provider.spec_name(), a.model, a.usage, a.latency_ms as u64),
    )
}

/// Render answers as the normalised JSON document the CLI prints with `--json`.
pub fn document(answered: &Answered) -> (r: Json)
    requires
        answered@.latency_ms <= u64::MAX,
    ensures
        r@ == answered_document(answered@),
        writable_parts(answered@.outcomes, answered@.usage) ==> sound(r@, DEEPEST as nat),
{
    output::document(
        answered.names.as_slice(),
        answered.outcomes.as_slice(),
        answered.provider.name(),
        as_deref(&answered.model),
        match &answered.usage {
            Some(u) => Some(u),
            None => None,
        },
        answered.latency_ms,
    )
}

/// What `--soft` prints when there is no answer. Exposed so a caller writing the same kind
/// of degradable record does not have to reinvent the shape.
pub fn failure_document(kind: &str, message: &str) -> (r: Json)
    ensures
        r@ == JsonView::Object(failure_of(kind@, message@)),
{
    output::failure(kind, message)
}

/// Outcomes line up with names by position: each is the judgement of the answer under that
/// name, by that question's cuts.
pub proof fn lemma_outcomes_line_up(
    cfg: ConfigView,
    prepared: PreparedView,
    state: JsonView,
    opts: AskOptionsView,
    body: JsonView,
    latency_ms: u128,
    i: int,
)
    requires
        prepared.names.len() == prepared.decide.len(),
        0 <= i < prepared.names.len(),
    ensures
        asked_of(cfg, prepared, state, opts, Ok(body), latency_ms) matches Ok(a) ==> {
            &&& a.names == prepared.names
            &&& a.outcomes.len() == a.names.len()
            &&& reading(body) matches Ok(response)
            &&& a.outcomes[i] == outcome_under(
                prepared.model,
                answer_for(response.answers, prepared.names[i]),
                prepared.decide[i],
                provenance_of(response, state, opts.state_chars),
            )
        },
{
}

/// A model that a question set pins is enforced on every call: where another one answered,
/// every verdict is `unsure` and says why, whether or not anything was measured.
pub proof fn lemma_the_pinned_model_is_enforced(
    cfg: ConfigView,
    prepared: PreparedView,
    state: JsonView,
    opts: AskOptionsView,
    came: Result<JsonView, ErrorView>,
    latency_ms: u128,
)
    ensures
        asked_of(cfg, prepared, state, opts, came, latency_ms) matches Ok(a) ==> other_model(prepared.model, a.model)
            ==> forall|i: int|
            0 <= i < a.outcomes.len() ==> (#[trigger] a.outcomes[i]).verdict == Verdict::Unsure
                && a.outcomes[i].warning == Some("model_mismatch"@),
{
}

/// A question that the reply passes over is `unsure`; the call has not failed.
pub proof fn lemma_a_missing_answer_is_unsure(
    pinned: Option<Seq<char>>,
    answers: Seq<(Seq<char>, JsonView)>,
    name: Seq<char>,
    d: DecideView,
    p: ProvenanceView,
)
    requires
        lookup(answers, name) is None,
    ensures
        outcome_under(pinned, answer_for(answers, name), d, p).verdict == Verdict::Unsure,
        outcome_under(pinned, answer_for(answers, name), d, p).warning is Some,
{
    reveal_strlit("unknown");
    reveal_strlit("noul");
    reveal_strlit("choice");
    reveal_strlit("score");
    assert("unknown"@.len() == 7 && "noul"@.len() == 4 && "choice"@.len() == 6 && "score"@.len() == 5);
    lemma_an_incomplete_answer_is_unsure(answer_for(answers, name), d, p);
}

/// Without a credential nothing is sent, and the caller can fall back.
pub proof fn lemma_no_key_no_request(
    cfg: ConfigView,
    prepared: PreparedView,
    state: JsonView,
    opts: AskOptionsView,
    raw: bool,
    p: Provider,
)
    requires
        cfg.provider(opts.provider) == Ok::<Provider, ErrorView>(p),
        cfg.key(p) is None,
    ensures
        request_of(cfg, prepared, state, opts, raw) matches Err(e) && e.code() == 4 && e.kind() == "no_key"@,
{
}

/// The model that a question set pins is the one that is asked for, whatever the command
/// line, the environment and the configuration say.
pub proof fn lemma_the_pinned_model_is_asked_for(
    cfg: ConfigView,
    prepared: PreparedView,
    state: JsonView,
    opts: AskOptionsView,
    raw: bool,
    model: Seq<char>,
)
    requires
        prepared.model == Some(model),
    ensures
        request_of(cfg, prepared, state, opts, raw) matches Ok(r) ==> field(r.body, "model"@) == Some(
            JsonView::Text(model),
        ) && field(r.body, "state"@) == Some(state) && field(r.body, "questions"@) == Some(
            JsonView::Object(prepared.wire),
        ),
{
    lemma_body_reads_back(model, state, prepared.wire);
}

/// Where a reply was read from a text and the cuts are written as themselves, so is
/// everything that a document is made of.
pub proof fn lemma_answered_is_writable(
    cfg: ConfigView,
    prepared: PreparedView,
    state: JsonView,
    opts: AskOptionsView,
    body: JsonView,
    latency_ms: u128,
)
    requires
        sound(body, DEEPEST as nat),
        writable_prepared(prepared),
    ensures
        asked_of(cfg, prepared, state, opts, Ok(body), latency_ms) matches Ok(a) ==> writable_parts(a.outcomes, a.usage),
{
    if let Ok(a) = asked_of(cfg, prepared, state, opts, Ok(body), latency_ms) {
        let response = reading(body)->Ok_0;
        let p = provenance_of(response, state, opts.state_chars);
        lemma_sound_field(body, "usage"@, DEEPEST as nat);
        lemma_sound_field(body, "answers"@, DEEPEST as nat);
        assert forall|i: int| 0 <= i < a.outcomes.len() implies writable_outcome(#[trigger] a.outcomes[i]) by {
            let name = prepared.names[i];
            lemma_sound_field(JsonView::Object(response.answers), name, (DEEPEST - 1) as nat);
            assert(sound(JsonView::Null, (DEEPEST - 2) as nat));
            assert(writable_cuts(prepared.decide[i]));
            lemma_outcomes_are_writable(
                prepared.model,
                answer_for(response.answers, name),
                prepared.decide[i],
                p,
                (DEEPEST - 2) as nat,
            );
        }
    }
}

}
