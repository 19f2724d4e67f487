//! The commands, but for reading, sending and printing: what is asked, what is shown and
//! which code the process exits with.
//!
//! The exit-code map has one hard rule: never exit 2. Whoever runs hooks reads a hook's exit 2
//! as "block this tool call and hand my stderr to the model", so a mistyped flag in a hook
//! would become a block on the thing it hooks.

use vstd::prelude::*;

use crate::cli::{Ask, AskView};
use crate::codec::{
    json_reading, json_text, lemma_faithful_is_settled, lemma_sound_object, lemma_sound_with, settled, sound,
    whole_reading, DEEPEST,
};
use crate::config;
use crate::config::{
    config_of, file_reading, path_of, questions_dir_of, resolved, Config, ConfigView, Env, EnvView, SetFiles,
    SetFilesView,
};
use crate::decide::{Outcome, OutcomeView, Verdict};
use crate::error::{invalid, no_answer, says, Error, ErrorView};
use crate::http::read_view;
use crate::json::{lemma_lookup_push, lemma_with, lookup, with, Json, JsonView, Object};
use crate::notes::{is_on, noted, set_quiet, switched_on, Notes, NotesView};
use crate::number::Real;
use crate::output;
use crate::output::{failure_of, lemma_document_is_distinct, lemma_failure_is_sound, lemma_failure_says_so, lines, outcomes_view, paired, writable_parts};
use crate::provider::{opt_text, Provider};
use crate::questions;
use crate::questions::{advised, criteria_advice, one_off_advice, opt_real, opt_str, shorthand_of, writable_flags, writable_prepared, Prepared, PreparedView};
use crate::session;
use crate::session::{
    answered_document, asked_of, came_view, lemma_answered_is_writable, request_of, Answered, AnsweredView, AskOptions, AskOptionsView, Request,
    RequestView,
};
use crate::sets::{advice_of, lemma_parts_line_up, lemma_prepared_cuts_are_writable, lemma_quiet_advice, prepared_of, set_reading, QuestionSet, QuestionSetView};
use crate::state::{build_state, lemma_only_blank_text_is_refused, state_of, Built, BuiltView};
use crate::text;
use crate::text::{decimal_of, is_white, octal4_of, trimmed, views};

verus! {

/// What a question set's questions are worth saying about.
pub open spec fn set_notes(n: NotesView, s: QuestionSetView) -> NotesView {
    if s.version != 1 {
        n
    } else {
        advice_of(n, s.questions)
    }
}

/// The questions that a command line asks, or what is wrong with it.
pub open spec fn questions_of(a: AskView, env: EnvView, found: SetFilesView) -> Result<PreparedView, ErrorView> {
    match (a.set, a.instructions) {
        (Some(_), Some(_)) => Err(invalid("flags"@, "give a question or -f, not both"@)),
        (Some(name), None) => match resolved(env, name, found) {
            Err(e) => Err(e),
            Ok(set) => match set_reading(set.0, set.1) {
                Err(e) => Err(e),
                Ok(s) => prepared_of(s),
            },
        },
        (None, Some(text)) => shorthand_of(text, a.options, a.levels, a.yes_at, a.no_at, a.min_confidence),
        (None, None) => Err(invalid("flags"@, "no question given — try `jevi ask --help`"@)),
    }
}

/// The advice on the questions that a command line asks.
pub open spec fn questions_notes(n: NotesView, a: AskView, env: EnvView, found: SetFilesView) -> NotesView {
    match (a.set, a.instructions) {
        (Some(name), None) => match resolved(env, name, found) {
            Err(_) => n,
            Ok(set) => match set_reading(set.0, set.1) {
                Err(_) => n,
                Ok(s) => set_notes(n, s),
            },
        },
        (None, Some(_)) => advised(n, one_off_advice(a.options, a.levels)),
        _ => n,
    }
}

/// What is to be asked, and with which settings.
#[derive(Debug)]
pub struct Plan {
    pub cfg: Config,
    pub prepared: Prepared,
    /// One question typed at a terminal, whose name nobody needs echoed back.
    pub single: bool,
}

/// What a [`Plan`] holds.
pub struct PlanView {
    pub cfg: ConfigView,
    pub prepared: PreparedView,
    pub single: bool,
}

impl View for Plan {
    type V = PlanView;

    open spec fn view(&self) -> PlanView {
        PlanView { cfg: self.cfg@, prepared: self.prepared@, single: self.single }
    }
}

/// What a command line asks for, given the configuration file and what was found of the
/// question set it names.
pub open spec fn plan_of(a: AskView, env: EnvView, file: Option<Seq<char>>, found: SetFilesView) -> Result<
    PlanView,
    ErrorView,
> {
    if is_on(env.jevi_disable) {
        Err(no_answer("disabled"@, "JEVI_DISABLE is set"@))
    } else {
        match config_of(env, file_reading(file)) {
            Err(e) => Err(e),
            Ok(cfg) => match questions_of(a, env, found) {
                Err(e) => Err(e),
                Ok(prepared) => Ok(
                    PlanView { cfg, prepared, single: prepared.names.len() == 1 && a.set is None },
                ),
            },
        }
    }
}

/// The advice given on the way to a plan. Soft mode gives none.
pub open spec fn plan_notes(
    n: NotesView,
    a: AskView,
    env: EnvView,
    file: Option<Seq<char>>,
    found: SetFilesView,
) -> NotesView {
    let n = NotesView { quiet: a.soft, ..n };
    if is_on(env.jevi_disable) || config_of(env, file_reading(file)) is Err {
        n
    } else {
        questions_notes(n, a, env, found)
    }
}

fn copied_text(s: &Option<String>) -> (r: Option<String>)
    ensures
        opt_text(r) == opt_text(*s),
{
    match s {
        Some(s) => Some(s.clone()),
        None => None,
    }
}

fn copied_real(x: &Option<Real>) -> (r: Option<Real>)
    ensures
        opt_real(r) == opt_real(*x),
{
    match x {
        Some(x) => Some(x.clone()),
        None => None,
    }
}

fn read_questions(a: &Ask, cfg: &Config, found: &SetFiles, notes: &mut Notes) -> (r: Result<Prepared, Error>)
    ensures
        says(r, questions_of(a@, cfg@.env, found@)),
        a@.set is Some || writable_flags(a@.yes_at, a@.no_at, a@.min_confidence) ==> (r matches Ok(p)
            ==> writable_prepared(p@)),
        final(notes)@ == questions_notes(old(notes)@, a@, cfg@.env, found@),
{
    match (&a.set, &a.instructions) {
        (Some(_), Some(_)) => Err(Error::invalid("flags", "give a question or -f, not both")),
        (Some(name), None) => {
            let (raw, origin) = match cfg.resolve_set(name.as_str(), found) {
                Ok(t) => t,
                Err(e) => return Err(e),
            };
            match QuestionSet::parse(raw.as_str(), origin.as_str()) {
                Ok(set) => {
                    let ghost read = set@;
                    let r = set.prepare(notes);
                    proof {
                        if r is Ok {
                            lemma_prepared_cuts_are_writable(read, (DEEPEST - 1) as nat);
                        }
                    }
                    r
                },
                Err(e) => Err(e),
            }
        },
        (None, Some(text)) => questions::shorthand(
            text.as_str(),
            session::as_deref(&a.options),
            session::as_deref(&a.levels),
            copied_real(&a.yes_at),
            copied_real(&a.no_at),
            copied_real(&a.min_confidence),
            notes,
        ),
        (None, None) => Err(Error::invalid("flags", "no question given — try `jevi ask --help`")),
    }
}

/// Whether anything is to be asked at all: a caller can turn the whole thing off without
/// editing any of the scripts that call it.
pub fn check_enabled(env: &Env) -> (r: Result<(), Error>)
    ensures
        match r {
            Ok(_) => !is_on(env@.jevi_disable),
            Err(e) => is_on(env@.jevi_disable) && e@ == no_answer("disabled"@, "JEVI_DISABLE is set"@),
        },
{
    if switched_on(&env.jevi_disable) {
        Err(Error::no_answer("disabled", "JEVI_DISABLE is set"))
    } else {
        Ok(())
    }
}

/// Works out what a command line asks for, given the text of the configuration file if it
/// could be read and what was found of the question set it names. The cuts of a set are
/// written as themselves, and so are those of a question on the command line if its flags are.
pub fn plan(a: &Ask, env: Env, file: Option<&str>, found: &SetFiles, notes: &mut Notes) -> (r: Result<Plan, Error>)
    ensures
        says(r, plan_of(a@, env@, opt_str(file), found@)),
        r matches Ok(p) ==> p@.prepared.names.len() > 0 && p@.prepared.decide.len() == p@.prepared.names.len(),
        a@.set is Some || writable_flags(a@.yes_at, a@.no_at, a@.min_confidence) ==> (r matches Ok(p)
            ==> writable_prepared(p@.prepared)),
        final(notes)@ == plan_notes(old(notes)@, a@, env@, opt_str(file), found@),
{
    set_quiet(notes, a.soft);
    if let Err(e) = check_enabled(&env) {
        return Err(e);
    }
    let cfg = match Config::load(env, file) {
        Ok(cfg) => cfg,
        Err(e) => return Err(e),
    };
    let prepared = match read_questions(a, &cfg, found, notes) {
        Ok(prepared) => prepared,
        Err(e) => return Err(e),
    };
    proof {
        lemma_something_is_asked(a@, env@, found@);
    }
    let single = prepared.names.len() == 1 && a.set.is_none();
    Ok(Plan { cfg, prepared, single })
}

/// Where the text to judge is.
#[derive(Debug)]
pub enum StateAt {
    /// On the command line.
    Given(String),
    /// In a file.
    File(String),
    /// On stdin.
    Stdin,
}

/// What a [`StateAt`] says.
pub enum StateAtView {
    Given(Seq<char>),
    File(Seq<char>),
    Stdin,
}

impl View for StateAt {
    type V = StateAtView;

    open spec fn view(&self) -> StateAtView {
        match self {
            StateAt::Given(t) => StateAtView::Given(t@),
            StateAt::File(p) => StateAtView::File(p@),
            StateAt::Stdin => StateAtView::Stdin,
        }
    }
}

/// Where a command line says that the text to judge is.
pub open spec fn state_at_of(a: AskView) -> StateAtView {
    match (a.state_text, a.state) {
        (Some(t), _) => StateAtView::Given(t),
        (None, Some(path)) => StateAtView::File(path),
        (None, None) => StateAtView::Stdin,
    }
}

/// Where a command line says that the text to judge is.
pub fn state_at(a: &Ask) -> (r: StateAt)
    ensures
        r@ == state_at_of(a@),
{
    if let Some(t) = &a.state_text {
        return StateAt::Given(t.clone());
    }
    if let Some(path) = &a.state {
        return StateAt::File(path.clone());
    }
    StateAt::Stdin
}

/// What was found where the text to judge should be.
#[derive(Debug)]
pub enum StateFound {
    /// The text on the command line.
    Given(String),
    /// A file: its text, or what went wrong.
    File { path: String, read: Result<String, String> },
    /// A terminal, on which nobody is typing.
    Terminal,
    /// What was piped in, or what went wrong.
    Piped(Result<String, String>),
}

/// What a [`StateFound`] says.
pub enum StateFoundView {
    Given(Seq<char>),
    File { path: Seq<char>, read: Result<Seq<char>, Seq<char>> },
    Terminal,
    Piped(Result<Seq<char>, Seq<char>>),
}

impl View for StateFound {
    type V = StateFoundView;

    open spec fn view(&self) -> StateFoundView {
        match self {
            StateFound::Given(t) => StateFoundView::Given(t@),
            StateFound::File { path, read } => StateFoundView::File { path: path@, read: read_view(*read) },
            StateFound::Terminal => StateFoundView::Terminal,
            StateFound::Piped(read) => StateFoundView::Piped(read_view(*read)),
        }
    }
}

/// The text to judge.
pub open spec fn raw_state_of(found: StateFoundView) -> Result<Seq<char>, ErrorView> {
    match found {
        StateFoundView::Given(t) => Ok(t),
        StateFoundView::File { path, read } => match read {
            Ok(t) => Ok(t),
            Err(m) => Err(invalid("state"@, path + ": "@ + m)),
        },
        StateFoundView::Terminal => Err(
            invalid("state"@, "nothing on stdin — pipe the text in, or use --text/--state"@),
        ),
        StateFoundView::Piped(read) => match read {
            Ok(t) => Ok(t),
            Err(m) => Err(invalid("state"@, m)),
        },
    }
}

/// The text to judge.
pub fn raw_state(found: StateFound) -> (r: Result<String, Error>)
    ensures
        says(r, raw_state_of(found@)),
{
    match found {
        StateFound::Given(t) => Ok(t),
        StateFound::File { path, read } => match read {
            Ok(t) => Ok(t),
            Err(m) => Err(Error::invalid("state", text::cat3(path.as_str(), ": ", m.as_str()).as_str())),
        },
        StateFound::Terminal => Err(
            Error::invalid("state", "nothing on stdin — pipe the text in, or use --text/--state"),
        ),
        StateFound::Piped(read) => match read {
            Ok(t) => Ok(t),
            Err(m) => Err(Error::invalid("state", m.as_str())),
        },
    }
}

/// How many characters of a text are sent where nothing else is said.
pub const USUAL_CAP: usize = 80_000;

/// How many characters of the text are sent: what the command line says, else what the
/// question set says, because that is the length its thresholds were measured at.
pub open spec fn cap_of(flag: Option<usize>, set: Option<usize>) -> usize {
    match (flag, set) {
        (Some(n), _) => n,
        (None, Some(n)) => n,
        (None, None) => USUAL_CAP,
    }
}

/// One call, ready to go out.
pub struct Call {
    pub built: Built,
    pub opts: AskOptions,
    pub request: Request,
}

/// What a [`Call`] holds.
pub struct CallView {
    pub built: BuiltView,
    pub opts: AskOptionsView,
    pub request: RequestView,
}

impl View for Call {
    type V = CallView;

    open spec fn view(&self) -> CallView {
        CallView { built: self.built@, opts: self.opts@, request: self.request@ }
    }
}

/// The overrides that a command line makes for a state.
pub open spec fn options_of(a: AskView, built: BuiltView) -> AskOptionsView {
    AskOptionsView {
        provider: a.provider,
        model: a.model,
        timeout_ms: a.timeout,
        state_chars: Some(built.chars as usize),
    }
}

/// The call that puts a plan's questions about a text.
pub open spec fn call_of(a: AskView, plan: PlanView, raw: Seq<char>) -> Result<CallView, ErrorView> {
    match state_of(raw, a.state_json, cap_of(a.max_chars, plan.prepared.max_chars)) {
        Err(e) => Err(e),
        Ok(built) => {
            let opts = options_of(a, built);
            match request_of(plan.cfg, plan.prepared, built.state, opts, a.raw) {
                Err(e) => Err(e),
                Ok(request) => Ok(CallView { built, opts, request }),
            }
        },
    }
}

/// Makes the call that puts a plan's questions about a text.
pub fn call(a: &Ask, plan: &Plan, raw: &str) -> (r: Result<Call, Error>)
    ensures
        says(r, call_of(a@, plan@, raw@)),
{
    let cap = match (a.max_chars, plan.prepared.max_chars) {
        (Some(n), _) => n,
        (None, Some(n)) => n,
        (None, None) => USUAL_CAP,
    };
    let built = match build_state(raw, a.state_json, cap) {
        Ok(built) => built,
        Err(e) => return Err(e),
    };
    let opts = AskOptions {
        provider: copied_text(&a.provider),
        model: copied_text(&a.model),
        timeout_ms: a.timeout,
        state_chars: Some(built.chars),
    };
    proof {
        assert(opts@ == options_of(a@, built@));
    }
    let request = if a.raw {
        session::ask_raw_request(&plan.cfg, &plan.prepared, &built.state, &opts)
    } else {
        session::ask_request(&plan.cfg, &plan.prepared, &built.state, &opts)
    };
    match request {
        Ok(request) => Ok(Call { built, opts, request }),
        Err(e) => Err(e),
    }
}

/// What a command shows and exits with.
#[derive(Debug)]
pub struct Report {
    /// What goes to stdout, as it is.
    pub out: String,
    /// What goes to stderr, line by line.
    pub err: Vec<String>,
    pub code: i32,
}

/// What a [`Report`] holds.
pub struct ReportView {
    pub out: Seq<char>,
    pub err: Seq<Seq<char>>,
    pub code: i32,
}

impl View for Report {
    type V = ReportView;

    open spec fn view(&self) -> ReportView {
        ReportView { out: self.out@, err: views(self.err@), code: self.code }
    }
}

/// Some part of the answer is unknown.
pub open spec fn any_unsure(outcomes: Seq<OutcomeView>) -> bool {
    exists|i: int| 0 <= i < outcomes.len() && (#[trigger] outcomes[i]).verdict == Verdict::Unsure
}

/// The exit code for some outcomes. It describes the first question, except that any
/// uncertainty anywhere wins.
pub open spec fn exit_of(outcomes: Seq<OutcomeView>) -> i32 {
    if any_unsure(outcomes) {
        3
    } else {
        outcomes[0].verdict.exit()
    }
}

/// The exit code for some outcomes: a caller gating on this should stop when any part of the
/// answer is unknown.
pub fn exit_code(outcomes: &[Outcome]) -> (r: i32)
    requires
        outcomes@.len() > 0,
    ensures
        r == exit_of(outcomes_view(outcomes@)),
        r == 0 || r == 1 || r == 3,
{
    let mut i: usize = 0;
    while i < outcomes.len()
        invariant
            i <= outcomes@.len(),
            forall|k: int| 0 <= k < i ==> (#[trigger] outcomes_view(outcomes@)[k]).verdict != Verdict::Unsure,
        decreases outcomes@.len() - i,
    {
        if outcomes[i].verdict == Verdict::Unsure {
            proof {
                assert(outcomes_view(outcomes@)[i as int].verdict == Verdict::Unsure);
            }
            return 3;
        }
        i += 1;
    }
    proof {
        assert(outcomes_view(outcomes@)[0].verdict == outcomes@[0].verdict);
    }
    outcomes[0].verdict.code()
}

/// What is said of a text that was cut.
pub open spec fn cut_notice(kept: nat, dropped: nat) -> Seq<char> {
    "jevi: the state was cut to "@ + decimal_of(kept) + " characters and "@ + decimal_of(dropped)
        + " were dropped — this answer is about part of the input. Raise --max-chars, or pass 0 to send it whole."@
}

/// What the document says of a text that was cut.
pub open spec fn cut_entry(kept: nat, dropped: nat) -> JsonView {
    JsonView::Object(
        seq![
            ("kept_chars"@, JsonView::Number(whole_reading(kept as u64))),
            ("dropped_chars"@, JsonView::Number(whole_reading(dropped as u64))),
        ],
    )
}

/// A document, marked where the text that it is about was cut.
pub open spec fn marked_document(doc: JsonView, built: BuiltView) -> JsonView {
    match doc {
        JsonView::Object(m) => if built.dropped > 0 {
            JsonView::Object(with(m, "truncated"@, cut_entry(built.chars, built.dropped)))
        } else {
            doc
        },
        _ => doc,
    }
}

/// The JSON text of something that may be there.
pub open spec fn shown_json(j: Option<JsonView>, missing: Seq<char>) -> Seq<char> {
    match j {
        Some(j) => json_text(settled(j)),
        None => missing,
    }
}

/// The document for some answers about a text.
pub open spec fn shown_document(built: BuiltView, answered: AnsweredView) -> JsonView {
    marked_document(answered_document(answered), built)
}

/// The document for some answers is printed as it stands and reads back as it.
pub open spec fn reads_back(out: Seq<char>, built: BuiltView, answered: AnsweredView) -> bool {
    let doc = shown_document(built, answered);
    out == json_text(doc) + "\n"@ && json_reading(json_text(doc)) == Ok::<JsonView, Seq<char>>(doc)
}

/// What goes to stdout for some answers.
pub open spec fn shown_answers(a: AskView, single: bool, built: BuiltView, answered: AnsweredView) -> Seq<char> {
    if a.json {
        json_text(settled(shown_document(built, answered))) + "\n"@
    } else {
        lines(answered.names, answered.outcomes, single, paired(answered.names, answered.outcomes))
    }
}

/// What goes to stderr beside some answers.
pub open spec fn shown_aside(a: AskView, built: BuiltView, answered: AnsweredView) -> Seq<Seq<char>> {
    let cut = if built.dropped > 0 {
        seq![cut_notice(built.chars, built.dropped)]
    } else {
        Seq::empty()
    };
    if a.verbose {
        cut.push("jevi: "@ + decimal_of(answered.latency_ms as nat) + "ms "@ + shown_json(answered.usage, ""@))
    } else {
        cut
    }
}

/// What a call shows and exits with, given what its request brought.
pub open spec fn report_of(
    a: AskView,
    plan: PlanView,
    call: CallView,
    came: Result<JsonView, ErrorView>,
    latency_ms: u128,
) -> Result<ReportView, ErrorView> {
    if a.raw {
        match (request_of(plan.cfg, plan.prepared, call.built.state, call.opts, true), came) {
            (Err(e), _) => Err(e),
            (Ok(_), Err(e)) => Err(e),
            (Ok(_), Ok(body)) => Ok(
                ReportView { out: json_text(settled(body)) + "\n"@, err: Seq::empty(), code: 0 },
            ),
        }
    } else {
        match asked_of(plan.cfg, plan.prepared, call.built.state, call.opts, came, latency_ms) {
            Err(e) => Err(e),
            Ok(answered) => Ok(
                ReportView {
                    out: shown_answers(a, plan.single, call.built, answered),
                    err: shown_aside(a, call.built, answered),
                    code: exit_of(answered.outcomes),
                },
            ),
        }
    }
}

fn cut_json(built: &Built) -> (r: Json)
    ensures
        r@ == cut_entry(built@.chars, built@.dropped),
        sound(r@, (DEEPEST - 1) as nat),
{
    let entry = Object::new().with("kept_chars", Json::whole(built.chars as u64)).with(
        "dropped_chars",
        Json::whole(built.dropped as u64),
    );
    proof {
        broadcast use lemma_lookup_push;

        reveal_strlit("kept_chars");
        reveal_strlit("dropped_chars");
        assert("kept_chars"@.len() == 10 && "dropped_chars"@.len() == 13);
        assert(entry@ =~= cut_entry(built@.chars, built@.dropped)->Object_0);
        assert forall|i: int| 0 <= i < entry@.len() implies sound((#[trigger] entry@[i]).1, (DEEPEST - 2) as nat) by {
            assert(i == 0 || i == 1);
        }
        lemma_sound_object(entry@, (DEEPEST - 1) as nat);
    }
    Json::Object(entry)
}

fn mark_document(doc: Json, built: &Built) -> (r: Json)
    ensures
        r@ == marked_document(doc@, built@),
        sound(doc@, DEEPEST as nat) ==> sound(r@, DEEPEST as nat),
{
    match doc {
        Json::Object(o) => if built.dropped > 0 {
            let entry = cut_json(built);
            proof {
                if sound(doc@, DEEPEST as nat) {
                    lemma_sound_with(o@, "truncated"@, entry@, DEEPEST as nat);
                }
            }
            Json::Object(o.with("truncated", entry))
        } else {
            Json::Object(o)
        },
        other => other,
    }
}

fn usage_text(usage: &Option<Json>, missing: &str) -> (r: String)
    ensures
        r@ == shown_json(
            match *usage {
                Some(u) => Some(u@),
                None => None,
            },
            missing@,
        ),
{
    match usage {
        Some(u) => u.to_text(),
        None => missing.to_owned(),
    }
}

/// Shows some answers.
///
/// A truncated state is judged on part of itself and the answer looks exactly like a
/// complete one. That is the shape of failure this whole tool is built to avoid, so it is
/// reported in both outputs and never only inside the text the model sees: a caller parsing
/// the JSON, and a person reading the terminal, both have to be able to tell.
pub fn show(a: &Ask, single: bool, built: &Built, answered: &Answered) -> (r: Report)
    requires
        answered@.outcomes.len() > 0,
        a@.json ==> answered@.latency_ms <= u64::MAX,
    ensures
        r@ == (ReportView {
            out: shown_answers(a@, single, built@, answered@),
            err: shown_aside(a@, built@, answered@),
            code: exit_of(answered@.outcomes),
        }),
        a@.json && writable_parts(answered@.outcomes, answered@.usage) ==> reads_back(r@.out, built@, answered@),
{
    let out = if a.json {
        let doc = mark_document(session::document(answered), built);
        proof {
            if writable_parts(answered@.outcomes, answered@.usage) {
                lemma_faithful_is_settled(doc@);
            }
        }
        text::cat(doc.to_text().as_str(), "\n")
    } else {
        output::terse(answered.names.as_slice(), answered.outcomes.as_slice(), single)
    };
    let mut err: Vec<String> = Vec::new();
    if built.dropped > 0 {
        let notice = text::cat5(
            "jevi: the state was cut to ",
            text::decimal(built.chars as u64).as_str(),
            " characters and ",
            text::decimal(built.dropped as u64).as_str(),
            " were dropped — this answer is about part of the input. Raise --max-chars, or pass 0 to send it whole.",
        );
        err.push(notice);
    }
    if a.verbose {
        let usage = usage_text(&answered.usage, "");
        let line = text::cat4("jevi: ", text::long_decimal(answered.latency_ms).as_str(), "ms ", usage.as_str());
        err.push(line);
    }
    let code = exit_code(answered.outcomes.as_slice());
    proof {
        assert(views(err@) =~= shown_aside(a@, built@, answered@));
    }
    Report { out, err, code }
}

/// What a call shows and exits with, given what its request brought and how long that took.
/// The document of a reply that was read from a text, judged by cuts that are written as
/// themselves, reads back from what is printed.
pub fn report(a: &Ask, plan: &Plan, call: &Call, came: Result<Json, Error>, latency_ms: u128) -> (r: Result<
    Report,
    Error,
>)
    requires
        plan@.prepared.names.len() > 0,
        plan@.prepared.decide.len() > 0,
        a@.json && !a@.raw ==> latency_ms <= u64::MAX,
    ensures
        says(r, report_of(a@, plan@, call@, came_view(came), latency_ms)),
        (a@.json && !a@.raw && came is Ok && sound(came->Ok_0@, DEEPEST as nat) && writable_prepared(
            plan@.prepared,
        )) ==> (r matches Ok(shown) ==> asked_of(
            plan@.cfg,
            plan@.prepared,
            call@.built.state,
            call@.opts,
            came_view(came),
            latency_ms,
        ) matches Ok(answered) && reads_back(shown@.out, call@.built, answered)),
{
    if a.raw {
        return match session::ask_raw(&plan.cfg, &plan.prepared, &call.built.state, &call.opts, came) {
            Ok(body) => {
                let shown = Report { out: text::cat(body.to_text().as_str(), "\n"), err: Vec::new(), code: 0 };
                proof {
                    assert(views(shown.err@) =~= Seq::empty());
                }
                Ok(shown)
            },
            Err(e) => Err(e),
        };
    }
    proof {
        if came is Ok && sound(came->Ok_0@, DEEPEST as nat) && writable_prepared(plan@.prepared) {
            lemma_answered_is_writable(
                plan@.cfg,
                plan@.prepared,
                call@.built.state,
                call@.opts,
                came->Ok_0@,
                latency_ms,
            );
        }
    }
    match session::ask(&plan.cfg, &plan.prepared, &call.built.state, &call.opts, came, latency_ms) {
        Ok(answered) => Ok(show(a, plan.single, &call.built, &answered)),
        Err(e) => Err(e),
    }
}

/// How a command ends: as it reports, or by its failure. Soft mode turns a failure into a
/// document and a success.
pub open spec fn ending_of(soft: bool, done: Result<ReportView, ErrorView>) -> ReportView {
    match done {
        Ok(r) => r,
        Err(e) => if soft {
            ReportView {
                out: json_text(settled(JsonView::Object(failure_of(e.kind(), e.text())))) + "\n"@,
                err: Seq::empty(),
                code: 0,
            }
        } else {
            ReportView { out: ""@, err: seq!["jevi: "@ + e.text()], code: e.code() }
        },
    }
}

/// How a command ends. What soft mode prints in place of a failure reads as JSON.
pub fn ending(soft: bool, done: Result<Report, Error>) -> (r: Report)
    ensures
        r@ == ending_of(
            soft,
            match done {
                Ok(d) => Ok(d@),
                Err(e) => Err(e@),
            },
        ),
        soft ==> (done matches Err(e) ==> {
            let doc = JsonView::Object(failure_of(e@.kind(), e@.text()));
            r@.out == json_text(doc) + "\n"@ && json_reading(json_text(doc)) == Ok::<JsonView, Seq<char>>(doc)
        }),
{
    match done {
        Ok(r) => r,
        Err(e) => if soft {
            proof {
                lemma_failure_is_sound(e@.kind(), e@.text());
                lemma_faithful_is_settled(JsonView::Object(failure_of(e@.kind(), e@.text())));
            }
            let doc = session::failure_document(e.kind(), e.to_string().as_str());
            let r = Report { out: text::cat(doc.to_text().as_str(), "\n"), err: Vec::new(), code: 0 };
            proof {
                assert(views(r.err@) =~= Seq::empty());
            }
            r
        } else {
            let mut err: Vec<String> = Vec::new();
            err.push(text::cat("jevi: ", e.to_string().as_str()));
            proof {
                assert(views(err@) =~= seq!["jevi: "@ + e@.text()]);
            }
            Report { out: "".to_owned(), err, code: e.code() }
        },
    }
}

/// The exit code where the command line itself could not be read. `--help` and `--version`
/// arrive here too, and they are a success.
pub fn usage_code(help_or_version: bool) -> (r: i32)
    ensures
        r == (if help_or_version {
            0i32
        } else {
            5i32
        }),
        r != 2,
{
    if help_or_version {
        0
    } else {
        5
    }
}

proof fn lemma_something_is_asked(a: AskView, env: EnvView, found: SetFilesView)
    ensures
        questions_of(a, env, found) matches Ok(p) ==> p.names.len() > 0 && p.decide.len() == p.names.len(),
{
    match (a.set, a.instructions) {
        (Some(name), None) => {
            if let Ok(set) = resolved(env, name, found) {
                if let Ok(s) = set_reading(set.0, set.1) {
                    lemma_parts_line_up(s.questions);
                }
            }
        },
        _ => {},
    }
}

/// What the doctor says of the file mode of the configuration: only the permission bits
/// count, and only the owner should have any.
pub open spec fn mode_line(mode: u32) -> Seq<char> {
    let bits = mode as nat % 512;
    "mode:      "@ + octal4_of(bits) + (if bits == 384 {
        ""@
    } else {
        "  (want 0600)"@
    }) + "\n"@
}

/// What the doctor says of some settings.
pub open spec fn diagnosis(cfg: ConfigView, p: Provider, mode: Option<u32>) -> Seq<char> {
    let file = "config:    "@ + path_of(cfg.env) + " ("@ + (if cfg.loaded {
        "found"@
    } else {
        "absent"@
    }) + ")\n"@;
    let mode = match mode {
        Some(m) => if cfg.loaded {
            mode_line(m)
        } else {
            ""@
        },
        None => ""@,
    };
    let key = "key:       "@ + (if cfg.key(p) is Some {
        "present"@
    } else {
        "MISSING"@
    }) + "\n"@;
    let disabled = if is_on(cfg.env.jevi_disable) {
        "JEVI_DISABLE is set: every `ask` will return no answer.\n"@
    } else {
        ""@
    };
    file + mode + ("provider:  "@ + p.spec_name() + "\n"@) + key + ("model:     "@ + cfg.model(p, None) + "\n"@) + (
    "url:       "@ + cfg.url(p) + "\n"@) + ("questions: "@ + questions_dir_of(cfg.env) + "\n"@) + disabled
}

fn mode_text(mode: u32) -> (r: String)
    ensures
        r@ == mode_line(mode),
{
    let bits: u32 = mode % 512;
    let advice = if bits == 384 {
        ""
    } else {
        "  (want 0600)"
    };
    text::cat4("mode:      ", text::octal4(bits).as_str(), advice, "\n")
}

/// Shows where the config, key and question sets are resolved from. `mode` is the file mode
/// of the configuration, if it could be had.
pub fn doctor(cfg: &Config, mode: Option<u32>) -> (r: Result<String, Error>)
    ensures
        match r {
            Ok(t) => cfg@.provider(None) matches Ok(p) && t@ == diagnosis(cfg@, p, mode),
            Err(e) => cfg@.provider(None) == Err::<Provider, ErrorView>(e@),
        },
{
    let p = match cfg.provider(None) {
        Ok(p) => p,
        Err(e) => return Err(e),
    };
    let env = cfg.environment();
    let loaded = cfg.is_loaded();
    let mut out = text::cat5(
        "config:    ",
        config::config_path(env).as_str(),
        " (",
        if loaded {
            "found"
        } else {
            "absent"
        },
        ")\n",
    );
    let shown_mode = match mode {
        Some(m) => if loaded {
            mode_text(m)
        } else {
            "".to_owned()
        },
        None => "".to_owned(),
    };
    out.append(shown_mode.as_str());
    out.append(text::cat3("provider:  ", p.name(), "\n").as_str());
    let key = if cfg.key_for(p).is_some() {
        "present"
    } else {
        "MISSING"
    };
    out.append(text::cat3("key:       ", key, "\n").as_str());
    out.append(text::cat3("model:     ", cfg.model(p, None).as_str(), "\n").as_str());
    out.append(text::cat3("url:       ", cfg.url(p).as_str(), "\n").as_str());
    out.append(text::cat3("questions: ", config::questions_dir(env).as_str(), "\n").as_str());
    let disabled = if switched_on(&env.jevi_disable) {
        "JEVI_DISABLE is set: every `ask` will return no answer.\n"
    } else {
        ""
    };
    out.append(disabled);
    Ok(out)
}

/// The one real request that the doctor can make.
pub struct Probe {
    pub prepared: Prepared,
    pub state: Json,
    pub request: Request,
}

/// The state of the doctor's request.
pub open spec fn probe_state() -> JsonView {
    JsonView::Text("The cat sat on the mat."@)
}

/// The question of the doctor's request.
pub open spec fn probe_question() -> Result<PreparedView, ErrorView> {
    shorthand_of("This text mentions a cat."@, None, None, None, None, None)
}

/// Overrides that override nothing.
pub open spec fn no_options() -> AskOptionsView {
    AskOptionsView { provider: None, model: None, timeout_ms: None, state_chars: None }
}

/// Makes the doctor's request.
pub fn probe(cfg: &Config, notes: &mut Notes) -> (r: Result<Probe, Error>)
    ensures
        match r {
            Ok(p) => probe_question() == Ok::<PreparedView, ErrorView>(p.prepared@) && p.state@ == probe_state()
                && request_of(cfg@, p.prepared@, p.state@, no_options(), false) == Ok::<RequestView, ErrorView>(
                p.request@,
            ),
            Err(e) => match probe_question() {
                Err(f) => f == e@,
                Ok(prepared) => request_of(cfg@, prepared, probe_state(), no_options(), false) == Err::<
                    RequestView,
                    ErrorView,
                >(e@),
            },
        },
        final(notes)@ == noted(old(notes)@, criteria_advice("answer"@)),
{
    let prepared = match session::shorthand("This text mentions a cat.", notes) {
        Ok(prepared) => prepared,
        Err(e) => return Err(e),
    };
    let state = Json::Text("The cat sat on the mat.".to_owned());
    match session::ask_request(cfg, &prepared, &state, &AskOptions::default()) {
        Ok(request) => Ok(Probe { prepared, state, request }),
        Err(e) => Err(e),
    }
}

/// What the doctor says of the answer to its request.
pub open spec fn live_line(answered: AnsweredView) -> Seq<char> {
    "live:      ok in "@ + decimal_of(answered.latency_ms as nat) + "ms, model "@ + (match answered.model {
        Some(m) => m,
        None => "?"@,
    }) + ", usage "@ + shown_json(answered.usage, "?"@) + "\n"@
}

/// Shows the answer to the doctor's request, given what the request brought and how long
/// that took.
pub fn probed(cfg: &Config, probe: &Probe, came: Result<Json, Error>, latency_ms: u128) -> (r: Result<String, Error>)
    ensures
        says(
            r,
            match asked_of(cfg@, probe.prepared@, probe.state@, no_options(), came_view(came), latency_ms) {
                Ok(answered) => Ok(live_line(answered)),
                Err(e) => Err(e),
            },
        ),
{
    match session::ask(cfg, &probe.prepared, &probe.state, &AskOptions::default(), came, latency_ms) {
        Ok(answered) => {
            let model = match &answered.model {
                Some(m) => m.as_str(),
                None => "?",
            };
            let start = text::cat4("live:      ok in ", text::long_decimal(latency_ms).as_str(), "ms, model ", model);
            Ok(text::cat4(start.as_str(), ", usage ", usage_text(&answered.usage, "?").as_str(), "\n"))
        },
        Err(e) => Err(e),
    }
}

/// The key that somebody entered, without the white space around it; there must be one.
pub open spec fn key_of(read: Result<Seq<char>, Seq<char>>) -> Result<Seq<char>, ErrorView> {
    match read {
        Err(m) => Err(invalid("stdin"@, m)),
        Ok(t) => if trimmed(t).len() == 0 {
            Err(invalid("stdin"@, "no key on stdin"@))
        } else {
            Ok(trimmed(t))
        },
    }
}

/// The key that somebody entered.
pub fn entered_key(read: &Result<String, String>) -> (r: Result<String, Error>)
    ensures
        says(r, key_of(read_view(*read))),
{
    match read {
        Err(m) => Err(Error::invalid("stdin", m.as_str())),
        Ok(t) => {
            let key = text::trim(t.as_str());
            if text::chars_of(key).len() == 0 {
                Err(Error::invalid("stdin", "no key on stdin"))
            } else {
                Ok(key.to_owned())
            }
        },
    }
}

/// What is said once a key is stored.
pub fn stored_line(p: Provider, path: &str) -> (r: String)
    ensures
        r@ == "stored "@ + p.spec_env_key() + " in "@ + path@ + "\n"@,
{
    text::cat5("stored ", p.env_key(), " in ", path, "\n")
}

/// A whole `ask`, given everything that was read and what the request brought.
pub open spec fn run_of(
    a: AskView,
    env: EnvView,
    file: Option<Seq<char>>,
    found: SetFilesView,
    state: StateFoundView,
    came: Result<JsonView, ErrorView>,
    latency_ms: u128,
) -> Result<ReportView, ErrorView> {
    match plan_of(a, env, file, found) {
        Err(e) => Err(e),
        Ok(plan) => match raw_state_of(state) {
            Err(e) => Err(e),
            Ok(raw) => match call_of(a, plan, raw) {
                Err(e) => Err(e),
                Ok(call) => report_of(a, plan, call, came, latency_ms),
            },
        },
    }
}

/// The one hard rule: whatever was read and whatever came back, a process never exits 2.
pub proof fn lemma_never_exits_2(
    a: AskView,
    env: EnvView,
    file: Option<Seq<char>>,
    found: SetFilesView,
    state: StateFoundView,
    came: Result<JsonView, ErrorView>,
    latency_ms: u128,
)
    ensures
        ending_of(a.soft, run_of(a, env, file, found, state, came, latency_ms)).code != 2,
{
}

/// Soft mode never fails: whatever goes wrong, the process exits 0, says nothing on stderr,
/// and what it prints is a document that says that something went wrong, and what.
pub proof fn lemma_soft_never_fails(
    a: AskView,
    env: EnvView,
    file: Option<Seq<char>>,
    found: SetFilesView,
    state: StateFoundView,
    came: Result<JsonView, ErrorView>,
    latency_ms: u128,
    n: NotesView,
)
    requires
        a.soft,
    ensures
        ending_of(true, run_of(a, env, file, found, state, came, latency_ms)).code != 4,
        ending_of(true, run_of(a, env, file, found, state, came, latency_ms)).code != 5,
        run_of(a, env, file, found, state, came, latency_ms) matches Err(e) ==> {
            let end = ending_of(true, Err(e));
            &&& end.code == 0
            &&& end.err.len() == 0
            &&& end.out == json_text(settled(JsonView::Object(failure_of(e.kind(), e.text())))) + "\n"@
            &&& lookup(failure_of(e.kind(), e.text()), "ok"@) == Some(JsonView::Bool(false))
        },
        plan_notes(n, a, env, file, found).said == n.said,
{
    if let Err(e) = run_of(a, env, file, found, state, came, latency_ms) {
        lemma_failure_says_so(e.kind(), e.text());
    }
    lemma_quiet(NotesView { quiet: true, ..n }, a, env, found);
}

proof fn lemma_quiet(n: NotesView, a: AskView, env: EnvView, found: SetFilesView)
    requires
        n.quiet,
    ensures
        questions_notes(n, a, env, found) == n,
{
    match (a.set, a.instructions) {
        (Some(name), None) => {
            if let Ok(set) = resolved(env, name, found) {
                if let Ok(s) = set_reading(set.0, set.1) {
                    lemma_quiet_advice(n, s.questions);
                }
            }
        },
        _ => {},
    }
}

/// The switch in the environment turns everything off: the caller is told that there is no
/// answer, and why, whatever the files hold, whatever was read and whatever a request would
/// bring.
pub proof fn lemma_disabled_means_no_answer(
    a: AskView,
    env: EnvView,
    file: Option<Seq<char>>,
    found: SetFilesView,
    state: StateFoundView,
    came: Result<JsonView, ErrorView>,
    latency_ms: u128,
)
    requires
        is_on(env.jevi_disable),
    ensures
        run_of(a, env, file, found, state, came, latency_ms) == Err::<ReportView, ErrorView>(
            no_answer("disabled"@, "JEVI_DISABLE is set"@),
        ),
{
}

/// A text of nothing but white space is refused before anything is sent: what a request
/// would bring does not matter.
pub proof fn lemma_blank_state_is_never_sent(a: AskView, plan: PlanView, raw: Seq<char>)
    requires
        forall|i: int| 0 <= i < raw.len() ==> is_white(#[trigger] raw[i]),
    ensures
        call_of(a, plan, raw) matches Err(e) && e.code() == 5,
{
    lemma_only_blank_text_is_refused(raw, a.state_json, cap_of(a.max_chars, plan.prepared.max_chars));
}

/// A cut is reported to the caller, not only to the model: where characters were dropped, the
/// document says how many and so does stderr, whatever else was asked for.
pub proof fn lemma_a_cut_is_reported(a: AskView, built: BuiltView, answered: AnsweredView)
    requires
        built.dropped > 0,
    ensures
        shown_aside(a, built, answered).len() > 0,
        shown_aside(a, built, answered)[0] == cut_notice(built.chars, built.dropped),
        marked_document(answered_document(answered), built) matches JsonView::Object(m) && lookup(m, "truncated"@)
            == Some(cut_entry(built.chars, built.dropped)),
{
    lemma_document_is_distinct(
        answered.names,
        answered.outcomes,
        answered.provider.spec_name(),
        answered.model,
        answered.usage,
        answered.latency_ms as u64,
    );
    lemma_with(
        answered_document(answered)->Object_0,
        "truncated"@,
        cut_entry(built.chars, built.dropped),
        "truncated"@,
    );
}

/// A text that was sent whole leaves no mark.
pub proof fn lemma_a_whole_text_leaves_no_mark(a: AskView, built: BuiltView, answered: AnsweredView)
    requires
        built.dropped == 0,
        !a.verbose,
    ensures
        shown_aside(a, built, answered).len() == 0,
        marked_document(answered_document(answered), built) == answered_document(answered),
{
}

/// Any uncertainty anywhere wins: the code is 3 exactly if some question is unsure, and then
/// and only then does it not describe the first question's yes or no.
pub proof fn lemma_unsure_wins(outcomes: Seq<OutcomeView>)
    requires
        outcomes.len() > 0,
    ensures
        exit_of(outcomes) == 3 <==> any_unsure(outcomes),
        !any_unsure(outcomes) ==> exit_of(outcomes) == outcomes[0].verdict.exit(),
{
    if !any_unsure(outcomes) {
        assert(outcomes[0].verdict != Verdict::Unsure);
    }
}

/// A cut of zero on the command line sends a text whole, whatever the question set says.
pub proof fn lemma_zero_sends_it_whole(a: AskView, plan: PlanView, raw: Seq<char>)
    requires
        a.max_chars == Some(0usize),
        !a.state_json,
    ensures
        call_of(a, plan, raw) matches Ok(c) ==> c.built.dropped == 0 && c.built.state == JsonView::Text(raw),
{
}

/// What is checked against the measured length is the length of what was sent of the text.
pub proof fn lemma_the_sent_length_counts(a: AskView, plan: PlanView, raw: Seq<char>)
    requires
        raw.len() <= usize::MAX,
    ensures
        call_of(a, plan, raw) matches Ok(c) ==> c.opts.state_chars matches Some(n) && n == c.built.chars,
{
}

}
