//! What a caller is shown, and the code that a process exits with.

use vstd::prelude::*;

use crate::cli::AskView;
use crate::codec::{json_text, real_value, settled, whole_reading};
use crate::command::{
    cap_of, ending_of, exit_of, report_of, shown_answers, shown_aside, shown_document, stored_line, usage_code, CallView,
    PlanView, ReportView,
};
use crate::decide::{OutcomeView, Source, Verdict};
use crate::error::{Error, ErrorView};
use crate::http::Post;
use crate::json::{field, lemma_with, lookup, JsonView};
use crate::laws::judging::begins_with;
use crate::number::{fixed_of, RealView};
use crate::output::{
    answers, document_of, entry, failure_of, lemma_document_is_distinct, lemma_document_keys, lemma_each_answer_under_its_name,
    lemma_entry_keys, lemma_failure_says_so, lemma_lookup_maybe, line, lines, paired,
};
use crate::provider::Provider;
use crate::session::{answered_document, AnsweredView};
use crate::state::BuiltView;
use crate::text::decimal_of;

verus! {

/// What a line begins with: the name of the question and a tab, or nothing where one question
/// was asked.
pub open spec fn opening(name: Seq<char>, single: bool) -> Seq<char> {
    if single {
        Seq::empty()
    } else {
        name + "\t"@
    }
}

/// What a line ends with: why its verdict was forced, or that a label is not to be relied on.
pub open spec fn closing(o: OutcomeView) -> Seq<char> {
    if o.warning is Some {
        "\t!"@ + o.warning->0 + "\n"@
    } else if o.label is Some && o.verdict == Verdict::Unsure {
        "\t!unsure"@ + "\n"@
    } else {
        "\n"@
    }
}

/// The number that stands beside a label is its confidence; beside a verdict, the probability.
pub open spec fn figure(o: OutcomeView) -> Option<RealView> {
    if o.label is Some {
        o.confidence
    } else {
        o.number
    }
}

proof fn lemma_one_line(name: Seq<char>, o: OutcomeView, single: bool, word: Seq<char>)
    requires
        o.label is Some ==> word == o.label->0,
        o.label is None ==> word == o.verdict.word(),
    ensures
        figure(o) is Some ==> line(name, o, single) == opening(name, single) + word + "\t"@ + fixed_of(figure(o)->0.bits)
            + closing(o),
        figure(o) is None ==> line(name, o, single) == opening(name, single) + word + closing(o),
{
    reveal_strlit("");
    let l = line(name, o, single);
    match figure(o) {
        Some(x) => {
            assert(l =~= opening(name, single) + word + "\t"@ + fixed_of(x.bits) + closing(o));
        },
        None => {
            assert(l =~= opening(name, single) + word + closing(o));
        },
    }
}

/// An outcome that has a label shows that label, right behind the name where the name is shown,
/// and behind it a tab and the confidence with two decimals where there is one. Whether it also
/// has a number makes no difference.
pub proof fn lemma_a_label_is_shown(name: Seq<char>, o: OutcomeView, single: bool, label: Seq<char>)
    requires
        o.label == Some(label),
    ensures
        o.confidence matches Some(c) ==> line(name, o, single) == opening(name, single) + label + "\t"@ + fixed_of(c.bits)
            + closing(o),
        o.confidence is None ==> line(name, o, single) == opening(name, single) + label + closing(o),
        begins_with(line(name, o, single), opening(name, single) + label),
        forall|x: Option<RealView>| line(name, o, single) == #[trigger] line(name, OutcomeView { number: x, ..o }, single),
{
    lemma_one_line(name, o, single, label);
    let head = opening(name, single) + label;
    assert forall|i: int| 0 <= i < head.len() implies #[trigger] line(name, o, single)[i] == head[i] by {
    }
    assert forall|x: Option<RealView>| line(name, o, single) == #[trigger] line(
        name,
        OutcomeView { number: x, ..o },
        single,
    ) by {
        lemma_one_line(name, OutcomeView { number: x, ..o }, single, label);
    }
}

/// An outcome without a label shows the word for its verdict, and behind it a tab and the number
/// with two decimals where there is one.
pub proof fn lemma_a_verdict_is_shown(name: Seq<char>, o: OutcomeView, single: bool)
    requires
        o.label is None,
    ensures
        ({
            let word = match o.verdict {
                Verdict::Yes => "yes"@,
                Verdict::No => "no"@,
                Verdict::Unsure => "unsure"@,
            };
            &&& o.number matches Some(n) ==> line(name, o, single) == opening(name, single) + word + "\t"@ + fixed_of(
                n.bits,
            ) + closing(o)
            &&& o.number is None ==> line(name, o, single) == opening(name, single) + word + closing(o)
        }),
{
    lemma_one_line(name, o, single, o.verdict.word());
}

/// There is one line for each question that has an outcome, in the order of the questions: what
/// is shown of the first few is where the line of the next one starts.
pub proof fn lemma_a_line_for_each(names: Seq<Seq<char>>, outcomes: Seq<OutcomeView>, single: bool, n: nat, i: int)
    requires
        0 <= i < n,
    ensures
        lines(names, outcomes, single, 0) == Seq::<char>::empty(),
        begins_with(
            lines(names, outcomes, single, n),
            lines(names, outcomes, single, i as nat) + line(names[i], outcomes[i], single),
        ),
        lines(names, outcomes, single, (i + 1) as nat) == lines(names, outcomes, single, i as nat) + line(
            names[i],
            outcomes[i],
            single,
        ),
    decreases n,
{
    if i < n - 1 {
        lemma_a_line_for_each(names, outcomes, single, (n - 1) as nat, i);
    }
}

/// Without `--json`, stdout is the lines, one for each question that has an outcome; with it, it
/// is one document on one line.
pub proof fn lemma_lines_or_a_document(a: AskView, single: bool, built: BuiltView, answered: AnsweredView)
    requires
        answered.names.len() == answered.outcomes.len(),
    ensures
        !a.json ==> shown_answers(a, single, built, answered) == lines(
            answered.names,
            answered.outcomes,
            single,
            answered.names.len(),
        ),
        a.json ==> shown_answers(a, single, built, answered) == json_text(settled(shown_document(built, answered))) + "\n"@,
{
}

/// The JSON string for a text that may be there.
pub open spec fn quoted(s: Option<Seq<char>>) -> Option<JsonView> {
    match s {
        Some(s) => Some(JsonView::Text(s)),
        None => None,
    }
}

/// A JSON value is a double, or null where the double is infinite or no number.
pub open spec fn holds(j: JsonView, x: RealView) -> bool {
    if x.bits % 0x8000_0000_0000_0000 < 0x7ff0_0000_0000_0000 {
        j matches JsonView::Number(n) && n.real == x && n.text == x.text
    } else {
        j is Null
    }
}

/// What may be there holds a double that may be there.
pub open spec fn holds_too(j: Option<JsonView>, x: Option<RealView>) -> bool {
    match x {
        Some(x) => j matches Some(v) && holds(v, x),
        None => j is None,
    }
}

proof fn lemma_holds(x: RealView)
    ensures
        holds(real_value(x), x),
{
    let bits = x.bits;
    assert(bits >= 0x8000_0000_0000_0000u64 ==> bits % 0x8000_0000_0000_0000u64 == bits - 0x8000_0000_0000_0000u64)
        by (nonlinear_arith)
        requires
            bits <= u64::MAX,
    ;
}

/// What the document says of a question is what its outcome says, each under its own key: the
/// type, the verdict in a word, and the label, the number, the confidence and the warning as far
/// as there are any. A score stands under `score`, any other number under `p`.
pub proof fn lemma_an_entry_says_what_came_out(o: OutcomeView)
    ensures
        lookup(entry(o), "type"@) == Some(JsonView::Text(o.kind)),
        lookup(entry(o), "verdict"@) == Some(
            JsonView::Text(
                match o.verdict {
                    Verdict::Yes => "yes"@,
                    Verdict::No => "no"@,
                    Verdict::Unsure => "unsure"@,
                },
            ),
        ),
        lookup(entry(o), "label"@) == quoted(o.label),
        lookup(entry(o), "warning"@) == quoted(o.warning),
        holds_too(lookup(entry(o), "confidence"@), o.confidence),
        o.kind == "score"@ ==> holds_too(lookup(entry(o), "score"@), o.number) && lookup(entry(o), "p"@) is None,
        o.kind != "score"@ ==> holds_too(lookup(entry(o), "p"@), o.number) && lookup(entry(o), "score"@) is None,
        lookup(entry(o), "thresholds"@) == Some(
            JsonView::Text(
                match o.thresholds.source {
                    Source::Default => "default"@,
                    Source::Custom => "custom"@,
                    Source::Validated => "validated"@,
                },
            ),
        ),
{
    broadcast use lemma_lookup_maybe;

    lemma_entry_keys();
    reveal_strlit("score");
    reveal_strlit("p");
    assert("score"@.len() == 5 && "p"@.len() == 1);
    let a = crate::output::number_key("score"@);
    let b = crate::output::number_key(o.kind);
    assert(a == "score"@);
    reveal_strlit("noul");
    assert("noul"@.len() == 4);
    assert(crate::output::number_key("noul"@) == "p"@);
    if let Some(x) = o.number {
        lemma_holds(x);
    }
    if let Some(x) = o.confidence {
        lemma_holds(x);
    }
}

/// The cuts that could have decided a verdict are given where somebody moved one: both cuts for
/// a yes/no question, the minimum for anything else, and none otherwise.
pub proof fn lemma_moved_cuts_are_given(o: OutcomeView)
    ensures
        lookup(entry(o), "cuts"@) is Some <==> o.thresholds.source != Source::Default,
        lookup(entry(o), "cuts"@) matches Some(c) ==> (if o.kind == "noul"@ {
            &&& holds_too(field(c, "yes"@), Some(o.thresholds.yes))
            &&& holds_too(field(c, "no"@), Some(o.thresholds.no))
            &&& field(c, "min_confidence"@) is None
        } else {
            &&& holds_too(field(c, "min_confidence"@), Some(o.thresholds.min_confidence))
            &&& field(c, "yes"@) is None
            &&& field(c, "no"@) is None
        }),
{
    crate::output::lemma_cuts_are_disclosed(o);
    lemma_holds(o.thresholds.yes);
    lemma_holds(o.thresholds.no);
    lemma_holds(o.thresholds.min_confidence);
}

/// The document says that there are answers, who gave them, which model, how long it took, what
/// it cost, and under the name of each question what came of it.
pub proof fn lemma_a_document_says_what_came_back(a: AnsweredView, i: int)
    requires
        a.names.len() == a.outcomes.len(),
        a.names.no_duplicates(),
        0 <= i < a.names.len(),
    ensures
        ({
            let doc = answered_document(a);
            &&& field(doc, "ok"@) == Some(JsonView::Bool(true))
            &&& field(doc, "provider"@) == Some(JsonView::Text(a.provider.spec_name()))
            &&& field(doc, "model"@) == quoted(a.model)
            &&& field(doc, "latency_ms"@) == Some(JsonView::Number(whole_reading(a.latency_ms as u64)))
            &&& field(doc, "usage"@) == a.usage
            &&& field(doc, "answers"@) matches Some(rows)
            &&& field(rows, a.names[i]) == Some(JsonView::Object(entry(a.outcomes[i])))
        }),
{
    broadcast use lemma_lookup_maybe;

    lemma_document_keys();
    lemma_each_answer_under_its_name(a.names, a.outcomes, a.names.len(), i);
    assert(paired(a.names, a.outcomes) == a.names.len());
}

/// The document of a text that was cut is the document with one entry more, which says how many
/// characters were kept and how many were dropped; that of a whole text has no such entry.
pub proof fn lemma_a_cut_adds_one_entry(built: BuiltView, a: AnsweredView, key: Seq<char>)
    ensures
        key != "truncated"@ ==> field(shown_document(built, a), key) == field(answered_document(a), key),
        built.dropped > 0 ==> (field(shown_document(built, a), "truncated"@) matches Some(t) && field(t, "kept_chars"@)
            == Some(JsonView::Number(whole_reading(built.chars as u64))) && field(t, "dropped_chars"@) == Some(
            JsonView::Number(whole_reading(built.dropped as u64)),
        )),
        built.dropped == 0 ==> field(shown_document(built, a), "truncated"@) is None,
{
    broadcast use {lemma_lookup_maybe, crate::json::lemma_lookup_push};

    let m = answered_document(a)->Object_0;
    lemma_document_is_distinct(a.names, a.outcomes, a.provider.spec_name(), a.model, a.usage, a.latency_ms as u64);
    let cut = crate::command::cut_entry(built.chars, built.dropped);
    lemma_with(m, "truncated"@, cut, key);
    lemma_with(m, "truncated"@, cut, "truncated"@);
    reveal_strlit("truncated");
    reveal_strlit("ok");
    reveal_strlit("provider");
    reveal_strlit("model");
    reveal_strlit("latency_ms");
    reveal_strlit("usage");
    reveal_strlit("answers");
    reveal_strlit("kept_chars");
    reveal_strlit("dropped_chars");
    assert("truncated"@.len() == 9 && "ok"@.len() == 2 && "provider"@.len() == 8 && "model"@.len() == 5
        && "latency_ms"@.len() == 10 && "usage"@.len() == 5 && "answers"@.len() == 7 && "kept_chars"@.len() == 10
        && "dropped_chars"@.len() == 13);
    let none = Seq::<(Seq<char>, JsonView)>::empty();
    assert(cut->Object_0 =~= none.push(("kept_chars"@, JsonView::Number(whole_reading(built.chars as u64)))).push(
        ("dropped_chars"@, JsonView::Number(whole_reading(built.dropped as u64))),
    ));
}

/// On stderr stands that a text was cut, if it was, with both counts, and then the time it took
/// and what it cost, if they were asked for; nothing else.
pub proof fn lemma_what_is_said_aside(a: AskView, built: BuiltView, answered: AnsweredView)
    ensures
        ({
            let aside = shown_aside(a, built, answered);
            let cut = if built.dropped > 0 {
                1int
            } else {
                0int
            };
            &&& aside.len() == cut + (if a.verbose {
                1int
            } else {
                0int
            })
            &&& built.dropped > 0 ==> begins_with(
                aside[0],
                "jevi: the state was cut to "@ + decimal_of(built.chars) + " characters and "@ + decimal_of(built.dropped),
            )
            &&& a.verbose ==> aside[cut] == "jevi: "@ + decimal_of(answered.latency_ms as nat) + "ms "@ + (
            match answered.usage {
                Some(u) => json_text(settled(u)),
                None => Seq::empty(),
            })
        }),
{
    reveal_strlit("");
    if built.dropped > 0 {
        let head = "jevi: the state was cut to "@ + decimal_of(built.chars) + " characters and "@ + decimal_of(
            built.dropped,
        );
        let said = shown_aside(a, built, answered)[0];
        assert forall|i: int| 0 <= i < head.len() implies #[trigger] said[i] == head[i] by {
            assert(said.take(head.len() as int) =~= head);
            assert(said.take(head.len() as int)[i] == said[i]);
        }
    }
    if a.verbose && answered.usage is None {
        let cut: int = if built.dropped > 0 {
            1
        } else {
            0
        };
        assert(shown_aside(a, built, answered)[cut] =~= "jevi: "@ + decimal_of(answered.latency_ms as nat) + "ms "@
            + Seq::<char>::empty());
    }
}

/// The exit code is 3 if any question is unsure, wherever it stands; else it is 0 or 1 as the
/// first question is a yes or a no.
pub proof fn lemma_the_code_tells(outcomes: Seq<OutcomeView>)
    requires
        outcomes.len() > 0,
    ensures
        exit_of(outcomes) == 3 <==> exists|i: int|
            0 <= i < outcomes.len() && (#[trigger] outcomes[i]).verdict == Verdict::Unsure,
        exit_of(outcomes) == 0 <==> outcomes[0].verdict == Verdict::Yes && forall|i: int|
            0 <= i < outcomes.len() ==> (#[trigger] outcomes[i]).verdict != Verdict::Unsure,
        exit_of(outcomes) == 1 <==> outcomes[0].verdict == Verdict::No && forall|i: int|
            0 <= i < outcomes.len() ==> (#[trigger] outcomes[i]).verdict != Verdict::Unsure,
{
    assert(outcomes[0].verdict == Verdict::Yes || outcomes[0].verdict == Verdict::No || outcomes[0].verdict
        == Verdict::Unsure);
}

/// A call that was answered reports its answers and exits by them; with `--raw` it prints the
/// reply as it came and exits 0.
pub proof fn lemma_a_report_is_about_the_reply(
    a: AskView,
    plan: PlanView,
    call: CallView,
    body: JsonView,
    latency_ms: u128,
)
    ensures
        a.raw ==> (report_of(a, plan, call, Ok(body), latency_ms) matches Ok(r) ==> r.out == json_text(settled(body))
            + "\n"@ && r.code == 0 && r.err.len() == 0),
        !a.raw ==> match crate::session::asked_of(
            plan.cfg,
            plan.prepared,
            call.built.state,
            call.opts,
            Ok(body),
            latency_ms,
        ) {
            Ok(answered) => report_of(a, plan, call, Ok(body), latency_ms) matches Ok(r) && r.code == exit_of(
                answered.outcomes,
            ) && r.out == shown_answers(a, plan.single, call.built, answered) && r.err == shown_aside(
                a,
                call.built,
                answered,
            ),
            Err(e) => report_of(a, plan, call, Ok(body), latency_ms) == Err::<ReportView, ErrorView>(e),
        },
{
}

/// A request that brought nothing is a call that failed, for that very reason, unless it could
/// not even be made.
pub proof fn lemma_a_failed_request_fails_the_call(
    a: AskView,
    plan: PlanView,
    call: CallView,
    e: ErrorView,
    latency_ms: u128,
)
    requires
        crate::session::request_of(plan.cfg, plan.prepared, call.built.state, call.opts, a.raw) is Ok,
    ensures
        report_of(a, plan, call, Err(e), latency_ms) == Err::<ReportView, ErrorView>(e),
{
}

/// A success ends as it was reported, soft or not. A failure prints nothing to stdout, says what
/// it is on stderr and exits 4 where there was no answer and 5 where the input was wrong; in soft
/// mode it exits 0 and says nothing on stderr.
pub proof fn lemma_how_a_command_ends(soft: bool, done: Result<ReportView, ErrorView>)
    ensures
        match done {
            Ok(r) => ending_of(soft, done) == r,
            Err(e) => if soft {
                ending_of(soft, done).code == 0 && ending_of(soft, done).err.len() == 0
            } else {
                &&& ending_of(soft, done).out.len() == 0
                &&& ending_of(soft, done).err.len() == 1
                &&& ending_of(soft, done).err[0] == (match e {
                    ErrorView::NoAnswer { kind, message } => "jevi: "@ + ("no answer ("@ + kind + ": "@ + message + ")"@),
                    ErrorView::Invalid { kind, message } => "jevi: "@ + ("invalid input ("@ + kind + ": "@ + message
                        + ")"@),
                })
                &&& ending_of(soft, done).code == (if e is NoAnswer {
                    4i32
                } else {
                    5i32
                })
            },
        },
{
    reveal_strlit("");
}

/// How much of a text is sent: what the command line says, else what the question set says, else
/// the usual 80000 characters.
pub proof fn lemma_who_says_how_much(flag: usize, set: usize)
    ensures
        cap_of(Some(flag), Some(set)) == flag,
        cap_of(Some(flag), None) == flag,
        cap_of(None, Some(set)) == set,
        cap_of(None, None) == 80000,
{
}

/// The document says that there are answers, and under each of its keys what it was given: who
/// answered, which model, how long it took and what it cost.
pub proof fn lemma_a_document_says_what_it_was_given(
    names: Seq<Seq<char>>,
    outcomes: Seq<OutcomeView>,
    provider: Seq<char>,
    model: Option<Seq<char>>,
    usage: Option<JsonView>,
    latency_ms: u64,
)
    ensures
        ({
            let m = document_of(names, outcomes, provider, model, usage, latency_ms);
            &&& lookup(m, "ok"@) == Some(JsonView::Bool(true))
            &&& lookup(m, "provider"@) == Some(JsonView::Text(provider))
            &&& lookup(m, "model"@) == quoted(model)
            &&& lookup(m, "latency_ms"@) == Some(JsonView::Number(whole_reading(latency_ms)))
            &&& lookup(m, "usage"@) == usage
            &&& lookup(m, "answers"@) is Some
        }),
{
    broadcast use lemma_lookup_maybe;

    lemma_document_keys();
}

/// What soft mode prints in place of a failure says that there is no answer, and gives the kind
/// of the failure and its text.
pub proof fn lemma_what_soft_mode_prints(e: ErrorView)
    ensures
        exists|doc: JsonView|
            {
                &&& ending_of(true, Err(e)).out == #[trigger] json_text(settled(doc)) + "\n"@
                &&& field(doc, "ok"@) == Some(JsonView::Bool(false))
                &&& field(doc, "error"@) matches Some(error)
                &&& field(error, "kind"@) == Some(JsonView::Text(e.kind()))
                &&& field(error, "message"@) == Some(JsonView::Text(e.text()))
            },
{
    lemma_failure_says_so(e.kind(), e.text());
    let doc = JsonView::Object(failure_of(e.kind(), e.text()));
    assert(ending_of(true, Err(e)).out == json_text(settled(doc)) + "\n"@);
}

/// A command line that cannot be read exits 5, and never 2; help and version are a success.
pub proof fn lemma_how_a_bad_command_line_ends(help_or_version: bool, code: i32)
    requires
        call_ensures(usage_code, (help_or_version,), code),
    ensures
        help_or_version ==> code == 0,
        !help_or_version ==> code == 5,
{
}

/// Once a key is stored, the variable that it stands in for is named, and the file that it is in.
pub proof fn lemma_what_is_said_of_a_stored_key(p: Provider, path: &str, said: String)
    requires
        call_ensures(stored_line, (p, path), said),
    ensures
        said@ == "stored "@ + p.spec_env_key() + " in "@ + path@ + "\n"@,
{
}

/// A call may send a request exactly while there is time left; else it has run out of time.
pub proof fn lemma_when_a_request_may_be_sent(post: &Post, left: u128, may: Result<(), Error>)
    requires
        call_ensures(Post::ready, (post, left), may),
    ensures
        may is Ok <==> left > 0,
        may matches Err(e) ==> (e@ matches ErrorView::NoAnswer { kind, message } && kind == "timeout"@ && message
            == "no reply within "@ + decimal_of(post.timeout_ms as nat) + "ms"@),
{
}

/// The document holds the answers in the order of the questions, where their names are all
/// different.
pub proof fn lemma_answers_keep_their_order(names: Seq<Seq<char>>, outcomes: Seq<OutcomeView>, n: nat, i: int)
    requires
        n <= names.len(),
        n <= outcomes.len(),
        names.no_duplicates(),
        0 <= i < n,
    ensures
        answers(names, outcomes, n).len() == n,
        answers(names, outcomes, n)[i] == (names[i], JsonView::Object(entry(outcomes[i]))),
    decreases n,
{
    let before = answers(names, outcomes, (n - 1) as nat);
    if n > 1 {
        lemma_answers_keep_their_order(names, outcomes, (n - 1) as nat, 0);
        assert forall|k: int| 0 <= k < before.len() implies (#[trigger] before[k]).0 != names[n - 1] by {
            lemma_answers_keep_their_order(names, outcomes, (n - 1) as nat, k);
            assert(names[k] != names[n - 1]);
        }
    }
    crate::json::lemma_lookup(before, names[n - 1]);
    if i < n - 1 {
        lemma_answers_keep_their_order(names, outcomes, (n - 1) as nat, i);
    }
}

}
