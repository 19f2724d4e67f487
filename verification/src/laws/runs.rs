//! What a question that is typed at a terminal comes to, from the command line to the exit code.

use vstd::prelude::*;

use crate::cli::AskView;
use crate::command::{call_of, plan_of, report_of, CallView, PlanView};
use crate::config::{EnvView, SetFilesView};
use crate::error::ErrorView;
use crate::json::{field, lookup, JsonView};
use crate::laws::asking::{given_or, lemma_a_given_cut_is_the_cut};
use crate::laws::calls::{
    lemma_each_answer_meets_its_cuts, lemma_what_a_call_carries, lemma_what_is_planned, lemma_which_questions_are_asked,
};
use crate::laws::judging::{
    lemma_a_choice_is_judged_by_its_confidence, lemma_a_noul_is_judged_by_its_cuts, typed,
};
use crate::laws::showing::{
    lemma_a_label_is_shown, lemma_a_report_is_about_the_reply, lemma_a_verdict_is_shown, lemma_lines_or_a_document,
    lemma_the_code_tells,
};
use crate::number::{fixed_of, le, NumberView};
use crate::output::lines;
use crate::session::asked_of;

verus! {

/// A question on the command line that was planned, put about a text, and answered.
pub open spec fn typed_and_answered(
    a: AskView,
    env: EnvView,
    file: Option<Seq<char>>,
    found: SetFilesView,
    raw: Seq<char>,
    plan: PlanView,
    call: CallView,
    body: JsonView,
    answer: JsonView,
) -> bool {
    &&& !a.raw
    &&& a.set is None
    &&& plan_of(a, env, file, found) == Ok::<PlanView, ErrorView>(plan)
    &&& call_of(a, plan, raw) == Ok::<CallView, ErrorView>(call)
    &&& field(body, "answers"@) matches Some(JsonView::Object(answers))
    &&& lookup(answers, "answer"@) == Some(answer)
}

/// A yes/no question that is typed exits 0 if its probability is at least the cut for yes that
/// was typed with it, or 0.9 where none was; else 1 if it is at most the cut for no, or 0.1; and
/// else 3. It prints the verdict and the probability on one line, without a name.
pub proof fn lemma_a_typed_question_exits_by_its_cuts(
    a: AskView,
    env: EnvView,
    file: Option<Seq<char>>,
    found: SetFilesView,
    raw: Seq<char>,
    plan: PlanView,
    call: CallView,
    body: JsonView,
    answer: JsonView,
    n: NumberView,
    latency_ms: u128,
)
    requires
        typed_and_answered(a, env, file, found, raw, plan, call, body, answer),
        typed(answer, "noul"@),
        field(answer, "noul"@) == Some(JsonView::Number(n)),
    ensures
        ({
            let yes = le(given_or(a.yes_at, 0x3fec_cccc_cccc_cccd), n.real.bits);
            let no = le(n.real.bits, given_or(a.no_at, 0x3fb9_9999_9999_999a));
            report_of(a, plan, call, Ok(body), latency_ms) matches Ok(r) && {
                &&& r.code == (if yes {
                    0i32
                } else if no {
                    1i32
                } else {
                    3i32
                })
                &&& !a.json ==> r.out == (if yes {
                    "yes"@
                } else if no {
                    "no"@
                } else {
                    "unsure"@
                }) + "\t"@ + fixed_of(n.real.bits) + "\n"@
            }
        }),
{
    let answers = field(body, "answers"@)->0->Object_0;
    lemma_what_is_planned(a, env, file, found);
    lemma_which_questions_are_asked(a, env, found);
    lemma_a_given_cut_is_the_cut(
        a.instructions->0,
        a.options,
        a.levels,
        a.yes_at,
        a.no_at,
        a.min_confidence,
    );
    lemma_what_a_call_carries(a, plan, raw);
    lemma_each_answer_meets_its_cuts(
        plan.cfg,
        plan.prepared,
        call.built.state,
        call.opts,
        body,
        latency_ms,
        answers,
        0,
    );
    lemma_a_report_is_about_the_reply(a, plan, call, body, latency_ms);
    let answered = asked_of(plan.cfg, plan.prepared, call.built.state, call.opts, Ok(body), latency_ms)->Ok_0;
    let o = answered.outcomes[0];
    let model = match field(body, "model"@) {
        Some(JsonView::Text(m)) => Some(m),
        _ => None,
    };
    let p = crate::decide::ProvenanceView { model_used: model, state_chars: call.opts.state_chars->0 };
    lemma_a_noul_is_judged_by_its_cuts(None, answer, plan.prepared.decide[0], p, n);
    lemma_the_code_tells(answered.outcomes);
    lemma_a_verdict_is_shown(answered.names[0], o, true);
    lemma_lines_or_a_document(a, plan.single, call.built, answered);
    reveal_with_fuel(lines, 2);
    let l = crate::output::line(answered.names[0], o, true);
    assert(lines(answered.names, answered.outcomes, true, 1) =~= l);
    if !a.json {
        let word = o.verdict.word();
        assert(l =~= word + "\t"@ + fixed_of(n.real.bits) + "\n"@);
    }
}

/// A choice that is typed exits 0 if its confidence is at least the minimum that was typed with
/// it, or 0.9 where none was, and else 3; never 1. It prints the option that was chosen, with
/// its confidence, and a mark where it is not to be relied on.
pub proof fn lemma_a_typed_choice_prints_its_option(
    a: AskView,
    env: EnvView,
    file: Option<Seq<char>>,
    found: SetFilesView,
    raw: Seq<char>,
    plan: PlanView,
    call: CallView,
    body: JsonView,
    answer: JsonView,
    label: Seq<char>,
    c: NumberView,
    latency_ms: u128,
)
    requires
        typed_and_answered(a, env, file, found, raw, plan, call, body, answer),
        typed(answer, "choice"@),
        field(answer, "choice"@) == Some(JsonView::Text(label)),
        field(answer, "confidence"@) == Some(JsonView::Number(c)),
    ensures
        ({
            let sure = le(given_or(a.min_confidence, 0x3fec_cccc_cccc_cccd), c.real.bits);
            report_of(a, plan, call, Ok(body), latency_ms) matches Ok(r) && {
                &&& r.code == (if sure {
                    0i32
                } else {
                    3i32
                })
                &&& !a.json ==> r.out == label + "\t"@ + fixed_of(c.real.bits) + (if sure {
                    "\n"@
                } else {
                    "\t!unsure"@ + "\n"@
                })
            }
        }),
{
    let answers = field(body, "answers"@)->0->Object_0;
    lemma_what_is_planned(a, env, file, found);
    lemma_which_questions_are_asked(a, env, found);
    lemma_a_given_cut_is_the_cut(
        a.instructions->0,
        a.options,
        a.levels,
        a.yes_at,
        a.no_at,
        a.min_confidence,
    );
    lemma_what_a_call_carries(a, plan, raw);
    lemma_each_answer_meets_its_cuts(
        plan.cfg,
        plan.prepared,
        call.built.state,
        call.opts,
        body,
        latency_ms,
        answers,
        0,
    );
    lemma_a_report_is_about_the_reply(a, plan, call, body, latency_ms);
    let answered = asked_of(plan.cfg, plan.prepared, call.built.state, call.opts, Ok(body), latency_ms)->Ok_0;
    let o = answered.outcomes[0];
    let model = match field(body, "model"@) {
        Some(JsonView::Text(m)) => Some(m),
        _ => None,
    };
    let p = crate::decide::ProvenanceView { model_used: model, state_chars: call.opts.state_chars->0 };
    lemma_a_choice_is_judged_by_its_confidence(None, answer, plan.prepared.decide[0], p, label, c);
    lemma_the_code_tells(answered.outcomes);
    lemma_a_label_is_shown(answered.names[0], o, true, label);
    lemma_lines_or_a_document(a, plan.single, call.built, answered);
    reveal_with_fuel(lines, 2);
    let l = crate::output::line(answered.names[0], o, true);
    assert(lines(answered.names, answered.outcomes, true, 1) =~= l);
    if !a.json {
        let tail = if o.verdict == crate::decide::Verdict::Unsure {
            "\t!unsure"@ + "\n"@
        } else {
            "\n"@
        };
        assert(l =~= label + "\t"@ + fixed_of(c.real.bits) + tail);
    }
}

}
