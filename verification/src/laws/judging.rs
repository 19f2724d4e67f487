//! What an answer comes to.

use vstd::prelude::*;

use crate::decide::{broken_condition, other_model, outcome_of, outcome_under, ProvenanceView, Source, Verdict};
use crate::json::{field, JsonView};
use crate::number::{le, level_of, lt, NumberView};
use crate::questions::DecideView;

verus! {

/// A text starts as another goes on to its end.
pub open spec fn begins_with(text: Seq<char>, start: Seq<char>) -> bool {
    start.len() <= text.len() && forall|i: int| 0 <= i < start.len() ==> #[trigger] text[i] == start[i]
}

/// The model that answered is not the one that is meant: the two ids differ within the length
/// of the one that is meant, or the other is shorter. An answer that names no model is not
/// held against it.
pub open spec fn another(meant: Option<Seq<char>>, answered: Option<Seq<char>>) -> bool {
    match (meant, answered) {
        (Some(m), Some(a)) => !begins_with(a, m),
        _ => false,
    }
}

/// The cuts of a question were measured on the model that a call was answered by, at least at
/// its length, and its set pins no other model.
pub open spec fn as_measured(pinned: Option<Seq<char>>, d: DecideView, p: ProvenanceView) -> bool {
    &&& !another(pinned, p.model_used)
    &&& d.validated matches Some(v) ==> !another(v.model, p.model_used) && (v.max_chars matches Some(max)
        ==> p.state_chars <= max)
}

/// An answer of some type.
pub open spec fn typed(answer: JsonView, kind: Seq<char>) -> bool {
    field(answer, "type"@) == Some(JsonView::Text(kind))
}

proof fn lemma_begins(text: Seq<char>, start: Seq<char>)
    ensures
        begins_with(text, start) == start.is_prefix_of(text),
{
    if begins_with(text, start) {
        assert(text.subrange(0, start.len() as int) =~= start);
    }
    if start.is_prefix_of(text) {
        assert forall|i: int| 0 <= i < start.len() implies #[trigger] text[i] == start[i] by {
            assert(text.subrange(0, start.len() as int)[i] == text[i]);
        }
    }
}

proof fn lemma_begins_all(pinned: Option<Seq<char>>, d: DecideView, p: ProvenanceView)
    ensures
        pinned is Some && p.model_used is Some ==> begins_with(p.model_used->0, pinned->0) == (pinned->0).is_prefix_of(
            p.model_used->0,
        ),
        d.validated is Some && d.validated->0.model is Some && p.model_used is Some ==> begins_with(
            p.model_used->0,
            d.validated->0.model->0,
        ) == (d.validated->0.model->0).is_prefix_of(p.model_used->0),
{
    if pinned is Some && p.model_used is Some {
        lemma_begins(p.model_used->0, pinned->0);
    }
    if d.validated is Some && d.validated->0.model is Some && p.model_used is Some {
        lemma_begins(p.model_used->0, d.validated->0.model->0);
    }
}

proof fn lemma_kinds()
    ensures
        "noul"@ != "choice"@,
        "noul"@ != "score"@,
        "choice"@ != "score"@,
        "unknown"@ != "noul"@ && "unknown"@ != "choice"@ && "unknown"@ != "score"@,
{
    reveal_strlit("noul");
    reveal_strlit("choice");
    reveal_strlit("score");
    reveal_strlit("unknown");
    assert("noul"@.len() == 4 && "choice"@.len() == 6 && "score"@.len() == 5 && "unknown"@.len() == 7);
}

/// Every verdict has its own word and its own exit code: yes is 0, no is 1, unsure is 3.
pub proof fn lemma_verdicts_are_told_apart(v: Verdict)
    ensures
        v.exit() == 0 <==> v == Verdict::Yes,
        v.exit() == 1 <==> v == Verdict::No,
        v.exit() == 3 <==> v == Verdict::Unsure,
        v.word() == "yes"@ <==> v == Verdict::Yes,
        v.word() == "no"@ <==> v == Verdict::No,
        v.word() == "unsure"@ <==> v == Verdict::Unsure,
{
    reveal_strlit("yes");
    reveal_strlit("no");
    reveal_strlit("unsure");
    assert("yes"@.len() == 3 && "no"@.len() == 2 && "unsure"@.len() == 6);
}

/// A pinned model is enforced by its id alone. Whatever the answer says, whatever was measured
/// and however long the id of the model that answered is: if that id differs from the pinned
/// one anywhere within the pinned one's length, the verdict is `unsure` and says why. If it
/// does not, pinning changes nothing.
pub proof fn lemma_a_pinned_id_is_a_prefix(
    pinned: Seq<char>,
    answered: Seq<char>,
    answer: JsonView,
    d: DecideView,
    p: ProvenanceView,
)
    requires
        p.model_used == Some(answered),
    ensures
        !begins_with(answered, pinned) ==> outcome_under(Some(pinned), answer, d, p).verdict == Verdict::Unsure
            && outcome_under(Some(pinned), answer, d, p).warning == Some("model_mismatch"@),
        begins_with(answered, pinned) ==> outcome_under(Some(pinned), answer, d, p) == outcome_under(
            None,
            answer,
            d,
            p,
        ),
{
    lemma_begins(answered, pinned);
}

/// Two ids that differ at a place which both have are two models, however they go on and
/// whichever is longer; one that goes on where the pinned one ends is still that model.
pub proof fn lemma_ids_differ_where_they_differ(
    pinned: Seq<char>,
    answered: Seq<char>,
    i: int,
    more: Seq<char>,
    answer: JsonView,
    d: DecideView,
    chars: usize,
)
    requires
        0 <= i < pinned.len(),
        i < answered.len(),
        pinned[i] != answered[i],
    ensures
        ({
            let p = ProvenanceView { model_used: Some(answered), state_chars: chars };
            let o = outcome_under(Some(pinned), answer, d, p);
            o.verdict == Verdict::Unsure && o.warning == Some("model_mismatch"@)
        }),
        ({
            let p = ProvenanceView { model_used: Some(pinned + more), state_chars: chars };
            outcome_under(Some(pinned), answer, d, p) == outcome_under(None, answer, d, p)
        }),
{
    lemma_begins(answered, pinned);
    lemma_begins(pinned + more, pinned);
    assert(begins_with(pinned + more, pinned));
    assert(!begins_with(answered, pinned)) by {
        assert(answered[i] != pinned[i]);
    }
}

/// A measurement is enforced: with cuts that were measured on another model than the one that
/// answered, the verdict is `unsure` and says `model_mismatch`; else, for a state that is longer
/// than they were measured at, it is `unsure` and says `length_mismatch`.
pub proof fn lemma_a_measurement_is_enforced(answer: JsonView, d: DecideView, p: ProvenanceView)
    requires
        d.validated is Some,
    ensures
        another(d.validated->0.model, p.model_used) ==> outcome_under(None, answer, d, p).verdict == Verdict::Unsure
            && outcome_under(None, answer, d, p).warning == Some("model_mismatch"@),
        !another(d.validated->0.model, p.model_used) && (d.validated->0.max_chars matches Some(max) && max
            < p.state_chars) ==> outcome_under(None, answer, d, p).verdict == Verdict::Unsure && outcome_under(
            None,
            answer,
            d,
            p,
        ).warning == Some("length_mismatch"@),
{
    lemma_begins_all(None, d, p);
}

/// Where a set pins no model, what an answer comes to is judged by its question's own cuts and
/// measurement alone.
pub proof fn lemma_nothing_pinned(answer: JsonView, d: DecideView, p: ProvenanceView)
    ensures
        outcome_under(None, answer, d, p) == outcome_of(answer, d, p),
{
}

/// A forced verdict changes the verdict and says why; all else is shown as it came. So a forced
/// outcome agrees with the one that the same answer has under kept conditions on its type, its
/// label, its numbers and its cuts.
pub proof fn lemma_force_touches_nothing_else(
    pinned: Option<Seq<char>>,
    answer: JsonView,
    d: DecideView,
    p: ProvenanceView,
    q: ProvenanceView,
)
    requires
        as_measured(pinned, d, q),
    ensures
        ({
            let forced = outcome_under(pinned, answer, d, p);
            let kept = outcome_under(pinned, answer, d, q);
            &&& forced.kind == kept.kind
            &&& forced.label == kept.label
            &&& forced.number == kept.number
            &&& forced.confidence == kept.confidence
            &&& forced.thresholds == kept.thresholds
            &&& as_measured(pinned, d, p) ==> forced == kept
            &&& !as_measured(pinned, d, p) ==> forced.verdict == Verdict::Unsure && forced.warning is Some
        }),
{
    lemma_begins_all(pinned, d, p);
    lemma_begins_all(pinned, d, q);
}

/// A yes/no answer is a yes exactly if its probability is at least the one cut, a no exactly if
/// it is not a yes and at most the other, and else unsure. It shows the probability and has
/// neither a label nor a confidence.
pub proof fn lemma_a_noul_is_judged_by_its_cuts(
    pinned: Option<Seq<char>>,
    answer: JsonView,
    d: DecideView,
    p: ProvenanceView,
    n: NumberView,
)
    requires
        as_measured(pinned, d, p),
        typed(answer, "noul"@),
        field(answer, "noul"@) == Some(JsonView::Number(n)),
    ensures
        ({
            let o = outcome_under(pinned, answer, d, p);
            &&& o.kind == "noul"@
            &&& o.verdict == Verdict::Yes <==> le(d.yes.bits, n.real.bits)
            &&& o.verdict == Verdict::No <==> !le(d.yes.bits, n.real.bits) && le(n.real.bits, d.no.bits)
            &&& o.number == Some(n.real)
            &&& o.label is None
            &&& o.confidence is None
            &&& o.warning is None
        }),
{
    lemma_begins_all(pinned, d, p);
}

/// A choice that is answered with a label and a confidence is a yes exactly if the confidence
/// is at least the minimum, and else unsure: it is never a no. It keeps its label and its
/// confidence either way.
pub proof fn lemma_a_choice_is_judged_by_its_confidence(
    pinned: Option<Seq<char>>,
    answer: JsonView,
    d: DecideView,
    p: ProvenanceView,
    label: Seq<char>,
    c: NumberView,
)
    requires
        as_measured(pinned, d, p),
        typed(answer, "choice"@),
        field(answer, "choice"@) == Some(JsonView::Text(label)),
        field(answer, "confidence"@) == Some(JsonView::Number(c)),
    ensures
        ({
            let o = outcome_under(pinned, answer, d, p);
            &&& o.kind == "choice"@
            &&& o.verdict == Verdict::Yes <==> le(d.min_confidence.bits, c.real.bits)
            &&& o.verdict != Verdict::No
            &&& o.label == Some(label)
            &&& o.number is None
            &&& o.confidence == Some(c.real)
            &&& o.warning is None
        }),
{
    lemma_kinds();
    lemma_begins_all(pinned, d, p);
}

/// A score is a yes unless its confidence is below a minimum that counts: one that was asked
/// for, or that is not the shipped 0.9, or that belongs to a measurement. Then it is unsure. It
/// is never a no, and it keeps its number and its confidence either way. Its label is what the
/// legend says under the level that the number stands for.
pub proof fn lemma_a_score_is_shown_with_its_level(
    pinned: Option<Seq<char>>,
    answer: JsonView,
    d: DecideView,
    p: ProvenanceView,
    n: NumberView,
)
    requires
        as_measured(pinned, d, p),
        typed(answer, "score"@),
        field(answer, "score"@) == Some(JsonView::Number(n)),
    ensures
        ({
            let o = outcome_under(pinned, answer, d, p);
            let counts = d.gated || d.min_confidence.bits != 0x3fec_cccc_cccc_cccd || d.validated is Some;
            &&& o.kind == "score"@
            &&& o.number == Some(n.real)
            &&& o.warning is None
            &&& o.verdict != Verdict::No
            &&& match field(answer, "confidence"@) {
                Some(JsonView::Number(c)) => o.confidence == Some(c.real) && (o.verdict == Verdict::Unsure <==> counts
                    && lt(c.real.bits, d.min_confidence.bits)),
                _ => o.confidence is None && o.verdict == Verdict::Yes,
            }
            &&& match field(answer, "legend"@) {
                Some(legend) => match field(legend, level_of(n.real)) {
                    Some(JsonView::Text(t)) => o.label == Some(t),
                    _ => o.label is None,
                },
                None => o.label is None,
            }
        }),
{
    lemma_kinds();
    lemma_begins_all(pinned, d, p);
}

/// An answer has what its type needs: a probability, a label with a confidence, or a score.
pub open spec fn complete(answer: JsonView) -> bool {
    ||| typed(answer, "noul"@) && (field(answer, "noul"@) matches Some(JsonView::Number(_)))
    ||| typed(answer, "choice"@) && (field(answer, "choice"@) matches Some(JsonView::Text(_))) && (field(
        answer,
        "confidence"@,
    ) matches Some(JsonView::Number(_)))
    ||| typed(answer, "score"@) && (field(answer, "score"@) matches Some(JsonView::Number(_)))
}

/// An answer without what its type needs, or of no type that is known, is unsure and says that
/// it is incomplete, unless something else forced it. It has no number, and what there is of a
/// choice is still shown.
pub proof fn lemma_half_an_answer_is_unsure(
    pinned: Option<Seq<char>>,
    answer: JsonView,
    d: DecideView,
    p: ProvenanceView,
)
    requires
        !complete(answer),
    ensures
        ({
            let o = outcome_under(pinned, answer, d, p);
            &&& o.verdict == Verdict::Unsure
            &&& o.number is None
            &&& as_measured(pinned, d, p) ==> o.warning == Some("incomplete_answer"@)
            &&& typed(answer, "choice"@) ==> match field(answer, "choice"@) {
                Some(JsonView::Text(t)) => o.label == Some(t),
                _ => o.label is None,
            }
            &&& typed(answer, "choice"@) ==> match field(answer, "confidence"@) {
                Some(JsonView::Number(c)) => o.confidence == Some(c.real),
                _ => o.confidence is None,
            }
            &&& !typed(answer, "choice"@) ==> o.label is None && o.confidence is None
        }),
{
    lemma_kinds();
    lemma_begins_all(pinned, d, p);
}

/// An outcome names the type that its answer gives itself, or none it knows, and shows the very
/// cuts of its question. They count as validated where there is a measurement, as custom where
/// there is none and somebody chose one, and else as the shipped ones.
pub proof fn lemma_an_outcome_shows_its_cuts(
    pinned: Option<Seq<char>>,
    answer: JsonView,
    d: DecideView,
    p: ProvenanceView,
)
    ensures
        ({
            let o = outcome_under(pinned, answer, d, p);
            &&& o.thresholds.yes == d.yes
            &&& o.thresholds.no == d.no
            &&& o.thresholds.min_confidence == d.min_confidence
            &&& o.thresholds.source == Source::Validated <==> d.validated is Some
            &&& o.thresholds.source == Source::Custom <==> d.validated is None && d.tuned
            &&& o.defaulted() <==> d.validated is None
            &&& match field(answer, "type"@) {
                Some(JsonView::Text(k)) => o.kind == k,
                _ => o.kind == "unknown"@,
            }
        }),
{
    lemma_kinds();
}

/// A higher probability is never worse: under the same cuts and conditions, it does not turn a
/// yes into anything else, and a no stays a no for every lower one.
pub proof fn lemma_more_likely_is_not_less_yes(
    pinned: Option<Seq<char>>,
    low: JsonView,
    high: JsonView,
    d: DecideView,
    p: ProvenanceView,
    a: NumberView,
    b: NumberView,
)
    requires
        typed(low, "noul"@),
        typed(high, "noul"@),
        field(low, "noul"@) == Some(JsonView::Number(a)),
        field(high, "noul"@) == Some(JsonView::Number(b)),
        le(a.real.bits, b.real.bits),
    ensures
        outcome_under(pinned, low, d, p).verdict == Verdict::Yes ==> outcome_under(pinned, high, d, p).verdict
            == Verdict::Yes,
        outcome_under(pinned, high, d, p).verdict == Verdict::No ==> outcome_under(pinned, low, d, p).verdict
            == Verdict::No,
{
}

/// Two ids count as two models exactly if both are there and the one that is meant is not how
/// the other begins.
pub proof fn lemma_which_ids_are_two_models(meant: Option<Seq<char>>, answered: Option<Seq<char>>)
    ensures
        other_model(meant, answered) == another(meant, answered),
{
    if meant is Some && answered is Some {
        lemma_begins(answered->0, meant->0);
    }
}

/// What is wrong with the conditions of a measurement: nothing where there is none; another
/// model; else a longer state; else nothing.
pub proof fn lemma_which_condition_is_broken(d: DecideView, p: ProvenanceView)
    ensures
        d.validated is None ==> broken_condition(d, p) is None,
        d.validated is Some ==> (if another(d.validated->0.model, p.model_used) {
            broken_condition(d, p) == Some("model_mismatch"@)
        } else if d.validated->0.max_chars is Some && d.validated->0.max_chars->0 < p.state_chars {
            broken_condition(d, p) == Some("length_mismatch"@)
        } else {
            broken_condition(d, p) is None
        }),
{
    lemma_begins_all(None, d, p);
}

/// Every source of cuts has its own word.
pub proof fn lemma_sources_are_told_apart(s: Source)
    ensures
        s.word() == (match s {
            Source::Default => "default"@,
            Source::Custom => "custom"@,
            Source::Validated => "validated"@,
        }),
{
}

}
