//! Raw answer plus threshold plus provenance, in; a verdict, out.
//!
//! Why `unsure` exists at all. Jev's probability is trustworthy at the extremes and not in
//! the middle: measured over 300 real tool results, items landing between 0.2 and 0.5 were
//! claimed at 25-45% and were true 0% of the time, while everything at or above 0.9 was
//! claimed at 0.95 and was true 0.95 of the time. A two-way classifier has to call that
//! middle region something, and both answers are wrong. So it gets its own verdict and the
//! caller decides what to do with "nobody knows".
//!
//! `unsure` is an operational statement, not an epistemic one. It means the number fell
//! between the cuts *you* validated for *this* question. A noul returns no confidence, and
//! the vendor's own documentation says 0.5 does not mean uncertain, so nothing here
//! synthesises a confidence for one.

use vstd::prelude::*;

use crate::codec::{lemma_sound_field, sound};
use crate::json::{field, real_of, text_of, Json, JsonView};
use crate::number::{at_most, below, le, level_of, lt, nine_tenths, Real, RealView};
use crate::output::writable_outcome;
use crate::provider::opt_text;
use crate::questions::{cuts, opt_real, opt_str, shorthand_of, writable_cuts, Decide, DecideView, ValidatedView};
use crate::text;

verus! {

#[derive(Debug, Clone, Copy, PartialEq, Eq, Structural)]
pub enum Verdict {
    Yes,
    No,
    Unsure,
}

impl Verdict {
    /// The word for a verdict.
    pub open spec fn word(self) -> Seq<char> {
        match self {
            Verdict::Yes => "yes"@,
            Verdict::No => "no"@,
            Verdict::Unsure => "unsure"@,
        }
    }

    /// The exit code for a verdict.
    pub open spec fn exit(self) -> i32 {
        match self {
            Verdict::Yes => 0,
            Verdict::No => 1,
            Verdict::Unsure => 3,
        }
    }

    pub fn as_str(self) -> (r: &'static str)
        ensures
            r@ == self.word(),
    {
        match self {
            Verdict::Yes => "yes",
            Verdict::No => "no",
            Verdict::Unsure => "unsure",
        }
    }

    pub fn code(self) -> (r: i32)
        ensures
            r == self.exit(),
            r != 2,
    {
        match self {
            Verdict::Yes => 0,
            Verdict::No => 1,
            Verdict::Unsure => 3,
        }
    }
}

/// Where the cuts of a question come from.
#[derive(Debug, Clone, Copy, PartialEq, Eq, Structural)]
pub enum Source {
    /// Shipped, and touched by nobody.
    Default,
    /// Set by hand, and measured by nobody.
    Custom,
    /// Recorded with what they were measured against.
    Validated,
}

impl Source {
    /// The word for a source.
    pub open spec fn word(self) -> Seq<char> {
        match self {
            Source::Default => "default"@,
            Source::Custom => "custom"@,
            Source::Validated => "validated"@,
        }
    }

    pub fn as_str(self) -> (r: &'static str)
        ensures
            r@ == self.word(),
    {
        match self {
            Source::Default => "default",
            Source::Custom => "custom",
            Source::Validated => "validated",
        }
    }
}

/// The cuts that a verdict was reached with.
#[derive(Debug, Clone)]
pub struct Thresholds {
    pub source: Source,
    pub yes: Real,
    pub no: Real,
    pub min_confidence: Real,
}

/// What [`Thresholds`] hold.
pub struct ThresholdsView {
    pub source: Source,
    pub yes: RealView,
    pub no: RealView,
    pub min_confidence: RealView,
}

impl View for Thresholds {
    type V = ThresholdsView;

    open spec fn view(&self) -> ThresholdsView {
        ThresholdsView {
            source: self.source,
            yes: self.yes@,
            no: self.no@,
            min_confidence: self.min_confidence@,
        }
    }
}

/// The cuts of a question and where they come from: a recorded measurement says most, then
/// a cut that somebody chose.
pub open spec fn thresholds_of(d: DecideView) -> ThresholdsView {
    ThresholdsView {
        source: if d.validated is Some {
            Source::Validated
        } else if d.tuned {
            Source::Custom
        } else {
            Source::Default
        },
        yes: d.yes,
        no: d.no,
        min_confidence: d.min_confidence,
    }
}

/// What the caller is told about one question.
#[derive(Debug, Clone)]
pub struct Outcome {
    pub kind: String,
    pub verdict: Verdict,
    /// The label for a choice or a score; `None` for a noul.
    pub label: Option<String>,
    /// The noul probability, or the score.
    pub number: Option<Real>,
    pub confidence: Option<Real>,
    /// Set when the verdict was forced rather than measured.
    pub warning: Option<&'static str>,
    /// The cuts the verdict was reached with.
    pub thresholds: Thresholds,
}

/// What an [`Outcome`] says.
pub struct OutcomeView {
    pub kind: Seq<char>,
    pub verdict: Verdict,
    pub label: Option<Seq<char>>,
    pub number: Option<RealView>,
    pub confidence: Option<RealView>,
    pub warning: Option<Seq<char>>,
    pub thresholds: ThresholdsView,
}

impl View for Outcome {
    type V = OutcomeView;

    open spec fn view(&self) -> OutcomeView {
        OutcomeView {
            kind: self.kind@,
            verdict: self.verdict,
            label: opt_text(self.label),
            number: opt_real(self.number),
            confidence: opt_real(self.confidence),
            warning: opt_str(self.warning),
            thresholds: self.thresholds@,
        }
    }
}

impl OutcomeView {
    /// Nobody has validated the question's thresholds.
    pub open spec fn defaulted(self) -> bool {
        self.thresholds.source != Source::Validated
    }
}

impl Outcome {
    /// True when nobody has validated this question's thresholds.
    pub fn defaulted(&self) -> (r: bool)
        ensures
            r == self@.defaulted(),
    {
        self.thresholds.source != Source::Validated
    }
}

/// The facts a threshold was validated against, as they stand for *this* call.
#[derive(Debug)]
pub struct Provenance<'a> {
    pub model_used: Option<&'a str>,
    pub state_chars: usize,
}

/// What a [`Provenance`] says.
pub struct ProvenanceView {
    pub model_used: Option<Seq<char>>,
    pub state_chars: usize,
}

impl<'a> View for Provenance<'a> {
    type V = ProvenanceView;

    open spec fn view(&self) -> ProvenanceView {
        ProvenanceView { model_used: opt_str(self.model_used), state_chars: self.state_chars }
    }
}

/// The model that answered is not the one that was pinned. The provider may answer with a
/// more specific build of the pinned id (`typesafe/jev-1.13` -> `typesafe/jev-1.13-20260917`),
/// which is still that model.
pub open spec fn other_model(want: Option<Seq<char>>, got: Option<Seq<char>>) -> bool {
    match (want, got) {
        (Some(want), Some(got)) => !want.is_prefix_of(got),
        _ => false,
    }
}

/// The condition of a measurement that does not hold for this call.
pub open spec fn broken_condition(d: DecideView, p: ProvenanceView) -> Option<Seq<char>> {
    match d.validated {
        None => None,
        Some(v) => if other_model(v.model, p.model_used) {
            Some("model_mismatch"@)
        } else if v.max_chars matches Some(max) && p.state_chars > max {
            Some("length_mismatch"@)
        } else {
            None
        },
    }
}

/// A threshold measured against one model, at one input length, is a measurement of that
/// situation and nothing else. Rather than apply it outside those conditions and hope, the
/// verdict is forced to `unsure` and says which condition broke.
pub fn provenance_warning(decide: &Decide, p: &Provenance<'_>) -> (r: Option<&'static str>)
    ensures
        opt_str(r) == broken_condition(decide@, p@),
{
    match &decide.validated {
        None => None,
        Some(v) => {
            if let (Some(want), Some(got)) = (&v.model, p.model_used) {
                if !text::starts_with(got, want.as_str()) {
                    return Some("model_mismatch");
                }
            }
            if let Some(max) = v.max_chars {
                if p.state_chars > max {
                    return Some("length_mismatch");
                }
            }
            None
        },
    }
}

/// Where a probability falls: at or above the one cut, at or below the other, or between.
pub open spec fn band(p: RealView, d: DecideView) -> Verdict {
    if le(d.yes.bits, p.bits) {
        Verdict::Yes
    } else if le(p.bits, d.no.bits) {
        Verdict::No
    } else {
        Verdict::Unsure
    }
}

/// A minimum confidence was asked for: somebody set one, or it is not the shipped one.
pub open spec fn gate_asked(d: DecideView) -> bool {
    d.gated || d.min_confidence.bits != nine_tenths().bits
}

/// A score is a continuous estimate; its consumer usually wants the number, so there is no
/// confidence gate unless one was asked for or the cuts were measured.
pub open spec fn score_unsure(confidence: Option<RealView>, d: DecideView) -> bool {
    (gate_asked(d) || d.validated is Some) && (confidence matches Some(c) && lt(c.bits, d.min_confidence.bits))
}

/// An answer that lacks what its type needs.
pub open spec fn incomplete(
    kind: Seq<char>,
    label: Option<Seq<char>>,
    confidence: Option<RealView>,
    d: DecideView,
) -> OutcomeView {
    OutcomeView {
        kind,
        verdict: Verdict::Unsure,
        label,
        number: None,
        confidence,
        warning: Some("incomplete_answer"@),
        thresholds: thresholds_of(d),
    }
}

/// The type that an answer gives itself.
pub open spec fn kind_of(answer: JsonView) -> Seq<char> {
    match text_of(field(answer, "type"@)) {
        Some(k) => k,
        None => "unknown"@,
    }
}

/// The label of a score: what the legend says of the level that the score stands for.
pub open spec fn legend_label(answer: JsonView, score: RealView) -> Option<Seq<char>> {
    match field(answer, "legend"@) {
        Some(legend) => text_of(field(legend, level_of(score))),
        None => None,
    }
}

/// What an answer says by the cuts of its question alone.
pub open spec fn measured(answer: JsonView, d: DecideView) -> OutcomeView {
    let kind = kind_of(answer);
    let confidence = real_of(field(answer, "confidence"@));
    let plain = OutcomeView {
        kind,
        verdict: Verdict::Unsure,
        label: None,
        number: None,
        confidence: None,
        warning: None,
        thresholds: thresholds_of(d),
    };
    if kind == "noul"@ {
        match real_of(field(answer, "noul"@)) {
            Some(p) => OutcomeView { verdict: band(p, d), number: Some(p), ..plain },
            None => incomplete(kind, None, None, d),
        }
    } else if kind == "choice"@ {
        let label = text_of(field(answer, "choice"@));
        match (label, confidence) {
            (Some(_), Some(c)) => OutcomeView {
                verdict: if le(d.min_confidence.bits, c.bits) {
                    Verdict::Yes
                } else {
                    Verdict::Unsure
                },
                label,
                confidence,
                ..plain
            },
            _ => incomplete(kind, label, confidence, d),
        }
    } else if kind == "score"@ {
        match real_of(field(answer, "score"@)) {
            Some(score) => OutcomeView {
                verdict: if score_unsure(confidence, d) {
                    Verdict::Unsure
                } else {
                    Verdict::Yes
                },
                label: legend_label(answer, score),
                number: Some(score),
                confidence,
                ..plain
            },
            None => incomplete(kind, None, None, d),
        }
    } else {
        incomplete(kind, None, None, d)
    }
}

/// What the caller is told: what the answer says, unless a condition of the measurement is
/// broken, which forces `unsure` and says so.
pub open spec fn outcome_of(answer: JsonView, d: DecideView, p: ProvenanceView) -> OutcomeView {
    match broken_condition(d, p) {
        Some(w) => OutcomeView { verdict: Verdict::Unsure, warning: Some(w), ..measured(answer, d) },
        None => measured(answer, d),
    }
}

fn thresholds(decide: &Decide) -> (r: Thresholds)
    ensures
        r@ == thresholds_of(decide@),
{
    let source = if decide.validated.is_some() {
        Source::Validated
    } else if decide.tuned {
        Source::Custom
    } else {
        Source::Default
    };
    Thresholds {
        source,
        yes: decide.yes.clone(),
        no: decide.no.clone(),
        min_confidence: decide.min_confidence.clone(),
    }
}

fn real_field(j: &Json, key: &str) -> (r: Option<Real>)
    ensures
        opt_real(r) == real_of(field(j@, key@)),
{
    match j.get(key) {
        Some(v) => match v.as_real() {
            Some(x) => Some(x.clone()),
            None => None,
        },
        None => None,
    }
}

fn text_field(j: &Json, key: &str) -> (r: Option<String>)
    ensures
        opt_text(r) == text_of(field(j@, key@)),
{
    match j.get(key) {
        Some(v) => match v.as_str() {
            Some(s) => Some(s.to_owned()),
            None => None,
        },
        None => None,
    }
}

fn missing(kind: String, label: Option<String>, confidence: Option<Real>, decide: &Decide) -> (r: Outcome)
    ensures
        r@ == incomplete(kind@, opt_text(label), opt_real(confidence), decide@),
{
    Outcome {
        kind,
        verdict: Verdict::Unsure,
        label,
        number: None,
        confidence,
        warning: Some("incomplete_answer"),
        thresholds: thresholds(decide),
    }
}

fn noul_outcome(answer: &Json, kind: String, decide: &Decide) -> (r: Outcome)
    requires
        kind@ == kind_of(answer@),
        kind@ == "noul"@,
    ensures
        r@ == measured(answer@, decide@),
{
    match real_field(answer, "noul") {
        Some(p) => {
            let verdict = if at_most(decide.yes.bits, p.bits) {
                Verdict::Yes
            } else if at_most(p.bits, decide.no.bits) {
                Verdict::No
            } else {
                Verdict::Unsure
            };
            Outcome {
                kind,
                verdict,
                label: None,
                number: Some(p),
                confidence: None,
                warning: None,
                thresholds: thresholds(decide),
            }
        },
        None => missing(kind, None, None, decide),
    }
}

fn choice_outcome(answer: &Json, kind: String, decide: &Decide) -> (r: Outcome)
    requires
        kind@ == kind_of(answer@),
        kind@ == "choice"@,
        "choice"@ != "noul"@,
    ensures
        r@ == measured(answer@, decide@),
{
    match (text_field(answer, "choice"), real_field(answer, "confidence")) {
        (Some(label), Some(c)) => {
            let verdict = if at_most(decide.min_confidence.bits, c.bits) {
                Verdict::Yes
            } else {
                Verdict::Unsure
            };
            Outcome {
                kind,
                verdict,
                label: Some(label),
                number: None,
                confidence: Some(c),
                warning: None,
                thresholds: thresholds(decide),
            }
        },
        // A shape we half understand degrades to "I don't know" rather than failing the
        // whole call: this is exactly what a provider change looks like from in here.
        (label, confidence) => missing(kind, label, confidence, decide),
    }
}

fn score_outcome(answer: &Json, kind: String, decide: &Decide) -> (r: Outcome)
    requires
        kind@ == kind_of(answer@),
        kind@ == "score"@,
        "score"@ != "noul"@,
        "score"@ != "choice"@,
    ensures
        r@ == measured(answer@, decide@),
{
    match real_field(answer, "score") {
        Some(score) => {
            let confidence = real_field(answer, "confidence");
            let label = match answer.get("legend") {
                Some(legend) => text_field(legend, score.level().as_str()),
                None => None,
            };
            let asked = decide.gated || decide.min_confidence.bits != Real::nine_tenths().bits;
            let gated = asked || decide.validated.is_some();
            let unsure = match &confidence {
                Some(c) => gated && below(c.bits, decide.min_confidence.bits),
                None => false,
            };
            Outcome {
                kind,
                verdict: if unsure {
                    Verdict::Unsure
                } else {
                    Verdict::Yes
                },
                label,
                number: Some(score),
                confidence,
                warning: None,
                thresholds: thresholds(decide),
            }
        },
        None => missing(kind, None, None, decide),
    }
}

/// Turns the answer to one question into a verdict.
pub fn outcome(answer: &Json, decide: &Decide, provenance: &Provenance<'_>) -> (r: Outcome)
    ensures
        r@ == outcome_of(answer@, decide@, provenance@),
{
    proof {
        reveal_strlit("noul");
        reveal_strlit("choice");
        reveal_strlit("score");
        assert("noul"@.len() == 4 && "choice"@.len() == 6 && "score"@.len() == 5);
    }
    let kind = match text_field(answer, "type") {
        Some(k) => k,
        None => "unknown".to_owned(),
    };
    let mut out = if text::same(kind.as_str(), "noul") {
        noul_outcome(answer, kind, decide)
    } else if text::same(kind.as_str(), "choice") {
        choice_outcome(answer, kind, decide)
    } else if text::same(kind.as_str(), "score") {
        score_outcome(answer, kind, decide)
    } else {
        missing(kind, None, None, decide)
    };
    if let Some(w) = provenance_warning(decide, provenance) {
        out.verdict = Verdict::Unsure;
        out.warning = Some(w);
    }
    out
}

/// What the caller is told where a question set pins a model: if another one answered, the
/// verdict is forced to `unsure` and says so.
pub open spec fn outcome_under(
    pinned: Option<Seq<char>>,
    answer: JsonView,
    d: DecideView,
    p: ProvenanceView,
) -> OutcomeView {
    if other_model(pinned, p.model_used) {
        OutcomeView { verdict: Verdict::Unsure, warning: Some("model_mismatch"@), ..outcome_of(answer, d, p) }
    } else {
        outcome_of(answer, d, p)
    }
}

fn is_other_model(want: Option<&str>, got: Option<&str>) -> (r: bool)
    ensures
        r == other_model(opt_str(want), opt_str(got)),
{
    match (want, got) {
        (Some(want), Some(got)) => !text::starts_with(got, want),
        _ => false,
    }
}

/// Turns the answer to one question of a set into a verdict. A floating model id silently
/// rots every threshold under it, so an answer from another model than the set pins is
/// downgraded.
pub fn outcome_pinned(pinned: Option<&str>, answer: &Json, decide: &Decide, provenance: &Provenance<'_>) -> (r: Outcome)
    ensures
        r@ == outcome_under(opt_str(pinned), answer@, decide@, provenance@),
{
    let mut out = outcome(answer, decide, provenance);
    if is_other_model(pinned, provenance.model_used) {
        out.verdict = Verdict::Unsure;
        out.warning = Some("model_mismatch");
    }
    out
}

/// An answer from another model than the question set pins is `unsure`, whatever it says and
/// whatever was measured; from a build of the pinned one it is judged as ever.
pub proof fn lemma_another_model_than_pinned_forces_unsure(
    pinned: Option<Seq<char>>,
    answer: JsonView,
    d: DecideView,
    p: ProvenanceView,
)
    ensures
        other_model(pinned, p.model_used) ==> outcome_under(pinned, answer, d, p).verdict == Verdict::Unsure
            && outcome_under(pinned, answer, d, p).warning == Some("model_mismatch"@),
        !other_model(pinned, p.model_used) ==> outcome_under(pinned, answer, d, p) == outcome_of(answer, d, p),
{
}

/// A threshold is not applied outside the conditions it was measured under: if another model
/// answered, or the state was longer, the verdict is `unsure` and says which condition broke.
pub proof fn lemma_broken_conditions_force_unsure(
    answer: JsonView,
    d: DecideView,
    p: ProvenanceView,
    v: ValidatedView,
)
    requires
        d.validated == Some(v),
    ensures
        other_model(v.model, p.model_used) ==> outcome_of(answer, d, p).verdict == Verdict::Unsure && outcome_of(
            answer,
            d,
            p,
        ).warning == Some("model_mismatch"@),
        !other_model(v.model, p.model_used) && (v.max_chars matches Some(max) && p.state_chars > max) ==> outcome_of(
            answer,
            d,
            p,
        ).verdict == Verdict::Unsure && outcome_of(answer, d, p).warning == Some("length_mismatch"@),
{
}

/// Under the conditions of its measurement, and where there was none, an answer is judged by
/// its cuts alone.
pub proof fn lemma_kept_conditions_change_nothing(answer: JsonView, d: DecideView, p: ProvenanceView)
    requires
        d.validated matches Some(v) ==> !other_model(v.model, p.model_used) && (v.max_chars matches Some(max)
            ==> p.state_chars <= max),
    ensures
        outcome_of(answer, d, p) == measured(answer, d),
{
}

/// A dated build of the pinned model still counts as that model, and a build that is pinned
/// counts as no other.
pub proof fn lemma_a_build_of_the_pinned_model(pinned: Seq<char>, build: Seq<char>, got: Seq<char>)
    ensures
        !other_model(Some(pinned), Some(pinned + build)),
        got.len() <= pinned.len() && got != pinned ==> other_model(Some(pinned), Some(got)),
{
    assert((pinned + build).subrange(0, pinned.len() as int) =~= pinned);
    if got.len() == pinned.len() && pinned.is_prefix_of(got) {
        assert(got.subrange(0, pinned.len() as int) =~= got);
        assert(pinned =~= got);
    }
}

/// A yes/no answer is never given a confidence.
pub proof fn lemma_a_noul_has_no_confidence(answer: JsonView, d: DecideView, p: ProvenanceView)
    requires
        kind_of(answer) == "noul"@,
    ensures
        outcome_of(answer, d, p).confidence is None,
        outcome_of(answer, d, p).label is None,
{
}

/// Whatever comes with a warning is `unsure`, so a `yes` or a `no` was always measured.
pub proof fn lemma_warned_is_unsure(answer: JsonView, d: DecideView, p: ProvenanceView)
    ensures
        outcome_of(answer, d, p).warning is Some ==> outcome_of(answer, d, p).verdict == Verdict::Unsure,
{
}

/// The three bands are in order: a higher probability never turns a yes into anything else,
/// and a lower one never turns a no into anything else.
pub proof fn lemma_bands_are_in_order(p: RealView, q: RealView, d: DecideView)
    requires
        le(p.bits, q.bits),
    ensures
        band(p, d) == Verdict::Yes ==> band(q, d) == Verdict::Yes,
        band(q, d) == Verdict::No ==> band(p, d) == Verdict::No,
{
}

/// An answer that lacks what its type needs, or that has no type we know, is `unsure` and
/// never a failed call.
pub proof fn lemma_an_incomplete_answer_is_unsure(answer: JsonView, d: DecideView, p: ProvenanceView)
    requires
        kind_of(answer) == "noul"@ ==> real_of(field(answer, "noul"@)) is None,
        kind_of(answer) == "choice"@ ==> text_of(field(answer, "choice"@)) is None || real_of(
            field(answer, "confidence"@),
        ) is None,
        kind_of(answer) == "score"@ ==> real_of(field(answer, "score"@)) is None,
    ensures
        outcome_of(answer, d, p).verdict == Verdict::Unsure,
        outcome_of(answer, d, p).warning is Some,
{
}

/// A choice that is not confident enough keeps its label.
pub proof fn lemma_an_unsure_choice_keeps_its_label(answer: JsonView, d: DecideView, p: ProvenanceView)
    requires
        kind_of(answer) == "choice"@,
    ensures
        outcome_of(answer, d, p).label == text_of(field(answer, "choice"@)),
{
    reveal_strlit("noul");
    reveal_strlit("choice");
    assert("noul"@.len() == 4 && "choice"@.len() == 6);
}

/// Every outcome says where its cuts come from, and nothing but a recorded measurement
/// counts as validated.
pub proof fn lemma_only_a_measurement_validates(answer: JsonView, d: DecideView, p: ProvenanceView)
    ensures
        outcome_of(answer, d, p).thresholds == thresholds_of(d),
        outcome_of(answer, d, p).defaulted() <==> d.validated is None,
{
}

/// A minimum confidence that was asked for applies to a score as it does to a choice,
/// whatever the minimum: below it the verdict is `unsure`.
pub proof fn lemma_an_asked_minimum_gates(answer: JsonView, d: DecideView, p: ProvenanceView, c: RealView)
    requires
        d.gated,
        kind_of(answer) == "choice"@ || kind_of(answer) == "score"@,
        real_of(field(answer, "confidence"@)) == Some(c),
        lt(c.bits, d.min_confidence.bits),
    ensures
        outcome_of(answer, d, p).verdict == Verdict::Unsure,
{
    reveal_strlit("noul");
    reveal_strlit("choice");
    reveal_strlit("score");
    assert("noul"@.len() == 4 && "choice"@.len() == 6 && "score"@.len() == 5);
}

/// Where no minimum was asked for and nothing was measured, a score is never held back by its
/// confidence.
pub proof fn lemma_no_gate_unless_asked(answer: JsonView, d: DecideView, p: ProvenanceView)
    requires
        !gate_asked(d),
        d.validated is None,
        kind_of(answer) == "score"@,
        real_of(field(answer, "score"@)) is Some,
    ensures
        outcome_of(answer, d, p).verdict == Verdict::Yes,
{
    reveal_strlit("noul");
    reveal_strlit("choice");
    reveal_strlit("score");
    assert("noul"@.len() == 4 && "choice"@.len() == 6 && "score"@.len() == 5);
}

/// What an outcome shows of an answer that was read from a text is written as itself.
pub proof fn lemma_outcomes_are_writable(
    pinned: Option<Seq<char>>,
    answer: JsonView,
    d: DecideView,
    p: ProvenanceView,
    depth: nat,
)
    requires
        sound(answer, depth),
        writable_cuts(d),
    ensures
        writable_outcome(outcome_under(pinned, answer, d, p)),
{
    lemma_sound_field(answer, "noul"@, depth);
    lemma_sound_field(answer, "score"@, depth);
    lemma_sound_field(answer, "confidence"@, depth);
}

/// A score is gated exactly where its question has a minimum confidence in its `decide` block
/// or on the command line, whatever the value, or a measurement.
pub proof fn lemma_a_gate_needs_a_minimum(
    raw: Option<JsonView>,
    instructions: Seq<char>,
    options: Option<Seq<char>>,
    levels: Option<Seq<char>>,
    yes_at: Option<RealView>,
    no_at: Option<RealView>,
    min_confidence: Option<RealView>,
    confidence: Option<RealView>,
)
    ensures
        cuts(raw) matches Ok(d) ==> score_unsure(confidence, d) == ((d.gated || d.validated is Some) && (
        confidence matches Some(c) && lt(c.bits, d.min_confidence.bits))),
        cuts(raw) matches Ok(d) ==> d.gated == (raw matches Some(j) && field(j, "min_confidence"@) is Some),
        shorthand_of(instructions, options, levels, yes_at, no_at, min_confidence) matches Ok(p) ==> score_unsure(
            confidence,
            p.decide[0],
        ) == (min_confidence is Some && (confidence matches Some(c) && lt(c.bits, p.decide[0].min_confidence.bits))),
{
}

}
