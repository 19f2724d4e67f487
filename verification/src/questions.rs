//! The question-set file, and the split between what the API sees and what stays here.
//!
//! A question file carries two things that must not be confused: the question itself, which
//! goes to the model verbatim, and the thresholds, which are a record of a measurement made
//! on this machine against real data. `decide` and `notes` never leave this process.

use vstd::prelude::*;

use crate::codec::{lemma_sound_field, sound, writable};
use crate::error::{invalid, says, Error, ErrorView};
use crate::json::{
    array_of, distinct, field, items_view, lemma_lookup_push, lemma_without, lookup, object_of, real_of, text_of, whole_of, with,
    without, Json, JsonView, Object,
};
use crate::notes::{note, noted, Notes, NotesView};
use crate::number::{at_most, below, le, lemma_order, lt, nine_tenths, one_tenth, Real, RealView, ONE, ZERO};
use crate::provider::opt_text;
use crate::text;
use crate::text::{decimal_of, listed, views};

verus! {

/// What the API actually refuses, measured against it: 255 options is accepted and 256
/// comes back `Too many choices. Must have at most 255 choices.`
pub const MAX_CHOICES: usize = 255;

/// What the documentation recommends. Not a limit — a hint about where accuracy starts to
/// suffer, so it is a warning and never a refusal.
pub const RECOMMENDED_CHOICES: usize = 8;

/// `question `name`: `, which every complaint about a question begins with.
pub open spec fn about(name: Seq<char>) -> Seq<char> {
    "question `"@ + name + "`: "@
}

/// A complaint about one question of a file.
pub open spec fn complaint(name: Seq<char>, problem: Seq<char>) -> ErrorView {
    invalid("question_file"@, about(name) + problem)
}

fn complain(name: &str, problem: &str) -> (r: Error)
    ensures
        r@ == complaint(name@, problem@),
{
    Error::invalid("question_file", text::cat4("question `", name, "`: ", problem).as_str())
}

/// What is wrong with a number of options.
pub open spec fn width_problem(len: nat) -> Option<Seq<char>> {
    if len < 2 {
        Some("choice needs at least 2 options, got "@ + decimal_of(len))
    } else if len > MAX_CHOICES {
        Some("choice takes at most "@ + decimal_of(MAX_CHOICES as nat) + " options, got "@ + decimal_of(len))
    } else {
        None
    }
}

/// The advice on a number of options that is more than documented.
pub open spec fn width_advice(name: Seq<char>, len: nat) -> Option<Seq<char>> {
    if RECOMMENDED_CHOICES < len <= MAX_CHOICES {
        Some(
            "question `"@ + name + "` has "@ + decimal_of(len) + " options; TypeSafe documents 2-"@ + decimal_of(
                RECOMMENDED_CHOICES as nat,
            ) + ". It will answer, but validate that it still answers well at this width."@,
        )
    } else {
        None
    }
}

/// The notes after advice that may have been given.
pub open spec fn advised(n: NotesView, advice: Option<Seq<char>>) -> NotesView {
    match advice {
        Some(m) => noted(n, m),
        None => n,
    }
}

/// Refuses what the service refuses, and warns about what the service merely discourages.
pub fn check_choice_len(name: &str, len: usize, notes: &mut Notes) -> (r: Result<(), Error>)
    ensures
        match r {
            Ok(_) => width_problem(len as nat) is None,
            Err(e) => width_problem(len as nat) matches Some(m) && e@ == complaint(name@, m),
        },
        final(notes)@ == advised(old(notes)@, width_advice(name@, len as nat)),
{
    let got = text::decimal(len as u64);
    if len < 2 {
        return Err(complain(name, text::cat("choice needs at least 2 options, got ", got.as_str()).as_str()));
    }
    if len > MAX_CHOICES {
        return Err(
            complain(
                name,
                text::cat4(
                    "choice takes at most ",
                    text::decimal(MAX_CHOICES as u64).as_str(),
                    " options, got ",
                    got.as_str(),
                ).as_str(),
            ),
        );
    }
    if len > RECOMMENDED_CHOICES {
        let start = text::cat5("question `", name, "` has ", got.as_str(), " options; TypeSafe documents 2-");
        let advice = text::cat3(
            start.as_str(),
            text::decimal(RECOMMENDED_CHOICES as u64).as_str(),
            ". It will answer, but validate that it still answers well at this width.",
        );
        note(notes, advice.as_str());
    }
    Ok(())
}

/// The version of a set that does not say.
pub fn one() -> (r: u32)
    ensures
        r == 1,
{
    1
}

/// What the tool decides with, once the question has been sent.
#[derive(Debug, Clone)]
pub struct Decide {
    pub yes: Real,
    pub no: Real,
    pub min_confidence: Real,
    /// `None` means nobody has measured this question: the output says so rather than
    /// letting a default pass for a finding.
    pub validated: Option<Validated>,
    /// True when a cut was supplied rather than inherited — a `--yes-at` on the command
    /// line, or a key in a `decide` block. It is tracked rather than derived by comparing
    /// against the shipped numbers so that a cut set by hand to the same value as the
    /// default still reads as a cut somebody chose.
    pub tuned: bool,
    /// True when a minimum confidence was asked for — `--min-confidence` on the command line,
    /// or the key in a `decide` block — whatever its value: asking for the shipped minimum
    /// is asking too.
    pub gated: bool,
}

/// What a [`Decide`] holds.
pub struct DecideView {
    pub yes: RealView,
    pub no: RealView,
    pub min_confidence: RealView,
    pub validated: Option<ValidatedView>,
    pub tuned: bool,
    pub gated: bool,
}

/// What cuts were measured against.
#[derive(Debug, Clone)]
pub struct Validated {
    pub model: Option<String>,
    pub max_chars: Option<usize>,
}

/// What a [`Validated`] holds.
pub struct ValidatedView {
    pub model: Option<Seq<char>>,
    pub max_chars: Option<usize>,
}

impl View for Validated {
    type V = ValidatedView;

    open spec fn view(&self) -> ValidatedView {
        ValidatedView { model: opt_text(self.model), max_chars: self.max_chars }
    }
}

/// The measurement that may be there.
pub open spec fn opt_validated(v: Option<Validated>) -> Option<ValidatedView> {
    match v {
        Some(v) => Some(v@),
        None => None,
    }
}

impl View for Decide {
    type V = DecideView;

    open spec fn view(&self) -> DecideView {
        DecideView {
            yes: self.yes@,
            no: self.no@,
            min_confidence: self.min_confidence@,
            validated: opt_validated(self.validated),
            tuned: self.tuned,
            gated: self.gated,
        }
    }
}

impl Default for Validated {
    /// A measurement that records nothing of its conditions.
    fn default() -> (r: Validated)
        ensures
            r@ == (ValidatedView { model: None, max_chars: None }),
    {
        Validated { model: None, max_chars: None }
    }
}

/// The shipped cuts: yes from 0.9 on, no up to 0.1, a confidence of at least 0.9.
pub open spec fn shipped() -> DecideView {
    DecideView {
        yes: nine_tenths(),
        no: one_tenth(),
        min_confidence: nine_tenths(),
        validated: None,
        tuned: false,
        gated: false,
    }
}

impl Default for Decide {
    fn default() -> (r: Decide)
        ensures
            r@ == shipped(),
            writable_cuts(r@),
    {
        Decide {
            yes: Real::nine_tenths(),
            no: Real::one_tenth(),
            min_confidence: Real::nine_tenths(),
            validated: None,
            tuned: false,
            gated: false,
        }
    }
}

/// A cut of a `decide` block: the one written there, which must be a number from 0 to 1, or
/// the shipped one.
pub open spec fn cut(m: Seq<(Seq<char>, JsonView)>, key: Seq<char>, fallback: RealView) -> Result<
    RealView,
    Seq<char>,
> {
    match lookup(m, key) {
        None => Ok(fallback),
        Some(v) => match real_of(Some(v)) {
            None => Err("`decide."@ + key + "` is not a number"@),
            Some(n) => if le(ZERO, n.bits) && le(n.bits, ONE) {
                Ok(n)
            } else {
                Err("`decide."@ + key + "` must be within 0..1, got "@ + n.plain)
            },
        },
    }
}

fn read_cut(obj: &Object, key: &str, fallback: Real) -> (r: Result<Real, String>)
    ensures
        match r {
            Ok(x) => cut(obj@, key@, fallback@) == Ok::<RealView, Seq<char>>(x@),
            Err(m) => cut(obj@, key@, fallback@) == Err::<RealView, Seq<char>>(m@),
        },
{
    match obj.get(key) {
        None => Ok(fallback),
        Some(v) => match v.as_real() {
            None => Err(text::cat3("`decide.", key, "` is not a number")),
            Some(n) => if at_most(ZERO, n.bits) && at_most(n.bits, ONE) {
                Ok(n.clone())
            } else {
                Err(text::cat4("`decide.", key, "` must be within 0..1, got ", n.plain.as_str()))
            },
        },
    }
}

/// What a `validated` block records. Any value counts as a record, even an empty one.
pub open spec fn validation(v: Option<JsonView>) -> Option<ValidatedView> {
    match v {
        None => None,
        Some(v) => Some(
            ValidatedView {
                model: text_of(field(v, "model"@)),
                max_chars: match whole_of(field(v, "max_chars"@)) {
                    Some(n) => Some(n as usize),
                    None => None,
                },
            },
        ),
    }
}

/// The cuts of a `decide` block, or what is wrong with it.
pub open spec fn cuts(raw: Option<JsonView>) -> Result<DecideView, Seq<char>> {
    match raw {
        None => Ok(shipped()),
        Some(j) => match object_of(Some(j)) {
            None => Err("`decide` is not an object"@),
            Some(m) => match cut(m, "yes"@, nine_tenths()) {
                Err(e) => Err(e),
                Ok(yes) => match cut(m, "no"@, one_tenth()) {
                    Err(e) => Err(e),
                    Ok(no) => if lt(yes.bits, no.bits) {
                        Err("`decide.no` ("@ + no.plain + ") is above `decide.yes` ("@ + yes.plain + ")"@)
                    } else {
                        match cut(m, "min_confidence"@, nine_tenths()) {
                            Err(e) => Err(e),
                            Ok(min_confidence) => Ok(
                                DecideView {
                                    yes,
                                    no,
                                    min_confidence,
                                    validated: validation(lookup(m, "validated"@)),
                                    tuned: lookup(m, "yes"@) is Some || lookup(m, "no"@) is Some || lookup(
                                        m,
                                        "min_confidence"@,
                                    ) is Some,
                                    gated: lookup(m, "min_confidence"@) is Some,
                                },
                            ),
                        }
                    },
                },
            },
        },
    }
}

fn read_validated(v: &Json) -> (r: Validated)
    ensures
        Some(r@) == validation(Some(v@)),
{
    let model = match v.get("model") {
        Some(m) => match m.as_str() {
            Some(m) => Some(m.to_owned()),
            None => None,
        },
        None => None,
    };
    let max_chars = match v.get("max_chars") {
        Some(n) => match n.as_u64() {
            Some(n) => Some(n as usize),
            None => None,
        },
        None => None,
    };
    Validated { model, max_chars }
}

/// Reads the `decide` block of a question.
pub fn parse_decide(name: &str, raw: Option<&Json>) -> (r: Result<Decide, Error>)
    ensures
        match cuts(
            match raw {
                Some(j) => Some(j@),
                None => None,
            },
        ) {
            Ok(d) => r matches Ok(v) && v@ == d,
            Err(m) => r matches Err(e) && e@ == complaint(name@, m),
        },
        r is Ok ==> writable_cuts(shipped()),
{
    let raw = match raw {
        None => {
            return Ok(Decide::default());
        },
        Some(j) => j,
    };
    let obj = match raw.as_object() {
        None => {
            return Err(complain(name, "`decide` is not an object"));
        },
        Some(o) => o,
    };
    let gated = obj.contains_key("min_confidence");
    let tuned = obj.contains_key("yes") || obj.contains_key("no") || gated;
    let yes = match read_cut(obj, "yes", Real::nine_tenths()) {
        Ok(x) => x,
        Err(m) => {
            return Err(complain(name, m.as_str()));
        },
    };
    let no = match read_cut(obj, "no", Real::one_tenth()) {
        Ok(x) => x,
        Err(m) => {
            return Err(complain(name, m.as_str()));
        },
    };
    if below(yes.bits, no.bits) {
        return Err(
            complain(
                name,
                text::cat5("`decide.no` (", no.plain.as_str(), ") is above `decide.yes` (", yes.plain.as_str(), ")").as_str(),
            ),
        );
    }
    let min_confidence = match read_cut(obj, "min_confidence", Real::nine_tenths()) {
        Ok(x) => x,
        Err(m) => {
            return Err(complain(name, m.as_str()));
        },
    };
    let validated = match obj.get("validated") {
        Some(v) => Some(read_validated(v)),
        None => None,
    };
    Ok(Decide { yes, no, min_confidence, validated, tuned, gated })
}

/// The advice on a yes/no question without `criteria`.
pub open spec fn criteria_advice(name: Seq<char>) -> Seq<char> {
    "question `"@ + name
        + "` is a noul with no `criteria`; it will be answered, but a state carrying its own instructions flips the verdict far more often without them. Give `criteria` a `true` and a `false` saying what each verdict means. Set JEVI_QUIET=1 to silence this."@
}

/// Measured against this API, not asserted: over 60 paired runs of the same question with
/// an instruction planted in the state, the verdict flipped 10 times with no `criteria` and
/// 1 time with them. That is the whole reason this note exists.
pub fn missing_criteria(name: &str) -> (r: String)
    ensures
        r@ == criteria_advice(name@),
{
    text::cat3(
        "question `",
        name,
        "` is a noul with no `criteria`; it will be answered, but a state carrying its own instructions flips the verdict far more often without them. Give `criteria` a `true` and a `false` saying what each verdict means. Set JEVI_QUIET=1 to silence this.",
    )
}

/// What is wrong with the `criteria` of a question of some type: a yes/no question may say
/// what each verdict means, a choice names its options, a score its levels.
pub open spec fn criteria_problem(kind: Seq<char>, criteria: Option<JsonView>) -> Option<Seq<char>> {
    if kind == "noul"@ {
        match criteria {
            None => None,
            Some(c) => match object_of(Some(c)) {
                None => Some("noul `criteria` must be an object with `true` and `false`"@),
                Some(m) => if lookup(m, "true"@) is None || lookup(m, "false"@) is None {
                    Some("noul `criteria` needs both `true` and `false`"@)
                } else {
                    None
                },
            },
        }
    } else if kind == "choice"@ {
        match object_of(criteria) {
            None => Some("choice needs `criteria` as an object of options"@),
            Some(m) => width_problem(m.len()),
        }
    } else if kind == "score"@ {
        match array_of(criteria) {
            None => Some("score needs `criteria` as an array of levels"@),
            Some(v) => if 2 <= v.len() <= 10 {
                None
            } else {
                Some("score needs 2-10 levels, got "@ + decimal_of(v.len()))
            },
        }
    } else {
        Some("unknown type `"@ + kind + "`"@)
    }
}

/// What is wrong with a question, its cuts aside.
pub open spec fn question_problem(obj: Seq<(Seq<char>, JsonView)>) -> Option<Seq<char>> {
    match text_of(lookup(obj, "type"@)) {
        None => Some("missing `type`"@),
        Some(kind) => if text_of(lookup(obj, "instructions"@)) is None {
            Some("missing `instructions`"@)
        } else {
            criteria_problem(kind, lookup(obj, "criteria"@))
        },
    }
}

/// The advice on a question that the API would take.
pub open spec fn question_advice(name: Seq<char>, obj: Seq<(Seq<char>, JsonView)>) -> Option<Seq<char>> {
    match text_of(lookup(obj, "type"@)) {
        Some(kind) => if question_problem(obj) is Some {
            None
        } else if kind == "noul"@ && lookup(obj, "criteria"@) is None {
            Some(criteria_advice(name))
        } else if kind == "choice"@ {
            match object_of(lookup(obj, "criteria"@)) {
                Some(m) => width_advice(name, m.len()),
                None => None,
            }
        } else {
            None
        },
        None => None,
    }
}

/// What of a question is sent: all of it but the two private keys, untouched.
pub open spec fn wire_of(obj: Seq<(Seq<char>, JsonView)>) -> Seq<(Seq<char>, JsonView)> {
    without(without(obj, "decide"@), "notes"@)
}

/// A question split into what is sent and what is decided with, or what is wrong with it.
pub open spec fn split_of(name: Seq<char>, obj: Seq<(Seq<char>, JsonView)>) -> Result<
    (Seq<(Seq<char>, JsonView)>, DecideView),
    ErrorView,
> {
    match question_problem(obj) {
        Some(m) => Err(complaint(name, m)),
        None => match cuts(lookup(obj, "decide"@)) {
            Err(m) => Err(complaint(name, m)),
            Ok(d) => Ok((wire_of(obj), d)),
        },
    }
}

/// The criteria rules are the API's, checked here so a typo costs nothing instead of a
/// round trip and a 400.
fn check_criteria(name: &str, kind: &str, criteria: Option<&Json>, notes: &mut Notes) -> (r: Result<(), Error>)
    ensures
        match criteria_problem(
            kind@,
            match criteria {
                Some(c) => Some(c@),
                None => None,
            },
        ) {
            None => r is Ok,
            Some(m) => r matches Err(e) && e@ == complaint(name@, m),
        },
        final(notes)@ == (if kind@ == "noul"@ {
            advised(
                old(notes)@,
                if criteria is None {
                    Some(criteria_advice(name@))
                } else {
                    None
                },
            )
        } else if kind@ == "choice"@ {
            match criteria {
                Some(c) => match object_of(Some(c@)) {
                    Some(m) => advised(old(notes)@, width_advice(name@, m.len())),
                    None => old(notes)@,
                },
                None => old(notes)@,
            }
        } else {
            old(notes)@
        }),
{
    if text::same(kind, "noul") {
        match criteria {
            Some(c) => match c.as_object() {
                None => Err(complain(name, "noul `criteria` must be an object with `true` and `false`")),
                Some(c) => if !c.contains_key("true") || !c.contains_key("false") {
                    Err(complain(name, "noul `criteria` needs both `true` and `false`"))
                } else {
                    Ok(())
                },
            },
            // Legal, and answered, and the single cheapest thing you can do to this
            // question to make it harder to steer. The API allows it, so jevi allows
            // it; staying silent about it is what it had no business doing.
            None => {
                note(notes, missing_criteria(name).as_str());
                Ok(())
            },
        }
    } else if text::same(kind, "choice") {
        let options = match criteria {
            Some(c) => c.as_object(),
            None => None,
        };
        match options {
            None => Err(complain(name, "choice needs `criteria` as an object of options")),
            Some(c) => check_choice_len(name, c.len(), notes),
        }
    } else if text::same(kind, "score") {
        let levels = match criteria {
            Some(c) => c.as_array(),
            None => None,
        };
        match levels {
            None => Err(complain(name, "score needs `criteria` as an array of levels")),
            Some(v) => if 2 <= v.len() && v.len() <= 10 {
                Ok(())
            } else {
                Err(
                    complain(
                        name,
                        text::cat("score needs 2-10 levels, got ", text::decimal(v.len() as u64).as_str()).as_str(),
                    ),
                )
            },
        }
    } else {
        Err(complain(name, text::cat3("unknown type `", kind, "`").as_str()))
    }
}

/// Splits a question into what is sent and what is decided with.
pub fn split_question(name: &str, obj: &Object, notes: &mut Notes) -> (r: Result<(Object, Decide), Error>)
    ensures
        match split_of(name@, obj@) {
            Ok(q) => r matches Ok(v) && v.0@ == q.0 && v.1@ == q.1,
            Err(m) => r matches Err(e) && e@ == m,
        },
        r is Ok ==> writable_cuts(shipped()),
        final(notes)@ == advised(old(notes)@, question_advice(name@, obj@)),
{
    proof {
        reveal_strlit("noul");
        reveal_strlit("choice");
        assert("noul"@.len() != "choice"@.len());
    }
    let kind = match obj.get("type") {
        Some(t) => t.as_str(),
        None => None,
    };
    let kind = match kind {
        None => {
            return Err(complain(name, "missing `type`"));
        },
        Some(k) => k,
    };
    let instructions = match obj.get("instructions") {
        Some(t) => t.as_str(),
        None => None,
    };
    if instructions.is_none() {
        return Err(complain(name, "missing `instructions`"));
    }
    match check_criteria(name, kind, obj.get("criteria"), notes) {
        Err(e) => {
            return Err(e);
        },
        Ok(_) => {},
    }
    let decide = match parse_decide(name, obj.get("decide")) {
        Err(e) => {
            return Err(e);
        },
        Ok(d) => d,
    };
    // Everything except our two private keys travels to the API untouched, so a field this
    // build has never heard of still reaches the model.
    let wire = obj.without("decide").without("notes");
    Ok((wire, decide))
}

/// What is sent, what is decided with, and in what order. `names`, `wire` and `decide` line
/// up by position.
#[derive(Debug)]
pub struct Prepared {
    pub names: Vec<String>,
    pub wire: Object,
    pub decide: Vec<Decide>,
    pub model: Option<String>,
    pub max_chars: Option<usize>,
}

/// What a [`Prepared`] holds.
pub struct PreparedView {
    pub names: Seq<Seq<char>>,
    pub wire: Seq<(Seq<char>, JsonView)>,
    pub decide: Seq<DecideView>,
    pub model: Option<Seq<char>>,
    pub max_chars: Option<usize>,
}

/// What a list of [`Decide`]s holds.
pub open spec fn decides_view(v: Seq<Decide>) -> Seq<DecideView> {
    v.map_values(|d: Decide| d@)
}

impl View for Prepared {
    type V = PreparedView;

    open spec fn view(&self) -> PreparedView {
        PreparedView {
            names: views(self.names@),
            wire: self.wire@,
            decide: decides_view(self.decide@),
            model: opt_text(self.model),
            max_chars: self.max_chars,
        }
    }
}

/// The options of a choice, each described by itself. An option named twice counts once.
pub open spec fn option_entries(items: Seq<Seq<char>>) -> Seq<(Seq<char>, JsonView)>
    decreases items.len(),
{
    if items.len() == 0 {
        Seq::empty()
    } else {
        with(option_entries(items.drop_last()), items.last(), JsonView::Text(items.last()))
    }
}

/// The levels of a score.
pub open spec fn level_items(items: Seq<Seq<char>>) -> Seq<JsonView> {
    items.map_values(|s: Seq<char>| JsonView::Text(s))
}

/// A one-off question: what it asks, its type and, but for a yes/no question, its criteria.
pub open spec fn one_off(instructions: Seq<char>, kind: Seq<char>, criteria: Option<JsonView>) -> Seq<
    (Seq<char>, JsonView),
> {
    let base = seq![("instructions"@, JsonView::Text(instructions)), ("type"@, JsonView::Text(kind))];
    match criteria {
        Some(c) => base.push(("criteria"@, c)),
        None => base,
    }
}

/// The question that the flags of the command line make, or what is wrong with them.
pub open spec fn one_off_of(
    instructions: Seq<char>,
    options: Option<Seq<char>>,
    levels: Option<Seq<char>>,
) -> Result<Seq<(Seq<char>, JsonView)>, ErrorView> {
    match (options, levels) {
        (Some(_), Some(_)) => Err(invalid("flags"@, "--options and --levels are mutually exclusive"@)),
        (Some(list), None) => {
            let items = listed(list);
            if items.len() == 0 {
                Err(invalid("flags"@, "--options"@ + " is empty"@))
            } else {
                match width_problem(items.len()) {
                    Some(m) => Err(complaint("answer"@, m)),
                    None => Ok(
                        one_off(instructions, "choice"@, Some(JsonView::Object(option_entries(items)))),
                    ),
                }
            }
        },
        (None, Some(list)) => {
            let items = listed(list);
            if items.len() == 0 {
                Err(invalid("flags"@, "--levels"@ + " is empty"@))
            } else if 2 <= items.len() <= 10 {
                Ok(one_off(instructions, "score"@, Some(JsonView::Array(level_items(items)))))
            } else {
                Err(invalid("flags"@, "--levels takes 2-10 values, got "@ + decimal_of(items.len())))
            }
        },
        (None, None) => Ok(one_off(instructions, "noul"@, None)),
    }
}

/// The advice on a question made from flags.
pub open spec fn one_off_advice(options: Option<Seq<char>>, levels: Option<Seq<char>>) -> Option<Seq<char>> {
    match (options, levels) {
        (Some(list), None) => width_advice("answer"@, listed(list).len()),
        (None, None) => Some(criteria_advice("answer"@)),
        _ => None,
    }
}

/// A cut given by hand, or the shipped one.
pub open spec fn cut_or(given: Option<RealView>, fallback: RealView) -> RealView {
    match given {
        Some(x) => x,
        None => fallback,
    }
}

/// The number that may be there.
pub open spec fn opt_real(x: Option<Real>) -> Option<RealView> {
    match x {
        Some(x) => Some(x@),
        None => None,
    }
}

/// The text that may be there.
pub open spec fn opt_str(s: Option<&str>) -> Option<Seq<char>> {
    match s {
        Some(s) => Some(s@),
        None => None,
    }
}

/// The one question that the command line asks, or what is wrong with its flags.
pub open spec fn shorthand_of(
    instructions: Seq<char>,
    options: Option<Seq<char>>,
    levels: Option<Seq<char>>,
    yes_at: Option<RealView>,
    no_at: Option<RealView>,
    min_confidence: Option<RealView>,
) -> Result<PreparedView, ErrorView> {
    match one_off_of(instructions, options, levels) {
        Err(e) => Err(e),
        Ok(q) => {
            let decide = DecideView {
                yes: cut_or(yes_at, nine_tenths()),
                no: cut_or(no_at, one_tenth()),
                min_confidence: cut_or(min_confidence, nine_tenths()),
                validated: None,
                tuned: yes_at is Some || no_at is Some || min_confidence is Some,
                gated: min_confidence is Some,
            };
            if lt(decide.yes.bits, decide.no.bits) {
                Err(invalid("flags"@, "--no-at is above --yes-at"@))
            } else {
                Ok(
                    PreparedView {
                        names: seq!["answer"@],
                        wire: seq![("answer"@, JsonView::Object(q))],
                        decide: seq![decide],
                        model: None,
                        max_chars: None,
                    },
                )
            }
        },
    }
}

/// The items of a comma-separated flag, of which there must be one.
pub fn split_list(raw: &str, flag: &str) -> (r: Result<Vec<String>, Error>)
    ensures
        match r {
            Ok(items) => views(items@) == listed(raw@) && listed(raw@).len() > 0,
            Err(e) => listed(raw@).len() == 0 && e@ == invalid("flags"@, flag@ + " is empty"@),
        },
{
    let items = text::list_items(raw);
    proof {
        assert(views(items@).len() == items@.len());
    }
    if items.is_empty() {
        Err(Error::invalid("flags", text::cat(flag, " is empty").as_str()))
    } else {
        Ok(items)
    }
}

fn options_object(items: &Vec<String>) -> (r: Object)
    ensures
        r@ == option_entries(views(items@)),
{
    let mut out = Object::new();
    let mut i: usize = 0;
    let ghost all = views(items@);
    proof {
        assert(all.take(0).len() == 0);
    }
    while i < items.len()
        invariant
            all == views(items@),
            i <= items@.len(),
            out@ == option_entries(all.take(i as int)),
        decreases items@.len() - i,
    {
        proof {
            assert(all.take(i + 1).drop_last() =~= all.take(i as int));
            assert(all.take(i + 1).last() == items@[i as int]@);
        }
        out = out.with(items[i].as_str(), Json::Text(items[i].clone()));
        i += 1;
    }
    proof {
        assert(all.take(all.len() as int) =~= all);
    }
    out
}

fn levels_array(items: &Vec<String>) -> (r: Vec<Json>)
    ensures
        items_view(r@) == level_items(views(items@)),
{
    let mut out: Vec<Json> = Vec::new();
    let mut i: usize = 0;
    while i < items.len()
        invariant
            i <= items@.len(),
            out@.len() == i,
            forall|k: int| 0 <= k < i ==> (#[trigger] out@[k])@ == JsonView::Text(items@[k]@),
        decreases items@.len() - i,
    {
        out.push(Json::Text(items[i].clone()));
        i += 1;
    }
    proof {
        assert(items_view(out@) =~= level_items(views(items@)));
    }
    out
}

fn one_off_object(instructions: &str, kind: &str, criteria: Option<Json>) -> (r: Object)
    ensures
        r@ == one_off(
            instructions@,
            kind@,
            match criteria {
                Some(c) => Some(c@),
                None => None,
            },
        ),
{
    proof {
        broadcast use lemma_lookup_push;

        reveal_strlit("instructions");
        reveal_strlit("type");
        reveal_strlit("criteria");
        assert("instructions"@.len() == 12 && "type"@.len() == 4 && "criteria"@.len() == 8);
    }
    let q = Object::new().with("instructions", Json::Text(instructions.to_owned())).with(
        "type",
        Json::Text(kind.to_owned()),
    );
    let ghost base = q@;
    proof {
        assert(base =~= one_off(instructions@, kind@, None));
    }
    match criteria {
        Some(c) => q.with("criteria", c),
        None => q,
    }
}

/// The one-off question a human types at a terminal. It gets the shipped defaults and the
/// output marks it, so nobody mistakes a default for a measurement.
pub fn shorthand(
    instructions: &str,
    options: Option<&str>,
    levels: Option<&str>,
    yes_at: Option<Real>,
    no_at: Option<Real>,
    min_confidence: Option<Real>,
    notes: &mut Notes,
) -> (r: Result<Prepared, Error>)
    ensures
        says(
            r,
            shorthand_of(
                instructions@,
                opt_str(options),
                opt_str(levels),
                opt_real(yes_at),
                opt_real(no_at),
                opt_real(min_confidence),
            ),
        ),
        writable_flags(opt_real(yes_at), opt_real(no_at), opt_real(min_confidence)) ==> (r matches Ok(p)
            ==> writable_prepared(p@)),
        final(notes)@ == advised(old(notes)@, one_off_advice(opt_str(options), opt_str(levels))),
{
    let q = match (options, levels) {
        (Some(_), Some(_)) => {
            return Err(Error::invalid("flags", "--options and --levels are mutually exclusive"));
        },
        (Some(list), None) => {
            let items = match split_list(list, "--options") {
                Ok(items) => items,
                Err(e) => {
                    return Err(e);
                },
            };
            proof {
                assert(views(items@).len() == items@.len());
            }
            match check_choice_len("answer", items.len(), notes) {
                Ok(_) => {},
                Err(e) => {
                    return Err(e);
                },
            }
            one_off_object(instructions, "choice", Some(Json::Object(options_object(&items))))
        },
        (None, Some(list)) => {
            let items = match split_list(list, "--levels") {
                Ok(items) => items,
                Err(e) => {
                    return Err(e);
                },
            };
            proof {
                assert(views(items@).len() == items@.len());
            }
            if !(2 <= items.len() && items.len() <= 10) {
                return Err(
                    Error::invalid(
                        "flags",
                        text::cat(
                            "--levels takes 2-10 values, got ",
                            text::decimal(items.len() as u64).as_str(),
                        ).as_str(),
                    ),
                );
            }
            one_off_object(instructions, "score", Some(Json::Array(levels_array(&items))))
        },
        (None, None) => {
            note(notes, missing_criteria("answer").as_str());
            one_off_object(instructions, "noul", None)
        },
    };
    let gated = min_confidence.is_some();
    let tuned = yes_at.is_some() || no_at.is_some() || gated;
    let yes = match yes_at {
        Some(x) => x,
        None => Real::nine_tenths(),
    };
    let no = match no_at {
        Some(x) => x,
        None => Real::one_tenth(),
    };
    let min_confidence = match min_confidence {
        Some(x) => x,
        None => Real::nine_tenths(),
    };
    if below(yes.bits, no.bits) {
        return Err(Error::invalid("flags", "--no-at is above --yes-at"));
    }
    let wire = Object::new().with("answer", Json::Object(q));
    let mut names: Vec<String> = Vec::new();
    names.push("answer".to_owned());
    let mut decide: Vec<Decide> = Vec::new();
    decide.push(Decide { yes, no, min_confidence, validated: None, tuned, gated });
    let prepared = Prepared { names, wire, decide, model: None, max_chars: None };
    proof {
        assert(prepared@.names =~= seq!["answer"@]);
        assert(prepared@.decide =~= seq![decide@[0]@]);
    }
    Ok(prepared)
}

/// Thresholds and notes never leave this process, and everything else does: what is sent of
/// a question has neither private key and agrees with the question on every other one, so a
/// field nobody has heard of yet still travels.
pub proof fn lemma_only_private_keys_stay(obj: Seq<(Seq<char>, JsonView)>, other: Seq<char>)
    requires
        distinct(obj),
    ensures
        lookup(wire_of(obj), "decide"@) is None,
        lookup(wire_of(obj), "notes"@) is None,
        other != "decide"@ && other != "notes"@ ==> lookup(wire_of(obj), other) == lookup(obj, other),
{
    let half = without(obj, "decide"@);
    lemma_without(obj, "decide"@, other);
    lemma_without(half, "notes"@, other);
    lemma_without(half, "notes"@, "decide"@);
    reveal_strlit("decide");
    reveal_strlit("notes");
    assert("decide"@.len() == 6 && "notes"@.len() == 5);
}

/// The cuts of a question are probabilities, and `no` is never above `yes`.
pub proof fn lemma_cuts_are_in_order(raw: Option<JsonView>)
    ensures
        cuts(raw) matches Ok(d) ==> {
            &&& le(ZERO, d.no.bits)
            &&& le(d.no.bits, d.yes.bits)
            &&& le(d.yes.bits, ONE)
            &&& le(ZERO, d.min_confidence.bits)
            &&& le(d.min_confidence.bits, ONE)
        },
{
    lemma_order(ZERO, one_tenth().bits);
    lemma_order(one_tenth().bits, nine_tenths().bits);
    lemma_order(nine_tenths().bits, ONE);
}

/// A question that nobody wrote cuts for gets the shipped ones, and is not counted as tuned
/// or measured.
pub proof fn lemma_no_block_means_shipped(name: Seq<char>, obj: Seq<(Seq<char>, JsonView)>)
    requires
        lookup(obj, "decide"@) is None,
    ensures
        split_of(name, obj) matches Ok(q) ==> q.1 == shipped(),
{
}

/// A choice has from two options to as many as the API takes; more than are recommended is
/// advised on and never refused.
pub proof fn lemma_width(name: Seq<char>, len: nat)
    ensures
        width_problem(len) is None <==> 2 <= len <= MAX_CHOICES,
        width_advice(name, len) is Some <==> RECOMMENDED_CHOICES < len <= MAX_CHOICES,
{
}

/// The cuts of a question are written as themselves.
pub open spec fn writable_cuts(d: DecideView) -> bool {
    writable(d.yes) && writable(d.no) && writable(d.min_confidence)
}

/// The cuts of every question are written as themselves.
pub open spec fn writable_prepared(p: PreparedView) -> bool {
    forall|i: int| 0 <= i < p.decide.len() ==> writable_cuts(#[trigger] p.decide[i])
}

/// The cuts that a command line gives are written as themselves.
pub open spec fn writable_flags(
    yes_at: Option<RealView>,
    no_at: Option<RealView>,
    min_confidence: Option<RealView>,
) -> bool {
    &&& yes_at matches Some(x) ==> writable(x)
    &&& no_at matches Some(x) ==> writable(x)
    &&& min_confidence matches Some(x) ==> writable(x)
}

/// Cuts that were read from a text, and the shipped ones, are written as themselves.
pub proof fn lemma_cuts_are_writable(raw: Option<JsonView>, depth: nat)
    requires
        raw matches Some(j) ==> sound(j, depth),
        writable_cuts(shipped()),
    ensures
        cuts(raw) matches Ok(d) ==> writable_cuts(d),
{
    if let Some(j) = raw {
        lemma_sound_field(j, "yes"@, depth);
        lemma_sound_field(j, "no"@, depth);
        lemma_sound_field(j, "min_confidence"@, depth);
    }
}

}
