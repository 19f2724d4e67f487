//! Whole question sets: reading a file, and preparing its questions.

use vstd::prelude::*;

use crate::codec::{faithful, json_reading, lemma_sound_entry, lemma_sound_field, sound, DEEPEST};
use crate::error::{invalid, says, Error, ErrorView};
use crate::json::{distinct, field, items_view, lemma_lookup, lookup, object_of, whole_of, within, Json, JsonView, Object};
use crate::notes::{Notes, NotesView};
use crate::provider::opt_text;
use crate::questions::{
    advised, decides_view, lemma_cuts_are_writable, lemma_only_private_keys_stay, one, question_advice, shipped, split_of, split_question, Decide, DecideView, Prepared, PreparedView,
    writable_cuts, writable_prepared,
};
use crate::refusal::{
    field_of, field_with, refusal, refusal_of, unknown_field, unknown_field_text, wrong_number, wrong_number_text, wrong_type, wrong_type_text,
};
use crate::text;
use crate::text::{decimal_of, views};

verus! {

/// A question set as it stands in its file.
#[derive(Debug)]
pub struct QuestionSet {
    pub version: u32,
    /// Pins the model these thresholds were validated against. A floating model id silently
    /// rots every threshold under it, so a mismatch downgrades the verdict rather than
    /// applying numbers that were measured somewhere else.
    pub model: Option<String>,
    pub max_chars: Option<usize>,
    pub questions: Object,
}

/// What a [`QuestionSet`] holds.
pub struct QuestionSetView {
    pub version: u32,
    pub model: Option<Seq<char>>,
    pub max_chars: Option<usize>,
    pub questions: Seq<(Seq<char>, JsonView)>,
}

impl View for QuestionSet {
    type V = QuestionSetView;

    open spec fn view(&self) -> QuestionSetView {
        QuestionSetView {
            version: self.version,
            model: opt_text(self.model),
            max_chars: self.max_chars,
            questions: self.questions@,
        }
    }
}

/// The first key of a set that it may not have.
pub open spec fn unknown_key(m: Seq<(Seq<char>, JsonView)>) -> Option<Seq<char>>
    decreases m.len(),
{
    if m.len() == 0 {
        None
    } else {
        match unknown_key(m.drop_last()) {
            Some(k) => Some(k),
            None => if field_of(m.last().0) is Some {
                None
            } else {
                Some(m.last().0)
            },
        }
    }
}

/// The version that a set is written in: 1 where it does not say.
pub open spec fn version_of(v: Option<JsonView>) -> Result<u32, Seq<char>> {
    match v {
        None => Ok(1),
        Some(v) => match whole_of(Some(v)) {
            Some(n) => if n <= u32::MAX {
                Ok(n as u32)
            } else {
                Err(wrong_number(v, "u32"@))
            },
            None => Err(wrong_number(v, "u32"@)),
        },
    }
}

/// The model that a set pins.
pub open spec fn model_of(v: Option<JsonView>) -> Result<Option<Seq<char>>, Seq<char>> {
    match v {
        None => Ok(None),
        Some(JsonView::Null) => Ok(None),
        Some(JsonView::Text(s)) => Ok(Some(s)),
        Some(v) => Err(wrong_type(v, "a string"@)),
    }
}

/// The length that a set is meant for.
pub open spec fn max_chars_of(v: Option<JsonView>) -> Result<Option<usize>, Seq<char>> {
    match v {
        None => Ok(None),
        Some(JsonView::Null) => Ok(None),
        Some(v) => match whole_of(Some(v)) {
            Some(n) => if n <= usize::MAX {
                Ok(Some(n as usize))
            } else {
                Err(wrong_number(v, "usize"@))
            },
            None => Err(wrong_number(v, "usize"@)),
        },
    }
}

/// The questions of a set, which must be there; else `missing` is said.
pub open spec fn questions_of(v: Option<JsonView>, missing: Seq<char>) -> Result<
    Seq<(Seq<char>, JsonView)>,
    Seq<char>,
> {
    match v {
        None => Err(missing),
        Some(JsonView::Object(m)) => Ok(m),
        Some(v) => Err(wrong_type(v, "a map"@)),
    }
}

/// A set put together from its four fields, or what is wrong with the first that is wrong.
pub open spec fn fields_of(
    version: Option<JsonView>,
    model: Option<JsonView>,
    max_chars: Option<JsonView>,
    questions: Option<JsonView>,
    missing: Seq<char>,
) -> Result<QuestionSetView, Seq<char>> {
    match version_of(version) {
        Err(m) => Err(m),
        Ok(version) => match model_of(model) {
            Err(m) => Err(m),
            Ok(model) => match max_chars_of(max_chars) {
                Err(m) => Err(m),
                Ok(max_chars) => match questions_of(questions, missing) {
                    Err(m) => Err(m),
                    Ok(questions) => Ok(QuestionSetView { version, model, max_chars, questions }),
                },
            },
        },
    }
}

/// The item of a list at a position, if there is one.
pub open spec fn item(v: Seq<JsonView>, i: int) -> Option<JsonView> {
    if i < v.len() {
        Some(v[i])
    } else {
        None
    }
}

/// The set that a JSON value stands for, or what is wrong with it: the first key that it may
/// not have, else the first of its four fields that is wrong. An array holds the four fields
/// in their order. A value has no place in a text, so none is given.
pub open spec fn set_of(j: JsonView) -> Result<QuestionSetView, Seq<char>> {
    match j {
        JsonView::Object(m) => match unknown_key(m) {
            Some(k) => Err(unknown_field(k)),
            None => fields_of(
                lookup(m, "version"@),
                lookup(m, "model"@),
                lookup(m, "max_chars"@),
                lookup(m, "questions"@),
                "missing field `questions`"@,
            ),
        },
        JsonView::Array(v) => match fields_of(
            item(v, 0),
            item(v, 1),
            item(v, 2),
            item(v, 3),
            "invalid length 3, expected struct QuestionSet with 4 elements"@,
        ) {
            Err(m) => Err(m),
            Ok(s) => if v.len() > 4 {
                Err("trailing characters"@)
            } else {
                Ok(s)
            },
        },
        _ => Err(wrong_type(j, "struct QuestionSet"@)),
    }
}

/// What a question file says, or what is wrong with it: the first thing in the text that a
/// set may not have, with its line and column, or what is wrong with it as JSON.
pub open spec fn set_reading(raw: Seq<char>, origin: Seq<char>) -> Result<QuestionSetView, ErrorView> {
    let read = match refusal_of(raw) {
        Some(m) => Err(m),
        None => match json_reading(raw) {
            Err(m) => Err(m),
            Ok(j) => set_of(j),
        },
    };
    match read {
        Ok(s) => Ok(s),
        Err(m) => Err(invalid("question_file"@, origin + ": "@ + m)),
    }
}

fn first_unknown(obj: &Object) -> (r: Option<&str>)
    ensures
        match r {
            Some(k) => unknown_key(obj@) == Some(k@),
            None => unknown_key(obj@) is None,
        },
{
    let mut i: usize = 0;
    proof {
        assert(obj@.take(0).len() == 0);
    }
    while i < obj.len()
        invariant
            i <= obj@.len(),
            unknown_key(obj@.take(i as int)) is None,
        decreases obj@.len() - i,
    {
        let key = obj.key_at(i);
        proof {
            assert(obj@.take(i + 1).drop_last() =~= obj@.take(i as int));
            assert(obj@.take(i + 1).last() == obj@[i as int]);
        }
        if field_with(key).is_none() {
            proof {
                lemma_first_unknown(obj@, i + 1);
            }
            return Some(key);
        }
        i += 1;
    }
    proof {
        assert(obj@.take(obj@.len() as int) =~= obj@);
    }
    None
}

proof fn lemma_first_unknown(m: Seq<(Seq<char>, JsonView)>, k: int)
    requires
        0 <= k <= m.len(),
        unknown_key(m.take(k)) is Some,
    ensures
        unknown_key(m) == unknown_key(m.take(k)),
    decreases m.len() - k,
{
    if k == m.len() {
        assert(m.take(k) =~= m);
    } else {
        assert(m.take(k + 1).drop_last() =~= m.take(k));
        lemma_first_unknown(m, k + 1);
    }
}

fn read_version(v: Option<&Json>) -> (r: Result<u32, String>)
    ensures
        match version_of(opt_view(v)) {
            Ok(n) => r matches Ok(x) && x == n,
            Err(m) => r matches Err(e) && e@ == m,
        },
{
    match v {
        None => Ok(one()),
        Some(v) => match v.as_u64() {
            Some(n) => if n <= 0xffff_ffff {
                Ok(n as u32)
            } else {
                Err(wrong_number_text(v, "u32"))
            },
            None => Err(wrong_number_text(v, "u32")),
        },
    }
}

/// What a JSON value that may be there says.
pub open spec fn opt_view(v: Option<&Json>) -> Option<JsonView> {
    match v {
        Some(j) => Some(j@),
        None => None,
    }
}

fn read_model(v: Option<&Json>) -> (r: Result<Option<String>, String>)
    ensures
        match model_of(opt_view(v)) {
            Ok(n) => r matches Ok(x) && opt_text(x) == n,
            Err(m) => r matches Err(e) && e@ == m,
        },
{
    match v {
        None => Ok(None),
        Some(Json::Null) => Ok(None),
        Some(Json::Text(s)) => Ok(Some(s.clone())),
        Some(v) => Err(wrong_type_text(v, "a string")),
    }
}

fn read_max_chars(v: Option<&Json>) -> (r: Result<Option<usize>, String>)
    ensures
        match max_chars_of(opt_view(v)) {
            Ok(n) => r matches Ok(x) && x == n,
            Err(m) => r matches Err(e) && e@ == m,
        },
{
    match v {
        None => Ok(None),
        Some(Json::Null) => Ok(None),
        Some(v) => match v.as_u64() {
            Some(n) => if n <= usize::MAX as u64 {
                Ok(Some(n as usize))
            } else {
                Err(wrong_number_text(v, "usize"))
            },
            None => Err(wrong_number_text(v, "usize")),
        },
    }
}

fn read_questions(v: Option<&Json>, missing: &str) -> (r: Result<Object, String>)
    ensures
        match questions_of(opt_view(v), missing@) {
            Ok(n) => r matches Ok(x) && x@ == n,
            Err(m) => r matches Err(e) && e@ == m,
        },
{
    match v {
        None => Err(missing.to_owned()),
        Some(Json::Object(o)) => Ok(o.clone()),
        Some(v) => Err(wrong_type_text(v, "a map")),
    }
}

fn read_fields(
    version: Option<&Json>,
    model: Option<&Json>,
    max_chars: Option<&Json>,
    questions: Option<&Json>,
    missing: &str,
) -> (r: Result<QuestionSet, String>)
    ensures
        match fields_of(opt_view(version), opt_view(model), opt_view(max_chars), opt_view(questions), missing@) {
            Ok(s) => r matches Ok(x) && x@ == s,
            Err(m) => r matches Err(e) && e@ == m,
        },
{
    let version = match read_version(version) {
        Ok(x) => x,
        Err(e) => {
            return Err(e);
        },
    };
    let model = match read_model(model) {
        Ok(x) => x,
        Err(e) => {
            return Err(e);
        },
    };
    let max_chars = match read_max_chars(max_chars) {
        Ok(x) => x,
        Err(e) => {
            return Err(e);
        },
    };
    let questions = match read_questions(questions, missing) {
        Ok(x) => x,
        Err(e) => {
            return Err(e);
        },
    };
    Ok(QuestionSet { version, model, max_chars, questions })
}

fn item_at(v: &Vec<Json>, i: usize) -> (r: Option<&Json>)
    ensures
        opt_view(r) == item(items_view(v@), i as int),
{
    if i < v.len() {
        Some(&v[i])
    } else {
        None
    }
}

proof fn lemma_set_is_sound(j: JsonView)
    requires
        sound(j, DEEPEST as nat),
    ensures
        set_of(j) matches Ok(s) ==> sound(JsonView::Object(s.questions), (DEEPEST - 1) as nat),
{
    lemma_sound_field(j, "questions"@, DEEPEST as nat);
    if let JsonView::Array(v) = j {
        assert(j->Array_0 == v);
        if v.len() >= 4 {
            assert(faithful(j->Array_0[3]) && within(j->Array_0[3], (DEEPEST - 1) as nat));
        }
    }
}

impl QuestionSet {
    /// The set that a JSON value stands for.
    pub fn from_json(j: &Json) -> (r: Result<QuestionSet, String>)
        ensures
            match set_of(j@) {
                Ok(s) => r matches Ok(x) && x@ == s,
                Err(m) => r matches Err(e) && e@ == m,
            },
    {
        match j {
            Json::Object(o) => match first_unknown(o) {
                Some(k) => Err(unknown_field_text(k)),
                None => read_fields(
                    o.get("version"),
                    o.get("model"),
                    o.get("max_chars"),
                    o.get("questions"),
                    "missing field `questions`",
                ),
            },
            Json::Array(v) => {
                proof {
                    assert(j@ == JsonView::Array(items_view(v@)));
                }
                match read_fields(
                    item_at(v, 0),
                    item_at(v, 1),
                    item_at(v, 2),
                    item_at(v, 3),
                    "invalid length 3, expected struct QuestionSet with 4 elements",
                ) {
                    Err(m) => Err(m),
                    Ok(s) => if v.len() > 4 {
                        Err("trailing characters".to_owned())
                    } else {
                        Ok(s)
                    },
                }
            },
            _ => Err(wrong_type_text(j, "struct QuestionSet")),
        }
    }

    /// Reads a question file. `origin` is where it came from. What is wrong with a file is said
    /// of the first place in its text that is wrong.
    pub fn parse(raw: &str, origin: &str) -> (r: Result<QuestionSet, Error>)
        ensures
            says(r, set_reading(raw@, origin@)),
            r matches Ok(s) ==> sound(JsonView::Object(s@.questions), (DEEPEST - 1) as nat),
    {
        let read = match refusal(raw) {
            Some(m) => Err(m),
            None => match Json::parse(raw) {
                Err(m) => Err(m),
                Ok(j) => {
                    proof {
                        lemma_set_is_sound(j@);
                    }
                    QuestionSet::from_json(&j)
                },
            },
        };
        match read {
            Ok(s) => Ok(s),
            Err(m) => Err(Error::invalid("question_file", text::cat3(origin, ": ", m.as_str()).as_str())),
        }
    }
}

/// What the questions of a set come to: names, what is sent and what is decided with.
pub struct PartsView {
    pub names: Seq<Seq<char>>,
    pub wire: Seq<(Seq<char>, JsonView)>,
    pub decide: Seq<DecideView>,
}

/// One question of a set, split, or what is wrong with it.
pub open spec fn entry_of(entry: (Seq<char>, JsonView)) -> Result<
    (Seq<(Seq<char>, JsonView)>, DecideView),
    ErrorView,
> {
    match object_of(Some(entry.1)) {
        None => Err(invalid("question_file"@, "question `"@ + entry.0 + "` is not an object"@)),
        Some(obj) => split_of(entry.0, obj),
    }
}

/// The questions of a set, split one after the other, or what is wrong with the first that
/// is wrong.
pub open spec fn parts_of(questions: Seq<(Seq<char>, JsonView)>) -> Result<PartsView, ErrorView>
    decreases questions.len(),
{
    if questions.len() == 0 {
        Ok(PartsView { names: Seq::empty(), wire: Seq::empty(), decide: Seq::empty() })
    } else {
        match parts_of(questions.drop_last()) {
            Err(e) => Err(e),
            Ok(p) => match entry_of(questions.last()) {
                Err(e) => Err(e),
                Ok(q) => Ok(
                    PartsView {
                        names: p.names.push(questions.last().0),
                        wire: p.wire.push((questions.last().0, JsonView::Object(q.0))),
                        decide: p.decide.push(q.1),
                    },
                ),
            },
        }
    }
}

/// The advice on the questions of a set, up to the first that is wrong.
pub open spec fn advice_of(n: NotesView, questions: Seq<(Seq<char>, JsonView)>) -> NotesView
    decreases questions.len(),
{
    if questions.len() == 0 {
        n
    } else {
        let before = advice_of(n, questions.drop_last());
        match (parts_of(questions.drop_last()), object_of(Some(questions.last().1))) {
            (Ok(_), Some(obj)) => advised(before, question_advice(questions.last().0, obj)),
            _ => before,
        }
    }
}

/// What a set comes to, or what is wrong with it.
pub open spec fn prepared_of(s: QuestionSetView) -> Result<PreparedView, ErrorView> {
    if s.version != 1 {
        Err(
            invalid(
                "question_file"@,
                "unknown version "@ + decimal_of(s.version as nat) + " (this build understands 1)"@,
            ),
        )
    } else if s.questions.len() == 0 {
        Err(invalid("question_file"@, "no questions in the set"@))
    } else {
        match parts_of(s.questions) {
            Err(e) => Err(e),
            Ok(p) => Ok(
                PreparedView {
                    names: p.names,
                    wire: p.wire,
                    decide: p.decide,
                    model: s.model,
                    max_chars: s.max_chars,
                },
            ),
        }
    }
}

/// Where advice is not wanted, none is given, whatever the questions.
pub proof fn lemma_quiet_advice(n: NotesView, questions: Seq<(Seq<char>, JsonView)>)
    requires
        n.quiet || n.silenced,
    ensures
        advice_of(n, questions) == n,
    decreases questions.len(),
{
    if questions.len() > 0 {
        lemma_quiet_advice(n, questions.drop_last());
    }
}

/// Once a question is wrong, so is the set, in the same way and with the same advice.
proof fn lemma_first_wrong(n: NotesView, questions: Seq<(Seq<char>, JsonView)>, k: int)
    requires
        0 <= k <= questions.len(),
        parts_of(questions.take(k)) is Err,
    ensures
        parts_of(questions) == parts_of(questions.take(k)),
        advice_of(n, questions) == advice_of(n, questions.take(k)),
    decreases questions.len() - k,
{
    if k == questions.len() {
        assert(questions.take(k) =~= questions);
    } else {
        assert(questions.take(k + 1).drop_last() =~= questions.take(k));
        lemma_first_wrong(n, questions, k + 1);
    }
}

/// A name, what is sent and what is decided with belong to one question.
pub open spec fn lined_up(
    question: (Seq<char>, JsonView),
    name: Seq<char>,
    sent: (Seq<char>, JsonView),
    d: DecideView,
) -> bool {
    &&& name == question.0
    &&& sent.0 == question.0
    &&& entry_of(question) matches Ok(q)
    &&& sent.1 == JsonView::Object(q.0)
    &&& d == q.1
}

/// `names`, `wire` and `decide` line up by position, in the order of the file: each question
/// is sent under its own name and judged by its own cuts.
pub proof fn lemma_parts_line_up(questions: Seq<(Seq<char>, JsonView)>)
    ensures
        parts_of(questions) matches Ok(p) ==> {
            &&& p.names.len() == questions.len()
            &&& p.wire.len() == questions.len()
            &&& p.decide.len() == questions.len()
            &&& forall|i: int|
                0 <= i < questions.len() ==> lined_up(questions[i], #[trigger] p.names[i], p.wire[i], p.decide[i])
        },
    decreases questions.len(),
{
    if questions.len() > 0 {
        lemma_parts_line_up(questions.drop_last());
        if let Ok(p) = parts_of(questions) {
            let before = parts_of(questions.drop_last())->Ok_0;
            assert forall|i: int| 0 <= i < questions.len() implies lined_up(
                questions[i],
                #[trigger] p.names[i],
                p.wire[i],
                p.decide[i],
            ) by {
                if i < questions.len() - 1 {
                    assert(questions.drop_last()[i] == questions[i]);
                    assert(before.names[i] == p.names[i]);
                    assert(lined_up(questions.drop_last()[i], before.names[i], before.wire[i], before.decide[i]));
                }
            }
        }
    }
}

impl QuestionSet {
    /// Checks every question and splits it into what is sent and what is decided with.
    pub fn prepare(self, notes: &mut Notes) -> (r: Result<Prepared, Error>)
        ensures
            says(r, prepared_of(self@)),
            r is Ok ==> writable_cuts(shipped()),
            final(notes)@ == (if self@.version != 1 {
                old(notes)@
            } else {
                advice_of(old(notes)@, self@.questions)
            }),
    {
        if self.version != 1 {
            return Err(
                Error::invalid(
                    "question_file",
                    text::cat3(
                        "unknown version ",
                        text::decimal(self.version as u64).as_str(),
                        " (this build understands 1)",
                    ).as_str(),
                ),
            );
        }
        if self.questions.is_empty() {
            return Err(Error::invalid("question_file", "no questions in the set"));
        }
        let ghost all = self.questions@;
        let mut names: Vec<String> = Vec::new();
        let mut wire = Object::new();
        let mut decide: Vec<Decide> = Vec::new();
        let mut i: usize = 0;
        proof {
            assert(all.take(0).len() == 0);
            assert(views(names@) =~= Seq::empty());
            assert(decides_view(decide@) =~= Seq::empty());
            use_type_invariant(&self.questions);
        }
        while i < self.questions.len()
            invariant
                self.version == 1,
                all == self.questions@,
                all.len() > 0,
                distinct(all),
                i <= all.len(),
                i > 0 ==> writable_cuts(shipped()),
                parts_of(all.take(i as int)) == Ok::<PartsView, ErrorView>(
                    PartsView { names: views(names@), wire: wire@, decide: decides_view(decide@) },
                ),
                notes@ == advice_of(old(notes)@, all.take(i as int)),
            decreases all.len() - i,
        {
            let name = self.questions.key_at(i);
            proof {
                assert(all.take(i + 1).drop_last() =~= all.take(i as int));
                assert(all.take(i + 1).last() == all[i as int]);
            }
            let obj = match self.questions.value_at(i).as_object() {
                Some(o) => o,
                None => {
                    proof {
                        lemma_first_wrong(old(notes)@, all, i + 1);
                    }
                    return Err(
                        Error::invalid("question_file", text::cat3("question `", name, "` is not an object").as_str()),
                    );
                },
            };
            let (w, d) = match split_question(name, obj, notes) {
                Ok(q) => q,
                Err(e) => {
                    proof {
                        lemma_first_wrong(old(notes)@, all, i + 1);
                    }
                    return Err(e);
                },
            };
            proof {
                lemma_parts_line_up(all.take(i as int));
                lemma_lookup(wire@, name@);
                assert forall|k: int| 0 <= k < wire@.len() implies (#[trigger] wire@[k]).0 != name@ by {
                    let p = parts_of(all.take(i as int))->Ok_0;
                    assert(p.names[k] == all.take(i as int)[k].0);
                    assert(all[k].0 != all[i as int].0);
                }
            }
            let ghost names_before = names@;
            let ghost decide_before = decide@;
            names.push(name.to_owned());
            wire = wire.with(name, Json::Object(w));
            decide.push(d);
            proof {
                assert(views(names@) =~= views(names_before).push(name@));
                assert(decides_view(decide@) =~= decides_view(decide_before).push(d@));
            }
            i += 1;
        }
        proof {
            assert(all.take(all.len() as int) =~= all);
        }
        Ok(Prepared { names, wire, decide, model: self.model, max_chars: self.max_chars })
    }
}

/// No two questions of a prepared set share a name.
pub proof fn lemma_names_are_distinct(questions: Seq<(Seq<char>, JsonView)>)
    requires
        distinct(questions),
    ensures
        parts_of(questions) matches Ok(p) ==> p.names.no_duplicates() && distinct(p.wire),
{
    lemma_parts_line_up(questions);
    if let Ok(p) = parts_of(questions) {
        assert forall|i: int, j: int| 0 <= i < p.names.len() && 0 <= j < p.names.len() && i != j implies p.names[i]
            != p.names[j] by {
            if i < j {
                assert(questions[i].0 != questions[j].0);
            } else {
                assert(questions[j].0 != questions[i].0);
            }
        }
        assert forall|i: int, j: int| 0 <= i < j < p.wire.len() implies (#[trigger] p.wire[i]).0 != (
        #[trigger] p.wire[j]).0 by {
            assert(p.names[i] == questions[i].0 && p.names[j] == questions[j].0);
            assert(questions[i].0 != questions[j].0);
        }
    }
}

/// Nothing private reaches the wire: of every question of a prepared set, what is sent has
/// neither `decide` nor `notes`.
pub proof fn lemma_nothing_private_is_sent(questions: Seq<(Seq<char>, JsonView)>, i: int)
    requires
        0 <= i < questions.len(),
        questions[i].1 matches JsonView::Object(m) ==> distinct(m),
    ensures
        parts_of(questions) matches Ok(p) ==> field(p.wire[i].1, "decide"@) is None && field(p.wire[i].1, "notes"@) is None,
{
    lemma_parts_line_up(questions);
    if let Ok(p) = parts_of(questions) {
        assert(p.names[i] == questions[i].0);
        lemma_only_private_keys_stay(questions[i].1->Object_0, "decide"@);
    }
}

/// The cuts of a prepared set are written as themselves: those that stand in its file, which
/// was read from a text, and the shipped ones.
pub proof fn lemma_prepared_cuts_are_writable(s: QuestionSetView, depth: nat)
    requires
        sound(JsonView::Object(s.questions), depth),
        writable_cuts(shipped()),
    ensures
        prepared_of(s) matches Ok(p) ==> writable_prepared(p),
{
    lemma_parts_line_up(s.questions);
    if let Ok(p) = prepared_of(s) {
        assert forall|i: int| 0 <= i < p.decide.len() implies writable_cuts(#[trigger] p.decide[i]) by {
            assert(p.names[i] == s.questions[i].0);
            lemma_sound_entry(s.questions, i, depth);
            let q = s.questions[i].1;
            lemma_sound_field(q, "decide"@, (depth - 1) as nat);
            assert(lookup(q->Object_0, "decide"@) == field(q, "decide"@));
            lemma_cuts_are_writable(field(q, "decide"@), (depth - 2) as nat);
        }
    }
}

}
