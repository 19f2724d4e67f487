//! What a question file comes to.

use vstd::prelude::*;

use crate::codec::json_reading;
use crate::error::ErrorView;
use crate::json::{lookup, JsonView};
use crate::laws::judging::begins_with;
use crate::notes::NotesView;
use crate::questions::{advised, question_advice, split_of};
use crate::sets::{
    advice_of, fields_of, lemma_parts_line_up, parts_of, prepared_of, set_of, set_reading, unknown_key, QuestionSetView,
};

verus! {

/// Nothing, or a whole number up to some limit.
pub open spec fn counts_to(v: Option<JsonView>, most: u64) -> bool {
    match v {
        None => true,
        Some(JsonView::Number(n)) => n.whole matches Some(w) && w <= most,
        Some(_) => false,
    }
}

/// A field that may be left out or null.
pub open spec fn unset(v: Option<JsonView>) -> bool {
    v is None || v == Some(JsonView::Null)
}

/// A set is what its four fields say.
pub open spec fn is_made_of(
    s: QuestionSetView,
    version: Option<JsonView>,
    model: Option<JsonView>,
    max_chars: Option<JsonView>,
    questions: Option<JsonView>,
) -> bool {
    &&& match version {
        Some(JsonView::Number(n)) => n.whole == Some(s.version as u64),
        Some(_) => false,
        None => s.version == 1,
    }
    &&& match s.model {
        Some(m) => model == Some(JsonView::Text(m)),
        None => unset(model),
    }
    &&& match s.max_chars {
        Some(n) => max_chars matches Some(JsonView::Number(x)) && x.whole == Some(n as u64),
        None => unset(max_chars),
    }
    &&& questions == Some(JsonView::Object(s.questions))
}

/// Four fields make a set: a version that fits, a model that is a text, a length that fits, each
/// as far as it is there, and questions.
pub open spec fn make_a_set(
    version: Option<JsonView>,
    model: Option<JsonView>,
    max_chars: Option<JsonView>,
    questions: Option<JsonView>,
) -> bool {
    &&& counts_to(version, u32::MAX as u64)
    &&& unset(model) || (model matches Some(JsonView::Text(_)))
    &&& unset(max_chars) || counts_to(max_chars, usize::MAX as u64)
    &&& questions matches Some(JsonView::Object(_))
}

proof fn lemma_fields(
    version: Option<JsonView>,
    model: Option<JsonView>,
    max_chars: Option<JsonView>,
    questions: Option<JsonView>,
    missing: Seq<char>,
)
    ensures
        fields_of(version, model, max_chars, questions, missing) is Ok <==> make_a_set(
            version,
            model,
            max_chars,
            questions,
        ),
        fields_of(version, model, max_chars, questions, missing) matches Ok(s) ==> is_made_of(
            s,
            version,
            model,
            max_chars,
            questions,
        ),
{
}

proof fn lemma_unknown(m: Seq<(Seq<char>, JsonView)>)
    ensures
        unknown_key(m) is None <==> forall|i: int|
            0 <= i < m.len() ==> {
                let k = (#[trigger] m[i]).0;
                k == "version"@ || k == "model"@ || k == "max_chars"@ || k == "questions"@
            },
    decreases m.len(),
{
    if m.len() > 0 {
        lemma_unknown(m.drop_last());
        assert(forall|i: int| 0 <= i < m.len() - 1 ==> #[trigger] m[i] == m.drop_last()[i]);
        assert(m[m.len() - 1] == m.last());
        if unknown_key(m.drop_last()) is Some {
            let i = choose|i: int|
                0 <= i < m.len() - 1 && {
                    let k = (#[trigger] m.drop_last()[i]).0;
                    !(k == "version"@ || k == "model"@ || k == "max_chars"@ || k == "questions"@)
                };
            assert(m[i] == m.drop_last()[i]);
        }
    }
}

/// An object is a set exactly if it has no key but the four and they make a set; an array is one
/// exactly if it holds the four fields in their order; nothing else is one. The set is what the
/// four fields say.
pub proof fn lemma_what_a_set_says(j: JsonView)
    ensures
        match j {
            JsonView::Object(m) => {
                &&& set_of(j) is Ok <==> make_a_set(
                    lookup(m, "version"@),
                    lookup(m, "model"@),
                    lookup(m, "max_chars"@),
                    lookup(m, "questions"@),
                ) && forall|i: int|
                    0 <= i < m.len() ==> {
                        let k = (#[trigger] m[i]).0;
                        k == "version"@ || k == "model"@ || k == "max_chars"@ || k == "questions"@
                    }
                &&& set_of(j) matches Ok(s) ==> is_made_of(
                    s,
                    lookup(m, "version"@),
                    lookup(m, "model"@),
                    lookup(m, "max_chars"@),
                    lookup(m, "questions"@),
                )
            },
            JsonView::Array(v) => {
                &&& set_of(j) is Ok <==> v.len() == 4 && make_a_set(Some(v[0]), Some(v[1]), Some(v[2]), Some(v[3]))
                &&& set_of(j) matches Ok(s) ==> is_made_of(s, Some(v[0]), Some(v[1]), Some(v[2]), Some(v[3]))
            },
            _ => set_of(j) is Err,
        },
{
    match j {
        JsonView::Object(m) => {
            lemma_unknown(m);
            lemma_fields(
                lookup(m, "version"@),
                lookup(m, "model"@),
                lookup(m, "max_chars"@),
                lookup(m, "questions"@),
                "missing field `questions`"@,
            );
        },
        JsonView::Array(v) => {},
        _ => {},
    }
}

/// A file that is read as a set is JSON, and the set is what that JSON says. A file that is not
/// is the caller's fault, and what is said of it begins with where it came from.
pub proof fn lemma_what_a_file_says(raw: Seq<char>, origin: Seq<char>)
    ensures
        match set_reading(raw, origin) {
            Ok(s) => json_reading(raw) matches Ok(j) && set_of(j) == Ok::<QuestionSetView, Seq<char>>(s),
            Err(e) => e matches ErrorView::Invalid { kind, message } && kind == "question_file"@ && begins_with(
                message,
                origin + ": "@,
            ),
        },
{
    if let Err(e) = set_reading(raw, origin) {
        let head = origin + ": "@;
        let message = e->Invalid_message;
        assert forall|i: int| 0 <= i < head.len() implies #[trigger] message[i] == head[i] by {
            assert(message.take(head.len() as int) =~= head);
            assert(message.take(head.len() as int)[i] == message[i]);
        }
    }
}

/// A question of a set is in order: it is an object that can be split.
pub open spec fn in_order(q: (Seq<char>, JsonView)) -> bool {
    q.1 matches JsonView::Object(m) && split_of(q.0, m) is Ok
}

proof fn lemma_parts(questions: Seq<(Seq<char>, JsonView)>)
    ensures
        parts_of(questions) is Ok <==> forall|i: int| 0 <= i < questions.len() ==> in_order(#[trigger] questions[i]),
    decreases questions.len(),
{
    if questions.len() > 0 {
        let rest = questions.drop_last();
        lemma_parts(rest);
        assert(forall|i: int| 0 <= i < rest.len() ==> rest[i] == #[trigger] questions[i]);
        assert(questions[questions.len() - 1] == questions.last());
        if parts_of(rest) is Err {
            let i = choose|i: int| 0 <= i < rest.len() && !in_order(#[trigger] rest[i]);
            assert(!in_order(questions[i]));
        }
    }
}

/// A set is prepared exactly if it is of the first version, has a question, and each of its
/// questions is in order. Then its questions are asked under their own names, in the order of
/// the file, each as it was split, and the model and the length it was made for go with it.
pub proof fn lemma_what_a_set_asks(s: QuestionSetView)
    ensures
        prepared_of(s) is Ok <==> s.version == 1 && s.questions.len() > 0 && forall|i: int|
            0 <= i < s.questions.len() ==> in_order(#[trigger] s.questions[i]),
        prepared_of(s) matches Ok(p) ==> {
            &&& p.model == s.model
            &&& p.max_chars == s.max_chars
            &&& p.names.len() == s.questions.len()
            &&& p.wire.len() == s.questions.len()
            &&& p.decide.len() == s.questions.len()
            &&& forall|i: int|
                0 <= i < s.questions.len() ==> {
                    let q = #[trigger] s.questions[i];
                    &&& p.names[i] == q.0
                    &&& p.wire[i].0 == q.0
                    &&& q.1 matches JsonView::Object(m)
                    &&& split_of(q.0, m) matches Ok(x)
                    &&& p.wire[i].1 == JsonView::Object(x.0)
                    &&& p.decide[i] == x.1
                }
        },
        prepared_of(s) matches Err(e) ==> (e matches ErrorView::Invalid { kind, .. } && kind == "question_file"@),
{
    lemma_parts(s.questions);
    lemma_parts_line_up(s.questions);
    lemma_refused_as_a_file(s.questions);
    if let Ok(p) = prepared_of(s) {
        assert forall|i: int| 0 <= i < s.questions.len() implies {
            let q = #[trigger] s.questions[i];
            &&& p.names[i] == q.0
            &&& p.wire[i].0 == q.0
            &&& q.1 matches JsonView::Object(m)
            &&& split_of(q.0, m) matches Ok(x)
            &&& p.wire[i].1 == JsonView::Object(x.0)
            &&& p.decide[i] == x.1
        } by {
            assert(p.names[i] == s.questions[i].0);
        }
    }
}

proof fn lemma_refused_as_a_file(questions: Seq<(Seq<char>, JsonView)>)
    ensures
        parts_of(questions) matches Err(e) ==> (e matches ErrorView::Invalid { kind, .. } && kind == "question_file"@),
    decreases questions.len(),
{
    if questions.len() > 0 {
        lemma_refused_as_a_file(questions.drop_last());
    }
}

/// The first question that is wrong is the one that a set is refused for, whatever follows.
pub proof fn lemma_the_first_wrong_question_is_named(
    before: Seq<(Seq<char>, JsonView)>,
    wrong: (Seq<char>, JsonView),
    after: Seq<(Seq<char>, JsonView)>,
)
    requires
        forall|i: int| 0 <= i < before.len() ==> in_order(#[trigger] before[i]),
        !in_order(wrong),
    ensures
        parts_of(before + seq![wrong] + after) == parts_of(before + seq![wrong]),
        wrong.1 matches JsonView::Object(m) ==> (split_of(wrong.0, m) matches Err(e) && parts_of(before + seq![wrong])
            matches Err(f) && e == f),
    decreases after.len(),
{
    let upto = before + seq![wrong];
    assert(upto.drop_last() =~= before);
    assert(upto.last() == wrong);
    lemma_parts(before);
    if after.len() > 0 {
        lemma_the_first_wrong_question_is_named(before, wrong, after.drop_last());
        assert((upto + after).drop_last() =~= upto + after.drop_last());
    } else {
        assert(upto + after =~= upto);
    }
}

/// One more question in order adds its own advice and nothing else.
pub proof fn lemma_each_question_adds_its_advice(
    n: NotesView,
    questions: Seq<(Seq<char>, JsonView)>,
    name: Seq<char>,
    obj: Seq<(Seq<char>, JsonView)>,
)
    requires
        forall|i: int| 0 <= i < questions.len() ==> in_order(#[trigger] questions[i]),
    ensures
        advice_of(n, Seq::empty()) == n,
        advice_of(n, questions.push((name, JsonView::Object(obj)))) == advised(
            advice_of(n, questions),
            question_advice(name, obj),
        ),
{
    lemma_parts(questions);
    assert(questions.push((name, JsonView::Object(obj))).drop_last() =~= questions);
}

}
