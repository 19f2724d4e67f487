//! Two renderers: one for a person reading a terminal, one for a script.

use vstd::prelude::*;

use crate::codec::{
    faithful, lemma_sound_entry, lemma_sound_object, lemma_sound_with, lemma_within_more, real_value, sound, whole_reading,
    writable, DEEPEST,
};
use crate::decide::{Outcome, OutcomeView, Source, ThresholdsView, Verdict};
use crate::json::{
    distinct, field, lemma_lookup, lemma_lookup_push, lemma_with, lookup, with, Json, JsonView, Object,
};
use crate::number::{fixed_of, RealView};
use crate::questions::opt_str;
use crate::sets::opt_view;
use crate::text;
use crate::text::views;

verus! {

/// What a list of outcomes says.
pub open spec fn outcomes_view(v: Seq<Outcome>) -> Seq<OutcomeView> {
    v.map_values(|o: Outcome| o@)
}

/// How many outcomes have a name.
pub open spec fn paired(names: Seq<Seq<char>>, outcomes: Seq<OutcomeView>) -> nat {
    if names.len() <= outcomes.len() {
        names.len()
    } else {
        outcomes.len()
    }
}

/// An outcome in a few characters: the label, or the verdict, with the number that goes with
/// it.
pub open spec fn shown(o: OutcomeView) -> Seq<char> {
    match (o.label, o.number, o.confidence) {
        (Some(label), _, Some(c)) => label + "\t"@ + fixed_of(c.bits),
        (Some(label), _, None) => label,
        (None, Some(n), _) => o.verdict.word() + "\t"@ + fixed_of(n.bits),
        (None, None, _) => o.verdict.word(),
    }
}

/// What marks an outcome that is not to be taken at face value.
pub open spec fn mark(o: OutcomeView) -> Seq<char> {
    match o.warning {
        Some(w) => "\t!"@ + w,
        None => if o.verdict == Verdict::Unsure && o.label is Some {
            "\t!unsure"@
        } else {
            ""@
        },
    }
}

/// The line for one question.
pub open spec fn line(name: Seq<char>, o: OutcomeView, single: bool) -> Seq<char> {
    let start = if single {
        ""@
    } else {
        name + "\t"@
    };
    start + shown(o) + mark(o) + "\n"@
}

/// The lines for the first `n` questions.
pub open spec fn lines(names: Seq<Seq<char>>, outcomes: Seq<OutcomeView>, single: bool, n: nat) -> Seq<char>
    decreases n,
{
    if n == 0 {
        Seq::empty()
    } else {
        lines(names, outcomes, single, (n - 1) as nat) + line(names[n - 1], outcomes[n - 1], single)
    }
}

fn shown_text(o: &Outcome) -> (r: String)
    ensures
        r@ == shown(o@),
{
    match (&o.label, &o.number, &o.confidence) {
        (Some(label), _, Some(c)) => text::cat3(label.as_str(), "\t", c.fixed().as_str()),
        (Some(label), _, None) => label.clone(),
        (None, Some(n), _) => text::cat3(o.verdict.as_str(), "\t", n.fixed().as_str()),
        (None, None, _) => o.verdict.as_str().to_owned(),
    }
}

fn mark_text(o: &Outcome) -> (r: String)
    ensures
        r@ == mark(o@),
{
    match o.warning {
        Some(w) => text::cat("\t!", w),
        None => if o.verdict == Verdict::Unsure && o.label.is_some() {
            "\t!unsure".to_owned()
        } else {
            "".to_owned()
        },
    }
}

/// One line per question. A single question drops the name, because a human asking one
/// thing does not need it echoed back.
pub fn terse(names: &[String], outcomes: &[Outcome], single: bool) -> (r: String)
    ensures
        r@ == lines(
            views(names@),
            outcomes_view(outcomes@),
            single,
            paired(views(names@), outcomes_view(outcomes@)),
        ),
{
    let mut s = String::new();
    let mut i: usize = 0;
    while i < names.len() && i < outcomes.len()
        invariant
            i <= names@.len(),
            i <= outcomes@.len(),
            s@ == lines(views(names@), outcomes_view(outcomes@), single, i as nat),
        decreases names@.len() - i,
    {
        let o = &outcomes[i];
        let start = if single {
            "".to_owned()
        } else {
            text::cat(names[i].as_str(), "\t")
        };
        let row = text::cat4(start.as_str(), shown_text(o).as_str(), mark_text(o).as_str(), "\n");
        s.append(row.as_str());
        i += 1;
    }
    s
}

/// One entry, or none.
pub open spec fn maybe(key: Seq<char>, value: Option<JsonView>) -> Seq<(Seq<char>, JsonView)> {
    match value {
        Some(v) => seq![(key, v)],
        None => Seq::empty(),
    }
}

/// What an entry that may be there adds.
pub broadcast proof fn lemma_lookup_maybe(
    m: Seq<(Seq<char>, JsonView)>,
    key: Seq<char>,
    value: Option<JsonView>,
    other: Seq<char>,
)
    ensures
        #[trigger] lookup(m + maybe(key, value), other) == (if key == other && value is Some {
            value
        } else {
            lookup(m, other)
        }),
{
    broadcast use lemma_lookup_push;

    match value {
        Some(v) => {
            assert(m + maybe(key, value) =~= m.push((key, v)));
        },
        None => {
            assert(m + maybe(key, value) =~= m);
        },
    }
}

fn put(obj: Object, key: &str, value: Option<Json>) -> (r: Object)
    requires
        lookup(obj@, key@) is None,
    ensures
        r@ == obj@ + maybe(
            key@,
            match value {
                Some(v) => Some(v@),
                None => None,
            },
        ),
{
    match value {
        Some(v) => {
            let r = obj.with(key, v);
            proof {
                assert(r@ =~= obj@ + maybe(key@, Some(v@)));
            }
            r
        },
        None => {
            proof {
                assert(obj@ =~= obj@ + maybe(key@, None));
            }
            obj
        },
    }
}

/// The JSON string that may be there.
pub open spec fn text_value(s: Option<Seq<char>>) -> Option<JsonView> {
    match s {
        Some(s) => Some(JsonView::Text(s)),
        None => None,
    }
}

/// The JSON number that may be there.
pub open spec fn number_value(x: Option<RealView>) -> Option<JsonView> {
    match x {
        Some(x) => Some(real_value(x)),
        None => None,
    }
}

/// The cuts worth disclosing: only those that could have decided a verdict of this kind, and
/// none where nobody moved any.
pub open spec fn disclosed(kind: Seq<char>, t: ThresholdsView) -> Option<JsonView> {
    let none = Seq::<(Seq<char>, JsonView)>::empty();
    if t.source == Source::Default {
        None
    } else if kind == "noul"@ {
        Some(
            JsonView::Object(
                none + maybe("yes"@, Some(real_value(t.yes))) + maybe("no"@, Some(real_value(t.no))),
            ),
        )
    } else {
        Some(JsonView::Object(none + maybe("min_confidence"@, Some(real_value(t.min_confidence)))))
    }
}

/// The key under which the number of an outcome stands.
pub open spec fn number_key(kind: Seq<char>) -> Seq<char> {
    if kind == "score"@ {
        "score"@
    } else {
        "p"@
    }
}

/// What the document says of one question.
pub open spec fn entry(o: OutcomeView) -> Seq<(Seq<char>, JsonView)> {
    Seq::<(Seq<char>, JsonView)>::empty() + maybe("type"@, Some(JsonView::Text(o.kind))) + maybe(
        "verdict"@,
        Some(JsonView::Text(o.verdict.word())),
    ) + maybe("label"@, text_value(o.label)) + maybe(number_key(o.kind), number_value(o.number)) + maybe(
        "confidence"@,
        number_value(o.confidence),
    ) + maybe("warning"@, text_value(o.warning)) + maybe(
        "thresholds"@,
        Some(JsonView::Text(o.thresholds.source.word())),
    ) + maybe("cuts"@, disclosed(o.kind, o.thresholds))
}

/// What the document says of the first `n` questions.
pub open spec fn answers(names: Seq<Seq<char>>, outcomes: Seq<OutcomeView>, n: nat) -> Seq<(Seq<char>, JsonView)>
    decreases n,
{
    if n == 0 {
        Seq::empty()
    } else {
        with(answers(names, outcomes, (n - 1) as nat), names[n - 1], JsonView::Object(entry(outcomes[n - 1])))
    }
}

/// The document for a script.
pub open spec fn document_of(
    names: Seq<Seq<char>>,
    outcomes: Seq<OutcomeView>,
    provider: Seq<char>,
    model: Option<Seq<char>>,
    usage: Option<JsonView>,
    latency_ms: u64,
) -> Seq<(Seq<char>, JsonView)> {
    Seq::<(Seq<char>, JsonView)>::empty() + maybe("ok"@, Some(JsonView::Bool(true))) + maybe(
        "provider"@,
        Some(JsonView::Text(provider)),
    ) + maybe("model"@, text_value(model)) + maybe(
        "latency_ms"@,
        Some(JsonView::Number(whole_reading(latency_ms))),
    ) + maybe("usage"@, usage) + maybe(
        "answers"@,
        Some(JsonView::Object(answers(names, outcomes, paired(names, outcomes)))),
    )
}

/// The keys of an answer are all different.
pub proof fn lemma_entry_keys()
    ensures
        "type"@ != "verdict"@,
        "type"@ != "label"@ && "verdict"@ != "label"@,
        forall|k: Seq<char>|
            "type"@ != #[trigger] number_key(k) && "verdict"@ != number_key(k) && "label"@ != number_key(k)
                && "confidence"@ != number_key(k) && "warning"@ != number_key(k) && "thresholds"@ != number_key(k)
                && "cuts"@ != number_key(k),
        "type"@ != "confidence"@ && "verdict"@ != "confidence"@ && "label"@ != "confidence"@,
        "type"@ != "warning"@ && "verdict"@ != "warning"@ && "label"@ != "warning"@ && "confidence"@ != "warning"@,
        "type"@ != "thresholds"@ && "verdict"@ != "thresholds"@ && "label"@ != "thresholds"@ && "confidence"@
            != "thresholds"@ && "warning"@ != "thresholds"@,
        "type"@ != "cuts"@ && "verdict"@ != "cuts"@ && "label"@ != "cuts"@ && "confidence"@ != "cuts"@ && "warning"@
            != "cuts"@ && "thresholds"@ != "cuts"@,
{
    reveal_strlit("type");
    reveal_strlit("verdict");
    reveal_strlit("label");
    reveal_strlit("score");
    reveal_strlit("p");
    reveal_strlit("confidence");
    reveal_strlit("warning");
    reveal_strlit("thresholds");
    reveal_strlit("cuts");
    assert("type"@.len() == 4 && "verdict"@.len() == 7 && "label"@.len() == 5 && "score"@.len() == 5 && "p"@.len()
        == 1 && "confidence"@.len() == 10 && "warning"@.len() == 7 && "thresholds"@.len() == 10 && "cuts"@.len() == 4);
    assert("type"@[0] != "cuts"@[0]);
    assert("verdict"@[0] != "warning"@[0]);
    assert("label"@[0] != "score"@[0]);
    assert("confidence"@[0] != "thresholds"@[0]);
}

/// The keys of the document are all different.
pub proof fn lemma_document_keys()
    ensures
        "ok"@ != "provider"@,
        "ok"@ != "model"@ && "provider"@ != "model"@,
        "ok"@ != "latency_ms"@ && "provider"@ != "latency_ms"@ && "model"@ != "latency_ms"@,
        "ok"@ != "usage"@ && "provider"@ != "usage"@ && "model"@ != "usage"@ && "latency_ms"@ != "usage"@,
        "ok"@ != "answers"@ && "provider"@ != "answers"@ && "model"@ != "answers"@ && "latency_ms"@ != "answers"@
            && "usage"@ != "answers"@,
        "yes"@ != "no"@,
        "ok"@ != "error"@,
        "kind"@ != "message"@,
{
    reveal_strlit("ok");
    reveal_strlit("provider");
    reveal_strlit("model");
    reveal_strlit("latency_ms");
    reveal_strlit("usage");
    reveal_strlit("answers");
    reveal_strlit("yes");
    reveal_strlit("no");
    reveal_strlit("error");
    reveal_strlit("kind");
    reveal_strlit("message");
    assert("ok"@.len() == 2 && "provider"@.len() == 8 && "model"@.len() == 5 && "latency_ms"@.len() == 10
        && "usage"@.len() == 5 && "answers"@.len() == 7 && "yes"@.len() == 3 && "no"@.len() == 2 && "error"@.len() == 5
        && "kind"@.len() == 4 && "message"@.len() == 7);
    assert("model"@[0] != "usage"@[0]);
}

fn disclosed_json(o: &Outcome) -> (r: Option<Json>)
    ensures
        match r {
            Some(j) => disclosed(o@.kind, o@.thresholds) == Some(j@),
            None => disclosed(o@.kind, o@.thresholds) is None,
        },
{
    proof {
        lemma_document_keys();
        broadcast use lemma_lookup_maybe;

    }
    let t = &o.thresholds;
    if t.source == Source::Default {
        None
    } else if text::same(o.kind.as_str(), "noul") {
        let cuts = put(Object::new(), "yes", Some(Json::double(&t.yes)));
        Some(Json::Object(put(cuts, "no", Some(Json::double(&t.no)))))
    } else {
        Some(Json::Object(put(Object::new(), "min_confidence", Some(Json::double(&t.min_confidence)))))
    }
}

fn entry_object(o: &Outcome) -> (r: Object)
    ensures
        r@ == entry(o@),
{
    proof {
        lemma_entry_keys();
        broadcast use lemma_lookup_maybe;

    }
    let label = match &o.label {
        Some(l) => Some(Json::Text(l.clone())),
        None => None,
    };
    let number = match &o.number {
        Some(n) => Some(Json::double(n)),
        None => None,
    };
    let confidence = match &o.confidence {
        Some(c) => Some(Json::double(c)),
        None => None,
    };
    let warning = match o.warning {
        Some(w) => Some(Json::Text(w.to_owned())),
        None => None,
    };
    let figure = if text::same(o.kind.as_str(), "score") {
        "score"
    } else {
        "p"
    };
    assert(figure@ == number_key(o@.kind));
    let e = put(Object::new(), "type", Some(Json::Text(o.kind.clone())));
    let e = put(e, "verdict", Some(Json::Text(o.verdict.as_str().to_owned())));
    let e = put(e, "label", label);
    let e = put(e, figure, number);
    let e = put(e, "confidence", confidence);
    let e = put(e, "warning", warning);
    // Always, not only when defaulted. A row that says nothing about its cuts cannot be
    // told apart from a row written by a version that did not record them, and the
    // reader of a stored row is exactly who this field exists for.
    let e = put(e, "thresholds", Some(Json::Text(o.thresholds.source.as_str().to_owned())));
    put(e, "cuts", disclosed_json(o))
}

/// The answers as one JSON document.
pub fn document(
    names: &[String],
    outcomes: &[Outcome],
    provider: &str,
    model: Option<&str>,
    usage: Option<&Json>,
    latency_ms: u128,
) -> (r: Json)
    requires
        latency_ms <= u64::MAX,
    ensures
        r@ == JsonView::Object(
            document_of(
                views(names@),
                outcomes_view(outcomes@),
                provider@,
                opt_str(model),
                opt_view(usage),
                latency_ms as u64,
            ),
        ),
        writable_parts(outcomes_view(outcomes@), opt_view(usage)) ==> sound(r@, DEEPEST as nat),
{
    let mut rows = Object::new();
    let mut i: usize = 0;
    while i < names.len() && i < outcomes.len()
        invariant
            i <= names@.len(),
            i <= outcomes@.len(),
            rows@ == answers(views(names@), outcomes_view(outcomes@), i as nat),
        decreases names@.len() - i,
    {
        rows = rows.with(names[i].as_str(), Json::Object(entry_object(&outcomes[i])));
        i += 1;
    }
    proof {
        lemma_document_keys();
        broadcast use lemma_lookup_maybe;

    }
    let shown_model = match model {
        Some(m) => Some(Json::Text(m.to_owned())),
        None => None,
    };
    let shown_usage = match usage {
        Some(u) => Some(u.clone()),
        None => None,
    };
    let latency = Json::whole(latency_ms as u64);
    let doc = put(Object::new(), "ok", Some(Json::Bool(true)));
    let doc = put(doc, "provider", Some(Json::Text(provider.to_owned())));
    let doc = put(doc, "model", shown_model);
    let doc = put(doc, "latency_ms", Some(latency));
    let doc = put(doc, "usage", shown_usage);
    let doc = put(doc, "answers", Some(Json::Object(rows)));
    proof {
        if writable_parts(outcomes_view(outcomes@), opt_view(usage)) {
            lemma_document_is_sound(
                views(names@),
                outcomes_view(outcomes@),
                provider@,
                opt_str(model),
                opt_view(usage),
                latency_ms as u64,
            );
        }
    }
    Json::Object(doc)
}

/// What soft mode prints in place of answers.
pub open spec fn failure_of(kind: Seq<char>, message: Seq<char>) -> Seq<(Seq<char>, JsonView)> {
    let none = Seq::<(Seq<char>, JsonView)>::empty();
    none + maybe("ok"@, Some(JsonView::Bool(false))) + maybe(
        "error"@,
        Some(
            JsonView::Object(
                none + maybe("kind"@, Some(JsonView::Text(kind))) + maybe("message"@, Some(JsonView::Text(message))),
            ),
        ),
    )
}

/// What `--soft` prints instead of failing, with exit code 0. A caller in soft mode learns of
/// a failure from `ok`, never from the exit code; a call that was answered keeps the code of
/// its verdict.
pub fn failure(kind: &str, message: &str) -> (r: Json)
    ensures
        r@ == JsonView::Object(failure_of(kind@, message@)),
{
    proof {
        lemma_document_keys();
        broadcast use lemma_lookup_maybe;

    }
    let error = put(Object::new(), "kind", Some(Json::Text(kind.to_owned())));
    let error = put(error, "message", Some(Json::Text(message.to_owned())));
    let doc = put(Object::new(), "ok", Some(Json::Bool(false)));
    Json::Object(put(doc, "error", Some(Json::Object(error))))
}

broadcast proof fn lemma_distinct_maybe(m: Seq<(Seq<char>, JsonView)>, key: Seq<char>, value: Option<JsonView>)
    requires
        distinct(m),
        lookup(m, key) is None,
    ensures
        #[trigger] distinct(m + maybe(key, value)),
{
    let w = m + maybe(key, value);
    lemma_lookup(m, key);
    assert forall|i: int, j: int| 0 <= i < j < w.len() implies (#[trigger] w[i]).0 != (#[trigger] w[j]).0 by {
        if j < m.len() {
            assert(m[i].0 != m[j].0);
        } else {
            assert(m[i].0 != key);
        }
    }
}

/// No key stands twice in the document.
pub proof fn lemma_document_is_distinct(
    names: Seq<Seq<char>>,
    outcomes: Seq<OutcomeView>,
    provider: Seq<char>,
    model: Option<Seq<char>>,
    usage: Option<JsonView>,
    latency_ms: u64,
)
    ensures
        distinct(document_of(names, outcomes, provider, model, usage, latency_ms)),
{
    broadcast use {lemma_lookup_maybe, lemma_distinct_maybe};

    lemma_document_keys();
}

/// What soft mode prints says that there is no answer, and gives the kind and the message of
/// the failure.
pub proof fn lemma_failure_says_so(kind: Seq<char>, message: Seq<char>)
    ensures
        lookup(failure_of(kind, message), "ok"@) == Some(JsonView::Bool(false)),
        lookup(failure_of(kind, message), "error"@) matches Some(e) && field(e, "kind"@) == Some(JsonView::Text(kind))
            && field(e, "message"@) == Some(JsonView::Text(message)),
{
    broadcast use lemma_lookup_maybe;

    lemma_document_keys();
}

/// Every answer says where its thresholds come from; the cuts themselves are given exactly
/// if somebody moved them, and then only those that could have decided this kind of verdict.
pub proof fn lemma_cuts_are_disclosed(o: OutcomeView)
    ensures
        lookup(entry(o), "thresholds"@) == Some(JsonView::Text(o.thresholds.source.word())),
        lookup(entry(o), "cuts"@) is Some <==> o.thresholds.source != Source::Default,
        lookup(entry(o), "cuts"@) matches Some(c) ==> (if o.kind == "noul"@ {
            &&& field(c, "yes"@) == Some(real_value(o.thresholds.yes))
            &&& field(c, "no"@) == Some(real_value(o.thresholds.no))
            &&& field(c, "min_confidence"@) is None
        } else {
            &&& field(c, "min_confidence"@) == Some(real_value(o.thresholds.min_confidence))
            &&& field(c, "yes"@) is None
            &&& field(c, "no"@) is None
        }),
{
    broadcast use lemma_lookup_maybe;

    lemma_entry_keys();
    lemma_document_keys();
    reveal_strlit("yes");
    reveal_strlit("no");
    reveal_strlit("min_confidence");
    assert("yes"@.len() == 3 && "no"@.len() == 2 && "min_confidence"@.len() == 14);
}

/// A forced verdict says which rule forced it, in the line for a person and in the document.
pub proof fn lemma_forced_verdicts_say_why(name: Seq<char>, o: OutcomeView, single: bool, why: Seq<char>)
    requires
        o.warning == Some(why),
    ensures
        ("\t!"@ + why + "\n"@).is_suffix_of(line(name, o, single)),
        lookup(entry(o), "warning"@) == Some(JsonView::Text(why)),
{
    broadcast use lemma_lookup_maybe;

    lemma_entry_keys();
    let l = line(name, o, single);
    let tail = "\t!"@ + why + "\n"@;
    assert(l.subrange(l.len() - tail.len(), l.len() as int) =~= tail);
}

/// One question drops its name; with several, each line starts with its own.
pub proof fn lemma_several_are_named(name: Seq<char>, o: OutcomeView)
    ensures
        (name + "\t"@).is_prefix_of(line(name, o, false)),
        line(name, o, false) == name + "\t"@ + line(name, o, true),
{
    reveal_strlit("");
    assert(line(name, o, false) =~= name + "\t"@ + line(name, o, true));
}

/// Where the names are distinct, the document holds each question's answer under its name.
pub proof fn lemma_each_answer_under_its_name(names: Seq<Seq<char>>, outcomes: Seq<OutcomeView>, n: nat, i: int)
    requires
        n <= paired(names, outcomes),
        0 <= i < n,
        names.no_duplicates(),
    ensures
        lookup(answers(names, outcomes, n), names[i]) == Some(JsonView::Object(entry(outcomes[i]))),
    decreases n,
{
    lemma_answers_are_distinct(names, outcomes, (n - 1) as nat);
    lemma_with(
        answers(names, outcomes, (n - 1) as nat),
        names[n - 1],
        JsonView::Object(entry(outcomes[n - 1])),
        names[i],
    );
    if i < n - 1 {
        lemma_each_answer_under_its_name(names, outcomes, (n - 1) as nat, i);
        assert(names[i] != names[n - 1]);
    }
}

proof fn lemma_answers_are_distinct(names: Seq<Seq<char>>, outcomes: Seq<OutcomeView>, n: nat)
    ensures
        distinct(answers(names, outcomes, n)),
    decreases n,
{
    if n > 0 {
        lemma_answers_are_distinct(names, outcomes, (n - 1) as nat);
        lemma_with(
            answers(names, outcomes, (n - 1) as nat),
            names[n - 1],
            JsonView::Object(entry(outcomes[n - 1])),
            names[n - 1],
        );
    }
}

broadcast proof fn lemma_sound_maybe(
    m: Seq<(Seq<char>, JsonView)>,
    key: Seq<char>,
    value: Option<JsonView>,
    depth: nat,
)
    requires
        sound(JsonView::Object(m), depth),
        depth > 0,
        value matches Some(v) ==> sound(v, (depth - 1) as nat),
    ensures
        #[trigger] sound(JsonView::Object(m + maybe(key, value)), depth),
{
    let w = m + maybe(key, value);
    assert forall|i: int| 0 <= i < w.len() implies sound((#[trigger] w[i]).1, (depth - 1) as nat) by {
        if i < m.len() {
            lemma_sound_entry(m, i, depth);
        }
    }
    lemma_sound_object(w, depth);
}

/// What soft mode prints reads back as it stands.
pub proof fn lemma_failure_is_sound(kind: Seq<char>, message: Seq<char>)
    ensures
        sound(JsonView::Object(failure_of(kind, message)), DEEPEST as nat),
{
    let none = Seq::<(Seq<char>, JsonView)>::empty();
    lemma_sound_object(none, DEEPEST as nat);
    lemma_sound_object(none, (DEEPEST - 1) as nat);
    broadcast use lemma_sound_maybe;

}

/// The numbers of an outcome are written as themselves.
pub open spec fn writable_outcome(o: OutcomeView) -> bool {
    &&& o.number matches Some(x) ==> writable(x)
    &&& o.confidence matches Some(x) ==> writable(x)
    &&& writable(o.thresholds.yes)
    &&& writable(o.thresholds.no)
    &&& writable(o.thresholds.min_confidence)
}

/// What a document is made of is written as itself: the numbers of the outcomes, and the
/// usage block.
pub open spec fn writable_parts(outcomes: Seq<OutcomeView>, usage: Option<JsonView>) -> bool {
    &&& forall|i: int| 0 <= i < outcomes.len() ==> writable_outcome(#[trigger] outcomes[i])
    &&& usage matches Some(u) ==> sound(u, (DEEPEST - 1) as nat)
}

proof fn lemma_sound_real(r: RealView)
    requires
        writable(r),
    ensures
        sound(real_value(r), 0),
        sound(real_value(r), 1),
{
}

proof fn lemma_sound_entry_of(o: OutcomeView)
    requires
        writable_outcome(o),
    ensures
        sound(JsonView::Object(entry(o)), 2),
{
    let none = Seq::<(Seq<char>, JsonView)>::empty();
    lemma_sound_object(none, 2);
    lemma_sound_object(none, 1);
    lemma_sound_real(o.thresholds.yes);
    lemma_sound_real(o.thresholds.no);
    lemma_sound_real(o.thresholds.min_confidence);
    if let Some(x) = o.number {
        lemma_sound_real(x);
    }
    if let Some(x) = o.confidence {
        lemma_sound_real(x);
    }
    broadcast use lemma_sound_maybe;

    assert(disclosed(o.kind, o.thresholds) matches Some(c) ==> sound(c, 1));
}

proof fn lemma_sound_answers(names: Seq<Seq<char>>, outcomes: Seq<OutcomeView>, n: nat)
    requires
        n <= outcomes.len(),
        forall|i: int| 0 <= i < outcomes.len() ==> writable_outcome(#[trigger] outcomes[i]),
    ensures
        sound(JsonView::Object(answers(names, outcomes, n)), 3),
    decreases n,
{
    if n == 0 {
        lemma_sound_object(Seq::empty(), 3);
    } else {
        lemma_sound_answers(names, outcomes, (n - 1) as nat);
        lemma_sound_entry_of(outcomes[n - 1]);
        lemma_sound_with(
            answers(names, outcomes, (n - 1) as nat),
            names[n - 1],
            JsonView::Object(entry(outcomes[n - 1])),
            3,
        );
    }
}

/// Where the numbers of the outcomes and the usage block are written as themselves, so is the
/// document: no probability and no cut turns into something else on the way out.
pub proof fn lemma_document_is_sound(
    names: Seq<Seq<char>>,
    outcomes: Seq<OutcomeView>,
    provider: Seq<char>,
    model: Option<Seq<char>>,
    usage: Option<JsonView>,
    latency_ms: u64,
)
    requires
        writable_parts(outcomes, usage),
        faithful(JsonView::Number(whole_reading(latency_ms))),
    ensures
        sound(JsonView::Object(document_of(names, outcomes, provider, model, usage, latency_ms)), DEEPEST as nat),
{
    let rows = JsonView::Object(answers(names, outcomes, paired(names, outcomes)));
    lemma_sound_answers(names, outcomes, paired(names, outcomes));
    lemma_within_more(rows, 3, (DEEPEST - 1) as nat);
    lemma_sound_object(Seq::empty(), DEEPEST as nat);
    broadcast use lemma_sound_maybe;

}

}
