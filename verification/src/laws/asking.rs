//! What is asked, and by which cuts it will be judged.

use vstd::prelude::*;

use crate::command::{probe_question, probe_state};
use crate::error::ErrorView;
use crate::json::{distinct, field, lemma_with, lookup, without, JsonView};
use crate::laws::judging::begins_with;
use crate::number::{le, lt, RealView};
use crate::questions::{cuts, option_entries, question_advice, shorthand_of, split_of, width_problem};
use crate::text::{decimal_of, listed};

verus! {

/// The double 0.9, as it is shipped.
pub open spec fn is_nine_tenths(r: RealView) -> bool {
    r.bits == 0x3fec_cccc_cccc_cccd && r.text == "0.9"@ && r.plain == "0.9"@
}

/// The double 0.1, as it is shipped.
pub open spec fn is_one_tenth(r: RealView) -> bool {
    r.bits == 0x3fb9_9999_9999_999a && r.text == "0.1"@ && r.plain == "0.1"@
}

/// What stands under a key of a block that may be there.
pub open spec fn under(block: Option<JsonView>, key: Seq<char>) -> Option<JsonView> {
    match block {
        Some(j) => field(j, key),
        None => None,
    }
}

/// Nothing, or a number from 0 to 1.
pub open spec fn fits(v: Option<JsonView>) -> bool {
    match v {
        None => true,
        Some(JsonView::Number(n)) => le(0, n.real.bits) && le(n.real.bits, 0x3ff0_0000_0000_0000),
        Some(_) => false,
    }
}

/// The pattern of the number that is written, or another one where none is.
pub open spec fn pattern_or(v: Option<JsonView>, shipped: u64) -> u64 {
    match v {
        Some(JsonView::Number(n)) => n.real.bits,
        _ => shipped,
    }
}

/// Each cut of a `decide` block is the number that is written under its own key, and the
/// shipped one exactly where its key is not there.
pub proof fn lemma_a_written_cut_is_the_cut(block: Option<JsonView>)
    ensures
        cuts(block) matches Ok(d) ==> {
            &&& match under(block, "yes"@) {
                Some(JsonView::Number(n)) => d.yes == n.real,
                Some(_) => false,
                None => is_nine_tenths(d.yes),
            }
            &&& match under(block, "no"@) {
                Some(JsonView::Number(n)) => d.no == n.real,
                Some(_) => false,
                None => is_one_tenth(d.no),
            }
            &&& match under(block, "min_confidence"@) {
                Some(JsonView::Number(n)) => d.min_confidence == n.real,
                Some(_) => false,
                None => is_nine_tenths(d.min_confidence),
            }
        },
{
}

/// A `decide` block is accepted exactly if it is an object, each cut in it is a number from 0
/// to 1, and the cut for no is not above the one for yes, shipped ones included.
pub proof fn lemma_which_cuts_are_accepted(block: Option<JsonView>)
    ensures
        cuts(block) is Ok <==> {
            &&& block matches Some(j) ==> j is Object
            &&& fits(under(block, "yes"@))
            &&& fits(under(block, "no"@))
            &&& fits(under(block, "min_confidence"@))
            &&& !lt(
                pattern_or(under(block, "yes"@), 0x3fec_cccc_cccc_cccd),
                pattern_or(under(block, "no"@), 0x3fb9_9999_9999_999a),
            )
        },
{
    if block is None {
        crate::number::lemma_order(0x3fb9_9999_9999_999a, 0x3fec_cccc_cccc_cccd);
    }
}

/// A `decide` block counts as tuned exactly if a cut is written in it, as gated exactly if the
/// minimum confidence is, and as measured exactly if it says what it was measured against. The
/// model and the length of a measurement are the ones that are written.
pub proof fn lemma_what_a_block_records(block: Option<JsonView>)
    ensures
        cuts(block) matches Ok(d) ==> {
            &&& d.tuned <==> under(block, "yes"@) is Some || under(block, "no"@) is Some || under(
                block,
                "min_confidence"@,
            ) is Some
            &&& d.gated <==> under(block, "min_confidence"@) is Some
            &&& d.validated is Some <==> under(block, "validated"@) is Some
            &&& d.validated matches Some(v) ==> {
                &&& match under(under(block, "validated"@), "model"@) {
                    Some(JsonView::Text(m)) => v.model == Some(m),
                    _ => v.model is None,
                }
                &&& match under(under(block, "validated"@), "max_chars"@) {
                    Some(JsonView::Number(n)) => match n.whole {
                        Some(w) => v.max_chars == Some(w as usize),
                        None => v.max_chars is None,
                    },
                    _ => v.max_chars is None,
                }
            }
        },
{
}

/// A question that the API would take: its type, its instructions, and criteria of the shape
/// that its type needs.
pub open spec fn well_asked(obj: Seq<(Seq<char>, JsonView)>) -> bool {
    let criteria = lookup(obj, "criteria"@);
    &&& lookup(obj, "instructions"@) matches Some(JsonView::Text(_))
    &&& lookup(obj, "type"@) matches Some(JsonView::Text(kind))
    &&& (kind == "noul"@ && match criteria {
        None => true,
        Some(JsonView::Object(m)) => lookup(m, "true"@) is Some && lookup(m, "false"@) is Some,
        Some(_) => false,
    }) || (kind == "choice"@ && match criteria {
        Some(JsonView::Object(m)) => 2 <= m.len() <= 255,
        _ => false,
    }) || (kind == "score"@ && match criteria {
        Some(JsonView::Array(v)) => 2 <= v.len() <= 10,
        _ => false,
    })
}

proof fn lemma_types()
    ensures
        "noul"@ != "choice"@,
        "noul"@ != "score"@,
        "choice"@ != "score"@,
{
    reveal_strlit("noul");
    reveal_strlit("choice");
    reveal_strlit("score");
    assert("noul"@.len() == 4 && "choice"@.len() == 6 && "score"@.len() == 5);
}

/// A question is accepted exactly if the API would take it and its cuts are accepted; it is
/// judged by those cuts. A refusal is the file's fault and names the question.
pub proof fn lemma_which_questions_are_accepted(name: Seq<char>, obj: Seq<(Seq<char>, JsonView)>)
    ensures
        split_of(name, obj) is Ok <==> well_asked(obj) && cuts(lookup(obj, "decide"@)) is Ok,
        split_of(name, obj) matches Ok(q) ==> cuts(lookup(obj, "decide"@)) matches Ok(d) && q.1 == d,
        split_of(name, obj) matches Err(e) ==> (e matches ErrorView::Invalid { kind, message } && kind
            == "question_file"@ && begins_with(message, "question `"@ + name + "`: "@)),
{
    lemma_types();
    if let Err(e) = split_of(name, obj) {
        let head = "question `"@ + name + "`: "@;
        let message = e->Invalid_message;
        assert(message.take(head.len() as int) =~= head);
        assert forall|i: int| 0 <= i < head.len() implies #[trigger] message[i] == head[i] by {
            assert(message.take(head.len() as int)[i] == message[i]);
        }
    }
}

proof fn lemma_twice_without(
    m: Seq<(Seq<char>, JsonView)>,
    a: Seq<char>,
    b: Seq<char>,
    stays: spec_fn((Seq<char>, JsonView)) -> bool,
)
    requires
        forall|e: (Seq<char>, JsonView)| #[trigger] stays(e) == (e.0 != a && e.0 != b),
    ensures
        without(without(m, a), b) == m.filter(stays),
    decreases m.len(),
{
    reveal(Seq::filter);
    if m.len() > 0 {
        lemma_twice_without(m.drop_last(), a, b, stays);
        let before = without(m.drop_last(), a);
        if m.last().0 != a {
            assert(before.push(m.last()).drop_last() =~= before);
        }
    }
}

/// What is sent of a question is the question, entry by entry and in its order, but for the two
/// private keys.
pub proof fn lemma_the_rest_is_sent_as_it_stands(name: Seq<char>, obj: Seq<(Seq<char>, JsonView)>)
    ensures
        split_of(name, obj) matches Ok(q) ==> q.0 == obj.filter(
            |e: (Seq<char>, JsonView)| e.0 != "decide"@ && e.0 != "notes"@,
        ),
{
    lemma_twice_without(
        obj,
        "decide"@,
        "notes"@,
        |e: (Seq<char>, JsonView)| e.0 != "decide"@ && e.0 != "notes"@,
    );
}

/// Advice is given on a question that the API would take and that is a yes/no question without
/// criteria or a choice with more options than are recommended, and on no other. It names the
/// question.
pub proof fn lemma_when_advice_is_given(name: Seq<char>, obj: Seq<(Seq<char>, JsonView)>)
    ensures
        question_advice(name, obj) is Some <==> {
            &&& well_asked(obj)
            &&& (lookup(obj, "type"@) == Some(JsonView::Text("noul"@)) && lookup(obj, "criteria"@) is None) || (lookup(
                obj,
                "type"@,
            ) == Some(JsonView::Text("choice"@)) && (lookup(obj, "criteria"@) matches Some(JsonView::Object(m)) && m.len()
                > 8))
        },
        question_advice(name, obj) matches Some(m) ==> begins_with(m, "question `"@ + name + "`"@),
{
    lemma_types();
    if let Some(m) = question_advice(name, obj) {
        let head = "question `"@ + name;
        reveal_strlit("` has ");
        reveal_strlit("`");
        reveal_strlit(
            "` is a noul with no `criteria`; it will be answered, but a state carrying its own instructions flips the verdict far more often without them. Give `criteria` a `true` and a `false` saying what each verdict means. Set JEVI_QUIET=1 to silence this.",
        );
        assert("`"@.len() == 1 && "`"@[0] == '`');
        assert(m[head.len() as int] == '`');
        let start = "question `"@ + name + "`"@;
        assert forall|i: int| 0 <= i < start.len() implies #[trigger] m[i] == start[i] by {
            if i < head.len() {
                assert(m.take(head.len() as int) =~= head);
                assert(m.take(head.len() as int)[i] == m[i]);
            }
        }
    }
}

/// A one-off question is judged by the cuts that the command line gives, each on its own: the
/// one that is given where one is, the shipped one where none is. It belongs to no measurement
/// and pins no model.
pub proof fn lemma_a_given_cut_is_the_cut(
    instructions: Seq<char>,
    options: Option<Seq<char>>,
    levels: Option<Seq<char>>,
    yes_at: Option<RealView>,
    no_at: Option<RealView>,
    min_confidence: Option<RealView>,
)
    ensures
        shorthand_of(instructions, options, levels, yes_at, no_at, min_confidence) matches Ok(p) ==> {
            &&& p.names == seq!["answer"@]
            &&& p.decide.len() == 1
            &&& match yes_at {
                Some(x) => p.decide[0].yes == x,
                None => is_nine_tenths(p.decide[0].yes),
            }
            &&& match no_at {
                Some(x) => p.decide[0].no == x,
                None => is_one_tenth(p.decide[0].no),
            }
            &&& match min_confidence {
                Some(x) => p.decide[0].min_confidence == x,
                None => is_nine_tenths(p.decide[0].min_confidence),
            }
            &&& p.decide[0].validated is None
            &&& p.decide[0].tuned <==> yes_at is Some || no_at is Some || min_confidence is Some
            &&& p.decide[0].gated <==> min_confidence is Some
            &&& p.model is None
            &&& p.max_chars is None
        },
{
}

/// The pattern of a number that is given, or another one where none is.
pub open spec fn given_or(given: Option<RealView>, shipped: u64) -> u64 {
    match given {
        Some(x) => x.bits,
        None => shipped,
    }
}

/// A one-off question is accepted exactly if it is not a choice and a score at once, a choice
/// has 2 to 255 options, a score 2 to 10 levels, and the cut for no is not above the one for
/// yes. A refusal is the caller's fault.
pub proof fn lemma_which_flags_are_accepted(
    instructions: Seq<char>,
    options: Option<Seq<char>>,
    levels: Option<Seq<char>>,
    yes_at: Option<RealView>,
    no_at: Option<RealView>,
    min_confidence: Option<RealView>,
)
    ensures
        shorthand_of(instructions, options, levels, yes_at, no_at, min_confidence) is Ok <==> {
            &&& options is None || levels is None
            &&& options matches Some(list) ==> 2 <= listed(list).len() <= 255
            &&& levels matches Some(list) ==> 2 <= listed(list).len() <= 10
            &&& !lt(given_or(yes_at, 0x3fec_cccc_cccc_cccd), given_or(no_at, 0x3fb9_9999_9999_999a))
        },
        shorthand_of(instructions, options, levels, yes_at, no_at, min_confidence) matches Err(e) ==> e is Invalid,
{
}

/// What a one-off question sends: the words as they were typed, and a yes/no question, a choice
/// between the options or a score over the levels, whichever the flags say.
pub proof fn lemma_what_the_flags_ask(
    instructions: Seq<char>,
    options: Option<Seq<char>>,
    levels: Option<Seq<char>>,
    yes_at: Option<RealView>,
    no_at: Option<RealView>,
    min_confidence: Option<RealView>,
)
    ensures
        shorthand_of(instructions, options, levels, yes_at, no_at, min_confidence) matches Ok(p) ==> {
            &&& p.wire.len() == 1
            &&& p.wire[0].0 == "answer"@
            &&& field(p.wire[0].1, "instructions"@) == Some(JsonView::Text(instructions))
            &&& field(p.wire[0].1, "type"@) == Some(
                JsonView::Text(
                    if options is Some {
                        "choice"@
                    } else if levels is Some {
                        "score"@
                    } else {
                        "noul"@
                    },
                ),
            )
            &&& match field(p.wire[0].1, "criteria"@) {
                None => options is None && levels is None,
                Some(JsonView::Object(m)) => options matches Some(list) && forall|k: Seq<char>|
                    #[trigger] lookup(m, k) == (if listed(list).contains(k) {
                        Some(JsonView::Text(k))
                    } else {
                        None
                    }),
                Some(JsonView::Array(v)) => levels matches Some(list) && v.len() == listed(list).len() && forall|i: int|
                    0 <= i < v.len() ==> #[trigger] v[i] == JsonView::Text(listed(list)[i]),
                Some(_) => false,
            }
        },
{
    broadcast use crate::json::lemma_lookup_push;

    reveal_strlit("instructions");
    reveal_strlit("type");
    reveal_strlit("criteria");
    assert("instructions"@.len() == 12 && "type"@.len() == 4 && "criteria"@.len() == 8);
    if let Ok(p) = shorthand_of(instructions, options, levels, yes_at, no_at, min_confidence) {
        let q = p.wire[0].1->Object_0;
        let base = Seq::<(Seq<char>, JsonView)>::empty().push(("instructions"@, JsonView::Text(instructions)));
        let kind = if options is Some {
            "choice"@
        } else if levels is Some {
            "score"@
        } else {
            "noul"@
        };
        let base = base.push(("type"@, JsonView::Text(kind)));
        if let Some(list) = options {
            let m = option_entries(listed(list));
            assert(q =~= base.push(("criteria"@, JsonView::Object(m))));
            assert forall|k: Seq<char>| #[trigger] lookup(m, k) == (if listed(list).contains(k) {
                Some(JsonView::Text(k))
            } else {
                None
            }) by {
                lemma_each_option_describes_itself(listed(list), k);
            }
        } else if let Some(list) = levels {
            let v = crate::questions::level_items(listed(list));
            assert(q =~= base.push(("criteria"@, JsonView::Array(v))));
        } else {
            assert(q =~= base);
        }
    }
}

/// The options of a choice are the items of its list, each described by itself and each once.
pub proof fn lemma_each_option_describes_itself(items: Seq<Seq<char>>, k: Seq<char>)
    ensures
        lookup(option_entries(items), k) == (if items.contains(k) {
            Some(JsonView::Text(k))
        } else {
            None
        }),
        distinct(option_entries(items)),
    decreases items.len(),
{
    if items.len() > 0 {
        let rest = items.drop_last();
        let last = items.last();
        lemma_each_option_describes_itself(rest, k);
        lemma_with(option_entries(rest), last, JsonView::Text(last), k);
        if items.contains(k) && k != last {
            let i = choose|i: int| 0 <= i < items.len() && items[i] == k;
            assert(rest[i] == k);
        }
        if rest.contains(k) {
            let i = choose|i: int| 0 <= i < rest.len() && rest[i] == k;
            assert(items[i] == k);
        }
        assert(items[items.len() - 1] == last);
    }
}

/// Options that are all different are sent in the order in which they are listed.
pub proof fn lemma_options_keep_their_order(items: Seq<Seq<char>>)
    requires
        items.no_duplicates(),
    ensures
        option_entries(items).len() == items.len(),
        forall|i: int| 0 <= i < items.len() ==> (#[trigger] option_entries(items)[i]).0 == items[i],
    decreases items.len(),
{
    if items.len() > 0 {
        let rest = items.drop_last();
        lemma_options_keep_their_order(rest);
        lemma_each_option_describes_itself(rest, items.last());
        assert(!rest.contains(items.last())) by {
            if rest.contains(items.last()) {
                let i = choose|i: int| 0 <= i < rest.len() && rest[i] == items.last();
                assert(items[i] == items[items.len() - 1]);
            }
        }
    }
}

/// What is wrong with a number of options: fewer than two, or more than are taken. The message
/// gives the number.
pub proof fn lemma_how_many_options_are_taken(len: nat)
    ensures
        width_problem(len) is None <==> 2 <= len <= 255,
        len < 2 ==> width_problem(len) == Some("choice needs at least 2 options, got "@ + decimal_of(len)),
        len > 255 ==> (width_problem(len) matches Some(m) && decimal_of(len).is_suffix_of(m)),
{
    if let Some(m) = width_problem(len) {
        let tail = decimal_of(len);
        assert(m.subrange(m.len() - tail.len(), m.len() as int) =~= tail);
    }
}

/// What a question on the command line comes to without flags: one yes/no question with the
/// words as they were typed, judged by the shipped cuts.
pub proof fn lemma_a_bare_question(words: Seq<char>)
    ensures
        shorthand_of(words, None, None, None, None, None) matches Ok(p) && {
            &&& p.names == seq!["answer"@]
            &&& field(p.wire[0].1, "instructions"@) == Some(JsonView::Text(words))
            &&& field(p.wire[0].1, "type"@) == Some(JsonView::Text("noul"@))
            &&& field(p.wire[0].1, "criteria"@) is None
            &&& is_nine_tenths(p.decide[0].yes) && is_one_tenth(p.decide[0].no) && is_nine_tenths(
                p.decide[0].min_confidence,
            )
            &&& !p.decide[0].tuned && !p.decide[0].gated
        },
{
    lemma_what_the_flags_ask(words, None, None, None, None, None);
    lemma_a_given_cut_is_the_cut(words, None, None, None, None, None);
    crate::number::lemma_order(0x3fb9_9999_9999_999a, 0x3fec_cccc_cccc_cccd);
}

/// The doctor asks whether a text mentions a cat, of a text that does.
pub proof fn lemma_what_the_doctor_asks()
    ensures
        probe_state() == JsonView::Text("The cat sat on the mat."@),
        probe_question() == shorthand_of("This text mentions a cat."@, None, None, None, None, None),
{
}

}
