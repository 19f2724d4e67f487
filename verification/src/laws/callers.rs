//! What callers of the library get, function by function.

use vstd::prelude::*;

use crate::command::exit_code;
use crate::decide::{outcome, outcome_pinned, provenance_warning, Outcome, Provenance, Verdict};
use crate::codec::json_reading;
use crate::config::{config_with_key, has_room, keyed, Config};
use crate::error::{Error, ErrorView};
use crate::json::{field, Json, JsonView};
use crate::laws::asking::{
    fits, is_nine_tenths, is_one_tenth, lemma_a_written_cut_is_the_cut, lemma_which_cuts_are_accepted, pattern_or, under,
};
use crate::laws::judging::{
    another, as_measured, lemma_a_choice_is_judged_by_its_confidence, lemma_a_noul_is_judged_by_its_cuts, lemma_nothing_pinned,
    lemma_which_condition_is_broken, lemma_which_ids_are_two_models, typed,
};
use crate::laws::showing::{closing, lemma_a_label_is_shown, lemma_the_code_tells, opening};
use crate::notes::{is_on, Notes};
use crate::number::{fixed_of, le, lt, NumberView};
use crate::output::{lines, outcomes_view, terse};
use crate::provider::Provider;
use crate::questions::{parse_decide, split_list, Decide, Prepared};
use crate::session::{ask_raw, request_of, AskOptions};
use crate::text::{listed, views};

verus! {

/// The warning on a measurement: another model than it was made on, else a longer state, else
/// none.
pub proof fn lemma_the_warning_is_earned(decide: &Decide, p: &Provenance, warning: Option<&'static str>)
    requires
        call_ensures(provenance_warning, (decide, p), warning),
    ensures
        decide@.validated is None ==> warning is None,
        decide@.validated matches Some(v) ==> {
            let mismatch = another(v.model, p@.model_used);
            let longer = v.max_chars matches Some(max) && max < p@.state_chars;
            &&& mismatch ==> (warning matches Some(w) && w@ == "model_mismatch"@)
            &&& !mismatch && longer ==> (warning matches Some(w) && w@ == "length_mismatch"@)
            &&& !mismatch && !longer ==> warning is None
        },
{
    lemma_which_condition_is_broken(decide@, p@);
}

/// A question of a set that pins a model is unsure whenever another model answered, and says so.
pub proof fn lemma_a_pin_holds(pinned: &str, answer: &Json, decide: &Decide, p: &Provenance, o: Outcome)
    requires
        call_ensures(outcome_pinned, (Some(pinned), answer, decide, p), o),
        another(Some(pinned@), p@.model_used),
    ensures
        o.verdict == Verdict::Unsure,
        o.warning matches Some(w) && w@ == "model_mismatch"@,
{
    lemma_which_ids_are_two_models(Some(pinned@), p@.model_used);
}

/// A choice with a label and a confidence is a yes or unsure, never a no, and keeps its label.
pub proof fn lemma_a_choice_is_chosen(
    answer: &Json,
    decide: &Decide,
    p: &Provenance,
    o: Outcome,
    label: Seq<char>,
    c: NumberView,
)
    requires
        call_ensures(outcome, (answer, decide, p), o),
        as_measured(None, decide@, p@),
        typed(answer@, "choice"@),
        field(answer@, "choice"@) == Some(JsonView::Text(label)),
        field(answer@, "confidence"@) == Some(JsonView::Number(c)),
    ensures
        o.verdict == Verdict::Yes <==> le(decide.min_confidence.bits, c.real.bits),
        o.verdict != Verdict::No,
        o.label matches Some(l) && l@ == label,
        o.warning is None,
{
    lemma_nothing_pinned(answer@, decide@, p@);
    lemma_a_choice_is_judged_by_its_confidence(None, answer@, decide@, p@, label, c);
}

/// A yes/no answer is a yes from the one cut on, a no up to the other, and unsure between.
pub proof fn lemma_a_noul_falls_between_its_cuts(
    answer: &Json,
    decide: &Decide,
    p: &Provenance,
    o: Outcome,
    n: NumberView,
)
    requires
        call_ensures(outcome, (answer, decide, p), o),
        as_measured(None, decide@, p@),
        typed(answer@, "noul"@),
        field(answer@, "noul"@) == Some(JsonView::Number(n)),
    ensures
        o.verdict == Verdict::Yes <==> le(decide.yes.bits, n.real.bits),
        o.verdict == Verdict::No <==> !le(decide.yes.bits, n.real.bits) && le(n.real.bits, decide.no.bits),
        o.number matches Some(x) && x@ == n.real,
{
    lemma_nothing_pinned(answer@, decide@, p@);
    lemma_a_noul_is_judged_by_its_cuts(None, answer@, decide@, p@, n);
}

/// The `decide` block of a question, as far as it is there.
pub open spec fn block_of(raw: Option<&Json>) -> Option<JsonView> {
    match raw {
        Some(j) => Some(j@),
        None => None,
    }
}

/// The cuts that are read are the cuts that are written, each under its own key, and the shipped
/// one where none is; and they are read exactly where they are numbers from 0 to 1 in order.
pub proof fn lemma_cuts_are_read_as_written(name: &str, raw: Option<&Json>, r: Result<Decide, Error>)
    requires
        call_ensures(parse_decide, (name, raw), r),
    ensures
        ({
            let block = block_of(raw);
            &&& r is Ok <==> {
                &&& block matches Some(j) ==> j is Object
                &&& fits(under(block, "yes"@))
                &&& fits(under(block, "no"@))
                &&& fits(under(block, "min_confidence"@))
                &&& !lt(
                    pattern_or(under(block, "yes"@), 0x3fec_cccc_cccc_cccd),
                    pattern_or(under(block, "no"@), 0x3fb9_9999_9999_999a),
                )
            }
            &&& r matches Ok(d) ==> {
                &&& match under(block, "yes"@) {
                    Some(JsonView::Number(n)) => d.yes@ == n.real,
                    _ => is_nine_tenths(d.yes@),
                }
                &&& match under(block, "no"@) {
                    Some(JsonView::Number(n)) => d.no@ == n.real,
                    _ => is_one_tenth(d.no@),
                }
                &&& match under(block, "min_confidence"@) {
                    Some(JsonView::Number(n)) => d.min_confidence@ == n.real,
                    _ => is_nine_tenths(d.min_confidence@),
                }
            }
            &&& r matches Err(e) ==> e@ is Invalid
        }),
{
    lemma_a_written_cut_is_the_cut(block_of(raw));
    lemma_which_cuts_are_accepted(block_of(raw));
}

/// The line of one question that has a label shows the label, and its confidence where it has
/// one.
pub proof fn lemma_one_label_is_printed(names: &[String], outcomes: &[Outcome], single: bool, out: String)
    requires
        call_ensures(terse, (names, outcomes, single), out),
        names@.len() == 1,
        outcomes@.len() == 1,
        outcomes@[0].label is Some,
    ensures
        ({
            let o = outcomes@[0];
            let start = opening(names@[0]@, single) + o.label->0@;
            &&& o.confidence matches Some(c) ==> out@ == start + "\t"@ + fixed_of(c.bits) + closing(o@)
            &&& o.confidence is None ==> out@ == start + closing(o@)
        }),
{
    let o = outcomes_view(outcomes@)[0];
    lemma_a_label_is_shown(names@[0]@, o, single, outcomes@[0].label->0@);
    reveal_with_fuel(lines, 2);
    assert(out@ =~= crate::output::line(views(names@)[0], o, single));
}

/// The exit code for one outcome is the code of its verdict; for several it is 3 if any is
/// unsure.
pub proof fn lemma_the_code_of_some_outcomes(outcomes: &[Outcome], code: i32)
    requires
        outcomes@.len() > 0,
        call_ensures(exit_code, (outcomes,), code),
    ensures
        code == 3 <==> exists|i: int| 0 <= i < outcomes@.len() && (#[trigger] outcomes@[i]).verdict == Verdict::Unsure,
        code == 0 ==> outcomes@[0].verdict == Verdict::Yes,
        code == 1 ==> outcomes@[0].verdict == Verdict::No,
        code == 0 || code == 1 || code == 3,
{
    let v = outcomes_view(outcomes@);
    lemma_the_code_tells(v);
    assert(forall|i: int| 0 <= i < v.len() ==> (#[trigger] v[i]).verdict == outcomes@[i].verdict);
    if exists|i: int| 0 <= i < outcomes@.len() && (#[trigger] outcomes@[i]).verdict == Verdict::Unsure {
        let i = choose|i: int| 0 <= i < outcomes@.len() && (#[trigger] outcomes@[i]).verdict == Verdict::Unsure;
        assert(v[i].verdict == Verdict::Unsure);
    }
    if code == 3 {
        let i = choose|i: int| 0 <= i < v.len() && (#[trigger] v[i]).verdict == Verdict::Unsure;
        assert(outcomes@[i].verdict == Verdict::Unsure);
    }
}

/// With `--raw` a reply is handed on as it came, and so is a failure, unless the request could
/// not even be made.
pub proof fn lemma_a_raw_reply_is_handed_on(
    cfg: &Config,
    prepared: &Prepared,
    state: &Json,
    opts: &AskOptions,
    came: Result<Json, Error>,
    r: Result<Json, Error>,
)
    requires
        call_ensures(ask_raw, (cfg, prepared, state, opts, came), r),
    ensures
        match request_of(cfg@, prepared@, state@, opts@, true) {
            Err(e) => r matches Err(f) && f@ == e,
            Ok(_) => match came {
                Ok(j) => r matches Ok(k) && k@ == j@,
                Err(e) => r matches Err(f) && f@ == e@,
            },
        },
{
}

/// A comma-separated flag gives its items, and must have one.
pub proof fn lemma_a_flag_gives_its_items(raw: &str, flag: &str, r: Result<Vec<String>, Error>)
    requires
        call_ensures(split_list, (raw, flag), r),
    ensures
        r is Ok <==> listed(raw@).len() > 0,
        r matches Ok(items) ==> views(items@) == listed(raw@),
        r matches Err(e) ==> e@ == (ErrorView::Invalid { kind: "flags"@, message: flag@ + " is empty"@ }),
{
}

/// A run starts with nothing said, and is silenced exactly if the environment asks for it.
pub proof fn lemma_a_run_starts_unheard(jevi_quiet: &Option<String>, notes: Notes)
    requires
        call_ensures(Notes::new, (jevi_quiet,), notes),
    ensures
        notes@.said.len() == 0,
        !notes@.quiet,
        notes@.silenced == is_on(
            match *jevi_quiet {
                Some(s) => Some(s@),
                None => None,
            },
        ),
{
}

/// The file that a key is stored in reads as what it held before with that key put into it, and
/// is written exactly if there is room.
pub proof fn lemma_a_stored_key_reads_back(
    file: Option<&str>,
    p: Provider,
    key: &str,
    r: Option<Result<String, Error>>,
)
    requires
        call_ensures(config_with_key, (file, p, key), r),
    ensures
        ({
            let before = match file {
                Some(t) => match json_reading(t@) {
                    Ok(j) => j,
                    Err(_) => JsonView::Object(Seq::empty()),
                },
                None => JsonView::Object(Seq::empty()),
            };
            match r {
                Some(Ok(t)) => json_reading(t@) == Ok::<JsonView, Seq<char>>(keyed(before, p, key@)),
                Some(Err(_)) => false,
                None => !has_room(before, p),
            }
        }),
{
}

/// The texts of a list are its texts, one by one.
pub proof fn lemma_texts_one_by_one(v: Seq<String>)
    ensures
        views(v).len() == v.len(),
        forall|i: int| 0 <= i < v.len() ==> #[trigger] views(v)[i] == v[i]@,
{
}

}
