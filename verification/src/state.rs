//! The text to judge, on its way in.

use vstd::prelude::*;

use crate::codec::{json_reading, json_text, settled};
use crate::error::{invalid, says, Error, ErrorView};
use crate::json::{Json, JsonView};
use crate::text;
use crate::text::{decimal_of, is_white, lemma_blank, trimmed};

verus! {

/// What happened to the state on its way in. `dropped > 0` means the model did not see all
/// of it, and that has to reach the caller.
#[derive(Debug)]
pub struct Built {
    pub state: Json,
    pub chars: usize,
    pub dropped: usize,
}

/// What a [`Built`] holds.
pub struct BuiltView {
    pub state: JsonView,
    pub chars: nat,
    pub dropped: nat,
}

impl View for Built {
    type V = BuiltView;

    open spec fn view(&self) -> BuiltView {
        BuiltView { state: self.state@, chars: self.chars as nat, dropped: self.dropped as nat }
    }
}

/// The beginning of a text that was cut, with a line for the model that says so.
pub open spec fn cut_text(raw: Seq<char>, cap: nat) -> Seq<char> {
    raw.take(cap as int) + "\n\n[jevi: "@ + decimal_of((raw.len() - cap) as nat) + " characters truncated]"@
}

/// A text as the state: whole if it fits, else cut to its first `cap` characters. A cap of
/// zero is none.
pub open spec fn text_state_of(raw: Seq<char>, cap: usize) -> BuiltView {
    if cap > 0 && raw.len() > cap {
        BuiltView {
            state: JsonView::Text(cut_text(raw, cap as nat)),
            chars: cap as nat,
            dropped: (raw.len() - cap) as nat,
        }
    } else {
        BuiltView { state: JsonView::Text(raw), chars: raw.len(), dropped: 0 }
    }
}

/// A text that is JSON as the state, given what it reads as. It is never cut.
pub open spec fn json_state_of(raw: Seq<char>, reading: Result<JsonView, Seq<char>>) -> Result<BuiltView, ErrorView> {
    match reading {
        Ok(state) => Ok(BuiltView { state, chars: raw.len(), dropped: 0 }),
        Err(m) => Err(invalid("state"@, "--state-json but not JSON: "@ + m)),
    }
}

/// The state that a text makes.
pub open spec fn state_of(raw: Seq<char>, as_json: bool, cap: usize) -> Result<BuiltView, ErrorView> {
    if trimmed(raw).len() == 0 {
        Err(invalid("state"@, "the text to judge is empty"@))
    } else if as_json {
        json_state_of(raw, json_reading(raw))
    } else {
        Ok(text_state_of(raw, cap))
    }
}

/// Makes a text the state.
pub fn text_state(raw: &str, cap: usize) -> (r: Built)
    ensures
        r@ == text_state_of(raw@, cap),
{
    let len = text::chars_of(raw).len();
    if cap > 0 && len > cap {
        let dropped: usize = len - cap;
        let head = raw.substring_char(0, cap);
        proof {
            assert(raw@.subrange(0, cap as int) =~= raw@.take(cap as int));
        }
        let cut = text::cat4(
            head,
            "\n\n[jevi: ",
            text::decimal(dropped as u64).as_str(),
            " characters truncated]",
        );
        Built { state: Json::Text(cut), chars: cap, dropped }
    } else {
        Built { state: Json::Text(raw.to_owned()), chars: len, dropped: 0 }
    }
}

/// Makes a text that is JSON the state, given what it reads as.
///
/// Structured state is never truncated: cutting an object produces invalid JSON, and a
/// silently reshaped state is worse than a loud 400 from the API.
pub fn json_state(raw: &str, reading: Result<Json, String>) -> (r: Result<Built, Error>)
    ensures
        says(
            r,
            json_state_of(
                raw@,
                match reading {
                    Ok(j) => Ok(j@),
                    Err(m) => Err(m@),
                },
            ),
        ),
{
    match reading {
        Ok(state) => {
            let len = text::chars_of(raw).len();
            Ok(Built { state, chars: len, dropped: 0 })
        },
        Err(m) => Err(Error::invalid("state", text::cat("--state-json but not JSON: ", m.as_str()).as_str())),
    }
}

/// Makes the text to judge the state. An empty one is refused before anything is sent.
pub fn build_state(raw: &str, as_json: bool, cap: usize) -> (r: Result<Built, Error>)
    ensures
        says(r, state_of(raw@, as_json, cap)),
{
    if text::chars_of(text::trim(raw)).len() == 0 {
        return Err(Error::invalid("state", "the text to judge is empty"));
    }
    if as_json {
        json_state(raw, Json::parse(raw))
    } else {
        Ok(text_state(raw, cap))
    }
}

/// How long a state is, in characters: a text as it is, anything else as compact JSON.
pub open spec fn length_of(state: JsonView) -> nat {
    match state {
        JsonView::Text(s) => s.len(),
        other => json_text(settled(other)).len(),
    }
}

/// How long a state is, in characters.
pub fn state_len(state: &Json) -> (r: usize)
    ensures
        r as nat == length_of(state@),
{
    match state {
        Json::Text(s) => text::chars_of(s.as_str()).len(),
        other => {
            let shown = other.to_text();
            text::chars_of(shown.as_str()).len()
        },
    }
}

/// Nothing is lost in silence: what was kept and what was dropped make up the whole text,
/// and what is sent starts with what was kept. Nothing was dropped exactly if the text is
/// sent as it is.
pub proof fn lemma_cutting_adds_up(raw: Seq<char>, cap: usize)
    ensures
        text_state_of(raw, cap).chars + text_state_of(raw, cap).dropped == raw.len(),
        text_state_of(raw, cap).state matches JsonView::Text(sent) && raw.take(
            text_state_of(raw, cap).chars as int,
        ).is_prefix_of(sent),
        text_state_of(raw, cap).dropped == 0 ==> text_state_of(raw, cap).state == JsonView::Text(raw),
        cap > 0 ==> text_state_of(raw, cap).chars <= cap,
        cap == 0 ==> text_state_of(raw, cap).dropped == 0,
{
    if cap > 0 && raw.len() > cap {
        let head = raw.take(cap as int);
        assert(cut_text(raw, cap as nat).take(head.len() as int) =~= head);
    } else {
        assert(raw.take(raw.len() as int) =~= raw);
    }
}

/// A text that is nothing but white space never becomes a state, however it is meant and
/// whatever the cap; no other plain text is refused.
pub proof fn lemma_only_blank_text_is_refused(raw: Seq<char>, as_json: bool, cap: usize)
    ensures
        (forall|i: int| 0 <= i < raw.len() ==> is_white(#[trigger] raw[i])) ==> state_of(raw, as_json, cap) == Err::<
            BuiltView,
            ErrorView,
        >(invalid("state"@, "the text to judge is empty"@)),
        state_of(raw, false, cap) is Err ==> forall|i: int| 0 <= i < raw.len() ==> is_white(#[trigger] raw[i]),
{
    lemma_blank(raw);
}

/// JSON is never cut: what is sent is what the text reads as.
pub proof fn lemma_json_is_never_cut(raw: Seq<char>, cap: usize)
    ensures
        state_of(raw, true, cap) matches Ok(b) ==> b.dropped == 0 && b.chars == raw.len() && json_reading(raw) == Ok::<
            JsonView,
            Seq<char>,
        >(b.state),
        state_of(raw, true, cap) == state_of(raw, true, 0),
{
}

}
