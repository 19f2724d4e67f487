//! Advice: things that are legal, answered, and still worth knowing.
//!
//! It is kept apart from the warnings that report what actually happened to a call — a
//! truncated state, a forced verdict — because those must never be silenceable, and these
//! fire on ordinary correct usage and would otherwise spam anything calling jevi in a loop.

use vstd::prelude::*;

use crate::text;
use crate::text::views;

verus! {

/// The advice given so far, and whether any is wanted.
#[derive(Debug)]
pub struct Notes {
    /// Nothing is to be said in this run.
    pub quiet: bool,
    /// The environment asks for silence.
    pub silenced: bool,
    /// What was said, line by line.
    pub said: Vec<String>,
}

/// What [`Notes`] hold.
pub struct NotesView {
    pub quiet: bool,
    pub silenced: bool,
    pub said: Seq<Seq<char>>,
}

impl View for Notes {
    type V = NotesView;

    open spec fn view(&self) -> NotesView {
        NotesView { quiet: self.quiet, silenced: self.silenced, said: views(self.said@) }
    }
}

/// A switch in the environment is on: it is set, not empty and not `0`.
pub open spec fn is_on(setting: Option<Seq<char>>) -> bool {
    match setting {
        Some(v) => v != ""@ && v != "0"@,
        None => false,
    }
}

/// Whether a switch in the environment is on.
pub fn switched_on(setting: &Option<String>) -> (r: bool)
    ensures
        r == is_on(crate::provider::opt_text(*setting)),
{
    match setting {
        Some(v) => !text::same(v.as_str(), "") && !text::same(v.as_str(), "0"),
        None => false,
    }
}

/// The notes after one more piece of advice.
pub open spec fn noted(n: NotesView, message: Seq<char>) -> NotesView {
    if n.quiet || n.silenced {
        n
    } else {
        NotesView { said: n.said.push("jevi: "@ + message), ..n }
    }
}

impl Notes {
    /// Nothing said yet. `JEVI_QUIET` silences advice for good.
    pub fn new(jevi_quiet: &Option<String>) -> (r: Notes)
        ensures
            r@ == (NotesView {
                quiet: false,
                silenced: is_on(crate::provider::opt_text(*jevi_quiet)),
                said: Seq::empty(),
            }),
    {
        let r = Notes { quiet: false, silenced: switched_on(jevi_quiet), said: Vec::new() };
        proof {
            assert(views(r.said@) =~= Seq::empty());
        }
        r
    }
}

/// Gives a piece of advice, unless advice is not wanted.
pub fn note(notes: &mut Notes, message: &str)
    ensures
        final(notes)@ == noted(old(notes)@, message@),
{
    if !notes.quiet && !notes.silenced {
        let ghost before = notes.said@;
        let line = text::cat("jevi: ", message);
        notes.said.push(line);
        proof {
            assert(views(notes.said@) =~= views(before).push("jevi: "@ + message@));
        }
    }
}

/// Silence advice from now on, or allow it again. `--soft` sets it, because soft mode's
/// whole promise is that a hook calling jevi is never disturbed by it, and advice on stderr
/// is still noise on stderr.
pub fn set_quiet(notes: &mut Notes, quiet: bool)
    ensures
        final(notes)@ == (NotesView { quiet, ..old(notes)@ }),
{
    notes.quiet = quiet;
}

}
