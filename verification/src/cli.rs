//! What can be asked for on the command line.

use vstd::prelude::*;

use crate::number::{Real, RealView};
use crate::provider::opt_text;
use crate::questions::opt_real;

verus! {

/// A whole command line.
#[derive(Debug)]
pub struct Cli {
    pub command: Command,
}

#[derive(Debug)]
pub enum Command {
    /// Ask one or more questions about a text.
    Ask(Ask),
    /// Show where the config, key and question sets are resolved from.
    Doctor {
        /// Make one real request, and print its latency and cost.
        live: bool,
    },
    /// Manage the stored configuration.
    Config(ConfigCmd),
}

#[derive(Debug)]
pub enum ConfigCmd {
    /// Read a key from stdin and store it at mode 0600 (keeps it out of shell history).
    SetKey {
        /// openrouter or typesafe
        provider: String,
    },
}

#[derive(Debug)]
pub struct Ask {
    /// The question, for a one-off from a terminal.
    pub instructions: Option<String>,
    /// A question set: a path, or a name looked up in ./.jevi/ then the config directory.
    pub set: Option<String>,
    /// Turn the positional question into a choice between these options.
    pub options: Option<String>,
    /// Turn the positional question into a score over these levels, lowest first.
    pub levels: Option<String>,
    /// Read the text to judge from this file instead of stdin.
    pub state: Option<String>,
    /// The text to judge, inline.
    pub state_text: Option<String>,
    /// Parse the text as JSON and send it as an object or array, not as a string.
    pub state_json: bool,
    /// Print the normalised result document.
    pub json: bool,
    /// Print the provider's own response, untouched.
    pub raw: bool,
    /// Never fail loudly: exit 0 even with no key, no network or an API error.
    pub soft: bool,
    /// Print latency and usage to stderr.
    pub verbose: bool,
    /// yes at or above this probability (positional question only).
    pub yes_at: Option<Real>,
    /// no at or below this probability (positional question only).
    pub no_at: Option<Real>,
    /// Minimum confidence for a choice or score (positional question only).
    pub min_confidence: Option<Real>,
    /// Truncate a string state to this many characters. 0 sends it whole.
    pub max_chars: Option<usize>,
    /// Total budget in milliseconds, retry included.
    pub timeout: Option<u64>,
    /// openrouter or typesafe. Defaults to whichever has a key.
    pub provider: Option<String>,
    /// Override the model id.
    pub model: Option<String>,
}

/// What an [`Ask`] says.
pub struct AskView {
    pub instructions: Option<Seq<char>>,
    pub set: Option<Seq<char>>,
    pub options: Option<Seq<char>>,
    pub levels: Option<Seq<char>>,
    pub state: Option<Seq<char>>,
    pub state_text: Option<Seq<char>>,
    pub state_json: bool,
    pub json: bool,
    pub raw: bool,
    pub soft: bool,
    pub verbose: bool,
    pub yes_at: Option<RealView>,
    pub no_at: Option<RealView>,
    pub min_confidence: Option<RealView>,
    pub max_chars: Option<usize>,
    pub timeout: Option<u64>,
    pub provider: Option<Seq<char>>,
    pub model: Option<Seq<char>>,
}

impl View for Ask {
    type V = AskView;

    open spec fn view(&self) -> AskView {
        AskView {
            instructions: opt_text(self.instructions),
            set: opt_text(self.set),
            options: opt_text(self.options),
            levels: opt_text(self.levels),
            state: opt_text(self.state),
            state_text: opt_text(self.state_text),
            state_json: self.state_json,
            json: self.json,
            raw: self.raw,
            soft: self.soft,
            verbose: self.verbose,
            yes_at: opt_real(self.yes_at),
            no_at: opt_real(self.no_at),
            min_confidence: opt_real(self.min_confidence),
            max_chars: self.max_chars,
            timeout: self.timeout,
            provider: opt_text(self.provider),
            model: opt_text(self.model),
        }
    }
}

impl Default for Ask {
    /// Nothing asked for yet.
    fn default() -> (r: Ask)
        ensures
            r@ == (AskView {
                instructions: None,
                set: None,
                options: None,
                levels: None,
                state: None,
                state_text: None,
                state_json: false,
                json: false,
                raw: false,
                soft: false,
                verbose: false,
                yes_at: None,
                no_at: None,
                min_confidence: None,
                max_chars: None,
                timeout: None,
                provider: None,
                model: None,
            }),
    {
        Ask {
            instructions: None,
            set: None,
            options: None,
            levels: None,
            state: None,
            state_text: None,
            state_json: false,
            json: false,
            raw: false,
            soft: false,
            verbose: false,
            yes_at: None,
            no_at: None,
            min_confidence: None,
            max_chars: None,
            timeout: None,
            provider: None,
            model: None,
        }
    }
}

/// Soft mode was asked for.
pub open spec fn is_soft(command: Command) -> bool {
    command matches Command::Ask(a) && a.soft
}

impl Command {
    /// Whether soft mode was asked for.
    pub fn soft(&self) -> (r: bool)
        ensures
            r == is_soft(*self),
    {
        match self {
            Command::Ask(a) => a.soft,
            _ => false,
        }
    }
}

}
