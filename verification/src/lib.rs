//! Ask typed questions about a text and get typed answers back.
//!
//! The library decides; the program around it reads, sends and prints. A call goes like this:
//! [`Config::load`] takes the settings, [`QuestionSet::parse`] and [`QuestionSet::prepare`]
//! take a question file, [`ask_request`] says what to send, and [`ask`] turns what came back
//! into verdicts. [`command`] holds what each command shows and exits with.
//!
//! Two failure classes, and the difference is the whole point: [`Error::NoAnswer`] means the
//! question was never answered (no key, no network, a timeout) and a caller should carry on
//! as it would have without this; [`Error::Invalid`] means the request itself was wrong and
//! will be wrong again, which is a defect to surface, not a reason to skip.

pub mod cli;
pub mod codec;
pub mod command;
pub mod config;
pub mod decide;
pub mod error;
pub mod http;
pub mod json;
pub mod laws;
pub mod notes;
pub mod number;
pub mod output;
pub mod provider;
pub mod questions;
pub mod refusal;
pub mod session;
pub mod sets;
pub mod state;
pub mod text;

pub use crate::config::{config_dir, config_path, Config, Env};
pub use crate::decide::{Outcome, Verdict};
pub use crate::error::Error;
pub use crate::json::Json;
pub use crate::notes::Notes;
pub use crate::provider::Provider;
pub use crate::questions::{Decide, Prepared, Validated};
pub use crate::session::{
    ask, ask_raw, ask_raw_request, ask_request, document, failure_document, shorthand, Answered, AskOptions, Request,
};
pub use crate::sets::QuestionSet;
