//! What holds of the library, stated in terms of what goes in and what comes out.

pub mod asking;
pub mod basics;
pub mod callers;
pub mod calls;
pub mod files;
pub mod judging;
pub mod refusals;
pub mod runs;
pub mod settings;
pub mod showing;
