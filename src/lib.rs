//! An interactive evaluator for a compiled language: every entered line is
//! tried as part of a whole program built from the lines accepted so far, and
//! kept only when that program compiles.
//!
//! The library holds the accepted lines, the text of the session file, the
//! program built for each candidate line, and the decisions of the read,
//! compile and run loop. Reading lines, running the compiler and touching
//! files are left to the caller, which reports what happened as events.
pub mod buffer;
pub mod program;
pub mod session;
pub mod text;

pub use buffer::SessionBuffer;
pub use program::{prompt, synthesize, PLAIN_PROMPT, PROGRAM_HEAD, PROGRAM_TAIL, SESSION_PROMPT_SUFFIX};
pub use session::{Action, Event, Phase, Session};
