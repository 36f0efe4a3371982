//! A line-oriented text protocol that links a robot-soccer host to an
//! external AI process: number codec, message framing and parsing, and the
//! session state machine that drives one conversation.

pub mod number;
pub mod protocol;
pub mod session;
pub mod team;
pub mod outcome;
