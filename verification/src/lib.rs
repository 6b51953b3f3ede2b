//! A player for timestamped input scripts: the script grammar, the instruction
//! model, and the decisions of the timed execution engine.

pub mod action;
pub mod comment;
pub mod error;
pub mod glide;
pub mod log;
pub mod model;
pub mod names;
pub mod number;
pub mod render;
pub mod schedule;
pub mod script;
pub mod text;
