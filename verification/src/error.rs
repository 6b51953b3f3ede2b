//! What can be wrong with a script.

use crate::names::Verb;
use crate::number::NumberError;
use vstd::prelude::*;

verus! {

/// The kinds of fault that a line of a script can have.
#[derive(Debug, Clone, Copy, PartialEq, Eq)]
pub enum FaultKind {
    /// The line does not hold exactly one `>`.
    MalformedLine,
    /// The field before the `>` is no timestamp.
    InvalidTimestamp { cause: NumberError },
    /// An absolute timestamp that is not above the one of the group before.
    TimestampNotIncreasing,
    /// A relative timestamp that leads beyond the largest time there is.
    TimestampOverflow,
    /// No action stands behind the `>`.
    NoActions,
    /// An action expression that starts with no verb of the language.
    UnknownVerb,
    /// The verb has fewer than `min` arguments.
    TooFewArguments { verb: Verb, min: u8 },
    /// The verb has more than `max` arguments.
    TooManyArguments { verb: Verb, max: u8 },
    /// The mode of a move is neither `abs` nor `rel`.
    InvalidMode,
    /// The horizontal coordinate of a move is no 32-bit signed number.
    InvalidX { cause: NumberError },
    /// The vertical coordinate of a move is no 32-bit signed number.
    InvalidY { cause: NumberError },
    /// The duration of a move is no 64-bit unsigned number.
    InvalidDuration { cause: NumberError },
    /// The argument of the verb is no number up to 255.
    InvalidButton { verb: Verb, cause: NumberError },
    /// The argument of the verb is a number that no button of the platform
    /// has.
    UnknownButton { verb: Verb },
    /// The argument names no key of the platform.
    InvalidKey { verb: Verb },
}

/// A fault of one line: its kind, and the text at fault.
///
/// `field` is the line without its comments for `MalformedLine`, the
/// timestamp for the three kinds about timestamps, the word at fault for
/// `UnknownVerb`, `UnknownButton` and the kinds that begin with `Invalid`, and empty for the
/// others.
#[derive(Debug, Clone, PartialEq, Eq)]
pub struct Fault {
    pub kind: FaultKind,
    pub field: String,
}

/// A `Fault` as a mathematical value.
pub struct FaultView {
    pub kind: FaultKind,
    pub field: Seq<char>,
}

impl View for Fault {
    type V = FaultView;

    open spec fn view(&self) -> FaultView {
        FaultView { kind: self.kind, field: self.field@ }
    }
}

/// Why a script was refused: the fault of its first faulty line.
#[derive(Debug, Clone, PartialEq, Eq)]
pub struct ParseError {
    /// The number of the line, the first line being 1.
    pub line: usize,
    pub kind: FaultKind,
    pub field: String,
}

/// A `ParseError` as a mathematical value.
pub struct ParseErrorView {
    pub line: int,
    pub kind: FaultKind,
    pub field: Seq<char>,
}

impl View for ParseError {
    type V = ParseErrorView;

    open spec fn view(&self) -> ParseErrorView {
        ParseErrorView { line: self.line as int, kind: self.kind, field: self.field@ }
    }
}

/// The view of the result of a function that parses.
pub open spec fn result_view<T: View, E: View>(r: Result<T, E>) -> Result<T::V, E::V> {
    match r {
        Ok(t) => Ok(t@),
        Err(e) => Err(e@),
    }
}

} // verus!
