use vstd::prelude::*;
use crate::cursor::Cursor;
use crate::errors::{ContextualError, ErrorView};

verus! {

/// A region of the input buffer, as half-open character offsets.
#[derive(Clone, Copy, PartialEq, Eq, Structural, Debug)]
pub struct Span {
    pub start: usize,
    pub end: usize,
}

impl Span {
    /// The characters of `text` this span denotes.
    pub open spec fn of(self, text: Seq<char>) -> Seq<char> {
        text.subrange(self.start as int, self.end as int)
    }

    /// How many characters the span covers.
    pub fn len(self) -> (n: usize)
        requires
            self.start <= self.end,
        ensures
            n == self.end - self.start,
    {
        self.end - self.start
    }
}

/// One value produced by a run of the engine: a matched region of the
/// input, or a scalar a mapping step produced from one.
#[derive(Clone, Copy, PartialEq, Eq, Structural, Debug)]
pub enum Value {
    /// A matched region of the input buffer.
    Span(Span),
    /// A boolean produced by a constant-mapping step.
    Flag(bool),
    /// A byte produced by a hexadecimal conversion step.
    Byte(u8),
    /// A signed number produced by the numeric-literal parser.
    Num(i32),
}

/// The tagged outcome of applying a parser.
#[derive(Clone, Debug)]
pub enum ParseResult<T> {
    /// The parse matched: the produced value, and the cursor just past
    /// everything the parser consumed.
    Success { value: T, remainder: Cursor },
    /// The parse failed, but an enclosing alternation or repetition may
    /// catch this and try something else.
    RecoverableFailure { error: ContextualError },
    /// The parse failed after committing past a point of no return; the
    /// whole parse aborts.
    FatalFailure { error: ContextualError },
}

impl<T> ParseResult<T> {
    /// True when the parse matched.
    pub fn is_success(&self) -> (b: bool)
        ensures
            b == (self is Success),
    {
        match self {
            ParseResult::Success { .. } => true,
            _ => false,
        }
    }
}

/// Specification-level outcome of running a grammar: the engine's
/// mathematical semantics speaks in these.
pub enum Outcome {
    /// Matched, producing `vals`, with the remainder starting at `next`.
    Success { vals: Seq<Value>, next: int },
    /// Failed recoverably.
    Recoverable { err: ErrorView },
    /// Failed fatally.
    Fatal { err: ErrorView },
}

/// A recoverable failure at `at` with no context, as an [`Outcome`].
pub open spec fn soft_err(at: int, kind: crate::errors::KindView) -> Outcome {
    Outcome::Recoverable { err: ErrorView { at, kind, stack: Seq::empty() } }
}

/// How an executable run result corresponds to the specification outcome.
pub open spec fn run_view(r: ParseResult<Vec<Value>>) -> Outcome {
    match r {
        ParseResult::Success { value, remainder } => Outcome::Success {
            vals: value@,
            next: remainder.pos as int,
        },
        ParseResult::RecoverableFailure { error } => Outcome::Recoverable { err: error@ },
        ParseResult::FatalFailure { error } => Outcome::Fatal { err: error@ },
    }
}

} // verus!
