use vstd::prelude::*;
use crate::cursor::Cursor;

verus! {

/// The closed set of failure kinds a parser can report.
#[derive(Clone, PartialEq, Eq, Debug)]
pub enum ErrorKind {
    /// A literal tag did not match.
    Tag,
    /// A character-class run fell short of a required count.
    CharacterClass,
    /// A bounded character-class consumption (min..=max) fell short of min.
    BoundedRepetition,
    /// An unbounded consumption (until a stop pattern) never found its stop.
    UnboundedRepetition,
    /// A numeric literal was absent, malformed or out of range.
    NumericConversion,
    /// A domain-specific failure carrying its own description.
    Custom(String),
}

/// Specification-level mirror of [`ErrorKind`]: the custom label is a
/// character sequence.
pub enum KindView {
    Tag,
    CharacterClass,
    BoundedRepetition,
    UnboundedRepetition,
    NumericConversion,
    Custom(Seq<char>),
}

impl View for ErrorKind {
    type V = KindView;

    open spec fn view(&self) -> KindView {
        match self {
            ErrorKind::Tag => KindView::Tag,
            ErrorKind::CharacterClass => KindView::CharacterClass,
            ErrorKind::BoundedRepetition => KindView::BoundedRepetition,
            ErrorKind::UnboundedRepetition => KindView::UnboundedRepetition,
            ErrorKind::NumericConversion => KindView::NumericConversion,
            ErrorKind::Custom(s) => KindView::Custom(s@),
        }
    }
}

/// A single failure: the residual input at the point matching was
/// attempted, and what went wrong there.
#[derive(Clone, Debug)]
pub struct ParseError {
    /// Cursor at the point the failing match was attempted.
    pub input: Cursor,
    /// What went wrong.
    pub kind: ErrorKind,
}

/// One context label layered onto a failure as it unwinds through a
/// labeled combinator.
#[derive(Clone, Debug)]
pub struct Frame {
    /// Human-readable description of what was being parsed.
    pub label: String,
    /// Cursor at which the labeled combinator began.
    pub input: Cursor,
}

/// Specification-level mirror of [`Frame`].
pub struct FrameView {
    pub label: Seq<char>,
    pub at: int,
}

impl View for Frame {
    type V = FrameView;

    open spec fn view(&self) -> FrameView {
        FrameView { label: self.label@, at: self.input.pos as int }
    }
}

/// A failure together with the ordered stack of context labels it passed
/// through while unwinding: the base failure is innermost, and each label
/// appended to `context` is further out. The stack is append-only and is
/// never reordered.
#[derive(Clone, Debug)]
pub struct ContextualError {
    /// The innermost failure.
    pub base: ParseError,
    /// Labels collected while unwinding, innermost first.
    pub context: Vec<Frame>,
}

/// Specification-level mirror of [`ContextualError`].
pub struct ErrorView {
    /// Offset of the residual input of the innermost failure.
    pub at: int,
    /// Kind of the innermost failure.
    pub kind: KindView,
    /// Context labels, innermost first.
    pub stack: Seq<FrameView>,
}

impl View for ContextualError {
    type V = ErrorView;

    open spec fn view(&self) -> ErrorView {
        ErrorView {
            at: self.base.input.pos as int,
            kind: self.base.kind@,
            stack: self.context@.map(|i: int, f: Frame| f@),
        }
    }
}

impl ContextualError {
    /// A bare failure with no context labels yet.
    pub fn bare(at: usize, kind: ErrorKind) -> (e: ContextualError)
        ensures
            e@ == (ErrorView { at: at as int, kind: kind@, stack: Seq::empty() }),
    {
        let e = ContextualError {
            base: ParseError { input: Cursor { pos: at }, kind },
            context: Vec::new(),
        };
        proof {
            assert(e@.stack =~= Seq::<FrameView>::empty());
        }
        e
    }

    /// Layer one more context label onto this failure.
    pub fn with_context(self, label: String, at: usize) -> (e: ContextualError)
        ensures
            e@ == (ErrorView {
                at: self@.at,
                kind: self@.kind,
                stack: self@.stack.push(FrameView { label: label@, at: at as int }),
            }),
    {
        let lbl = Frame { label, input: Cursor { pos: at } };
        let ghost old_stack = self@.stack;
        let ghost fv = lbl@;
        let mut ctx = self.context;
        ctx.push(lbl);
        let e = ContextualError { base: self.base, context: ctx };
        proof {
            assert(e@.stack =~= old_stack.push(fv));
        }
        e
    }
}

} // verus!
