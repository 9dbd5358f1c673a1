use vstd::prelude::*;
use crate::classes::CharClass;
use crate::cursor::Cursor;
use crate::errors::{ErrorKind, KindView, ErrorView, FrameView, ContextualError};
use crate::outcome::{Outcome, ParseResult, Span, Value, run_view, soft_err};
use crate::primitives::{prefix_eq, prefix_eq_nocase, class_run, find_from, all_hex, hex_value,
    prefix_matches, prefix_matches_nocase, class_run_len, find_sub, lemma_class_run_bounds,
    lemma_find_from};
use crate::numbers::{spec_int, scan_int, hex_span_value};

verus! {

/// A parser, composed statically from primitives and combinators. Running
/// a grammar against a buffer and a cursor yields a flat sequence of
/// [`Value`]s: every primitive contributes one value, sequencing
/// concatenates, and `Skip` discards.
#[derive(Debug)]
pub enum Grammar {
    /// Case-sensitive literal match.
    Tag(Vec<char>),
    /// Case-insensitive literal match (ASCII folding).
    TagNoCase(Vec<char>),
    /// Between `min` and `max` characters of a class; fewer than `min`
    /// matching characters is a `BoundedRepetition` failure.
    TakeWhileMN { min: usize, max: usize, class: CharClass },
    /// The maximal run of a class, possibly empty; never fails.
    TakeWhile0(CharClass),
    /// The maximal run of a class, at least one character.
    TakeWhile1(CharClass),
    /// Everything up to but not including the first occurrence of a stop
    /// pattern; fails if the stop pattern never occurs.
    TakeUntil(Vec<char>),
    /// An optionally signed decimal integer, converted to `i32`.
    IntLiteral,
    /// Fallible mapping: convert the span matched by the sub-parser from
    /// hexadecimal digits to a byte; a conversion failure is reported at
    /// the cursor before the sub-parser consumed input.
    MapHexByte(Box<Grammar>),
    /// Value mapping: replace the sub-parser's values with one constant.
    MapConst(Value, Box<Grammar>),
    /// Sequence: both in order, concatenating their values.
    Pair(Box<Grammar>, Box<Grammar>),
    /// Ordered alternation: first branch, then (on recoverable failure)
    /// the second; the second branch's error wins when both fail.
    Alt(Box<Grammar>, Box<Grammar>),
    /// Zero-or-more repetition; stops on recoverable failure or on a
    /// zero-width success of the sub-parser.
    Many0(Box<Grammar>),
    /// Run the sub-parser, discard its values.
    Skip(Box<Grammar>),
    /// Label failures of the sub-parser with a human-readable context.
    Context(String, Box<Grammar>),
    /// Escalate a recoverable failure of the sub-parser to a fatal one:
    /// the parse has committed past a point of no return.
    Cut(Box<Grammar>),
}

/// The engine's semantics: what running grammar `g` against `text` at
/// offset `pos` yields.
pub open spec fn spec_run(g: Grammar, text: Seq<char>, pos: int) -> Outcome
    decreases text.len() - pos, g when 0 <= pos <= text.len() <= usize::MAX
{
    match g {
        Grammar::Tag(p) => if prefix_eq(p@, text, pos) {
            Outcome::Success {
                vals: seq![
                    Value::Span(Span { start: pos as usize, end: (pos + p@.len()) as usize }),
                ],
                next: pos + p@.len(),
            }
        } else {
            soft_err(pos, KindView::Tag)
        },
        Grammar::TagNoCase(p) => if prefix_eq_nocase(p@, text, pos) {
            Outcome::Success {
                vals: seq![
                    Value::Span(Span { start: pos as usize, end: (pos + p@.len()) as usize }),
                ],
                next: pos + p@.len(),
            }
        } else {
            soft_err(pos, KindView::Tag)
        },
        Grammar::TakeWhileMN { min, max, class } => {
            let r = class_run(class, text, pos);
            let n: int = if r > max {
                max as int
            } else {
                r
            };
            if n >= min {
                Outcome::Success {
                    vals: seq![Value::Span(Span { start: pos as usize, end: (pos + n) as usize })],
                    next: pos + n,
                }
            } else {
                soft_err(pos, KindView::BoundedRepetition)
            }
        },
        Grammar::TakeWhile0(class) => {
            let n = class_run(class, text, pos);
            Outcome::Success {
                vals: seq![Value::Span(Span { start: pos as usize, end: (pos + n) as usize })],
                next: pos + n,
            }
        },
        Grammar::TakeWhile1(class) => {
            let n = class_run(class, text, pos);
            if n >= 1 {
                Outcome::Success {
                    vals: seq![Value::Span(Span { start: pos as usize, end: (pos + n) as usize })],
                    next: pos + n,
                }
            } else {
                soft_err(pos, KindView::CharacterClass)
            }
        },
        Grammar::TakeUntil(p) => {
            let f = find_from(p@, text, pos);
            if f >= 0 {
                Outcome::Success {
                    vals: seq![Value::Span(Span { start: pos as usize, end: f as usize })],
                    next: f,
                }
            } else {
                soft_err(pos, KindView::UnboundedRepetition)
            }
        },
        Grammar::IntLiteral => spec_int(text, pos),
        Grammar::MapHexByte(sub) => match spec_run(*sub, text, pos) {
            Outcome::Success { vals, next } => if vals.len() == 1 {
                match vals[0] {
                    Value::Span(sp) => if sp.start <= sp.end && sp.end <= text.len() && all_hex(
                        text,
                        sp.start as int,
                        sp.end as int,
                    ) && hex_value(text, sp.start as int, sp.end as int) < 256 {
                        Outcome::Success {
                            vals: seq![
                                Value::Byte(
                                    hex_value(text, sp.start as int, sp.end as int) as u8,
                                ),
                            ],
                            next,
                        }
                    } else {
                        soft_err(pos, KindView::NumericConversion)
                    },
                    _ => soft_err(pos, KindView::NumericConversion),
                }
            } else {
                soft_err(pos, KindView::NumericConversion)
            },
            other => other,
        },
        Grammar::MapConst(v, sub) => match spec_run(*sub, text, pos) {
            Outcome::Success { vals: _, next } => Outcome::Success { vals: seq![v], next },
            other => other,
        },
        Grammar::Pair(a, b) => match spec_run(*a, text, pos) {
            Outcome::Success { vals: va, next: mid } => if pos <= mid <= text.len() {
                match spec_run(*b, text, mid) {
                    Outcome::Success { vals: vb, next } => Outcome::Success {
                        vals: va + vb,
                        next,
                    },
                    other => other,
                }
            } else {
                soft_err(pos, KindView::Tag)
            },
            other => other,
        },
        Grammar::Alt(a, b) => match spec_run(*a, text, pos) {
            Outcome::Recoverable { err: _ } => spec_run(*b, text, pos),
            other => other,
        },
        Grammar::Many0(sub) => match spec_run(*sub, text, pos) {
            Outcome::Recoverable { err: _ } => Outcome::Success { vals: seq![], next: pos },
            Outcome::Fatal { err } => Outcome::Fatal { err },
            Outcome::Success { vals, next } => if pos < next <= text.len() {
                match spec_run(Grammar::Many0(sub), text, next) {
                    Outcome::Success { vals: more, next: fin } => Outcome::Success {
                        vals: vals + more,
                        next: fin,
                    },
                    other => other,
                }
            } else {
                // a zero-width success must not loop: stop with what was
                // collected before this iteration
                Outcome::Success { vals: seq![], next: pos }
            },
        },
        Grammar::Skip(sub) => match spec_run(*sub, text, pos) {
            Outcome::Success { vals: _, next } => Outcome::Success { vals: seq![], next },
            other => other,
        },
        Grammar::Context(label, sub) => match spec_run(*sub, text, pos) {
            Outcome::Recoverable { err } => Outcome::Recoverable {
                err: ErrorView {
                    at: err.at,
                    kind: err.kind,
                    stack: err.stack.push(FrameView { label: label@, at: pos }),
                },
            },
            Outcome::Fatal { err } => Outcome::Fatal {
                err: ErrorView {
                    at: err.at,
                    kind: err.kind,
                    stack: err.stack.push(FrameView { label: label@, at: pos }),
                },
            },
            other => other,
        },
        Grammar::Cut(sub) => match spec_run(*sub, text, pos) {
            Outcome::Recoverable { err } => Outcome::Fatal { err },
            other => other,
        },
    }
}

/// Everything a run reports stays inside the text: a success's remainder
/// lies between `pos` and the end, and a failure's residual offset and
/// every context frame do too.
pub open spec fn outcome_in_bounds(o: Outcome, text: Seq<char>, pos: int) -> bool {
    match o {
        Outcome::Success { vals: _, next } => pos <= next <= text.len(),
        Outcome::Recoverable { err } => err_in_bounds(err, text, pos),
        Outcome::Fatal { err } => err_in_bounds(err, text, pos),
    }
}

/// The residual offset and every frame of an error lie in `[pos, len]`.
pub open spec fn err_in_bounds(err: ErrorView, text: Seq<char>, pos: int) -> bool {
    &&& pos <= err.at <= text.len()
    &&& forall|i: int| 0 <= i < err.stack.len() ==> pos <= (#[trigger] err.stack[i]).at
        <= text.len()
}

/// Running any grammar stays inside the text.
pub proof fn lemma_run_bounds(g: Grammar, text: Seq<char>, pos: int)
    requires
        0 <= pos <= text.len() <= usize::MAX,
    ensures
        outcome_in_bounds(spec_run(g, text, pos), text, pos),
    decreases text.len() - pos, g,
{
    match g {
        Grammar::Tag(p) => {},
        Grammar::TagNoCase(p) => {},
        Grammar::TakeWhileMN { min, max, class } => {
            lemma_class_run_bounds(class, text, pos);
        },
        Grammar::TakeWhile0(class) => {
            lemma_class_run_bounds(class, text, pos);
        },
        Grammar::TakeWhile1(class) => {
            lemma_class_run_bounds(class, text, pos);
        },
        Grammar::TakeUntil(p) => {
            lemma_find_from(p@, text, pos);
        },
        Grammar::IntLiteral => {
            lemma_class_run_bounds(
                CharClass::Digit,
                text,
                pos + crate::numbers::int_sign_len(text, pos),
            );
        },
        Grammar::MapHexByte(sub) => {
            lemma_run_bounds(*sub, text, pos);
        },
        Grammar::MapConst(v, sub) => {
            lemma_run_bounds(*sub, text, pos);
        },
        Grammar::Pair(a, b) => {
            lemma_run_bounds(*a, text, pos);
            match spec_run(*a, text, pos) {
                Outcome::Success { vals: _, next: mid } => {
                    lemma_run_bounds(*b, text, mid);
                },
                _ => {},
            }
        },
        Grammar::Alt(a, b) => {
            lemma_run_bounds(*a, text, pos);
            match spec_run(*a, text, pos) {
                Outcome::Recoverable { .. } => {
                    lemma_run_bounds(*b, text, pos);
                },
                _ => {},
            }
        },
        Grammar::Many0(sub) => {
            lemma_run_bounds(*sub, text, pos);
            match spec_run(*sub, text, pos) {
                Outcome::Success { vals: _, next } => {
                    if pos < next <= text.len() {
                        lemma_run_bounds(Grammar::Many0(sub), text, next);
                    }
                },
                _ => {},
            }
        },
        Grammar::Skip(sub) => {
            lemma_run_bounds(*sub, text, pos);
        },
        Grammar::Context(label, sub) => {
            lemma_run_bounds(*sub, text, pos);
        },
        Grammar::Cut(sub) => {
            lemma_run_bounds(*sub, text, pos);
        },
    }
}

/// Build the one-element value list of a primitive match.
fn one_span(start: usize, end: usize) -> (v: Vec<Value>)
    ensures
        v@ == seq![Value::Span(Span { start, end })],
{
    let mut v: Vec<Value> = Vec::new();
    v.push(Value::Span(Span { start, end }));
    proof {
        assert(v@ =~= seq![Value::Span(Span { start, end })]);
    }
    v
}

/// A recoverable failure result with no context.
fn soft_fail(at: usize, kind: ErrorKind) -> (r: ParseResult<Vec<Value>>)
    ensures
        run_view(r) == soft_err(at as int, kind@),
{
    ParseResult::RecoverableFailure { error: ContextualError::bare(at, kind) }
}

/// Run a grammar against `text` starting at `pos`. This is the engine: it
/// is proved to return exactly what the semantics [`spec_run`] assigns.
pub fn run(g: &Grammar, text: &Vec<char>, pos: usize) -> (r: ParseResult<Vec<Value>>)
    requires
        pos <= text@.len(),
    ensures
        run_view(r) == spec_run(*g, text@, pos as int),
    decreases text@.len() - pos, *g,
{
    let tlen: usize = text.len();
    proof {
        assert(text@.len() <= usize::MAX);
        lemma_run_bounds(*g, text@, pos as int);
    }
    match g {
        Grammar::Tag(p) => {
            if prefix_matches(p, text, pos) {
                let end: usize = pos + p.len();
                ParseResult::Success { value: one_span(pos, end), remainder: Cursor { pos: end } }
            } else {
                soft_fail(pos, ErrorKind::Tag)
            }
        },
        Grammar::TagNoCase(p) => {
            if prefix_matches_nocase(p, text, pos) {
                let end: usize = pos + p.len();
                ParseResult::Success { value: one_span(pos, end), remainder: Cursor { pos: end } }
            } else {
                soft_fail(pos, ErrorKind::Tag)
            }
        },
        Grammar::TakeWhileMN { min, max, class } => {
            let r = class_run_len(*class, text, pos);
            let n: usize = if r > *max {
                *max
            } else {
                r
            };
            if n >= *min {
                let end: usize = pos + n;
                ParseResult::Success { value: one_span(pos, end), remainder: Cursor { pos: end } }
            } else {
                soft_fail(pos, ErrorKind::BoundedRepetition)
            }
        },
        Grammar::TakeWhile0(class) => {
            let n = class_run_len(*class, text, pos);
            let end: usize = pos + n;
            ParseResult::Success { value: one_span(pos, end), remainder: Cursor { pos: end } }
        },
        Grammar::TakeWhile1(class) => {
            let n = class_run_len(*class, text, pos);
            if n >= 1 {
                let end: usize = pos + n;
                ParseResult::Success { value: one_span(pos, end), remainder: Cursor { pos: end } }
            } else {
                soft_fail(pos, ErrorKind::CharacterClass)
            }
        },
        Grammar::TakeUntil(p) => {
            match find_sub(p, text, pos) {
                Some(f) => {
                    proof {
                        lemma_find_from(p@, text@, pos as int);
                    }
                    ParseResult::Success { value: one_span(pos, f), remainder: Cursor { pos: f } }
                },
                None => soft_fail(pos, ErrorKind::UnboundedRepetition),
            }
        },
        Grammar::IntLiteral => {
            match scan_int(text, pos) {
                Some((v, next)) => {
                    let mut vals: Vec<Value> = Vec::new();
                    vals.push(Value::Num(v));
                    proof {
                        assert(vals@ =~= seq![Value::Num(v)]);
                    }
                    ParseResult::Success { value: vals, remainder: Cursor { pos: next } }
                },
                None => soft_fail(pos, ErrorKind::NumericConversion),
            }
        },
        Grammar::MapHexByte(sub) => {
            match run(&**sub, text, pos) {
                ParseResult::Success { value, remainder } => {
                    if value.len() == 1 {
                        let v0 = value[0];
                        match v0 {
                            Value::Span(sp) => {
                                if sp.start <= sp.end && sp.end <= text.len() {
                                    match hex_span_value(text, sp.start, sp.end) {
                                        Some(b) => {
                                            proof {
                                                crate::numbers::lemma_hex_value_nonneg(
                                                    text@,
                                                    sp.start as int,
                                                    sp.end as int,
                                                );
                                            }
                                            let mut vals: Vec<Value> = Vec::new();
                                            vals.push(Value::Byte(b));
                                            proof {
                                                assert(vals@ =~= seq![Value::Byte(b)]);
                                            }
                                            ParseResult::Success { value: vals, remainder }
                                        },
                                        None => soft_fail(pos, ErrorKind::NumericConversion),
                                    }
                                } else {
                                    soft_fail(pos, ErrorKind::NumericConversion)
                                }
                            },
                            _ => soft_fail(pos, ErrorKind::NumericConversion),
                        }
                    } else {
                        soft_fail(pos, ErrorKind::NumericConversion)
                    }
                },
                other => other,
            }
        },
        Grammar::MapConst(v, sub) => {
            match run(&**sub, text, pos) {
                ParseResult::Success { value: _, remainder } => {
                    let mut vals: Vec<Value> = Vec::new();
                    vals.push(*v);
                    proof {
                        assert(vals@ =~= seq![*v]);
                    }
                    ParseResult::Success { value: vals, remainder }
                },
                other => other,
            }
        },
        Grammar::Pair(a, b) => {
            match run(&**a, text, pos) {
                ParseResult::Success { value: va, remainder } => {
                    proof {
                        lemma_run_bounds(**a, text@, pos as int);
                    }
                    match run(&**b, text, remainder.pos) {
                        ParseResult::Success { value: vb, remainder: r2 } => {
                            let ghost gva = va@;
                            let ghost gvb = vb@;
                            let mut out = va;
                            let mut more = vb;
                            out.append(&mut more);
                            proof {
                                assert(out@ =~= gva + gvb);
                            }
                            ParseResult::Success { value: out, remainder: r2 }
                        },
                        other => other,
                    }
                },
                other => other,
            }
        },
        Grammar::Alt(a, b) => {
            match run(&**a, text, pos) {
                ParseResult::RecoverableFailure { error: _ } => run(&**b, text, pos),
                other => other,
            }
        },
        Grammar::Many0(sub) => {
            match run(&**sub, text, pos) {
                ParseResult::RecoverableFailure { error: _ } => {
                    ParseResult::Success { value: Vec::new(), remainder: Cursor { pos } }
                },
                ParseResult::FatalFailure { error } => ParseResult::FatalFailure { error },
                ParseResult::Success { value, remainder } => {
                    proof {
                        lemma_run_bounds(**sub, text@, pos as int);
                    }
                    if remainder.pos > pos {
                        match run(g, text, remainder.pos) {
                            ParseResult::Success { value: more, remainder: rf } => {
                                let ghost gva = value@;
                                let ghost gvb = more@;
                                let mut out = value;
                                let mut rest = more;
                                out.append(&mut rest);
                                proof {
                                    assert(out@ =~= gva + gvb);
                                }
                                ParseResult::Success { value: out, remainder: rf }
                            },
                            other => other,
                        }
                    } else {
                        ParseResult::Success { value: Vec::new(), remainder: Cursor { pos } }
                    }
                },
            }
        },
        Grammar::Skip(sub) => {
            match run(&**sub, text, pos) {
                ParseResult::Success { value: _, remainder } => {
                    ParseResult::Success { value: Vec::new(), remainder }
                },
                other => other,
            }
        },
        Grammar::Context(label, sub) => {
            match run(&**sub, text, pos) {
                ParseResult::RecoverableFailure { error } => {
                    ParseResult::RecoverableFailure {
                        error: error.with_context(label.clone(), pos),
                    }
                },
                ParseResult::FatalFailure { error } => {
                    ParseResult::FatalFailure { error: error.with_context(label.clone(), pos) }
                },
                other => other,
            }
        },
        Grammar::Cut(sub) => {
            match run(&**sub, text, pos) {
                ParseResult::RecoverableFailure { error } => ParseResult::FatalFailure { error },
                other => other,
            }
        },
    }
}

} // verus!
