use vstd::prelude::*;
use vstd::string::StringExecFns;
use crate::classes::CharClass;
use crate::combinators::{chars_of, tag, take_while_m_n, map_hex_byte, pair, preceded, context};
use crate::cursor::Cursor;
use crate::errors::{ErrorKind, ErrorView, FrameView, KindView};
use crate::grammar::{Grammar, run, spec_run};
use crate::outcome::{Outcome, ParseResult, Value, run_view, soft_err};
use crate::primitives::{prefix_eq, class_run, all_hex, hex_value, lemma_class_run_bounds,
    lemma_class_run_chars};

verus! {

/// A 24-bit color, one byte per channel.
#[derive(Clone, Copy, PartialEq, Eq, Structural, Debug)]
pub struct Color {
    pub r: u8,
    pub g: u8,
    pub b: u8,
}

impl Color {
    /// A color from its three channels.
    pub fn new(r: u8, g: u8, b: u8) -> (c: Color)
        ensures
            c == (Color { r, g, b }),
    {
        Color { r, g, b }
    }
}

/// What matching exactly two hexadecimal digits and converting them to a
/// byte yields: the byte and the cursor moved by two, or a
/// `BoundedRepetition` failure at `pos` when fewer than two hexadecimal
/// digits stand there.
pub open spec fn spec_hex_segment(text: Seq<char>, pos: int) -> Outcome {
    if class_run(CharClass::HexDigit, text, pos) >= 2 {
        Outcome::Success {
            vals: seq![Value::Byte(hex_value(text, pos, pos + 2) as u8)],
            next: pos + 2,
        }
    } else {
        soft_err(pos, KindView::BoundedRepetition)
    }
}

/// Two hexadecimal digits are worth at most 255.
pub proof fn lemma_hex_value_two(text: Seq<char>, pos: int)
    requires
        all_hex(text, pos, pos + 2),
    ensures
        0 <= hex_value(text, pos, pos + 2) < 256,
{
    reveal_with_fuel(crate::primitives::hex_value, 3);
    assert(crate::classes::hex_digit_val(text[pos]) < 16);
    assert(crate::classes::hex_digit_val(text[pos + 1]) < 16);
}

/// The hex-pair grammar, proved equal to [`spec_hex_segment`].
#[verifier::rlimit(100)]
fn hex_segment_grammar() -> (g: Grammar)
    ensures
        forall|text: Seq<char>, pos: int|
            0 <= pos <= text.len() <= usize::MAX ==> #[trigger] spec_run(g, text, pos)
                == spec_hex_segment(text, pos),
{
    let g = map_hex_byte(take_while_m_n(2, 2, CharClass::HexDigit));
    proof {
        assert forall|text: Seq<char>, pos: int|
            0 <= pos <= text.len() <= usize::MAX implies #[trigger] spec_run(g, text, pos)
            == spec_hex_segment(text, pos) by {
            lemma_class_run_bounds(CharClass::HexDigit, text, pos);
            lemma_class_run_chars(CharClass::HexDigit, text, pos);
            if class_run(CharClass::HexDigit, text, pos) >= 2 {
                lemma_hex_value_two(text, pos);
            }
            reveal_with_fuel(spec_run, 3);
        }
    }
    g
}

/// How a typed byte result corresponds to an engine outcome whose value
/// list is one byte.
pub open spec fn byte_result_matches(out: ParseResult<u8>, o: Outcome) -> bool {
    match o {
        Outcome::Success { vals, next } => out matches ParseResult::Success { value, remainder }
            && vals == seq![Value::Byte(value)] && remainder.pos == next,
        Outcome::Recoverable { err } => out matches ParseResult::RecoverableFailure { error }
            && error@ == err,
        Outcome::Fatal { err } => out matches ParseResult::FatalFailure { error } && error@ == err,
    }
}

/// Match exactly two hexadecimal digits at the cursor and convert them to
/// a byte.
pub fn parse_hex_segment(text: &Vec<char>, cur: Cursor) -> (r: ParseResult<u8>)
    requires
        cur.in_bounds(text@),
    ensures
        byte_result_matches(r, spec_hex_segment(text@, cur.pos as int)),
{
    let tlen: usize = text.len();
    let g = hex_segment_grammar();
    let rr = run(&g, text, cur.pos);
    match rr {
        ParseResult::Success { value, remainder } => {
            let v0 = value[0];
            match v0 {
                Value::Byte(b) => {
                    proof {
                        assert(value@ =~= seq![Value::Byte(b)]);
                    }
                    ParseResult::Success { value: b, remainder }
                },
                _ => {
                    proof {
                        assert(false);
                    }
                    ParseResult::RecoverableFailure {
                        error: crate::errors::ContextualError::bare(cur.pos, ErrorKind::Tag),
                    }
                },
            }
        },
        ParseResult::RecoverableFailure { error } => ParseResult::RecoverableFailure { error },
        ParseResult::FatalFailure { error } => ParseResult::FatalFailure { error },
    }
}

/// Three hex pairs in a row: the three channel bytes.
pub open spec fn spec_color_body(text: Seq<char>, pos: int) -> Outcome {
    match spec_hex_segment(text, pos) {
        Outcome::Success { vals: v1, next: n1 } => match spec_hex_segment(text, n1) {
            Outcome::Success { vals: v2, next: n2 } => match spec_hex_segment(text, n2) {
                Outcome::Success { vals: v3, next: n3 } => Outcome::Success {
                    vals: v1 + v2 + v3,
                    next: n3,
                },
                other => other,
            },
            other => other,
        },
        other => other,
    }
}

/// The hex-color grammar: `#`, then three hex pairs, giving the red,
/// green and blue channels.
pub open spec fn spec_hex_color(text: Seq<char>, pos: int) -> Outcome {
    if !prefix_eq(seq!['#'], text, pos) {
        soft_err(pos, KindView::Tag)
    } else {
        spec_color_body(text, pos + 1)
    }
}

/// Running three chained hex pairs is exactly [`spec_color_body`].
#[verifier::rlimit(100)]
proof fn lemma_run_seg_triple(y: Grammar, s1: Grammar, s2: Grammar, s3: Grammar, text: Seq<char>, pos: int)
    requires
        0 <= pos <= text.len() <= usize::MAX,
        (y matches Grammar::Pair(a, bc) && *a == s1 && (*bc matches Grammar::Pair(b, c) && *b == s2
            && *c == s3)),
        forall|t: Seq<char>, p: int|
            0 <= p <= t.len() <= usize::MAX ==> #[trigger] spec_run(s1, t, p)
                == spec_hex_segment(t, p),
        forall|t: Seq<char>, p: int|
            0 <= p <= t.len() <= usize::MAX ==> #[trigger] spec_run(s2, t, p)
                == spec_hex_segment(t, p),
        forall|t: Seq<char>, p: int|
            0 <= p <= t.len() <= usize::MAX ==> #[trigger] spec_run(s3, t, p)
                == spec_hex_segment(t, p),
    ensures
        spec_run(y, text, pos) == spec_color_body(text, pos),
{
    lemma_class_run_bounds(CharClass::HexDigit, text, pos);
    assert(spec_run(s1, text, pos) == spec_hex_segment(text, pos));
    match spec_hex_segment(text, pos) {
        Outcome::Success { vals: v1, next: n1 } => {
            lemma_class_run_bounds(CharClass::HexDigit, text, n1);
            assert(spec_run(s2, text, n1) == spec_hex_segment(text, n1));
            match spec_hex_segment(text, n1) {
                Outcome::Success { vals: v2, next: n2 } => {
                    lemma_class_run_bounds(CharClass::HexDigit, text, n2);
                    assert(spec_run(s3, text, n2) == spec_hex_segment(text, n2));
                    match spec_hex_segment(text, n2) {
                        Outcome::Success { vals: v3, next: n3 } => {
                            assert(v1 + (v2 + v3) =~= v1 + v2 + v3);
                        },
                        _ => {},
                    }
                },
                _ => {},
            }
        },
        _ => {},
    }
    assert(spec_run(y, text, pos) == spec_color_body(text, pos)) by {
        reveal_with_fuel(spec_run, 3);
    }
}

/// How a typed color result corresponds to an engine outcome whose value
/// list is the three channel bytes.
pub open spec fn color_result_matches(out: ParseResult<Color>, o: Outcome) -> bool {
    match o {
        Outcome::Success { vals, next } => out matches ParseResult::Success { value, remainder }
            && vals == seq![
            Value::Byte(value.r),
            Value::Byte(value.g),
            Value::Byte(value.b),
        ] && remainder.pos == next,
        Outcome::Recoverable { err } => out matches ParseResult::RecoverableFailure { error }
            && error@ == err,
        Outcome::Fatal { err } => out matches ParseResult::FatalFailure { error } && error@ == err,
    }
}

/// Parse a hex color such as `#FFAA00` by explicit chaining: match `#`,
/// then each channel in turn, returning at the first failure.
pub fn parse_hex_color_no_alpha(text: &Vec<char>, cur: Cursor) -> (r: ParseResult<Color>)
    requires
        cur.in_bounds(text@),
    ensures
        color_result_matches(r, spec_hex_color(text@, cur.pos as int)),
{
    let tlen: usize = text.len();
    let hash = chars_of("#");
    proof {
        reveal_strlit("#");
        assert("#"@ =~= seq!['#']);
    }
    if !crate::primitives::prefix_matches(&hash, text, cur.pos) {
        return ParseResult::RecoverableFailure {
            error: crate::errors::ContextualError::bare(cur.pos, ErrorKind::Tag),
        };
    }
    let c1 = parse_hex_segment(text, Cursor { pos: cur.pos + 1 });
    match c1 {
        ParseResult::Success { value: red, remainder: rem1 } => {
            proof {
                lemma_class_run_bounds(CharClass::HexDigit, text@, cur.pos + 1);
            }
            let c2 = parse_hex_segment(text, rem1);
            match c2 {
                ParseResult::Success { value: green, remainder: rem2 } => {
                    proof {
                        lemma_class_run_bounds(CharClass::HexDigit, text@, rem1.pos as int);
                    }
                    let c3 = parse_hex_segment(text, rem2);
                    match c3 {
                        ParseResult::Success { value: blue, remainder: rem3 } => {
                            proof {
                                assert(seq![Value::Byte(red)] + seq![Value::Byte(green)] + seq![
                                    Value::Byte(blue),
                                ] =~= seq![
                                    Value::Byte(red),
                                    Value::Byte(green),
                                    Value::Byte(blue),
                                ]);
                            }
                            ParseResult::Success {
                                value: Color { r: red, g: green, b: blue },
                                remainder: rem3,
                            }
                        },
                        ParseResult::RecoverableFailure { error } => {
                            ParseResult::RecoverableFailure { error }
                        },
                        ParseResult::FatalFailure { error } => ParseResult::FatalFailure { error },
                    }
                },
                ParseResult::RecoverableFailure { error } => ParseResult::RecoverableFailure {
                    error,
                },
                ParseResult::FatalFailure { error } => ParseResult::FatalFailure { error },
            }
        },
        ParseResult::RecoverableFailure { error } => ParseResult::RecoverableFailure { error },
        ParseResult::FatalFailure { error } => ParseResult::FatalFailure { error },
    }
}

/// The engine form of the hex-color grammar: `#`, then three chained hex
/// pairs.
#[verifier::rlimit(100)]
pub fn hex_color_grammar() -> (g: Grammar)
    ensures
        forall|text: Seq<char>, pos: int|
            0 <= pos <= text.len() <= usize::MAX ==> #[trigger] spec_run(g, text, pos)
                == spec_hex_color(text, pos),
{
    let s1 = hex_segment_grammar();
    let s2 = hex_segment_grammar();
    let s3 = hex_segment_grammar();
    let ghost gs1 = s1;
    let ghost gs2 = s2;
    let ghost gs3 = s3;
    let g = preceded(tag(chars_of("#")), pair(s1, pair(s2, s3)));
    proof {
        reveal_strlit("#");
        assert("#"@ =~= seq!['#']);
        assert forall|text: Seq<char>, pos: int|
            0 <= pos <= text.len() <= usize::MAX implies #[trigger] spec_run(g, text, pos)
            == spec_hex_color(text, pos) by {
            if prefix_eq(seq!['#'], text, pos) {
                let y = g->Pair_1;
                lemma_run_seg_triple(*y, gs1, gs2, gs3, text, pos + 1);
            }
            reveal_with_fuel(spec_run, 3);
        }
    }
    g
}

/// Parse a hex color through the combinator engine; it agrees with
/// [`parse_hex_color_no_alpha`] on every input.
pub fn parse_hex_color_no_alpha_2(text: &Vec<char>, cur: Cursor) -> (r: ParseResult<Color>)
    requires
        cur.in_bounds(text@),
    ensures
        color_result_matches(r, spec_hex_color(text@, cur.pos as int)),
{
    let tlen: usize = text.len();
    let g = hex_color_grammar();
    let rr = run(&g, text, cur.pos);
    to_color_result(rr, Ghost(spec_hex_color(text@, cur.pos as int)))
}

/// Convert an engine result known to carry exactly three bytes.
fn to_color_result(r: ParseResult<Vec<Value>>, expect: Ghost<Outcome>) -> (out: ParseResult<Color>)
    requires
        run_view(r) == expect@,
        (expect@ matches Outcome::Success { vals, .. } ==> vals.len() == 3 && vals[0] is Byte
            && vals[1] is Byte && vals[2] is Byte),
    ensures
        (expect@ matches Outcome::Success { vals, next } ==> out matches ParseResult::Success {
            value,
            remainder,
        } && vals == seq![Value::Byte(value.r), Value::Byte(value.g), Value::Byte(value.b)]
            && remainder.pos == next),
        (expect@ matches Outcome::Recoverable { err } ==> out matches
            ParseResult::RecoverableFailure { error } && error@ == err),
        (expect@ matches Outcome::Fatal { err } ==> out matches ParseResult::FatalFailure { error }
            && error@ == err),
{
    match r {
        ParseResult::Success { value, remainder } => {
            let v0 = value[0];
            let v1 = value[1];
            let v2 = value[2];
            match (v0, v1, v2) {
                (Value::Byte(red), Value::Byte(green), Value::Byte(blue)) => {
                    proof {
                        assert(value@ =~= seq![
                            Value::Byte(red),
                            Value::Byte(green),
                            Value::Byte(blue),
                        ]);
                    }
                    ParseResult::Success {
                        value: Color { r: red, g: green, b: blue },
                        remainder,
                    }
                },
                _ => {
                    proof {
                        assert(false);
                    }
                    ParseResult::RecoverableFailure {
                        error: crate::errors::ContextualError::bare(0, ErrorKind::Tag),
                    }
                },
            }
        },
        ParseResult::RecoverableFailure { error } => ParseResult::RecoverableFailure { error },
        ParseResult::FatalFailure { error } => ParseResult::FatalFailure { error },
    }
}

/// Layer one context frame onto the failures of an outcome.
pub open spec fn push_frame(o: Outcome, label: Seq<char>, at: int) -> Outcome {
    match o {
        Outcome::Success { vals, next } => Outcome::Success { vals, next },
        Outcome::Recoverable { err } => Outcome::Recoverable {
            err: ErrorView {
                at: err.at,
                kind: err.kind,
                stack: err.stack.push(FrameView { label, at }),
            },
        },
        Outcome::Fatal { err } => Outcome::Fatal {
            err: ErrorView {
                at: err.at,
                kind: err.kind,
                stack: err.stack.push(FrameView { label, at }),
            },
        },
    }
}

/// Three labeled hex pairs in a row.
pub open spec fn spec_rgb_body(text: Seq<char>, pos: int) -> Outcome {
    match push_frame(spec_hex_segment(text, pos), "hex color red segment"@, pos) {
        Outcome::Success { vals: v1, next: n1 } => match push_frame(
            spec_hex_segment(text, n1),
            "hex color green segment"@,
            n1,
        ) {
            Outcome::Success { vals: v2, next: n2 } => match push_frame(
                spec_hex_segment(text, n2),
                "hex color blue segment"@,
                n2,
            ) {
                Outcome::Success { vals: v3, next: n3 } => Outcome::Success {
                    vals: v1 + v2 + v3,
                    next: n3,
                },
                other => other,
            },
            other => other,
        },
        other => other,
    }
}

/// The labeled hex-color grammar: as [`spec_hex_color`], but each failure
/// carries the label of the part being parsed when it failed.
pub open spec fn spec_hex_rgb(text: Seq<char>, pos: int) -> Outcome {
    if !prefix_eq(seq!['#'], text, pos) {
        push_frame(soft_err(pos, KindView::Tag), "start of hex color"@, pos)
    } else {
        spec_rgb_body(text, pos + 1)
    }
}

/// Running three labeled hex pairs is exactly [`spec_rgb_body`].
#[verifier::rlimit(100)]
proof fn lemma_run_rgb_triple(y: Grammar, s1: Grammar, s2: Grammar, s3: Grammar, text: Seq<char>, pos: int)
    requires
        0 <= pos <= text.len() <= usize::MAX,
        (y matches Grammar::Pair(a, bc) && (*a matches Grammar::Context(l1, w1) && l1@
            == "hex color red segment"@ && *w1 == s1) && (*bc matches Grammar::Pair(b, c) && (*b
            matches Grammar::Context(l2, w2) && l2@ == "hex color green segment"@ && *w2 == s2)
            && (*c matches Grammar::Context(l3, w3) && l3@ == "hex color blue segment"@ && *w3
            == s3))),
        forall|t: Seq<char>, p: int|
            0 <= p <= t.len() <= usize::MAX ==> #[trigger] spec_run(s1, t, p)
                == spec_hex_segment(t, p),
        forall|t: Seq<char>, p: int|
            0 <= p <= t.len() <= usize::MAX ==> #[trigger] spec_run(s2, t, p)
                == spec_hex_segment(t, p),
        forall|t: Seq<char>, p: int|
            0 <= p <= t.len() <= usize::MAX ==> #[trigger] spec_run(s3, t, p)
                == spec_hex_segment(t, p),
    ensures
        spec_run(y, text, pos) == spec_rgb_body(text, pos),
{
    lemma_class_run_bounds(CharClass::HexDigit, text, pos);
    assert(spec_run(s1, text, pos) == spec_hex_segment(text, pos));
    match spec_hex_segment(text, pos) {
        Outcome::Success { vals: v1, next: n1 } => {
            lemma_class_run_bounds(CharClass::HexDigit, text, n1);
            assert(spec_run(s2, text, n1) == spec_hex_segment(text, n1));
            match spec_hex_segment(text, n1) {
                Outcome::Success { vals: v2, next: n2 } => {
                    lemma_class_run_bounds(CharClass::HexDigit, text, n2);
                    assert(spec_run(s3, text, n2) == spec_hex_segment(text, n2));
                    match spec_hex_segment(text, n2) {
                        Outcome::Success { vals: v3, next: n3 } => {
                            assert(v1 + (v2 + v3) =~= v1 + v2 + v3);
                        },
                        _ => {},
                    }
                },
                _ => {},
            }
        },
        _ => {},
    }
    assert(spec_run(y, text, pos) == spec_rgb_body(text, pos)) by {
        reveal_with_fuel(spec_run, 3);
    }
}

/// Parse a hex color with context labels: failures name the part being
/// parsed (`start of hex color`, or the red, green or blue segment).
#[verifier::rlimit(100)]
pub fn parse_hex_rgb(text: &Vec<char>, cur: Cursor) -> (r: ParseResult<Color>)
    requires
        cur.in_bounds(text@),
    ensures
        (spec_hex_rgb(text@, cur.pos as int) matches Outcome::Success { vals, next } ==> r matches
            ParseResult::Success { value, remainder } && vals == seq![
            Value::Byte(value.r),
            Value::Byte(value.g),
            Value::Byte(value.b),
        ] && remainder.pos == next),
        (spec_hex_rgb(text@, cur.pos as int) matches Outcome::Recoverable { err } ==> r matches
            ParseResult::RecoverableFailure { error } && error@ == err),
        (spec_hex_rgb(text@, cur.pos as int) matches Outcome::Fatal { err } ==> r matches
            ParseResult::FatalFailure { error } && error@ == err),
{
    let tlen: usize = text.len();
    let s1 = hex_segment_grammar();
    let s2 = hex_segment_grammar();
    let s3 = hex_segment_grammar();
    let ghost gs1 = s1;
    let ghost gs2 = s2;
    let ghost gs3 = s3;
    let g = preceded(
        context(String::from_str("start of hex color"), tag(chars_of("#"))),
        pair(
            context(String::from_str("hex color red segment"), s1),
            pair(
                context(String::from_str("hex color green segment"), s2),
                context(String::from_str("hex color blue segment"), s3),
            ),
        ),
    );
    let rr = run(&g, text, cur.pos);
    proof {
        reveal_strlit("#");
        assert("#"@ =~= seq!['#']);
        reveal_strlit("start of hex color");
        reveal_strlit("hex color red segment");
        reveal_strlit("hex color green segment");
        reveal_strlit("hex color blue segment");
        let p0 = cur.pos as int;
        if prefix_eq(seq!['#'], text@, p0) {
            let y = g->Pair_1;
            lemma_run_rgb_triple(*y, gs1, gs2, gs3, text@, p0 + 1);
        }
        assert(run_view(rr) == spec_hex_rgb(text@, p0)) by {
            reveal_with_fuel(spec_run, 4);
        }
    }
    to_color_result(rr, Ghost(spec_hex_rgb(text@, cur.pos as int)))
}

} // verus!
