use vstd::prelude::*;
use crate::classes::CharClass;
use crate::combinators::{chars_of, tag, tag_no_case, alternation, map_const, pair};
use crate::cursor::Cursor;
use crate::errors::{ErrorKind, ErrorView, KindView};
use crate::grammar::{Grammar, run, spec_run};
use crate::outcome::{Outcome, ParseResult, Span, Value, run_view, soft_err};
use crate::primitives::{prefix_eq, prefix_eq_nocase, class_run, find_from,
    lemma_class_run_bounds};

verus! {

/// How a typed result over spans corresponds to an engine outcome whose
/// value list is one span.
pub open spec fn span_result_matches(out: ParseResult<Span>, o: Outcome) -> bool {
    match o {
        Outcome::Success { vals, next } => out matches ParseResult::Success { value, remainder }
            && vals == seq![Value::Span(value)] && remainder.pos == next,
        Outcome::Recoverable { err } => out matches ParseResult::RecoverableFailure { error }
            && error@ == err,
        Outcome::Fatal { err } => out matches ParseResult::FatalFailure { error } && error@ == err,
    }
}

/// Convert an engine result known to carry exactly one span.
fn to_span_result(r: ParseResult<Vec<Value>>) -> (out: ParseResult<Span>)
    requires
        (run_view(r) matches Outcome::Success { vals, .. } ==> vals.len() == 1 && vals[0]
            is Span),
    ensures
        span_result_matches(out, run_view(r)),
{
    match r {
        ParseResult::Success { value, remainder } => {
            let v0 = value[0];
            match v0 {
                Value::Span(sp) => {
                    proof {
                        assert(value@ =~= seq![Value::Span(sp)]);
                    }
                    ParseResult::Success { value: sp, remainder }
                },
                _ => {
                    proof {
                        assert(false);
                    }
                    ParseResult::Success { value: Span { start: 0, end: 0 }, remainder }
                },
            }
        },
        ParseResult::RecoverableFailure { error } => ParseResult::RecoverableFailure { error },
        ParseResult::FatalFailure { error } => ParseResult::FatalFailure { error },
    }
}

/// A parser that consumes nothing and always succeeds with the empty span
/// at the cursor: the identity of sequencing.
pub fn do_nothing_parser(text: &Vec<char>, cur: Cursor) -> (r: ParseResult<Span>)
    requires
        cur.in_bounds(text@),
    ensures
        r matches ParseResult::Success { value, remainder } && value == (Span {
            start: cur.pos,
            end: cur.pos,
        }) && remainder == cur,
{
    ParseResult::Success { value: Span { start: cur.pos, end: cur.pos }, remainder: cur }
}

/// Match the literal `abc` at the cursor.
pub fn parse_input(text: &Vec<char>, cur: Cursor) -> (r: ParseResult<Span>)
    requires
        cur.in_bounds(text@),
    ensures
        prefix_eq("abc"@, text@, cur.pos as int) ==> span_result_matches(
            r,
            Outcome::Success {
                vals: seq![Value::Span(Span { start: cur.pos, end: (cur.pos + 3) as usize })],
                next: cur.pos + 3,
            },
        ),
        !prefix_eq("abc"@, text@, cur.pos as int) ==> span_result_matches(
            r,
            soft_err(cur.pos as int, KindView::Tag),
        ),
{
    let tlen: usize = text.len();
    let g = tag(chars_of("abc"));
    proof {
        reveal_strlit("abc");
        reveal_with_fuel(spec_run, 4);
    }
    to_span_result(run(&g, text, cur.pos))
}

/// The maximal (possibly empty) run of ASCII letters at the cursor.
pub fn parser(text: &Vec<char>, cur: Cursor) -> (r: ParseResult<Span>)
    requires
        cur.in_bounds(text@),
    ensures
        span_result_matches(
            r,
            Outcome::Success {
                vals: seq![
                    Value::Span(
                        Span {
                            start: cur.pos,
                            end: (cur.pos + class_run(
                                CharClass::Alpha,
                                text@,
                                cur.pos as int,
                            )) as usize,
                        },
                    ),
                ],
                next: cur.pos + class_run(CharClass::Alpha, text@, cur.pos as int),
            },
        ),
{
    let tlen: usize = text.len();
    let g = Grammar::TakeWhile0(CharClass::Alpha);
    proof {
        reveal_with_fuel(spec_run, 4);
    }
    to_span_result(run(&g, text, cur.pos))
}

/// At least one ASCII letter at the cursor, consuming the maximal run;
/// fails with `CharacterClass` when the first character is not a letter.
pub fn parse_alpha1(text: &Vec<char>, cur: Cursor) -> (r: ParseResult<Span>)
    requires
        cur.in_bounds(text@),
    ensures
        class_run(CharClass::Alpha, text@, cur.pos as int) >= 1 ==> span_result_matches(
            r,
            Outcome::Success {
                vals: seq![
                    Value::Span(
                        Span {
                            start: cur.pos,
                            end: (cur.pos + class_run(
                                CharClass::Alpha,
                                text@,
                                cur.pos as int,
                            )) as usize,
                        },
                    ),
                ],
                next: cur.pos + class_run(CharClass::Alpha, text@, cur.pos as int),
            },
        ),
        class_run(CharClass::Alpha, text@, cur.pos as int) == 0 ==> span_result_matches(
            r,
            soft_err(cur.pos as int, KindView::CharacterClass),
        ),
{
    let tlen: usize = text.len();
    let g = Grammar::TakeWhile1(CharClass::Alpha);
    proof {
        reveal_with_fuel(spec_run, 4);
    }
    to_span_result(run(&g, text, cur.pos))
}

/// The maximal (possibly empty) run of blanks (space or tab) at the cursor.
pub fn parse_space(text: &Vec<char>, cur: Cursor) -> (r: ParseResult<Span>)
    requires
        cur.in_bounds(text@),
    ensures
        span_result_matches(
            r,
            Outcome::Success {
                vals: seq![
                    Value::Span(
                        Span {
                            start: cur.pos,
                            end: (cur.pos + class_run(
                                CharClass::Blank,
                                text@,
                                cur.pos as int,
                            )) as usize,
                        },
                    ),
                ],
                next: cur.pos + class_run(CharClass::Blank, text@, cur.pos as int),
            },
        ),
{
    let tlen: usize = text.len();
    let g = Grammar::TakeWhile0(CharClass::Blank);
    proof {
        reveal_with_fuel(spec_run, 4);
    }
    to_span_result(run(&g, text, cur.pos))
}

/// Match `def`, or on failure `ghi`, at the cursor. When both fail, the
/// second branch's diagnostics win.
pub fn parse_def_or_ghi(text: &Vec<char>, cur: Cursor) -> (r: ParseResult<Span>)
    requires
        cur.in_bounds(text@),
    ensures
        prefix_eq("def"@, text@, cur.pos as int) || prefix_eq("ghi"@, text@, cur.pos as int)
            ==> span_result_matches(
            r,
            Outcome::Success {
                vals: seq![Value::Span(Span { start: cur.pos, end: (cur.pos + 3) as usize })],
                next: cur.pos + 3,
            },
        ),
        !prefix_eq("def"@, text@, cur.pos as int) && !prefix_eq("ghi"@, text@, cur.pos as int)
            ==> span_result_matches(r, soft_err(cur.pos as int, KindView::Tag)),
{
    let tlen: usize = text.len();
    let g = alternation(tag(chars_of("def")), tag(chars_of("ghi")));
    proof {
        reveal_strlit("def");
        reveal_strlit("ghi");
        reveal_with_fuel(spec_run, 6);
    }
    to_span_result(run(&g, text, cur.pos))
}

/// Match `abc` case-sensitively, or `def` case-insensitively.
pub fn parse_abc_case_or_def_no_case(text: &Vec<char>, cur: Cursor) -> (r: ParseResult<Span>)
    requires
        cur.in_bounds(text@),
    ensures
        prefix_eq("abc"@, text@, cur.pos as int) || prefix_eq_nocase(
            "def"@,
            text@,
            cur.pos as int,
        ) ==> span_result_matches(
            r,
            Outcome::Success {
                vals: seq![Value::Span(Span { start: cur.pos, end: (cur.pos + 3) as usize })],
                next: cur.pos + 3,
            },
        ),
        !prefix_eq("abc"@, text@, cur.pos as int) && !prefix_eq_nocase(
            "def"@,
            text@,
            cur.pos as int,
        ) ==> span_result_matches(r, soft_err(cur.pos as int, KindView::Tag)),
{
    let tlen: usize = text.len();
    let g = alternation(tag(chars_of("abc")), tag_no_case(chars_of("def")));
    proof {
        reveal_strlit("abc");
        reveal_strlit("def");
        reveal_with_fuel(spec_run, 6);
    }
    to_span_result(run(&g, text, cur.pos))
}

/// Whether one of the four DNA base letters stands at `pos`, case
///-insensitively.
pub open spec fn base_at(text: Seq<char>, pos: int) -> bool {
    ||| prefix_eq_nocase(seq!['a'], text, pos)
    ||| prefix_eq_nocase(seq!['t'], text, pos)
    ||| prefix_eq_nocase(seq!['c'], text, pos)
    ||| prefix_eq_nocase(seq!['g'], text, pos)
}

/// What matching one DNA base at `pos` yields.
pub open spec fn base_outcome(text: Seq<char>, pos: int) -> Outcome {
    if base_at(text, pos) {
        Outcome::Success {
            vals: seq![Value::Span(Span { start: pos as usize, end: (pos + 1) as usize })],
            next: pos + 1,
        }
    } else {
        soft_err(pos, KindView::Tag)
    }
}

/// The grammar of one DNA base: `a`, `t`, `c` or `g`, either case, with
/// the last alternative's diagnostics winning on failure.
#[verifier::rlimit(100)]
fn base_grammar() -> (g: Grammar)
    ensures
        forall|text: Seq<char>, pos: int|
            0 <= pos <= text.len() <= usize::MAX ==> #[trigger] spec_run(g, text, pos)
                == base_outcome(text, pos),
{
    let g = alternation(
        tag_no_case(chars_of("a")),
        alternation(
            tag_no_case(chars_of("t")),
            alternation(tag_no_case(chars_of("c")), tag_no_case(chars_of("g"))),
        ),
    );
    proof {
        reveal_strlit("a");
        reveal_strlit("t");
        reveal_strlit("c");
        reveal_strlit("g");
        assert("a"@ =~= seq!['a']);
        assert("t"@ =~= seq!['t']);
        assert("c"@ =~= seq!['c']);
        assert("g"@ =~= seq!['g']);
        assert forall|text: Seq<char>, pos: int|
            0 <= pos <= text.len() <= usize::MAX implies #[trigger] spec_run(g, text, pos)
            == base_outcome(text, pos) by {
            reveal_with_fuel(spec_run, 5);
        }
    }
    g
}

/// Match one DNA base (`a`, `t`, `c` or `g`, either case) at the cursor.
pub fn parse_base(text: &Vec<char>, cur: Cursor) -> (r: ParseResult<Span>)
    requires
        cur.in_bounds(text@),
    ensures
        base_at(text@, cur.pos as int) ==> span_result_matches(
            r,
            Outcome::Success {
                vals: seq![Value::Span(Span { start: cur.pos, end: (cur.pos + 1) as usize })],
                next: cur.pos + 1,
            },
        ),
        !base_at(text@, cur.pos as int) ==> span_result_matches(
            r,
            soft_err(cur.pos as int, KindView::Tag),
        ),
{
    let tlen: usize = text.len();
    let g = base_grammar();
    to_span_result(run(&g, text, cur.pos))
}

/// Two DNA bases in a row at the cursor: the pair of their spans.
#[verifier::rlimit(100)]
pub fn parse_pair_base(text: &Vec<char>, cur: Cursor) -> (r: ParseResult<(Span, Span)>)
    requires
        cur.in_bounds(text@),
    ensures
        base_at(text@, cur.pos as int) && base_at(text@, cur.pos + 1) ==> (r matches
            ParseResult::Success { value, remainder } && value == (
        (
            Span { start: cur.pos, end: (cur.pos + 1) as usize },
            Span { start: (cur.pos + 1) as usize, end: (cur.pos + 2) as usize },
        )) && remainder.pos == cur.pos + 2),
        base_at(text@, cur.pos as int) && !base_at(text@, cur.pos + 1) ==> (r matches
            ParseResult::RecoverableFailure { error } && error@ == (ErrorView {
            at: cur.pos + 1,
            kind: KindView::Tag,
            stack: Seq::empty(),
        })),
        !base_at(text@, cur.pos as int) ==> (r matches ParseResult::RecoverableFailure { error }
            && error@ == (ErrorView {
            at: cur.pos as int,
            kind: KindView::Tag,
            stack: Seq::empty(),
        })),
{
    let tlen: usize = text.len();
    let base1 = base_grammar();
    let base2 = base_grammar();
    let g = pair(base1, base2);
    let rr = run(&g, text, cur.pos);
    proof {
        let p0 = cur.pos as int;
        let sp1 = Span { start: cur.pos, end: (cur.pos + 1) as usize };
        let sp2 = Span { start: (cur.pos + 1) as usize, end: (cur.pos + 2) as usize };
        assert(seq![Value::Span(sp1)] + seq![Value::Span(sp2)] =~= seq![
            Value::Span(sp1),
            Value::Span(sp2),
        ]);
        assert(spec_run(base1, text@, p0) == base_outcome(text@, p0));
        if base_at(text@, p0) {
            assert(p0 + 1 <= text@.len());
            assert(spec_run(base2, text@, p0 + 1) == base_outcome(text@, p0 + 1));
            if base_at(text@, p0 + 1) {
                assert(run_view(rr) == (Outcome::Success {
                    vals: seq![Value::Span(sp1), Value::Span(sp2)],
                    next: p0 + 2,
                })) by {
                    reveal_with_fuel(spec_run, 2);
                }
            } else {
                assert(run_view(rr) == soft_err(p0 + 1, KindView::Tag)) by {
                    reveal_with_fuel(spec_run, 2);
                }
            }
        } else {
            assert(run_view(rr) == soft_err(p0, KindView::Tag)) by {
                reveal_with_fuel(spec_run, 2);
            }
        }
    }
    match rr {
        ParseResult::Success { value, remainder } => {
            let v0 = value[0];
            let v1 = value[1];
            match (v0, v1) {
                (Value::Span(s1), Value::Span(s2)) => {
                    ParseResult::Success { value: (s1, s2), remainder }
                },
                _ => {
                    proof {
                        assert(false);
                    }
                    ParseResult::RecoverableFailure {
                        error: crate::errors::ContextualError::bare(cur.pos, ErrorKind::Tag),
                    }
                },
            }
        },
        ParseResult::RecoverableFailure { error } => ParseResult::RecoverableFailure { error },
        ParseResult::FatalFailure { error } => ParseResult::FatalFailure { error },
    }
}

/// Match `true` or `false`, case-insensitively, at the cursor.
pub fn parse_bool(text: &Vec<char>, cur: Cursor) -> (r: ParseResult<bool>)
    requires
        cur.in_bounds(text@),
    ensures
        prefix_eq_nocase("true"@, text@, cur.pos as int) ==> (r matches ParseResult::Success {
            value,
            remainder,
        } && value == true && remainder.pos == cur.pos + 4),
        !prefix_eq_nocase("true"@, text@, cur.pos as int) && prefix_eq_nocase(
            "false"@,
            text@,
            cur.pos as int,
        ) ==> (r matches ParseResult::Success { value, remainder } && value == false
            && remainder.pos == cur.pos + 5),
        !prefix_eq_nocase("true"@, text@, cur.pos as int) && !prefix_eq_nocase(
            "false"@,
            text@,
            cur.pos as int,
        ) ==> (r matches ParseResult::RecoverableFailure { error } && error@ == (ErrorView {
            at: cur.pos as int,
            kind: KindView::Tag,
            stack: Seq::empty(),
        })),
{
    let tlen: usize = text.len();
    let g = alternation(
        map_const(Value::Flag(true), tag_no_case(chars_of("true"))),
        map_const(Value::Flag(false), tag_no_case(chars_of("false"))),
    );
    proof {
        reveal_strlit("true");
        reveal_strlit("false");
        reveal_with_fuel(spec_run, 8);
    }
    let rr = run(&g, text, cur.pos);
    match rr {
        ParseResult::Success { value, remainder } => {
            let v0 = value[0];
            match v0 {
                Value::Flag(b) => ParseResult::Success { value: b, remainder },
                _ => {
                    proof {
                        assert(false);
                    }
                    ParseResult::RecoverableFailure {
                        error: crate::errors::ContextualError::bare(cur.pos, ErrorKind::Tag),
                    }
                },
            }
        },
        ParseResult::RecoverableFailure { error } => ParseResult::RecoverableFailure { error },
        ParseResult::FatalFailure { error } => ParseResult::FatalFailure { error },
    }
}

/// What repeating a literal tag zero or more times yields: one span per
/// occurrence of `p`, each immediately after the one before.
pub open spec fn many_tag_outcome(p: Seq<char>, text: Seq<char>, pos: int) -> Outcome
    decreases text.len() - pos when 0 <= pos && p.len() >= 1
{
    if prefix_eq(p, text, pos) {
        match many_tag_outcome(p, text, pos + p.len()) {
            Outcome::Success { vals, next } => Outcome::Success {
                vals: seq![
                    Value::Span(Span { start: pos as usize, end: (pos + p.len()) as usize }),
                ] + vals,
                next,
            },
            other => other,
        }
    } else {
        Outcome::Success { vals: seq![], next: pos }
    }
}

/// Repetition of a non-empty literal always succeeds, stays inside the
/// text, and yields spans only.
pub proof fn lemma_many_tag_outcome_shape(p: Seq<char>, text: Seq<char>, pos: int)
    requires
        0 <= pos <= text.len(),
        p.len() >= 1,
    ensures
        many_tag_outcome(p, text, pos) matches Outcome::Success { vals, next } && pos <= next
            <= text.len() && (forall|i: int| 0 <= i < vals.len() ==> (#[trigger] vals[i])
            is Span),
    decreases text.len() - pos,
{
    if prefix_eq(p, text, pos) {
        lemma_many_tag_outcome_shape(p, text, pos + p.len());
    }
}

/// Repeating a non-empty literal through the engine is exactly
/// [`many_tag_outcome`].
pub proof fn lemma_run_many_tag(g: Grammar, p: Seq<char>, text: Seq<char>, pos: int)
    requires
        0 <= pos <= text.len() <= usize::MAX,
        g matches Grammar::Many0(s) && (*s matches Grammar::Tag(pv) && pv@ == p),
        p.len() >= 1,
    ensures
        spec_run(g, text, pos) == many_tag_outcome(p, text, pos),
    decreases text.len() - pos,
{
    reveal_with_fuel(spec_run, 2);
    lemma_many_tag_outcome_shape(p, text, pos);
    if prefix_eq(p, text, pos) {
        lemma_run_many_tag(g, p, text, pos + p.len());
        lemma_many_tag_outcome_shape(p, text, pos + p.len());
    }
}

/// Match `abc` zero or more times at the cursor, returning the matched
/// spans in order. A non-matching head leaves the cursor unmoved with an
/// empty list.
pub fn many_abc(text: &Vec<char>, cur: Cursor) -> (r: ParseResult<Vec<Span>>)
    requires
        cur.in_bounds(text@),
    ensures
        r matches ParseResult::Success { value, remainder } && (many_tag_outcome(
            "abc"@,
            text@,
            cur.pos as int,
        ) matches Outcome::Success { vals, next } && remainder.pos == next && value@.len()
            == vals.len() && (forall|i: int| 0 <= i < vals.len() ==> #[trigger] vals[i]
            == Value::Span(value@[i]))),
{
    let tlen: usize = text.len();
    let g = crate::combinators::many0(tag(chars_of("abc")));
    proof {
        reveal_strlit("abc");
        lemma_run_many_tag(g, "abc"@, text@, cur.pos as int);
        lemma_many_tag_outcome_shape("abc"@, text@, cur.pos as int);
    }
    let rr = run(&g, text, cur.pos);
    match rr {
        ParseResult::Success { value, remainder } => {
            let mut spans: Vec<Span> = Vec::new();
            let mut i: usize = 0;
            while i < value.len()
                invariant
                    0 <= i <= value@.len(),
                    spans@.len() == i,
                    forall|j: int| 0 <= j < value@.len() ==> (#[trigger] value@[j]) is Span,
                    forall|j: int| 0 <= j < i ==> value@[j] == Value::Span(#[trigger] spans@[j]),
                decreases value@.len() - i,
            {
                match value[i] {
                    Value::Span(sp) => {
                        spans.push(sp);
                    },
                    _ => {
                        proof {
                            assert(false);
                        }
                    },
                }
                i += 1;
            }
            ParseResult::Success { value: spans, remainder }
        },
        _ => {
            proof {
                assert(false);
            }
            ParseResult::Success { value: Vec::new(), remainder: cur }
        },
    }
}

/// Everything up to the first full stop, then the maximal run of full
/// stops and whitespace. The span before the stop is the sentence; the
/// trailing run is consumed and discarded.
pub fn parse_sentence(text: &Vec<char>, cur: Cursor) -> (r: ParseResult<Span>)
    requires
        cur.in_bounds(text@),
    ensures
        find_from(seq!['.'], text@, cur.pos as int) >= 0 ==> span_result_matches(
            r,
            Outcome::Success {
                vals: seq![
                    Value::Span(
                        Span {
                            start: cur.pos,
                            end: find_from(seq!['.'], text@, cur.pos as int) as usize,
                        },
                    ),
                ],
                next: find_from(seq!['.'], text@, cur.pos as int) + class_run(
                    CharClass::DotOrWhitespace,
                    text@,
                    find_from(seq!['.'], text@, cur.pos as int),
                ),
            },
        ),
        find_from(seq!['.'], text@, cur.pos as int) == -1 ==> span_result_matches(
            r,
            soft_err(cur.pos as int, KindView::UnboundedRepetition),
        ),
{
    let tlen: usize = text.len();
    let g = crate::combinators::terminated(
        crate::combinators::take_until(chars_of(".")),
        crate::combinators::take_while0(CharClass::DotOrWhitespace),
    );
    proof {
        reveal_strlit(".");
        assert("."@ =~= seq!['.']);
        crate::primitives::lemma_find_from(seq!['.'], text@, cur.pos as int);
        let f = find_from(seq!['.'], text@, cur.pos as int);
        if f >= 0 {
            crate::primitives::lemma_class_run_bounds(CharClass::DotOrWhitespace, text@, f);
        }
        reveal_with_fuel(spec_run, 5);
    }
    to_span_result(run(&g, text, cur.pos))
}

/// A point with signed integer coordinates.
#[derive(Clone, Copy, PartialEq, Eq, Structural, Debug)]
pub struct Coordinates {
    pub x: i32,
    pub y: i32,
}

/// A coordinate, possibly padded with blanks on either side.
pub open spec fn spec_wrapped_int(text: Seq<char>, pos: int) -> Outcome {
    let p1 = pos + class_run(CharClass::Blank, text, pos);
    match crate::numbers::spec_int(text, p1) {
        Outcome::Success { vals, next } => Outcome::Success {
            vals,
            next: next + class_run(CharClass::Blank, text, next),
        },
        other => other,
    }
}

/// A success of [`spec_wrapped_int`] stays inside the text.
pub proof fn lemma_wrapped_int_bounds(text: Seq<char>, pos: int)
    requires
        0 <= pos <= text.len(),
    ensures
        spec_wrapped_int(text, pos) matches Outcome::Success { vals, next } ==> pos <= next
            <= text.len(),
{
    lemma_class_run_bounds(CharClass::Blank, text, pos);
    let p1 = pos + class_run(CharClass::Blank, text, pos);
    lemma_class_run_bounds(
        CharClass::Digit,
        text,
        p1 + crate::numbers::int_sign_len(text, p1),
    );
    match crate::numbers::spec_int(text, p1) {
        Outcome::Success { vals, next } => {
            lemma_class_run_bounds(CharClass::Blank, text, next);
        },
        _ => {},
    }
}

/// The coordinate-pair grammar: `(`, a wrapped coordinate, `,`, a second
/// wrapped coordinate, `)`. A missing comma is reported as a `Tag` failure
/// at the residual input where the comma was expected.
pub open spec fn spec_coord_body(text: Seq<char>, pos: int) -> Outcome {
    match spec_wrapped_int(text, pos) {
        Outcome::Success { vals: vx, next: nx } => if !prefix_eq(seq![','], text, nx) {
            soft_err(nx, KindView::Tag)
        } else {
            match spec_wrapped_int(text, nx + 1) {
                Outcome::Success { vals: vy, next: ny } => Outcome::Success {
                    vals: vx + vy,
                    next: ny,
                },
                other => other,
            }
        },
        other => other,
    }
}

pub open spec fn spec_coordinates(text: Seq<char>, pos: int) -> Outcome {
    if !prefix_eq(seq!['('], text, pos) {
        soft_err(pos, KindView::Tag)
    } else {
        match spec_coord_body(text, pos + 1) {
            Outcome::Success { vals, next: ny } => if !prefix_eq(seq![')'], text, ny) {
                soft_err(ny, KindView::Tag)
            } else {
                Outcome::Success { vals, next: ny + 1 }
            },
            other => other,
        }
    }
}

/// A success of [`spec_coord_body`] stays inside the text.
pub proof fn lemma_coord_body_bounds(text: Seq<char>, pos: int)
    requires
        0 <= pos <= text.len(),
    ensures
        spec_coord_body(text, pos) matches Outcome::Success { vals, next } ==> pos <= next
            <= text.len(),
{
    lemma_wrapped_int_bounds(text, pos);
    match spec_wrapped_int(text, pos) {
        Outcome::Success { vals: vx, next: nx } => {
            if prefix_eq(seq![','], text, nx) {
                lemma_wrapped_int_bounds(text, nx + 1);
            }
        },
        _ => {},
    }
}

/// Running the separated coordinate pair is exactly [`spec_coord_body`].
#[verifier::rlimit(100)]
proof fn lemma_run_coord_body(y: Grammar, ix: Grammar, iy: Grammar, text: Seq<char>, pos: int)
    requires
        0 <= pos <= text.len() <= usize::MAX,
        (y matches Grammar::Pair(l, sr) && *l == ix && (*sr matches Grammar::Pair(sp, rr) && (*sp
            matches Grammar::Skip(cm) && (*cm matches Grammar::Tag(p2) && p2@ == seq![',']))
            && *rr == iy)),
        forall|t: Seq<char>, p: int|
            0 <= p <= t.len() <= usize::MAX ==> #[trigger] spec_run(ix, t, p)
                == spec_wrapped_int(t, p),
        forall|t: Seq<char>, p: int|
            0 <= p <= t.len() <= usize::MAX ==> #[trigger] spec_run(iy, t, p)
                == spec_wrapped_int(t, p),
    ensures
        spec_run(y, text, pos) == spec_coord_body(text, pos),
{
    lemma_wrapped_int_bounds(text, pos);
    assert(spec_run(ix, text, pos) == spec_wrapped_int(text, pos));
    match spec_wrapped_int(text, pos) {
        Outcome::Success { vals: vx, next: nx } => {
            if prefix_eq(seq![','], text, nx) {
                lemma_wrapped_int_bounds(text, nx + 1);
                assert(spec_run(iy, text, nx + 1) == spec_wrapped_int(text, nx + 1));
            }
            assert(spec_run(y, text, pos) == spec_coord_body(text, pos)) by {
                reveal_with_fuel(spec_run, 4);
            }
        },
        _ => {
            assert(spec_run(y, text, pos) == spec_coord_body(text, pos)) by {
                reveal_with_fuel(spec_run, 4);
            }
        },
    }
}

/// A blank-padded integer as a grammar, proved equal to
/// [`spec_wrapped_int`].
#[verifier::rlimit(100)]
fn wrapped_int_grammar() -> (g: Grammar)
    ensures
        forall|text: Seq<char>, pos: int|
            0 <= pos <= text.len() <= usize::MAX ==> #[trigger] spec_run(g, text, pos)
                == spec_wrapped_int(text, pos),
{
    let g = crate::combinators::delimited(
        crate::combinators::take_while0(CharClass::Blank),
        crate::combinators::int_literal(),
        crate::combinators::take_while0(CharClass::Blank),
    );
    proof {
        assert forall|text: Seq<char>, pos: int|
            0 <= pos <= text.len() <= usize::MAX implies #[trigger] spec_run(g, text, pos)
            == spec_wrapped_int(text, pos) by {
            lemma_class_run_bounds(CharClass::Blank, text, pos);
            let p1 = pos + class_run(CharClass::Blank, text, pos);
            lemma_class_run_bounds(
                CharClass::Digit,
                text,
                p1 + crate::numbers::int_sign_len(text, p1),
            );
            match crate::numbers::spec_int(text, p1) {
                Outcome::Success { vals, next } => {
                    lemma_class_run_bounds(CharClass::Blank, text, next);
                },
                _ => {},
            }
            reveal_with_fuel(spec_run, 4);
        }
    }
    g
}

/// The shape of the coordinate grammar: `(`, a wrapped coordinate, a
/// comma, a second wrapped coordinate, `)`.
pub open spec fn is_coord_grammar(g: Grammar, ix: Grammar, iy: Grammar) -> bool {
    g matches Grammar::Pair(x, yz) && (*x matches Grammar::Skip(o) && (*o matches Grammar::Tag(p1)
        && p1@ == seq!['('])) && (*yz matches Grammar::Pair(y, z) && (*z matches Grammar::Skip(c)
        && (*c matches Grammar::Tag(p3) && p3@ == seq![')'])) && (*y matches Grammar::Pair(l, sr)
        && *l == ix && (*sr matches Grammar::Pair(sp, rr) && (*sp matches Grammar::Skip(cm) && (*cm
        matches Grammar::Tag(p2) && p2@ == seq![','])) && *rr == iy)))
}

/// Running the coordinate grammar is exactly [`spec_coordinates`].
#[verifier::rlimit(100)]
pub proof fn lemma_run_coordinates(g: Grammar, ix: Grammar, iy: Grammar, text: Seq<char>, pos: int)
    requires
        0 <= pos <= text.len() <= usize::MAX,
        is_coord_grammar(g, ix, iy),
        forall|t: Seq<char>, p: int|
            0 <= p <= t.len() <= usize::MAX ==> #[trigger] spec_run(ix, t, p)
                == spec_wrapped_int(t, p),
        forall|t: Seq<char>, p: int|
            0 <= p <= t.len() <= usize::MAX ==> #[trigger] spec_run(iy, t, p)
                == spec_wrapped_int(t, p),
    ensures
        spec_run(g, text, pos) == spec_coordinates(text, pos),
{
    if !prefix_eq(seq!['('], text, pos) {
        assert(spec_run(g, text, pos) == soft_err(pos, KindView::Tag)) by {
            reveal_with_fuel(spec_run, 4);
        }
    } else {
        let y = g->Pair_1->Pair_0;
        lemma_run_coord_body(*y, ix, iy, text, pos + 1);
        lemma_coord_body_bounds(text, pos + 1);
        assert(spec_run(g, text, pos) == spec_coordinates(text, pos)) by {
            reveal_with_fuel(spec_run, 4);
        }
    }
}

/// Parse `( x , y )` with optional blanks around each coordinate.
#[verifier::rlimit(100)]
pub fn parse_coordinates(text: &Vec<char>, cur: Cursor) -> (r: ParseResult<Coordinates>)
    requires
        cur.in_bounds(text@),
    ensures
        match spec_coordinates(text@, cur.pos as int) {
            Outcome::Success { vals, next } => r matches ParseResult::Success {
                value,
                remainder,
            } && vals == seq![Value::Num(value.x), Value::Num(value.y)] && remainder.pos == next,
            Outcome::Recoverable { err } => r matches ParseResult::RecoverableFailure { error }
                && error@ == err,
            Outcome::Fatal { err } => r matches ParseResult::FatalFailure { error } && error@
                == err,
        },
{
    let tlen: usize = text.len();
    let ix = wrapped_int_grammar();
    let iy = wrapped_int_grammar();
    let g = crate::combinators::delimited(
        tag(chars_of("(")),
        crate::combinators::separated_pair(ix, tag(chars_of(",")), iy),
        tag(chars_of(")")),
    );
    proof {
        reveal_strlit("(");
        reveal_strlit(",");
        reveal_strlit(")");
        assert("("@ =~= seq!['(']);
        assert(","@ =~= seq![',']);
        assert(")"@ =~= seq![')']);
        lemma_run_coordinates(g, ix, iy, text@, cur.pos as int);
    }
    let rr = run(&g, text, cur.pos);
    match rr {
        ParseResult::Success { value, remainder } => {
            proof {
                let p0 = cur.pos as int;
                match spec_wrapped_int(text@, p0 + 1) {
                    Outcome::Success { vals: vx, next: nx } => {
                        match spec_wrapped_int(text@, nx + 1) {
                            Outcome::Success { vals: vy, next: ny } => {
                                assert(value@ == vx + vy);
                                assert(vx.len() == 1 && vy.len() == 1);
                                assert(value@.len() == 2);
                            },
                            _ => {},
                        }
                    },
                    _ => {},
                }
            }
            let v0 = value[0];
            let v1 = value[1];
            match (v0, v1) {
                (Value::Num(x), Value::Num(y)) => {
                    ParseResult::Success { value: Coordinates { x, y }, remainder }
                },
                _ => {
                    proof {
                        assert(false);
                    }
                    ParseResult::RecoverableFailure {
                        error: crate::errors::ContextualError::bare(cur.pos, ErrorKind::Tag),
                    }
                },
            }
        },
        ParseResult::RecoverableFailure { error } => ParseResult::RecoverableFailure { error },
        ParseResult::FatalFailure { error } => ParseResult::FatalFailure { error },
    }
}

} // verus!
