use vstd::prelude::*;
use crate::classes::CharClass;
use crate::grammar::Grammar;
use crate::outcome::Value;
use vstd::std_specs::iter::IteratorSpec;

verus! {

broadcast use vstd::string::axiom_spec_iter, vstd::string::next_postcondition;

/// The characters of a string slice, as an owned buffer the engine can
/// index. Inputs and literal patterns both enter the engine this way.
pub fn chars_of(s: &str) -> (v: Vec<char>)
    ensures
        v@ == s@,
{
    let mut v: Vec<char> = Vec::new();
    for c in it: s.chars()
        invariant
            it.seq() == s@,
            v@ =~= it.seq().subrange(0, it.index() as int),
    {
        v.push(c);
    }
    proof {
        assert(v@ =~= s@);
    }
    v
}

/// Case-sensitive literal matcher.
pub fn tag(pattern: Vec<char>) -> (g: Grammar)
    ensures
        g == Grammar::Tag(pattern),
{
    Grammar::Tag(pattern)
}

/// Case-insensitive literal matcher.
pub fn tag_no_case(pattern: Vec<char>) -> (g: Grammar)
    ensures
        g == Grammar::TagNoCase(pattern),
{
    Grammar::TagNoCase(pattern)
}

/// Between `min` and `max` characters of a class.
pub fn take_while_m_n(min: usize, max: usize, class: CharClass) -> (g: Grammar)
    ensures
        g == (Grammar::TakeWhileMN { min, max, class }),
{
    Grammar::TakeWhileMN { min, max, class }
}

/// The maximal run of a class, possibly empty.
pub fn take_while0(class: CharClass) -> (g: Grammar)
    ensures
        g == Grammar::TakeWhile0(class),
{
    Grammar::TakeWhile0(class)
}

/// The maximal run of a class, at least one character.
pub fn take_while1(class: CharClass) -> (g: Grammar)
    ensures
        g == Grammar::TakeWhile1(class),
{
    Grammar::TakeWhile1(class)
}

/// Everything up to but not including the first occurrence of `stop`.
pub fn take_until(stop: Vec<char>) -> (g: Grammar)
    ensures
        g == Grammar::TakeUntil(stop),
{
    Grammar::TakeUntil(stop)
}

/// An optionally signed decimal integer.
pub fn int_literal() -> (g: Grammar)
    ensures
        g == Grammar::IntLiteral,
{
    Grammar::IntLiteral
}

/// Fallible mapping of a matched span through hexadecimal conversion.
pub fn map_hex_byte(sub: Grammar) -> (g: Grammar)
    ensures
        g matches Grammar::MapHexByte(s) && *s == sub,
{
    Grammar::MapHexByte(Box::new(sub))
}

/// Value mapping: replace the sub-parser's values with one constant.
pub fn map_const(v: Value, sub: Grammar) -> (g: Grammar)
    ensures
        g matches Grammar::MapConst(w, s) && w == v && *s == sub,
{
    Grammar::MapConst(v, Box::new(sub))
}

/// Sequence: `a` then `b`, concatenating their values.
pub fn pair(a: Grammar, b: Grammar) -> (g: Grammar)
    ensures
        g matches Grammar::Pair(x, y) && *x == a && *y == b,
{
    Grammar::Pair(Box::new(a), Box::new(b))
}

/// Ordered alternation: `a`, or on its recoverable failure `b`. When both
/// fail recoverably the second branch's diagnostics win.
pub fn alternation(a: Grammar, b: Grammar) -> (g: Grammar)
    ensures
        g matches Grammar::Alt(x, y) && *x == a && *y == b,
{
    Grammar::Alt(Box::new(a), Box::new(b))
}

/// Zero-or-more repetition of `sub`.
pub fn many0(sub: Grammar) -> (g: Grammar)
    ensures
        g matches Grammar::Many0(s) && *s == sub,
{
    Grammar::Many0(Box::new(sub))
}

/// Run `sub` and discard its values.
pub fn skip(sub: Grammar) -> (g: Grammar)
    ensures
        g matches Grammar::Skip(s) && *s == sub,
{
    Grammar::Skip(Box::new(sub))
}

/// `open`, then `body`, then `close`, keeping only the body's values.
pub fn delimited(open: Grammar, body: Grammar, close: Grammar) -> (g: Grammar)
    ensures
        g matches Grammar::Pair(x, yz) && (*x matches Grammar::Skip(o) && *o == open) && (*yz
            matches Grammar::Pair(y, z) && *y == body && (*z matches Grammar::Skip(c) && *c
            == close)),
{
    pair(skip(open), pair(body, skip(close)))
}

/// `first` then `second`, keeping only the second's values.
pub fn preceded(first: Grammar, second: Grammar) -> (g: Grammar)
    ensures
        g matches Grammar::Pair(x, y) && (*x matches Grammar::Skip(f) && *f == first) && *y
            == second,
{
    pair(skip(first), second)
}

/// `first` then `second`, keeping only the first's values.
pub fn terminated(first: Grammar, second: Grammar) -> (g: Grammar)
    ensures
        g matches Grammar::Pair(x, y) && *x == first && (*y matches Grammar::Skip(s) && *s
            == second),
{
    pair(first, skip(second))
}

/// `left`, a separator, then `right`, keeping the two outer values.
pub fn separated_pair(left: Grammar, sep: Grammar, right: Grammar) -> (g: Grammar)
    ensures
        g matches Grammar::Pair(x, yz) && *x == left && (*yz matches Grammar::Pair(y, z) && (*y
            matches Grammar::Skip(s) && *s == sep) && *z == right),
{
    pair(left, pair(skip(sep), right))
}

/// Label the failures of `sub` with a human-readable context.
pub fn context(label: String, sub: Grammar) -> (g: Grammar)
    ensures
        g matches Grammar::Context(l, s) && l == label && *s == sub,
{
    Grammar::Context(label, Box::new(sub))
}

/// Escalate recoverable failures of `sub` to fatal ones.
pub fn cut(sub: Grammar) -> (g: Grammar)
    ensures
        g matches Grammar::Cut(s) && *s == sub,
{
    Grammar::Cut(Box::new(sub))
}

} // verus!
