use vstd::prelude::*;
use crate::errors::ErrorView;
use crate::grammar::{Grammar, spec_run, lemma_run_bounds};
use crate::outcome::{Outcome, Value, Span};
use crate::primitives::prefix_eq;
use crate::scan::{ScanOut, spec_scan, candidate_at};

verus! {

/// Determinism: a parser is a function of its grammar, its input and its
/// cursor alone, so two runs of the same parser on the same input yield
/// identical results. The executable engine ensures its result equals
/// `spec_run`, so any two results it can return are equal.
pub proof fn lemma_parse_deterministic(r1: Outcome, r2: Outcome, g: Grammar, text: Seq<char>, pos: int)
    requires
        r1 == spec_run(g, text, pos),
        r2 == spec_run(g, text, pos),
    ensures
        r1 == r2,
{
}

/// The grammar nodes that match a single token class without internal
/// composition.
pub open spec fn is_primitive(g: Grammar) -> bool {
    match g {
        Grammar::Tag(_) => true,
        Grammar::TagNoCase(_) => true,
        Grammar::TakeWhileMN { .. } => true,
        Grammar::TakeWhile0(_) => true,
        Grammar::TakeWhile1(_) => true,
        Grammar::TakeUntil(_) => true,
        Grammar::IntLiteral => true,
        _ => false,
    }
}

/// Non-consumption on failure: when a primitive fails recoverably, the
/// reported error's residual cursor is exactly the cursor at which the
/// match was attempted, with no context yet layered on — no partial
/// consumption is hidden from the caller.
pub proof fn lemma_primitive_failure_residual(g: Grammar, text: Seq<char>, pos: int)
    requires
        0 <= pos <= text.len() <= usize::MAX,
        is_primitive(g),
    ensures
        spec_run(g, text, pos) matches Outcome::Recoverable { err } ==> err == (ErrorView {
            at: pos,
            kind: err.kind,
            stack: Seq::empty(),
        }),
{
    reveal_with_fuel(spec_run, 2);
}

/// Alternation tie-break: when both branches fail recoverably, the
/// alternation reports the second branch's error, not the first's.
pub proof fn lemma_alternation_tie_break(g: Grammar, text: Seq<char>, pos: int)
    requires
        0 <= pos <= text.len() <= usize::MAX,
        g matches Grammar::Alt(a, b),
        (g matches Grammar::Alt(a, b) ==> spec_run(*a, text, pos) is Recoverable && spec_run(
            *b,
            text,
            pos,
        ) is Recoverable),
    ensures
        g matches Grammar::Alt(a, b) ==> spec_run(g, text, pos) == spec_run(*b, text, pos),
{
    reveal_with_fuel(spec_run, 2);
}

/// A fatal failure of the first branch aborts the alternation at once:
/// the second branch is never consulted.
pub proof fn lemma_alternation_fatal_aborts(g: Grammar, text: Seq<char>, pos: int)
    requires
        0 <= pos <= text.len() <= usize::MAX,
        g matches Grammar::Alt(a, b),
        (g matches Grammar::Alt(a, b) ==> spec_run(*a, text, pos) is Fatal),
    ensures
        g matches Grammar::Alt(a, b) ==> spec_run(g, text, pos) == spec_run(*a, text, pos),
{
    reveal_with_fuel(spec_run, 2);
}

/// Zero-width repetition termination: a repeated sub-parser that succeeds
/// while consuming nothing makes the repetition stop right there with the
/// values collected before that iteration — here, at the head, none — and
/// the cursor unmoved, rather than looping.
pub proof fn lemma_repetition_zero_width_terminates(g: Grammar, text: Seq<char>, pos: int)
    requires
        0 <= pos <= text.len() <= usize::MAX,
        g matches Grammar::Many0(s),
        (g matches Grammar::Many0(s) ==> spec_run(*s, text, pos) == (Outcome::Success {
            vals: spec_run(*s, text, pos)->Success_vals,
            next: pos,
        })),
    ensures
        spec_run(g, text, pos) == (Outcome::Success { vals: Seq::<Value>::empty(), next: pos }),
{
    reveal_with_fuel(spec_run, 2);
    assert(spec_run(g, text, pos) == (Outcome::Success { vals: seq![], next: pos }));
    assert(Seq::<Value>::empty() =~= seq![]);
}

/// Round trip on literal matchers: a tag applied to its own pattern
/// followed by anything always succeeds, consumes exactly the pattern,
/// and leaves the rest untouched.
pub proof fn lemma_tag_round_trip(g: Grammar, p: Seq<char>, rest: Seq<char>)
    requires
        (p + rest).len() <= usize::MAX,
        g matches Grammar::Tag(pv),
        (g matches Grammar::Tag(pv) ==> pv@ == p),
    ensures
        spec_run(g, p + rest, 0) == (Outcome::Success {
            vals: seq![Value::Span(Span { start: 0, end: p.len() as usize })],
            next: p.len() as int,
        }),
        (p + rest).subrange(p.len() as int, (p + rest).len() as int) == rest,
{
    reveal_with_fuel(spec_run, 2);
    assert((p + rest).subrange(0, p.len() as int) =~= p);
    assert(prefix_eq(p, p + rest, 0));
    assert((p + rest).subrange(p.len() as int, (p + rest).len() as int) =~= rest);
}

/// Where a scan from `i` on finds its first success at `pre`, the scan
/// from `i` reports exactly that match, whatever error was seeded.
proof fn lemma_scan_reaches(
    g: Grammar,
    text: Seq<char>,
    i: int,
    pre: int,
    filter: Option<char>,
    last: ErrorView,
)
    requires
        0 <= i <= pre < text.len() <= usize::MAX,
        candidate_at(filter, text, pre),
        spec_run(g, text, pre) is Success,
        forall|k: int|
            i <= k < pre && candidate_at(filter, text, k) ==> !(#[trigger] spec_run(
                g,
                text,
                k,
            ) is Success),
    ensures
        spec_scan(g, text, i, filter, last) == (ScanOut::Found {
            pre,
            vals: spec_run(g, text, pre)->Success_vals,
            suf: spec_run(g, text, pre)->Success_next,
        }),
    decreases pre - i,
{
    if i == pre {
    } else if !candidate_at(filter, text, i) {
        lemma_scan_reaches(g, text, i + 1, pre, filter, last);
    } else {
        match spec_run(g, text, i) {
            Outcome::Recoverable { err } => {
                lemma_scan_reaches(g, text, i + 1, pre, filter, err);
            },
            Outcome::Fatal { err } => {
                lemma_scan_reaches(g, text, i + 1, pre, filter, err);
            },
            Outcome::Success { .. } => {
                assert(false);
            },
        }
    }
}

/// Scan prefix/suffix decomposition: when the input holds exactly one
/// offset where the sub-parser matches — every earlier candidate fails —
/// the scan splits the input into the untouched prefix before the match,
/// the matched values, and the untouched suffix after it, and the three
/// parts reassemble the input.
pub proof fn lemma_scan_decomposition(
    g: Grammar,
    text: Seq<char>,
    pre: int,
    filter: Option<char>,
    seed: ErrorView,
)
    requires
        0 <= pre < text.len() <= usize::MAX,
        candidate_at(filter, text, pre),
        spec_run(g, text, pre) is Success,
        forall|k: int|
            0 <= k < pre && candidate_at(filter, text, k) ==> !(#[trigger] spec_run(
                g,
                text,
                k,
            ) is Success),
    ensures
        spec_scan(g, text, 0, filter, seed) == (ScanOut::Found {
            pre,
            vals: spec_run(g, text, pre)->Success_vals,
            suf: spec_run(g, text, pre)->Success_next,
        }),
        text =~= text.subrange(0, pre) + text.subrange(
            pre,
            spec_run(g, text, pre)->Success_next,
        ) + text.subrange(spec_run(g, text, pre)->Success_next, text.len() as int),
{
    lemma_scan_reaches(g, text, 0, pre, filter, seed);
    lemma_run_bounds(g, text, pre);
}

} // verus!
