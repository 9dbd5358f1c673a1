use vstd::prelude::*;
use vstd::string::StringExecFns;
use crate::errors::{ContextualError, ErrorKind, ErrorView, KindView};
use crate::grammar::{Grammar, run, spec_run, lemma_run_bounds};
use crate::hex::{Color, spec_hex_color};
use crate::outcome::{Outcome, ParseResult, Value};

verus! {

/// The outcome of a scanning search: the offsets that split the input
/// into prefix, match and suffix together with the matched value, or the
/// failure last seen while the scan advanced.
#[derive(Clone, Debug)]
pub enum ScanResult<T> {
    /// The sub-parser first matched at `prefix_end`, consuming up to
    /// `suffix_start`: the prefix is `text[..prefix_end]`, the suffix
    /// `text[suffix_start..]`.
    Found { prefix_end: usize, value: T, suffix_start: usize },
    /// No candidate offset matched. Unlike a success, this carries no
    /// prefix and suffix split: only the last error seen.
    NotFound { error: ContextualError },
}

/// Specification-level outcome of a scan.
pub enum ScanOut {
    Found { pre: int, vals: Seq<Value>, suf: int },
    NotFound { err: ErrorView },
}

/// How an executable raw scan result corresponds to its specification.
pub open spec fn scan_view(r: ScanResult<Vec<Value>>) -> ScanOut {
    match r {
        ScanResult::Found { prefix_end, value, suffix_start } => ScanOut::Found {
            pre: prefix_end as int,
            vals: value@,
            suf: suffix_start as int,
        },
        ScanResult::NotFound { error } => ScanOut::NotFound { err: error@ },
    }
}

/// Whether offset `i` is a candidate the scan tries: every offset when no
/// pre-filter is given, else only offsets where the filter character
/// stands.
pub open spec fn candidate_at(filter: Option<char>, text: Seq<char>, i: int) -> bool {
    match filter {
        Option::None => true,
        Option::Some(c) => text[i] == c,
    }
}

/// The semantics of the scanning search from offset `i` on: at each
/// candidate offset, try the grammar; return the first success's split,
/// or, when every offset fails, the last error seen (`last` seeds it).
pub open spec fn spec_scan(
    g: Grammar,
    text: Seq<char>,
    i: int,
    filter: Option<char>,
    last: ErrorView,
) -> ScanOut
    decreases text.len() - i when 0 <= i <= text.len() <= usize::MAX
{
    if i >= text.len() {
        ScanOut::NotFound { err: last }
    } else if !candidate_at(filter, text, i) {
        spec_scan(g, text, i + 1, filter, last)
    } else {
        match spec_run(g, text, i) {
            Outcome::Success { vals, next } => ScanOut::Found { pre: i, vals, suf: next },
            Outcome::Recoverable { err } => spec_scan(g, text, i + 1, filter, err),
            Outcome::Fatal { err } => spec_scan(g, text, i + 1, filter, err),
        }
    }
}

/// The error a scan reports when the input holds no candidate at all.
pub open spec fn scan_seed(text: Seq<char>) -> ErrorView {
    ErrorView { at: 0, kind: KindView::Custom("scan found no match"@), stack: Seq::empty() }
}

/// Scan `text` for the first offset where `g` matches, trying only
/// offsets that pass `filter`.
pub fn scan(g: &Grammar, text: &Vec<char>, filter: Option<char>) -> (r: ScanResult<Vec<Value>>)
    ensures
        scan_view(r) == spec_scan(*g, text@, 0, filter, scan_seed(text@)),
{
    let tlen: usize = text.len();
    let mut last = ContextualError::bare(
        0,
        ErrorKind::Custom(String::from_str("scan found no match")),
    );
    let mut i: usize = 0;
    proof {
        assert(last@ == scan_seed(text@));
    }
    loop
        invariant
            0 <= i <= text@.len(),
            tlen == text@.len(),
            spec_scan(*g, text@, 0, filter, scan_seed(text@)) == spec_scan(
                *g,
                text@,
                i as int,
                filter,
                last@,
            ),
        decreases text@.len() - i,
    {
        if i >= tlen {
            return ScanResult::NotFound { error: last };
        }
        let try_here: bool = match filter {
            Option::None => true,
            Option::Some(c) => text[i] == c,
        };
        if try_here {
            match run(g, text, i) {
                ParseResult::Success { value, remainder } => {
                    return ScanResult::Found {
                        prefix_end: i,
                        value,
                        suffix_start: remainder.pos,
                    };
                },
                ParseResult::RecoverableFailure { error } => {
                    last = error;
                },
                ParseResult::FatalFailure { error } => {
                    last = error;
                },
            }
        }
        i += 1;
    }
}

/// Scan for the first offset where `g` matches, trying every character
/// boundary in turn: the split of the input around the first match, with
/// the matched values.
pub fn slices_around_successful_parse(g: &Grammar, text: &Vec<char>) -> (r: ScanResult<Vec<Value>>)
    ensures
        scan_view(r) == spec_scan(*g, text@, 0, Option::None, scan_seed(text@)),
{
    scan(g, text, Option::None)
}

/// Wherever the scan found a match, the grammar matches there, the split
/// lies inside the text, and no earlier candidate offset matches.
pub proof fn lemma_scan_found(
    g: Grammar,
    text: Seq<char>,
    i: int,
    filter: Option<char>,
    last: ErrorView,
)
    requires
        0 <= i <= text.len() <= usize::MAX,
    ensures
        spec_scan(g, text, i, filter, last) matches ScanOut::Found { pre, vals, suf } ==> {
            &&& i <= pre < text.len()
            &&& candidate_at(filter, text, pre)
            &&& spec_run(g, text, pre) == (Outcome::Success { vals, next: suf })
            &&& pre <= suf <= text.len()
            &&& forall|k: int|
                i <= k < pre && candidate_at(filter, text, k) ==> !(#[trigger] spec_run(
                    g,
                    text,
                    k,
                ) is Success)
        },
    decreases text.len() - i,
{
    if i >= text.len() {
    } else if !candidate_at(filter, text, i) {
        lemma_scan_found(g, text, i + 1, filter, last);
    } else {
        lemma_run_bounds(g, text, i);
        match spec_run(g, text, i) {
            Outcome::Success { vals, next } => {},
            Outcome::Recoverable { err } => {
                lemma_scan_found(g, text, i + 1, filter, err);
            },
            Outcome::Fatal { err } => {
                lemma_scan_found(g, text, i + 1, filter, err);
            },
        }
    }
}

/// Scan for the first hex color in `text`, trying only offsets where a
/// `#` stands (the color must start with one, so no other offset can
/// match). Returns the split around the first well-formed color.
pub fn parse_first_encountered_hex_color_no_alpha(text: &Vec<char>) -> (r: ScanResult<Color>)
    ensures
        (spec_scan_hex_color(text@) matches ScanOut::Found { pre, vals, suf } ==> r matches
            ScanResult::Found { prefix_end, value, suffix_start } && pre == prefix_end && suf
            == suffix_start && vals == seq![
            Value::Byte(value.r),
            Value::Byte(value.g),
            Value::Byte(value.b),
        ]),
        (spec_scan_hex_color(text@) matches ScanOut::NotFound { err } ==> r matches
            ScanResult::NotFound { error } && error@ == err),
{
    let tlen: usize = text.len();
    let g = crate::hex::hex_color_grammar();
    let rr = scan(&g, text, Option::Some('#'));
    proof {
        lemma_scan_found(g, text@, 0, Option::Some('#'), scan_seed(text@));
        assert forall|p: int| 0 <= p <= text@.len() implies #[trigger] spec_run(g, text@, p)
            == spec_hex_color(text@, p) by {}
        match spec_scan(g, text@, 0, Option::Some('#'), scan_seed(text@)) {
            ScanOut::Found { pre, vals, suf } => {
                assert(spec_hex_color(text@, pre) == (Outcome::Success { vals, next: suf }));
            },
            _ => {},
        }
        lemma_scan_filter_agnostic(g, text@, 0, Option::Some('#'), scan_seed(text@));
    }
    match rr {
        ScanResult::Found { prefix_end, value, suffix_start } => {
            let v0 = value[0];
            let v1 = value[1];
            let v2 = value[2];
            match (v0, v1, v2) {
                (Value::Byte(red), Value::Byte(green), Value::Byte(blue)) => {
                    proof {
                        assert(value@ =~= seq![
                            Value::Byte(red),
                            Value::Byte(green),
                            Value::Byte(blue),
                        ]);
                    }
                    ScanResult::Found {
                        prefix_end,
                        value: Color { r: red, g: green, b: blue },
                        suffix_start,
                    }
                },
                _ => {
                    proof {
                        assert(false);
                    }
                    ScanResult::NotFound {
                        error: ContextualError::bare(0, ErrorKind::Tag),
                    }
                },
            }
        },
        ScanResult::NotFound { error } => ScanResult::NotFound { error },
    }
}

/// The hex-color scan, as the general scan specialized to the color
/// grammar with the `#` pre-filter. Stated over [`spec_hex_color`], so a
/// reader needs no grammar value to use it.
pub open spec fn spec_scan_hex_color(text: Seq<char>) -> ScanOut
    decreases 0int when text.len() <= usize::MAX
{
    spec_scan_hex_color_from(text, 0, scan_seed(text))
}

/// The hex-color scan from offset `i` on.
pub open spec fn spec_scan_hex_color_from(text: Seq<char>, i: int, last: ErrorView) -> ScanOut
    decreases text.len() - i when 0 <= i <= text.len() <= usize::MAX
{
    if i >= text.len() {
        ScanOut::NotFound { err: last }
    } else if text[i] != '#' {
        spec_scan_hex_color_from(text, i + 1, last)
    } else {
        match spec_hex_color(text, i) {
            Outcome::Success { vals, next } => ScanOut::Found { pre: i, vals, suf: next },
            Outcome::Recoverable { err } => spec_scan_hex_color_from(text, i + 1, err),
            Outcome::Fatal { err } => spec_scan_hex_color_from(text, i + 1, err),
        }
    }
}

/// The engine scan with the `#` filter and the color grammar equals the
/// direct statement [`spec_scan_hex_color_from`].
proof fn lemma_scan_filter_agnostic(
    g: Grammar,
    text: Seq<char>,
    i: int,
    filter: Option<char>,
    last: ErrorView,
)
    requires
        0 <= i <= text.len() <= usize::MAX,
        filter == Option::Some('#'),
        forall|p: int|
            0 <= p <= text.len() ==> #[trigger] spec_run(g, text, p) == spec_hex_color(text, p),
    ensures
        spec_scan(g, text, i, filter, last) == spec_scan_hex_color_from(text, i, last),
    decreases text.len() - i,
{
    if i >= text.len() {
    } else if text[i] != '#' {
        lemma_scan_filter_agnostic(g, text, i + 1, filter, last);
    } else {
        match spec_run(g, text, i) {
            Outcome::Success { .. } => {},
            Outcome::Recoverable { err } => {
                lemma_scan_filter_agnostic(g, text, i + 1, filter, err);
            },
            Outcome::Fatal { err } => {
                lemma_scan_filter_agnostic(g, text, i + 1, filter, err);
            },
        }
    }
}

} // verus!
