use vstd::prelude::*;
use crate::combinators::chars_of;
use crate::errors::{ContextualError, ErrorView, FrameView, KindView};

verus! {

/// How many line breaks stand in `text` before offset `e`.
pub open spec fn newline_count(text: Seq<char>, e: int) -> int
    decreases e,
{
    if e <= 0 {
        0
    } else {
        newline_count(text, e - 1) + if text[e - 1] == '\n' {
            1int
        } else {
            0int
        }
    }
}

/// The offset at which the line holding offset `at` begins.
pub open spec fn line_start(text: Seq<char>, at: int) -> int
    decreases at,
{
    if at <= 0 {
        0
    } else if text[at - 1] == '\n' {
        at
    } else {
        line_start(text, at - 1)
    }
}

/// The offset at which the line holding offset `at` ends: the first line
/// break at or past `at`, or the end of the text.
pub open spec fn line_end(text: Seq<char>, i: int) -> int
    decreases text.len() - i when 0 <= i <= text.len()
{
    if i >= text.len() {
        text.len() as int
    } else if text[i] == '\n' {
        i
    } else {
        line_end(text, i + 1)
    }
}

/// The decimal digits of a non-negative number, most significant first.
pub open spec fn dec_digits(n: int) -> Seq<char>
    decreases n,
{
    if n < 10 {
        seq![((48 + if n >= 0 { n } else { 0 }) as u8) as char]
    } else {
        dec_digits(n / 10).push(((48 + n % 10) as u8) as char)
    }
}

/// `n` spaces.
pub open spec fn blanks(n: int) -> Seq<char>
    decreases n,
{
    if n <= 0 {
        Seq::empty()
    } else {
        blanks(n - 1).push(' ')
    }
}

/// A short description of a failure kind; a custom failure speaks for
/// itself.
pub open spec fn kind_text(k: KindView) -> Seq<char> {
    match k {
        KindView::Tag => "expected literal tag"@,
        KindView::CharacterClass => "expected characters of a class"@,
        KindView::BoundedRepetition => "too few matching characters"@,
        KindView::UnboundedRepetition => "stop pattern never found"@,
        KindView::NumericConversion => "malformed or out-of-range number"@,
        KindView::Custom(s) => s,
    }
}

/// One report entry: the line and column of `at`, the label, the source
/// line itself, and a caret under the offending column.
pub open spec fn entry_text(text: Seq<char>, label: Seq<char>, at: int) -> Seq<char> {
    let ls = line_start(text, at);
    let le = line_end(text, at);
    let line = newline_count(text, at) + 1;
    let col = at - ls + 1;
    "at line "@ + dec_digits(line) + ", column "@ + dec_digits(col) + ": "@ + label + "\n"@
        + text.subrange(ls, le) + "\n"@ + blanks(col - 1) + "^\n"@
}

/// The report entries of the context frames from index `k` up, outermost
/// (last pushed) first.
pub open spec fn frames_down(text: Seq<char>, stack: Seq<FrameView>, k: int) -> Seq<char>
    decreases stack.len() - k when 0 <= k
{
    if k >= stack.len() {
        Seq::empty()
    } else {
        frames_down(text, stack, k + 1) + entry_text(text, stack[k].label, stack[k].at)
    }
}

/// The full report for an error against its original input: one entry per
/// context label from outermost to innermost, then the innermost failure
/// itself. Rendering reads the error and the text only, so it never
/// mutates either and is idempotent.
pub open spec fn spec_render(text: Seq<char>, e: ErrorView) -> Seq<char> {
    frames_down(text, e.stack, 0) + entry_text(text, kind_text(e.kind), e.at)
}

/// Count the line breaks before `e`.
fn count_newlines(text: &Vec<char>, e: usize) -> (n: usize)
    requires
        e <= text@.len(),
    ensures
        n == newline_count(text@, e as int),
        n <= e,
{
    let mut n: usize = 0;
    let mut i: usize = 0;
    while i < e
        invariant
            0 <= i <= e <= text@.len(),
            n == newline_count(text@, i as int),
            n <= i,
        decreases e - i,
    {
        if text[i] == '\n' {
            n += 1;
        }
        i += 1;
    }
    n
}

/// Find the start of the line holding `at`.
fn find_line_start(text: &Vec<char>, at: usize) -> (ls: usize)
    requires
        at <= text@.len(),
    ensures
        ls == line_start(text@, at as int),
        ls <= at,
{
    let mut i: usize = at;
    while i > 0 && text[i - 1] != '\n'
        invariant
            0 <= i <= at <= text@.len(),
            line_start(text@, at as int) == line_start(text@, i as int),
        decreases i,
    {
        i -= 1;
    }
    i
}

/// Find the end of the line holding `at`.
fn find_line_end(text: &Vec<char>, at: usize) -> (le: usize)
    requires
        at <= text@.len(),
    ensures
        le == line_end(text@, at as int),
        at <= le <= text@.len(),
    decreases text@.len() - at,
{
    let tlen: usize = text.len();
    let mut i: usize = at;
    while i < tlen && text[i] != '\n'
        invariant
            at <= i <= text@.len(),
            tlen == text@.len(),
            line_end(text@, at as int) == line_end(text@, i as int),
        decreases text@.len() - i,
    {
        i += 1;
    }
    i
}

/// Append the decimal digits of `n`.
fn push_dec(n: usize, out: &mut Vec<char>)
    ensures
        final(out)@ == old(out)@ + dec_digits(n as int),
    decreases n,
{
    if n < 10 {
        out.push(((48 + n as u8)) as char);
        proof {
            assert(out@ =~= old(out)@ + dec_digits(n as int));
        }
    } else {
        push_dec(n / 10, out);
        out.push((48 + (n % 10) as u8) as char);
        proof {
            assert(out@ =~= old(out)@ + dec_digits(n as int));
        }
    }
}

/// Append a character sequence.
fn push_seq(out: &mut Vec<char>, s: &Vec<char>)
    ensures
        final(out)@ == old(out)@ + s@,
{
    let mut i: usize = 0;
    while i < s.len()
        invariant
            0 <= i <= s@.len(),
            out@ == old(out)@ + s@.subrange(0, i as int),
        decreases s@.len() - i,
    {
        out.push(s[i]);
        proof {
            assert(old(out)@ + s@.subrange(0, i as int) + seq![s@[i as int]] =~= old(out)@
                + s@.subrange(0, i + 1));
        }
        i += 1;
    }
    proof {
        assert(s@.subrange(0, s@.len() as int) =~= s@);
    }
}

/// Append `n` spaces.
fn push_blanks(n: usize, out: &mut Vec<char>)
    ensures
        final(out)@ == old(out)@ + blanks(n as int),
{
    let mut i: usize = 0;
    while i < n
        invariant
            0 <= i <= n,
            out@ == old(out)@ + blanks(i as int),
        decreases n - i,
    {
        out.push(' ');
        proof {
            assert(old(out)@ + blanks(i as int) + seq![' '] =~= old(out)@ + blanks(i + 1));
        }
        i += 1;
    }
}

/// Append one report entry for position `at` under `label`.
fn push_entry(text: &Vec<char>, label: &Vec<char>, at: usize, out: &mut Vec<char>)
    requires
        at <= text@.len(),
        text@.len() < usize::MAX,
    ensures
        final(out)@ == old(out)@ + entry_text(text@, label@, at as int),
{
    let nl = count_newlines(text, at);
    let ls = find_line_start(text, at);
    let le = find_line_end(text, at);
    let col: usize = at - ls + 1;
    push_seq(out, &chars_of("at line "));
    push_dec(nl + 1, out);
    push_seq(out, &chars_of(", column "));
    push_dec(col, out);
    push_seq(out, &chars_of(": "));
    push_seq(out, label);
    push_seq(out, &chars_of("\n"));
    let mut i: usize = ls;
    let ghost mid = out@;
    while i < le
        invariant
            ls <= i <= le <= text@.len(),
            out@ == mid + text@.subrange(ls as int, i as int),
        decreases le - i,
    {
        out.push(text[i]);
        proof {
            assert(mid + text@.subrange(ls as int, i as int) + seq![text@[i as int]] =~= mid
                + text@.subrange(ls as int, i + 1));
        }
        i += 1;
    }
    push_seq(out, &chars_of("\n"));
    push_blanks(col - 1, out);
    push_seq(out, &chars_of("^\n"));
    proof {
        assert(out@ =~= old(out)@ + entry_text(text@, label@, at as int));
    }
}

/// The label text of a failure kind, as characters.
fn kind_chars(k: &crate::errors::ErrorKind) -> (v: Vec<char>)
    ensures
        v@ == kind_text(k@),
{
    match k {
        crate::errors::ErrorKind::Tag => chars_of("expected literal tag"),
        crate::errors::ErrorKind::CharacterClass => chars_of("expected characters of a class"),
        crate::errors::ErrorKind::BoundedRepetition => chars_of("too few matching characters"),
        crate::errors::ErrorKind::UnboundedRepetition => chars_of("stop pattern never found"),
        crate::errors::ErrorKind::NumericConversion => chars_of(
            "malformed or out-of-range number",
        ),
        crate::errors::ErrorKind::Custom(s) => chars_of(s.as_str()),
    }
}

/// Render a position-annotated report for `err` against the original
/// input it arose from: one entry per context label, outermost first,
/// then the innermost failure. The rendering depends only on its
/// arguments, so calling it again yields the identical report.
pub fn render_report(text: &Vec<char>, err: &ContextualError) -> (out: Vec<char>)
    requires
        text@.len() < usize::MAX,
        err.base.input.pos <= text@.len(),
        forall|i: int|
            0 <= i < err.context@.len() ==> (#[trigger] err.context@[i]).input.pos <= text@.len(),
    ensures
        out@ == spec_render(text@, err@),
{
    let mut out: Vec<char> = Vec::new();
    let mut k: usize = err.context.len();
    proof {
        assert(err@.stack.len() == err.context@.len());
    }
    while k > 0
        invariant
            text@.len() < usize::MAX,
            0 <= k <= err.context@.len(),
            err@.stack.len() == err.context@.len(),
            forall|i: int|
                0 <= i < err.context@.len() ==> (#[trigger] err.context@[i]).input.pos
                    <= text@.len(),
            forall|i: int|
                0 <= i < err.context@.len() ==> (#[trigger] err@.stack[i]) == err.context@[i]@,
            err.base.input.pos <= text@.len(),
            out@ == frames_down(text@, err@.stack, k as int),
        decreases k,
    {
        let frame = &err.context[k - 1];
        let label = chars_of(frame.label.as_str());
        let ghost before = out@;
        push_entry(text, &label, frame.input.pos, &mut out);
        proof {
            assert(out@ =~= frames_down(text@, err@.stack, k - 1));
        }
        k -= 1;
    }
    let kc = kind_chars(&err.base.kind);
    push_entry(text, &kc, err.base.input.pos, &mut out);
    out
}

} // verus!
