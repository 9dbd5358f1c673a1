use vstd::prelude::*;
use crate::classes::{CharClass, class_holds, eq_nocase, digit_val, hex_digit_val, char_in_class,
    chars_eq_nocase};

verus! {

/// Whether `p` occurs in `text` as the prefix starting at `pos`.
pub open spec fn prefix_eq(p: Seq<char>, text: Seq<char>, pos: int) -> bool {
    &&& 0 <= pos
    &&& pos + p.len() <= text.len()
    &&& text.subrange(pos, pos + p.len()) == p
}

/// Whether `p` occurs at `pos` of `text` under case-insensitive comparison.
pub open spec fn prefix_eq_nocase(p: Seq<char>, text: Seq<char>, pos: int) -> bool {
    &&& 0 <= pos
    &&& pos + p.len() <= text.len()
    &&& forall|i: int| 0 <= i < p.len() ==> eq_nocase(text[pos + i], p[i])
}

/// Length of the maximal run of characters of class `cl` starting at `pos`.
pub open spec fn class_run(cl: CharClass, text: Seq<char>, pos: int) -> int
    decreases text.len() - pos when 0 <= pos
{
    if pos < text.len() && class_holds(cl, text[pos]) {
        1 + class_run(cl, text, pos + 1)
    } else {
        0
    }
}

/// The first offset at or past `pos` where `p` occurs in `text`, or -1.
pub open spec fn find_from(p: Seq<char>, text: Seq<char>, pos: int) -> int
    decreases text.len() - pos when 0 <= pos
{
    if p.len() == 0 {
        pos
    } else if pos + p.len() > text.len() {
        -1
    } else if text.subrange(pos, pos + p.len()) == p {
        pos
    } else {
        find_from(p, text, pos + 1)
    }
}

/// The value of the decimal digits of `text` in `[s, e)`, read left to
/// right.
pub open spec fn digits_value(text: Seq<char>, s: int, e: int) -> int
    decreases e - s,
{
    if e <= s {
        0
    } else {
        digits_value(text, s, e - 1) * 10 + digit_val(text[e - 1])
    }
}

/// The value of the hexadecimal digits of `text` in `[s, e)`.
pub open spec fn hex_value(text: Seq<char>, s: int, e: int) -> int
    decreases e - s,
{
    if e <= s {
        0
    } else {
        hex_value(text, s, e - 1) * 16 + hex_digit_val(text[e - 1])
    }
}

/// Whether every character of `text` in `[s, e)` is a hexadecimal digit.
pub open spec fn all_hex(text: Seq<char>, s: int, e: int) -> bool {
    forall|i: int| s <= i < e ==> class_holds(CharClass::HexDigit, text[i])
}

/// The maximal class run stays within the text.
pub proof fn lemma_class_run_bounds(cl: CharClass, text: Seq<char>, pos: int)
    requires
        0 <= pos <= text.len(),
    ensures
        0 <= class_run(cl, text, pos),
        pos + class_run(cl, text, pos) <= text.len(),
    decreases text.len() - pos,
{
    if pos < text.len() && class_holds(cl, text[pos]) {
        lemma_class_run_bounds(cl, text, pos + 1);
    }
}

/// Every character inside the maximal run satisfies the class, and the
/// character just past it (if any) does not.
pub proof fn lemma_class_run_chars(cl: CharClass, text: Seq<char>, pos: int)
    requires
        0 <= pos <= text.len(),
    ensures
        forall|i: int|
            pos <= i < pos + class_run(cl, text, pos) ==> class_holds(cl, text[i]),
        pos + class_run(cl, text, pos) < text.len() ==> !class_holds(
            cl,
            text[pos + class_run(cl, text, pos)],
        ),
    decreases text.len() - pos,
{
    lemma_class_run_bounds(cl, text, pos);
    if pos < text.len() && class_holds(cl, text[pos]) {
        lemma_class_run_chars(cl, text, pos + 1);
    }
}

/// Where `find_from` finds `p`, it is the first occurrence at or past `pos`,
/// and it lies within the text; where it returns -1, no occurrence exists.
pub proof fn lemma_find_from(p: Seq<char>, text: Seq<char>, pos: int)
    requires
        0 <= pos <= text.len(),
    ensures
        find_from(p, text, pos) == -1 ==> forall|k: int|
            pos <= k && k + p.len() <= text.len() ==> #[trigger] text.subrange(k, k + p.len())
                != p,
        find_from(p, text, pos) != -1 ==> {
            let f = find_from(p, text, pos);
            &&& pos <= f
            &&& f + p.len() <= text.len()
            &&& text.subrange(f, f + p.len()) == p
            &&& forall|k: int| pos <= k < f ==> #[trigger] text.subrange(k, k + p.len()) != p
        },
    decreases text.len() - pos,
{
    if p.len() == 0 {
        assert(text.subrange(pos, pos + p.len()) =~= p);
    } else if pos + p.len() > text.len() {
    } else if text.subrange(pos, pos + p.len()) == p {
    } else {
        lemma_find_from(p, text, pos + 1);
    }
}

/// Executable prefix comparison.
pub fn prefix_matches(p: &Vec<char>, text: &Vec<char>, pos: usize) -> (b: bool)
    requires
        pos <= text@.len(),
    ensures
        b == prefix_eq(p@, text@, pos as int),
{
    let tlen: usize = text.len();
    if tlen - pos < p.len() {
        proof {
            assert(pos + p@.len() > text@.len());
        }
        return false;
    }
    let mut i: usize = 0;
    while i < p.len()
        invariant
            0 <= i <= p@.len(),
            pos + p@.len() <= text@.len(),
            tlen == text@.len(),
            forall|j: int| 0 <= j < i ==> text@[pos + j] == p@[j],
        decreases p@.len() - i,
    {
        proof {
            assert(pos + i < text@.len());
        }
        if text[pos + i] != p[i] {
            proof {
                assert(text@.subrange(pos as int, pos + p@.len())[i as int] != p@[i as int]);
            }
            return false;
        }
        i += 1;
    }
    proof {
        assert(text@.subrange(pos as int, pos + p@.len()) =~= p@);
    }
    true
}

/// Executable case-insensitive prefix comparison.
pub fn prefix_matches_nocase(p: &Vec<char>, text: &Vec<char>, pos: usize) -> (b: bool)
    requires
        pos <= text@.len(),
    ensures
        b == prefix_eq_nocase(p@, text@, pos as int),
{
    let tlen: usize = text.len();
    if tlen - pos < p.len() {
        proof {
            assert(pos + p@.len() > text@.len());
        }
        return false;
    }
    let mut i: usize = 0;
    while i < p.len()
        invariant
            0 <= i <= p@.len(),
            pos + p@.len() <= text@.len(),
            tlen == text@.len(),
            forall|j: int| 0 <= j < i ==> eq_nocase(text@[pos + j], p@[j]),
        decreases p@.len() - i,
    {
        proof {
            assert(pos + i < text@.len());
        }
        if !chars_eq_nocase(text[pos + i], p[i]) {
            return false;
        }
        i += 1;
    }
    true
}

/// Executable maximal class run length.
pub fn class_run_len(cl: CharClass, text: &Vec<char>, pos: usize) -> (n: usize)
    requires
        pos <= text@.len(),
    ensures
        n == class_run(cl, text@, pos as int),
        pos + n <= text@.len(),
{
    let mut i: usize = pos;
    while i < text.len() && char_in_class(cl, text[i])
        invariant
            pos <= i <= text@.len(),
            class_run(cl, text@, pos as int) == (i - pos) + class_run(cl, text@, i as int),
        decreases text@.len() - i,
    {
        proof {
            assert(class_run(cl, text@, i as int) == 1 + class_run(cl, text@, i + 1));
        }
        i += 1;
    }
    proof {
        assert(class_run(cl, text@, i as int) == 0);
    }
    i - pos
}

/// Executable search for the first occurrence of `p` at or past `pos`.
pub fn find_sub(p: &Vec<char>, text: &Vec<char>, pos: usize) -> (r: Option<usize>)
    requires
        pos <= text@.len(),
    ensures
        match r {
            Some(f) => f == find_from(p@, text@, pos as int),
            None => find_from(p@, text@, pos as int) == -1,
        },
{
    let mut i: usize = pos;
    loop
        invariant
            pos <= i <= text@.len(),
            find_from(p@, text@, pos as int) == find_from(p@, text@, i as int),
        decreases text@.len() - i,
    {
        if text.len() - i < p.len() {
            proof {
                assert(i + p@.len() > text@.len());
                assert(find_from(p@, text@, i as int) == -1);
            }
            return None;
        }
        if prefix_matches(p, text, i) {
            proof {
                assert(find_from(p@, text@, i as int) == i);
            }
            return Some(i);
        }
        proof {
            assert(p@.len() >= 1) by {
                if p@.len() == 0 {
                    assert(text@.subrange(i as int, i as int) =~= p@);
                }
            }
            assert(i < text@.len());
            assert(find_from(p@, text@, i as int) == find_from(p@, text@, i + 1));
        }
        i += 1;
    }
}

} // verus!
