use vstd::prelude::*;
use crate::classes::{CharClass, class_holds, digit_val, hex_digit_val, digit_value,
    hex_digit_value, char_in_class};
use crate::primitives::{class_run, digits_value, hex_value, all_hex, lemma_class_run_bounds,
    lemma_class_run_chars};
use crate::outcome::{Outcome, Value, soft_err};
use crate::errors::KindView;

verus! {

/// How many characters the optional leading sign occupies at `pos`.
pub open spec fn int_sign_len(text: Seq<char>, pos: int) -> int {
    if pos < text.len() && (text[pos] == '-' || text[pos] == '+') {
        1
    } else {
        0
    }
}

/// Whether the numeric literal at `pos` carries a minus sign.
pub open spec fn int_is_neg(text: Seq<char>, pos: int) -> bool {
    pos < text.len() && text[pos] == '-'
}

/// The semantics of the numeric-literal parser: an optionally signed run
/// of decimal digits, converted to a 32-bit signed integer. It fails with
/// `NumericConversion` at `pos` when no digit follows the optional sign or
/// when the value does not fit.
pub open spec fn spec_int(text: Seq<char>, pos: int) -> Outcome {
    let ds = pos + int_sign_len(text, pos);
    let dlen = class_run(CharClass::Digit, text, ds);
    if dlen == 0 {
        soft_err(pos, KindView::NumericConversion)
    } else {
        let mag = digits_value(text, ds, ds + dlen);
        let v: int = if int_is_neg(text, pos) {
            -mag
        } else {
            mag
        };
        if -2147483648 <= v <= 2147483647 {
            Outcome::Success { vals: seq![Value::Num(v as i32)], next: ds + dlen }
        } else {
            soft_err(pos, KindView::NumericConversion)
        }
    }
}

/// A run of decimal digits has a non-negative value.
pub proof fn lemma_digits_value_nonneg(text: Seq<char>, s: int, e: int)
    requires
        forall|i: int| s <= i < e ==> class_holds(CharClass::Digit, text[i]),
    ensures
        digits_value(text, s, e) >= 0,
    decreases e - s,
{
    if e > s {
        lemma_digits_value_nonneg(text, s, e - 1);
    }
}

/// Reading further digits never decreases the value.
pub proof fn lemma_digits_value_monotone(text: Seq<char>, s: int, m: int, e: int)
    requires
        s <= m <= e,
        forall|i: int| s <= i < e ==> class_holds(CharClass::Digit, text[i]),
    ensures
        digits_value(text, s, e) >= digits_value(text, s, m),
    decreases e - m,
{
    if m < e {
        lemma_digits_value_monotone(text, s, m, e - 1);
        lemma_digits_value_nonneg(text, s, e - 1);
    }
}

/// A run of hexadecimal digits has a non-negative value.
pub proof fn lemma_hex_value_nonneg(text: Seq<char>, s: int, e: int)
    requires
        all_hex(text, s, e),
    ensures
        hex_value(text, s, e) >= 0,
    decreases e - s,
{
    if e > s {
        lemma_hex_value_nonneg(text, s, e - 1);
    }
}

/// Reading further hexadecimal digits never decreases the value.
pub proof fn lemma_hex_value_monotone(text: Seq<char>, s: int, m: int, e: int)
    requires
        s <= m <= e,
        all_hex(text, s, e),
    ensures
        hex_value(text, s, e) >= hex_value(text, s, m),
    decreases e - m,
{
    if m < e {
        lemma_hex_value_monotone(text, s, m, e - 1);
        lemma_hex_value_nonneg(text, s, e - 1);
    }
}

/// Scan an optionally signed decimal integer at `pos`. Returns the value
/// and the offset just past its digits, or `None` exactly when [`spec_int`]
/// fails there.
pub fn scan_int(text: &Vec<char>, pos: usize) -> (r: Option<(i32, usize)>)
    requires
        pos <= text@.len(),
    ensures
        match r {
            Some((v, next)) => spec_int(text@, pos as int) == (Outcome::Success {
                vals: seq![Value::Num(v)],
                next: next as int,
            }) && pos <= next <= text@.len(),
            None => spec_int(text@, pos as int) == soft_err(
                pos as int,
                KindView::NumericConversion,
            ),
        },
{
    let tlen: usize = text.len();
    let mut neg: bool = false;
    let mut ds: usize = pos;
    if pos < tlen {
        let c = text[pos];
        if c == '-' {
            neg = true;
            ds = pos + 1;
        } else if c == '+' {
            ds = pos + 1;
        }
    }
    proof {
        assert(ds == pos + int_sign_len(text@, pos as int));
        assert(neg == int_is_neg(text@, pos as int));
    }
    let dlen = crate::primitives::class_run_len(CharClass::Digit, text, ds);
    if dlen == 0 {
        return None;
    }
    let dend: usize = ds + dlen;
    proof {
        lemma_class_run_chars(CharClass::Digit, text@, ds as int);
    }
    let mut acc: u64 = 0;
    let mut i: usize = ds;
    while i < dend && acc <= 2147483648
        invariant
            ds <= i <= dend,
            dend <= text@.len(),
            tlen == text@.len(),
            acc == digits_value(text@, ds as int, i as int),
            forall|j: int| ds <= j < dend ==> class_holds(CharClass::Digit, text@[j]),
        decreases dend - i,
    {
        let d = digit_value(text[i]);
        acc = acc * 10 + (d as u64);
        i += 1;
    }
    let ghost mag = digits_value(text@, ds as int, dend as int);
    proof {
        lemma_digits_value_monotone(text@, ds as int, i as int, dend as int);
    }
    if i < dend {
        // the digits already exceed any 32-bit magnitude
        proof {
            assert(acc > 2147483648);
            assert(mag >= acc);
        }
        return None;
    }
    proof {
        assert(acc == mag);
    }
    if neg {
        if acc > 2147483648 {
            return None;
        }
        let v: i32 = if acc == 2147483648 {
            i32::MIN
        } else {
            -(acc as i32)
        };
        proof {
            assert(v as int == -mag);
        }
        Some((v, dend))
    } else {
        if acc > 2147483647 {
            return None;
        }
        Some((acc as i32, dend))
    }
}

/// Convert the hexadecimal digits of `text` in `[s, e)` to a byte.
/// Returns `None` exactly when a character is not a hexadecimal digit or
/// the value exceeds 255.
pub fn hex_span_value(text: &Vec<char>, s: usize, e: usize) -> (r: Option<u8>)
    requires
        s <= e <= text@.len(),
    ensures
        match r {
            Some(v) => all_hex(text@, s as int, e as int) && hex_value(text@, s as int, e as int)
                == v,
            None => !(all_hex(text@, s as int, e as int) && hex_value(text@, s as int, e as int)
                < 256),
        },
{
    let mut acc: u32 = 0;
    let mut i: usize = s;
    while i < e && acc <= 255
        invariant
            s <= i <= e,
            e <= text@.len(),
            acc == hex_value(text@, s as int, i as int),
            all_hex(text@, s as int, i as int),
        decreases e - i,
    {
        if !char_in_class(CharClass::HexDigit, text[i]) {
            return None;
        }
        let d = hex_digit_value(text[i]);
        acc = acc * 16 + d;
        i += 1;
    }
    if i < e {
        proof {
            assert(acc > 255);
            if all_hex(text@, s as int, e as int) {
                lemma_hex_value_monotone(text@, s as int, i as int, e as int);
            }
        }
        return None;
    }
    if acc > 255 {
        proof {
            if all_hex(text@, s as int, e as int) {
                assert(hex_value(text@, s as int, e as int) == acc);
            }
        }
        return None;
    }
    Some(acc as u8)
}

} // verus!
