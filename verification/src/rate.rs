//! Frame rates given as text: which strings read as a decimal number the way
//! `f64::from_str` documents its grammar, and which of those are above zero.
//! Everything is stated over characters; no float is ever formed.

use vstd::prelude::*;
use crate::text::{is_digit, lower, all_digits, chars_of, lower_vec, seq_eq, sub_vec};

verus! {

pub open spec fn is_sign(c: char) -> bool {
    c == '+' || c == '-'
}

/// The text after an optional leading sign.
pub open spec fn unsigned_part(t: Seq<char>) -> Seq<char> {
    if t.len() > 0 && is_sign(t[0]) {
        t.skip(1)
    } else {
        t
    }
}

pub open spec fn negative(t: Seq<char>) -> bool {
    t.len() > 0 && t[0] == '-'
}

pub open spec fn is_nonzero_digit(c: char) -> bool {
    '1' <= c && c <= '9'
}

pub open spec fn mantissa_char(c: char) -> bool {
    is_digit(c) || c == '.'
}

pub open spec fn is_exp_char(c: char) -> bool {
    c == 'e' || c == 'E'
}

/// Digits with at most one decimal point, and at least one digit
/// (`1`, `1.`, `.5`, `1.5`; not `.` nor `1.2.3`).
pub open spec fn is_mantissa(m: Seq<char>) -> bool {
    &&& forall|i: int| 0 <= i < m.len() ==> mantissa_char(#[trigger] m[i])
    &&& forall|i: int, j: int|
        #![trigger m[i], m[j]]
        0 <= i < j < m.len() && m[i] == '.' ==> m[j] != '.'
    &&& exists|i: int| 0 <= i < m.len() && is_digit(#[trigger] m[i])
}

pub open spec fn has_nonzero(m: Seq<char>) -> bool {
    exists|i: int| 0 <= i < m.len() && is_nonzero_digit(#[trigger] m[i])
}

/// What follows the `e`: an optional sign, then one digit or more.
pub open spec fn is_exponent(x: Seq<char>) -> bool {
    unsigned_part(x).len() > 0 && all_digits(unsigned_part(x))
}

/// `u` is a mantissa, an `e` or `E` at `k`, then an exponent.
pub open spec fn split_at_exp(u: Seq<char>, k: int) -> bool {
    &&& 0 <= k < u.len()
    &&& is_exp_char(u[k])
    &&& is_mantissa(u.take(k))
    &&& is_exponent(u.skip(k + 1))
}

/// An unsigned decimal: a mantissa with an optional exponent.
pub open spec fn is_decimal(u: Seq<char>) -> bool {
    is_mantissa(u) || exists|k: int| #[trigger] split_at_exp(u, k)
}

/// The decimal's mantissa has a digit other than `0`.
pub open spec fn decimal_nonzero(u: Seq<char>) -> bool {
    ||| (is_mantissa(u) && has_nonzero(u))
    ||| exists|k: int| #[trigger] split_at_exp(u, k) && has_nonzero(u.take(k))
}

/// `inf`, `infinity` or `nan`, in any ASCII case.
pub open spec fn is_special(u: Seq<char>) -> bool {
    lower(u) == "inf"@ || lower(u) == "infinity"@ || lower(u) == "nan"@
}

/// The text is a number: an optional sign, then a special word or a decimal.
pub open spec fn is_float_text(t: Seq<char>) -> bool {
    is_special(unsigned_part(t)) || is_decimal(unsigned_part(t))
}

/// The number the text reads as is above zero. NaN compares neither at nor
/// below zero, so it counts here; an infinity or a decimal needs no minus
/// sign, and a decimal needs a digit other than `0` before its exponent.
pub open spec fn float_text_positive(t: Seq<char>) -> bool {
    let u = unsigned_part(t);
    if lower(u) == "nan"@ {
        true
    } else if is_special(u) {
        !negative(t)
    } else {
        !negative(t) && decimal_nonzero(u)
    }
}

/// Checks a mantissa: whether it is one and, when it is, whether it has a
/// digit other than `0`.
fn scan_mantissa(m: &Vec<char>) -> (r: (bool, bool))
    ensures
        r.0 == is_mantissa(m@),
        r.0 ==> r.1 == has_nonzero(m@),
{
    let mut dot: Option<usize> = None;
    let mut digit = false;
    let mut nonzero = false;
    let mut i: usize = 0;
    while i < m.len()
        invariant
            i <= m.len(),
            forall|j: int| 0 <= j < i ==> mantissa_char(#[trigger] m@[j]),
            forall|a: int, b: int|
                #![trigger m@[a], m@[b]]
                0 <= a < b < i && m@[a] == '.' ==> m@[b] != '.',
            match dot {
                Some(d) => d < i && m@[d as int] == '.',
                None => forall|j: int| 0 <= j < i ==> #[trigger] m@[j] != '.',
            },
            digit == exists|j: int| 0 <= j < i && is_digit(#[trigger] m@[j]),
            nonzero == exists|j: int| 0 <= j < i && is_nonzero_digit(#[trigger] m@[j]),
        decreases m.len() - i,
    {
        let c = m[i];
        if c == '.' {
            match dot {
                Some(d) => {
                    assert(m@[d as int] == '.' && m@[i as int] == '.');
                    return (false, false);
                },
                None => {
                    dot = Some(i);
                },
            }
        } else if '0' <= c && c <= '9' {
            digit = true;
            if c != '0' {
                nonzero = true;
            }
        } else {
            assert(!mantissa_char(m@[i as int]));
            return (false, false);
        }
        i += 1;
        assert(m@[i - 1] == c);
    }
    (digit, nonzero)
}

/// Checks an exponent: an optional sign, then one digit or more.
fn scan_exponent(x: &Vec<char>) -> (r: bool)
    ensures
        r == is_exponent(x@),
{
    let start: usize = if x.len() > 0 && (x[0] == '+' || x[0] == '-') {
        1
    } else {
        0
    };
    assert(unsigned_part(x@) =~= x@.skip(start as int));
    if start >= x.len() {
        return false;
    }
    let mut i: usize = start;
    while i < x.len()
        invariant
            start <= i <= x.len(),
            unsigned_part(x@) == x@.skip(start as int),
            forall|j: int| start <= j < i ==> is_digit(#[trigger] x@[j]),
        decreases x.len() - i,
    {
        if !('0' <= x[i] && x[i] <= '9') {
            let ghost up = unsigned_part(x@);
            assert(up == x@.skip(start as int));
            assert(up[i - start] == x@[i as int]);
            assert(!is_digit(up[i - start]));
            return false;
        }
        i += 1;
    }
    assert forall|j: int| 0 <= j < unsigned_part(x@).len() implies is_digit(
        #[trigger] unsigned_part(x@)[j],
    ) by {
        assert(unsigned_part(x@)[j] == x@[j + start]);
    }
    true
}

/// The first `e` or `E`, if any.
fn find_exp(u: &Vec<char>) -> (r: Option<usize>)
    ensures
        match r {
            Some(k) => k < u.len() && is_exp_char(u@[k as int]) && forall|j: int|
                0 <= j < k ==> !is_exp_char(#[trigger] u@[j]),
            None => forall|j: int| 0 <= j < u.len() ==> !is_exp_char(#[trigger] u@[j]),
        },
{
    let mut i: usize = 0;
    while i < u.len()
        invariant
            i <= u.len(),
            forall|j: int| 0 <= j < i ==> !is_exp_char(#[trigger] u@[j]),
        decreases u.len() - i,
    {
        if u[i] == 'e' || u[i] == 'E' {
            return Some(i);
        }
        i += 1;
    }
    None
}

/// Reads a trimmed frame rate: whether it is a number and, when it is,
/// whether that number is above zero.
pub fn check_float_text(t: &Vec<char>) -> (r: (bool, bool))
    ensures
        r.0 == is_float_text(t@),
        r.0 ==> r.1 == float_text_positive(t@),
{
    let neg = t.len() > 0 && t[0] == '-';
    let start: usize = if t.len() > 0 && (t[0] == '+' || t[0] == '-') {
        1
    } else {
        0
    };
    let u = sub_vec(t, start, t.len());
    assert(u@ =~= unsigned_part(t@));
    let lu = lower_vec(&u);
    if seq_eq(&lu, &chars_of("nan")) {
        return (true, true);
    }
    if seq_eq(&lu, &chars_of("inf")) || seq_eq(&lu, &chars_of("infinity")) {
        return (true, !neg);
    }
    assert(!is_special(u@));
    match find_exp(&u) {
        None => {
            let (ok, nz) = scan_mantissa(&u);
            assert forall|k: int| !split_at_exp(u@, k) by {
                if split_at_exp(u@, k) {
                    assert(is_exp_char(u@[k]));
                }
            }
            (ok, ok && nz && !neg)
        },
        Some(k) => {
            let m = sub_vec(&u, 0, k);
            let x = sub_vec(&u, k + 1, u.len());
            assert(m@ =~= u@.take(k as int));
            assert(x@ =~= u@.skip(k + 1));
            let (okm, nz) = scan_mantissa(&m);
            let okx = scan_exponent(&x);
            assert(!mantissa_char(u@[k as int]));
            assert(!is_mantissa(u@));
            assert forall|k2: int| #[trigger] split_at_exp(u@, k2) implies k2 == k by {
                if k2 < k {
                    assert(is_exp_char(u@[k2]));
                } else if k2 > k {
                    assert(u@.take(k2)[k as int] == u@[k as int]);
                    assert(!mantissa_char(u@.take(k2)[k as int]));
                }
            }
            if okm && okx {
                assert(split_at_exp(u@, k as int));
            }
            (okm && okx, okm && okx && nz && !neg)
        },
    }
}

} // verus!
