//! The grammar of floating-point coordinate tokens.
//!
//! Mesh coordinates pass through this library as their original text: the
//! library never computes with them, it only checks that a renderer's
//! standard number parser will accept them. `is_scalar_token` states the
//! documented grammar of that parser — an optional sign, then one of the
//! special words `inf`, `infinity` or `nan` (in any letter case) or a
//! decimal number: digits with at most one point and at least one digit,
//! optionally followed by an exponent marker `e` or `E`, an optional sign
//! and at least one digit. `is_scalar` decides that grammar.

use vstd::prelude::*;

use crate::text::all_dec_digits;
use crate::text::find_first;
use crate::text::is_dec_digit;
use crate::text::lemma_find_first_is_at;
use crate::text::lemma_find_first_is_none;

verus! {

/// The token with one leading sign character removed, if it has one.
pub open spec fn strip_sign(s: Seq<char>) -> Seq<char> {
    if s.len() > 0 && (s[0] == '+' || s[0] == '-') {
        s.drop_first()
    } else {
        s
    }
}

/// True when `a` is `b` or, for a lower-case letter `b`, its upper-case
/// form.
pub open spec fn eq_ignore_case(a: char, b: char) -> bool {
    a == b || a as u32 == b as u32 - 32
}

/// True when `t` spells the lower-case word `kw`, in any letter case.
pub open spec fn matches_kw(t: Seq<char>, kw: Seq<char>) -> bool {
    t.len() == kw.len() && forall|k: int| 0 <= k < kw.len() ==> eq_ignore_case(t[k], kw[k])
}

/// How many decimal points `s` holds.
pub open spec fn dot_count(s: Seq<char>) -> nat
    decreases s.len(),
{
    if s.len() == 0 {
        0
    } else {
        dot_count(s.drop_last()) + if s.last() == '.' {
            1nat
        } else {
            0nat
        }
    }
}

/// True when some character of `s` is a decimal digit.
pub open spec fn has_dec_digit(s: Seq<char>) -> bool {
    exists|k: int| 0 <= k < s.len() && is_dec_digit(s[k])
}

/// The part before the exponent: digits with at most one decimal point,
/// and at least one digit.
pub open spec fn is_mantissa(m: Seq<char>) -> bool {
    &&& m.len() > 0
    &&& forall|k: int| 0 <= k < m.len() ==> (is_dec_digit(m[k]) || m[k] == '.')
    &&& dot_count(m) <= 1
    &&& has_dec_digit(m)
}

/// The part after the exponent marker: an optional sign, then at least one
/// digit.
pub open spec fn is_exp_part(x: Seq<char>) -> bool {
    let b = strip_sign(x);
    b.len() > 0 && all_dec_digits(b)
}

/// The predicate "this character marks an exponent", named so that every
/// use denotes the same function value.
pub open spec fn exp_pred() -> spec_fn(char) -> bool {
    |c: char| c == 'e' || c == 'E'
}

/// A decimal number: a mantissa, split from an exponent part at the first
/// exponent marker if one stands in the token.
pub open spec fn is_number(t: Seq<char>) -> bool {
    match find_first(t, exp_pred()) {
        None => is_mantissa(t),
        Some(k) => is_mantissa(t.take(k)) && is_exp_part(t.skip(k + 1)),
    }
}

/// True of the coordinate tokens a renderer's standard number parser
/// accepts.
pub open spec fn is_scalar_token(s: Seq<char>) -> bool {
    let t = strip_sign(s);
    ||| matches_kw(t, "inf"@)
    ||| matches_kw(t, "infinity"@)
    ||| matches_kw(t, "nan"@)
    ||| is_number(t)
}

/// Decides `matches_kw` for a lower-case word `kw`.
fn kw_eq_ignore_case(t: &str, kw: &str) -> (r: bool)
    ensures
        r == matches_kw(t@, kw@),
{
    let n = t.unicode_len();
    if n != kw.unicode_len() {
        return false;
    }
    let mut i: usize = 0;
    while i < n
        invariant
            i <= n,
            n == t@.len(),
            n == kw@.len(),
            forall|k: int| 0 <= k < i ==> eq_ignore_case(t@[k], kw@[k]),
        decreases n - i,
    {
        let cv = t.get_char(i) as u32;
        let kv = kw.get_char(i) as u32;
        if !(cv == kv || (kv >= 32 && cv == kv - 32)) {
            assert(!eq_ignore_case(t@[i as int], kw@[i as int]));
            return false;
        }
        i = i + 1;
    }
    true
}

/// One more character adds one point to the count, or none.
proof fn lemma_dot_count_step(s: Seq<char>, j: int)
    requires
        0 <= j < s.len(),
    ensures
        dot_count(s.take(j + 1)) == dot_count(s.take(j)) + if s[j] == '.' {
            1nat
        } else {
            0nat
        },
{
    assert(s.take(j + 1).drop_last() =~= s.take(j));
    assert(s.take(j + 1).last() == s[j]);
}

/// Decides `is_mantissa`.
fn is_mantissa_str(m: &str) -> (r: bool)
    ensures
        r == is_mantissa(m@),
{
    let n = m.unicode_len();
    if n == 0 {
        return false;
    }
    let mut dots: usize = 0;
    let mut saw_digit: bool = false;
    let mut i: usize = 0;
    proof {
        assert(m@.take(0) =~= Seq::<char>::empty());
    }
    while i < n
        invariant
            i <= n,
            n == m@.len(),
            forall|k: int| 0 <= k < i ==> (is_dec_digit(m@[k]) || m@[k] == '.'),
            dots == dot_count(m@.take(i as int)),
            dots <= i,
            saw_digit == exists|k: int| 0 <= k < i && is_dec_digit(m@[k]),
        decreases n - i,
    {
        let c = m.get_char(i);
        let cv = c as u32;
        proof {
            lemma_dot_count_step(m@, i as int);
        }
        if cv == 46 {
            assert(c == '.');
            dots = dots + 1;
        } else if 48 <= cv && cv <= 57 {
            assert(is_dec_digit(c));
            saw_digit = true;
        } else {
            assert(!(is_dec_digit(m@[i as int]) || m@[i as int] == '.'));
            return false;
        }
        i = i + 1;
    }
    proof {
        assert(m@.take(n as int) =~= m@);
    }
    dots <= 1 && saw_digit
}

/// Decides `is_exp_part`.
fn is_exp_str(x: &str) -> (r: bool)
    ensures
        r == is_exp_part(x@),
{
    let n = x.unicode_len();
    let mut start: usize = 0;
    if n > 0 {
        let c0 = x.get_char(0);
        if c0 == '+' || c0 == '-' {
            start = 1;
        }
    }
    let ghost b = strip_sign(x@);
    proof {
        assert(b =~= x@.skip(start as int));
    }
    if start == n {
        return false;
    }
    let mut i: usize = start;
    while i < n
        invariant
            start <= i <= n,
            n == x@.len(),
            b == x@.skip(start as int),
            b == strip_sign(x@),
            forall|k: int| 0 <= k < i - start ==> is_dec_digit(b[k]),
        decreases n - i,
    {
        let cv = x.get_char(i) as u32;
        if cv < 48 || cv > 57 {
            assert(!is_dec_digit(b[i - start]));
            return false;
        }
        i = i + 1;
    }
    true
}

/// Decides `is_scalar_token`: whether a renderer's standard number parser
/// will accept `s` as a coordinate.
pub fn is_scalar(s: &str) -> (r: bool)
    ensures
        r == is_scalar_token(s@),
{
    let n = s.unicode_len();
    let mut start: usize = 0;
    if n > 0 {
        let c0 = s.get_char(0);
        if c0 == '+' || c0 == '-' {
            start = 1;
        }
    }
    let t = s.substring_char(start, n);
    proof {
        assert(t@ =~= strip_sign(s@));
    }
    if kw_eq_ignore_case(t, "inf") || kw_eq_ignore_case(t, "infinity") || kw_eq_ignore_case(
        t,
        "nan",
    ) {
        return true;
    }
    let tn = t.unicode_len();
    let mut i: usize = 0;
    while i < tn && !(t.get_char(i) == 'e' || t.get_char(i) == 'E')
        invariant
            i <= tn,
            tn == t@.len(),
            forall|k: int| 0 <= k < i ==> !(t@[k] == 'e' || t@[k] == 'E'),
        decreases tn - i,
    {
        i = i + 1;
    }
    if i == tn {
        proof {
            assert forall|k: int| 0 <= k < t@.len() implies !exp_pred()(t@[k]) by {}
            lemma_find_first_is_none(t@, exp_pred());
        }
        is_mantissa_str(t)
    } else {
        proof {
            assert(exp_pred()(t@[i as int]));
            assert forall|k: int| 0 <= k < i implies !exp_pred()(t@[k]) by {}
            lemma_find_first_is_at(t@, exp_pred(), i as int);
        }
        let m = t.substring_char(0, i);
        let x = t.substring_char(i + 1, tn);
        proof {
            assert(m@ =~= t@.take(i as int));
            assert(x@ =~= t@.skip(i + 1));
        }
        let mantissa_ok = is_mantissa_str(m);
        let exp_ok = is_exp_str(x);
        mantissa_ok && exp_ok
    }
}

} // verus!
