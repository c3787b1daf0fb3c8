//! Reading a [`Decimal`] from number text such as `-12.50e-3`.
use vstd::prelude::*;
use crate::value::Decimal;

verus! {

pub open spec fn is_digit(c: char) -> bool {
    '0' as u32 <= c as u32 <= '9' as u32
}

pub open spec fn all_digits(s: Seq<char>) -> bool {
    forall|i: int| 0 <= i < s.len() ==> is_digit(#[trigger] s[i])
}

/// The number that the decimal digits `s` spell.
pub open spec fn digits_value(s: Seq<char>) -> nat
    decreases s.len(),
{
    if s.len() == 0 {
        0
    } else {
        digits_value(s.drop_last()) * 10 + (s.last() as u32 - '0' as u32) as nat
    }
}

/// The position of the first `a` or `b` in `s`, or its length if none.
pub open spec fn first_index(s: Seq<char>, a: char, b: char) -> int
    decreases s.len(),
{
    if s.len() == 0 {
        0
    } else if s[0] == a || s[0] == b {
        0
    } else {
        1 + first_index(s.drop_first(), a, b)
    }
}

/// The most fraction digits that number text may have.
pub const MAX_FRACTION_DIGITS: usize = 1000;

/// The most exponent digits that number text may have.
pub const MAX_EXPONENT_DIGITS: usize = 9;

/// The decimal that `s` writes, if it has the shape `-?D(.D)?([eE][+-]?D)?`
/// where each `D` is one or more decimal digits, with at most
/// [`MAX_FRACTION_DIGITS`] fraction digits and [`MAX_EXPONENT_DIGITS`]
/// exponent digits, and a digit string (integer and fraction digits
/// together) whose value fits in a `u64`.
pub open spec fn decimal_of_text(s: Seq<char>) -> Option<Decimal> {
    let neg = s.len() > 0 && s[0] == '-';
    let body = if neg {
        s.drop_first()
    } else {
        s
    };
    let e = first_index(body, 'e', 'E');
    let mant = body.take(e);
    let d = first_index(mant, '.', '.');
    let int_part = mant.take(d);
    let has_dot = d < mant.len();
    let frac = if has_dot {
        mant.skip(d + 1)
    } else {
        Seq::<char>::empty()
    };
    let has_exp = e < body.len();
    let exp_text = if has_exp {
        body.skip(e + 1)
    } else {
        Seq::<char>::empty()
    };
    let exp_signed = exp_text.len() > 0 && (exp_text[0] == '-' || exp_text[0] == '+');
    let exp_digits = if exp_signed {
        exp_text.drop_first()
    } else {
        exp_text
    };
    let all = int_part + frac;
    if int_part.len() > 0 && all_digits(int_part) && (!has_dot || (frac.len() > 0 && all_digits(frac)))
        && frac.len() <= MAX_FRACTION_DIGITS && (!has_exp || (exp_digits.len() > 0 && exp_digits.len()
        <= MAX_EXPONENT_DIGITS && all_digits(exp_digits))) && digits_value(all) <= u64::MAX {
        let ev: int = if exp_signed && exp_text[0] == '-' {
            -digits_value(exp_digits)
        } else {
            digits_value(exp_digits) as int
        };
        Some(Decimal { negative: neg, digits: digits_value(all) as u64, exponent: (ev - frac.len()) as i32 })
    } else {
        None
    }
}

proof fn lemma_first_index(s: Seq<char>, a: char, b: char, i: int)
    requires
        0 <= i <= s.len(),
        forall|j: int| 0 <= j < i ==> s[j] != a && s[j] != b,
        i == s.len() || s[i] == a || s[i] == b,
    ensures
        first_index(s, a, b) == i,
    decreases i,
{
    if i > 0 {
        lemma_first_index(s.drop_first(), a, b, i - 1);
    }
}

fn find_either(s: &str, a: char, b: char) -> (r: usize)
    ensures
        r == first_index(s@, a, b),
        r <= s@.len(),
{
    let n = s.unicode_len();
    let mut i: usize = 0;
    while i < n
        invariant
            n == s@.len(),
            i <= n,
            forall|j: int| 0 <= j < i ==> s@[j] != a && s@[j] != b,
        decreases n - i,
    {
        let c = s.get_char(i);
        if c == a || c == b {
            proof {
                lemma_first_index(s@, a, b, i as int);
            }
            return i;
        }
        i = i + 1;
    }
    proof {
        lemma_first_index(s@, a, b, i as int);
    }
    i
}

proof fn lemma_digits_grow(s: Seq<char>, j: int)
    requires
        0 <= j <= s.len(),
    ensures
        digits_value(s.take(j)) <= digits_value(s),
    decreases s.len(),
{
    if j < s.len() {
        assert(s.drop_last().take(j) =~= s.take(j));
        lemma_digits_grow(s.drop_last(), j);
    } else {
        assert(s.take(j) =~= s);
    }
}

proof fn lemma_digits_below(s: Seq<char>)
    requires
        all_digits(s),
    ensures
        digits_value(s) < crate::value::pow10(s.len()),
    decreases s.len(),
{
    if s.len() > 0 {
        let t = s.drop_last();
        assert(all_digits(t)) by {
            assert forall|i: int| 0 <= i < t.len() implies is_digit(#[trigger] t[i]) by {
                assert(t[i] == s[i]);
            }
        }
        lemma_digits_below(t);
        let dv = (s.last() as u32 - '0' as u32) as nat;
        assert(is_digit(s[s.len() - 1]));
        assert(dv <= 9);
        let p = crate::value::pow10(t.len());
        assert(crate::value::pow10(s.len()) == 10 * p);
        assert(digits_value(t) * 10 + dv < 10 * p) by (nonlinear_arith)
            requires
                digits_value(t) < p,
                dv <= 9,
        ;
    }
}

/// The value of the digits `s`, if every character is a digit and the value
/// fits in a `u64`.
fn digits_to_u64(s: &str) -> (r: Option<u64>)
    ensures
        r is Some <==> all_digits(s@) && digits_value(s@) <= u64::MAX,
        r matches Some(v) ==> v == digits_value(s@),
{
    let n = s.unicode_len();
    let mut acc: u64 = 0;
    let mut i: usize = 0;
    while i < n
        invariant
            n == s@.len(),
            i <= n,
            all_digits(s@.take(i as int)),
            acc == digits_value(s@.take(i as int)),
        decreases n - i,
    {
        let c = s.get_char(i);
        proof {
            assert(s@.take(i + 1).drop_last() =~= s@.take(i as int));
            assert(s@.take(i + 1).last() == c);
        }
        if !('0' <= c && c <= '9') {
            proof {
                assert(!is_digit(s@[i as int]));
            }
            return None;
        }
        let d: u64 = (c as u32 - '0' as u32) as u64;
        if acc > (18446744073709551615u64 - d) / 10 {
            proof {
                assert(acc * 10 + d > u64::MAX) by (nonlinear_arith)
                    requires
                        acc > (18446744073709551615u64 - d) / 10,
                        d <= 9,
                ;
                lemma_digits_grow(s@, i + 1);
            }
            return None;
        }
        proof {
            assert(acc * 10 + d <= u64::MAX) by (nonlinear_arith)
                requires
                    acc <= (18446744073709551615u64 - d) / 10,
                    d <= 9,
            ;
            assert forall|j: int| 0 <= j < i + 1 implies is_digit(#[trigger] s@.take(i + 1)[j]) by {
                if j < i {
                    assert(s@.take(i + 1)[j] == s@.take(i as int)[j]);
                }
            }
        }
        acc = acc * 10 + d;
        i = i + 1;
    }
    assert(s@.take(i as int) =~= s@);
    Some(acc)
}

fn all_digit_chars(s: &str) -> (r: bool)
    ensures
        r == all_digits(s@),
{
    let n = s.unicode_len();
    let mut i: usize = 0;
    while i < n
        invariant
            n == s@.len(),
            i <= n,
            forall|j: int| 0 <= j < i ==> is_digit(#[trigger] s@[j]),
        decreases n - i,
    {
        let c = s.get_char(i);
        if !('0' <= c && c <= '9') {
            return false;
        }
        i = i + 1;
    }
    true
}

impl Decimal {
    /// Reads number text: an optional `-`, digits, an optional fraction
    /// and an optional exponent, as [`decimal_of_text`] states.
    pub fn parse(text: &str) -> (r: Option<Decimal>)
        ensures
            r == decimal_of_text(text@),
    {
        let n = text.unicode_len();
        let neg = n > 0 && text.get_char(0) == '-';
        let body = if neg {
            text.substring_char(1, n)
        } else {
            text.substring_char(0, n)
        };
        proof {
            assert(neg ==> body@ =~= text@.drop_first());
            assert(!neg ==> body@ =~= text@);
        }
        let bn = body.unicode_len();
        let e = find_either(body, 'e', 'E');
        let mant = body.substring_char(0, e);
        assert(mant@ =~= body@.take(e as int));
        let mn = mant.unicode_len();
        let d = find_either(mant, '.', '.');
        let int_part = mant.substring_char(0, d);
        assert(int_part@ =~= mant@.take(d as int));
        let has_dot = d < mn;
        let frac = if has_dot {
            mant.substring_char(d + 1, mn)
        } else {
            mant.substring_char(mn, mn)
        };
        assert(frac@ =~= (if has_dot {
            mant@.skip(d + 1)
        } else {
            Seq::<char>::empty()
        }));
        let has_exp = e < bn;
        let exp_text = if has_exp {
            body.substring_char(e + 1, bn)
        } else {
            body.substring_char(bn, bn)
        };
        assert(exp_text@ =~= (if has_exp {
            body@.skip(e + 1)
        } else {
            Seq::<char>::empty()
        }));
        let en = exp_text.unicode_len();
        let exp_signed = en > 0 && (exp_text.get_char(0) == '-' || exp_text.get_char(0) == '+');
        let exp_negative = exp_signed && exp_text.get_char(0) == '-';
        let exp_digits = if exp_signed {
            exp_text.substring_char(1, en)
        } else {
            exp_text.substring_char(0, en)
        };
        proof {
            assert(exp_signed ==> exp_digits@ =~= exp_text@.drop_first());
            assert(!exp_signed ==> exp_digits@ =~= exp_text@);
        }
        let fl = frac.unicode_len();
        if int_part.unicode_len() == 0 || !all_digit_chars(int_part) {
            return None;
        }
        if has_dot && (fl == 0 || !all_digit_chars(frac)) {
            return None;
        }
        if fl > MAX_FRACTION_DIGITS {
            return None;
        }
        let edl = exp_digits.unicode_len();
        if has_exp && (edl == 0 || edl > MAX_EXPONENT_DIGITS || !all_digit_chars(exp_digits)) {
            return None;
        }
        let mut all = String::from_str(int_part);
        all.append(frac);
        let digits = match digits_to_u64(all.as_str()) {
            Some(v) => v,
            None => {
                proof {
                    assert(all_digits(all@)) by {
                        assert forall|i: int| 0 <= i < all@.len() implies is_digit(#[trigger] all@[i]) by {
                            if i < int_part@.len() {
                                assert(all@[i] == int_part@[i]);
                            } else {
                                assert(all@[i] == frac@[i - int_part@.len()]);
                            }
                        }
                    }
                }
                return None;
            },
        };
        proof {
            lemma_digits_below(exp_digits@);
            crate::value::lemma_pow10_monotone(exp_digits@.len(), 9);
            assert(crate::value::pow10(9) == 1000000000) by {
                reveal_with_fuel(crate::value::pow10, 10);
            }
        }
        let ev: u64 = match digits_to_u64(exp_digits) {
            Some(v) => v,
            None => 0,
        };
        assert(ev == digits_value(exp_digits@));
        let signed_ev: i64 = if exp_negative {
            -(ev as i64)
        } else {
            ev as i64
        };
        let exponent: i64 = signed_ev - fl as i64;
        Some(Decimal { negative: neg, digits, exponent: exponent as i32 })
    }
}

} // verus!
