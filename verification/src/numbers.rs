//! Recognising number texts: the integer syntax that `str::parse` accepts
//! for `i64` and `i32`, and the decimal syntax it accepts for floating-point
//! numbers.
use vstd::prelude::*;
use crate::text::{ascii_lower, char_ascii_lower};

verus! {

/// An ASCII decimal digit.
pub open spec fn is_digit(c: char) -> bool {
    '0' <= c && c <= '9'
}

/// The value of a digit character.
pub open spec fn digit_value(c: char) -> int {
    (c as u32) - 48
}

/// Every character is a digit.
pub open spec fn all_digits(s: Seq<char>) -> bool {
    forall|i: int| 0 <= i < s.len() ==> is_digit(#[trigger] s[i])
}

/// The value of a digit string.
pub open spec fn digits_value(s: Seq<char>) -> int
    decreases s.len(),
{
    if s.len() == 0 {
        0
    } else {
        digits_value(s.drop_last()) * 10 + digit_value(s.last())
    }
}

/// The value that `str::parse` gives an integer text, when it has the
/// integer syntax (an optional '+' or '-', then at least one digit); the
/// caller checks the range of the result.
pub open spec fn int_text_value(s: Seq<char>) -> Option<int> {
    if s.len() > 0 && (s[0] == '+' || s[0] == '-') {
        let d = s.skip(1);
        if d.len() > 0 && all_digits(d) {
            Some(if s[0] == '-' {
                -digits_value(d)
            } else {
                digits_value(d)
            })
        } else {
            None
        }
    } else if s.len() > 0 && all_digits(s) {
        Some(digits_value(s))
    } else {
        None
    }
}

/// What `str::parse::<i64>` gives: the value when the text has the integer
/// syntax and the value fits in an `i64`.
pub open spec fn parse_i64_spec(s: Seq<char>) -> Option<i64> {
    match int_text_value(s) {
        Some(v) => if i64::MIN <= v <= i64::MAX {
            Some(v as i64)
        } else {
            None
        },
        None => None,
    }
}

/// What `str::parse::<i32>` gives.
pub open spec fn parse_i32_spec(s: Seq<char>) -> Option<i32> {
    match int_text_value(s) {
        Some(v) => if i32::MIN <= v <= i32::MAX {
            Some(v as i32)
        } else {
            None
        },
        None => None,
    }
}

/// The number of '.' characters.
pub open spec fn dot_count(s: Seq<char>) -> nat
    decreases s.len(),
{
    if s.len() == 0 {
        0
    } else {
        dot_count(s.drop_last()) + (if s.last() == '.' {
            1nat
        } else {
            0nat
        })
    }
}

/// The mantissa of a decimal number: digits with at most one '.', and at
/// least one digit (`Digit+ | Digit+ '.' Digit* | Digit* '.' Digit+`).
pub open spec fn valid_mantissa(m: Seq<char>) -> bool {
    &&& forall|i: int| 0 <= i < m.len() ==> (is_digit(#[trigger] m[i]) || m[i] == '.')
    &&& dot_count(m) <= 1
    &&& exists|i: int| 0 <= i < m.len() && is_digit(#[trigger] m[i])
}

/// An exponent: an optional sign, then at least one digit.
pub open spec fn valid_exponent(e: Seq<char>) -> bool {
    if e.len() > 0 && (e[0] == '+' || e[0] == '-') {
        e.len() > 1 && all_digits(e.skip(1))
    } else {
        e.len() > 0 && all_digits(e)
    }
}

/// The position of the first 'e' or 'E', if any.
pub open spec fn first_exp(s: Seq<char>) -> Option<int>
    decreases s.len(),
{
    if s.len() == 0 {
        None
    } else {
        match first_exp(s.drop_last()) {
            Some(i) => Some(i),
            None => if s.last() == 'e' || s.last() == 'E' {
                Some(s.len() - 1)
            } else {
                None
            },
        }
    }
}

/// A decimal number: a mantissa, optionally followed by 'e' or 'E' and an
/// exponent.
pub open spec fn valid_decimal(s: Seq<char>) -> bool {
    match first_exp(s) {
        Some(i) => valid_mantissa(s.take(i)) && valid_exponent(s.skip(i + 1)),
        None => valid_mantissa(s),
    }
}

/// A text that `str::parse::<f64>` accepts: an optional sign followed by
/// "inf", "infinity" or "nan" in any letter case, or by a decimal number.
pub open spec fn is_float_text(s: Seq<char>) -> bool {
    let body = if s.len() > 0 && (s[0] == '+' || s[0] == '-') {
        s.skip(1)
    } else {
        s
    };
    let lower = body.map_values(|c: char| ascii_lower(c));
    lower == "inf"@ || lower == "infinity"@ || lower == "nan"@ || valid_decimal(body)
}

/// The value of a digit string, when it fits in the given bound.
fn digits_value_bounded(v: &Vec<char>, start: usize, bound: u64) -> (r: Option<u64>)
    requires
        start <= v@.len(),
        all_digits(v@.skip(start as int)),
        bound <= u64::MAX,
    ensures
        match r {
            Some(x) => x == digits_value(v@.skip(start as int)) && x <= bound,
            None => digits_value(v@.skip(start as int)) > bound,
        },
{
    let mut acc: u128 = 0;
    let mut k = start;
    assert(v@.subrange(start as int, start as int).len() == 0);
    while k < v.len()
        invariant
            start <= k <= v@.len(),
            all_digits(v@.skip(start as int)),
            bound <= u64::MAX,
            acc == digits_value(v@.subrange(start as int, k as int)),
            acc <= bound,
        decreases v.len() - k,
    {
        assert(v@.subrange(start as int, k + 1).drop_last() == v@.subrange(start as int, k as int));
        assert(v@.skip(start as int)[k - start] == v@[k as int]);
        let d = (v[k] as u32 - 48) as u128;
        let next = acc * 10 + d;
        if next > bound as u128 {
            proof {
                lemma_digits_value_prefix_grows(v@.skip(start as int), (k + 1 - start) as int);
                assert(v@.skip(start as int).take((k + 1 - start) as int) == v@.subrange(
                    start as int,
                    k + 1,
                ));
            }
            return None;
        }
        acc = next;
        k = k + 1;
    }
    assert(v@.subrange(start as int, v@.len() as int) == v@.skip(start as int));
    Some(acc as u64)
}

/// The value of a digit string is at least that of any prefix.
pub proof fn lemma_digits_value_prefix_grows(s: Seq<char>, k: int)
    requires
        0 <= k <= s.len(),
        all_digits(s),
    ensures
        digits_value(s) >= digits_value(s.take(k)),
        digits_value(s.take(k)) >= 0,
    decreases s.len(),
{
    lemma_digits_value_nonneg(s.take(k));
    if k < s.len() {
        assert(s.drop_last().take(k) == s.take(k));
        lemma_digits_value_prefix_grows(s.drop_last(), k);
        lemma_digits_value_nonneg(s.drop_last());
    } else {
        assert(s.take(k) == s);
    }
}

/// Digit strings have non-negative values.
pub proof fn lemma_digits_value_nonneg(s: Seq<char>)
    requires
        all_digits(s),
    ensures
        digits_value(s) >= 0,
    decreases s.len(),
{
    if s.len() > 0 {
        lemma_digits_value_nonneg(s.drop_last());
    }
}

fn all_digits_from(v: &Vec<char>, start: usize) -> (b: bool)
    requires
        start <= v@.len(),
    ensures
        b == all_digits(v@.skip(start as int)),
{
    let mut k = start;
    while k < v.len()
        invariant
            start <= k <= v@.len(),
            forall|j: int| start <= j < k ==> is_digit(v@[j]),
        decreases v.len() - k,
    {
        if !('0' <= v[k] && v[k] <= '9') {
            assert(!is_digit(v@.skip(start as int)[k - start]));
            return false;
        }
        k = k + 1;
    }
    assert forall|i: int| 0 <= i < v@.skip(start as int).len() implies is_digit(
        #[trigger] v@.skip(start as int)[i],
    ) by {
        assert(v@.skip(start as int)[i] == v@[start + i]);
    }
    true
}

/// The integer that `str::parse::<i64>` reads from the text, if any.
pub fn parse_i64(v: &Vec<char>) -> (r: Option<i64>)
    ensures
        r == parse_i64_spec(v@),
{
    if v.len() == 0 {
        return None;
    }
    let signed = v[0] == '+' || v[0] == '-';
    let start: usize = if signed {
        1
    } else {
        0
    };
    assert(v@.skip(0) == v@);
    if start == v.len() || !all_digits_from(v, start) {
        return None;
    }
    let neg = v[0] == '-';
    let bound: u64 = if neg {
        9223372036854775808u64
    } else {
        9223372036854775807u64
    };
    match digits_value_bounded(v, start, bound) {
        Some(x) => {
            if neg {
                if x == 9223372036854775808u64 {
                    Some(i64::MIN)
                } else {
                    Some(-(x as i64))
                }
            } else {
                Some(x as i64)
            }
        },
        None => None,
    }
}

/// The integer that `str::parse::<i32>` reads from the text, if any.
pub fn parse_i32(v: &Vec<char>) -> (r: Option<i32>)
    ensures
        r == parse_i32_spec(v@),
{
    match parse_i64(v) {
        Some(x) => {
            if x >= -2147483648i64 && x <= 2147483647i64 {
                Some(x as i32)
            } else {
                None
            }
        },
        None => {
            proof {
                match int_text_value(v@) {
                    Some(val) => {
                        assert(!(i64::MIN <= val <= i64::MAX));
                    },
                    None => {},
                }
            }
            None
        },
    }
}

fn mantissa_ok(v: &Vec<char>, a: usize, b: usize) -> (ok: bool)
    requires
        a <= b <= v@.len(),
    ensures
        ok == valid_mantissa(v@.subrange(a as int, b as int)),
{
    let ghost m = v@.subrange(a as int, b as int);
    let mut dots: usize = 0;
    let mut digits = false;
    let mut k = a;
    assert(m.take(0).len() == 0);
    while k < b
        invariant
            a <= k <= b,
            b <= v@.len(),
            m == v@.subrange(a as int, b as int),
            forall|i: int| 0 <= i < k - a ==> (is_digit(#[trigger] m[i]) || m[i] == '.'),
            dots == dot_count(m.take(k - a)),
            dots <= 1,
            digits == exists|i: int| 0 <= i < k - a && is_digit(#[trigger] m[i]),
        decreases b - k,
    {
        let c = v[k];
        assert(m[k - a] == c);
        assert(m.take(k + 1 - a).drop_last() == m.take(k - a));
        if c == '.' {
            if dots == 1 {
                proof {
                    lemma_dot_count_prefix(m, k + 1 - a);
                }
                return false;
            }
            dots = dots + 1;
        } else if '0' <= c && c <= '9' {
            digits = true;
        } else {
            return false;
        }
        k = k + 1;
    }
    assert(m.take(b - a) == m);
    digits
}

/// A prefix has no more dots than the whole text.
pub proof fn lemma_dot_count_prefix(s: Seq<char>, k: int)
    requires
        0 <= k <= s.len(),
    ensures
        dot_count(s.take(k)) <= dot_count(s),
    decreases s.len(),
{
    if k < s.len() {
        assert(s.drop_last().take(k) == s.take(k));
        lemma_dot_count_prefix(s.drop_last(), k);
    } else {
        assert(s.take(k) == s);
    }
}

fn exponent_ok(v: &Vec<char>, a: usize) -> (ok: bool)
    requires
        a <= v@.len(),
    ensures
        ok == valid_exponent(v@.skip(a as int)),
{
    let ghost e = v@.skip(a as int);
    if a == v.len() {
        return false;
    }
    assert(e[0] == v@[a as int]);
    if v[a] == '+' || v[a] == '-' {
        assert(e.skip(1) == v@.skip(a + 1));
        a + 1 < v.len() && all_digits_from(v, a + 1)
    } else {
        all_digits_from(v, a)
    }
}

/// Whether `str::parse::<f64>` accepts the text.
pub fn is_float(v: &Vec<char>) -> (b: bool)
    ensures
        b == is_float_text(v@),
{
    let start: usize = if v.len() > 0 && (v[0] == '+' || v[0] == '-') {
        1
    } else {
        0
    };
    let ghost body = v@.skip(start as int);
    assert(v@.skip(0) == v@);
    let mut lower: Vec<char> = Vec::new();
    let mut k = start;
    while k < v.len()
        invariant
            start <= k <= v@.len(),
            body == v@.skip(start as int),
            lower@ == body.take(k - start).map_values(|c: char| ascii_lower(c)),
        decreases v.len() - k,
    {
        lower.push(char_ascii_lower(v[k]));
        k = k + 1;
        assert(body.take(k - start) == body.take(k - 1 - start).push(body[k - 1 - start]));
        assert(body.take(k - start).map_values(|c: char| ascii_lower(c)) == body.take(
            k - 1 - start,
        ).map_values(|c: char| ascii_lower(c)).push(ascii_lower(body[k - 1 - start])));
    }
    assert(body.take(v.len() - start) == body);
    if word_is(&lower, "inf") || word_is(&lower, "infinity") || word_is(&lower, "nan") {
        return true;
    }
    let mut e = start;
    while e < v.len() && v[e] != 'e' && v[e] != 'E'
        invariant
            start <= e <= v@.len(),
            body == v@.skip(start as int),
            first_exp(body.take(e - start)) is None,
        decreases v.len() - e,
    {
        assert(body.take(e + 1 - start).drop_last() == body.take(e - start));
        e = e + 1;
    }
    if e < v.len() {
        assert(body.take(e + 1 - start).drop_last() == body.take(e - start));
        proof {
            lemma_first_exp_extend(body, e + 1 - start);
        }
        assert(body.take(e - start) == v@.subrange(start as int, e as int));
        assert(body.skip(e - start + 1) == v@.skip(e + 1));
        mantissa_ok(v, start, e) && exponent_ok(v, e + 1)
    } else {
        assert(body.take(e - start) == body);
        assert(body == v@.subrange(start as int, v@.len() as int));
        mantissa_ok(v, start, e)
    }
}

/// Once a prefix has an exponent marker, so has the whole text, at the same place.
pub proof fn lemma_first_exp_extend(s: Seq<char>, k: int)
    requires
        0 <= k <= s.len(),
        first_exp(s.take(k)) is Some,
    ensures
        first_exp(s) == first_exp(s.take(k)),
    decreases s.len(),
{
    if k < s.len() {
        assert(s.drop_last().take(k) == s.take(k));
        lemma_first_exp_extend(s.drop_last(), k);
    } else {
        assert(s.take(k) == s);
    }
}

fn word_is(v: &Vec<char>, w: &str) -> (b: bool)
    ensures
        b == (v@ == w@),
{
    let wv = crate::text::chars_of(w);
    if v.len() != wv.len() {
        assert(v@.len() != w@.len());
        return false;
    }
    let mut i: usize = 0;
    while i < v.len()
        invariant
            v.len() == wv.len(),
            wv@ == w@,
            i <= v.len(),
            forall|j: int| 0 <= j < i ==> v@[j] == wv@[j],
        decreases v.len() - i,
    {
        if v[i] != wv[i] {
            assert(v@[i as int] != w@[i as int]);
            return false;
        }
        i = i + 1;
    }
    assert(v@ == wv@);
    true
}

/// The digits of a mantissa, without its '.'.
pub open spec fn mantissa_digits(m: Seq<char>) -> Seq<char>
    decreases m.len(),
{
    if m.len() == 0 {
        seq![]
    } else if m.last() == '.' {
        mantissa_digits(m.drop_last())
    } else {
        mantissa_digits(m.drop_last()).push(m.last())
    }
}

/// How many characters of a mantissa precede its '.' (all of them when
/// it has none).
pub open spec fn point_position(m: Seq<char>) -> int
    decreases m.len(),
{
    if m.len() == 0 {
        0
    } else if dot_count(m.drop_last()) > 0 {
        point_position(m.drop_last())
    } else if m.last() == '.' {
        m.len() - 1
    } else {
        m.len() as int
    }
}

/// `v` times ten to the power `z`.
pub open spec fn times_ten(v: int, z: nat) -> int
    decreases z,
{
    if z == 0 {
        v
    } else {
        times_ten(v, (z - 1) as nat) * 10
    }
}

/// The whole part of the number whose digits are `ds` with the decimal
/// point after the first `shift` of them (zeros appended as needed).
pub open spec fn shifted_floor(ds: Seq<char>, shift: int) -> int {
    if shift <= 0 {
        0
    } else if shift <= ds.len() {
        digits_value(ds.take(shift))
    } else {
        times_ten(digits_value(ds), (shift - ds.len()) as nat)
    }
}

/// The signed value of an exponent text.
pub open spec fn exponent_value(e: Seq<char>) -> int {
    match int_text_value(e) {
        Some(v) => v,
        None => 0,
    }
}

/// `b` to the power `n`.
pub open spec fn power(b: int, n: nat) -> int
    decreases n,
{
    if n == 0 {
        1
    } else {
        power(b, (n - 1) as nat) * b
    }
}

/// The exponent of the highest power of two not above `x` (0 below 2).
pub open spec fn floor_log2(x: int) -> nat
    decreases x,
{
    if x < 2 {
        0
    } else {
        1 + floor_log2(x / 2)
    }
}

/// The `j`-th digit after the decimal point (from 0) of the number whose
/// digits are `ds` with the point after the first `shift` of them.
pub open spec fn frac_digit(ds: Seq<char>, shift: int, j: int) -> int {
    if 0 <= shift + j < ds.len() {
        digit_value(ds[shift + j])
    } else {
        0
    }
}

/// The first `m` digits after the decimal point, as a number.
pub open spec fn frac_prefix(ds: Seq<char>, shift: int, m: nat) -> int
    decreases m,
{
    if m == 0 {
        0
    } else {
        frac_prefix(ds, shift, (m - 1) as nat) * 10 + frac_digit(ds, shift, m - 1)
    }
}

/// The nines' complement of the first `m` digits after the decimal point.
pub open spec fn comp_prefix(ds: Seq<char>, shift: int, m: nat) -> int
    decreases m,
{
    if m == 0 {
        0
    } else {
        comp_prefix(ds, shift, (m - 1) as nat) * 10 + (9 - frac_digit(ds, shift, m - 1))
    }
}

/// Some digit of `ds` at position `i` or later is not zero.
pub open spec fn nonzero_from(ds: Seq<char>, i: int) -> bool {
    exists|k: int| 0 <= k && i <= k < ds.len() && ds[k] != '0'
}

/// The whole part of the double (`f64`) nearest to the non-negative number
/// whose digits are `ds` with the point after the first `shift` of them,
/// ties going to the double with an even significand, as `str::parse::<f64>`
/// rounds. With `k` its exact whole part:
/// - from 2^53 on, doubles are the multiples of `g` = 2^(e-52) in the
///   binade [2^e, 2^(e+1)) of `k`; the number rounds to the nearer of the
///   two around it (up when past the midpoint, or at it with an odd
///   quotient);
/// - below 2^53, it rounds up to `k + 1` exactly when it lies above the
///   midpoint between `k + 1` and the double just below it, or on it and
///   `k + 1` has the even significand. That midpoint is `k + 1 - 2^-m`,
///   with `m` = 54 - e when `k + 1` = 2^e and 53 - e otherwise, so the
///   test compares the fraction with (10^m - 5^m) / 10^m.
pub open spec fn f64_floor(ds: Seq<char>, shift: int) -> int {
    let k = shifted_floor(ds, shift);
    if k >= power(2, 53) {
        let g = power(2, (floor_log2(k) - 52) as nat);
        let q = k / g;
        let a = 2 * (k % g);
        if a > g || (a == g && (nonzero_from(ds, shift) || q % 2 == 1)) {
            (q + 1) * g
        } else {
            q * g
        }
    } else {
        let x = k + 1;
        let e = floor_log2(x);
        let m: nat = if x == power(2, e) {
            (54 - e) as nat
        } else {
            (53 - e) as nat
        };
        let p = frac_prefix(ds, shift, m);
        let t = power(10, m) - power(5, m);
        let x_wins = !(e == 52 && x != power(2, e) && x % 2 == 1);
        if p > t || (p == t && (nonzero_from(ds, shift + m) || x_wins)) {
            x
        } else {
            k
        }
    }
}

/// The whole part of the double nearest to an unsigned decimal number text
/// (see `f64_floor`).
pub open spec fn decimal_f64_floor(body: Seq<char>) -> int {
    match first_exp(body) {
        Some(i) => f64_floor(
            mantissa_digits(body.take(i)),
            point_position(body.take(i)) + exponent_value(body.skip(i + 1)),
        ),
        None => f64_floor(mantissa_digits(body), point_position(body)),
    }
}

/// What reading a text as a floating-point number (`str::parse::<f64>`,
/// 0.0 when refused) and casting it to an unsigned integer type whose
/// largest value is `cap` gives: NaN and negative numbers give 0, infinity
/// and numbers beyond `cap` give `cap`, others the whole part of the
/// double nearest to them.
pub open spec fn float_floor_sat(s: Seq<char>, cap: int) -> int {
    let neg = s.len() > 0 && s[0] == '-';
    let body = if s.len() > 0 && (s[0] == '+' || s[0] == '-') {
        s.skip(1)
    } else {
        s
    };
    let lower = body.map_values(|c: char| ascii_lower(c));
    if !is_float_text(s) || lower == "nan"@ {
        0
    } else if lower == "inf"@ || lower == "infinity"@ {
        if neg {
            0
        } else {
            cap
        }
    } else if neg {
        0
    } else if decimal_f64_floor(body) < cap {
        decimal_f64_floor(body)
    } else {
        cap
    }
}

/// Powers of a base of at least 1 grow with the exponent.
pub proof fn lemma_power_mono(b: int, i: nat, n: nat)
    requires
        b >= 1,
        i <= n,
    ensures
        1 <= power(b, i) <= power(b, n),
    decreases n,
{
    if n > i {
        lemma_power_mono(b, i, (n - 1) as nat);
        assert(power(b, (n - 1) as nat) * b >= power(b, (n - 1) as nat)) by (nonlinear_arith)
            requires
                b >= 1,
                power(b, (n - 1) as nat) >= 1,
        ;
    } else if n > 0 {
        lemma_power_mono(b, 0, (n - 1) as nat);
        assert(power(b, (n - 1) as nat) * b >= 1) by (nonlinear_arith)
            requires
                b >= 1,
                power(b, (n - 1) as nat) >= 1,
        ;
    }
}

/// Exponents add.
pub proof fn lemma_power_add(b: int, i: nat, j: nat)
    ensures
        power(b, i + j) == power(b, i) * power(b, j),
    decreases j,
{
    if j > 0 {
        lemma_power_add(b, i, (j - 1) as nat);
        assert(power(b, i + j) == power(b, (i + j - 1) as nat) * b);
        assert(power(b, i) * power(b, (j - 1) as nat) * b == power(b, i) * (power(b, (j - 1) as nat) * b))
            by (nonlinear_arith);
    }
}

/// `x` lies in the binade of its `floor_log2`.
pub proof fn lemma_floor_log2_bounds(x: int)
    requires
        x >= 1,
    ensures
        power(2, floor_log2(x)) <= x < power(2, floor_log2(x) + 1),
    decreases x,
{
    if x >= 2 {
        lemma_floor_log2_bounds(x / 2);
        let e = floor_log2(x / 2);
        assert(floor_log2(x) == e + 1);
        assert(power(2, e + 1) == power(2, e) * 2);
        assert(power(2, e + 2) == power(2, e + 1) * 2);
        assert(x >= 2 * (x / 2) && x <= 2 * (x / 2) + 1);
    } else {
        assert(power(2, 0) == 1);
        assert(power(2, 1) == power(2, 0) * 2);
    }
}

/// The first `m` digits after the point and their complement add up to
/// 10^m - 1.
pub proof fn lemma_frac_comp(ds: Seq<char>, shift: int, m: nat)
    requires
        all_digits(ds),
    ensures
        frac_prefix(ds, shift, m) + comp_prefix(ds, shift, m) == power(10, m) - 1,
        frac_prefix(ds, shift, m) >= 0,
        comp_prefix(ds, shift, m) >= 0,
    decreases m,
{
    if m > 0 {
        lemma_frac_comp(ds, shift, (m - 1) as nat);
        let j = m - 1;
        if 0 <= shift + j < ds.len() {
            assert(is_digit(ds[shift + j]));
        }
        assert(0 <= frac_digit(ds, shift, j) <= 9);
    }
}

/// Digits after the point that are all zero make a zero prefix.
pub proof fn lemma_frac_zero(ds: Seq<char>, shift: int, m: nat)
    requires
        forall|j: int| 0 <= j < m ==> #[trigger] frac_digit(ds, shift, j) == 0,
    ensures
        frac_prefix(ds, shift, m) == 0,
    decreases m,
{
    if m > 0 {
        lemma_frac_zero(ds, shift, (m - 1) as nat);
        assert(frac_digit(ds, shift, m - 1) == 0);
    }
}

/// The powers the rounding uses.
pub proof fn lemma_power_values()
    ensures
        power(2, 11) == 2048,
        power(2, 52) == 4503599627370496,
        power(2, 53) == 9007199254740992,
        power(2, 63) == 9223372036854775808,
        power(2, 64) == 18446744073709551616,
        power(5, 54) == 55511151231257827021181583404541015625,
        power(10, 54) == 1000000000000000000000000000000000000000000000000000000,
{
    assert(power(2, 11) == 2048) by {
        reveal_with_fuel(power, 12);
    }
    assert(power(2, 52) == 4503599627370496) by {
        reveal_with_fuel(power, 53);
    }
    assert(power(2, 53) == power(2, 52) * 2);
    lemma_power_add(2, 52, 11);
    assert(power(2, 63) == 4503599627370496 * 2048);
    assert(power(2, 64) == power(2, 63) * 2);
    assert(power(5, 54) == 55511151231257827021181583404541015625) by {
        reveal_with_fuel(power, 55);
    }
    assert(power(10, 54) == 1000000000000000000000000000000000000000000000000000000) by {
        reveal_with_fuel(power, 55);
    }
}

/// When the fraction of a number under 1 starts with 54 zero digits, its
/// nearest double is below 1.
pub proof fn lemma_f64_floor_small(ds: Seq<char>, shift: int)
    requires
        all_digits(ds),
        shifted_floor(ds, shift) == 0,
        forall|j: int| 0 <= j < 54 ==> #[trigger] frac_digit(ds, shift, j) == 0,
    ensures
        f64_floor(ds, shift) == 0,
{
    lemma_power_values();
    assert(floor_log2(1) == 0);
    assert(power(2, 0) == 1);
    lemma_frac_zero(ds, shift, 54);
}

/// A number of at least 2^64 - 1 has a nearest double of at least 2^64 - 1.
pub proof fn lemma_f64_floor_big(ds: Seq<char>, shift: int)
    requires
        shifted_floor(ds, shift) >= 18446744073709551615,
    ensures
        f64_floor(ds, shift) >= 18446744073709551615,
{
    let k = shifted_floor(ds, shift);
    lemma_power_values();
    lemma_floor_log2_bounds(k);
    let e = floor_log2(k);
    if e < 63 {
        lemma_power_mono(2, e + 1, 63);
    }
    assert(e >= 63);
    let g = power(2, (e - 52) as nat);
    lemma_power_add(2, 52, (e - 52) as nat);
    assert(power(2, e) == power(2, 52) * g);
    lemma_power_mono(2, 0, (e - 52) as nat);
    let q = k / g;
    if e >= 64 {
        lemma_power_mono(2, 64, e);
        assert(q * g >= power(2, 52) * g) by (nonlinear_arith)
            requires
                g >= 1,
                k >= power(2, 52) * g,
                q == k / g,
        ;
        assert((q + 1) * g >= q * g) by (nonlinear_arith)
            requires
                g >= 1,
        ;
    } else {
        assert(e == 63);
        assert(g == 2048) by {
            lemma_power_add(2, 52, 11);
        }
        assert(k == 18446744073709551615);
        assert(k / 2048 == 9007199254740991);
        assert(k % 2048 == 2047);
    }
}

/// Ten-fold steps keep a non-negative value non-negative.
pub proof fn lemma_times_ten_nonneg(v: int, z: nat)
    requires
        v >= 0,
    ensures
        times_ten(v, z) >= 0,
    decreases z,
{
    if z > 0 {
        lemma_times_ten_nonneg(v, (z - 1) as nat);
    }
}

/// Zero stays zero.
pub proof fn lemma_times_ten_zero(z: nat)
    ensures
        times_ten(0, z) == 0,
    decreases z,
{
    if z > 0 {
        lemma_times_ten_zero((z - 1) as nat);
    }
}

/// A positive value shifted by twenty or more places exceeds 10^20.
pub proof fn lemma_times_ten_large(v: int, z: nat)
    requires
        v >= 1,
        z >= 20,
    ensures
        times_ten(v, z) >= 100000000000000000000,
    decreases z,
{
    if z == 20 {
        lemma_times_ten_at_least(v, 20);
        assert(times_ten(1, 20) == 100000000000000000000) by {
            reveal_with_fuel(times_ten, 21);
        }
    } else {
        lemma_times_ten_large(v, (z - 1) as nat);
    }
}

/// Shifting a value of at least 1 gives at least the shifted 1.
pub proof fn lemma_times_ten_at_least(v: int, z: nat)
    requires
        v >= 1,
    ensures
        times_ten(v, z) >= times_ten(1, z),
    decreases z,
{
    if z > 0 {
        lemma_times_ten_at_least(v, (z - 1) as nat);
    }
}

/// A digit string with a non-zero digit has a value of at least 1; one
/// without has the value 0.
pub proof fn lemma_digits_value_zero(s: Seq<char>)
    requires
        all_digits(s),
    ensures
        (exists|i: int| 0 <= i < s.len() && s[i] != '0') ==> digits_value(s) >= 1,
        (forall|i: int| 0 <= i < s.len() ==> s[i] == '0') ==> digits_value(s) == 0,
    decreases s.len(),
{
    if s.len() > 0 {
        let p = s.drop_last();
        lemma_digits_value_zero(p);
        lemma_digits_value_nonneg(p);
        if exists|i: int| 0 <= i < p.len() && p[i] != '0' {
        } else if exists|i: int| 0 <= i < s.len() && s[i] != '0' {
            let i = choose|i: int| 0 <= i < s.len() && s[i] != '0';
            if i < p.len() {
                assert(p[i] != '0');
            }
        }
        if forall|i: int| 0 <= i < s.len() ==> s[i] == '0' {
            assert forall|i: int| 0 <= i < p.len() implies p[i] == '0' by {
                assert(s[i] == '0');
            }
            assert(s[s.len() - 1] == '0');
        }
    }
}

fn digits_sat(ds: &Vec<char>, k: usize, c1: u128) -> (r: u128)
    requires
        all_digits(ds@),
        k <= ds@.len(),
        1 <= c1 <= 0x1_0000_0000_0000_0000,
    ensures
        r == (if digits_value(ds@.take(k as int)) < c1 {
            digits_value(ds@.take(k as int))
        } else {
            c1 as int
        }),
{
    let mut acc: u128 = 0;
    let mut j: usize = 0;
    assert(ds@.take(0).len() == 0);
    while j < k
        invariant
            all_digits(ds@),
            j <= k <= ds@.len(),
            1 <= c1 <= 0x1_0000_0000_0000_0000,
            acc == (if digits_value(ds@.take(j as int)) < c1 {
                digits_value(ds@.take(j as int))
            } else {
                c1 as int
            }),
        decreases k - j,
    {
        assert(ds@.take(j + 1).drop_last() == ds@.take(j as int));
        assert(ds@.take(j + 1).last() == ds@[j as int]);
        proof {
            lemma_digits_value_nonneg(ds@.take(j as int));
            assert(is_digit(ds@[j as int]));
        }
        let d = (ds[j] as u32 - 48) as u128;
        let next = acc * 10 + d;
        acc = if next < c1 {
            next
        } else {
            c1
        };
        j = j + 1;
    }
    acc
}

fn any_nonzero(ds: &Vec<char>) -> (b: bool)
    ensures
        b == exists|i: int| 0 <= i < ds@.len() && ds@[i] != '0',
{
    let mut i: usize = 0;
    while i < ds.len()
        invariant
            i <= ds@.len(),
            forall|j: int| 0 <= j < i ==> ds@[j] == '0',
        decreases ds@.len() - i,
    {
        if ds[i] != '0' {
            return true;
        }
        i = i + 1;
    }
    false
}

/// `shifted_floor(ds, shift)` capped at `cap`, for a shift of at most
/// 20 places past the digits.
fn shifted_sat(ds: &Vec<char>, shift: u128, cap: u64) -> (r: u64)
    requires
        all_digits(ds@),
        shift <= ds@.len() + 20,
    ensures
        r == (if shifted_floor(ds@, shift as int) < cap {
            shifted_floor(ds@, shift as int)
        } else {
            cap as int
        }),
{
    let c1: u128 = cap as u128 + 1;
    let len = ds.len() as u128;
    if shift == 0 {
        return 0;
    }
    if shift <= len {
        let acc = digits_sat(ds, shift as usize, c1);
        return if acc < cap as u128 {
            acc as u64
        } else {
            cap
        };
    }
    let mut acc = digits_sat(ds, ds.len(), c1);
    assert(ds@.take(ds@.len() as int) == ds@);
    let ghost dv = digits_value(ds@);
    proof {
        lemma_digits_value_nonneg(ds@);
    }
    let z = shift - len;
    let mut j: u128 = 0;
    while j < z
        invariant
            j <= z,
            z <= 20,
            dv >= 0,
            1 <= c1 <= 0x1_0000_0000_0000_0000,
            acc == (if times_ten(dv, j as nat) < c1 {
                times_ten(dv, j as nat)
            } else {
                c1 as int
            }),
        decreases z - j,
    {
        proof {
            lemma_times_ten_nonneg(dv, j as nat);
            assert(times_ten(dv, (j + 1) as nat) == times_ten(dv, j as nat) * 10);
        }
        let next = acc * 10;
        acc = if next < c1 {
            next
        } else {
            c1
        };
        j = j + 1;
    }
    if acc < cap as u128 {
        acc as u64
    } else {
        cap
    }
}

fn floor_log2_of(x: u128) -> (e: u32)
    requires
        1 <= x <= 18446744073709551616,
    ensures
        e == floor_log2(x as int),
        e <= 64,
{
    proof {
        lemma_power_values();
        lemma_floor_log2_bounds(x as int);
        if floor_log2(x as int) > 64 {
            lemma_power_mono(2, 65, floor_log2(x as int));
            assert(power(2, 65) == power(2, 64) * 2);
        }
    }
    let mut y = x;
    let mut e: u32 = 0;
    while y >= 2
        invariant
            y >= 1,
            e + floor_log2(y as int) == floor_log2(x as int),
            floor_log2(x as int) <= 64,
        decreases y,
    {
        assert(floor_log2(y as int) == 1 + floor_log2((y / 2) as int));
        y = y / 2;
        e = e + 1;
    }
    e
}

/// `b` to the power `n`, when it is at most `limit`.
fn small_power(b: u128, n: u32, limit: u128) -> (r: u128)
    requires
        b >= 1,
        power(b as int, n as nat) <= limit,
    ensures
        r == power(b as int, n as nat),
{
    let mut r: u128 = 1;
    let mut i: u32 = 0;
    while i < n
        invariant
            i <= n,
            b >= 1,
            r == power(b as int, i as nat),
            power(b as int, n as nat) <= limit,
        decreases n - i,
    {
        proof {
            lemma_power_mono(b as int, (i + 1) as nat, n as nat);
        }
        r = r * b;
        i = i + 1;
    }
    r
}

/// Whether some digit from position `i` on (from 0 when `i` is negative)
/// is not zero.
fn nonzero_from_exec(ds: &Vec<char>, i: i128) -> (b: bool)
    ensures
        b == nonzero_from(ds@, i as int),
{
    if i >= ds.len() as i128 {
        return false;
    }
    let mut k: usize = if i < 0 {
        0
    } else {
        i as usize
    };
    let start = k;
    while k < ds.len()
        invariant
            start <= k <= ds@.len(),
            start as int == (if i < 0 { 0 } else { i as int }),
            forall|j: int| start <= j < k ==> ds@[j] == '0',
        decreases ds@.len() - k,
    {
        if ds[k] != '0' {
            return true;
        }
        k = k + 1;
    }
    false
}

/// The complement of the first `m` digits after the point, capped at `bound`.
fn comp_prefix_sat(ds: &Vec<char>, shift: i128, m: u32, bound: u128) -> (r: u128)
    requires
        all_digits(ds@),
        -0x1_0000_0000_0000_0000_0000 < shift < 0x1_0000_0000_0000_0000_0000,
        m <= 64,
        bound < 0x8000_0000_0000_0000_0000_0000_0000_0000,
    ensures
        r == (if comp_prefix(ds@, shift as int, m as nat) < bound {
            comp_prefix(ds@, shift as int, m as nat)
        } else {
            bound as int
        }),
{
    let mut c: u128 = 0;
    let mut j: u32 = 0;
    while j < m
        invariant
            j <= m <= 64,
            all_digits(ds@),
            -0x1_0000_0000_0000_0000_0000 < shift < 0x1_0000_0000_0000_0000_0000,
            bound < 0x8000_0000_0000_0000_0000_0000_0000_0000,
            comp_prefix(ds@, shift as int, j as nat) >= 0,
            c == (if comp_prefix(ds@, shift as int, j as nat) < bound {
                comp_prefix(ds@, shift as int, j as nat)
            } else {
                bound as int
            }),
        decreases m - j,
    {
        let idx: i128 = shift + j as i128;
        let d: u128 = if 0 <= idx && idx < ds.len() as i128 {
            proof {
                assert(is_digit(ds@[idx as int]));
            }
            (ds[idx as usize] as u32 - 48) as u128
        } else {
            0
        };
        assert(d as int == frac_digit(ds@, shift as int, j as int));
        assert(0 <= d <= 9);
        let ghost cp = comp_prefix(ds@, shift as int, j as nat);
        assert(comp_prefix(ds@, shift as int, (j + 1) as nat) == cp * 10 + (9 - d));
        if c > bound / 10 {
            assert(cp * 10 + (9 - d) >= bound) by (nonlinear_arith)
                requires
                    cp >= c,
                    c > bound / 10,
                    d <= 9,
            ;
            c = bound;
        } else {
            let next = c * 10 + (9 - d);
            if c < bound {
                assert(cp == c);
            } else {
                assert(cp * 10 + (9 - d) >= bound) by (nonlinear_arith)
                    requires
                        cp >= bound,
                        d <= 9,
                ;
            }
            c = if next < bound {
                next
            } else {
                bound
            };
        }
        j = j + 1;
    }
    c
}

/// The whole part of the double nearest to the number whose digits are
/// `ds` with the point after the first `shift`, capped at `cap`, given its
/// exact whole part `k` capped at `u64::MAX`.
fn round_sat(ds: &Vec<char>, shift: i128, k: u64, cap: u64) -> (r: u64)
    requires
        all_digits(ds@),
        -0x1_0000_0000_0000_0000_0000 < shift < 0x1_0000_0000_0000_0000_0000,
        k == (if shifted_floor(ds@, shift as int) < u64::MAX {
            shifted_floor(ds@, shift as int)
        } else {
            u64::MAX as int
        }),
    ensures
        r == (if f64_floor(ds@, shift as int) < cap {
            f64_floor(ds@, shift as int)
        } else {
            cap as int
        }),
{
    proof {
        lemma_power_values();
    }
    let ghost kk = shifted_floor(ds@, shift as int);
    if k == u64::MAX {
        proof {
            lemma_f64_floor_big(ds@, shift as int);
        }
        return cap;
    }
    assert(kk == k);
    if k >= 9007199254740992 {
        let e = floor_log2_of(k as u128);
        proof {
            lemma_floor_log2_bounds(k as int);
            if e < 53 {
                lemma_power_mono(2, (e + 1) as nat, 53);
            }
            if e >= 64 {
                lemma_power_mono(2, 64, e as nat);
            }
            lemma_power_mono(2, (e - 52) as nat, 11);
        }
        let g = small_power(2, e - 52, 2048);
        let q = k as u128 / g;
        let a = 2 * (k as u128 % g);
        let nz = nonzero_from_exec(ds, shift);
        let up = a > g || (a == g && (nz || q % 2 == 1));
        assert(q <= k);
        assert((q + 1) * g <= 18446744073709551616 * 2048 && q * g <= (q + 1) * g) by (nonlinear_arith)
            requires
                q <= k,
                k < 18446744073709551616,
                1 <= g <= 2048,
        ;
        let big = if up {
            (q + 1) * g
        } else {
            q * g
        };
        if big < cap as u128 {
            big as u64
        } else {
            cap
        }
    } else {
        let x = k as u128 + 1;
        let e = floor_log2_of(x);
        proof {
            lemma_floor_log2_bounds(x as int);
            if e > 53 {
                lemma_power_mono(2, 54, e as nat);
            }
        }
        let p2 = small_power(2, e, 9007199254740992);
        let is_pow = x == p2;
        if !is_pow && e == 53 {
            assert(false);
        }
        let m: u32 = if is_pow {
            54 - e
        } else {
            53 - e
        };
        proof {
            lemma_power_mono(5, m as nat, 54);
            lemma_frac_comp(ds@, shift as int, m as nat);
            lemma_power_mono(5, 0, m as nat);
        }
        let five = small_power(5, m, 55511151231257827021181583404541015625);
        let c = comp_prefix_sat(ds, shift, m, five);
        let rest = nonzero_from_exec(ds, shift + m as i128);
        let x_wins = !(e == 52 && !is_pow && x % 2 == 1);
        let up = c + 1 < five || (c + 1 == five && (rest || x_wins));
        let big = if up {
            x
        } else {
            k as u128
        };
        if big < cap as u128 {
            big as u64
        } else {
            cap
        }
    }
}

fn lower_from(v: &Vec<char>, start: usize) -> (lower: Vec<char>)
    requires
        start <= v@.len(),
    ensures
        lower@ == v@.skip(start as int).map_values(|c: char| ascii_lower(c)),
{
    let n = v.len();
    let ghost body = v@.skip(start as int);
    let mut lower: Vec<char> = Vec::new();
    let mut k = start;
    while k < n
        invariant
            start <= k <= n,
            n == v@.len(),
            body == v@.skip(start as int),
            lower@ == body.take(k - start).map_values(|c: char| ascii_lower(c)),
        decreases n - k,
    {
        lower.push(char_ascii_lower(v[k]));
        k = k + 1;
        assert(body.take(k - start) == body.take(k - 1 - start).push(body[k - 1 - start]));
        assert(body.take(k - start).map_values(|c: char| ascii_lower(c)) == body.take(
            k - 1 - start,
        ).map_values(|c: char| ascii_lower(c)).push(ascii_lower(body[k - 1 - start])));
    }
    assert(body.take(n - start) == body);
    lower
}

fn exp_marker(v: &Vec<char>, start: usize) -> (e: usize)
    requires
        start <= v@.len(),
    ensures
        start <= e <= v@.len(),
        e < v@.len() ==> first_exp(v@.skip(start as int)) == Some(e - start),
        e == v@.len() ==> first_exp(v@.skip(start as int)) is None,
{
    let n = v.len();
    let ghost body = v@.skip(start as int);
    let mut e = start;
    while e < n && v[e] != 'e' && v[e] != 'E'
        invariant
            start <= e <= n,
            n == v@.len(),
            body == v@.skip(start as int),
            first_exp(body.take(e - start)) is None,
        decreases n - e,
    {
        assert(body.take(e + 1 - start).drop_last() == body.take(e - start));
        e = e + 1;
    }
    if e < n {
        assert(body.take(e + 1 - start).drop_last() == body.take(e - start));
        proof {
            lemma_first_exp_extend(body, e + 1 - start);
        }
    } else {
        assert(body.take(e - start) == body);
    }
    e
}

fn mantissa_parts(v: &Vec<char>, start: usize, e: usize) -> (r: (Vec<char>, usize))
    requires
        start <= e <= v@.len(),
        valid_mantissa(v@.subrange(start as int, e as int)),
    ensures
        r.0@ == mantissa_digits(v@.subrange(start as int, e as int)),
        r.1 == point_position(v@.subrange(start as int, e as int)),
        all_digits(r.0@),
        r.1 <= r.0@.len(),
        r.0@.len() <= e - start,
{
    let ghost m = v@.subrange(start as int, e as int);
    let mut ds: Vec<char> = Vec::new();
    let mut p: usize = 0;
    let mut seen_dot = false;
    let mut j = start;
    assert(m.take(0).len() == 0);
    while j < e
        invariant
            start <= j <= e <= v@.len(),
            m == v@.subrange(start as int, e as int),
            ds@ == mantissa_digits(m.take(j - start)),
            p == point_position(m.take(j - start)),
            seen_dot == (dot_count(m.take(j - start)) > 0),
            p <= j - start,
        decreases e - j,
    {
        assert(m.take(j + 1 - start).drop_last() == m.take(j - start));
        assert(m.take(j + 1 - start).last() == v@[j as int]);
        let c = v[j];
        if c == '.' {
            if !seen_dot {
                p = j - start;
            }
            seen_dot = true;
        } else {
            ds.push(c);
            if !seen_dot {
                p = j + 1 - start;
            }
        }
        j = j + 1;
    }
    assert(m.take(e - start) == m);
    proof {
        lemma_mantissa_digits_all(m);
    }
    (ds, p)
}

/// The whole part of the double nearest to a valid unsigned decimal (from
/// `start` to the end of `v`, with its exponent marker at `e` or none when
/// `e` is the end), capped at `cap`.
fn decimal_sat(v: &Vec<char>, start: usize, e: usize, cap: u64) -> (r: u64)
    requires
        start <= e <= v@.len(),
        v@.len() < 0x1_0000_0000_0000,
        valid_mantissa(v@.subrange(start as int, e as int)),
        e < v@.len() ==> valid_exponent(v@.skip(e + 1)),
    ensures
        e == v@.len() ==> r == (if f64_floor(
            mantissa_digits(v@.subrange(start as int, e as int)),
            point_position(v@.subrange(start as int, e as int)),
        ) < cap {
            f64_floor(
                mantissa_digits(v@.subrange(start as int, e as int)),
                point_position(v@.subrange(start as int, e as int)),
            )
        } else {
            cap as int
        }),
        e < v@.len() ==> r == (if f64_floor(
            mantissa_digits(v@.subrange(start as int, e as int)),
            point_position(v@.subrange(start as int, e as int)) + exponent_value(v@.skip(e + 1)),
        ) < cap {
            f64_floor(
                mantissa_digits(v@.subrange(start as int, e as int)),
                point_position(v@.subrange(start as int, e as int)) + exponent_value(v@.skip(e + 1)),
            )
        } else {
            cap as int
        }),
{
    let n = v.len();
    let (ds, p) = mantissa_parts(v, start, e);
    let len = ds.len() as u128;
    let pp = p as u128;
    if e == n {
        let k = shifted_sat(&ds, pp, u64::MAX);
        return round_sat(&ds, pp as i128, k, cap);
    }
    let ghost et = v@.skip(e + 1);
    assert(et[0] == v@[e + 1]);
    let es: usize = if v[e + 1] == '+' || v[e + 1] == '-' {
        e + 2
    } else {
        e + 1
    };
    let e_neg = v[e + 1] == '-';
    assert(v@.skip(es as int) == (if es == e + 2 {
        et.skip(1)
    } else {
        et
    }));
    let ghost ev = exponent_value(et);
    let ghost shift = p + ev;
    match digits_value_bounded(v, es, u64::MAX) {
        Some(x) => {
            let x128 = x as u128;
            assert(ev == (if e_neg { -(x as int) } else { x as int }));
            if e_neg {
                if x128 >= pp {
                    assert(shifted_floor(ds@, shift) == 0);
                    return round_sat(&ds, pp as i128 - x128 as i128, 0, cap);
                }
                let k = shifted_sat(&ds, pp - x128, u64::MAX);
                return round_sat(&ds, (pp - x128) as i128, k, cap);
            } else {
                if pp + x128 < len + 21 {
                    let k = shifted_sat(&ds, pp + x128, u64::MAX);
                    return round_sat(&ds, (pp + x128) as i128, k, cap);
                }
                proof {
                    lemma_digits_value_zero(ds@);
                    assert(shift >= ds@.len() + 21);
                    if exists|i: int| 0 <= i < ds@.len() && ds@[i] != '0' {
                        lemma_times_ten_large(digits_value(ds@), (shift - ds@.len()) as nat);
                    } else {
                        lemma_times_ten_zero((shift - ds@.len()) as nat);
                    }
                }
                let k: u64 = if any_nonzero(&ds) {
                    u64::MAX
                } else {
                    0
                };
                return round_sat(&ds, (pp + x128) as i128, k, cap);
            }
        },
        None => {
            if e_neg {
                assert(ev < -(u64::MAX as int));
                proof {
                    assert forall|j: int| 0 <= j < 54 implies #[trigger] frac_digit(ds@, shift, j) == 0 by {}
                    lemma_f64_floor_small(ds@, shift);
                }
                return 0;
            }
            assert(ev > u64::MAX);
            proof {
                lemma_digits_value_zero(ds@);
                assert(shift >= ds@.len() + 21);
                if exists|i: int| 0 <= i < ds@.len() && ds@[i] != '0' {
                    lemma_times_ten_large(digits_value(ds@), (shift - ds@.len()) as nat);
                    lemma_f64_floor_big(ds@, shift);
                } else {
                    lemma_times_ten_zero((shift - ds@.len()) as nat);
                    assert forall|j: int| 0 <= j < 54 implies #[trigger] frac_digit(ds@, shift, j) == 0 by {}
                    lemma_f64_floor_small(ds@, shift);
                }
            }
            if any_nonzero(&ds) {
                cap
            } else {
                0
            }
        },
    }
}

/// Reads a (trimmed) text as `str::parse::<f64>` does (0.0 when it is
/// refused) and casts the number to an unsigned integer type whose largest
/// value is `cap`, rounding the decimal text to the nearest double as
/// `str::parse::<f64>` does (see `float_floor_sat`).
pub fn float_text_floor(v: &Vec<char>, cap: u64) -> (r: u64)
    requires
        v@.len() < 0x1_0000_0000_0000,
    ensures
        r == float_floor_sat(v@, cap as int),
{
    if !is_float(v) {
        return 0;
    }
    let n = v.len();
    let neg = n > 0 && v[0] == '-';
    let start: usize = if n > 0 && (v[0] == '+' || v[0] == '-') {
        1
    } else {
        0
    };
    assert(v@.skip(0) == v@);
    let lower = lower_from(v, start);
    if word_is(&lower, "nan") {
        return 0;
    }
    if word_is(&lower, "inf") || word_is(&lower, "infinity") {
        return if neg {
            0
        } else {
            cap
        };
    }
    if neg {
        return 0;
    }
    let e = exp_marker(v, start);
    let ghost body = v@.skip(start as int);
    if e < n {
        assert(body.take(e - start) == v@.subrange(start as int, e as int));
        assert(body.skip(e - start + 1) == v@.skip(e + 1));
    } else {
        assert(body == v@.subrange(start as int, e as int));
    }
    decimal_sat(v, start, e, cap)
}

/// The digits of a valid mantissa are digits, and its point comes no
/// later than its digits run out.
pub proof fn lemma_mantissa_digits_all(m: Seq<char>)
    requires
        forall|i: int| 0 <= i < m.len() ==> (is_digit(#[trigger] m[i]) || m[i] == '.'),
    ensures
        all_digits(mantissa_digits(m)),
        point_position(m) <= mantissa_digits(m).len(),
        mantissa_digits(m).len() <= m.len(),
    decreases m.len(),
{
    if m.len() > 0 {
        let p = m.drop_last();
        assert forall|i: int| 0 <= i < p.len() implies (is_digit(#[trigger] p[i]) || p[i] == '.') by {
            assert(p[i] == m[i]);
        }
        lemma_mantissa_digits_all(p);
        lemma_point_position_le(p);
        if m.last() != '.' {
            assert(is_digit(m[m.len() - 1]));
            let d = mantissa_digits(p);
            assert forall|i: int| 0 <= i < d.push(m.last()).len() implies is_digit(
                #[trigger] d.push(m.last())[i],
            ) by {
                if i < d.len() {
                    assert(is_digit(d[i]));
                }
            }
        }
        lemma_point_digits(m);
    }
}

/// The point position is at most the length.
pub proof fn lemma_point_position_le(m: Seq<char>)
    ensures
        0 <= point_position(m) <= m.len(),
    decreases m.len(),
{
    if m.len() > 0 {
        lemma_point_position_le(m.drop_last());
    }
}

/// Before the point there are only digits: the point position counts
/// digits of the mantissa.
pub proof fn lemma_point_digits(m: Seq<char>)
    requires
        forall|i: int| 0 <= i < m.len() ==> (is_digit(#[trigger] m[i]) || m[i] == '.'),
    ensures
        point_position(m) <= mantissa_digits(m).len(),
        dot_count(m) == 0 ==> point_position(m) == mantissa_digits(m).len(),
    decreases m.len(),
{
    if m.len() > 0 {
        let p = m.drop_last();
        assert forall|i: int| 0 <= i < p.len() implies (is_digit(#[trigger] p[i]) || p[i] == '.') by {
            assert(p[i] == m[i]);
        }
        lemma_point_digits(p);
    }
}

} // verus!
