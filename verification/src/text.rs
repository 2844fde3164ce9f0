//! Decimal rendering of integers and fixed-point values, and the model of
//! how a `u64` is rounded when it is converted to an `f64`.

use vstd::prelude::*;

verus! {

/// The character of a decimal digit `d < 10`.
pub open spec fn digit_char(d: nat) -> char {
    if d == 0 { '0' }
    else if d == 1 { '1' }
    else if d == 2 { '2' }
    else if d == 3 { '3' }
    else if d == 4 { '4' }
    else if d == 5 { '5' }
    else if d == 6 { '6' }
    else if d == 7 { '7' }
    else if d == 8 { '8' }
    else { '9' }
}

/// The decimal representation of `n`, without leading zeros (`"0"` for zero).
pub open spec fn decimal(n: nat) -> Seq<char>
    decreases n,
{
    if n < 10 {
        seq![digit_char(n)]
    } else {
        decimal(n / 10).push(digit_char(n % 10))
    }
}

/// `q / 10` written with one decimal: the integer part, a point, and the
/// last digit of `q`.
pub open spec fn fixed_one(q: nat) -> Seq<char> {
    decimal(q / 10).push('.').push(digit_char(q % 10))
}

/// `q / 100` written with two decimals.
pub open spec fn fixed_two(q: nat) -> Seq<char> {
    decimal(q / 100).push('.').push(digit_char((q / 10) % 10)).push(digit_char(q % 10))
}

/// `num / den` rounded to the nearest integer, ties to the even one.
pub open spec fn round_half_even(num: nat, den: nat) -> nat
    recommends
        den > 0,
{
    let q = num / den;
    let r = num % den;
    if 2 * r > den || (2 * r == den && q % 2 == 1) {
        q + 1
    } else {
        q
    }
}

/// Two to the power `e`.
pub open spec fn pow2_nat(e: nat) -> nat
    decreases e,
{
    if e == 0 { 1 } else { 2 * pow2_nat((e - 1) as nat) }
}

/// The largest integer below which every integer is an `f64` as it stands.
pub open spec fn f64_exact_limit() -> nat {
    9007199254740992
}

/// Rounding of `b` to the nearest `f64`, trying the spacing `2^e` first:
/// a value with more than 53 significant bits is rounded to a multiple of
/// `2^(bits - 53)`, ties to an even significand.
pub open spec fn nearest_f64_from(b: nat, e: nat) -> nat
    decreases 11 - e,
{
    if e >= 11 || b < f64_exact_limit() * pow2_nat(e) {
        round_half_even(b, pow2_nat(e)) * pow2_nat(e)
    } else {
        nearest_f64_from(b, e + 1)
    }
}

/// The value, as an integer, of the `f64` that `b as f64` gives for a `u64` `b`.
pub open spec fn nearest_f64(b: nat) -> nat {
    nearest_f64_from(b, 0)
}

/// Appends one character to a string.
#[verifier::external_body]
pub(crate) fn push_char(s: &mut String, c: char)
    ensures
        final(s)@ == old(s)@.push(c),
{
    s.push(c);
}

/// The digit character of `d`.
pub fn digit(d: u64) -> (c: char)
    requires
        d < 10,
    ensures
        c == digit_char(d as nat),
{
    if d == 0 { '0' }
    else if d == 1 { '1' }
    else if d == 2 { '2' }
    else if d == 3 { '3' }
    else if d == 4 { '4' }
    else if d == 5 { '5' }
    else if d == 6 { '6' }
    else if d == 7 { '7' }
    else if d == 8 { '8' }
    else { '9' }
}

/// Appends the decimal representation of `n`.
pub fn push_decimal(s: &mut String, n: u64)
    ensures
        final(s)@ == old(s)@ + decimal(n as nat),
    decreases n,
{
    if n >= 10 {
        push_decimal(s, n / 10);
    }
    push_char(s, digit(n % 10));
    proof {
        if n < 10 {
            assert(n % 10 == n);
        }
        assert(s@ =~= old(s)@ + decimal(n as nat));
    }
}


/// Appends `q / 10` with one decimal.
pub fn push_fixed_one(s: &mut String, q: u64)
    ensures
        final(s)@ == old(s)@ + fixed_one(q as nat),
{
    push_decimal(s, q / 10);
    push_char(s, '.');
    push_char(s, digit(q % 10));
    assert(s@ =~= old(s)@ + fixed_one(q as nat));
}

/// Appends `q / 100` with two decimals.
pub fn push_fixed_two(s: &mut String, q: u64)
    ensures
        final(s)@ == old(s)@ + fixed_two(q as nat),
{
    push_decimal(s, q / 100);
    push_char(s, '.');
    push_char(s, digit((q / 10) % 10));
    push_char(s, digit(q % 10));
    assert(s@ =~= old(s)@ + fixed_two(q as nat));
}

/// `num / den` rounded to the nearest integer, ties to even.
pub fn round_div_half_even(num: u128, den: u128) -> (res: u128)
    requires
        den > 0,
    ensures
        res == round_half_even(num as nat, den as nat),
        res <= num / den + 1,
{
    let q = num / den;
    let r = num % den;
    if r > den - r || (r == den - r && q % 2 == 1) {
        proof {
            assert(den >= 2);
            assert(q <= num / 2) by {
                vstd::arithmetic::div_mod::lemma_div_is_ordered_by_denominator(num as int, 2, den as int);
            }
        }
        q + 1
    } else {
        q
    }
}

proof fn lemma_pow2_nat_pos(e: nat)
    ensures
        pow2_nat(e) >= 1,
    decreases e,
{
    if e > 0 {
        lemma_pow2_nat_pos((e - 1) as nat);
    }
}

/// The value of `b as f64`, as an integer (it may be `2^64`).
pub fn nearest_f64_value(b: u64) -> (res: u128)
    ensures
        res == nearest_f64(b as nat),
        res <= 18446744073709551616,
{
    let mut e: u64 = 0;
    let mut p: u128 = 1;
    assert(pow2_nat(11) == 2048) by {
        reveal_with_fuel(pow2_nat, 12);
    }
    while e < 11 && (b as u128) >= 9007199254740992u128 * p
        invariant
            e <= 11,
            p == pow2_nat(e as nat),
            1 <= p <= 2048,
            p * pow2_nat((11 - e) as nat) == 2048,
            nearest_f64(b as nat) == nearest_f64_from(b as nat, e as nat),
        decreases 11 - e,
    {
        let ghost rest = pow2_nat((10 - e) as nat);
        proof {
            lemma_pow2_nat_pos((10 - e) as nat);
            assert(pow2_nat((11 - e) as nat) == 2 * rest);
            assert(p <= 1024 && (2 * p) * rest == 2048) by (nonlinear_arith)
                requires p * (2 * rest) == 2048, rest >= 1;
        }
        p = p * 2;
        e = e + 1;
    }
    proof {
        lemma_pow2_nat_pos((11 - e) as nat);
        assert(1 <= p <= 2048) by (nonlinear_arith)
            requires p * pow2_nat((11 - e) as nat) == 2048, pow2_nat((11 - e) as nat) >= 1;
        if e >= 11 {
            assert(p == 2048) by {
                reveal_with_fuel(pow2_nat, 12);
            }
        }
        assert(b < 9007199254740992 * p);
    }
    let r = round_div_half_even(b as u128, p);
    proof {
        let q = (b as u128) / p;
        assert(q < 9007199254740992) by (nonlinear_arith)
            requires q == (b as u128) / p, p >= 1, b < 9007199254740992 * p;
        assert(r * p <= 18446744073709551616) by (nonlinear_arith)
            requires r <= q + 1, q < 9007199254740992, p <= 2048, p >= 1;
    }
    r * p
}

/// The value of a digit character (0 for any other character).
pub open spec fn digit_value(c: char) -> nat {
    if '0' <= c && c <= '9' { (c as u32 - '0' as u32) as nat } else { 0 }
}

/// Whether `c` is a decimal digit.
pub open spec fn is_digit(c: char) -> bool {
    '0' <= c && c <= '9'
}

/// The number that a string of digits reads as.
pub open spec fn digits_value(s: Seq<char>) -> nat
    decreases s.len(),
{
    if s.len() == 0 {
        0
    } else {
        digits_value(s.drop_last()) * 10 + digit_value(s.last())
    }
}

proof fn lemma_digit_char(d: nat)
    requires
        d < 10,
    ensures
        is_digit(digit_char(d)),
        digit_value(digit_char(d)) == d,
{
}

/// `decimal(n)` is a string of digits that reads as `n`, with no leading
/// zero but for `n == 0` itself.
pub proof fn lemma_decimal_reads_back(n: nat)
    ensures
        decimal(n).len() >= 1,
        forall|i: int| 0 <= i < decimal(n).len() ==> #[trigger] is_digit(decimal(n)[i]),
        digits_value(decimal(n)) == n,
        n > 0 ==> decimal(n)[0] != '0',
        n == 0 ==> decimal(n) == seq!['0'],
    decreases n,
{
    if n < 10 {
        lemma_digit_char(n);
        assert(seq![digit_char(n)].drop_last() =~= Seq::<char>::empty());
        assert(digits_value(Seq::<char>::empty()) == 0);
        assert(digits_value(decimal(n)) == digits_value(decimal(n).drop_last()) * 10 + digit_value(decimal(n).last()));
    } else {
        lemma_decimal_reads_back(n / 10);
        lemma_digit_char(n % 10);
        let s = decimal(n / 10);
        assert(decimal(n).drop_last() =~= s);
        assert forall|i: int| 0 <= i < decimal(n).len() implies #[trigger] is_digit(decimal(n)[i]) by {
            if i < s.len() {
                assert(decimal(n)[i] == s[i]);
            }
        }
        assert(decimal(n)[0] == s[0]);
        assert(digits_value(decimal(n)) == digits_value(s) * 10 + digit_value(decimal(n).last()));
        assert(n == (n / 10) * 10 + n % 10);
    }
}

/// `fixed_one(q)` reads as `q` tenths: digits, a point, one digit.
pub proof fn lemma_fixed_one_reads_back(q: nat)
    ensures
        ({
            let t = fixed_one(q);
            &&& t.len() >= 3
            &&& t[t.len() - 2] == '.'
            &&& is_digit(t[t.len() - 1])
            &&& digits_value(t.take(t.len() - 2)) * 10 + digit_value(t[t.len() - 1]) == q
        }),
{
    lemma_decimal_reads_back(q / 10);
    lemma_digit_char(q % 10);
    let t = fixed_one(q);
    assert(t.take(t.len() - 2) =~= decimal(q / 10));
}

/// `fixed_two(q)` reads as `q` hundredths: digits, a point, two digits.
pub proof fn lemma_fixed_two_reads_back(q: nat)
    ensures
        ({
            let t = fixed_two(q);
            &&& t.len() >= 4
            &&& t[t.len() - 3] == '.'
            &&& is_digit(t[t.len() - 2]) && is_digit(t[t.len() - 1])
            &&& digits_value(t.take(t.len() - 3)) * 100 + digit_value(t[t.len() - 2]) * 10
                + digit_value(t[t.len() - 1]) == q
        }),
{
    lemma_decimal_reads_back(q / 100);
    lemma_digit_char((q / 10) % 10);
    lemma_digit_char(q % 10);
    let t = fixed_two(q);
    assert(t.take(t.len() - 3) =~= decimal(q / 100));
    assert((q / 100) * 100 + ((q / 10) % 10) * 10 + q % 10 == q) by {
        assert(q == (q / 10) * 10 + q % 10);
        assert(q / 10 == (q / 100) * 10 + (q / 10) % 10) by {
            vstd::arithmetic::div_mod::lemma_div_denominator(q as int, 10, 10);
        }
    }
}

/// `round_half_even(num, den)` is an integer nearest to `num / den`, and
/// the even one of two equally near.
pub proof fn lemma_round_half_even_is_nearest(num: nat, den: nat)
    requires
        den > 0,
    ensures
        ({
            let q = round_half_even(num, den);
            &&& 2 * num <= 2 * q * den + den
            &&& 2 * q * den <= 2 * num + den
            &&& (2 * num + den == 2 * q * den || 2 * q * den + den == 2 * num) ==> q % 2 == 0
        }),
{
    let q0 = num / den;
    let r = num % den;
    assert(num == q0 * den + r) by {
        vstd::arithmetic::div_mod::lemma_fundamental_div_mod(num as int, den as int);
    }
    assert((q0 + 1) * den == q0 * den + den) by (nonlinear_arith);
    assert(2 * (q0 + 1) * den == 2 * (q0 * den) + 2 * den) by (nonlinear_arith);
    assert(2 * q0 * den == 2 * (q0 * den)) by (nonlinear_arith);
}

/// Below 2^53 an integer is an `f64` as it stands.
pub proof fn lemma_nearest_f64_exact(b: nat)
    requires
        b < 9007199254740992,
    ensures
        nearest_f64(b) == b,
{
    assert(pow2_nat(0) == 1);
    assert(b / 1 == b && b % 1 == 0);
}

} // verus!
