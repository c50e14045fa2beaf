//! Human-readable byte counts.
//!
//! The count is shown the way a 64-bit float holding it prints with one
//! decimal: the count is first rounded to the nearest value with a 53-bit
//! significand (ties to even), divided by 1024 while it is at least 1024 (at
//! most three times, which is exact), and the quotient is rounded to one
//! decimal place (ties to even). All of this is computed on integers.

use vstd::prelude::*;
use vstd::string::*;

use crate::text::push_char;

verus! {

/// 2^53: counts below it are held exactly by a 64-bit float.
pub open spec fn float_span() -> nat {
    0x20_0000_0000_0000
}

/// Halves `q` (doubling the scale `p`) until it is below 2^53.
pub open spec fn scaled(q: nat, p: nat) -> (nat, nat)
    decreases q,
{
    if q < float_span() {
        (q, p)
    } else {
        scaled(q / 2, p * 2)
    }
}

/// The 64-bit float nearest to `b` (ties to even), as an integer.
pub open spec fn float_value(b: nat) -> nat {
    let (q, p) = scaled(b, 1);
    let r = b - q * p;
    if 2 * r > p || (2 * r == p && q % 2 == 1) {
        ((q + 1) * p) as nat
    } else {
        q * p
    }
}

/// How many times the value is divided by 1024 (at most three).
pub open spec fn unit_index(v: nat) -> nat {
    if v >= 0x4000_0000 {
        3
    } else if v >= 0x10_0000 {
        2
    } else if v >= 0x400 {
        1
    } else {
        0
    }
}

/// 1024 to the power `i`, for `i` up to three.
pub open spec fn unit_divisor(i: nat) -> nat {
    if i == 3 {
        0x4000_0000
    } else if i == 2 {
        0x10_0000
    } else if i == 1 {
        0x400
    } else {
        1
    }
}

/// The unit name of index `i`.
pub open spec fn unit_name(i: nat) -> Seq<char> {
    if i == 3 {
        "GB"@
    } else if i == 2 {
        "MB"@
    } else if i == 1 {
        "KB"@
    } else {
        "B"@
    }
}

/// `n / d` rounded to the nearest integer, ties to even.
pub open spec fn div_round_even(n: nat, d: nat) -> nat {
    let t = n / d;
    let r = n % d;
    if 2 * r > d || (2 * r == d && t % 2 == 1) {
        t + 1
    } else {
        t
    }
}

/// The character of decimal digit `d`.
pub open spec fn digit_char(d: nat) -> char {
    (d + 48) as char
}

/// The decimal digits of `n`, most significant first, without leading zeros.
pub open spec fn decimal(n: nat) -> Seq<char>
    decreases n,
{
    if n < 10 {
        seq![digit_char(n)]
    } else {
        decimal(n / 10).push(digit_char(n % 10))
    }
}

/// The text shown for a byte count: the value in tenths of its unit, as
/// `<whole>.<tenth> <unit>`.
pub open spec fn human_size_spec(bytes: nat) -> Seq<char> {
    let v = float_value(bytes);
    let i = unit_index(v);
    let t = div_round_even(10 * v, unit_divisor(i));
    decimal(t / 10) + seq!['.', digit_char(t % 10), ' '] + unit_name(i)
}

fn push_digit(s: &mut String, d: u128)
    requires
        d < 10,
    ensures
        final(s)@ == old(s)@.push(digit_char(d as nat)),
{
    let c = ((d as u8) + 48u8) as char;
    assert(c == digit_char(d as nat));
    push_char(s, c);
}

/// Appends the decimal digits of `n`.
pub(crate) fn push_decimal(s: &mut String, n: u128)
    ensures
        final(s)@ == old(s)@ + decimal(n as nat),
    decreases n,
{
    if n >= 10 {
        push_decimal(s, n / 10);
    }
    push_digit(s, n % 10);
    proof {
        if n < 10 {
            assert(n % 10 == n);
        }
    }
    assert(final(s)@ =~= old(s)@ + decimal(n as nat));
}

proof fn lemma_halve(b: nat, q: nat, p: nat)
    requires
        q * p <= b < (q + 1) * p,
        p > 0,
    ensures
        (q / 2) * (p * 2) <= b < (q / 2 + 1) * (p * 2),
{
    let h = q / 2;
    assert(q == 2 * h + q % 2);
    assert(h * (p * 2) == (2 * h) * p) by (nonlinear_arith);
    assert((2 * h) * p <= q * p) by (nonlinear_arith)
        requires
            2 * h <= q,
    ;
    assert((h + 1) * (p * 2) == (2 * h + 2) * p) by (nonlinear_arith);
    assert((q + 1) * p <= (2 * h + 2) * p) by (nonlinear_arith)
        requires
            q + 1 <= 2 * h + 2,
    ;
}

/// The 64-bit float nearest to `bytes`, as an integer.
fn float_value_of(bytes: u64) -> (r: u128)
    ensures
        r == float_value(bytes as nat),
        r <= 0x2_0000_0000_0000_0000,
{
    let mut q: u128 = bytes as u128;
    let mut p: u128 = 1;
    while q >= 0x20_0000_0000_0000
        invariant
            scaled(q as nat, p as nat) == scaled(bytes as nat, 1),
            p > 0,
            q * p <= bytes < (q + 1) * p,
            p <= 0x1_0000_0000_0000_0000,
        decreases q,
    {
        proof {
            lemma_halve(bytes as nat, q as nat, p as nat);
            assert(p * 0x20_0000_0000_0000 <= q * p) by (nonlinear_arith)
                requires
                    q >= 0x20_0000_0000_0000,
            ;
            assert(p < 0x1_0000_0000_0000) by (nonlinear_arith)
                requires
                    p * 0x20_0000_0000_0000 <= 0xffff_ffff_ffff_ffff,
            ;
        }
        q = q / 2;
        p = p * 2;
    }
    assert(q * p <= 0xffff_ffff_ffff_ffff);
    let r = bytes as u128 - q * p;
    assert(r < p) by (nonlinear_arith)
        requires
            q * p <= bytes < (q + 1) * p,
            r == bytes - q * p,
    ;
    assert((q + 1) * p <= 0x2_0000_0000_0000_0000) by (nonlinear_arith)
        requires
            q * p <= bytes,
            bytes <= 0xffff_ffff_ffff_ffff,
            p <= 0x1_0000_0000_0000_0000,
    ;
    if 2 * r > p || (2 * r == p && q % 2 == 1) {
        (q + 1) * p
    } else {
        q * p
    }
}

/// Format a byte count as a human readable string.
pub fn human_size(bytes: u64) -> (r: String)
    ensures
        r@ == human_size_spec(bytes as nat),
{
    let v = float_value_of(bytes);
    let (d, unit): (u128, &str) = if v >= 0x4000_0000 {
        (0x4000_0000, "GB")
    } else if v >= 0x10_0000 {
        (0x10_0000, "MB")
    } else if v >= 0x400 {
        (0x400, "KB")
    } else {
        (1, "B")
    };
    assert(d == unit_divisor(unit_index(v as nat)));
    assert(unit@ == unit_name(unit_index(v as nat)));
    let n = 10 * v;
    let t0 = n / d;
    let rem = n % d;
    let t = if 2 * rem > d || (2 * rem == d && t0 % 2 == 1) {
        t0 + 1
    } else {
        t0
    };
    assert(t == div_round_even(10 * v as nat, d as nat));
    let mut s = String::new();
    push_decimal(&mut s, t / 10);
    push_char(&mut s, '.');
    push_digit(&mut s, t % 10);
    push_char(&mut s, ' ');
    s.append(unit);
    assert(s@ =~= human_size_spec(bytes as nat));
    s
}

/// Counts below 2^53 are held exactly.
pub proof fn lemma_exact_below_float_span(b: nat)
    requires
        b < float_span(),
    ensures
        float_value(b) == b,
{
    assert(scaled(b, 1) == (b, 1nat));
}

/// Counts below 1024 are shown in bytes with a zero tenth: `<n>.0 B`.
pub proof fn lemma_small_counts_in_bytes(b: nat)
    requires
        b < 1024,
    ensures
        human_size_spec(b) == decimal(b) + ".0 B"@,
{
    lemma_exact_below_float_span(b);
    reveal_strlit(".0 B");
    reveal_strlit("B");
    assert(div_round_even(10 * b, 1) == 10 * b);
    assert((10 * b) / 10 == b);
    assert((10 * b) % 10 == 0);
    assert(digit_char(0) == '0');
    assert(decimal(b) + seq!['.', digit_char(0), ' '] + "B"@ =~= decimal(b) + ".0 B"@);
}

/// Whole kibibytes below 1024 KB are shown as `<n>.0 KB`.
pub proof fn lemma_whole_kibibytes(k: nat)
    requires
        1 <= k < 1024,
    ensures
        human_size_spec(k * 1024) == decimal(k) + ".0 KB"@,
{
    lemma_exact_below_float_span(k * 1024);
    reveal_strlit(".0 KB");
    reveal_strlit("KB");
    let v = k * 1024;
    assert(unit_index(v) == 1);
    assert((10 * v) / 1024 == 10 * k) by (nonlinear_arith)
        requires
            v == k * 1024,
    ;
    assert((10 * v) % 1024 == 0) by (nonlinear_arith)
        requires
            v == k * 1024,
    ;
    assert(div_round_even(10 * v, 1024) == 10 * k);
    assert((10 * k) / 10 == k);
    assert((10 * k) % 10 == 0);
    assert(decimal(k) + seq!['.', digit_char(0), ' '] + "KB"@ =~= decimal(k) + ".0 KB"@);
}

} // verus!
