//! Decimal text of integers, and human-readable file sizes.

use vstd::prelude::*;
use crate::text::push_char;

verus! {

/// The decimal digit character for `d < 10`.
pub open spec fn digit_char(d: nat) -> char {
    (48 + d) as char
}

/// The decimal representation of `n`, without leading zeros.
pub open spec fn decimal(n: nat) -> Seq<char>
    decreases n,
{
    if n < 10 {
        seq![digit_char(n)]
    } else {
        decimal(n / 10).push(digit_char(n % 10))
    }
}

/// `n / d` rounded to the nearest integer, ties to the even neighbour.
pub open spec fn round_half_even(n: nat, d: nat) -> nat
    recommends
        d > 0,
{
    let q = n / d;
    let r = n % d;
    if 2 * r > d || (2 * r == d && q % 2 == 1) {
        q + 1
    } else {
        q
    }
}

/// The spacing of `f64` values around `n`: 1 below 2^53, and doubling with
/// each further bit of `n`.
pub open spec fn f64_spacing(n: nat) -> nat
    decreases n,
{
    if n < 0x20_0000_0000_0000 {
        1
    } else {
        2 * f64_spacing(n / 2)
    }
}

/// The value of `n as f64`: `n` rounded to the nearest multiple of the
/// spacing (53 significant bits), ties to even.
pub open spec fn f64_nearest(n: nat) -> nat {
    round_half_even(n, f64_spacing(n)) * f64_spacing(n)
}

/// A count of tenths written with one fractional digit, as `{:.1}` writes it.
pub open spec fn tenths_text(t: nat) -> Seq<char> {
    decimal(t / 10) + seq!['.', digit_char(t % 10)]
}

/// The text of a file size: bytes below 1024, KiB below 1 MiB, MiB above,
/// the latter two rounded (ties to even) to one decimal of the value of the
/// size as a 64-bit float.
pub open spec fn format_size_spec(bytes: u64) -> Seq<char> {
    if bytes < 1024 {
        decimal(bytes as nat) + seq![' ', 'B']
    } else if bytes < 1024 * 1024 {
        tenths_text(round_half_even(bytes as nat * 10, 1024)) + seq![' ', 'K', 'B']
    } else {
        tenths_text(round_half_even(f64_nearest(bytes as nat) * 10, 1024 * 1024)) + seq![
            ' ',
            'M',
            'B',
        ]
    }
}

/// Appends the decimal representation of `n`.
pub fn push_decimal(out: &mut String, n: u128)
    ensures
        final(out)@ == old(out)@ + decimal(n as nat),
    decreases n,
{
    if n >= 10 {
        push_decimal(out, n / 10);
    }
    let d = (n % 10) as u8;
    push_char(out, (48 + d) as char);
    proof {
        assert(digit_char((n % 10) as nat) == (48 + d) as char);
    }
}

/// The decimal representation of `n`.
pub fn decimal_string(n: u128) -> (r: String)
    ensures
        r@ == decimal(n as nat),
{
    let mut out = String::new();
    push_decimal(&mut out, n);
    assert(out@ == Seq::<char>::empty() + decimal(n as nat));
    out
}

/// `n / d` rounded to nearest, ties to even.
pub fn round_half_even_div(n: u128, d: u128) -> (q: u128)
    requires
        0 < d < 0x1_0000_0000_0000_0000_0000,
        n < 0x1_0000_0000_0000_0000_0000_0000,
    ensures
        q == round_half_even(n as nat, d as nat),
{
    let q = n / d;
    let r = n % d;
    if 2 * r > d || (2 * r == d && q % 2 == 1) {
        q + 1
    } else {
        q
    }
}

/// Appends a count of tenths with one fractional digit.
fn push_tenths(out: &mut String, t: u128)
    ensures
        final(out)@ == old(out)@ + tenths_text(t as nat),
{
    push_decimal(out, t / 10);
    push_char(out, '.');
    let d = (t % 10) as u8;
    push_char(out, (48 + d) as char);
    assert(digit_char((t % 10) as nat) == (48 + d) as char);
}

/// The value of `bytes as f64`, as an integer.
fn f64_value(bytes: u64) -> (f: u128)
    ensures
        f == f64_nearest(bytes as nat),
        f <= 0x2_0000_0000_0000_0000,
{
    let mut m: u64 = bytes;
    let mut p: u128 = 1;
    while m >= 0x20_0000_0000_0000
        invariant
            f64_spacing(bytes as nat) == p * f64_spacing(m as nat),
            1 <= p,
            p * m <= bytes,
            p <= 0x1_0000_0000_0000,
        decreases m,
    {
        let ghost old_p = p;
        let ghost old_m = m;
        assert(f64_spacing(m as nat) == 2 * f64_spacing((m / 2) as nat));
        assert(p * (2 * f64_spacing((m / 2) as nat)) == (2 * p) * f64_spacing((m / 2) as nat))
            by (nonlinear_arith);
        assert((2 * p) * (m / 2) <= p * m) by (nonlinear_arith)
            requires
                p >= 1,
        ;
        assert(p * m >= p * 0x20_0000_0000_0000) by (nonlinear_arith)
            requires
                m >= 0x20_0000_0000_0000,
                p >= 1,
        ;
        m = m / 2;
        p = p * 2;
    }
    assert(f64_spacing(m as nat) == 1);
    assert(f64_spacing(bytes as nat) == p) by {
        assert(p * f64_spacing(m as nat) == p * 1);
    }
    let q = round_half_even_div(bytes as u128, p);
    proof {
        let b = bytes as int;
        let pp = p as int;
        let qq = q as int;
        assert(qq <= b / pp + 1);
        assert(pp * (b / pp) <= b) by (nonlinear_arith)
            requires
                pp >= 1,
                b >= 0,
        ;
        assert(qq * pp <= pp * (b / pp) + pp) by (nonlinear_arith)
            requires
                qq <= b / pp + 1,
                pp >= 1,
        ;
        assert(qq * pp <= b + pp);
        assert(q * p == qq * pp);
    }
    q * p
}

/// The size of a file in bytes as text: `"N B"` below 1024, else `"x.y KB"`
/// below 1024 * 1024, else `"x.y MB"` (see `format_size_spec`).
pub fn format_size(bytes: u64) -> (r: String)
    ensures
        r@ == format_size_spec(bytes),
{
    let mut out = String::new();
    if bytes < 1024 {
        push_decimal(&mut out, bytes as u128);
        push_char(&mut out, ' ');
        push_char(&mut out, 'B');
    } else if bytes < 1024 * 1024 {
        let t = round_half_even_div(bytes as u128 * 10, 1024);
        push_tenths(&mut out, t);
        push_char(&mut out, ' ');
        push_char(&mut out, 'K');
        push_char(&mut out, 'B');
    } else {
        let f = f64_value(bytes);
        let t = round_half_even_div(f * 10, 1024 * 1024);
        push_tenths(&mut out, t);
        push_char(&mut out, ' ');
        push_char(&mut out, 'M');
        push_char(&mut out, 'B');
    }
    out
}

} // verus!
