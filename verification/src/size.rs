//! Human-readable byte counts ("1.5 GB"), computed exactly as the floating-point
//! formula `bytes as f64`, repeated division by 1024 and `{:.1}` formatting gives
//! them, but in integer arithmetic.
use vstd::prelude::*;
use vstd::arithmetic::div_mod::{
    lemma_div_denominator, lemma_div_is_ordered_by_denominator, lemma_fundamental_div_mod,
};
use crate::number::{decimal, digit_char, digit_to_char, push_decimal};
use crate::text::push_char;

verus! {

/// `2` to the power `e`.
pub open spec fn two_pow(e: nat) -> nat
    decreases e,
{
    if e == 0 {
        1
    } else {
        2 * two_pow((e - 1) as nat)
    }
}

/// `1024` to the power `k`.
pub open spec fn pow1024(k: nat) -> nat
    decreases k,
{
    if k == 0 {
        1
    } else {
        1024 * pow1024((k - 1) as nat)
    }
}

/// `2^53`: integers below it are exactly representable in an `f64`.
pub open spec fn f64_exact_limit() -> nat {
    9007199254740992
}

/// How many low bits of `b` fall outside a 53-bit significand.
pub open spec fn mantissa_shift(b: nat) -> nat
    decreases b,
{
    if b < f64_exact_limit() {
        0
    } else {
        1 + mantissa_shift(b / 2)
    }
}

/// The value that `b as f64` holds: `b` rounded to the nearest number with a 53-bit
/// significand, a tie going to the even significand.
pub open spec fn to_f64_value(b: nat) -> nat {
    let p = two_pow(mantissa_shift(b));
    let q = b / p;
    let r = b % p;
    if 2 * r > p || (2 * r == p && q % 2 == 1) {
        (q + 1) * p
    } else {
        q * p
    }
}

/// How many times the formatting loop divides `f` by 1024, starting at step `k`:
/// it goes on while the value is at least 1024 and a larger unit remains.
pub open spec fn unit_index_from(f: nat, k: nat) -> nat
    decreases 6 - k,
{
    if k < 6 && f >= pow1024(k + 1) {
        unit_index_from(f, k + 1)
    } else {
        k
    }
}

/// `10 * f / d` rounded to the nearest integer, a tie going to the even one: the
/// digits, without the point, that `{:.1}` writes for the exact value `f / d`.
pub open spec fn rounded_tenths(f: nat, d: nat) -> nat {
    let q = (10 * f) / d;
    let r = (10 * f) % d;
    if 2 * r > d || (2 * r == d && q % 2 == 1) {
        q + 1
    } else {
        q
    }
}

/// The name of the unit of index `k`.
pub open spec fn unit_name(k: nat) -> Seq<char> {
    if k == 1 {
        "KB"@
    } else if k == 2 {
        "MB"@
    } else if k == 3 {
        "GB"@
    } else if k == 4 {
        "TB"@
    } else if k == 5 {
        "PB"@
    } else if k == 6 {
        "EB"@
    } else {
        "B"@
    }
}

/// The text for a byte count: `Unknown` for zero, the exact count with ` B` below one
/// KB, and otherwise the value in the largest unit up to EB with one decimal.
pub open spec fn format_bytes_text(bytes: u64) -> Seq<char> {
    if bytes == 0 {
        "Unknown"@
    } else {
        let f = to_f64_value(bytes as nat);
        let k = unit_index_from(f, 0);
        if k == 0 {
            decimal(bytes as nat) + " B"@
        } else {
            let t = rounded_tenths(f, pow1024(k));
            decimal(t / 10) + seq!['.', digit_char(t % 10), ' '] + unit_name(k)
        }
    }
}

/// Each power of 1024 up to the sixth is at most `2^60`.
proof fn lemma_pow1024_bound(k: nat)
    requires
        k <= 6,
    ensures
        1 <= pow1024(k) <= 1152921504606846976,
{
    reveal_with_fuel(pow1024, 7);
    if k == 0 {
    } else if k == 1 {
    } else if k == 2 {
    } else if k == 3 {
    } else if k == 4 {
    } else if k == 5 {
    } else {
    }
}

/// The value that `b as f64` holds (see `to_f64_value`).
fn f64_value(b: u64) -> (f: u128)
    requires
        b > 0,
    ensures
        f == to_f64_value(b as nat),
        f <= 2 * b,
        f >= 1,
{
    let mut q: u64 = b;
    let mut p: u128 = 1;
    let ghost mut e: nat = 0;
    while q >= 9007199254740992
        invariant
            1 <= q,
            1 <= p <= b,
            p == two_pow(e),
            q == b as nat / p as nat,
            p * q <= b,
            mantissa_shift(b as nat) == e + mantissa_shift(q as nat),
        decreases q,
    {
        proof {
            lemma_div_denominator(b as int, p as int, 2);
            assert(p * 2 * (q / 2) <= p * q) by (nonlinear_arith)
                requires
                    p >= 1,
            ;
            assert(p * 2 <= p * 2 * (q / 2)) by (nonlinear_arith)
                requires
                    p >= 1,
                    q / 2 >= 1,
            ;
        }
        q = q / 2;
        p = p * 2;
        proof {
            e = e + 1;
        }
    }
    proof {
        lemma_fundamental_div_mod(b as int, p as int);
        assert(mantissa_shift(q as nat) == 0);
        assert(p * q + p <= 2 * b) by (nonlinear_arith)
            requires
                p * q <= b,
                p <= b,
        ;
    }
    let r: u128 = b as u128 - p * q as u128;
    assert(r == b as nat % p as nat);
    if 2 * r > p || (2 * r == p && q % 2 == 1) {
        assert((q + 1) * p == p * q + p) by (nonlinear_arith);
        (q as u128 + 1) * p
    } else {
        assert(q * p == p * q) by (nonlinear_arith);
        assert(q * p >= 1) by (nonlinear_arith)
            requires
                q >= 1,
                p >= 1,
        ;
        q as u128 * p
    }
}

/// The unit index that the formatting loop reaches for the value `f`, and `1024` to
/// that power.
fn unit_index(f: u128) -> (res: (u64, u128))
    ensures
        res.0 == unit_index_from(f as nat, 0),
        res.1 == pow1024(res.0 as nat),
        res.0 <= 6,
{
    let mut k: u64 = 0;
    let mut d: u128 = 1;
    proof {
        reveal_with_fuel(pow1024, 1);
    }
    while k < 6
        invariant
            k <= 6,
            d == pow1024(k as nat),
            unit_index_from(f as nat, 0) == unit_index_from(f as nat, k as nat),
        ensures
            k <= 6,
            d == pow1024(k as nat),
            unit_index_from(f as nat, 0) == unit_index_from(f as nat, k as nat),
            k == 6 || f < pow1024(k as nat + 1),
        decreases 6 - k,
    {
        proof {
            lemma_pow1024_bound(k as nat);
        }
        if f < d * 1024 {
            break;
        }
        d = d * 1024;
        k = k + 1;
    }
    (k, d)
}

/// Writes a byte count for people to read: `Unknown` for zero, `N B` below 1024,
/// and otherwise one decimal and the largest unit (KB up to EB) that keeps the value
/// at least one.
pub fn format_bytes(bytes: u64) -> (res: String)
    ensures
        res@ == format_bytes_text(bytes),
{
    if bytes == 0 {
        return "Unknown".to_string();
    }
    let f = f64_value(bytes);
    let (k, d) = unit_index(f);
    let mut out = String::new();
    if k == 0 {
        push_decimal(&mut out, bytes);
        out.append(" B");
        return out;
    }
    proof {
        lemma_pow1024_bound(k as nat);
        reveal_with_fuel(pow1024, 2);
        assert(unit_index_from(f as nat, 0) > 0);
        assert(f >= 1024);
    }
    let q = (10 * f) / d;
    let r = (10 * f) % d;
    let t = if 2 * r > d || (2 * r == d && q % 2 == 1) { q + 1 } else { q };
    proof {
        lemma_div_is_ordered_by_denominator(10 * f as int, 1024, d as int);
        assert((10 * f as int) / 1024 <= 360287970189639680);
        assert(t <= 360287970189639681);
    }
    push_decimal(&mut out, (t / 10) as u64);
    push_char(&mut out, '.');
    let dig = (t % 10) as u64;
    push_char(&mut out, digit_to_char(dig));
    push_char(&mut out, ' ');
    out.append(unit_text(k));
    out
}

/// The name of the unit of index `k`.
fn unit_text(k: u64) -> (s: &'static str)
    ensures
        s@ == unit_name(k as nat),
{
    if k == 1 { "KB" }
    else if k == 2 { "MB" }
    else if k == 3 { "GB" }
    else if k == 4 { "TB" }
    else if k == 5 { "PB" }
    else if k == 6 { "EB" }
    else { "B" }
}

/// A count below 1024 bytes is written exactly, followed by ` B`.
pub proof fn law_format_bytes_small(bytes: u64)
    requires
        0 < bytes < 1024,
    ensures
        format_bytes_text(bytes) == decimal(bytes as nat) + " B"@,
{
    reveal_with_fuel(pow1024, 2);
    assert(mantissa_shift(bytes as nat) == 0);
    assert(two_pow(0) == 1);
    assert(to_f64_value(bytes as nat) == bytes);
    assert(unit_index_from(bytes as nat, 0) == 0);
}

} // verus!
