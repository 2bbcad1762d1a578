//! Decimal rendering of integers and fixed-point opacity values,
//! and the text comparison the dispatchers rest on.
//!
//! Every place the controller prints a number — validation messages,
//! success messages, JSON output — goes through these functions, whose
//! output is pinned down character by character.

use vstd::prelude::*;

verus! {

/// The character for one decimal digit.
pub open spec fn dec_digit(d: nat) -> char {
    if d == 0 { '0' }
    else if d == 1 { '1' }
    else if d == 2 { '2' }
    else if d == 3 { '3' }
    else if d == 4 { '4' }
    else if d == 5 { '5' }
    else if d == 6 { '6' }
    else if d == 7 { '7' }
    else if d == 8 { '8' }
    else { '9' }
}

/// The usual decimal rendering of a natural number, most significant
/// digit first, without leading zeros (except for zero itself).
pub open spec fn dec_str(n: nat) -> Seq<char>
    decreases n,
{
    if n < 10 {
        seq![dec_digit(n)]
    } else {
        dec_str(n / 10).push(dec_digit(n % 10))
    }
}

/// The decimal rendering of an integer: a leading minus sign when negative.
pub open spec fn dec_str_int(n: int) -> Seq<char> {
    if n < 0 {
        seq!['-'] + dec_str((-n) as nat)
    } else {
        dec_str(n as nat)
    }
}

/// The rendering of `f` zero-padded to exactly `k` digits (`f < 10^k`).
pub open spec fn pad_dec(f: nat, k: nat) -> Seq<char>
    decreases k,
{
    if k <= 1 {
        seq![dec_digit(f % 10)]
    } else {
        pad_dec(f / 10, (k - 1) as nat).push(dec_digit(f % 10))
    }
}

/// The one-character string of one decimal digit.
pub fn digit_lit(d: u64) -> (r: &'static str)
    requires
        d < 10,
    ensures
        r@ == seq![dec_digit(d as nat)],
{
    let r: &'static str = match d {
        0 => "0",
        1 => "1",
        2 => "2",
        3 => "3",
        4 => "4",
        5 => "5",
        6 => "6",
        7 => "7",
        8 => "8",
        _ => "9",
    };
    proof {
        reveal_strlit("0");
        reveal_strlit("1");
        reveal_strlit("2");
        reveal_strlit("3");
        reveal_strlit("4");
        reveal_strlit("5");
        reveal_strlit("6");
        reveal_strlit("7");
        reveal_strlit("8");
        reveal_strlit("9");
        assert(r@ =~= seq![dec_digit(d as nat)]);
    }
    r
}

/// Append the decimal rendering of `n` to `out`.
pub fn push_dec_u64(n: u64, out: &mut String)
    ensures
        final(out)@ == old(out)@ + dec_str(n as nat),
    decreases n,
{
    if n >= 10 {
        push_dec_u64(n / 10, out);
    }
    out.append(digit_lit(n % 10));
    proof {
        if n >= 10 {
            assert(final(out)@ =~= old(out)@ + dec_str(n as nat));
        } else {
            assert(final(out)@ =~= old(out)@ + dec_str(n as nat));
        }
    }
}

/// Append the rendering of `f` zero-padded to `k` digits.
pub fn push_pad_dec(f: u64, k: u32, out: &mut String)
    requires
        k >= 1,
    ensures
        final(out)@ == old(out)@ + pad_dec(f as nat, k as nat),
    decreases k,
{
    if k > 1 {
        push_pad_dec(f / 10, k - 1, out);
    }
    out.append(digit_lit(f % 10));
    proof {
        assert(final(out)@ =~= old(out)@ + pad_dec(f as nat, k as nat));
    }
}

/// Append the decimal rendering of a signed value.
pub fn push_dec_i64(n: i64, out: &mut String)
    ensures
        final(out)@ == old(out)@ + dec_str_int(n as int),
{
    if n < 0 {
        out.append("-");
        let abs: u64 = if n == i64::MIN {
            9223372036854775808u64
        } else {
            (-n) as u64
        };
        assert(abs as nat == (-(n as int)) as nat);
        push_dec_u64(abs, out);
        proof {
            reveal_strlit("-");
            assert(final(out)@ =~= old(out)@ + dec_str_int(n as int));
        }
    } else {
        push_dec_u64(n as u64, out);
    }
}

/// The decimal rendering of a `u64` as a fresh string.
pub fn u64_to_string(n: u64) -> (r: String)
    ensures
        r@ == dec_str(n as nat),
{
    let mut out = String::new();
    push_dec_u64(n, &mut out);
    proof {
        assert(out@ =~= dec_str(n as nat));
    }
    out
}

/// The decimal rendering of an `i64` as a fresh string.
pub fn i64_to_string(n: i64) -> (r: String)
    ensures
        r@ == dec_str_int(n as int),
{
    let mut out = String::new();
    push_dec_i64(n, &mut out);
    proof {
        assert(out@ =~= dec_str_int(n as int));
    }
    out
}

/// The decimal rendering of an opacity in micro-units, written with six
/// fractional digits: 1_000_000 reads `1.000000`, 800_000 reads `0.800000`.
pub open spec fn opacity_lit(micro: int) -> Seq<char> {
    if micro < 0 {
        seq!['-'] + opacity_lit_nat((-micro) as nat)
    } else {
        opacity_lit_nat(micro as nat)
    }
}

/// The rendering of a non-negative opacity in micro-units.
pub open spec fn opacity_lit_nat(micro: nat) -> Seq<char> {
    dec_str(micro / 1000000) + seq!['.'] + pad_dec(micro % 1000000, 6)
}

/// Append the decimal rendering of an opacity in micro-units.
pub fn push_opacity(micro: i64, out: &mut String)
    ensures
        final(out)@ == old(out)@ + opacity_lit(micro as int),
{
    let abs: u64 = if micro < 0 {
        out.append("-");
        if micro == i64::MIN {
            9223372036854775808u64
        } else {
            (-micro) as u64
        }
    } else {
        micro as u64
    };
    push_dec_u64(abs / 1000000, out);
    out.append(".");
    push_pad_dec(abs % 1000000, 6, out);
    proof {
        reveal_strlit("-");
        reveal_strlit(".");
        if micro < 0 {
            assert(final(out)@ =~= old(out)@ + opacity_lit(micro as int));
        } else {
            assert(final(out)@ =~= old(out)@ + opacity_lit(micro as int));
        }
    }
}

/// The decimal rendering of an opacity in micro-units as a fresh string.
pub fn opacity_to_string(micro: i64) -> (r: String)
    ensures
        r@ == opacity_lit(micro as int),
{
    let mut out = String::new();
    push_opacity(micro, &mut out);
    proof {
        assert(out@ =~= opacity_lit(micro as int));
    }
    out
}

/// Compare a `String` against a string slice by contents.
pub fn string_eq_lit(a: &String, b: &str) -> (r: bool)
    ensures
        r == (a@ == b@),
{
    let bs: String = b.to_owned();
    a.eq(&bs)
}

} // verus!
