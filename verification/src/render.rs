//! Rendering of fixed-point monetary values as decimal strings.
//!
//! A balance held as a signed count of ten-thousandths is printed with a
//! minus sign when negative, the integer part without leading zeros, a
//! dot, and exactly four fractional digits: `100000` becomes `10.0000`,
//! `-5` becomes `-0.0005`.

use vstd::prelude::*;
use vstd::string::StringExecFns;

verus! {

/// The decimal digit character for `d`.
pub open spec fn digit_char(d: int) -> char
    recommends
        0 <= d < 10,
{
    if d == 0 {
        '0'
    } else if d == 1 {
        '1'
    } else if d == 2 {
        '2'
    } else if d == 3 {
        '3'
    } else if d == 4 {
        '4'
    } else if d == 5 {
        '5'
    } else if d == 6 {
        '6'
    } else if d == 7 {
        '7'
    } else if d == 8 {
        '8'
    } else {
        '9'
    }
}

/// The decimal digits of `n`, most significant first, without leading
/// zeros (a single `0` for zero).
pub open spec fn uint_chars(n: nat) -> Seq<char>
    decreases n,
{
    if n < 10 {
        seq![digit_char(n as int)]
    } else {
        uint_chars(n / 10) + seq![digit_char((n % 10) as int)]
    }
}

/// Exactly four decimal digits for a fractional part `f` of a
/// ten-thousandth count, zero-padded on the left.
pub open spec fn frac_chars(f: int) -> Seq<char>
    recommends
        0 <= f < 10000,
{
    seq![
        digit_char(f / 1000),
        digit_char((f / 100) % 10),
        digit_char((f / 10) % 10),
        digit_char(f % 10),
    ]
}

/// The decimal string for a signed count `u` of ten-thousandths: an
/// optional minus sign, the integer part, a dot, and four fractional
/// digits.
pub open spec fn units_chars(u: int) -> Seq<char> {
    let n = if u < 0 {
        -u
    } else {
        u
    };
    let sign = if u < 0 {
        seq!['-']
    } else {
        Seq::<char>::empty()
    };
    sign + uint_chars((n / 10000) as nat) + seq!['.'] + frac_chars(n % 10000)
}

/// Appends the decimal digit character for `d` to `s`.
fn push_digit(s: &mut String, d: u8)
    requires
        d < 10,
    ensures
        final(s)@ == old(s)@ + seq![digit_char(d as int)],
{
    proof {
        reveal_strlit("0");
        reveal_strlit("1");
        reveal_strlit("2");
        reveal_strlit("3");
        reveal_strlit("4");
        reveal_strlit("5");
        reveal_strlit("6");
        reveal_strlit("7");
        reveal_strlit("8");
        reveal_strlit("9");
    }
    match d {
        0 => s.append("0"),
        1 => s.append("1"),
        2 => s.append("2"),
        3 => s.append("3"),
        4 => s.append("4"),
        5 => s.append("5"),
        6 => s.append("6"),
        7 => s.append("7"),
        8 => s.append("8"),
        _ => s.append("9"),
    }
    assert(s@ =~= old(s)@ + seq![digit_char(d as int)]);
}

/// Appends the decimal digits of `n`, most significant first, to `s`.
fn push_uint(s: &mut String, n: u128)
    ensures
        final(s)@ == old(s)@ + uint_chars(n as nat),
    decreases n,
{
    if n < 10 {
        push_digit(s, n as u8);
    } else {
        push_uint(s, n / 10);
        push_digit(s, (n % 10) as u8);
        assert(s@ =~= old(s)@ + uint_chars(n as nat));
    }
}

/// The decimal string for a signed count of ten-thousandths, with four
/// fractional digits.
pub fn format_units(u: i128) -> (s: String)
    ensures
        s@ == units_chars(u as int),
{
    let mut s = String::new();
    let n: u128 = if u < 0 {
        proof {
            reveal_strlit("-");
        }
        s.append("-");
        // Two's-complement-safe magnitude: -(u + 1) stays in range
        ((-(u + 1)) as u128) + 1
    } else {
        u as u128
    };
    assert(n as int == if u < 0 { -(u as int) } else { u as int });
    push_uint(&mut s, n / 10000);
    proof {
        reveal_strlit(".");
    }
    s.append(".");
    let f = n % 10000;
    push_digit(&mut s, (f / 1000) as u8);
    push_digit(&mut s, ((f / 100) % 10) as u8);
    push_digit(&mut s, ((f / 10) % 10) as u8);
    push_digit(&mut s, (f % 10) as u8);
    assert(s@ =~= units_chars(u as int));
    s
}

} // verus!
