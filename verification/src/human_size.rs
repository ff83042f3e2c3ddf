//! Rendering a byte count as a short human-readable figure: a value below
//! 1000 in the largest decimal unit that allows it, with two decimal places,
//! such as `"3.27 MB"`.

use vstd::prelude::*;

use crate::text::chars_to_string;

verus! {

/// The decimal digit characters.
pub open spec fn spec_digit_char(d: nat) -> char {
    if d == 0 {
        '0'
    } else if d == 1 {
        '1'
    } else if d == 2 {
        '2'
    } else if d == 3 {
        '3'
    } else if d == 4 {
        '4'
    } else if d == 5 {
        '5'
    } else if d == 6 {
        '6'
    } else if d == 7 {
        '7'
    } else if d == 8 {
        '8'
    } else {
        '9'
    }
}

/// The decimal digits of `n`, most significant first, without leading zeros
/// (`0` itself reads as `"0"`).
pub open spec fn spec_digits(n: nat) -> Seq<char>
    decreases n,
{
    if n < 10 {
        seq![spec_digit_char(n)]
    } else {
        spec_digits(n / 10).push(spec_digit_char(n % 10))
    }
}

/// How many thousands-steps fit under `b`: 0 below 1000 (unit `B`), 1 below
/// a million (unit `KB`), and so on. A 64-bit count never reaches the
/// seventh step.
pub open spec fn spec_unit_index(b: nat) -> nat {
    if b < 1000 {
        0
    } else if b < 1000000 {
        1
    } else if b < 1000000000 {
        2
    } else if b < 1000000000000 {
        3
    } else if b < 1000000000000000 {
        4
    } else if b < 1000000000000000000 {
        5
    } else {
        6
    }
}

/// The divisor belonging to a unit index: a power of 1000.
pub open spec fn spec_unit_divisor(u: nat) -> nat {
    if u == 0 {
        1
    } else if u == 1 {
        1000
    } else if u == 2 {
        1000000
    } else if u == 3 {
        1000000000
    } else if u == 4 {
        1000000000000
    } else if u == 5 {
        1000000000000000
    } else {
        1000000000000000000
    }
}

/// The unit's suffix.
pub open spec fn spec_unit_name(u: nat) -> Seq<char> {
    if u == 0 {
        seq!['B']
    } else if u == 1 {
        seq!['K', 'B']
    } else if u == 2 {
        seq!['M', 'B']
    } else if u == 3 {
        seq!['G', 'B']
    } else if u == 4 {
        seq!['T', 'B']
    } else if u == 5 {
        seq!['P', 'B']
    } else {
        seq!['E', 'B']
    }
}

/// The rendered figure: `b` divided by its unit's divisor, with the
/// fractional part rounded half-up to hundredths (a fraction that rounds to
/// a whole carries into the integer part), then the two zero-padded decimal
/// places, a space, and the unit's suffix.
pub open spec fn spec_format_bytes(b: nat) -> Seq<char> {
    let u = spec_unit_index(b);
    let d = spec_unit_divisor(u);
    let whole = b / d;
    let fr = (b % d * 200 + d) / (2 * d);
    let whole_out = if fr == 100 {
        whole + 1
    } else {
        whole
    };
    let fr_out: nat = if fr == 100 {
        0
    } else {
        fr
    };
    spec_digits(whole_out) + seq!['.'] + seq![
        spec_digit_char(fr_out / 10),
        spec_digit_char(fr_out % 10),
    ] + seq![' '] + spec_unit_name(u)
}

/// One decimal digit as a character.
fn digit_char(d: u64) -> (r: char)
    requires
        d < 10,
    ensures
        r == spec_digit_char(d as nat),
{
    if d == 0 {
        '0'
    } else if d == 1 {
        '1'
    } else if d == 2 {
        '2'
    } else if d == 3 {
        '3'
    } else if d == 4 {
        '4'
    } else if d == 5 {
        '5'
    } else if d == 6 {
        '6'
    } else if d == 7 {
        '7'
    } else if d == 8 {
        '8'
    } else {
        '9'
    }
}

/// Append the decimal digits of `n` to `v`.
pub(crate) fn push_digits(v: &mut Vec<char>, n: u64)
    ensures
        final(v)@ == old(v)@ + spec_digits(n as nat),
    decreases n,
{
    if n < 10 {
        v.push(digit_char(n));
        proof {
            assert(old(v)@ + spec_digits(n as nat) =~= old(v)@.push(spec_digit_char(n as nat)));
        }
    } else {
        push_digits(v, n / 10);
        v.push(digit_char(n % 10));
        proof {
            assert(old(v)@ + spec_digits(n as nat) =~= (old(v)@ + spec_digits(n as nat / 10)).push(
                spec_digit_char(n as nat % 10),
            ));
        }
    }
}

/// Render a byte count in the largest unit that keeps the figure under
/// 1000, with two decimal places, as in `"999.97 KB"`.
pub fn format_bytes(bytes: u64) -> (r: String)
    ensures
        r@ == spec_format_bytes(bytes as nat),
{
    let (unit, d): (u64, u64) = if bytes < 1000 {
        (0, 1)
    } else if bytes < 1000000 {
        (1, 1000)
    } else if bytes < 1000000000 {
        (2, 1000000)
    } else if bytes < 1000000000000 {
        (3, 1000000000)
    } else if bytes < 1000000000000000 {
        (4, 1000000000000)
    } else if bytes < 1000000000000000000 {
        (5, 1000000000000000)
    } else {
        (6, 1000000000000000000)
    };
    proof {
        assert(unit as nat == spec_unit_index(bytes as nat));
        assert(d as nat == spec_unit_divisor(unit as nat));
        assert((bytes as int) < 1000 * (d as int));
        assert((bytes as int) / (d as int) < 1000) by (nonlinear_arith)
            requires
                (bytes as int) < 1000 * (d as int),
                d >= 1,
        ;
    }
    let whole: u64 = bytes / d;
    let rem: u64 = bytes % d;
    let fr128: u128 = (rem as u128 * 200 + d as u128) / (2 * d as u128);
    proof {
        assert(rem < d);
        assert(rem as int * 200 + d < 202 * d) by (nonlinear_arith)
            requires
                rem < d,
                d >= 1,
        ;
        assert((rem as int * 200 + d) / (2 * d as int) < 101) by (nonlinear_arith)
            requires
                rem as int * 200 + d < 202 * d,
                d >= 1,
        ;
        assert(fr128 <= 100);
    }
    let fr: u64 = fr128 as u64;
    let (whole_out, fr_out): (u64, u64) = if fr == 100 {
        (whole + 1, 0)
    } else {
        (whole, fr)
    };
    let mut out: Vec<char> = Vec::new();
    push_digits(&mut out, whole_out);
    out.push('.');
    out.push(digit_char(fr_out / 10));
    out.push(digit_char(fr_out % 10));
    out.push(' ');
    if unit == 0 {
        out.push('B');
    } else {
        if unit == 1 {
            out.push('K');
        } else if unit == 2 {
            out.push('M');
        } else if unit == 3 {
            out.push('G');
        } else if unit == 4 {
            out.push('T');
        } else if unit == 5 {
            out.push('P');
        } else {
            out.push('E');
        }
        out.push('B');
    }
    proof {
        assert(out@ =~= spec_format_bytes(bytes as nat));
    }
    chars_to_string(&out)
}

} // verus!
