//! Fixed-width uppercase hexadecimal, as the wire protocol writes addresses
//! and sizes.

use vstd::prelude::*;

verus! {

/// The ASCII code of the uppercase hexadecimal digit for `d`, which is below 16:
/// `'0'..='9'` for the first ten values, `'A'..='F'` for the rest.
pub open spec fn hex_digit(d: int) -> u8 {
    if d < 10 {
        (48 + d) as u8
    } else {
        (55 + d) as u8
    }
}

/// The last `width` hexadecimal digits of `v`, most significant first, padded
/// on the left with `'0'`.
pub open spec fn hex_digits(v: nat, width: nat) -> Seq<u8>
    decreases width,
{
    if width == 0 {
        Seq::empty()
    } else {
        hex_digits(v / 16, (width - 1) as nat).push(hex_digit((v % 16) as int))
    }
}

/// The eight hexadecimal digits of a 32-bit value.
pub open spec fn hex8(v: u32) -> Seq<u8> {
    hex_digits(v as nat, 8)
}

/// The number that a digit character stands for; 16 for any other byte.
pub open spec fn digit_value(c: u8) -> nat {
    if 48 <= c <= 57 {
        (c - 48) as nat
    } else if 65 <= c <= 70 {
        (c - 55) as nat
    } else {
        16
    }
}

/// The number that a string of hexadecimal digits writes.
pub open spec fn hex_value(s: Seq<u8>) -> nat
    decreases s.len(),
{
    if s.len() == 0 {
        0
    } else {
        hex_value(s.drop_last()) * 16 + digit_value(s.last())
    }
}

/// Sixteen to the power `n`.
pub open spec fn pow16(n: nat) -> nat
    decreases n,
{
    if n == 0 {
        1
    } else {
        16 * pow16((n - 1) as nat)
    }
}

/// Renders one hexadecimal digit.
pub fn digit(d: u8) -> (c: u8)
    requires
        d < 16,
    ensures
        c == hex_digit(d as int),
        digit_value(c) == d,
{
    if d < 10 {
        48 + d
    } else {
        55 + d
    }
}

/// Renders `v` as eight uppercase hexadecimal digits.
pub fn render_hex8(v: u32) -> (out: Vec<u8>)
    ensures
        out@ == hex8(v),
{
    let mut out: Vec<u8> = vec![48u8; 8];
    let mut rest: u32 = v;
    let mut i: usize = 8;
    while i > 0
        invariant
            i <= 8,
            out@.len() == 8,
            hex8(v) == hex_digits(rest as nat, i as nat) + out@.subrange(i as int, 8),
        decreases i,
    {
        let ghost tail = out@.subrange(i as int, 8);
        let c = digit((rest % 16) as u8);
        i -= 1;
        out.set(i, c);
        proof {
            let head = hex_digits((rest / 16) as nat, i as nat);
            assert(out@.subrange(i as int, 8) =~= seq![c] + tail);
            assert(head.push(c) + tail =~= head + (seq![c] + tail));
        }
        rest = rest / 16;
    }
    assert(out@.subrange(0, 8) =~= out@);
    out
}

/// A rendering is exactly as wide as asked for.
pub proof fn lemma_hex_digits_len(v: nat, width: nat)
    ensures
        hex_digits(v, width).len() == width,
    decreases width,
{
    if width > 0 {
        lemma_hex_digits_len(v / 16, (width - 1) as nat);
    }
}

/// Reading a rendering back gives the value again, up to the digits that the
/// width has room for.
pub proof fn lemma_hex_value_of_digits(v: nat, width: nat)
    ensures
        hex_value(hex_digits(v, width)) == v % pow16(width),
    decreases width,
{
    if width > 0 {
        let rest = hex_digits(v / 16, (width - 1) as nat);
        let last = hex_digit((v % 16) as int);
        lemma_hex_value_of_digits(v / 16, (width - 1) as nat);
        assert(rest.push(last).drop_last() =~= rest);
        assert(digit_value(last) == v % 16);
        let p = pow16((width - 1) as nat);
        lemma_pow16_positive((width - 1) as nat);
        assert(((v / 16) % p) * 16 + v % 16 == v % (16 * p)) by (nonlinear_arith)
            requires
                p > 0,
        ;
    }
}

/// A power of sixteen is positive.
pub proof fn lemma_pow16_positive(n: nat)
    ensures
        pow16(n) > 0,
    decreases n,
{
    if n > 0 {
        lemma_pow16_positive((n - 1) as nat);
    }
}

/// Eight digits hold every 32-bit value: the rendering is eight bytes long
/// and reads back as the value itself, so distinct values render differently.
pub proof fn lemma_hex8_round_trip(v: u32)
    ensures
        hex8(v).len() == 8,
        hex_value(hex8(v)) == v,
{
    lemma_hex_digits_len(v as nat, 8);
    lemma_hex_value_of_digits(v as nat, 8);
    assert(pow16(8) == 0x1_0000_0000) by {
        reveal_with_fuel(pow16, 9);
    }
}

} // verus!
