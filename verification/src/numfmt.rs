//! Decimal and hexadecimal rendering of integers (`{}` and `{:02X}`).
use vstd::prelude::*;
use crate::text::push_char;

verus! {

/// The ASCII digit for `d < 10`.
pub open spec fn digit_char(d: nat) -> char {
    if d == 0 { '0' }
    else if d == 1 { '1' }
    else if d == 2 { '2' }
    else if d == 3 { '3' }
    else if d == 4 { '4' }
    else if d == 5 { '5' }
    else if d == 6 { '6' }
    else if d == 7 { '7' }
    else if d == 8 { '8' }
    else { '9' }
}

/// Upper-case hexadecimal digit for `d < 16`.
pub open spec fn hex_digit_char(d: nat) -> char {
    if d < 10 { digit_char(d) }
    else if d == 10 { 'A' }
    else if d == 11 { 'B' }
    else if d == 12 { 'C' }
    else if d == 13 { 'D' }
    else if d == 14 { 'E' }
    else { 'F' }
}

/// Decimal representation of `n`, without leading zeros (`format!("{}", n)`).
pub open spec fn dec_seq(n: nat) -> Seq<char>
    decreases n,
{
    if n < 10 {
        seq![digit_char(n)]
    } else {
        dec_seq(n / 10).push(digit_char(n % 10))
    }
}

/// Two upper-case hexadecimal digits of a byte (`format!("{:02X}", b)`).
pub open spec fn hex2_seq(b: u8) -> Seq<char> {
    seq![hex_digit_char((b / 16) as nat), hex_digit_char((b % 16) as nat)]
}

/// The digit character of `d`.
pub fn digit(d: usize) -> (c: char)
    requires
        d < 10,
    ensures
        c == digit_char(d as nat),
{
    if d == 0 { '0' }
    else if d == 1 { '1' }
    else if d == 2 { '2' }
    else if d == 3 { '3' }
    else if d == 4 { '4' }
    else if d == 5 { '5' }
    else if d == 6 { '6' }
    else if d == 7 { '7' }
    else if d == 8 { '8' }
    else { '9' }
}

/// The upper-case hexadecimal digit of `d`.
pub fn hex_digit(d: u8) -> (c: char)
    requires
        d < 16,
    ensures
        c == hex_digit_char(d as nat),
{
    if d < 10 { digit(d as usize) }
    else if d == 10 { 'A' }
    else if d == 11 { 'B' }
    else if d == 12 { 'C' }
    else if d == 13 { 'D' }
    else if d == 14 { 'E' }
    else { 'F' }
}

/// Appends the decimal representation of `n`.
pub fn push_decimal(s: &mut String, n: u64)
    ensures
        final(s)@ == old(s)@ + dec_seq(n as nat),
    decreases n,
{
    if n < 10 {
        push_char(s, digit(n as usize));
        proof {
            assert(old(s)@.push(digit_char(n as nat)) =~= old(s)@ + dec_seq(n as nat));
        }
    } else {
        push_decimal(s, n / 10);
        push_char(s, digit((n % 10) as usize));
        proof {
            assert(old(s)@ + dec_seq((n / 10) as nat) + seq![digit_char((n % 10) as nat)]
                =~= old(s)@ + dec_seq(n as nat));
        }
    }
}

/// `n.to_string()`.
pub fn decimal(n: u64) -> (r: String)
    ensures
        r@ == dec_seq(n as nat),
{
    let mut r = String::new();
    push_decimal(&mut r, n);
    proof {
        assert(Seq::<char>::empty() + dec_seq(n as nat) =~= dec_seq(n as nat));
    }
    r
}

/// Appends `format!("{:02X}", b)`.
pub fn push_hex2(s: &mut String, b: u8)
    ensures
        final(s)@ == old(s)@ + hex2_seq(b),
{
    push_char(s, hex_digit(b / 16));
    push_char(s, hex_digit(b % 16));
    proof {
        assert(old(s)@.push(hex_digit_char((b / 16) as nat)).push(hex_digit_char((b % 16) as nat))
            =~= old(s)@ + hex2_seq(b));
    }
}

} // verus!
