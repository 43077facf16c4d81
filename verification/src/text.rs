//! Numbers and addresses as text.

use vstd::prelude::*;
use vstd::string::StringExecFns;

verus! {

/// The character that stands for the decimal digit `d`.
pub open spec fn digit(d: int) -> char
    recommends
        0 <= d < 10,
{
    if d == 0 {
        '0'
    } else if d == 1 {
        '1'
    } else if d == 2 {
        '2'
    } else if d == 3 {
        '3'
    } else if d == 4 {
        '4'
    } else if d == 5 {
        '5'
    } else if d == 6 {
        '6'
    } else if d == 7 {
        '7'
    } else if d == 8 {
        '8'
    } else {
        '9'
    }
}

/// The decimal digits of `n`, most significant first, without leading zeros.
pub open spec fn decimal(n: nat) -> Seq<char>
    decreases n,
{
    if n < 10 {
        seq![digit(n as int)]
    } else {
        decimal(n / 10).push(digit((n % 10) as int))
    }
}

/// The decimal form of a number that may be negative: a minus sign where it
/// is, then the digits of its magnitude.
pub open spec fn signed_decimal(n: int) -> Seq<char> {
    if n < 0 {
        seq!['-'] + decimal((-n) as nat)
    } else {
        decimal(n as nat)
    }
}

/// The four octets of an IPv4 address held as a number, first octet first.
pub open spec fn octets(address: u32) -> Seq<u8> {
    seq![
        (address / 0x100_0000) as u8,
        ((address / 0x1_0000) % 256) as u8,
        ((address / 0x100) % 256) as u8,
        (address % 256) as u8,
    ]
}

/// Four octets in dotted-quad notation.
pub open spec fn dotted_quad(octets: Seq<u8>) -> Seq<char>
    recommends
        octets.len() == 4,
{
    decimal(octets[0] as nat) + seq!['.'] + decimal(octets[1] as nat) + seq!['.'] + decimal(
        octets[2] as nat,
    ) + seq!['.'] + decimal(octets[3] as nat)
}

/// The one-character text of a decimal digit.
fn digit_text(d: u64) -> (text: &'static str)
    requires
        d < 10,
    ensures
        text@ == seq![digit(d as int)],
{
    proof {
        reveal_strlit("0");
        reveal_strlit("1");
        reveal_strlit("2");
        reveal_strlit("3");
        reveal_strlit("4");
        reveal_strlit("5");
        reveal_strlit("6");
        reveal_strlit("7");
        reveal_strlit("8");
        reveal_strlit("9");
    }
    let text = if d == 0 {
        "0"
    } else if d == 1 {
        "1"
    } else if d == 2 {
        "2"
    } else if d == 3 {
        "3"
    } else if d == 4 {
        "4"
    } else if d == 5 {
        "5"
    } else if d == 6 {
        "6"
    } else if d == 7 {
        "7"
    } else if d == 8 {
        "8"
    } else {
        "9"
    };
    assert(text@ =~= seq![digit(d as int)]);
    text
}

/// Appends the decimal digits of `n` to `text`.
pub fn push_decimal(text: &mut String, n: u64)
    ensures
        final(text)@ == old(text)@ + decimal(n as nat),
    decreases n,
{
    if n >= 10 {
        push_decimal(text, n / 10);
    }
    text.append(digit_text(n % 10));
    assert(text@ =~= old(text)@ + decimal(n as nat));
}

/// Appends the decimal form of a signed number to `text`.
pub fn push_signed_decimal(text: &mut String, n: i32)
    ensures
        final(text)@ == old(text)@ + signed_decimal(n as int),
{
    if n < 0 {
        proof {
            reveal_strlit("-");
        }
        text.append("-");
        let magnitude: u64 = (-(n as i64)) as u64;
        push_decimal(text, magnitude);
        assert(text@ =~= old(text)@ + signed_decimal(n as int));
    } else {
        push_decimal(text, n as u64);
    }
}

/// The octets of an address held as a number, first octet first.
pub fn octets_of(address: u32) -> (bytes: [u8; 4])
    ensures
        bytes@ == octets(address),
{
    assert(address >> 24 == address / 0x100_0000) by (bit_vector);
    assert((address >> 16) & 0xff == (address / 0x1_0000) % 256) by (bit_vector);
    assert((address >> 8) & 0xff == (address / 0x100) % 256) by (bit_vector);
    assert(address & 0xff == address % 256) by (bit_vector);
    let bytes: [u8; 4] = [
        (address >> 24) as u8,
        ((address >> 16) & 0xff) as u8,
        ((address >> 8) & 0xff) as u8,
        (address & 0xff) as u8,
    ];
    assert(bytes@ =~= octets(address));
    bytes
}

/// Appends four octets in dotted-quad notation to `text`.
pub fn push_dotted_quad(text: &mut String, octets: &[u8; 4])
    ensures
        final(text)@ == old(text)@ + dotted_quad(octets@),
{
    proof {
        reveal_strlit(".");
    }
    push_decimal(text, octets[0] as u64);
    text.append(".");
    push_decimal(text, octets[1] as u64);
    text.append(".");
    push_decimal(text, octets[2] as u64);
    text.append(".");
    push_decimal(text, octets[3] as u64);
    assert(text@ =~= old(text)@ + dotted_quad(octets@));
}

} // verus!
