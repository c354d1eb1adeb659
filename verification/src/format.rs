//! Verified decimal and hexadecimal rendering of integers and bytes,
//! used for display names, hashes and export rows.

use vstd::prelude::*;

verus! {

/// The character for one decimal or hexadecimal digit, lower case.
pub open spec fn digit_char(d: nat) -> char {
    if d < 10 {
        ((d + 0x30) as u8) as char
    } else {
        ((d + 87) as u8) as char
    }
}

/// The character for one hexadecimal digit, upper case.
pub open spec fn digit_char_upper(d: nat) -> char {
    if d < 10 {
        ((d + 0x30) as u8) as char
    } else {
        ((d + 55) as u8) as char
    }
}

/// Decimal rendering of a natural number, without leading zeros.
pub open spec fn dec_digits(n: nat) -> Seq<char>
    decreases n,
{
    if n < 10 {
        seq![digit_char(n)]
    } else {
        dec_digits(n / 10).push(digit_char(n % 10))
    }
}

/// Lower-case hexadecimal rendering of a natural number, without leading zeros.
pub open spec fn hex_digits(n: nat) -> Seq<char>
    decreases n,
{
    if n < 16 {
        seq![digit_char(n)]
    } else {
        hex_digits(n / 16).push(digit_char(n % 16))
    }
}

/// The two lower-case hexadecimal digits of one byte.
pub open spec fn hex_pair(b: u8) -> Seq<char> {
    seq![digit_char((b / 16) as nat), digit_char((b % 16) as nat)]
}

/// The two upper-case hexadecimal digits of one byte.
pub open spec fn hex_pair_upper(b: u8) -> Seq<char> {
    seq![digit_char_upper((b / 16) as nat), digit_char_upper((b % 16) as nat)]
}

/// Lower-case hexadecimal rendering of a byte string, two digits per byte.
pub open spec fn hex_of_bytes(s: Seq<u8>) -> Seq<char>
    decreases s.len(),
{
    if s.len() == 0 {
        Seq::empty()
    } else {
        hex_pair(s[0]) + hex_of_bytes(s.drop_first())
    }
}

fn push_digit(d: u64, out: &mut String)
    requires
        d < 16,
    ensures
        final(out)@ == old(out)@.push(digit_char(d as nat)),
{
    let c: char = if d < 10 {
        ((d as u8) + 0x30) as char
    } else {
        ((d as u8) + 87) as char
    };
    out.push(c);
}

fn push_dec(n: u64, out: &mut String)
    ensures
        final(out)@ == old(out)@ + dec_digits(n as nat),
    decreases n,
{
    if n < 10 {
        push_digit(n, out);
        proof {
            assert(old(out)@ + dec_digits(n as nat) =~= old(out)@.push(digit_char(n as nat)));
        }
    } else {
        push_dec(n / 10, out);
        push_digit(n % 10, out);
        proof {
            assert(old(out)@ + dec_digits(n as nat) =~= (old(out)@ + dec_digits((n / 10) as nat))
                .push(digit_char((n % 10) as nat)));
        }
    }
}

fn push_hex(n: u64, out: &mut String)
    ensures
        final(out)@ == old(out)@ + hex_digits(n as nat),
    decreases n,
{
    if n < 16 {
        push_digit(n, out);
        proof {
            assert(old(out)@ + hex_digits(n as nat) =~= old(out)@.push(digit_char(n as nat)));
        }
    } else {
        push_hex(n / 16, out);
        push_digit(n % 16, out);
        proof {
            assert(old(out)@ + hex_digits(n as nat) =~= (old(out)@ + hex_digits((n / 16) as nat))
                .push(digit_char((n % 16) as nat)));
        }
    }
}

pub(crate) fn push_hex_pair_upper(b: u8, out: &mut String)
    ensures
        final(out)@ == old(out)@ + hex_pair_upper(b),
{
    let hi = b / 16;
    let lo = b % 16;
    let hc: char = if hi < 10 {
        (hi + 0x30) as char
    } else {
        (hi + 55) as char
    };
    let lc: char = if lo < 10 {
        (lo + 0x30) as char
    } else {
        (lo + 55) as char
    };
    out.push(hc);
    out.push(lc);
    proof {
        assert(old(out)@ + hex_pair_upper(b) =~= old(out)@.push(
            digit_char_upper((b / 16) as nat),
        ).push(digit_char_upper((b % 16) as nat)));
    }
}

/// Renders `n` in decimal, as `u64::to_string` would.
pub fn u64_to_dec(n: u64) -> (r: String)
    ensures
        r@ == dec_digits(n as nat),
{
    let mut out = String::new();
    push_dec(n, &mut out);
    proof {
        assert(Seq::<char>::empty() + dec_digits(n as nat) =~= dec_digits(n as nat));
    }
    out
}

/// Renders `n` in lower-case hexadecimal with a `0x` prefix.
pub fn u64_to_hex_prefixed(n: u64) -> (r: String)
    ensures
        r@ == seq!['0', 'x'] + hex_digits(n as nat),
{
    let mut out = String::new();
    out.push('0');
    out.push('x');
    proof {
        assert(Seq::<char>::empty().push('0').push('x') =~= seq!['0', 'x']);
    }
    push_hex(n, &mut out);
    out
}

} // verus!
