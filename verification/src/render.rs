//! Verified text rendering: decimal numbers, zero padding, the elapsed
//! clock, and lowercase hex.

use vstd::prelude::*;
use vstd::string::*;

verus! {

/// The character of one decimal digit.
pub open spec fn digit_char(d: int) -> char
    recommends
        0 <= d < 10,
{
    if d == 0 {
        '0'
    } else if d == 1 {
        '1'
    } else if d == 2 {
        '2'
    } else if d == 3 {
        '3'
    } else if d == 4 {
        '4'
    } else if d == 5 {
        '5'
    } else if d == 6 {
        '6'
    } else if d == 7 {
        '7'
    } else if d == 8 {
        '8'
    } else {
        '9'
    }
}

/// The decimal rendering of a number, without leading zeros.
pub open spec fn dec_spec(n: nat) -> Seq<char>
    decreases n,
{
    if n < 10 {
        seq![digit_char(n as int)]
    } else {
        dec_spec(n / 10).push(digit_char((n % 10) as int))
    }
}

/// A number padded with zeros to at least two digits.
pub open spec fn pad2_spec(n: nat) -> Seq<char> {
    if n < 10 {
        seq!['0'] + dec_spec(n)
    } else {
        dec_spec(n)
    }
}

/// A number padded with zeros to at least four digits.
pub open spec fn pad4_spec(n: nat) -> Seq<char> {
    if n < 10 {
        seq!['0', '0', '0'] + dec_spec(n)
    } else if n < 100 {
        seq!['0', '0'] + dec_spec(n)
    } else if n < 1000 {
        seq!['0'] + dec_spec(n)
    } else {
        dec_spec(n)
    }
}

/// The elapsed-clock rendering: `[HH:MM:SS]`, each field two digits or
/// more for a large hour count.
pub open spec fn hms_spec(total: nat) -> Seq<char> {
    seq!['['] + pad2_spec(total / 3600) + seq![':'] + pad2_spec((total % 3600) / 60) + seq![':']
        + pad2_spec(total % 60) + seq![']']
}

/// Append one decimal digit.
pub(crate) fn push_digit(s: &mut String, d: u64)
    requires
        d < 10,
    ensures
        final(s)@ == old(s)@.push(digit_char(d as int)),
{
    if d == 0 {
        s.append("0");
        proof {
            reveal_strlit("0");
            assert(s@ =~= old(s)@.push('0'));
        }
    } else if d == 1 {
        s.append("1");
        proof {
            reveal_strlit("1");
            assert(s@ =~= old(s)@.push('1'));
        }
    } else if d == 2 {
        s.append("2");
        proof {
            reveal_strlit("2");
            assert(s@ =~= old(s)@.push('2'));
        }
    } else if d == 3 {
        s.append("3");
        proof {
            reveal_strlit("3");
            assert(s@ =~= old(s)@.push('3'));
        }
    } else if d == 4 {
        s.append("4");
        proof {
            reveal_strlit("4");
            assert(s@ =~= old(s)@.push('4'));
        }
    } else if d == 5 {
        s.append("5");
        proof {
            reveal_strlit("5");
            assert(s@ =~= old(s)@.push('5'));
        }
    } else if d == 6 {
        s.append("6");
        proof {
            reveal_strlit("6");
            assert(s@ =~= old(s)@.push('6'));
        }
    } else if d == 7 {
        s.append("7");
        proof {
            reveal_strlit("7");
            assert(s@ =~= old(s)@.push('7'));
        }
    } else if d == 8 {
        s.append("8");
        proof {
            reveal_strlit("8");
            assert(s@ =~= old(s)@.push('8'));
        }
    } else {
        s.append("9");
        proof {
            reveal_strlit("9");
            assert(s@ =~= old(s)@.push('9'));
        }
    }
}

/// Append a number in decimal.
pub(crate) fn push_u64(s: &mut String, n: u64)
    ensures
        final(s)@ == old(s)@ + dec_spec(n as nat),
    decreases n,
{
    if n < 10 {
        push_digit(s, n);
        proof {
            assert(s@ =~= old(s)@ + dec_spec(n as nat));
        }
    } else {
        push_u64(s, n / 10);
        push_digit(s, n % 10);
        proof {
            assert(s@ =~= old(s)@ + dec_spec(n as nat));
        }
    }
}

/// A number in decimal.
pub fn u64_string(n: u64) -> (r: String)
    ensures
        r@ == dec_spec(n as nat),
{
    let mut s = String::new();
    push_u64(&mut s, n);
    proof {
        assert(s@ =~= dec_spec(n as nat));
    }
    s
}

/// Append a number zero-padded to at least two digits.
pub(crate) fn push_pad2(s: &mut String, n: u64)
    ensures
        final(s)@ == old(s)@ + pad2_spec(n as nat),
{
    if n < 10 {
        push_digit(s, 0);
        push_digit(s, n);
        proof {
            assert(s@ =~= old(s)@ + pad2_spec(n as nat));
        }
    } else {
        push_u64(s, n);
    }
}

/// Append a number zero-padded to at least four digits.
pub(crate) fn push_pad4(s: &mut String, n: u64)
    ensures
        final(s)@ == old(s)@ + pad4_spec(n as nat),
{
    if n < 10 {
        push_digit(s, 0);
        push_digit(s, 0);
        push_digit(s, 0);
        push_digit(s, n);
        proof {
            assert(s@ =~= old(s)@ + pad4_spec(n as nat));
        }
    } else if n < 100 {
        push_digit(s, 0);
        push_digit(s, 0);
        push_u64(s, n);
        proof {
            assert(s@ =~= old(s)@ + pad4_spec(n as nat));
        }
    } else if n < 1000 {
        push_digit(s, 0);
        push_u64(s, n);
        proof {
            assert(s@ =~= old(s)@ + pad4_spec(n as nat));
        }
    } else {
        push_u64(s, n);
    }
}

/// The elapsed clock for the status bar.
pub fn format_seconds_as_hms(total_seconds: u64) -> (r: String)
    ensures
        r@ == hms_spec(total_seconds as nat),
{
    let mut s = String::new();
    s.append("[");
    push_pad2(&mut s, total_seconds / 3600);
    s.append(":");
    push_pad2(&mut s, (total_seconds % 3600) / 60);
    s.append(":");
    push_pad2(&mut s, total_seconds % 60);
    s.append("]");
    proof {
        reveal_strlit("[");
        reveal_strlit(":");
        reveal_strlit("]");
        assert(s@ =~= hms_spec(total_seconds as nat));
    }
    s
}

/// The character of one hex digit, lowercase.
pub open spec fn hex_digit_char(d: int) -> char
    recommends
        0 <= d < 16,
{
    if d < 10 {
        digit_char(d)
    } else if d == 10 {
        'a'
    } else if d == 11 {
        'b'
    } else if d == 12 {
        'c'
    } else if d == 13 {
        'd'
    } else if d == 14 {
        'e'
    } else {
        'f'
    }
}

/// Lowercase hex of a byte string: two digits per byte.
pub open spec fn hex_spec(b: Seq<u8>) -> Seq<char>
    decreases b.len(),
{
    if b.len() == 0 {
        Seq::empty()
    } else {
        hex_spec(b.drop_last()) + seq![
            hex_digit_char(b.last() as int / 16),
            hex_digit_char(b.last() as int % 16),
        ]
    }
}

/// Append one hex digit.
fn push_hex_digit(s: &mut String, d: u8)
    requires
        d < 16,
    ensures
        final(s)@ == old(s)@.push(hex_digit_char(d as int)),
{
    if d < 10 {
        push_digit(s, d as u64);
    } else if d == 10 {
        s.append("a");
        proof {
            reveal_strlit("a");
            assert(s@ =~= old(s)@.push('a'));
        }
    } else if d == 11 {
        s.append("b");
        proof {
            reveal_strlit("b");
            assert(s@ =~= old(s)@.push('b'));
        }
    } else if d == 12 {
        s.append("c");
        proof {
            reveal_strlit("c");
            assert(s@ =~= old(s)@.push('c'));
        }
    } else if d == 13 {
        s.append("d");
        proof {
            reveal_strlit("d");
            assert(s@ =~= old(s)@.push('d'));
        }
    } else if d == 14 {
        s.append("e");
        proof {
            reveal_strlit("e");
            assert(s@ =~= old(s)@.push('e'));
        }
    } else {
        s.append("f");
        proof {
            reveal_strlit("f");
            assert(s@ =~= old(s)@.push('f'));
        }
    }
}

/// Lowercase hex encoding of a byte string.
pub fn hex_lower(bytes: &Vec<u8>) -> (r: String)
    ensures
        r@ == hex_spec(bytes@),
{
    let mut s = String::new();
    let mut i: usize = 0;
    while i < bytes.len()
        invariant
            i <= bytes@.len(),
            s@ == hex_spec(bytes@.subrange(0, i as int)),
        decreases bytes@.len() - i,
    {
        let b = bytes[i];
        push_hex_digit(&mut s, b / 16);
        push_hex_digit(&mut s, b % 16);
        proof {
            let sub = bytes@.subrange(0, i as int + 1);
            assert(sub.drop_last() =~= bytes@.subrange(0, i as int));
            assert(sub.last() == bytes@[i as int]);
            assert(s@ =~= hex_spec(sub));
        }
        i += 1;
    }
    proof {
        assert(bytes@.subrange(0, bytes@.len() as int) =~= bytes@);
    }
    s
}

} // verus!
