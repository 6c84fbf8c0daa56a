//! Decimal and hexadecimal rendering of numeric attribute values.
//!
//! ConfigFS expects the 16-bit identity fields (`idVendor`, `idProduct`,
//! `bcdDevice`, `bcdUSB`, and the string-table language id) as lowercase,
//! `0x`-prefixed hex, zero-padded to four digits.  Other numeric
//! attributes are written as plain decimal ASCII.

use vstd::prelude::*;
use vstd::string::StringExecFns;

verus! {

/// The character for one digit value, `0`-`9` then `a`-`f`.
pub open spec fn digit_char(d: int) -> char
    recommends
        0 <= d < 16,
{
    if d == 0 {
        '0'
    } else if d == 1 {
        '1'
    } else if d == 2 {
        '2'
    } else if d == 3 {
        '3'
    } else if d == 4 {
        '4'
    } else if d == 5 {
        '5'
    } else if d == 6 {
        '6'
    } else if d == 7 {
        '7'
    } else if d == 8 {
        '8'
    } else if d == 9 {
        '9'
    } else if d == 10 {
        'a'
    } else if d == 11 {
        'b'
    } else if d == 12 {
        'c'
    } else if d == 13 {
        'd'
    } else if d == 14 {
        'e'
    } else {
        'f'
    }
}

/// The decimal rendering of `n`, most significant digit first, no sign,
/// no leading zeros (except for `n == 0` itself).
pub open spec fn dec_chars(n: nat) -> Seq<char>
    decreases n,
{
    if n < 10 {
        seq![digit_char(n as int)]
    } else {
        dec_chars(n / 10) + seq![digit_char((n % 10) as int)]
    }
}

/// The `0x`-prefixed, four-digit, lowercase hex rendering of `v`.
pub open spec fn hex4_chars(v: u16) -> Seq<char> {
    seq![
        '0',
        'x',
        digit_char(v as int / 4096 % 16),
        digit_char(v as int / 256 % 16),
        digit_char(v as int / 16 % 16),
        digit_char(v as int % 16),
    ]
}

/// The string for one digit value.
fn digit_str(d: u64) -> (r: &'static str)
    requires
        d < 16,
    ensures
        r@ == seq![digit_char(d as int)],
{
    proof {
        reveal_strlit("0");
        reveal_strlit("1");
        reveal_strlit("2");
        reveal_strlit("3");
        reveal_strlit("4");
        reveal_strlit("5");
        reveal_strlit("6");
        reveal_strlit("7");
        reveal_strlit("8");
        reveal_strlit("9");
        reveal_strlit("a");
        reveal_strlit("b");
        reveal_strlit("c");
        reveal_strlit("d");
        reveal_strlit("e");
        reveal_strlit("f");
    }
    let r: &'static str = match d {
        0 => "0",
        1 => "1",
        2 => "2",
        3 => "3",
        4 => "4",
        5 => "5",
        6 => "6",
        7 => "7",
        8 => "8",
        9 => "9",
        10 => "a",
        11 => "b",
        12 => "c",
        13 => "d",
        14 => "e",
        _ => "f",
    };
    proof {
        assert(r@ =~= seq![digit_char(d as int)]);
    }
    r
}

/// Renders `n` in decimal ASCII.
pub fn dec_u64(n: u64) -> (r: String)
    ensures
        r@ == dec_chars(n as nat),
    decreases n,
{
    if n < 10 {
        digit_str(n).to_owned()
    } else {
        let mut s = dec_u64(n / 10);
        s.append(digit_str(n % 10));
        proof {
            assert(s@ =~= dec_chars(n as nat));
        }
        s
    }
}

/// Renders `v` as `0x`-prefixed, zero-padded, lowercase four-digit hex.
pub fn hex4(v: u16) -> (r: String)
    ensures
        r@ == hex4_chars(v),
{
    proof {
        reveal_strlit("0x");
    }
    let mut s = "0x".to_owned();
    s.append(digit_str((v / 4096 % 16) as u64));
    s.append(digit_str((v / 256 % 16) as u64));
    s.append(digit_str((v / 16 % 16) as u64));
    s.append(digit_str((v % 16) as u64));
    proof {
        assert(s@ =~= hex4_chars(v));
    }
    s
}

} // verus!
