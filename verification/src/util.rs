//! Hex-digit parsing and printing helpers shared by the assembler's lexer
//! and the image emitters.

use vstd::prelude::*;
use vstd::string::StringSliceAdditionalSpecFns;
use crate::emulator::seq_vals;
use crate::nibble::u4;

verus! {

/// The value of one hex digit byte, upper or lower case.
pub open spec fn hex_digit_spec(b: u8) -> Option<u8> {
    if 48 <= b <= 57 {
        Some((b - 48) as u8)
    } else if 97 <= b <= 102 {
        Some((b - 87) as u8)
    } else if 65 <= b <= 70 {
        Some((b - 55) as u8)
    } else {
        None
    }
}

/// The value of a word that is exactly one hex digit.
pub open spec fn parse_hex4_spec(w: Seq<u8>) -> Option<u8> {
    if w.len() == 1 {
        hex_digit_spec(w[0])
    } else {
        None
    }
}

/// The value of a word that is exactly two hex digits, high digit first.
pub open spec fn parse_hex8_spec(w: Seq<u8>) -> Option<u8> {
    if w.len() == 2 {
        match (hex_digit_spec(w[0]), hex_digit_spec(w[1])) {
            (Some(h), Some(l)) => Some((16 * h + l) as u8),
            _ => None,
        }
    } else {
        None
    }
}

/// The value of one hex digit byte, upper or lower case.
pub fn hex_digit(b: u8) -> (r: Option<u8>)
    ensures
        r == hex_digit_spec(b),
{
    if 48 <= b && b <= 57 {
        Some(b - 48)
    } else if 97 <= b && b <= 102 {
        Some(b - 87)
    } else if 65 <= b && b <= 70 {
        Some(b - 55)
    } else {
        None
    }
}

/// Parse a word of exactly one hex digit into a nibble.
pub fn parse_hex4_bytes(w: &[u8]) -> (r: Option<u4>)
    ensures
        (r is Some) == (parse_hex4_spec(w@) is Some),
        r matches Some(v) ==> parse_hex4_spec(w@) == Some(v.val()),
{
    if w.len() != 1 {
        return None;
    }
    match hex_digit(w[0]) {
        Some(v) => Some(u4::from_low(v)),
        None => None,
    }
}

/// Parse a word of exactly two hex digits into a byte, high digit first.
pub fn parse_hex8_bytes(w: &[u8]) -> (r: Option<u8>)
    ensures
        r == parse_hex8_spec(w@),
{
    if w.len() != 2 {
        return None;
    }
    let h = match hex_digit(w[0]) {
        Some(v) => v,
        None => {
            return None;
        },
    };
    let l = match hex_digit(w[1]) {
        Some(v) => v,
        None => {
            return None;
        },
    };
    Some(16 * h + l)
}

/// Parse a string of exactly one hex digit, either case, into a nibble.
pub fn parse_hex4(str: &str) -> (r: Option<u4>)
    ensures
        (r is Some) == (parse_hex4_spec(str.spec_bytes()) is Some),
        r matches Some(v) ==> parse_hex4_spec(str.spec_bytes()) == Some(v.val()),
{
    parse_hex4_bytes(str.as_bytes())
}

/// Parse a string of exactly two hex digits, either case, into a byte.
pub fn parse_hex8(str: &str) -> (r: Option<u8>)
    ensures
        r == parse_hex8_spec(str.spec_bytes()),
{
    parse_hex8_bytes(str.as_bytes())
}

/// The lower-case hex digit character of a nibble value.
pub open spec fn hex_char_of(v: u8) -> char
    recommends
        v < 16,
{
    if v == 0 {
        '0'
    } else if v == 1 {
        '1'
    } else if v == 2 {
        '2'
    } else if v == 3 {
        '3'
    } else if v == 4 {
        '4'
    } else if v == 5 {
        '5'
    } else if v == 6 {
        '6'
    } else if v == 7 {
        '7'
    } else if v == 8 {
        '8'
    } else if v == 9 {
        '9'
    } else if v == 10 {
        'a'
    } else if v == 11 {
        'b'
    } else if v == 12 {
        'c'
    } else if v == 13 {
        'd'
    } else if v == 14 {
        'e'
    } else {
        'f'
    }
}

/// The lower-case hex digit byte of a nibble value.
pub open spec fn hex_byte_of(v: u8) -> u8
    recommends
        v < 16,
{
    if v < 10 {
        (48 + v) as u8
    } else {
        (87 + v) as u8
    }
}

/// The digit byte of a nibble value, for emitted text.
pub fn hex_byte(val: u4) -> (r: u8)
    ensures
        r == hex_byte_of(val.val()),
{
    let v = val.into_low();
    if v < 10 {
        48 + v
    } else {
        87 + v
    }
}

/// A nibble printed as `0x` and one lower-case hex digit.
pub open spec fn to_hex4_chars(v: u8) -> Seq<char>
    recommends
        v < 16,
{
    seq!['0', 'x', hex_char_of(v)]
}

/// Print a nibble as `0x` and one lower-case hex digit.
pub fn to_hex4(val: u4) -> (r: String)
    ensures
        r@ == to_hex4_chars(val.val()),
{
    let v = val.into_low();
    let s: &str = if v == 0 {
        proof {
            reveal_strlit("0x0");
        }
        "0x0"
    } else if v == 1 {
        proof {
            reveal_strlit("0x1");
        }
        "0x1"
    } else if v == 2 {
        proof {
            reveal_strlit("0x2");
        }
        "0x2"
    } else if v == 3 {
        proof {
            reveal_strlit("0x3");
        }
        "0x3"
    } else if v == 4 {
        proof {
            reveal_strlit("0x4");
        }
        "0x4"
    } else if v == 5 {
        proof {
            reveal_strlit("0x5");
        }
        "0x5"
    } else if v == 6 {
        proof {
            reveal_strlit("0x6");
        }
        "0x6"
    } else if v == 7 {
        proof {
            reveal_strlit("0x7");
        }
        "0x7"
    } else if v == 8 {
        proof {
            reveal_strlit("0x8");
        }
        "0x8"
    } else if v == 9 {
        proof {
            reveal_strlit("0x9");
        }
        "0x9"
    } else if v == 10 {
        proof {
            reveal_strlit("0xa");
        }
        "0xa"
    } else if v == 11 {
        proof {
            reveal_strlit("0xb");
        }
        "0xb"
    } else if v == 12 {
        proof {
            reveal_strlit("0xc");
        }
        "0xc"
    } else if v == 13 {
        proof {
            reveal_strlit("0xd");
        }
        "0xd"
    } else if v == 14 {
        proof {
            reveal_strlit("0xe");
        }
        "0xe"
    } else {
        proof {
            reveal_strlit("0xf");
        }
        "0xf"
    };
    proof {
        assert(s@ =~= to_hex4_chars(val.val()));
    }
    s.to_owned()
}

/// True of a 16-cell page holding only zero nibbles.
pub open spec fn zero_page(m: Seq<u8>, p: int) -> bool {
    forall|i: int| 16 * p <= i < 16 * p + 16 ==> m[i] == 0
}

/// How many of the first `p` pages hold only zero nibbles.
pub open spec fn count_zero_pages_upto(m: Seq<u8>, p: int) -> int
    decreases p,
{
    if p <= 0 {
        0
    } else {
        count_zero_pages_upto(m, p - 1) + if zero_page(m, p - 1) {
            1int
        } else {
            0int
        }
    }
}

/// Count the image's 16-nibble pages that hold only zeros, for the
/// memory-usage report.
pub fn count_nonzero_pages(data: &[u4; 256]) -> (r: usize)
    ensures
        r == count_zero_pages_upto(seq_vals(data@), 16),
{
    let ghost m = seq_vals(data@);
    let mut count: usize = 0;
    let mut p: usize = 0;
    while p < 16
        invariant
            p <= 16,
            count <= p,
            count == count_zero_pages_upto(m, p as int),
            m == seq_vals(data@),
        decreases 16 - p,
    {
        let mut zero = true;
        let mut j: usize = 0;
        while j < 16
            invariant
                p < 16,
                j <= 16,
                m == seq_vals(data@),
                zero == (forall|i: int| 16 * p <= i < 16 * p + j ==> m[i] == 0),
            decreases 16 - j,
        {
            let x = data[16 * p + j].into_low();
            proof {
                assert(m[16 * p + j] == data@[16 * p + j].val());
            }
            if x != 0 {
                zero = false;
            }
            j += 1;
        }
        if zero {
            count += 1;
        }
        p += 1;
    }
    count
}

} // verus!
