use vstd::prelude::*;

verus! {

/// Why a hex color was not accepted.
#[derive(Debug, Clone, Copy, PartialEq, Eq, Structural)]
pub enum HexColorError {
    /// Not 6 or 8 characters after the leading `#` signs.
    WrongLength,
    /// A pair of characters is not a hexadecimal number.
    InvalidDigit,
}

/// Value of an ASCII hexadecimal digit.
pub open spec fn hex_value(b: u8) -> Option<int> {
    if 48 <= b <= 57 {
        Some(b - 48)
    } else if 65 <= b <= 70 {
        Some(b - 55)
    } else if 97 <= b <= 102 {
        Some(b - 87)
    } else {
        None
    }
}

/// The byte that two characters denote as `u8::from_str_radix(_, 16)`
/// reads them: two hex digits, or a `+` sign and one digit.
pub open spec fn hex_pair(a: u8, b: u8) -> Option<u8> {
    match (hex_value(a), hex_value(b)) {
        (Some(x), Some(y)) => Some((x * 16 + y) as u8),
        _ => if a == 43 {
            match hex_value(b) {
                Some(y) => Some(y as u8),
                None => None,
            }
        } else {
            None
        },
    }
}

/// The text without its leading `#` signs.
pub open spec fn strip_hashes(s: Seq<u8>) -> Seq<u8>
    decreases s.len(),
{
    if s.len() > 0 && s[0] == 35 {
        strip_hashes(s.drop_first())
    } else {
        s
    }
}

/// RGBA color written as `RRGGBB` or `RRGGBBAA` in hexadecimal after any
/// number of `#` signs (alpha 255 when omitted), or the reason it is not one.
pub open spec fn hex_color(s: Seq<u8>) -> core::result::Result<Seq<u8>, HexColorError> {
    let t = strip_hashes(s);
    if t.len() != 6 && t.len() != 8 {
        Err(HexColorError::WrongLength)
    } else {
        let alpha = if t.len() == 8 {
            hex_pair(t[6], t[7])
        } else {
            Some(255u8)
        };
        match (hex_pair(t[0], t[1]), hex_pair(t[2], t[3]), hex_pair(t[4], t[5]), alpha) {
            (Some(r), Some(g), Some(b), Some(a)) => Ok(seq![r, g, b, a]),
            _ => Err(HexColorError::InvalidDigit),
        }
    }
}

fn hex_digit(b: u8) -> (r: Option<u8>)
    ensures
        match hex_value(b) {
            Some(v) => r == Some(v as u8),
            None => r is None,
        },
{
    if 48 <= b && b <= 57 {
        Some(b - 48)
    } else if 65 <= b && b <= 70 {
        Some(b - 55)
    } else if 97 <= b && b <= 102 {
        Some(b - 87)
    } else {
        None
    }
}

fn parse_pair(a: u8, b: u8) -> (r: Option<u8>)
    ensures
        r == hex_pair(a, b),
{
    match (hex_digit(a), hex_digit(b)) {
        (Some(x), Some(y)) => Some(x * 16 + y),
        _ => if a == 43 {
            hex_digit(b)
        } else {
            None
        },
    }
}

/// Parse a hex color such as `#FF0000` or `FF000080`.
pub fn parse_hex_color(s: &[u8]) -> (r: core::result::Result<[u8; 4], HexColorError>)
    ensures
        match hex_color(s@) {
            Ok(c) => r matches Ok(v) && v@ == c,
            Err(e) => r == Err::<[u8; 4], HexColorError>(e),
        },
{
    let mut start: usize = 0;
    proof {
        assert(s@.subrange(0, s@.len() as int) =~= s@);
    }
    while start < s.len() && s[start] == 35
        invariant
            start <= s@.len(),
            strip_hashes(s@.subrange(start as int, s@.len() as int)) == strip_hashes(s@),
        decreases s@.len() - start,
    {
        proof {
            let rest = s@.subrange(start as int, s@.len() as int);
            assert(rest.drop_first() =~= s@.subrange(start + 1, s@.len() as int));
        }
        start = start + 1;
    }
    let ghost t = s@.subrange(start as int, s@.len() as int);
    proof {
        assert(strip_hashes(t) == t);
    }
    let n = s.len() - start;
    if n != 6 && n != 8 {
        return Err(HexColorError::WrongLength);
    }
    let r = parse_pair(s[start], s[start + 1]);
    let g = parse_pair(s[start + 2], s[start + 3]);
    let b = parse_pair(s[start + 4], s[start + 5]);
    let a = if n == 8 {
        parse_pair(s[start + 6], s[start + 7])
    } else {
        Some(255u8)
    };
    match (r, g, b, a) {
        (Some(r), Some(g), Some(b), Some(a)) => {
            let color: [u8; 4] = [r, g, b, a];
            proof {
                assert(color@ =~= seq![r, g, b, a]);
            }
            Ok(color)
        },
        _ => Err(HexColorError::InvalidDigit),
    }
}

} // verus!
