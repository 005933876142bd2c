//! The color model: an 8-bit-per-channel RGB triplet with an exact
//! hexadecimal text round-trip and a deterministic load-to-hue gradient.

use vstd::prelude::*;

verus! {

use vstd::string::StrSliceExecFns;
use vstd::utf8::{
    decode_utf8, encode_utf8, encode_utf8_decode_utf8, encode_utf8_valid_utf8, is_ascii_chars,
    is_ascii_chars_encode_utf8, valid_utf8,
};

use crate::wire::string_from_utf8;

/// One RGB color, 8 bits per channel. An immutable value type.
#[derive(PartialEq, Eq, Structural, Copy, Clone, Debug)]
pub struct RGBColor {
    pub red: u8,
    pub green: u8,
    pub blue: u8,
}

/// The uppercase hexadecimal digit for a value below 16.
pub open spec fn spec_hex_digit(n: int) -> char {
    if n == 0 {
        '0'
    } else if n == 1 {
        '1'
    } else if n == 2 {
        '2'
    } else if n == 3 {
        '3'
    } else if n == 4 {
        '4'
    } else if n == 5 {
        '5'
    } else if n == 6 {
        '6'
    } else if n == 7 {
        '7'
    } else if n == 8 {
        '8'
    } else if n == 9 {
        '9'
    } else if n == 10 {
        'A'
    } else if n == 11 {
        'B'
    } else if n == 12 {
        'C'
    } else if n == 13 {
        'D'
    } else if n == 14 {
        'E'
    } else {
        'F'
    }
}

/// The value of one hexadecimal digit, upper or lower case; 16 when the
/// character is no hexadecimal digit at all.
pub open spec fn spec_hex_val(c: char) -> int {
    let u = c as int;
    if 48 <= u && u <= 57 {
        u - 48
    } else if 65 <= u && u <= 70 {
        u - 55
    } else if 97 <= u && u <= 102 {
        u - 87
    } else {
        16
    }
}

/// True when `c` is a hexadecimal digit of either case.
pub open spec fn spec_is_hex_digit(c: char) -> bool {
    spec_hex_val(c) < 16
}

/// True when `s` is exactly six hexadecimal digits: the `RRGGBB` shape.
pub open spec fn spec_is_hex6(s: Seq<char>) -> bool {
    &&& s.len() == 6
    &&& forall|i: int| 0 <= i < 6 ==> spec_is_hex_digit(#[trigger] s[i])
}

/// The `RRGGBB` hexadecimal text of a color, uppercase.
pub open spec fn spec_hex_format(c: RGBColor) -> Seq<char> {
    seq![
        spec_hex_digit(c.red as int / 16),
        spec_hex_digit(c.red as int % 16),
        spec_hex_digit(c.green as int / 16),
        spec_hex_digit(c.green as int % 16),
        spec_hex_digit(c.blue as int / 16),
        spec_hex_digit(c.blue as int % 16),
    ]
}

/// The color written by six hexadecimal digits, two per channel.
pub open spec fn spec_parse_hex(s: Seq<char>) -> RGBColor
    recommends
        spec_is_hex6(s),
{
    RGBColor {
        red: (spec_hex_val(s[0]) * 16 + spec_hex_val(s[1])) as u8,
        green: (spec_hex_val(s[2]) * 16 + spec_hex_val(s[3])) as u8,
        blue: (spec_hex_val(s[4]) * 16 + spec_hex_val(s[5])) as u8,
    }
}

/// The deterministic load-to-hue gradient. The load `step` is rescaled
/// between `start` and `end` out of `total` in hundredths, the hue is the
/// complement of that position split into six sectors, and the two varying
/// channels of each sector are scaled to a fixed ceiling of 235. All
/// arithmetic is exact fixed-point over the integers, so identical inputs
/// always give the identical color.
pub open spec fn spec_rainbow(step: u32, total: u32, start: u32, end: u32) -> RGBColor
    recommends
        0 < total,
{
    let q = 100 * (total as int);
    let sstep100 = (step as int) * (end as int - start as int) + 100 * (start as int);
    let h6 = 6 * (q - sstep100);
    let sector = h6 / q;
    let f = (h6 % q) * 235 / q;
    let g = (q - h6 % q) * 235 / q;
    if sector % 6 == 0 {
        RGBColor { red: 235, green: f as u8, blue: 0 }
    } else if sector % 6 == 1 {
        RGBColor { red: g as u8, green: 235, blue: 0 }
    } else if sector % 6 == 2 {
        RGBColor { red: 0, green: 235, blue: f as u8 }
    } else if sector % 6 == 3 {
        RGBColor { red: 0, green: g as u8, blue: 235 }
    } else if sector % 6 == 4 {
        RGBColor { red: f as u8, green: 0, blue: 235 }
    } else {
        RGBColor { red: 235, green: 0, blue: g as u8 }
    }
}

/// Hex-formatting a color and parsing the text back returns the same
/// color, for every color; the text is always six hexadecimal digits, so
/// formatting the reparsed color gives the same text again.
pub proof fn lemma_hex_round_trip(c: RGBColor)
    ensures
        spec_is_hex6(spec_hex_format(c)),
        spec_parse_hex(spec_hex_format(c)) == c,
{
    let s = spec_hex_format(c);
    assert forall|i: int| 0 <= i < 6 implies spec_is_hex_digit(#[trigger] s[i]) by {
        assert(s[0] == spec_hex_digit(c.red as int / 16));
        assert(s[1] == spec_hex_digit(c.red as int % 16));
        assert(s[2] == spec_hex_digit(c.green as int / 16));
        assert(s[3] == spec_hex_digit(c.green as int % 16));
        assert(s[4] == spec_hex_digit(c.blue as int / 16));
        assert(s[5] == spec_hex_digit(c.blue as int % 16));
    }
}

/// The exec mirror of [`spec_hex_val`].
fn hex_val(c: char) -> (v: u8)
    ensures
        v as int == spec_hex_val(c),
{
    let u = c as u32;
    if 48 <= u && u <= 57 {
        (u - 48) as u8
    } else if 65 <= u && u <= 70 {
        (u - 55) as u8
    } else if 97 <= u && u <= 102 {
        (u - 87) as u8
    } else {
        16
    }
}

/// The ASCII code of the uppercase hexadecimal digit for `n`.
fn hex_ascii(n: u8) -> (b: u8)
    requires
        n < 16,
    ensures
        b == spec_hex_digit(n as int) as u8,
        b < 128,
{
    if n < 10 {
        48 + n
    } else {
        55 + n
    }
}

impl RGBColor {
    pub fn new(red: u8, green: u8, blue: u8) -> (c: Self)
        ensures
            c == (RGBColor { red, green, blue }),
    {
        Self { red, green, blue }
    }

    pub fn black() -> (c: Self)
        ensures
            c == (RGBColor { red: 0u8, green: 0u8, blue: 0u8 }),
    {
        Self { red: 0, green: 0, blue: 0 }
    }

    /// Parses the exact `RRGGBB` shape, case-insensitively.
    pub fn from_str(s: &str) -> (c: Self)
        requires
            spec_is_hex6(s@),
        ensures
            c == spec_parse_hex(s@),
    {
        let d0 = hex_val(s.get_char(0));
        let d1 = hex_val(s.get_char(1));
        let d2 = hex_val(s.get_char(2));
        let d3 = hex_val(s.get_char(3));
        let d4 = hex_val(s.get_char(4));
        let d5 = hex_val(s.get_char(5));
        Self { red: d0 * 16 + d1, green: d2 * 16 + d3, blue: d4 * 16 + d5 }
    }

    /// Formats the color as its six-digit uppercase hexadecimal text.
    pub fn to_hex(&self) -> (r: String)
        ensures
            r@ == spec_hex_format(*self),
    {
        let mut bytes: Vec<u8> = Vec::new();
        bytes.push(hex_ascii(self.red / 16));
        bytes.push(hex_ascii(self.red % 16));
        bytes.push(hex_ascii(self.green / 16));
        bytes.push(hex_ascii(self.green % 16));
        bytes.push(hex_ascii(self.blue / 16));
        bytes.push(hex_ascii(self.blue % 16));
        proof {
            let target = spec_hex_format(*self);
            assert(is_ascii_chars(target)) by {
                assert forall|i: int| 0 <= i < target.len() implies '\0' <= #[trigger] target[i]
                    <= '\u{7f}' by {
                    assert(target[0] == spec_hex_digit(self.red as int / 16));
                    assert(target[1] == spec_hex_digit(self.red as int % 16));
                    assert(target[2] == spec_hex_digit(self.green as int / 16));
                    assert(target[3] == spec_hex_digit(self.green as int % 16));
                    assert(target[4] == spec_hex_digit(self.blue as int / 16));
                    assert(target[5] == spec_hex_digit(self.blue as int % 16));
                }
            }
            is_ascii_chars_encode_utf8(target);
            assert(bytes@ =~= encode_utf8(target));
            encode_utf8_valid_utf8(target);
            encode_utf8_decode_utf8(target);
        }
        match string_from_utf8(bytes) {
            Some(s) => s,
            None => {
                proof {
                    assert(false);
                }
                String::new()
            },
        }
    }

    /// The gradient constructor, computing exactly [`spec_rainbow`]. The
    /// preconditions keep the rescaled position inside the gradient: the
    /// window `[start, end]` must sit inside `[0, total]` and the rescaled
    /// step must not pass the end of it. No channel ever exceeds the fixed
    /// saturation ceiling of 235.
    pub fn rainbow(step: u32, total: u32, start: u32, end: u32) -> (c: Self)
        requires
            0 < total,
            start <= end,
            end <= total,
            (step as int) * (end as int - start as int) + 100 * (start as int) <= 100 * (
            total as int),
        ensures
            c == spec_rainbow(step, total, start, end),
            c.red <= 235,
            c.green <= 235,
            c.blue <= 235,
    {
        let q: u64 = 100 * (total as u64);
        let sstep100: u64 = (step as u64) * ((end - start) as u64) + 100 * (start as u64);
        let h6: u64 = 6 * (q - sstep100);
        let sector: u64 = h6 / q;
        let fnum: u64 = h6 % q;
        proof {
            assert((fnum * 235) as int / q as int <= 235) by (nonlinear_arith)
                requires
                    0 < q as int,
                    fnum as int <= q as int,
            ;
            assert(((q - fnum) * 235) as int / q as int <= 235) by (nonlinear_arith)
                requires
                    0 < q as int,
                    0 <= fnum as int <= q as int,
            ;
        }
        let f: u64 = fnum * 235 / q;
        let g: u64 = (q - fnum) * 235 / q;
        let sector6: u64 = sector % 6;
        if sector6 == 0 {
            Self { red: 235, green: f as u8, blue: 0 }
        } else if sector6 == 1 {
            Self { red: g as u8, green: 235, blue: 0 }
        } else if sector6 == 2 {
            Self { red: 0, green: 235, blue: f as u8 }
        } else if sector6 == 3 {
            Self { red: 0, green: g as u8, blue: 235 }
        } else if sector6 == 4 {
            Self { red: f as u8, green: 0, blue: 235 }
        } else {
            Self { red: 235, green: 0, blue: g as u8 }
        }
    }
}

} // verus!
