//! Theme colours and alignment choices, and the naming rules of the theme
//! store. A theme's sizes and spacings are floating point and live with the
//! application, which serializes themes to JSON.

use vstd::prelude::*;
use crate::text::{chars_of, is_ascii_digit, push_char};

pub mod store;

verus! {

/// RGBA colour as 4 bytes.
#[derive(Debug, Clone, Copy, PartialEq, Eq, Structural)]
pub struct Rgba {
    pub r: u8,
    pub g: u8,
    pub b: u8,
    pub a: u8,
}

/// The uppercase hex digit for a value below 16.
pub open spec fn hex_digit(n: int) -> char {
    if n < 10 {
        (('0' as u32) + n) as char
    } else {
        (('A' as u32) + n - 10) as char
    }
}

/// Two uppercase hex digits for a byte.
pub open spec fn hex_byte(b: u8) -> Seq<char> {
    seq![hex_digit(b as int / 16), hex_digit(b as int % 16)]
}

/// `#RRGGBB`, uppercase, alpha dropped.
pub open spec fn hex_of(c: Rgba) -> Seq<char> {
    seq!['#'] + hex_byte(c.r) + hex_byte(c.g) + hex_byte(c.b)
}

/// An ASCII hex digit, either case.
pub open spec fn is_hex_digit(c: char) -> bool {
    is_ascii_digit(c) || ('a' <= c && c <= 'f') || ('A' <= c && c <= 'F')
}

/// The value of an ASCII hex digit.
pub open spec fn hex_value(c: char) -> int {
    if is_ascii_digit(c) {
        (c as u32) - ('0' as u32)
    } else if 'a' <= c && c <= 'f' {
        (c as u32) - ('a' as u32) + 10
    } else {
        (c as u32) - ('A' as u32) + 10
    }
}

/// Every character is an ASCII hex digit.
pub open spec fn all_hex(h: Seq<char>) -> bool {
    forall|i: int| 0 <= i < h.len() ==> is_hex_digit(#[trigger] h[i])
}

/// The byte written by two hex digits.
pub open spec fn hex_pair(hi: char, lo: char) -> u8 {
    (hex_value(hi) * 16 + hex_value(lo)) as u8
}

/// What `#RRGGBB` / `RRGGBB` (either case) parses to, with alpha 255;
/// `None` for any other text.
pub open spec fn rgba_of_hex(s: Seq<char>) -> Option<Rgba> {
    let h = if s.len() > 0 && s[0] == '#' {
        s.drop_first()
    } else {
        s
    };
    if h.len() == 6 && all_hex(h) {
        Some(Rgba { r: hex_pair(h[0], h[1]), g: hex_pair(h[2], h[3]), b: hex_pair(h[4], h[5]), a: 255 })
    } else {
        None
    }
}

fn hex_digit_char(n: u8) -> (r: char)
    requires
        n < 16,
    ensures
        r == hex_digit(n as int),
{
    if n < 10 {
        (n + 48) as char
    } else {
        (n + 55) as char
    }
}

fn hex_value_of(c: char) -> (r: u8)
    requires
        is_hex_digit(c),
    ensures
        r == hex_value(c),
        r < 16,
{
    if '0' <= c && c <= '9' {
        (c as u8) - 48
    } else if 'a' <= c && c <= 'f' {
        (c as u8) - 87
    } else {
        (c as u8) - 55
    }
}

impl Rgba {
    pub fn new(r: u8, g: u8, b: u8, a: u8) -> (c: Self)
        ensures
            c == (Rgba { r, g, b, a }),
    {
        Rgba { r, g, b, a }
    }

    /// Format as `#RRGGBB` (uppercase, alpha dropped — the editor only edits RGB).
    pub fn to_hex(&self) -> (r: String)
        ensures
            r@ == hex_of(*self),
    {
        let mut s = String::new();
        push_char(&mut s, '#');
        push_char(&mut s, hex_digit_char(self.r / 16));
        push_char(&mut s, hex_digit_char(self.r % 16));
        push_char(&mut s, hex_digit_char(self.g / 16));
        push_char(&mut s, hex_digit_char(self.g % 16));
        push_char(&mut s, hex_digit_char(self.b / 16));
        push_char(&mut s, hex_digit_char(self.b % 16));
        assert(s@ == hex_of(*self));
        s
    }

    /// Parse `#RRGGBB` / `RRGGBB` (case-insensitive). Alpha is set to 255.
    /// Returns `None` for any non-6-hex-digit input.
    pub fn from_hex(s: &str) -> (r: Option<Rgba>)
        ensures
            r == rgba_of_hex(s@),
    {
        let v = chars_of(s);
        let start: usize = if v.len() > 0 && v[0] == '#' { 1 } else { 0 };
        let ghost h = if v@.len() > 0 && v@[0] == '#' { v@.drop_first() } else { v@ };
        assert(h == v@.skip(start as int));
        if v.len() - start != 6 {
            assert(h.len() != 6);
            return None;
        }
        let mut i: usize = 0;
        while i < 6
            invariant
                i <= 6,
                v.len() == start + 6,
                v@ == s@,
                h == v@.skip(start as int),
                h == (if v@.len() > 0 && v@[0] == '#' { v@.drop_first() } else { v@ }),
                forall|j: int| 0 <= j < i ==> is_hex_digit(#[trigger] h[j]),
            decreases 6 - i,
        {
            let c = v[start + i];
            if !(('0' <= c && c <= '9') || ('a' <= c && c <= 'f') || ('A' <= c && c <= 'F')) {
                assert(h[i as int] == c);
                assert(!is_hex_digit(h[i as int]));
                assert(!all_hex(h));
                return None;
            }
            i += 1;
        }
        let r = hex_value_of(v[start]) * 16 + hex_value_of(v[start + 1]);
        let g = hex_value_of(v[start + 2]) * 16 + hex_value_of(v[start + 3]);
        let b = hex_value_of(v[start + 4]) * 16 + hex_value_of(v[start + 5]);
        Some(Rgba::new(r, g, b, 255))
    }
}

proof fn lemma_hex_digit_round_trip(n: int)
    requires
        0 <= n < 16,
    ensures
        is_hex_digit(hex_digit(n)),
        hex_value(hex_digit(n)) == n,
{
}

/// Writing a colour as hex and reading it back gives the same colour, fully
/// opaque: `from_hex(to_hex(c))` is `c` with alpha 255.
pub proof fn hex_round_trip(c: Rgba)
    ensures
        rgba_of_hex(hex_of(c)) == Some(Rgba { a: 255, ..c }),
{
    let s = hex_of(c);
    let h = s.drop_first();
    lemma_hex_digit_round_trip(c.r as int / 16);
    lemma_hex_digit_round_trip(c.r as int % 16);
    lemma_hex_digit_round_trip(c.g as int / 16);
    lemma_hex_digit_round_trip(c.g as int % 16);
    lemma_hex_digit_round_trip(c.b as int / 16);
    lemma_hex_digit_round_trip(c.b as int % 16);
    assert(h == hex_byte(c.r) + hex_byte(c.g) + hex_byte(c.b));
    assert(all_hex(h));
}

/// Reading hex is case-insensitive and the '#' is optional: a parsed colour
/// written back gives the input's digits in uppercase behind a '#'.
pub proof fn hex_parse_then_format(s: Seq<char>)
    requires
        rgba_of_hex(s) is Some,
    ensures
        ({
            let h = if s.len() > 0 && s[0] == '#' { s.drop_first() } else { s };
            hex_of(rgba_of_hex(s).unwrap()) == seq!['#'] + h.map_values(|c: char| upper_hex(c))
        }),
{
    let h = if s.len() > 0 && s[0] == '#' { s.drop_first() } else { s };
    let c = rgba_of_hex(s).unwrap();
    assert forall|i: int| 0 <= i < 6 implies #[trigger] hex_digit(hex_value(h[i])) == upper_hex(h[i]) by {
        assert(is_hex_digit(h[i]));
    }
    assert(hex_of(c) =~= seq!['#'] + h.map_values(|c: char| upper_hex(c))) by {
        assert(hex_digit(hex_value(h[0])) == upper_hex(h[0]));
        assert(hex_digit(hex_value(h[1])) == upper_hex(h[1]));
        assert(hex_digit(hex_value(h[2])) == upper_hex(h[2]));
        assert(hex_digit(hex_value(h[3])) == upper_hex(h[3]));
        assert(hex_digit(hex_value(h[4])) == upper_hex(h[4]));
        assert(hex_digit(hex_value(h[5])) == upper_hex(h[5]));
    }
}

/// A hex digit in uppercase.
pub open spec fn upper_hex(c: char) -> char {
    if 'a' <= c && c <= 'f' {
        ((c as u32) - 32) as char
    } else {
        c
    }
}

#[derive(Debug, Clone, Copy, PartialEq, Eq, Structural)]
pub enum HAlign {
    Left,
    Center,
    Right,
}

#[derive(Debug, Clone, Copy, PartialEq, Eq, Structural)]
pub enum VAlign {
    Top,
    Middle,
    Bottom,
}

#[derive(Debug, Clone, Copy, PartialEq, Eq, Structural)]
pub enum ImageFit {
    Cover,
    Contain,
}

#[derive(Debug, Clone, Copy, PartialEq, Eq, Structural)]
pub enum FooterContent {
    HymnNumberTitle,
    SlideCounter,
    /// No footer text (called `None` in saved themes).
    NoContent,
}

#[derive(Debug, Clone, Copy, PartialEq, Eq, Structural)]
pub struct FooterStyle {
    pub show: bool,
    pub content: FooterContent,
}

} // verus!
