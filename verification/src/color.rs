//! The two piece colors, and the ASCII-case convention that encodes them:
//! uppercase letters denote White pieces, lowercase letters Black ones.

use vstd::prelude::*;

verus! {

/// A side: White or Black.
#[derive(Copy, Clone, Debug, PartialEq, Eq, Structural)]
pub enum Color {
    White,
    Black,
}

/// ASCII uppercasing: `'a'..='z'` maps 32 code points down, all else is kept.
pub open spec fn spec_upper(c: char) -> char {
    if 97 <= c as int <= 122 {
        (c as int - 32) as char
    } else {
        c
    }
}

/// ASCII lowercasing: `'A'..='Z'` maps 32 code points up, all else is kept.
pub open spec fn spec_lower(c: char) -> char {
    if 65 <= c as int <= 90 {
        (c as int + 32) as char
    } else {
        c
    }
}

impl Color {
    /// The letter case that encodes this color.
    pub open spec fn spec_set_ascii_case(self, c: char) -> char {
        match self {
            Color::White => spec_upper(c),
            Color::Black => spec_lower(c),
        }
    }

    /// Force `c` into the case that encodes this color: uppercase for
    /// White, lowercase for Black.
    pub fn set_ascii_case(self, c: char) -> (r: char)
        ensures
            r == self.spec_set_ascii_case(c),
    {
        let v = c as u32;
        match self {
            Color::White => {
                if 97 <= v && v <= 122 {
                    ((v - 32) as u8) as char
                } else {
                    c
                }
            },
            Color::Black => {
                if 65 <= v && v <= 90 {
                    ((v + 32) as u8) as char
                } else {
                    c
                }
            },
        }
    }

    /// The color a letter's case encodes: uppercase means White,
    /// anything else means Black.
    pub open spec fn spec_from_char_case(c: char) -> Color {
        if 65 <= c as int <= 90 {
            Color::White
        } else {
            Color::Black
        }
    }

    /// Decode a color from a letter's case.
    pub fn from_char_case(c: char) -> (r: Color)
        ensures
            r == Color::spec_from_char_case(c),
    {
        let v = c as u32;
        if 65 <= v && v <= 90 {
            Color::White
        } else {
            Color::Black
        }
    }

    /// The other color.
    pub open spec fn spec_opposite(self) -> Color {
        match self {
            Color::White => Color::Black,
            Color::Black => Color::White,
        }
    }

    /// The other color: not White is Black and not Black is White.
    pub fn opposite(self) -> (r: Color)
        ensures
            r == self.spec_opposite(),
    {
        match self {
            Color::White => Color::Black,
            Color::Black => Color::White,
        }
    }

    /// The side letter: 'w' for White, 'b' for Black.
    pub open spec fn spec_to_char(self) -> char {
        match self {
            Color::White => 'w',
            Color::Black => 'b',
        }
    }

    /// Encode as the side letter 'w' or 'b'.
    pub fn to_char(self) -> (r: char)
        ensures
            r == self.spec_to_char(),
    {
        match self {
            Color::White => 'w',
            Color::Black => 'b',
        }
    }

    /// Decode a side letter, case-insensitively.
    pub open spec fn spec_from_char(c: char) -> Color {
        if spec_lower(c) == 'w' {
            Color::White
        } else {
            Color::Black
        }
    }

    /// Decode a side letter, case-insensitively; other characters are a
    /// caller error.
    pub fn from_char(c: char) -> (r: Color)
        requires
            c == 'w' || c == 'W' || c == 'b' || c == 'B',
        ensures
            r == Color::spec_from_char(c),
    {
        if c == 'w' || c == 'W' {
            Color::White
        } else {
            Color::Black
        }
    }
}

/// A color letter encodes and decodes to the same color.
pub proof fn lemma_color_char_roundtrip(color: Color)
    ensures
        Color::spec_from_char(color.spec_to_char()) == color,
{
}

} // verus!
