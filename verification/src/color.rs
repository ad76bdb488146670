//! Colors: either an RGB triple (serialized as an uppercase `#RRGGBB`
//! string), one of sixteen fixed legacy colors (a single lowercase hex
//! digit), the reset marker (`r`), or no color at all (the empty string,
//! which the encoder omits).

use vstd::prelude::*;

use crate::text::chars_to_string;

verus! {

/// A color, as supplied to the builder.  `NoColor` means "no color set".
#[derive(PartialEq, Eq, Debug, Clone, Copy)]
pub enum Color {
    RGB(u8, u8, u8),
    Black,
    DarkBlue,
    DarkGreen,
    DarkCyan,
    DarkRed,
    Purple,
    Gold,
    Gray,
    DarkGray,
    Blue,
    Lime,
    Cyan,
    Red,
    Pink,
    Yellow,
    White,
    Reset,
    NoColor,
}

/// The uppercase hexadecimal digit for a value below sixteen.
pub open spec fn hex_upper(n: int) -> char {
    if n == 0 {
        '0'
    } else if n == 1 {
        '1'
    } else if n == 2 {
        '2'
    } else if n == 3 {
        '3'
    } else if n == 4 {
        '4'
    } else if n == 5 {
        '5'
    } else if n == 6 {
        '6'
    } else if n == 7 {
        '7'
    } else if n == 8 {
        '8'
    } else if n == 9 {
        '9'
    } else if n == 10 {
        'A'
    } else if n == 11 {
        'B'
    } else if n == 12 {
        'C'
    } else if n == 13 {
        'D'
    } else if n == 14 {
        'E'
    } else {
        'F'
    }
}

/// The string form of a color: `#RRGGBB` for an RGB triple, a single legacy
/// code character otherwise, and the empty sequence for no color.
pub open spec fn color_code_v(c: Color) -> Seq<char> {
    match c {
        Color::RGB(r, g, b) => seq![
            '#',
            hex_upper(r as int / 16),
            hex_upper(r as int % 16),
            hex_upper(g as int / 16),
            hex_upper(g as int % 16),
            hex_upper(b as int / 16),
            hex_upper(b as int % 16),
        ],
        Color::Black => seq!['0'],
        Color::DarkBlue => seq!['1'],
        Color::DarkGreen => seq!['2'],
        Color::DarkCyan => seq!['3'],
        Color::DarkRed => seq!['4'],
        Color::Purple => seq!['5'],
        Color::Gold => seq!['6'],
        Color::Gray => seq!['7'],
        Color::DarkGray => seq!['8'],
        Color::Blue => seq!['9'],
        Color::Lime => seq!['a'],
        Color::Cyan => seq!['b'],
        Color::Red => seq!['c'],
        Color::Pink => seq!['d'],
        Color::Yellow => seq!['e'],
        Color::White => seq!['f'],
        Color::Reset => seq!['r'],
        Color::NoColor => Seq::empty(),
    }
}

/// A color string that the encoder treats as "no color": the none-value, the
/// reset code, or the word `reset`.
pub open spec fn is_default_color_v(s: Seq<char>) -> bool {
    s == Seq::<char>::empty() || s == seq!['r'] || s == seq!['r', 'e', 's', 'e', 't']
}

fn hex_upper_digit(n: u8) -> (c: char)
    requires
        n < 16,
    ensures
        c == hex_upper(n as int),
{
    if n == 0 {
        '0'
    } else if n == 1 {
        '1'
    } else if n == 2 {
        '2'
    } else if n == 3 {
        '3'
    } else if n == 4 {
        '4'
    } else if n == 5 {
        '5'
    } else if n == 6 {
        '6'
    } else if n == 7 {
        '7'
    } else if n == 8 {
        '8'
    } else if n == 9 {
        '9'
    } else if n == 10 {
        'A'
    } else if n == 11 {
        'B'
    } else if n == 12 {
        'C'
    } else if n == 13 {
        'D'
    } else if n == 14 {
        'E'
    } else {
        'F'
    }
}

impl Color {
    /// The string this color serializes to, exactly as `color_code_v` states.
    pub fn code(&self) -> (r: String)
        ensures
            r@ == color_code_v(*self),
    {
        let mut v: Vec<char> = Vec::new();
        match self {
            Color::RGB(r, g, b) => {
                v.push('#');
                v.push(hex_upper_digit(*r / 16));
                v.push(hex_upper_digit(*r % 16));
                v.push(hex_upper_digit(*g / 16));
                v.push(hex_upper_digit(*g % 16));
                v.push(hex_upper_digit(*b / 16));
                v.push(hex_upper_digit(*b % 16));
            },
            Color::Black => v.push('0'),
            Color::DarkBlue => v.push('1'),
            Color::DarkGreen => v.push('2'),
            Color::DarkCyan => v.push('3'),
            Color::DarkRed => v.push('4'),
            Color::Purple => v.push('5'),
            Color::Gold => v.push('6'),
            Color::Gray => v.push('7'),
            Color::DarkGray => v.push('8'),
            Color::Blue => v.push('9'),
            Color::Lime => v.push('a'),
            Color::Cyan => v.push('b'),
            Color::Red => v.push('c'),
            Color::Pink => v.push('d'),
            Color::Yellow => v.push('e'),
            Color::White => v.push('f'),
            Color::Reset => v.push('r'),
            Color::NoColor => (),
        }
        proof {
            assert(v@ =~= color_code_v(*self));
        }
        chars_to_string(&v)
    }
}

/// Whether a color string belongs to the "no color" equivalence class, whose
/// members the encoder omits from the output object.
pub fn is_default_color(s: &String) -> (r: bool)
    ensures
        r == is_default_color_v(s@),
{
    let v = crate::text::str_to_chars(s.as_str());
    if v.len() == 0 {
        proof {
            assert(s@ =~= Seq::<char>::empty());
        }
        return true;
    }
    if v.len() == 1 && v[0] == 'r' {
        proof {
            assert(s@ =~= seq!['r']);
        }
        return true;
    }
    if v.len() == 5 && v[0] == 'r' && v[1] == 'e' && v[2] == 's' && v[3] == 'e' && v[4] == 't' {
        proof {
            assert(s@ =~= seq!['r', 'e', 's', 'e', 't']);
        }
        return true;
    }
    proof {
        assert(s@ != Seq::<char>::empty() && s@ != seq!['r'] && s@ != seq!['r', 'e', 's', 'e', 't']);
    }
    false
}

} // verus!
