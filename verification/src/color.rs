//! RGB colours, their `#RRGGBB` text form, and the contrast adjuster that
//! keeps dim text legible on arbitrary powerline backgrounds.

use vstd::prelude::*;

verus! {

/// An RGB colour with 8-bit channels, written `#RRGGBB` in text.
#[derive(Clone, Copy, Debug, PartialEq, Eq, Structural)]
pub struct Rgb {
    pub r: u8,
    pub g: u8,
    pub b: u8,
}

/// The character for one hexadecimal digit (upper case).
pub open spec fn hex_digit(n: int) -> char {
    if n == 0 {
        '0'
    } else if n == 1 {
        '1'
    } else if n == 2 {
        '2'
    } else if n == 3 {
        '3'
    } else if n == 4 {
        '4'
    } else if n == 5 {
        '5'
    } else if n == 6 {
        '6'
    } else if n == 7 {
        '7'
    } else if n == 8 {
        '8'
    } else if n == 9 {
        '9'
    } else if n == 10 {
        'A'
    } else if n == 11 {
        'B'
    } else if n == 12 {
        'C'
    } else if n == 13 {
        'D'
    } else if n == 14 {
        'E'
    } else {
        'F'
    }
}

/// Two hexadecimal digits for one channel.
pub open spec fn hex_byte(b: u8) -> Seq<char> {
    seq![hex_digit(b as int / 16), hex_digit(b as int % 16)]
}

/// The text form of a colour: `#` followed by six hexadecimal digits.
pub open spec fn hex_of(c: Rgb) -> Seq<char> {
    seq!['#'] + hex_byte(c.r) + hex_byte(c.g) + hex_byte(c.b)
}

fn hex_digit_char(n: u8) -> (c: char)
    requires
        n < 16,
    ensures
        c == hex_digit(n as int),
{
    match n {
        0 => '0',
        1 => '1',
        2 => '2',
        3 => '3',
        4 => '4',
        5 => '5',
        6 => '6',
        7 => '7',
        8 => '8',
        9 => '9',
        10 => 'A',
        11 => 'B',
        12 => 'C',
        13 => 'D',
        14 => 'E',
        _ => 'F',
    }
}

/// The `#RRGGBB` form of a colour as characters.
pub fn hex_chars(c: Rgb) -> (v: Vec<char>)
    ensures
        v@ == hex_of(c),
{
    let mut v: Vec<char> = Vec::new();
    v.push('#');
    v.push(hex_digit_char(c.r / 16));
    v.push(hex_digit_char(c.r % 16));
    v.push(hex_digit_char(c.g / 16));
    v.push(hex_digit_char(c.g % 16));
    v.push(hex_digit_char(c.b / 16));
    v.push(hex_digit_char(c.b % 16));
    proof {
        assert(v@ =~= hex_of(c));
    }
    v
}

/// Addition of two channels, clamped at the channel maximum.
pub open spec fn sat_add(a: u8, b: u8) -> u8 {
    if a + b > 255 {
        255u8
    } else {
        (a + b) as u8
    }
}

/// The distance between two channel values.
pub open spec fn abs_diff(a: u8, b: u8) -> u8 {
    if a >= b {
        (a - b) as u8
    } else {
        (b - a) as u8
    }
}

/// Per-channel contrast deltas of a foreground colour against a reference
/// background; adding them to a new background approximates the original
/// contrast.  The approximation assumes each channel contributes linearly
/// to perceived contrast.
#[derive(Clone, Copy, Debug, PartialEq, Eq, Structural)]
pub struct ColorAdjuster {
    pub r: u8,
    pub g: u8,
    pub b: u8,
}

/// The adjuster derived from a reference background and a foreground.
pub open spec fn spec_adjuster(bg: Rgb, fg: Rgb) -> ColorAdjuster {
    ColorAdjuster { r: abs_diff(fg.r, bg.r), g: abs_diff(fg.g, bg.g), b: abs_diff(fg.b, bg.b) }
}

/// The colour an adjuster assigns on top of the background `c`.
pub open spec fn spec_adjusted(a: ColorAdjuster, c: Rgb) -> Rgb {
    Rgb { r: sat_add(a.r, c.r), g: sat_add(a.g, c.g), b: sat_add(a.b, c.b) }
}

/// Build the contrast adjuster for foreground `fg` over background `bg`.
pub fn make_color_adjuster(bg: &Rgb, fg: &Rgb) -> (a: ColorAdjuster)
    ensures
        a == spec_adjuster(*bg, *fg),
{
    let r = if fg.r >= bg.r {
        fg.r - bg.r
    } else {
        bg.r - fg.r
    };
    let g = if fg.g >= bg.g {
        fg.g - bg.g
    } else {
        bg.g - fg.g
    };
    let b = if fg.b >= bg.b {
        fg.b - bg.b
    } else {
        bg.b - fg.b
    };
    ColorAdjuster { r, g, b }
}

impl ColorAdjuster {
    /// Apply the deltas on top of the background `c`, clamping each channel.
    pub fn adjust(&self, c: &Rgb) -> (out: Rgb)
        ensures
            out == spec_adjusted(*self, *c),
    {
        let r = if self.r as u16 + c.r as u16 > 255 {
            255u8
        } else {
            self.r + c.r
        };
        let g = if self.g as u16 + c.g as u16 > 255 {
            255u8
        } else {
            self.g + c.g
        };
        let b = if self.b as u16 + c.b as u16 > 255 {
            255u8
        } else {
            self.b + c.b
        };
        Rgb { r, g, b }
    }
}

/// Dim text stays distinguishable: when the dim colour is at least as
/// bright as the reference background in every channel, no channel sum
/// clamps, and the new background differs from the reference one, the
/// adjusted colour never equals the dim colour itself.
pub proof fn lemma_adjusted_dim_differs(refbg: Rgb, dim: Rgb, bg: Rgb)
    requires
        refbg.r <= dim.r,
        refbg.g <= dim.g,
        refbg.b <= dim.b,
        bg.r + abs_diff(dim.r, refbg.r) <= 255,
        bg.g + abs_diff(dim.g, refbg.g) <= 255,
        bg.b + abs_diff(dim.b, refbg.b) <= 255,
        bg != refbg,
    ensures
        spec_adjusted(spec_adjuster(refbg, dim), bg) != dim,
{
    let adj = spec_adjusted(spec_adjuster(refbg, dim), bg);
    if bg.r != refbg.r {
        assert(adj.r != dim.r);
    } else if bg.g != refbg.g {
        assert(adj.g != dim.g);
    } else {
        assert(bg.b != refbg.b);
        assert(adj.b != dim.b);
    }
}

} // verus!
