//! The colour editor's data: the palette of configurable colours, its
//! canonical ordering in the selection widget, and hex colour parsing.

use vstd::prelude::*;

verus! {

/// A configurable colour slot of the theme.
#[derive(Debug, Clone, Copy, PartialEq, Eq, Structural)]
pub enum ColorConfig {
    Reset,
    Background,
    Foreground,
    Black,
    Red,
    Green,
    Yellow,
    Blue,
    Magenta,
    Cyan,
    White,
    LightBlack,
    LightRed,
    LightGreen,
    LightYellow,
    LightBlue,
    LightMagenta,
    LightCyan,
    LightWhite,
}

/// The canonical order of the palette in the selection widget.
pub open spec fn color_list_spec() -> Seq<ColorConfig> {
    seq![
        ColorConfig::Reset,
        ColorConfig::Background,
        ColorConfig::Foreground,
        ColorConfig::Black,
        ColorConfig::Red,
        ColorConfig::Green,
        ColorConfig::Yellow,
        ColorConfig::Blue,
        ColorConfig::Magenta,
        ColorConfig::Cyan,
        ColorConfig::White,
        ColorConfig::LightBlack,
        ColorConfig::LightRed,
        ColorConfig::LightGreen,
        ColorConfig::LightYellow,
        ColorConfig::LightBlue,
        ColorConfig::LightMagenta,
        ColorConfig::LightCyan,
        ColorConfig::LightWhite,
    ]
}

/// The position of a colour in the canonical palette order.
pub open spec fn color_index(c: ColorConfig) -> int {
    match c {
        ColorConfig::Reset => 0,
        ColorConfig::Background => 1,
        ColorConfig::Foreground => 2,
        ColorConfig::Black => 3,
        ColorConfig::Red => 4,
        ColorConfig::Green => 5,
        ColorConfig::Yellow => 6,
        ColorConfig::Blue => 7,
        ColorConfig::Magenta => 8,
        ColorConfig::Cyan => 9,
        ColorConfig::White => 10,
        ColorConfig::LightBlack => 11,
        ColorConfig::LightRed => 12,
        ColorConfig::LightGreen => 13,
        ColorConfig::LightYellow => 14,
        ColorConfig::LightBlue => 15,
        ColorConfig::LightMagenta => 16,
        ColorConfig::LightCyan => 17,
        ColorConfig::LightWhite => 18,
    }
}

/// The palette positions and the canonical order agree.
pub proof fn lemma_color_index(c: ColorConfig)
    ensures
        color_list_spec()[color_index(c)] == c,
        0 <= color_index(c) < color_list_spec().len(),
{
}

/// The palette, in its canonical order.
pub fn color_list() -> (r: Vec<ColorConfig>)
    ensures
        r@ == color_list_spec(),
{
    let mut r: Vec<ColorConfig> = Vec::new();
    r.push(ColorConfig::Reset);
    r.push(ColorConfig::Background);
    r.push(ColorConfig::Foreground);
    r.push(ColorConfig::Black);
    r.push(ColorConfig::Red);
    r.push(ColorConfig::Green);
    r.push(ColorConfig::Yellow);
    r.push(ColorConfig::Blue);
    r.push(ColorConfig::Magenta);
    r.push(ColorConfig::Cyan);
    r.push(ColorConfig::White);
    r.push(ColorConfig::LightBlack);
    r.push(ColorConfig::LightRed);
    r.push(ColorConfig::LightGreen);
    r.push(ColorConfig::LightYellow);
    r.push(ColorConfig::LightBlue);
    r.push(ColorConfig::LightMagenta);
    r.push(ColorConfig::LightCyan);
    r.push(ColorConfig::LightWhite);
    proof {
        assert(r@ =~= color_list_spec());
    }
    r
}

/// The selection index of a colour slot: its position in the canonical
/// palette order.
pub fn match_color_config(color_config: &ColorConfig) -> (r: usize)
    ensures
        r as int == color_index(*color_config),
{
    match color_config {
        ColorConfig::Reset => 0,
        ColorConfig::Background => 1,
        ColorConfig::Foreground => 2,
        ColorConfig::Black => 3,
        ColorConfig::Red => 4,
        ColorConfig::Green => 5,
        ColorConfig::Yellow => 6,
        ColorConfig::Blue => 7,
        ColorConfig::Magenta => 8,
        ColorConfig::Cyan => 9,
        ColorConfig::White => 10,
        ColorConfig::LightBlack => 11,
        ColorConfig::LightRed => 12,
        ColorConfig::LightGreen => 13,
        ColorConfig::LightYellow => 14,
        ColorConfig::LightBlue => 15,
        ColorConfig::LightMagenta => 16,
        ColorConfig::LightCyan => 17,
        ColorConfig::LightWhite => 18,
    }
}

/// The colour slot a selection index names, when it is in range.
pub fn update_color_config(index: usize) -> (r: Option<ColorConfig>)
    ensures
        (match r {
            Some(c) => index < color_list_spec().len() && color_list_spec()[index as int] == c,
            None => index >= color_list_spec().len(),
        }),
{
    let list = color_list();
    if index < list.len() {
        Some(list[index])
    } else {
        None
    }
}

pub open spec fn is_hex_digit(c: char) -> bool {
    ('0' <= c && c <= '9') || ('a' <= c && c <= 'f') || ('A' <= c && c <= 'F')
}

pub open spec fn hex_val(c: char) -> int {
    if '0' <= c && c <= '9' {
        (c as u32) - ('0' as u32)
    } else if 'a' <= c && c <= 'f' {
        (c as u32) - ('a' as u32) + 10
    } else {
        (c as u32) - ('A' as u32) + 10
    }
}

/// Whether an `#RRGGBB` colour stands at position `i` of `s`.
pub open spec fn hex_color_at(s: Seq<char>, i: int) -> bool {
    &&& 0 <= i
    &&& i + 7 <= s.len()
    &&& s[i] == '#'
    &&& forall|j: int| i + 1 <= j < i + 7 ==> is_hex_digit(#[trigger] s[j])
}

/// The first position an `#RRGGBB` colour stands at, from `i` on.
pub open spec fn first_hex_color(s: Seq<char>, i: int) -> Option<int>
    decreases s.len() - i,
{
    if i < 0 || i >= s.len() {
        None
    } else if hex_color_at(s, i) {
        Some(i)
    } else {
        first_hex_color(s, i + 1)
    }
}

/// The channel value two hex digits read as.
pub open spec fn hex_byte(s: Seq<char>, i: int) -> int {
    hex_val(s[i]) * 16 + hex_val(s[i + 1])
}

fn hex_digit_value(c: char) -> (r: Option<u8>)
    ensures
        (match r {
            Some(v) => is_hex_digit(c) && v as int == hex_val(c) && v < 16,
            None => !is_hex_digit(c),
        }),
{
    if '0' <= c && c <= '9' {
        Some((c as u32 - '0' as u32) as u8)
    } else if 'a' <= c && c <= 'f' {
        Some((c as u32 - 'a' as u32 + 10) as u8)
    } else if 'A' <= c && c <= 'F' {
        Some((c as u32 - 'A' as u32 + 10) as u8)
    } else {
        None
    }
}

/// Parse the first `#RRGGBB` colour occurring in `color` into its red,
/// green and blue channel values.
pub fn parse_hex_color(color: &str) -> (r: Option<(u8, u8, u8)>)
    ensures
        (match r {
            Some(rgb) => {
                &&& first_hex_color(color@, 0) matches Some(i) && rgb.0 == hex_byte(color@, i + 1)
                    && rgb.1 == hex_byte(color@, i + 3) && rgb.2 == hex_byte(color@, i + 5)
            },
            None => first_hex_color(color@, 0) is None,
        }),
{
    let n: usize = color.unicode_len();
    let mut i: usize = 0;
    while i < n
        invariant
            i <= n,
            n == color@.len(),
            first_hex_color(color@, 0) == first_hex_color(color@, i as int),
        decreases n - i,
    {
        if color.get_char(i) == '#' && n - i >= 7 {
            let d1 = hex_digit_value(color.get_char(i + 1));
            let d2 = hex_digit_value(color.get_char(i + 2));
            let d3 = hex_digit_value(color.get_char(i + 3));
            let d4 = hex_digit_value(color.get_char(i + 4));
            let d5 = hex_digit_value(color.get_char(i + 5));
            let d6 = hex_digit_value(color.get_char(i + 6));
            match (d1, d2, d3, d4, d5, d6) {
                (Some(a), Some(b), Some(c), Some(d), Some(e), Some(f)) => {
                    proof {
                        assert(hex_color_at(color@, i as int));
                        assert(first_hex_color(color@, i as int) == Some(i as int));
                    }
                    return Some((a * 16 + b, c * 16 + d, e * 16 + f));
                },
                _ => {},
            }
        }
        proof {
            assert(!hex_color_at(color@, i as int));
        }
        i = i + 1;
    }
    None
}

} // verus!
