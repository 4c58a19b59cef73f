//! Base16 colour schemes: the names bundled with the viewer and the
//! reading of a scheme's hex colours.

use vstd::prelude::*;
use crate::text::chars_of;

verus! {

/// A base16 colour scheme: sixteen colours, `base00` to `base0F`, as hex
/// text.
pub struct Base16Scheme {
    pub scheme: String,
    pub author: String,
    pub base00: String,
    pub base01: String,
    pub base02: String,
    pub base03: String,
    pub base04: String,
    pub base05: String,
    pub base06: String,
    pub base07: String,
    pub base08: String,
    pub base09: String,
    pub base0a: String,
    pub base0b: String,
    pub base0c: String,
    pub base0d: String,
    pub base0e: String,
    pub base0f: String,
}

/// An RGB colour.
#[derive(Clone, Copy, Debug, PartialEq, Eq, Structural)]
pub struct Rgb {
    pub r: u8,
    pub g: u8,
    pub b: u8,
}

/// The colours a theme is built from.
pub struct Palette {
    pub bg_light: Rgb,
    pub selection: Rgb,
    pub comment: Rgb,
    pub fg_dark: Rgb,
    pub fg: Rgb,
    pub red: Rgb,
    pub yellow: Rgb,
    pub green: Rgb,
    pub cyan: Rgb,
    pub blue: Rgb,
    pub purple: Rgb,
}

/// The names of the schemes bundled with the viewer.
pub fn bundled_themes() -> (r: Vec<&'static str>)
    ensures
        r@.len() == 6,
        r@[0]@ == "tokyonight-storm"@,
        r@[1]@ == "catppuccin-mocha"@,
        r@[2]@ == "dracula"@,
        r@[3]@ == "nord"@,
        r@[4]@ == "gruvbox-dark"@,
        r@[5]@ == "solarized-dark"@,
{
    let mut v: Vec<&'static str> = Vec::new();
    v.push("tokyonight-storm");
    v.push("catppuccin-mocha");
    v.push("dracula");
    v.push("nord");
    v.push("gruvbox-dark");
    v.push("solarized-dark");
    v
}

/// The value of a hexadecimal digit.
pub open spec fn hex_val(c: char) -> Option<u8> {
    if '0' <= c && c <= '9' {
        Some((c as u32 - '0' as u32) as u8)
    } else if 'a' <= c && c <= 'f' {
        Some((c as u32 - 'a' as u32 + 10) as u8)
    } else if 'A' <= c && c <= 'F' {
        Some((c as u32 - 'A' as u32 + 10) as u8)
    } else {
        None
    }
}

/// Two characters read as a base-16 byte, as `u8::from_str_radix` reads
/// them (a leading `+` is allowed).
pub open spec fn pair_val(a: char, b: char) -> Option<u8> {
    if a == '+' {
        hex_val(b)
    } else {
        match (hex_val(a), hex_val(b)) {
            (Some(x), Some(y)) => Some((x * 16 + y) as u8),
            _ => None,
        }
    }
}

/// The text without its leading `#` characters.
pub open spec fn strip_hashes(s: Seq<char>) -> Seq<char>
    decreases s.len(),
{
    if s.len() > 0 && s[0] == '#' {
        strip_hashes(s.drop_first())
    } else {
        s
    }
}

/// A colour written as six hex digits, with or without leading `#`.
pub open spec fn color_of(hex: Seq<char>) -> Option<Rgb> {
    let h = strip_hashes(hex);
    if h.len() != 6 {
        None
    } else {
        match (pair_val(h[0], h[1]), pair_val(h[2], h[3]), pair_val(h[4], h[5])) {
            (Some(r), Some(g), Some(b)) => Some(Rgb { r, g, b }),
            _ => None,
        }
    }
}

fn hex_digit(c: char) -> (r: Option<u8>)
    ensures
        r == hex_val(c),
{
    if '0' <= c && c <= '9' {
        Some((c as u32 - '0' as u32) as u8)
    } else if 'a' <= c && c <= 'f' {
        Some((c as u32 - 'a' as u32 + 10) as u8)
    } else if 'A' <= c && c <= 'F' {
        Some((c as u32 - 'A' as u32 + 10) as u8)
    } else {
        None
    }
}

fn hex_pair(a: char, b: char) -> (r: Option<u8>)
    ensures
        r == pair_val(a, b),
{
    if a == '+' {
        hex_digit(b)
    } else {
        match (hex_digit(a), hex_digit(b)) {
            (Some(x), Some(y)) => Some(x * 16 + y),
            _ => None,
        }
    }
}

/// Reads a colour written as six hex digits, with or without leading `#`.
pub fn parse_hex(hex: &str) -> (r: Result<Rgb, String>)
    ensures
        match r {
            Ok(c) => color_of(hex@) == Some(c),
            Err(_) => color_of(hex@) is None,
        },
{
    let cs = chars_of(hex);
    let mut i: usize = 0;
    assert(hex@.subrange(0, hex@.len() as int) =~= hex@);
    while i < cs.len() && cs[i] == '#'
        invariant
            cs@ == hex@,
            i <= cs@.len(),
            strip_hashes(hex@) == strip_hashes(hex@.subrange(i as int, hex@.len() as int)),
        decreases cs@.len() - i,
    {
        assert(hex@.subrange(i as int, hex@.len() as int).drop_first() =~= hex@.subrange(i + 1, hex@.len() as int));
        i += 1;
    }
    assert(strip_hashes(hex@) == hex@.subrange(i as int, hex@.len() as int));
    if cs.len() - i != 6 {
        return Err(String::from_str("invalid hex colour"));
    }
    let r = hex_pair(cs[i], cs[i + 1]);
    let g = hex_pair(cs[i + 2], cs[i + 3]);
    let b = hex_pair(cs[i + 4], cs[i + 5]);
    match (r, g, b) {
        (Some(r), Some(g), Some(b)) => Ok(Rgb { r, g, b }),
        _ => Err(String::from_str("invalid hex colour")),
    }
}

impl Base16Scheme {
    /// The scheme's colours, or an error when one of the colours that a
    /// theme reads (all but `base07` and `base0F`) is not a hex colour.
    pub fn palette(&self) -> (r: Result<Palette, String>)
        ensures
            r is Ok <==> {
                &&& color_of(self.base00@) is Some
                &&& color_of(self.base01@) is Some
                &&& color_of(self.base02@) is Some
                &&& color_of(self.base03@) is Some
                &&& color_of(self.base04@) is Some
                &&& color_of(self.base05@) is Some
                &&& color_of(self.base06@) is Some
                &&& color_of(self.base08@) is Some
                &&& color_of(self.base09@) is Some
                &&& color_of(self.base0a@) is Some
                &&& color_of(self.base0b@) is Some
                &&& color_of(self.base0c@) is Some
                &&& color_of(self.base0d@) is Some
                &&& color_of(self.base0e@) is Some
            },
            r matches Ok(p) ==> {
                &&& Some(p.bg_light) == color_of(self.base01@)
                &&& Some(p.selection) == color_of(self.base02@)
                &&& Some(p.comment) == color_of(self.base03@)
                &&& Some(p.fg_dark) == color_of(self.base04@)
                &&& Some(p.fg) == color_of(self.base05@)
                &&& Some(p.red) == color_of(self.base08@)
                &&& Some(p.yellow) == color_of(self.base0a@)
                &&& Some(p.green) == color_of(self.base0b@)
                &&& Some(p.cyan) == color_of(self.base0c@)
                &&& Some(p.blue) == color_of(self.base0d@)
                &&& Some(p.purple) == color_of(self.base0e@)
            },
    {
        let _bg = match parse_hex(self.base00.as_str()) { Ok(c) => c, Err(e) => return Err(e) };
        let bg_light = match parse_hex(self.base01.as_str()) { Ok(c) => c, Err(e) => return Err(e) };
        let selection = match parse_hex(self.base02.as_str()) { Ok(c) => c, Err(e) => return Err(e) };
        let comment = match parse_hex(self.base03.as_str()) { Ok(c) => c, Err(e) => return Err(e) };
        let fg_dark = match parse_hex(self.base04.as_str()) { Ok(c) => c, Err(e) => return Err(e) };
        let fg = match parse_hex(self.base05.as_str()) { Ok(c) => c, Err(e) => return Err(e) };
        let _fg_light = match parse_hex(self.base06.as_str()) { Ok(c) => c, Err(e) => return Err(e) };
        let red = match parse_hex(self.base08.as_str()) { Ok(c) => c, Err(e) => return Err(e) };
        let _orange = match parse_hex(self.base09.as_str()) { Ok(c) => c, Err(e) => return Err(e) };
        let yellow = match parse_hex(self.base0a.as_str()) { Ok(c) => c, Err(e) => return Err(e) };
        let green = match parse_hex(self.base0b.as_str()) { Ok(c) => c, Err(e) => return Err(e) };
        let cyan = match parse_hex(self.base0c.as_str()) { Ok(c) => c, Err(e) => return Err(e) };
        let blue = match parse_hex(self.base0d.as_str()) { Ok(c) => c, Err(e) => return Err(e) };
        let purple = match parse_hex(self.base0e.as_str()) { Ok(c) => c, Err(e) => return Err(e) };
        Ok(Palette { bg_light, selection, comment, fg_dark, fg, red, yellow, green, cyan, blue, purple })
    }
}

} // verus!
