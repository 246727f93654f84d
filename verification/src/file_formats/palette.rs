//! JASC palette files: a text header ("JASC-PAL", "0100", "256"), then one
//! line per color with its red, green and blue components.

use vstd::prelude::*;
use vstd::utf8::{decode_utf8, valid_utf8};
use crate::bytes::{chars_of, string_from_utf8, StreamError};

verus! {

/// A color of a palette.
#[derive(Default, Debug, Clone, Copy, PartialEq, Eq)]
pub struct PaletteColor {
    pub r: u8,
    pub g: u8,
    pub b: u8,
}

impl PaletteColor {
    pub fn new() -> (c: PaletteColor)
        ensures
            c == (PaletteColor { r: 0, g: 0, b: 0 }),
    {
        PaletteColor { r: 0u8, g: 0u8, b: 0u8 }
    }

    /// The color as an opaque 32-bit RGBA value: red in the highest byte,
    /// then green, blue, and full opacity in the lowest.
    pub fn to_rgba8888(&self) -> (v: u32)
        ensures
            v == self.r * 0x100_0000 + self.g * 0x1_0000 + self.b * 0x100 + 0xFF,
    {
        (self.r as u32) * 0x100_0000 + (self.g as u32) * 0x1_0000 + (self.b as u32) * 0x100 + 0xFF
    }
}

/// A palette: its colors in order.
pub type Palette = Vec<PaletteColor>;

/// Why a color component is not a number from 0 to 255.
#[derive(Debug, Clone, Copy, PartialEq, Eq)]
pub enum IntErrorKind {
    /// The component is empty.
    Empty,
    /// The component holds a character that is not a decimal digit.
    InvalidDigit,
    /// The component is larger than 255.
    PosOverflow,
}

/// What reading a palette can fail with.
#[derive(Debug, Clone, Copy, PartialEq, Eq)]
pub enum PaletteError {
    /// A line is not UTF-8 text.
    ReadError(StreamError),
    /// The header is wrong ("bad header"), or a color line does not hold
    /// exactly three components ("invalid color found").
    InvalidPalette(&'static str),
    /// A component is not a number from 0 to 255.
    ParseIntError(IntErrorKind),
}

/// Whether `c` is white space in the sense of Unicode (`char::is_whitespace`).
pub open spec fn is_space(c: char) -> bool {
    let v = c as u32;
    (9 <= v <= 13) || v == 32 || v == 0x85 || v == 0xA0 || v == 0x1680 || (0x2000 <= v <= 0x200A) || v == 0x2028
        || v == 0x2029 || v == 0x202F || v == 0x205F || v == 0x3000
}

/// After the first `n` characters of `s`: the words completed so far and the
/// word in progress (words are separated by white space).
pub open spec fn split_words(s: Seq<char>, n: nat) -> (Seq<Seq<char>>, Seq<char>)
    decreases n,
{
    if n == 0 {
        (Seq::empty(), Seq::empty())
    } else {
        let (ws, cur) = split_words(s, (n - 1) as nat);
        if is_space(s[n - 1]) {
            if cur.len() > 0 { (ws.push(cur), Seq::empty()) } else { (ws, cur) }
        } else {
            (ws, cur.push(s[n - 1]))
        }
    }
}

/// The words of `s`: its maximal runs of characters that are not white space.
pub open spec fn words(s: Seq<char>) -> Seq<Seq<char>> {
    let (ws, cur) = split_words(s, s.len());
    if cur.len() > 0 { ws.push(cur) } else { ws }
}

/// The value of the digits of `ds` from `i` on, after `acc` for those before,
/// as a byte: the first character that is not a digit, or the first step that
/// goes past 255, stops it.
pub open spec fn digits_value(ds: Seq<char>, i: int, acc: int) -> Result<u8, IntErrorKind>
    decreases ds.len() - i,
{
    if i >= ds.len() {
        Ok(acc as u8)
    } else if !('0' <= ds[i] <= '9') {
        Err(IntErrorKind::InvalidDigit)
    } else if acc * 10 > 255 || acc * 10 + (ds[i] as int - '0' as int) > 255 {
        Err(IntErrorKind::PosOverflow)
    } else {
        digits_value(ds, i + 1, acc * 10 + (ds[i] as int - '0' as int))
    }
}

/// The byte that a word denotes as `u8::from_str` reads it: decimal digits,
/// optionally after a plus sign.
pub open spec fn parse_u8(w: Seq<char>) -> Result<u8, IntErrorKind> {
    if w.len() == 0 {
        Err(IntErrorKind::Empty)
    } else if (w[0] == '+' || w[0] == '-') && w.len() == 1 {
        Err(IntErrorKind::InvalidDigit)
    } else if w[0] == '+' {
        digits_value(w.drop_first(), 0, 0)
    } else {
        digits_value(w, 0, 0)
    }
}

/// The color that a line describes.
pub open spec fn parse_color(line: Seq<char>) -> Result<PaletteColor, PaletteError> {
    let ws = words(line);
    if ws.len() != 3 {
        Err(PaletteError::InvalidPalette("invalid color found"))
    } else {
        match (parse_u8(ws[0]), parse_u8(ws[1]), parse_u8(ws[2])) {
            (Ok(r), Ok(g), Ok(b)) => Ok(PaletteColor { r, g, b }),
            (Err(e), _, _) => Err(PaletteError::ParseIntError(e)),
            (Ok(_), Err(e), _) => Err(PaletteError::ParseIntError(e)),
            (Ok(_), Ok(_), Err(e)) => Err(PaletteError::ParseIntError(e)),
        }
    }
}

/// The position of the first newline at or after `p`, or the end.
pub open spec fn next_newline(d: Seq<u8>, p: int) -> int
    decreases d.len() - p,
{
    if p >= d.len() || p < 0 {
        d.len() as int
    } else if d[p] == 10 {
        p
    } else {
        next_newline(d, p + 1)
    }
}

/// The next newline is at or after `p` and not past the end.
pub proof fn lemma_next_newline_bounds(d: Seq<u8>, p: int)
    requires
        0 <= p <= d.len(),
    ensures
        p <= next_newline(d, p) <= d.len(),
        next_newline(d, p) < d.len() ==> d[next_newline(d, p)] == 10,
    decreases d.len() - p,
{
    if p < d.len() && d[p] != 10 {
        lemma_next_newline_bounds(d, p + 1);
    }
}

/// The line that starts at `p`: up to the next newline, without it and
/// without a carriage return just before it.
pub open spec fn line_at(d: Seq<u8>, p: int) -> Seq<u8> {
    let e = next_newline(d, p);
    if e < d.len() && e > p && d[e - 1] == 13 { d.subrange(p, e - 1) } else { d.subrange(p, e) }
}

/// Where the line after the one at `p` starts.
pub open spec fn next_line(d: Seq<u8>, p: int) -> int {
    let e = next_newline(d, p);
    if e < d.len() { e + 1 } else { e }
}

/// The expected header line `index` (0, 1 or 2).
pub open spec fn header_line(index: int) -> Seq<char> {
    if index == 0 {
        seq!['J', 'A', 'S', 'C', '-', 'P', 'A', 'L']
    } else if index == 1 {
        seq!['0', '1', '0', '0']
    } else {
        seq!['2', '5', '6']
    }
}

/// The colors of the lines from `p` on, the first of which has number `index`.
pub open spec fn palette_from(d: Seq<u8>, p: int, index: int) -> Result<Seq<PaletteColor>, PaletteError>
    decreases d.len() - p,
{
    if p >= d.len() || p < 0 {
        Ok(Seq::empty())
    } else {
        proof {
            lemma_next_newline_bounds(d, p);
        }
        let line = line_at(d, p);
        if !valid_utf8(line) {
            Err(PaletteError::ReadError(StreamError::InvalidData))
        } else if index <= 2 && decode_utf8(line) != header_line(index) {
            Err(PaletteError::InvalidPalette("bad header"))
        } else if index <= 2 {
            palette_from(d, next_line(d, p), index + 1)
        } else {
            match parse_color(decode_utf8(line)) {
                Err(e) => Err(e),
                Ok(c) => match palette_from(d, next_line(d, p), index + 1) {
                    Err(e) => Err(e),
                    Ok(rest) => Ok(seq![c] + rest),
                },
            }
        }
    }
}

/// The result of reading the whole palette file.
pub open spec fn palette_of(d: Seq<u8>) -> Result<Seq<PaletteColor>, PaletteError> {
    palette_from(d, 0, 0)
}

/// `done` followed by what `rest` gives.
pub open spec fn then_colors(done: Seq<PaletteColor>, rest: Result<Seq<PaletteColor>, PaletteError>) -> Result<Seq<PaletteColor>, PaletteError> {
    match rest {
        Ok(r) => Ok(done + r),
        Err(e) => Err(e),
    }
}

/// The words of a line.
fn split_whitespace(s: &Vec<char>) -> (r: Vec<Vec<char>>)
    ensures
        r@.len() == words(s@).len(),
        forall|i: int| 0 <= i < r@.len() ==> (#[trigger] r@[i])@ == words(s@)[i],
{
    let mut ws: Vec<Vec<char>> = Vec::new();
    let mut cur: Vec<char> = Vec::new();
    let mut i: usize = 0;
    while i < s.len()
        invariant
            i <= s@.len(),
            ws@.len() == split_words(s@, i as nat).0.len(),
            forall|j: int| 0 <= j < ws@.len() ==> (#[trigger] ws@[j])@ == split_words(s@, i as nat).0[j],
            cur@ == split_words(s@, i as nat).1,
        decreases s@.len() - i,
    {
        let c = s[i];
        let space = (9 <= c as u32 && c as u32 <= 13) || c as u32 == 32 || c as u32 == 0x85 || c as u32 == 0xA0
            || c as u32 == 0x1680 || (0x2000 <= c as u32 && c as u32 <= 0x200A) || c as u32 == 0x2028
            || c as u32 == 0x2029 || c as u32 == 0x202F || c as u32 == 0x205F || c as u32 == 0x3000;
        if space {
            if cur.len() > 0 {
                ws.push(cur);
                cur = Vec::new();
            }
        } else {
            cur.push(c);
        }
        i = i + 1;
    }
    if cur.len() > 0 {
        ws.push(cur);
    }
    ws
}

/// The byte that a word denotes, as `parse_u8` describes.
fn parse_component(w: &Vec<char>) -> (r: Result<u8, IntErrorKind>)
    ensures
        r == parse_u8(w@),
{
    if w.len() == 0 {
        return Err(IntErrorKind::Empty);
    }
    if (w[0] == '+' || w[0] == '-') && w.len() == 1 {
        return Err(IntErrorKind::InvalidDigit);
    }
    let start: usize = if w[0] == '+' { 1 } else { 0 };
    let ghost ds = if w@[0] == '+' { w@.drop_first() } else { w@ };
    let mut acc: u32 = 0;
    let mut i: usize = start;
    while i < w.len()
        invariant
            start <= i <= w@.len(),
            w@.len() > 0,
            start == (if w@[0] == '+' { 1usize } else { 0usize }),
            ds == (if w@[0] == '+' { w@.drop_first() } else { w@ }),
            acc <= 255,
            digits_value(ds, i - start, acc as int) == parse_u8(w@),
        decreases w@.len() - i,
    {
        let c = w[i];
        assert(ds[i - start] == c);
        if !('0' <= c && c <= '9') {
            return Err(IntErrorKind::InvalidDigit);
        }
        let d = (c as u32) - ('0' as u32);
        if acc * 10 > 255 || acc * 10 + d > 255 {
            return Err(IntErrorKind::PosOverflow);
        }
        acc = acc * 10 + d;
        i = i + 1;
    }
    Ok(acc as u8)
}

/// The color that a line describes, as `parse_color` describes.
fn read_color(line: &Vec<char>) -> (r: Result<PaletteColor, PaletteError>)
    ensures
        r == parse_color(line@),
{
    let components = split_whitespace(line);
    if components.len() != 3 {
        return Err(PaletteError::InvalidPalette("invalid color found"));
    }
    let mut color = PaletteColor::new();
    color.r = match parse_component(&components[0]) {
        Ok(v) => v,
        Err(e) => return Err(PaletteError::ParseIntError(e)),
    };
    color.g = match parse_component(&components[1]) {
        Ok(v) => v,
        Err(e) => return Err(PaletteError::ParseIntError(e)),
    };
    color.b = match parse_component(&components[2]) {
        Ok(v) => v,
        Err(e) => return Err(PaletteError::ParseIntError(e)),
    };
    Ok(color)
}

/// Whether the characters of a line are those of header line `index`.
fn is_header_line(line: &Vec<char>, index: usize) -> (r: bool)
    requires
        index <= 2,
    ensures
        r == (line@ == header_line(index as int)),
{
    let expected: Vec<char> = if index == 0 {
        vec!['J', 'A', 'S', 'C', '-', 'P', 'A', 'L']
    } else if index == 1 {
        vec!['0', '1', '0', '0']
    } else {
        vec!['2', '5', '6']
    };
    assert(expected@ == header_line(index as int));
    if line.len() != expected.len() {
        return false;
    }
    let mut i: usize = 0;
    while i < line.len()
        invariant
            i <= line@.len(),
            line@.len() == expected@.len(),
            expected@ == header_line(index as int),
            forall|j: int| 0 <= j < i ==> line@[j] == expected@[j],
        decreases line@.len() - i,
    {
        if line[i] != expected[i] {
            assert(line@[i as int] != expected@[i as int]);
            return false;
        }
        i = i + 1;
    }
    assert(line@ =~= expected@);
    true
}

/// Reads a palette from the contents of its file, line by line: the three
/// header lines, then one color per line.
pub fn read_from(data: &[u8]) -> (r: Result<Palette, PaletteError>)
    ensures
        match palette_of(data@) {
            Ok(colors) => r matches Ok(p) && p@ == colors,
            Err(e) => r == Err::<Palette, PaletteError>(e),
        },
{
    let mut palette: Vec<PaletteColor> = Vec::new();
    let mut p: usize = 0;
    let mut line_index: usize = 0;
    while p < data.len()
        invariant
            p <= data@.len(),
            palette_of(data@) == then_colors(palette@, palette_from(data@, p as int, line_index as int)),
            line_index <= p,
        decreases data@.len() - p,
    {
        let mut e: usize = p;
        while e < data.len() && data[e] != 10
            invariant
                p <= e <= data@.len(),
                next_newline(data@, p as int) == next_newline(data@, e as int),
            decreases data@.len() - e,
        {
            e = e + 1;
        }
        let end = if e < data.len() && e > p && data[e - 1] == 13 { e - 1 } else { e };
        let mut bytes: Vec<u8> = Vec::new();
        let mut k: usize = p;
        while k < end
            invariant
                p <= k <= end <= data@.len(),
                bytes@ == data@.subrange(p as int, k as int),
            decreases end - k,
        {
            bytes.push(data[k]);
            k = k + 1;
        }
        assert(bytes@ == line_at(data@, p as int));
        let next = if e < data.len() { e + 1 } else { e };
        let line = match string_from_utf8(bytes) {
            Some(s) => chars_of(&s),
            None => return Err(PaletteError::ReadError(StreamError::InvalidData)),
        };
        if line_index <= 2 {
            if !is_header_line(&line, line_index) {
                return Err(PaletteError::InvalidPalette("bad header"));
            }
        } else {
            match read_color(&line) {
                Ok(c) => {
                    let ghost before = palette@;
                    palette.push(c);
                    assert(palette@ == before + seq![c]);
                    proof {
                        match palette_from(data@, next as int, line_index + 1) {
                            Ok(rest) => assert(before + (seq![c] + rest) == palette@ + rest),
                            Err(_) => {},
                        }
                    }
                },
                Err(x) => return Err(x),
            }
        }
        p = next;
        line_index = line_index + 1;
    }
    assert(palette@ + Seq::<PaletteColor>::empty() == palette@);
    Ok(palette)
}

} // verus!
