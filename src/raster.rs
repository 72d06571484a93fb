use vstd::prelude::*;

use crate::cell::Cell;
use crate::channel::{bg_spec, channels_bg, channels_fg, fg_spec};
use crate::pile::Frame;
use crate::style::{STYLE_BLINK, STYLE_BOLD, STYLE_ITALIC, STYLE_REVERSE, STYLE_STRUCK, STYLE_UNDERLINE};

verus! {

/// The decimal digits of `n`, most significant first.
pub open spec fn decimal(n: nat) -> Seq<u8>
    decreases n,
{
    if n < 10 {
        seq![(48 + n) as u8]
    } else {
        decimal(n / 10).push((48 + n % 10) as u8)
    }
}

/// The UTF-8 encoding of a character.
pub open spec fn utf8(c: char) -> Seq<u8> {
    let v = c as u32;
    if v < 0x80 {
        seq![v as u8]
    } else if v < 0x800 {
        seq![(0xc0 | (v >> 6u32)) as u8, (0x80 | (v & 0x3f)) as u8]
    } else if v < 0x1_0000 {
        seq![
            (0xe0 | (v >> 12u32)) as u8,
            (0x80 | ((v >> 6u32) & 0x3f)) as u8,
            (0x80 | (v & 0x3f)) as u8,
        ]
    } else {
        seq![
            (0xf0 | (v >> 18u32)) as u8,
            (0x80 | ((v >> 12u32) & 0x3f)) as u8,
            (0x80 | ((v >> 6u32) & 0x3f)) as u8,
            (0x80 | (v & 0x3f)) as u8,
        ]
    }
}

/// `;N` when style bit `bit` is set in `bits`, else nothing.
pub open spec fn attr(bits: u16, bit: u16, code: nat) -> Seq<u8> {
    if bits & bit != 0 {
        seq![59u8] + decimal(code)
    } else {
        seq![]
    }
}

/// `;R;G;B` for the color of a channel.
pub open spec fn rgb_params(channel: u32) -> Seq<u8> {
    seq![59u8] + decimal(((channel >> 16u32) & 0xff) as nat) + seq![59u8] + decimal(
        ((channel >> 8u32) & 0xff) as nat,
    ) + seq![59u8] + decimal((channel & 0xff) as nat)
}

/// The attribute parameters of a style.
pub open spec fn attrs(bits: u16) -> Seq<u8> {
    attr(bits, STYLE_BOLD, 1) + attr(bits, STYLE_ITALIC, 3) + attr(bits, STYLE_UNDERLINE, 4)
        + attr(bits, STYLE_BLINK, 5) + attr(bits, STYLE_REVERSE, 7) + attr(bits, STYLE_STRUCK, 9)
}

/// The truecolor parameters of a channel pair: `;38;2;R;G;B;48;2;R;G;B`.
pub open spec fn colors(channels: u64) -> Seq<u8> {
    seq![59u8, 51u8, 56u8, 59u8, 50u8] + rgb_params(fg_spec(channels)) + seq![
        59u8,
        52u8,
        56u8,
        59u8,
        50u8,
    ] + rgb_params(bg_spec(channels))
}

/// The select-graphic-rendition sequence of a cell: a reset, its attributes,
/// then its foreground and background colors.
pub open spec fn sgr(c: Cell) -> Seq<u8> {
    seq![27u8, 91u8, 48u8] + attrs(c.style_spec().bits) + colors(c.channels_spec()) + seq![109u8]
}

/// The output of one cell: nothing for a backstop, whose wide glyph already
/// covers it, else its rendition and glyph.
pub open spec fn cell_bytes(c: Cell) -> Seq<u8> {
    if c.is_backstop_spec() {
        seq![]
    } else {
        sgr(c) + utf8(c.glyph_spec())
    }
}

/// The output of the first `n` cells of a row.
pub open spec fn row_bytes(row: Seq<Cell>, n: int) -> Seq<u8>
    decreases n,
{
    if n <= 0 {
        seq![]
    } else {
        row_bytes(row, n - 1) + cell_bytes(row[n - 1])
    }
}

/// The sequence that moves the cursor to the start of row `y` (counted from 0).
pub open spec fn move_to_row(y: nat) -> Seq<u8> {
    seq![27u8, 91u8] + decimal(y + 1) + seq![59u8, 49u8, 72u8]
}

/// The output of the first `n` rows of a frame: for each row, a cursor move to
/// its start, then its cells.
pub open spec fn frame_bytes(rows: Seq<Seq<Cell>>, n: int) -> Seq<u8>
    decreases n,
{
    if n <= 0 {
        seq![]
    } else {
        frame_bytes(rows, n - 1) + move_to_row((n - 1) as nat) + row_bytes(rows[n - 1], rows[n - 1].len() as int)
    }
}

/// The rows of a frame as sequences.
pub open spec fn frame_rows(f: Frame) -> Seq<Seq<Cell>> {
    Seq::new(f.cells@.len(), |y: int| f.cells@[y]@)
}

fn push_all(out: &mut Vec<u8>, bytes: &[u8])
    ensures
        final(out)@ == old(out)@ + bytes@,
{
    let mut i: usize = 0;
    while i < bytes.len()
        invariant
            i <= bytes@.len(),
            out@ == old(out)@ + bytes@.subrange(0, i as int),
        decreases bytes@.len() - i,
    {
        out.push(bytes[i]);
        i = i + 1;
        assert(bytes@.subrange(0, i as int) =~= bytes@.subrange(0, i - 1).push(bytes@[i - 1]));
    }
    assert(bytes@.subrange(0, i as int) =~= bytes@);
}

/// Appends the decimal digits of `n`.
pub fn push_decimal(out: &mut Vec<u8>, n: u64)
    ensures
        final(out)@ == old(out)@ + decimal(n as nat),
    decreases n,
{
    if n >= 10 {
        push_decimal(out, n / 10);
    }
    out.push(48 + (n % 10) as u8);
    assert(out@ =~= old(out)@ + decimal(n as nat));
}

/// Appends the UTF-8 encoding of `c`.
pub fn push_utf8(out: &mut Vec<u8>, c: char)
    ensures
        final(out)@ == old(out)@ + utf8(c),
{
    let v = c as u32;
    if v < 0x80 {
        out.push(v as u8);
    } else if v < 0x800 {
        out.push((0xc0 | (v >> 6u32)) as u8);
        out.push((0x80 | (v & 0x3f)) as u8);
    } else if v < 0x1_0000 {
        out.push((0xe0 | (v >> 12u32)) as u8);
        out.push((0x80 | ((v >> 6u32) & 0x3f)) as u8);
        out.push((0x80 | (v & 0x3f)) as u8);
    } else {
        out.push((0xf0 | (v >> 18u32)) as u8);
        out.push((0x80 | ((v >> 12u32) & 0x3f)) as u8);
        out.push((0x80 | ((v >> 6u32) & 0x3f)) as u8);
        out.push((0x80 | (v & 0x3f)) as u8);
    }
    assert(out@ =~= old(out)@ + utf8(c));
}

fn push_attr(out: &mut Vec<u8>, bits: u16, bit: u16, code: u32)
    ensures
        final(out)@ == old(out)@ + attr(bits, bit, code as nat),
{
    if bits & bit != 0 {
        out.push(59);
        push_decimal(out, code as u64);
    }
    assert(out@ =~= old(out)@ + attr(bits, bit, code as nat));
}

fn push_rgb(out: &mut Vec<u8>, channel: u32)
    ensures
        final(out)@ == old(out)@ + rgb_params(channel),
{
    out.push(59);
    push_decimal(out, ((channel >> 16u32) & 0xff) as u64);
    out.push(59);
    push_decimal(out, ((channel >> 8u32) & 0xff) as u64);
    out.push(59);
    push_decimal(out, (channel & 0xff) as u64);
    assert(out@ =~= old(out)@ + rgb_params(channel));
}

fn push_attrs(out: &mut Vec<u8>, bits: u16)
    ensures
        final(out)@ == old(out)@ + attrs(bits),
{
    push_attr(out, bits, STYLE_BOLD, 1);
    push_attr(out, bits, STYLE_ITALIC, 3);
    push_attr(out, bits, STYLE_UNDERLINE, 4);
    push_attr(out, bits, STYLE_BLINK, 5);
    push_attr(out, bits, STYLE_REVERSE, 7);
    push_attr(out, bits, STYLE_STRUCK, 9);
    assert(out@ =~= old(out)@ + attrs(bits));
}

fn push_colors(out: &mut Vec<u8>, channels: u64)
    ensures
        final(out)@ == old(out)@ + colors(channels),
{
    push_all(out, &[59u8, 51u8, 56u8, 59u8, 50u8]);
    push_rgb(out, channels_fg(channels));
    push_all(out, &[59u8, 52u8, 56u8, 59u8, 50u8]);
    push_rgb(out, channels_bg(channels));
    assert(out@ =~= old(out)@ + colors(channels));
}

/// Appends the output of one cell.
pub fn push_cell(out: &mut Vec<u8>, c: &Cell)
    ensures
        final(out)@ == old(out)@ + cell_bytes(*c),
{
    if c.is_backstop() {
        assert(out@ =~= old(out)@ + cell_bytes(*c));
        return;
    }
    push_all(out, &[27u8, 91u8, 48u8]);
    push_attrs(out, c.styles().bits);
    push_colors(out, c.channels());
    out.push(109);
    let ghost mid = out@;
    assert(mid =~= old(out)@ + sgr(*c));
    push_utf8(out, c.egc());
    assert(out@ =~= old(out)@ + cell_bytes(*c));
}

/// Serialises a frame into terminal output: for each row a cursor move to
/// its start, then for each cell that is not a backstop its rendition
/// (attributes, truecolor foreground and background) and its glyph in UTF-8.
pub fn rasterize(frame: &Frame) -> (r: Vec<u8>)
    ensures
        r@ == frame_bytes(frame_rows(*frame), frame.cells@.len() as int),
{
    let mut out: Vec<u8> = Vec::new();
    let n = frame.cells.len();
    let mut y: usize = 0;
    while y < n
        invariant
            y <= n,
            n == frame.cells@.len(),
            out@ == frame_bytes(frame_rows(*frame), y as int),
        decreases n - y,
    {
        let row = &frame.cells[y];
        push_all(&mut out, &[27u8, 91u8]);
        push_decimal(&mut out, y as u64 + 1);
        push_all(&mut out, &[59u8, 49u8, 72u8]);
        let ghost start = out@;
        let mut x: usize = 0;
        while x < row.len()
            invariant
                x <= row@.len(),
                out@ == start + row_bytes(row@, x as int),
            decreases row@.len() - x,
        {
            push_cell(&mut out, &row[x]);
            x = x + 1;
            assert(out@ =~= start + row_bytes(row@, x as int));
        }
        y = y + 1;
        assert(frame_rows(*frame)[y - 1] == row@);
        assert(out@ =~= frame_bytes(frame_rows(*frame), y as int));
    }
    out
}

} // verus!
