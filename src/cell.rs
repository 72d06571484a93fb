use vstd::prelude::*;

use crate::channel::{alpha_spec, bg_spec, channels_bg, channels_fg, fg_spec, Alpha};
use crate::channel::channel_alpha;
use crate::style::Style;

verus! {

/// The backstop byte of a cell that holds its own glyph.
pub const BACKSTOP: u8 = 0;

/// The backstop byte of the trailing half of a wide glyph.
pub const BACKSTOP_MARK: u8 = 0xff;

/// One grid position: a glyph, the backstop byte, the glyph's width in
/// columns, a style and a pair of color channels (foreground in the upper
/// 32 bits, background in the lower).
#[derive(Clone, Copy, Debug, PartialEq, Eq, Structural)]
pub struct Cell {
    glyph: char,
    backstop: u8,
    width: u8,
    style: Style,
    channels: u64,
}

impl Cell {
    pub closed spec fn glyph_spec(self) -> char {
        self.glyph
    }

    pub closed spec fn width_spec(self) -> u8 {
        self.width
    }

    pub closed spec fn style_spec(self) -> Style {
        self.style
    }

    pub closed spec fn channels_spec(self) -> u64 {
        self.channels
    }

    pub closed spec fn is_backstop_spec(self) -> bool {
        self.backstop == BACKSTOP_MARK
    }

    /// The primary cell with these parts.
    pub closed spec fn new_spec(glyph: char, width: u8, style: Style, channels: u64) -> Cell {
        Cell { glyph, backstop: BACKSTOP, width, style, channels }
    }

    /// The trailing half of a wide primary cell: no glyph of its own, the
    /// primary's style and channels.
    pub closed spec fn backstop_of(primary: Cell) -> Cell {
        Cell {
            glyph: '\0',
            backstop: BACKSTOP_MARK,
            width: 0,
            style: primary.style,
            channels: primary.channels,
        }
    }

    /// This cell with its style replaced.
    pub closed spec fn with_style(self, style: Style) -> Cell {
        Cell { style, ..self }
    }

    /// This cell with its channel pair replaced.
    pub closed spec fn with_channels(self, channels: u64) -> Cell {
        Cell { channels, ..self }
    }

    /// A cell that shows nothing of its own: both channels transparent.
    pub closed spec fn is_transparent_spec(self) -> bool {
        alpha_spec(fg_spec(self.channels)) == Alpha::Transparent && alpha_spec(
            bg_spec(self.channels),
        ) == Alpha::Transparent
    }

    /// A cell holding `glyph`, `width` columns wide.
    pub fn new(glyph: char, width: u8, style: Style, channels: u64) -> (r: Cell)
        requires
            width == 1 || width == 2,
        ensures
            r == Cell::new_spec(glyph, width, style, channels),
            r.glyph_spec() == glyph,
            r.width_spec() == width,
            r.style_spec() == style,
            r.channels_spec() == channels,
            !r.is_backstop_spec(),
    {
        Cell { glyph, backstop: BACKSTOP, width, style, channels }
    }

    /// The trailing half of this wide cell.
    pub fn backstop_for(&self) -> (r: Cell)
        ensures
            r == Cell::backstop_of(*self),
            r.is_backstop_spec(),
            r.glyph_spec() == '\0',
            r.width_spec() == 0,
            r.style_spec() == self.style_spec(),
            r.channels_spec() == self.channels_spec(),
    {
        Cell {
            glyph: '\0',
            backstop: BACKSTOP_MARK,
            width: 0,
            style: self.style,
            channels: self.channels,
        }
    }

    /// Returns the glyph.
    pub fn egc(&self) -> (r: char)
        ensures
            r == self.glyph_spec(),
    {
        self.glyph
    }

    /// Returns the width of the glyph in columns (0 for a backstop).
    pub fn width(&self) -> (r: u8)
        ensures
            r == self.width_spec(),
    {
        self.width
    }

    /// Whether this is the trailing half of a wide glyph.
    pub fn is_backstop(&self) -> (r: bool)
        ensures
            r == self.is_backstop_spec(),
    {
        self.backstop == BACKSTOP_MARK
    }

    /// Returns the channel pair.
    pub fn channels(&self) -> (r: u64)
        ensures
            r == self.channels_spec(),
    {
        self.channels
    }

    /// Replaces the channel pair.
    pub fn set_channels(&mut self, channels: u64)
        ensures
            *final(self) == old(self).with_channels(channels),
            final(self).channels_spec() == channels,
            final(self).style_spec() == old(self).style_spec(),
            final(self).glyph_spec() == old(self).glyph_spec(),
            final(self).width_spec() == old(self).width_spec(),
            final(self).is_backstop_spec() == old(self).is_backstop_spec(),
    {
        self.channels = channels;
    }

    /// Whether both channels are transparent.
    pub fn is_transparent(&self) -> (r: bool)
        ensures
            r == self.is_transparent_spec(),
    {
        let fg = channel_alpha(channels_fg(self.channels));
        let bg = channel_alpha(channels_bg(self.channels));
        fg == Alpha::Transparent && bg == Alpha::Transparent
    }

    /// Returns the styles.
    pub fn styles(&self) -> (r: Style)
        ensures
            r == self.style_spec(),
    {
        self.style
    }

    /// Adds the given styles.
    pub fn add_styles(&mut self, styles: Style)
        ensures
            *final(self) == old(self).with_style(
                Style { bits: old(self).style_spec().bits | styles.bits },
            ),
            final(self).style_spec() == (Style { bits: old(self).style_spec().bits | styles.bits }),
            final(self).channels_spec() == old(self).channels_spec(),
            final(self).glyph_spec() == old(self).glyph_spec(),
            final(self).width_spec() == old(self).width_spec(),
            final(self).is_backstop_spec() == old(self).is_backstop_spec(),
    {
        self.style = self.style.union(styles);
    }

    /// Removes the given styles.
    pub fn remove_styles(&mut self, styles: Style)
        ensures
            *final(self) == old(self).with_style(
                Style { bits: old(self).style_spec().bits & !styles.bits },
            ),
            final(self).style_spec() == (Style { bits: old(self).style_spec().bits & !styles.bits }),
            final(self).channels_spec() == old(self).channels_spec(),
            final(self).glyph_spec() == old(self).glyph_spec(),
            final(self).width_spec() == old(self).width_spec(),
            final(self).is_backstop_spec() == old(self).is_backstop_spec(),
    {
        self.style = self.style.difference(styles);
    }

    /// Sets exactly the given styles.
    pub fn set_styles(&mut self, styles: Style)
        ensures
            *final(self) == old(self).with_style(styles),
            final(self).style_spec() == styles,
            final(self).channels_spec() == old(self).channels_spec(),
            final(self).glyph_spec() == old(self).glyph_spec(),
            final(self).width_spec() == old(self).width_spec(),
            final(self).is_backstop_spec() == old(self).is_backstop_spec(),
    {
        self.style = styles;
    }
}

/// What the cell builders give: a new cell holds its parts and is no
/// backstop; a backstop holds no glyph of its own and mirrors its primary's
/// style and channels; replacing the style or the channels changes only that
/// part, and replacing it twice with the same value is replacing it once.
pub proof fn lemma_cell_parts(c: Cell, glyph: char, width: u8, style: Style, channels: u64)
    ensures
        ({
            let n = Cell::new_spec(glyph, width, style, channels);
            &&& n.glyph_spec() == glyph && n.width_spec() == width
            &&& n.style_spec() == style && n.channels_spec() == channels
            &&& !n.is_backstop_spec()
        }),
        ({
            let b = Cell::backstop_of(c);
            &&& b.is_backstop_spec() && b.glyph_spec() == '\0' && b.width_spec() == 0
            &&& b.style_spec() == c.style_spec() && b.channels_spec() == c.channels_spec()
        }),
        ({
            let w = c.with_style(style);
            &&& w.style_spec() == style && w.glyph_spec() == c.glyph_spec()
            &&& w.width_spec() == c.width_spec() && w.channels_spec() == c.channels_spec()
            &&& w.is_backstop_spec() == c.is_backstop_spec()
            &&& w.with_style(style) == w
        }),
        ({
            let w = c.with_channels(channels);
            &&& w.channels_spec() == channels && w.glyph_spec() == c.glyph_spec()
            &&& w.width_spec() == c.width_spec() && w.style_spec() == c.style_spec()
            &&& w.is_backstop_spec() == c.is_backstop_spec()
            &&& w.with_channels(channels) == w
        }),
        c.is_transparent_spec() == (alpha_spec(fg_spec(c.channels_spec())) == Alpha::Transparent
            && alpha_spec(bg_spec(c.channels_spec())) == Alpha::Transparent),
{
}

/// Adding styles to a cell and then removing the same styles gives back the
/// starting cell, when none of those styles was set on it before.
pub proof fn lemma_cell_add_remove_round_trip(c: Cell, s: Style)
    requires
        c.style_spec().bits & s.bits == 0,
    ensures
        ({
            let added = c.with_style(Style { bits: c.style_spec().bits | s.bits });
            added.with_style(Style { bits: added.style_spec().bits & !s.bits }) == c
        }),
{
    crate::style::lemma_add_remove_round_trip(c.style, s);
}

} // verus!
