use vstd::prelude::*;

use crate::error::Error;

verus! {

/// A sub-character drawing mode for visuals.
///
/// Without support for it, a mode degrades along a fixed ladder:
/// braille and pixel to sextant, sextant to quadrant, quadrant to half
/// blocks, half blocks to spaces. The four- and eight-level bars degrade to
/// half blocks. Spaces are always available.
#[derive(Clone, Copy, Debug, PartialEq, Eq, Structural)]
pub enum Blitter {
    /// The mode is chosen from what the terminal supports.
    Default,
    /// One space per cell.
    Space,
    /// Upper and lower half blocks.
    Half,
    /// Quadrant blocks.
    Quadrant,
    /// Sextant blocks.
    Sextant,
    /// Braille patterns, four rows by two columns.
    Braille,
    /// Bitmap graphics.
    Pixel,
    /// Four vertical levels.
    Four,
    /// Eight vertical levels.
    Eight,
}

/// What the terminal can draw.
#[derive(Clone, Copy, Debug, PartialEq, Eq, Structural)]
pub struct Capabilities {
    pub halfblock: bool,
    pub quadrant: bool,
    pub sextant: bool,
    pub braille: bool,
    pub utf8: bool,
    pub images: bool,
    pub videos: bool,
    pub pixel: bool,
    pub truecolor: bool,
    pub fade: bool,
    pub palette_change: bool,
    pub palette_size: u32,
}

/// Whether the terminal draws mode `b`; `Default` stands for no mode.
pub open spec fn supported(b: Blitter, caps: Capabilities) -> bool {
    match b {
        Blitter::Default => false,
        Blitter::Space => true,
        Blitter::Half => caps.halfblock,
        Blitter::Quadrant => caps.quadrant,
        Blitter::Sextant => caps.sextant,
        Blitter::Braille => caps.braille,
        Blitter::Pixel => caps.pixel,
        Blitter::Four => caps.utf8,
        Blitter::Eight => caps.utf8,
    }
}

/// The next mode down the ladder.
pub open spec fn step_down(b: Blitter) -> Blitter {
    match b {
        Blitter::Default => Blitter::Braille,
        Blitter::Braille => Blitter::Sextant,
        Blitter::Pixel => Blitter::Sextant,
        Blitter::Sextant => Blitter::Quadrant,
        Blitter::Quadrant => Blitter::Half,
        Blitter::Four => Blitter::Half,
        Blitter::Eight => Blitter::Half,
        Blitter::Half => Blitter::Space,
        Blitter::Space => Blitter::Space,
    }
}

/// How many steps a mode stands above `Space` on the ladder.
pub open spec fn rank(b: Blitter) -> nat {
    match b {
        Blitter::Space => 0,
        Blitter::Half => 1,
        Blitter::Four => 2,
        Blitter::Eight => 2,
        Blitter::Quadrant => 2,
        Blitter::Sextant => 3,
        Blitter::Braille => 4,
        Blitter::Pixel => 4,
        Blitter::Default => 5,
    }
}

/// The first supported mode at or below `b` on the ladder.
pub open spec fn degrade(b: Blitter, caps: Capabilities) -> Blitter
    decreases rank(b),
{
    if supported(b, caps) || b == Blitter::Space {
        b
    } else {
        degrade(step_down(b), caps)
    }
}

/// The mode that `Default` stands for: pixels where the terminal draws
/// them, else the best mode down from braille.
pub open spec fn resolve_default(caps: Capabilities) -> Blitter {
    if caps.pixel {
        Blitter::Pixel
    } else {
        degrade(Blitter::Braille, caps)
    }
}

/// The mode drawn for a request of `b`: degraded along the ladder, or, with
/// degradation switched off, `b` itself or an error.
pub open spec fn select_spec(b: Blitter, caps: Capabilities, allow_degrade: bool) -> Result<
    Blitter,
    Error,
> {
    if b == Blitter::Default {
        Ok(resolve_default(caps))
    } else if allow_degrade {
        Ok(degrade(b, caps))
    } else if supported(b, caps) {
        Ok(b)
    } else {
        Err(Error::UnsupportedBlitter)
    }
}

impl Blitter {
    /// Whether `caps` can draw this mode.
    pub fn is_supported(self, caps: &Capabilities) -> (r: bool)
        ensures
            r == supported(self, *caps),
    {
        match self {
            Blitter::Default => false,
            Blitter::Space => true,
            Blitter::Half => caps.halfblock,
            Blitter::Quadrant => caps.quadrant,
            Blitter::Sextant => caps.sextant,
            Blitter::Braille => caps.braille,
            Blitter::Pixel => caps.pixel,
            Blitter::Four => caps.utf8,
            Blitter::Eight => caps.utf8,
        }
    }

    /// The next mode down the ladder.
    pub fn step_down(self) -> (r: Blitter)
        ensures
            r == step_down(self),
    {
        match self {
            Blitter::Default => Blitter::Braille,
            Blitter::Braille => Blitter::Sextant,
            Blitter::Pixel => Blitter::Sextant,
            Blitter::Sextant => Blitter::Quadrant,
            Blitter::Quadrant => Blitter::Half,
            Blitter::Four => Blitter::Half,
            Blitter::Eight => Blitter::Half,
            Blitter::Half => Blitter::Space,
            Blitter::Space => Blitter::Space,
        }
    }

    /// Steps down the ladder from this mode to the first one `caps` draws.
    pub fn degrade(self, caps: &Capabilities) -> (r: Blitter)
        ensures
            r == degrade(self, *caps),
    {
        let mut b = self;
        while !(b.is_supported(caps) || b == Blitter::Space)
            invariant
                degrade(b, *caps) == degrade(self, *caps),
            decreases rank(b),
        {
            b = b.step_down();
        }
        b
    }

    /// The mode drawn for a request of this mode on a terminal with `caps`.
    /// `Default` resolves to the best supported mode. Otherwise, with
    /// `allow_degrade`, the mode steps down the ladder to a supported one;
    /// without it an unsupported mode fails with `UnsupportedBlitter`.
    pub fn select(self, caps: &Capabilities, allow_degrade: bool) -> (r: Result<Blitter, Error>)
        ensures
            r == select_spec(self, *caps, allow_degrade),
    {
        if self == Blitter::Default {
            if caps.pixel {
                Ok(Blitter::Pixel)
            } else {
                Ok(Blitter::Braille.degrade(caps))
            }
        } else if allow_degrade {
            Ok(self.degrade(caps))
        } else if self.is_supported(caps) {
            Ok(self)
        } else {
            Err(Error::UnsupportedBlitter)
        }
    }

    /// The code of this mode in the terminal library's numbering.
    pub fn code(self) -> (r: u32)
        ensures
            r == code_of(self),
    {
        match self {
            Blitter::Default => 0,
            Blitter::Space => 1,
            Blitter::Half => 2,
            Blitter::Quadrant => 3,
            Blitter::Sextant => 4,
            Blitter::Braille => 5,
            Blitter::Pixel => 6,
            Blitter::Four => 7,
            Blitter::Eight => 8,
        }
    }

    /// The mode with the given code; an unknown code gives `Default`.
    pub fn from_code(code: u32) -> (r: Blitter)
        ensures
            code <= 8 ==> code_of(r) == code,
            code > 8 ==> r == Blitter::Default,
    {
        match code {
            1 => Blitter::Space,
            2 => Blitter::Half,
            3 => Blitter::Quadrant,
            4 => Blitter::Sextant,
            5 => Blitter::Braille,
            6 => Blitter::Pixel,
            7 => Blitter::Four,
            8 => Blitter::Eight,
            _ => Blitter::Default,
        }
    }
}

/// The code of a mode in the terminal library's numbering.
pub open spec fn code_of(b: Blitter) -> u32 {
    match b {
        Blitter::Default => 0,
        Blitter::Space => 1,
        Blitter::Half => 2,
        Blitter::Quadrant => 3,
        Blitter::Sextant => 4,
        Blitter::Braille => 5,
        Blitter::Pixel => 6,
        Blitter::Four => 7,
        Blitter::Eight => 8,
    }
}

impl Default for Blitter {
    /// `Default`.
    fn default() -> (r: Blitter)
        ensures
            r == Blitter::Default,
    {
        Blitter::Default
    }
}

/// Degrading yields a supported mode no higher on the ladder than the one
/// asked for.
pub proof fn lemma_degrade_sound(b: Blitter, caps: Capabilities)
    ensures
        supported(degrade(b, caps), caps),
        rank(degrade(b, caps)) <= rank(b),
    decreases rank(b),
{
    if !(supported(b, caps) || b == Blitter::Space) {
        lemma_degrade_sound(step_down(b), caps);
    }
}

/// Selection is a fixed point: selecting again the mode that a selection gave,
/// against the same capabilities, gives that mode back. And a selected mode is
/// always supported and never higher on the ladder than the one asked for.
pub proof fn lemma_select_idempotent(b: Blitter, caps: Capabilities, allow_degrade: bool)
    ensures
        select_spec(b, caps, allow_degrade) matches Ok(s) ==> {
            &&& supported(s, caps)
            &&& rank(s) <= rank(b)
            &&& select_spec(s, caps, allow_degrade) == Ok::<Blitter, Error>(s)
            &&& select_spec(s, caps, !allow_degrade) == Ok::<Blitter, Error>(s)
        },
{
    lemma_degrade_sound(b, caps);
    lemma_degrade_sound(Blitter::Braille, caps);
}

} // verus!
