use vstd::prelude::*;

verus! {

pub const STYLE_NONE: u16 = 0x0;
pub const STYLE_STRUCK: u16 = 0x1;
pub const STYLE_BOLD: u16 = 0x2;
pub const STYLE_UNDERCURL: u16 = 0x4;
pub const STYLE_UNDERLINE: u16 = 0x8;
pub const STYLE_ITALIC: u16 = 0x10;
pub const STYLE_REVERSE: u16 = 0x20;
pub const STYLE_BLINK: u16 = 0x40;

/// A set of text attributes, one bit each.
#[derive(Clone, Copy, Debug, PartialEq, Eq, Structural)]
pub struct Style {
    pub bits: u16,
}

impl Style {
    /// The style with the given bits.
    pub fn from_bits(bits: u16) -> (r: Style)
        ensures
            r.bits == bits,
    {
        Style { bits }
    }

    /// The set union of two styles.
    pub fn union(self, other: Style) -> (r: Style)
        ensures
            r.bits == self.bits | other.bits,
    {
        Style { bits: self.bits | other.bits }
    }

    /// The styles of `self` that are not in `other`.
    pub fn difference(self, other: Style) -> (r: Style)
        ensures
            r.bits == self.bits & !other.bits,
    {
        Style { bits: self.bits & !other.bits }
    }

    /// Whether every style of `other` is in `self`.
    pub fn contains(self, other: Style) -> (r: bool)
        ensures
            r == (self.bits & other.bits == other.bits),
    {
        self.bits & other.bits == other.bits
    }
}

/// Adding a set of styles and then removing the same set gives back the
/// starting styles, when none of the added styles was there before.
pub proof fn lemma_add_remove_round_trip(start: Style, s: Style)
    requires
        start.bits & s.bits == 0,
    ensures
        (start.bits | s.bits) & !s.bits == start.bits,
{
    let (a, b) = (start.bits, s.bits);
    assert((a & b) == 0u16 ==> ((a | b) & !b) == a) by (bit_vector);
}

} // verus!
