use vstd::prelude::*;

verus! {

/// The errors that the engine reports to its caller.
#[derive(Clone, Copy, Debug, PartialEq, Eq, Structural)]
pub enum Error {
    /// A plane was asked for with a zero number of rows or columns.
    InvalidGeometry,
    /// A cell position lies outside the plane, or a wide glyph's trailing
    /// half would.
    OutOfBounds,
    /// A pile with no planes was rendered.
    PileEmpty,
    /// The output sink refused the rasterized bytes.
    OutputError,
    /// Degradation was switched off and the terminal lacks the blitter.
    UnsupportedBlitter,
    /// A plane handle was used after its planes were dropped.
    UseAfterDrop,
}

} // verus!
