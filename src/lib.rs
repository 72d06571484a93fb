//! A terminal compositing engine: planes of packed cells arranged in piles,
//! with a verified coordinate model, cell encoding, blitter selection,
//! rendering, rasterizing and input-event mapping.

pub mod blitter;
pub mod cell;
pub mod channel;
pub mod error;
pub mod event;
pub mod notcurses;
pub mod pile;
pub mod raster;
pub mod style;
pub mod visual;

pub use blitter::{Blitter, Capabilities};
pub use cell::Cell;
pub use channel::Alpha;
pub use error::Error;
pub use event::{Event, InputType, Key, KeyMod, Position, RawInput, Received};
pub use notcurses::{Nc, PlaneId};
pub use pile::{Frame, Pile, Plane};
pub use raster::rasterize;
pub use style::Style;
pub use visual::{Visual, VisualBuilder};
