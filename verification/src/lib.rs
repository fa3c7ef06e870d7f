//! Support library for applications on the NumWorks Epsilon platform.
//!
//! The heart of the crate is the record store in [`storage`]: named byte
//! blobs packed back-to-back in a fixed-size memory region, with lookup,
//! append, and erase-with-compaction, all specified and verified down to
//! the byte layout.  [`layout`] holds the byte-level model the contracts
//! speak of, and [`laws`] the store-wide properties proved over it.
//! Around the store stand small verified models of the other
//! platform-facing pieces: battery state, RGB565 colors, EIF1 images,
//! keyboard input, and the random-range arithmetic.

pub mod battery;
pub mod color;
pub mod hvec;
pub mod image;
pub mod input;
pub mod laws;
pub mod layout;
pub mod random;
pub mod storage;
pub mod utils;

pub use color::Color;
pub use image::EIF1_MAGIC_NUMBER;
pub use image::Image;
pub use utils::FontSize;
pub use utils::Point;
pub use utils::Rect;
