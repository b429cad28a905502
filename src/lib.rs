//! Rounds the corners of a PNG image by masking its alpha channel with a
//! rounded rectangle.
pub mod codec;
pub mod corners;
pub mod grid;
pub mod laws;
pub mod mask;

pub use codec::{decode_image, encode_image};
pub use corners::{process_image, round_corners_png, RoundError};
pub use grid::PixelGrid;
pub use mask::MAX_SIDE;
