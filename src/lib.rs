//! A QR code encoder for one fixed profile: version 3 (29 x 29 modules),
//! error correction level L, byte mode, at most 53 bytes of payload.

pub mod bits;
pub mod builder;
pub mod data;
pub mod ec;
pub mod info;
pub mod mask;
pub mod matrix;
pub mod mode;
pub mod qr;
pub mod rendercommons;
pub mod renderstring;
pub mod renderfordodrio;
pub mod rendersvg;
pub mod text;
pub mod version;

pub use bits::BitStream;
pub use builder::{Error, QrBuilder, ZigZagIt};
pub use ec::ECLevel;
pub use mask::Mask;
pub use matrix::{Matrix, Module};
pub use mode::Mode;
pub use qr::Qr;
pub use rendercommons::{to_dbg_string, Color, ParseColorError};
pub use renderstring::StringRenderer;
pub use renderfordodrio::SvgDodrioRenderer;
pub use rendersvg::SvgRenderer;
pub use version::Version;
