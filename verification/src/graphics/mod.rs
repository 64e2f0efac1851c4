//! Inline article images: which terminal graphics protocol to use, the
//! Kitty escape sequences, half-block cells and cache file names.
pub mod cache;
pub mod halfblocks;
pub mod kitty;
pub mod protocol;

pub use cache::image_cache_file_name;
pub use halfblocks::{render_halfblock_lines, HalfblockCell, RgbPixel};
pub use protocol::{resolve_protocol, GraphicsProtocol};
