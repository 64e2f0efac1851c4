//! The article reader's text model: the markup tree, link targets, banners
//! and the plain types a parsed article is made of.
pub mod banners;
pub mod blocks;
pub mod codeblocks;
pub mod document;
pub mod elements;
pub mod entities;
pub mod html;
pub mod tables;
pub mod images;
pub mod types;
pub mod utils;

pub use banners::{ArticleBanner, BannerType};
pub use types::{AudioTrack, Heading, Link, SpokenAudio};
pub use utils::url_decode;
