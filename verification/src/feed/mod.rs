//! The discovery feed.
pub mod algorithm;
pub mod liked;

pub use algorithm::{FeedItem, SelectionStrategy};
