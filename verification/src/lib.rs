//! Core of a small news-relay batch job: given the rows of a news listing
//! (newest first) and the title delivered most recently, it picks out the
//! unseen entries, flattens each article body from markup to chat-ready text,
//! and decides when the stored watermark may advance.
//!
//! Everything here is pure: fetching pages, parsing markup trees and sending
//! messages live outside the library and hand values in and out.

pub mod delivery;
pub mod detect;
pub mod message;
pub mod normalize;
pub mod text;
