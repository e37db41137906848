//! Emote-aware layout of chat messages for an avatar overlay.
//!
//! A chat message mixes plain words with emote names. This crate decides how
//! such a message wraps inside a fixed-width box drawn in a monospaced font,
//! where every inline emote image sits, and which image assets still have to
//! be requested. All geometry is exact integer arithmetic: lengths are counted
//! in millionths of a pixel and ratios in millionths of one.

pub mod avatar;
pub mod cache;
pub mod catalog;
pub mod config;
pub mod emote;
pub mod layout;
pub mod lifetime;
pub mod names;
pub mod probe;
pub mod session;
pub mod seventv;
pub mod text;
pub mod theorems;
pub mod token;
pub mod wrap;
