//! Searching an anime catalogue site, listing the episodes of a series,
//! finding a playable video link for an episode and driving the menus of the
//! terminal player around them.
use vstd::prelude::*;

pub mod codec;
pub mod episodes;
pub mod error;
pub mod menu;
pub mod pattern;
pub mod player;
pub mod search;
pub mod servers;
pub mod text;
