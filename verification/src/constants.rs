//! Measures of the cards as they are drawn.

use vstd::prelude::*;

verus! {

/// Width of a card texture, in pixels.
pub const CARD_WIDTH: u32 = 512;

/// Height of a card texture, in pixels.
pub const CARD_HEIGHT: u32 = 716;

/// Width of the border of a card texture, in pixels.
pub const CARD_BORDER: u32 = 10;

/// Height of the header of a card texture, in pixels.
pub const CARD_HEADER_HEIGHT: u32 = 70;

/// Height of the description of a card texture, in pixels.
pub const CARD_DESC_HEIGHT: u32 = 160;

/// The most cards that are shown at once.
pub const MAX_DISPLAYED_CARDS: usize = 4;

} // verus!
