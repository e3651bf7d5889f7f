//! The look of a card: its colours by its family and the regions of its
//! texture.

use crate::components::CardType;
use vstd::prelude::*;

verus! {

/// A colour: red, green, blue and opacity.
#[derive(Clone, Copy, Debug, PartialEq, Eq, Structural)]
pub struct Rgba {
    pub r: u8,
    pub g: u8,
    pub b: u8,
    pub a: u8,
}

/// The colours of a card.
#[derive(Clone, Copy, Debug, PartialEq, Eq, Structural)]
pub struct CardColors {
    pub header_background: Rgba,
    pub border: Rgba,
    pub description_background: Rgba,
}

/// The colours of a card of the family `card_type`: header and border by the
/// family, the description always on the same yellow.
pub open spec fn card_colors(card_type: CardType) -> CardColors {
    CardColors {
        header_background: match card_type {
            CardType::Resistance => Rgba { r: 40, g: 80, b: 40, a: 255 },
            CardType::Palestinian => Rgba { r: 80, g: 60, b: 40, a: 255 },
            CardType::Politics => Rgba { r: 40, g: 40, b: 80, a: 255 },
            CardType::Negative => Rgba { r: 100, g: 30, b: 30, a: 255 },
        },
        border: match card_type {
            CardType::Resistance => Rgba { r: 30, g: 60, b: 30, a: 255 },
            CardType::Palestinian => Rgba { r: 60, g: 45, b: 30, a: 255 },
            CardType::Politics => Rgba { r: 30, g: 30, b: 60, a: 255 },
            CardType::Negative => Rgba { r: 80, g: 20, b: 20, a: 255 },
        },
        description_background: Rgba { r: 220, g: 240, b: 80, a: 255 },
    }
}

/// The colours of a card of the family `card_type`.
pub fn get_card_colors(card_type: &CardType) -> (r: CardColors)
    ensures
        r == card_colors(*card_type),
{
    let header_background = match card_type {
        CardType::Resistance => Rgba { r: 40, g: 80, b: 40, a: 255 },
        CardType::Palestinian => Rgba { r: 80, g: 60, b: 40, a: 255 },
        CardType::Politics => Rgba { r: 40, g: 40, b: 80, a: 255 },
        CardType::Negative => Rgba { r: 100, g: 30, b: 30, a: 255 },
    };
    let border = match card_type {
        CardType::Resistance => Rgba { r: 30, g: 60, b: 30, a: 255 },
        CardType::Palestinian => Rgba { r: 60, g: 45, b: 30, a: 255 },
        CardType::Politics => Rgba { r: 30, g: 30, b: 60, a: 255 },
        CardType::Negative => Rgba { r: 80, g: 20, b: 20, a: 255 },
    };
    CardColors {
        header_background,
        border,
        description_background: Rgba { r: 220, g: 240, b: 80, a: 255 },
    }
}

/// A rectangle of a texture, in pixels from its top left corner.
#[derive(Clone, Copy, Debug, PartialEq, Eq, Structural)]
pub struct Region {
    pub x: u32,
    pub y: u32,
    pub width: u32,
    pub height: u32,
}

/// The regions of a card texture that are filled with a colour: the whole
/// card with the border's, then the header and the description with theirs.
#[derive(Clone, Copy, Debug, PartialEq, Eq, Structural)]
pub struct CardRegions {
    pub card: Region,
    pub header: Region,
    pub description: Region,
}

/// Whether border, header and description fit into a card of that size.
pub open spec fn card_fits(
    card_width: u32,
    card_height: u32,
    border: u32,
    header_height: u32,
    desc_height: u32,
) -> bool {
    &&& 2 * border <= card_width
    &&& 2 * border + header_height + desc_height <= card_height
}

/// The regions of a card: the header lies below the top border, the
/// description above the bottom border, both between the side borders, and
/// the artwork takes the height between them.
pub open spec fn regions_of(
    card_width: u32,
    card_height: u32,
    border: u32,
    header_height: u32,
    desc_height: u32,
) -> CardRegions {
    CardRegions {
        card: Region { x: 0, y: 0, width: card_width, height: card_height },
        header: Region {
            x: border,
            y: border,
            width: (card_width - 2 * border) as u32,
            height: header_height,
        },
        description: Region {
            x: border,
            y: (card_height - border - desc_height) as u32,
            width: (card_width - 2 * border) as u32,
            height: desc_height,
        },
    }
}

/// The regions to fill when the backgrounds of a card are drawn; none if
/// border, header and description do not fit into the card.
pub fn card_background_regions(
    card_width: u32,
    card_height: u32,
    border: u32,
    header_height: u32,
    desc_height: u32,
) -> (r: Option<CardRegions>)
    ensures
        r == if card_fits(card_width, card_height, border, header_height, desc_height) {
            Some(regions_of(card_width, card_height, border, header_height, desc_height))
        } else {
            None
        },
{
    let frame: u64 = 2 * (border as u64);
    let parts: u64 = frame + header_height as u64 + desc_height as u64;
    if frame > card_width as u64 || parts > card_height as u64 {
        return None;
    }
    let artwork_height: u32 = card_height - (border * 2 + header_height + desc_height);
    let artwork_y: u32 = border + header_height;
    let desc_y: u32 = artwork_y + artwork_height;
    Some(
        CardRegions {
            card: Region { x: 0, y: 0, width: card_width, height: card_height },
            header: Region {
                x: border,
                y: border,
                width: card_width - border * 2,
                height: header_height,
            },
            description: Region {
                x: border,
                y: desc_y,
                width: card_width - border * 2,
                height: desc_height,
            },
        },
    )
}

} // verus!
