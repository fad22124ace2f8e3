//! The engine asks the player to pick between a minimum and a maximum number of cards.
use crate::bytes::{get_u32_le, le_u32};
use crate::constants::{CardController, CardLocation};
use crate::data::{announced_card, new_announced_card, CardData};
use crate::error::ParseError;
use vstd::prelude::*;

verus! {

/// The choice offered, as a mathematical sequence.
pub struct SelectCardView {
    pub min_select: u32,
    pub max_select: u32,
    pub cards: Seq<CardData>,
}

/// How many cards to pick and the cards to pick from.
#[derive(Debug, Clone, PartialEq, Eq)]
pub struct SelectCardMessage {
    pub min_select: u32,
    pub max_select: u32,
    pub cards: Vec<CardData>,
}

impl View for SelectCardMessage {
    type V = SelectCardView;

    open spec fn view(&self) -> SelectCardView {
        SelectCardView {
            min_select: self.min_select,
            max_select: self.max_select,
            cards: self.cards@,
        }
    }
}

/// The location of a location byte once the material flag (bit 7) is dropped; an unknown
/// location is taken for the deck.
pub open spec fn selectable_location(raw: u8) -> CardLocation {
    match CardLocation::from_code(raw & 0x7F) {
        Ok(l) => l,
        Err(_) => CardLocation::Deck,
    }
}

/// The `i`-th card offered: the fourteen bytes at `19 + 14 i` hold its code, a controller
/// byte (zero for the player, any other value for the opponent), a location byte and its
/// sequence.
pub open spec fn spec_selectable_card(s: Seq<u8>, i: int) -> CardData {
    let at = 19 + 14 * i;
    announced_card(
        le_u32(s, at),
        if s[at + 4] == 0 {
            CardController::Player
        } else {
            CardController::_Opponent
        },
        selectable_location(s[at + 5]),
        None,
        s[at + 6],
        None,
    )
}

impl SelectCardMessage {
    /// The buffer holds the bounds (bytes 7..15), the count (bytes 15..19) and a
    /// fourteen-byte block per card from byte 19.
    pub open spec fn well_formed(s: Seq<u8>) -> bool {
        s.len() >= 19 && 19 + 14 * le_u32(s, 15) <= s.len()
    }

    /// Whether [`Self::well_formed`] holds of `bytes`.
    pub fn is_well_formed(bytes: &[u8]) -> (b: bool)
        ensures
            b == Self::well_formed(bytes@),
    {
        bytes.len() >= 19 && {
            let count = get_u32_le(bytes, 15) as u64;
            19 + 14 * count <= bytes.len() as u64
        }
    }

    /// The message stored in `s`.
    pub open spec fn spec_parse(s: Seq<u8>) -> SelectCardView {
        SelectCardView {
            min_select: le_u32(s, 7),
            max_select: le_u32(s, 11),
            cards: Seq::new(le_u32(s, 15) as nat, |i: int| spec_selectable_card(s, i)),
        }
    }

    /// Decodes the message in `raw_bytes`.
    pub fn try_from(raw_bytes: &[u8]) -> (res: Result<SelectCardMessage, ParseError>)
        requires
            Self::well_formed(raw_bytes@),
        ensures
            res is Ok,
            res matches Ok(m) ==> m@ == Self::spec_parse(raw_bytes@),
    {
        let len = raw_bytes.len();
        let min_select = get_u32_le(raw_bytes, 7);
        let max_select = get_u32_le(raw_bytes, 11);
        let count = get_u32_le(raw_bytes, 15) as usize;
        let mut cards: Vec<CardData> = Vec::new();
        let mut index: usize = 0;
        while index < count
            invariant
                Self::well_formed(raw_bytes@),
                count == le_u32(raw_bytes@, 15),
                19 + 14 * count <= raw_bytes@.len(),
                len == raw_bytes@.len(),
                index <= count,
                cards@ =~= Seq::new(index as nat, |i: int| spec_selectable_card(raw_bytes@, i)),
            decreases count - index,
        {
            let offset = 19 + 14 * index;
            let id = get_u32_le(raw_bytes, offset);
            let controller = if raw_bytes[offset + 4] == 0 {
                CardController::Player
            } else {
                CardController::_Opponent
            };
            let base_location_byte = raw_bytes[offset + 5] & 0x7F;
            let location = match CardLocation::try_from(base_location_byte) {
                Ok(l) => l,
                Err(_) => CardLocation::Deck,
            };
            let sequence = raw_bytes[offset + 6];
            cards.push(new_announced_card(id, controller, location, None, sequence, None));
            index = index + 1;
        }
        Ok(SelectCardMessage { min_select, max_select, cards })
    }
}

} // verus!
