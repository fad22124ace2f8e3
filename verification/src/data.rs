//! Plain records describing cards as the client shows them.
use crate::constants::{BattlePosition, CardController, CardLocation};
use vstd::prelude::*;

verus! {

/// Every card-type bit the engine defines (monster, spell, trap, and the monster and
/// spell/trap sub-types up to link).
pub const CARD_TYPE_KNOWN_BITS: u32 = 0x7FF_FFF7;

/// The set of card-type bits of a card, limited to the bits the engine defines.
#[derive(Hash, Debug, Clone, Copy, PartialEq, Eq, Structural, PartialOrd, Ord)]
pub struct CardType {
    pub bits: u32,
}

impl CardType {
    /// The raw bits of this set.
    pub open spec fn spec_bits(self) -> u32 {
        self.bits
    }

    /// The raw bits of this set.
    #[verifier::when_used_as_spec(spec_bits)]
    pub fn bits(self) -> (b: u32)
        ensures
            b == self.spec_bits(),
    {
        self.bits
    }

    /// The set with no bit.
    pub fn empty() -> (t: CardType)
        ensures
            t.spec_bits() == 0,
    {
        CardType { bits: 0 }
    }

    /// The set of the known bits among `bits`; unknown bits are dropped.
    pub fn from_bits_truncate(bits: u32) -> (t: CardType)
        ensures
            t.spec_bits() == bits & CARD_TYPE_KNOWN_BITS,
    {
        CardType { bits: bits & CARD_TYPE_KNOWN_BITS }
    }
}

impl Default for CardType {
    /// The set with no bit.
    fn default() -> (t: CardType)
        ensures
            t.spec_bits() == 0,
    {
        CardType { bits: 0 }
    }
}

/// A card as the client shows it: its code, where it is, and what the engine said of it.
#[derive(Hash, Debug, Clone, Copy, PartialEq, Eq, Structural, PartialOrd, Ord)]
pub struct CardData {
    pub action_index: Option<u8>,
    pub card_code: u32,
    pub controller: CardController,
    pub location: CardLocation,
    pub position: Option<BattlePosition>,
    pub sequence: u8,
    pub description: Option<u32>,
    pub is_selected: bool,
    pub level: Option<u32>,
    pub attack: Option<u32>,
    pub defense: Option<u32>,
    pub card_type: CardType,
    pub link_rating: Option<u32>,
}

/// The card record a message announces: code, controller, location, position, sequence
/// and action index given; no description, not selected, no stats, no type.
pub open spec fn announced_card(
    card_code: u32,
    controller: CardController,
    location: CardLocation,
    position: Option<BattlePosition>,
    sequence: u8,
    action_index: Option<u8>,
) -> CardData {
    CardData {
        action_index,
        card_code,
        controller,
        location,
        position,
        sequence,
        description: None,
        is_selected: false,
        level: None,
        attack: None,
        defense: None,
        card_type: CardType { bits: 0 },
        link_rating: None,
    }
}

/// Builds the record of [`announced_card`].
pub fn new_announced_card(
    card_code: u32,
    controller: CardController,
    location: CardLocation,
    position: Option<BattlePosition>,
    sequence: u8,
    action_index: Option<u8>,
) -> (c: CardData)
    ensures
        c == announced_card(card_code, controller, location, position, sequence, action_index),
{
    CardData {
        action_index,
        card_code,
        controller,
        location,
        position,
        sequence,
        description: None,
        is_selected: false,
        level: None,
        attack: None,
        defense: None,
        card_type: CardType::empty(),
        link_rating: None,
    }
}

/// A card in the player's hand and the actions it offers.
#[derive(Hash, Debug, PartialEq, Eq, Structural, Clone, Copy)]
pub struct HandCard {
    pub index: usize,
    pub code: u32,
    pub is_activatable_or_chainable: bool,
    pub activate_index: Option<u8>,
    pub chain_index: Option<u8>,
    pub normal_summon_index: Option<u8>,
    pub monster_set_index: Option<u8>,
    pub spell_trap_set_index: Option<u8>,
}

/// A zone of the field: a location and a sequence within it.
#[derive(Hash, Debug, Clone, Copy, PartialEq, Eq, Structural, PartialOrd, Ord)]
pub struct Zone {
    pub location: CardLocation,
    pub sequence: u8,
}

} // verus!
