//! How the cards of the hand are laid out as a fan, and whether the selected card can be
//! Normal Summoned.
use crate::custom_hand::{parse_u32, spec_parse_u32};
use crate::data::{CardData, HandCard};
use crate::text::chars_of;
use vstd::prelude::*;

verus! {

/// How a card of the hand is drawn: its tilt in degrees, its vertical shift in percent of
/// its height, and its stacking order.
#[derive(Debug, Clone, Copy, PartialEq, Eq, Structural)]
pub struct HandCardLayout {
    pub rotation: i32,
    pub translate_y: i32,
    pub z_index: i32,
}

/// The layout of card `index` of a hand of `hand_size` cards when card `selected` is
/// selected. The cards fan out around the middle: a card's distance from it is
/// `2 index - (hand_size - 1)`, its tilt is that distance, and it sinks by a quarter of
/// the squared distance. The selected card stands upright, raised by a quarter of its
/// height, above the others.
pub open spec fn spec_hand_card_layout(index: int, hand_size: int, selected: int) -> HandCardLayout {
    let distance = 2 * index - (hand_size - 1);
    let magnitude = if distance < 0 {
        -distance
    } else {
        distance
    };
    if selected == index {
        HandCardLayout { rotation: 0, translate_y: -25i32, z_index: 100i32 }
    } else {
        HandCardLayout {
            rotation: distance as i32,
            translate_y: ((magnitude * magnitude * 4) / 16) as i32,
            z_index: 0,
        }
    }
}

/// The layout of [`spec_hand_card_layout`]. The hand has at most 23171 cards, so that the
/// squared distance stays within an `i32`.
pub fn hand_card_layout(index: usize, hand_size: usize, selected: i32) -> (l: HandCardLayout)
    requires
        index < hand_size <= 23171,
    ensures
        l == spec_hand_card_layout(index as int, hand_size as int, selected as int),
{
    let center = hand_size as i32 - 1;
    let distance = (index as i32) * 2 - center;
    let magnitude = if distance < 0 {
        -distance
    } else {
        distance
    };
    if selected == index as i32 {
        HandCardLayout { rotation: 0, translate_y: -25, z_index: 100 }
    } else {
        assert(magnitude * magnitude <= 23170 * 23170) by (nonlinear_arith)
            requires
                0 <= magnitude <= 23170,
        ;
        HandCardLayout { rotation: distance, translate_y: (magnitude * magnitude * 4) / 16, z_index: 0 }
    }
}

/// The code written on a card of the hand, or 0 when the text is not a code.
pub open spec fn shown_code(card_id: Seq<char>) -> u32 {
    match spec_parse_u32(card_id) {
        Ok(c) => c,
        Err(_) => 0,
    }
}

/// Whether the hand card whose code is written `card_id` is among the cards that can be
/// Normal Summoned (a text that is not a code counts as code 0).
pub fn can_normal_summon(card_id: &String, available_summons: &Vec<u32>) -> (b: bool)
    ensures
        b == available_summons@.contains(shown_code(card_id@)),
{
    let chars = chars_of(card_id.as_str());
    let code = match parse_u32(&chars) {
        Ok(c) => c,
        Err(_) => 0,
    };
    let mut i: usize = 0;
    while i < available_summons.len()
        invariant
            i <= available_summons.len(),
            code == shown_code(card_id@),
            forall|j: int| 0 <= j < i ==> available_summons@[j] != code,
        decreases available_summons.len() - i,
    {
        if available_summons[i] == code {
            return true;
        }
        i = i + 1;
    }
    false
}


/// The fan is symmetric: cards at the same distance from the middle on either side tilt
/// by opposite angles and sink equally, unless one of them is the selected card.
pub proof fn lemma_fan_symmetric(index: int, hand_size: int, selected: int)
    requires
        0 <= index < hand_size <= 23171,
        selected != index,
        selected != hand_size - 1 - index,
    ensures
        spec_hand_card_layout(index, hand_size, selected).translate_y == spec_hand_card_layout(
            hand_size - 1 - index,
            hand_size,
            selected,
        ).translate_y,
        spec_hand_card_layout(index, hand_size, selected).rotation as int == -(
        spec_hand_card_layout(hand_size - 1 - index, hand_size, selected).rotation as int),
{
    let d = 2 * index - (hand_size - 1);
    let e = 2 * (hand_size - 1 - index) - (hand_size - 1);
    assert(e == -d);
}


/// The hand card for slot `index` holding the card with code `code`, with no action offered.
pub open spec fn plain_hand_card(index: int, code: u32) -> HandCard {
    HandCard {
        index: index as usize,
        code,
        is_activatable_or_chainable: false,
        activate_index: None,
        chain_index: None,
        normal_summon_index: None,
        monster_set_index: None,
        spell_trap_set_index: None,
    }
}

/// The hand as the engine lists it, one plain hand card per slot: its index and its code.
pub open spec fn spec_raw_hand(cards: Seq<Option<CardData>>) -> Seq<HandCard> {
    Seq::new(cards.len(), |i: int| plain_hand_card(i, cards[i]->Some_0.card_code))
}

/// The hand cards of the slots `cards` reported for the hand (see [`spec_raw_hand`]); every
/// slot of a hand holds a card.
pub fn get_raw_hand(cards: &Vec<Option<CardData>>) -> (hand: Vec<HandCard>)
    requires
        forall|i: int| 0 <= i < cards@.len() ==> (#[trigger] cards@[i]) is Some,
    ensures
        hand@ == spec_raw_hand(cards@),
{
    let mut hand: Vec<HandCard> = Vec::new();
    let mut i: usize = 0;
    while i < cards.len()
        invariant
            i <= cards.len(),
            forall|j: int| 0 <= j < cards@.len() ==> (#[trigger] cards@[j]) is Some,
            hand@ == spec_raw_hand(cards@).take(i as int),
        decreases cards.len() - i,
    {
        let code = match cards[i] {
            Some(c) => c.card_code,
            None => 0,
        };
        hand.push(
            HandCard {
                index: i,
                code,
                is_activatable_or_chainable: false,
                activate_index: None,
                chain_index: None,
                normal_summon_index: None,
                monster_set_index: None,
                spell_trap_set_index: None,
            },
        );
        i = i + 1;
        proof {
            assert(hand@ =~= spec_raw_hand(cards@).take(i as int));
        }
    }
    proof {
        assert(spec_raw_hand(cards@).take(cards.len() as int) =~= spec_raw_hand(cards@));
    }
    hand
}

} // verus!
