//! The engine asks the player to put cards in order.
use crate::bytes::{get_u32_le, le_u32};
use crate::collect::{collect, lemma_collect_err_sticks};
use crate::constants::{CardController, CardLocation};
use crate::data::{announced_card, new_announced_card, CardData};
use crate::error::ParseError;
use vstd::prelude::*;

verus! {

/// The `i`-th card: the thirteen bytes at `10 + 13 i` start with its code, controller,
/// location and sequence.
pub open spec fn spec_sorted_card(s: Seq<u8>, i: nat) -> Result<CardData, ParseError> {
    let at: int = 10 + 13 * (i as int);
    match CardController::from_code(s[at + 4]) {
        Err(e) => Err(e),
        Ok(controller) => match CardLocation::from_code(s[at + 5]) {
            Err(e) => Err(e),
            Ok(location) => Ok(
                announced_card(le_u32(s, at), controller, location, None, s[at + 6], None),
            ),
        },
    }
}

/// The cards of `s`, by index.
pub open spec fn sorted_cards(s: Seq<u8>) -> spec_fn(nat) -> Result<CardData, ParseError> {
    |i: nat| spec_sorted_card(s, i)
}

/// The cards to order, as a mathematical sequence.
pub struct SortCardView {
    pub player: u8,
    pub cards: Seq<CardData>,
}

/// The player and the cards to put in order.
#[derive(Debug, Clone, PartialEq, Eq)]
pub struct SortCardMessageData {
    pub player: u8,
    pub cards: Vec<CardData>,
}

impl View for SortCardMessageData {
    type V = SortCardView;

    open spec fn view(&self) -> SortCardView {
        SortCardView { player: self.player, cards: self.cards@ }
    }
}

impl SortCardMessageData {
    /// The buffer holds the player (byte 5), the count (bytes 6..10) and a thirteen-byte block
    /// per card.
    pub open spec fn well_formed(s: Seq<u8>) -> bool {
        s.len() >= 10 && 10 + 13 * le_u32(s, 6) <= s.len()
    }

    /// Whether [`Self::well_formed`] holds of `bytes`.
    pub fn is_well_formed(bytes: &[u8]) -> (b: bool)
        ensures
            b == Self::well_formed(bytes@),
    {
        bytes.len() >= 10 && {
            let count = get_u32_le(bytes, 6) as u64;
            10 + 13 * count <= bytes.len() as u64
        }
    }

    /// The message stored in `s`, or the first card's error.
    pub open spec fn spec_parse(s: Seq<u8>) -> Result<SortCardView, ParseError> {
        match collect(le_u32(s, 6) as nat, sorted_cards(s)) {
            Ok(cards) => Ok(SortCardView { player: s[5], cards }),
            Err(e) => Err(e),
        }
    }

    /// Decodes the message in `bytes`.
    pub fn try_from(bytes: &[u8]) -> (res: Result<SortCardMessageData, ParseError>)
        requires
            Self::well_formed(bytes@),
        ensures
            match res {
                Ok(m) => Self::spec_parse(bytes@) == Ok::<SortCardView, ParseError>(m@),
                Err(e) => Self::spec_parse(bytes@) == Err::<SortCardView, ParseError>(e),
            },
    {
        let len = bytes.len();
        let player = bytes[5];
        let count = get_u32_le(bytes, 6) as usize;
        let ghost f = sorted_cards(bytes@);
        let mut cards: Vec<CardData> = Vec::new();
        let mut index: usize = 0;
        while index < count
            invariant
                Self::well_formed(bytes@),
                count == le_u32(bytes@, 6),
                10 + 13 * count <= bytes@.len(),
                len == bytes@.len(),
                f == sorted_cards(bytes@),
                index <= count,
                collect(index as nat, f) == Ok::<Seq<CardData>, ParseError>(cards@),
            decreases count - index,
        {
            let offset = 10 + 13 * index;
            let card_code = get_u32_le(bytes, offset);
            let controller = bytes[offset + 4];
            let location = bytes[offset + 5];
            let sequence = bytes[offset + 6];
            let controller = match CardController::try_from(controller) {
                Ok(c) => c,
                Err(e) => {
                    proof {
                        lemma_collect_err_sticks((index + 1) as nat, count as nat, f);
                    }
                    return Err(e);
                },
            };
            let location = match CardLocation::try_from(location) {
                Ok(l) => l,
                Err(e) => {
                    proof {
                        lemma_collect_err_sticks((index + 1) as nat, count as nat, f);
                    }
                    return Err(e);
                },
            };
            let card = new_announced_card(card_code, controller, location, None, sequence, None);
            cards.push(card);
            proof {
                assert(cards@ =~= collect(index as nat, f)->Ok_0.push(card));
            }
            index = index + 1;
        }
        Ok(SortCardMessageData { player, cards })
    }
}

} // verus!
