//! The engine reports cards the player drew.
use crate::bytes::{get_u32_le, le_u32};
use crate::collect::{collect, lemma_collect_err_sticks};
use crate::constants::{BattlePosition, CardController, CardLocation};
use crate::data::{announced_card, new_announced_card, CardData};
use crate::error::ParseError;
use vstd::prelude::*;

verus! {

/// The drawn cards, as a mathematical sequence.
pub struct DrawView {
    pub player: u8,
    pub cards: Seq<CardData>,
}

/// The player who drew and the cards drawn, each now in the hand.
#[derive(Debug, Clone, PartialEq, Eq, PartialOrd, Ord, Hash)]
pub struct DrawMessageData {
    pub player: u8,
    pub cards: Vec<CardData>,
}

impl View for DrawMessageData {
    type V = DrawView;

    open spec fn view(&self) -> DrawView {
        DrawView { player: self.player, cards: self.cards@ }
    }
}

/// The `i`-th drawn card: code and position in the eight bytes at `10 + 8 i`, controlled by
/// the drawing player, in the hand.
pub open spec fn spec_drawn_card(s: Seq<u8>, i: nat) -> Result<CardData, ParseError> {
    let at: int = 10 + 8 * (i as int);
    match CardController::from_code(s[5]) {
        Err(e) => Err(e),
        Ok(controller) => match BattlePosition::from_code(le_u32(s, at + 4)) {
            Err(e) => Err(e),
            Ok(position) => Ok(
                announced_card(
                    le_u32(s, at),
                    controller,
                    CardLocation::Hand,
                    Some(position),
                    0,
                    None,
                ),
            ),
        },
    }
}

/// The drawn cards of `s`, by index.
pub open spec fn drawn_cards(s: Seq<u8>) -> spec_fn(nat) -> Result<CardData, ParseError> {
    |i: nat| spec_drawn_card(s, i)
}

impl DrawMessageData {
    /// The buffer holds the player (byte 5), the count (bytes 6..10) and an eight-byte slot
    /// per card from byte 10.
    pub open spec fn well_formed(s: Seq<u8>) -> bool {
        s.len() >= 10 && 10 + 8 * le_u32(s, 6) <= s.len()
    }

    /// Whether [`Self::well_formed`] holds of `bytes`.
    pub fn is_well_formed(bytes: &[u8]) -> (b: bool)
        ensures
            b == Self::well_formed(bytes@),
    {
        bytes.len() >= 10 && {
            let count = get_u32_le(bytes, 6) as u64;
            10 + 8 * count <= bytes.len() as u64
        }
    }

    /// The message stored in `s`, or the first card's error.
    pub open spec fn spec_parse(s: Seq<u8>) -> Result<DrawView, ParseError> {
        match collect(le_u32(s, 6) as nat, drawn_cards(s)) {
            Ok(cards) => Ok(DrawView { player: s[5], cards }),
            Err(e) => Err(e),
        }
    }

    /// Decodes the message in `bytes`.
    pub fn try_from(bytes: &[u8]) -> (res: Result<DrawMessageData, ParseError>)
        requires
            Self::well_formed(bytes@),
        ensures
            match res {
                Ok(m) => Self::spec_parse(bytes@) == Ok::<DrawView, ParseError>(m@),
                Err(e) => Self::spec_parse(bytes@) == Err::<DrawView, ParseError>(e),
            },
    {
        let len = bytes.len();
        let player = bytes[5];
        let count = get_u32_le(bytes, 6) as usize;
        let ghost f = drawn_cards(bytes@);
        let mut cards: Vec<CardData> = Vec::new();
        let mut index: usize = 0;
        while index < count
            invariant
                Self::well_formed(bytes@),
                count == le_u32(bytes@, 6),
                10 + 8 * count <= bytes@.len(),
                len == bytes@.len(),
                player == bytes@[5],
                f == drawn_cards(bytes@),
                index <= count,
                collect(index as nat, f) == Ok::<Seq<CardData>, ParseError>(cards@),
            decreases count - index,
        {
            let offset = 10 + 8 * index;
            let card_code = get_u32_le(bytes, offset);
            let raw_position = get_u32_le(bytes, offset + 4);
            let controller = match CardController::try_from(player) {
                Ok(c) => c,
                Err(e) => {
                    proof {
                        lemma_collect_err_sticks((index + 1) as nat, count as nat, f);
                    }
                    return Err(e);
                },
            };
            let position = match BattlePosition::try_from(raw_position) {
                Ok(p) => p,
                Err(e) => {
                    proof {
                        lemma_collect_err_sticks((index + 1) as nat, count as nat, f);
                    }
                    return Err(e);
                },
            };
            let card = new_announced_card(
                card_code,
                controller,
                CardLocation::Hand,
                Some(position),
                0,
                None,
            );
            cards.push(card);
            proof {
                assert(cards@ =~= collect(index as nat, f)->Ok_0.push(card));
            }
            index = index + 1;
        }
        Ok(DrawMessageData { player, cards })
    }
}

} // verus!
