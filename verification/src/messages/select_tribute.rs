//! The engine asks which monsters to tribute.
use crate::bytes::{get_u32_le, le_u32};
use crate::collect::{collect, lemma_collect_err_sticks};
use crate::constants::{CardController, CardLocation};
use crate::data::{announced_card, new_announced_card, CardData};
use crate::error::ParseError;
use vstd::prelude::*;

verus! {

/// The `i`-th candidate: the eleven bytes at `19 + 11 i` hold its code, controller, location,
/// a four-byte sequence (of which the low byte is kept) and a release parameter.
pub open spec fn spec_tribute_candidate(s: Seq<u8>, i: nat) -> Result<CardData, ParseError> {
    let at: int = 19 + 11 * (i as int);
    match CardController::from_code(s[at + 4]) {
        Err(e) => Err(e),
        Ok(controller) => match CardLocation::from_code(s[at + 5]) {
            Err(e) => Err(e),
            Ok(location) => Ok(
                announced_card(
                    le_u32(s, at),
                    controller,
                    location,
                    None,
                    le_u32(s, at + 6) as u8,
                    Some(i as u8),
                ),
            ),
        },
    }
}

/// The candidates of `s`, by index.
pub open spec fn tribute_candidates(s: Seq<u8>) -> spec_fn(nat) -> Result<CardData, ParseError> {
    |i: nat| spec_tribute_candidate(s, i)
}

/// The choice offered, as a mathematical sequence.
pub struct SelectTributeView {
    pub player: u8,
    pub is_cancelable: bool,
    pub min_select: u32,
    pub max_select: u32,
    pub candidates: Seq<CardData>,
}

/// How many monsters to tribute and the monsters that may be tributed.
#[derive(Debug, Clone, PartialEq, Eq)]
pub struct SelectTributeMessageData {
    pub player: u8,
    pub is_cancelable: bool,
    pub min_select: u32,
    pub max_select: u32,
    pub candidates: Vec<CardData>,
}

impl View for SelectTributeMessageData {
    type V = SelectTributeView;

    open spec fn view(&self) -> SelectTributeView {
        SelectTributeView {
            player: self.player,
            is_cancelable: self.is_cancelable,
            min_select: self.min_select,
            max_select: self.max_select,
            candidates: self.candidates@,
        }
    }
}

impl SelectTributeMessageData {
    /// The buffer holds the header (bytes 5..19) and an eleven-byte block per candidate.
    pub open spec fn well_formed(s: Seq<u8>) -> bool {
        s.len() >= 19 && 19 + 11 * le_u32(s, 15) <= s.len()
    }

    /// Whether [`Self::well_formed`] holds of `bytes`.
    pub fn is_well_formed(bytes: &[u8]) -> (b: bool)
        ensures
            b == Self::well_formed(bytes@),
    {
        bytes.len() >= 19 && {
            let count = get_u32_le(bytes, 15) as u64;
            19 + 11 * count <= bytes.len() as u64
        }
    }

    /// The message stored in `s`, or the first candidate's error.
    pub open spec fn spec_parse(s: Seq<u8>) -> Result<SelectTributeView, ParseError> {
        match collect(le_u32(s, 15) as nat, tribute_candidates(s)) {
            Ok(candidates) => Ok(
                SelectTributeView {
                    player: s[5],
                    is_cancelable: s[6] != 0,
                    min_select: le_u32(s, 7),
                    max_select: le_u32(s, 11),
                    candidates,
                },
            ),
            Err(e) => Err(e),
        }
    }

    /// Decodes the message in `bytes`.
    pub fn try_from(bytes: &[u8]) -> (res: Result<SelectTributeMessageData, ParseError>)
        requires
            Self::well_formed(bytes@),
        ensures
            match res {
                Ok(m) => Self::spec_parse(bytes@) == Ok::<SelectTributeView, ParseError>(m@),
                Err(e) => Self::spec_parse(bytes@) == Err::<SelectTributeView, ParseError>(e),
            },
    {
        let len = bytes.len();
        let player = bytes[5];
        let is_cancelable = bytes[6] != 0;
        let min_select = get_u32_le(bytes, 7);
        let max_select = get_u32_le(bytes, 11);
        let count = get_u32_le(bytes, 15) as usize;
        let ghost f = tribute_candidates(bytes@);
        let mut candidates: Vec<CardData> = Vec::new();
        let mut index: usize = 0;
        while index < count
            invariant
                Self::well_formed(bytes@),
                count == le_u32(bytes@, 15),
                19 + 11 * count <= bytes@.len(),
                len == bytes@.len(),
                f == tribute_candidates(bytes@),
                index <= count,
                collect(index as nat, f) == Ok::<Seq<CardData>, ParseError>(candidates@),
            decreases count - index,
        {
            let offset = 19 + 11 * index;
            let card_code = get_u32_le(bytes, offset);
            let controller = bytes[offset + 4];
            let location = bytes[offset + 5];
            let sequence = get_u32_le(bytes, offset + 6) as u8;
            let controller = match CardController::try_from(controller) {
                Ok(c) => c,
                Err(e) => {
                    proof {
                        lemma_collect_err_sticks((index + 1) as nat, count as nat, f);
                    }
                    return Err(e);
                },
            };
            let location = match CardLocation::try_from(location) {
                Ok(l) => l,
                Err(e) => {
                    proof {
                        lemma_collect_err_sticks((index + 1) as nat, count as nat, f);
                    }
                    return Err(e);
                },
            };
            let card = new_announced_card(
                card_code,
                controller,
                location,
                None,
                sequence,
                Some(index as u8),
            );
            candidates.push(card);
            proof {
                assert(candidates@ =~= collect(index as nat, f)->Ok_0.push(card));
            }
            index = index + 1;
        }
        Ok(SelectTributeMessageData { player, is_cancelable, min_select, max_select, candidates })
    }
}

} // verus!
