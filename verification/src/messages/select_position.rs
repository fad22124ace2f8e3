//! The engine asks in which battle position to place a card.
use crate::bytes::{get_u32_le, le_u32};
use crate::constants::BattlePosition;
use crate::error::ParseError;
use vstd::prelude::*;

verus! {

/// The positions a mask allows, in the order attack up, attack down, defense up, defense down.
pub open spec fn allowed_positions(mask: u8) -> Seq<BattlePosition> {
    (if mask & 1 != 0 { seq![BattlePosition::FaceUpAttack] } else { Seq::empty() }) + (if mask
        & 2 != 0 {
        seq![BattlePosition::FaceDownAttack]
    } else {
        Seq::empty()
    }) + (if mask & 4 != 0 { seq![BattlePosition::FaceUpDefense] } else { Seq::empty() }) + (
    if mask & 8 != 0 {
        seq![BattlePosition::FaceDownDefense]
    } else {
        Seq::empty()
    })
}

/// The choice offered, as a mathematical sequence.
pub struct SelectPositionView {
    pub player: u8,
    pub card_code: u32,
    pub positions: Seq<BattlePosition>,
}

/// The card to place and the positions it may take.
#[derive(Debug, Clone, PartialEq, Eq, PartialOrd, Ord)]
pub struct SelectPositionMessageData {
    pub player: u8,
    pub card_code: u32,
    pub positions: Vec<BattlePosition>,
}

impl View for SelectPositionMessageData {
    type V = SelectPositionView;

    open spec fn view(&self) -> SelectPositionView {
        SelectPositionView {
            player: self.player,
            card_code: self.card_code,
            positions: self.positions@,
        }
    }
}

impl SelectPositionMessageData {
    /// The buffer reaches byte 10.
    pub open spec fn well_formed(s: Seq<u8>) -> bool {
        s.len() >= 11
    }

    /// Whether [`Self::well_formed`] holds of `bytes`.
    pub fn is_well_formed(bytes: &[u8]) -> (b: bool)
        ensures
            b == Self::well_formed(bytes@),
    {
        bytes.len() >= 11
    }

    /// The message stored in `s`: player (byte 5), code (bytes 6..10), position mask (byte 10).
    pub open spec fn spec_parse(s: Seq<u8>) -> SelectPositionView {
        SelectPositionView {
            player: s[5],
            card_code: le_u32(s, 6),
            positions: allowed_positions(s[10]),
        }
    }

    /// Decodes the message in `bytes`.
    pub fn try_from(bytes: &[u8]) -> (res: Result<SelectPositionMessageData, ParseError>)
        requires
            Self::well_formed(bytes@),
        ensures
            res is Ok,
            res matches Ok(m) ==> m@ == Self::spec_parse(bytes@),
    {
        let mut positions: Vec<BattlePosition> = Vec::new();
        let player = bytes[5];
        let card_code = get_u32_le(bytes, 6);
        let position_mask = bytes[10];
        if (position_mask & 0x1) != 0 {
            positions.push(BattlePosition::FaceUpAttack);
        }
        if (position_mask & 0x2) != 0 {
            positions.push(BattlePosition::FaceDownAttack);
        }
        if (position_mask & 0x4) != 0 {
            positions.push(BattlePosition::FaceUpDefense);
        }
        if (position_mask & 0x8) != 0 {
            positions.push(BattlePosition::FaceDownDefense);
        }
        proof {
            assert(positions@ =~= allowed_positions(position_mask));
        }
        Ok(SelectPositionMessageData { player, card_code, positions })
    }
}


/// A position the message offers is one whose code is a bit set in the position mask
/// (byte 10), and every card position (attack or defense, face-up or face-down) whose bit is
/// set is offered, each once; the face-down flag (code 10) is never offered.
pub proof fn lemma_positions_follow_mask(s: Seq<u8>)
    ensures
        forall|i: int|
            0 <= i < SelectPositionMessageData::spec_parse(s).positions.len() ==> {
                let p = #[trigger] SelectPositionMessageData::spec_parse(s).positions[i];
                &&& p.spec_code() & s[10] != 0
                &&& p != BattlePosition::FaceDown
            },
        forall|p: BattlePosition|
            p != BattlePosition::FaceDown && #[trigger] (p.spec_code() & s[10]) != 0
                ==> SelectPositionMessageData::spec_parse(s).positions.contains(p),
        SelectPositionMessageData::spec_parse(s).positions.no_duplicates(),
{
    let mask = s[10];
    assert((mask & 1u8) == (1u8 & mask)) by (bit_vector);
    assert((mask & 2u8) == (2u8 & mask)) by (bit_vector);
    assert((mask & 4u8) == (4u8 & mask)) by (bit_vector);
    assert((mask & 8u8) == (8u8 & mask)) by (bit_vector);
    let a: Seq<BattlePosition> = if mask & 1 != 0 {
        seq![BattlePosition::FaceUpAttack]
    } else {
        Seq::empty()
    };
    let b: Seq<BattlePosition> = if mask & 2 != 0 {
        seq![BattlePosition::FaceDownAttack]
    } else {
        Seq::empty()
    };
    let c: Seq<BattlePosition> = if mask & 4 != 0 {
        seq![BattlePosition::FaceUpDefense]
    } else {
        Seq::empty()
    };
    let d: Seq<BattlePosition> = if mask & 8 != 0 {
        seq![BattlePosition::FaceDownDefense]
    } else {
        Seq::empty()
    };
    let ps = SelectPositionMessageData::spec_parse(s).positions;
    assert(ps == a + b + c + d);
    assert forall|i: int| 0 <= i < ps.len() implies (#[trigger] ps[i]).spec_code() & mask != 0
        && ps[i] != BattlePosition::FaceDown by {
        if i < a.len() {
            assert(ps[i] == a[i]);
        } else if i < a.len() + b.len() {
            assert(ps[i] == b[i - a.len()]);
        } else if i < a.len() + b.len() + c.len() {
            assert(ps[i] == c[i - a.len() - b.len()]);
        } else {
            assert(ps[i] == d[i - a.len() - b.len() - c.len()]);
        }
    }
    assert forall|p: BattlePosition|
        p != BattlePosition::FaceDown && #[trigger] (p.spec_code() & mask) != 0 implies ps.contains(
        p,
    ) by {
        match p {
            BattlePosition::FaceUpAttack => {
                assert(ps[0] == p);
            },
            BattlePosition::FaceDownAttack => {
                assert(ps[a.len() as int] == p);
            },
            BattlePosition::FaceUpDefense => {
                assert(ps[(a.len() + b.len()) as int] == p);
            },
            BattlePosition::FaceDownDefense => {
                assert(ps[(a.len() + b.len() + c.len()) as int] == p);
            },
            BattlePosition::FaceDown => {},
        }
    }
    assert forall|i: int, j: int| 0 <= i < ps.len() && 0 <= j < ps.len() && i != j implies ps[i]
        != ps[j] by {
        let ia = if i < a.len() { 0int } else if i < a.len() + b.len() { 1int } else if i < a.len()
            + b.len() + c.len() { 2int } else { 3int };
        let ja = if j < a.len() { 0int } else if j < a.len() + b.len() { 1int } else if j < a.len()
            + b.len() + c.len() { 2int } else { 3int };
        assert(ia != ja);
        if i < a.len() {
            assert(ps[i] == a[i]);
        } else if i < a.len() + b.len() {
            assert(ps[i] == b[i - a.len()]);
        } else if i < a.len() + b.len() + c.len() {
            assert(ps[i] == c[i - a.len() - b.len()]);
        } else {
            assert(ps[i] == d[i - a.len() - b.len() - c.len()]);
        }
        if j < a.len() {
            assert(ps[j] == a[j]);
        } else if j < a.len() + b.len() {
            assert(ps[j] == b[j - a.len()]);
        } else if j < a.len() + b.len() + c.len() {
            assert(ps[j] == c[j - a.len() - b.len()]);
        } else {
            assert(ps[j] == d[j - a.len() - b.len() - c.len()]);
        }
    }
}

} // verus!
