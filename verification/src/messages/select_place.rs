//! The engine asks in which zone to place a card.
use crate::bytes::{get_u32_le, le_u32};
use crate::constants::CardLocation;
use crate::data::Zone;
use crate::error::ParseError;
use vstd::prelude::*;

verus! {

/// The `k`-th zone the engine may offer: the seven monster zones (main then extra), the five
/// spell/trap zones, then the field zone (spell/trap sequence 5).
pub open spec fn place_candidate(k: int) -> Zone {
    if k < 7 {
        Zone { location: CardLocation::MonsterZone, sequence: k as u8 }
    } else if k < 12 {
        Zone { location: CardLocation::SpellTrapZone, sequence: (k - 7) as u8 }
    } else {
        Zone { location: CardLocation::SpellTrapZone, sequence: 5 }
    }
}

/// The bit of the zone mask that marks the `k`-th candidate as taken.
pub open spec fn place_candidate_bit(k: int) -> u32 {
    if k < 7 {
        k as u32
    } else if k < 12 {
        (k + 1) as u32
    } else {
        13
    }
}

/// The first `n` candidates whose bit is clear in `mask`, in candidate order.
pub open spec fn free_zones(mask: u32, n: nat) -> Seq<Zone>
    decreases n,
{
    if n == 0 {
        Seq::empty()
    } else {
        free_zones(mask, (n - 1) as nat) + if mask & (1u32 << place_candidate_bit(n - 1)) == 0 {
            seq![place_candidate(n - 1)]
        } else {
            Seq::empty()
        }
    }
}

/// The choice offered, as a mathematical sequence.
pub struct SelectPlaceView {
    pub player: u8,
    pub count: u8,
    pub zones: Seq<Zone>,
}

/// The player, how many zones to pick, and the free zones.
#[derive(Debug, Clone, PartialEq, Eq, PartialOrd, Ord)]
pub struct SelectPlaceMessageData {
    pub player: u8,
    pub count: u8,
    pub zones: Vec<Zone>,
}

impl View for SelectPlaceMessageData {
    type V = SelectPlaceView;

    open spec fn view(&self) -> SelectPlaceView {
        SelectPlaceView { player: self.player, count: self.count, zones: self.zones@ }
    }
}

impl SelectPlaceMessageData {
    /// The buffer reaches byte 10.
    pub open spec fn well_formed(s: Seq<u8>) -> bool {
        s.len() >= 11
    }

    /// Whether [`Self::well_formed`] holds of `bytes`.
    pub fn is_well_formed(bytes: &[u8]) -> (b: bool)
        ensures
            b == Self::well_formed(bytes@),
    {
        bytes.len() >= 11
    }

    /// The message stored in `s`: player (byte 5), count (byte 6), and the zones whose bit is
    /// clear in the mask at bytes 7..11 (a set bit marks a taken zone).
    pub open spec fn spec_parse(s: Seq<u8>) -> SelectPlaceView {
        SelectPlaceView { player: s[5], count: s[6], zones: free_zones(le_u32(s, 7), 13) }
    }

    /// Decodes the message in `bytes`.
    pub fn try_from(bytes: &[u8]) -> (res: Result<SelectPlaceMessageData, ParseError>)
        requires
            Self::well_formed(bytes@),
        ensures
            res is Ok,
            res matches Ok(m) ==> m@ == Self::spec_parse(bytes@),
    {
        let mut zones: Vec<Zone> = Vec::new();
        let player = bytes[5];
        let count = bytes[6];
        let zone_mask = get_u32_le(bytes, 7);
        let mut sequence: u8 = 0;
        while sequence < 7
            invariant
                sequence <= 7,
                zones@ == free_zones(zone_mask, sequence as nat),
            decreases 7 - sequence,
        {
            if (zone_mask & (1u32 << sequence)) == 0 {
                zones.push(Zone { location: CardLocation::MonsterZone, sequence });
            }
            proof {
                assert(place_candidate_bit(sequence as int) == sequence as u32);
            }
            sequence = sequence + 1;
        }
        let mut sequence: u8 = 0;
        while sequence < 5
            invariant
                sequence <= 5,
                zones@ == free_zones(zone_mask, (7 + sequence) as nat),
            decreases 5 - sequence,
        {
            if (zone_mask & (1u32 << (8 + sequence))) == 0 {
                zones.push(Zone { location: CardLocation::SpellTrapZone, sequence });
            }
            proof {
                assert(place_candidate_bit(7 + sequence) == (8 + sequence) as u32);
            }
            sequence = sequence + 1;
        }
        let ghost before = zones@;
        if (zone_mask & (1u32 << 13u32)) == 0 {
            zones.push(Zone { location: CardLocation::SpellTrapZone, sequence: 5 });
        }
        proof {
            assert(place_candidate_bit(12) == 13u32);
            assert(free_zones(zone_mask, 13) == before + if zone_mask & (1u32 << 13u32) == 0 {
                seq![place_candidate(12)]
            } else {
                Seq::<Zone>::empty()
            });
            assert(zones@ =~= free_zones(zone_mask, 13));
        }
        Ok(SelectPlaceMessageData { player, count, zones })
    }
}

} // verus!
