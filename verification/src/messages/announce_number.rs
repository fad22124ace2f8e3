//! The engine asks the player to announce one number from a list.
use crate::bytes::{get_u32_le, le_u32};
use crate::error::ParseError;
use vstd::prelude::*;

verus! {

/// The numbers offered, as a mathematical sequence.
pub struct AnnounceNumberView {
    pub player: u8,
    pub numbers: Seq<u32>,
}

/// The player and the numbers it may announce.
#[derive(Hash, Debug, Clone, PartialEq, Eq, PartialOrd, Ord)]
pub struct AnnounceNumberMessageData {
    pub player: u8,
    pub numbers: Vec<u32>,
}

impl View for AnnounceNumberMessageData {
    type V = AnnounceNumberView;

    open spec fn view(&self) -> AnnounceNumberView {
        AnnounceNumberView { player: self.player, numbers: self.numbers@ }
    }
}

impl AnnounceNumberMessageData {
    /// The buffer holds the player (byte 5), the count (byte 6) and, for each number, the
    /// four bytes of it at the start of its eight-byte slot from byte 7.
    pub open spec fn well_formed(s: Seq<u8>) -> bool {
        s.len() >= 7 && (s[6] == 0 || 8 * s[6] + 3 <= s.len())
    }

    /// Whether [`Self::well_formed`] holds of `bytes`.
    pub fn is_well_formed(bytes: &[u8]) -> (b: bool)
        ensures
            b == Self::well_formed(bytes@),
    {
        bytes.len() >= 7 && (bytes[6] == 0 || 8 * (bytes[6] as usize) + 3 <= bytes.len())
    }

    /// The message stored in `s`: the `i`-th number is the little-endian `u32` at `7 + 8 i`.
    pub open spec fn spec_parse(s: Seq<u8>) -> AnnounceNumberView {
        AnnounceNumberView {
            player: s[5],
            numbers: Seq::new(s[6] as nat, |i: int| le_u32(s, 7 + 8 * i)),
        }
    }

    /// Decodes the message in `bytes`.
    pub fn try_from(bytes: &[u8]) -> (res: Result<AnnounceNumberMessageData, ParseError>)
        requires
            Self::well_formed(bytes@),
        ensures
            res is Ok,
            res matches Ok(m) ==> m@ == Self::spec_parse(bytes@),
    {
        let player = bytes[5];
        let count = bytes[6] as usize;
        let mut numbers: Vec<u32> = Vec::new();
        let mut index: usize = 0;
        while index < count
            invariant
                Self::well_formed(bytes@),
                count == bytes@[6],
                index <= count,
                numbers@ =~= Seq::new(index as nat, |i: int| le_u32(bytes@, 7 + 8 * i)),
            decreases count - index,
        {
            let offset = 7 + index * 8;
            numbers.push(get_u32_le(bytes, offset));
            index = index + 1;
        }
        Ok(AnnounceNumberMessageData { player, numbers })
    }
}

} // verus!
