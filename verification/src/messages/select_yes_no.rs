//! The engine asks a yes/no question described by a card's string.
use crate::bytes::{get_u64_le, le_u64};
use crate::error::ParseError;
use vstd::prelude::*;

verus! {

/// The card code packed in an effect description: the bits above the low 20, cut to 32 bits.
pub open spec fn description_card_code(description: u64) -> u32 {
    ((description / 0x100000) % 0x1_0000_0000) as u32
}

/// The string index packed in an effect description: its low 20 bits.
pub open spec fn description_string_index(description: u64) -> usize {
    (description % 0x100000) as usize
}

/// The card code packed in an effect description.
pub fn card_code_of_description(description: u64) -> (c: u32)
    ensures
        c == description_card_code(description),
{
    ((description / 0x100000) % 0x1_0000_0000) as u32
}

/// The string index packed in an effect description.
pub fn string_index_of_description(description: u64) -> (i: usize)
    ensures
        i == description_string_index(description),
{
    (description % 0x100000) as usize
}

/// The question: which card's string, and which of its strings.
#[derive(Debug, Clone, Copy, PartialEq, Eq, Structural, PartialOrd, Ord)]
pub struct SelectYesNoMessageData {
    pub player: u8,
    pub card_code: u32,
    pub string_index: usize,
}

impl SelectYesNoMessageData {
    /// The buffer reaches byte 13.
    pub open spec fn well_formed(s: Seq<u8>) -> bool {
        s.len() >= 14
    }

    /// Whether [`Self::well_formed`] holds of `bytes`.
    pub fn is_well_formed(bytes: &[u8]) -> (b: bool)
        ensures
            b == Self::well_formed(bytes@),
    {
        bytes.len() >= 14
    }

    /// The message stored in `s`: the player (byte 5) and the description (bytes 6..14).
    pub open spec fn spec_parse(s: Seq<u8>) -> SelectYesNoMessageData {
        SelectYesNoMessageData {
            player: s[5],
            card_code: description_card_code(le_u64(s, 6)),
            string_index: description_string_index(le_u64(s, 6)),
        }
    }

    /// Decodes the message in `bytes`.
    pub fn try_from(bytes: &[u8]) -> (res: Result<SelectYesNoMessageData, ParseError>)
        requires
            Self::well_formed(bytes@),
        ensures
            res == Ok::<SelectYesNoMessageData, ParseError>(Self::spec_parse(bytes@)),
    {
        let player = bytes[5];
        let description_id = get_u64_le(bytes, 6);
        let card_code = card_code_of_description(description_id);
        let string_index = string_index_of_description(description_id);
        Ok(SelectYesNoMessageData { player, card_code, string_index })
    }
}

} // verus!
