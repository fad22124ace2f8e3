//! The engine asks the player to choose one option from a list.
use crate::bytes::{get_u64_le, le_u64};
use crate::error::ParseError;
use crate::messages::select_yes_no::{
    card_code_of_description, description_card_code, description_string_index,
    string_index_of_description,
};
use vstd::prelude::*;

verus! {

/// One option: the card string it points to, or nothing for an engine-level option.
#[derive(Hash, Debug, Clone, PartialEq, Eq, Structural)]
pub struct SelectOption {
    pub card_code: Option<u32>,
    pub string_index: Option<usize>,
}

/// Descriptions below 2^20 carry no card code: they name engine-level options.
pub open spec fn spec_select_option(description: u64) -> SelectOption {
    if description >= 0x100000 {
        SelectOption {
            card_code: Some(description_card_code(description)),
            string_index: Some(description_string_index(description)),
        }
    } else {
        SelectOption { card_code: None, string_index: None }
    }
}

/// The options offered, as a mathematical sequence.
pub struct SelectOptionView {
    pub player: u8,
    pub options: Seq<SelectOption>,
}

/// The player and the options offered.
#[derive(Hash, Debug, Clone, PartialEq, Eq)]
pub struct SelectOptionMessageData {
    pub player: u8,
    pub options: Vec<SelectOption>,
}

impl View for SelectOptionMessageData {
    type V = SelectOptionView;

    open spec fn view(&self) -> SelectOptionView {
        SelectOptionView { player: self.player, options: self.options@ }
    }
}

impl SelectOptionMessageData {
    /// The buffer holds the player (byte 5), the count (byte 6) and an eight-byte
    /// description per option from byte 7.
    pub open spec fn well_formed(s: Seq<u8>) -> bool {
        s.len() >= 7 && 7 + 8 * s[6] <= s.len()
    }

    /// Whether [`Self::well_formed`] holds of `bytes`.
    pub fn is_well_formed(bytes: &[u8]) -> (b: bool)
        ensures
            b == Self::well_formed(bytes@),
    {
        bytes.len() >= 7 && 7 + 8 * (bytes[6] as usize) <= bytes.len()
    }

    /// The message stored in `s`: option `i` is decoded from the description at `7 + 8 i`.
    pub open spec fn spec_parse(s: Seq<u8>) -> SelectOptionView {
        SelectOptionView {
            player: s[5],
            options: Seq::new(s[6] as nat, |i: int| spec_select_option(le_u64(s, 7 + 8 * i))),
        }
    }

    /// Decodes the message in `bytes`.
    pub fn try_from(bytes: &[u8]) -> (res: Result<SelectOptionMessageData, ParseError>)
        requires
            Self::well_formed(bytes@),
        ensures
            res is Ok,
            res matches Ok(m) ==> m@ == Self::spec_parse(bytes@),
    {
        let player = bytes[5];
        let count = bytes[6] as usize;
        let mut options: Vec<SelectOption> = Vec::new();
        let mut index: usize = 0;
        while index < count
            invariant
                Self::well_formed(bytes@),
                count == bytes@[6],
                index <= count,
                options@ =~= Seq::new(
                    index as nat,
                    |i: int| spec_select_option(le_u64(bytes@, 7 + 8 * i)),
                ),
            decreases count - index,
        {
            let raw = get_u64_le(bytes, 7 + 8 * index);
            let option = if raw >= 0x100000 {
                SelectOption {
                    card_code: Some(card_code_of_description(raw)),
                    string_index: Some(string_index_of_description(raw)),
                }
            } else {
                SelectOption { card_code: None, string_index: None }
            };
            options.push(option);
            index = index + 1;
        }
        Ok(SelectOptionMessageData { player, options })
    }
}

} // verus!
