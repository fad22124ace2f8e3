//! The engine asks whether to activate a card's effect.
use crate::bytes::{get_u32_le, le_u32};
use crate::constants::{CardController, CardLocation};
use crate::error::ParseError;
use vstd::prelude::*;

verus! {

/// The card whose effect may be activated.
#[derive(Debug, Clone, Copy, PartialEq, Eq, Structural, PartialOrd, Ord)]
pub struct SelectEffectYNMessageData {
    pub player: u8,
    pub card_code: u32,
    pub controller: CardController,
    pub location: CardLocation,
    pub sequence: u8,
}

impl SelectEffectYNMessageData {
    /// The buffer reaches byte 12 and byte 11 names a location.
    pub open spec fn well_formed(s: Seq<u8>) -> bool {
        s.len() >= 13 && CardLocation::from_code(s[11]) is Ok
    }

    /// Whether [`Self::well_formed`] holds of `bytes`.
    pub fn is_well_formed(bytes: &[u8]) -> (b: bool)
        ensures
            b == Self::well_formed(bytes@),
    {
        bytes.len() >= 13 && CardLocation::try_from(bytes[11]).is_ok()
    }

    /// The message stored in `s`: player (byte 5), code (bytes 6..10), controller (byte 10),
    /// location (byte 11) and sequence (byte 12).
    pub open spec fn spec_parse(s: Seq<u8>) -> Result<SelectEffectYNMessageData, ParseError> {
        match CardController::from_code(s[10]) {
            Err(e) => Err(e),
            Ok(controller) => Ok(
                SelectEffectYNMessageData {
                    player: s[5],
                    card_code: le_u32(s, 6),
                    controller,
                    location: CardLocation::from_code(s[11])->Ok_0,
                    sequence: s[12],
                },
            ),
        }
    }

    /// Decodes the message in `bytes`.
    pub fn try_from(bytes: &[u8]) -> (res: Result<SelectEffectYNMessageData, ParseError>)
        requires
            Self::well_formed(bytes@),
        ensures
            res == Self::spec_parse(bytes@),
    {
        let player = bytes[5];
        let card_code = get_u32_le(bytes, 6);
        let controller = CardController::try_from(bytes[10])?;
        let location = match CardLocation::try_from(bytes[11]) {
            Ok(l) => l,
            Err(_) => CardLocation::Deck,
        };
        let sequence = bytes[12];
        Ok(SelectEffectYNMessageData { player, card_code, controller, location, sequence })
    }
}

} // verus!
