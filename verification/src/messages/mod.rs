//! Decoders for the messages the engine sends while it waits for the player.
pub mod announce_number;
pub mod draw;
pub mod select_card;
pub mod select_effect_yes_no;
pub mod select_yes_no;
pub mod select_option;
pub mod select_position;
pub mod select_place;
pub mod select_tribute;
pub mod sort_card;
pub mod select_chain;
pub mod select_unselect_card;

use crate::actions::{spec_available_actions, AvailableActions, AvailableActionsView};
use crate::error::ParseError;
use announce_number::{AnnounceNumberMessageData, AnnounceNumberView};
use draw::{DrawMessageData, DrawView};
use select_card::{SelectCardMessage, SelectCardView};
use select_chain::{SelectChainMessageData, SelectChainView};
use select_effect_yes_no::SelectEffectYNMessageData;
use select_option::{SelectOptionMessageData, SelectOptionView};
use select_place::{SelectPlaceMessageData, SelectPlaceView};
use select_position::{SelectPositionMessageData, SelectPositionView};
use select_tribute::{SelectTributeMessageData, SelectTributeView};
use select_unselect_card::{spec_select_unselect, SelectUnselectMessage, SelectUnselectView};
use select_yes_no::SelectYesNoMessageData;
use sort_card::{SortCardMessageData, SortCardView};
use vstd::prelude::*;

verus! {

/// A message of the engine, as mathematical values.
pub enum CoreMessageView {
    Retry,
    Idle(AvailableActionsView),
    SelectEffectYN(SelectEffectYNMessageData),
    SelectYesNo(SelectYesNoMessageData),
    SelectCard(SelectCardView),
    SelectChain(SelectChainView),
    SelectPlace(SelectPlaceView),
    SelectPosition(SelectPositionView),
    SelectTribute(SelectTributeView),
    SelectUnselectCard(SelectUnselectView),
    SelectOption(SelectOptionView),
    AnnounceNumber(AnnounceNumberView),
    SortCard(SortCardView),
}

/// A message the engine sends when it waits for the player, decoded.
#[derive(Debug, Clone, PartialEq, Eq)]
pub enum CoreMessage {
    Retry,
    Idle(AvailableActions),
    SelectEffectYN(SelectEffectYNMessageData),
    SelectYesNo(SelectYesNoMessageData),
    SelectCard(SelectCardMessage),
    SelectChain(SelectChainMessageData),
    SelectPlace(SelectPlaceMessageData),
    SelectPosition(SelectPositionMessageData),
    SelectTribute(SelectTributeMessageData),
    SelectUnselectCard(SelectUnselectMessage),
    SelectOption(SelectOptionMessageData),
    AnnounceNumber(AnnounceNumberMessageData),
    SortCard(SortCardMessageData),
}

impl View for CoreMessage {
    type V = CoreMessageView;

    open spec fn view(&self) -> CoreMessageView {
        match self {
            CoreMessage::Retry => CoreMessageView::Retry,
            CoreMessage::Idle(m) => CoreMessageView::Idle(m@),
            CoreMessage::SelectEffectYN(m) => CoreMessageView::SelectEffectYN(*m),
            CoreMessage::SelectYesNo(m) => CoreMessageView::SelectYesNo(*m),
            CoreMessage::SelectCard(m) => CoreMessageView::SelectCard(m@),
            CoreMessage::SelectChain(m) => CoreMessageView::SelectChain(m@),
            CoreMessage::SelectPlace(m) => CoreMessageView::SelectPlace(m@),
            CoreMessage::SelectPosition(m) => CoreMessageView::SelectPosition(m@),
            CoreMessage::SelectTribute(m) => CoreMessageView::SelectTribute(m@),
            CoreMessage::SelectUnselectCard(m) => CoreMessageView::SelectUnselectCard(m@),
            CoreMessage::SelectOption(m) => CoreMessageView::SelectOption(m@),
            CoreMessage::AnnounceNumber(m) => CoreMessageView::AnnounceNumber(m@),
            CoreMessage::SortCard(m) => CoreMessageView::SortCard(m@),
        }
    }
}

/// Message identifiers, as the engine numbers them.
pub const MSG_RETRY: u8 = 1;
pub const MSG_SELECT_IDLECMD: u8 = 11;
pub const MSG_SELECT_EFFECTYN: u8 = 12;
pub const MSG_SELECT_YESNO: u8 = 13;
pub const MSG_SELECT_OPTION: u8 = 14;
pub const MSG_SELECT_CARD: u8 = 15;
pub const MSG_SELECT_CHAIN: u8 = 16;
pub const MSG_SELECT_PLACE: u8 = 18;
pub const MSG_SELECT_POSITION: u8 = 19;
pub const MSG_SELECT_TRIBUTE: u8 = 20;
pub const MSG_SORT_CARD: u8 = 25;
pub const MSG_SELECT_UNSELECT_CARD: u8 = 26;
pub const MSG_ANNOUNCE_NUMBER: u8 = 143;

/// Wraps a decoded body in its variant, keeping an error as it is.
pub open spec fn wrap<T>(r: Result<T, ParseError>, f: spec_fn(T) -> CoreMessageView) -> Result<
    CoreMessageView,
    ParseError,
> {
    match r {
        Ok(v) => Ok(f(v)),
        Err(e) => Err(e),
    }
}

impl CoreMessage {
    /// The buffer reaches the identifier (byte 4), and the body of a message with a fixed
    /// layout is long enough for the fields it announces.
    pub open spec fn well_formed(s: Seq<u8>) -> bool {
        s.len() >= 5 && {
            let t = s[4];
            if t == MSG_SELECT_EFFECTYN {
                SelectEffectYNMessageData::well_formed(s)
            } else if t == MSG_SELECT_YESNO {
                SelectYesNoMessageData::well_formed(s)
            } else if t == MSG_SELECT_OPTION {
                SelectOptionMessageData::well_formed(s)
            } else if t == MSG_SELECT_CARD {
                SelectCardMessage::well_formed(s)
            } else if t == MSG_SELECT_CHAIN {
                SelectChainMessageData::well_formed(s)
            } else if t == MSG_SELECT_PLACE {
                SelectPlaceMessageData::well_formed(s)
            } else if t == MSG_SELECT_POSITION {
                SelectPositionMessageData::well_formed(s)
            } else if t == MSG_SELECT_TRIBUTE {
                SelectTributeMessageData::well_formed(s)
            } else if t == MSG_SORT_CARD {
                SortCardMessageData::well_formed(s)
            } else if t == MSG_ANNOUNCE_NUMBER {
                AnnounceNumberMessageData::well_formed(s)
            } else {
                true
            }
        }
    }

    /// Whether [`Self::well_formed`] holds of `bytes`.
    pub fn is_well_formed(bytes: &[u8]) -> (b: bool)
        ensures
            b == Self::well_formed(bytes@),
    {
        if bytes.len() < 5 {
            return false;
        }
        let t = bytes[4];
        if t == MSG_SELECT_EFFECTYN {
            SelectEffectYNMessageData::is_well_formed(bytes)
        } else if t == MSG_SELECT_YESNO {
            SelectYesNoMessageData::is_well_formed(bytes)
        } else if t == MSG_SELECT_OPTION {
            SelectOptionMessageData::is_well_formed(bytes)
        } else if t == MSG_SELECT_CARD {
            SelectCardMessage::is_well_formed(bytes)
        } else if t == MSG_SELECT_CHAIN {
            SelectChainMessageData::is_well_formed(bytes)
        } else if t == MSG_SELECT_PLACE {
            SelectPlaceMessageData::is_well_formed(bytes)
        } else if t == MSG_SELECT_POSITION {
            SelectPositionMessageData::is_well_formed(bytes)
        } else if t == MSG_SELECT_TRIBUTE {
            SelectTributeMessageData::is_well_formed(bytes)
        } else if t == MSG_SORT_CARD {
            SortCardMessageData::is_well_formed(bytes)
        } else if t == MSG_ANNOUNCE_NUMBER {
            AnnounceNumberMessageData::is_well_formed(bytes)
        } else {
            true
        }
    }

    /// The message stored in `s`, chosen by the identifier at byte 4, or the error met while
    /// decoding it.
    pub open spec fn spec_parse(s: Seq<u8>) -> Result<CoreMessageView, ParseError> {
        let t = s[4];
        if t == MSG_RETRY {
            Ok(CoreMessageView::Retry)
        } else if t == MSG_SELECT_IDLECMD {
            wrap(spec_available_actions(s), |v| CoreMessageView::Idle(v))
        } else if t == MSG_SELECT_EFFECTYN {
            wrap(SelectEffectYNMessageData::spec_parse(s), |v| CoreMessageView::SelectEffectYN(v))
        } else if t == MSG_SELECT_YESNO {
            Ok(CoreMessageView::SelectYesNo(SelectYesNoMessageData::spec_parse(s)))
        } else if t == MSG_SELECT_OPTION {
            Ok(CoreMessageView::SelectOption(SelectOptionMessageData::spec_parse(s)))
        } else if t == MSG_SELECT_CARD {
            Ok(CoreMessageView::SelectCard(SelectCardMessage::spec_parse(s)))
        } else if t == MSG_SELECT_CHAIN {
            wrap(SelectChainMessageData::spec_parse(s), |v| CoreMessageView::SelectChain(v))
        } else if t == MSG_SELECT_PLACE {
            Ok(CoreMessageView::SelectPlace(SelectPlaceMessageData::spec_parse(s)))
        } else if t == MSG_SELECT_POSITION {
            Ok(CoreMessageView::SelectPosition(SelectPositionMessageData::spec_parse(s)))
        } else if t == MSG_SELECT_TRIBUTE {
            wrap(SelectTributeMessageData::spec_parse(s), |v| CoreMessageView::SelectTribute(v))
        } else if t == MSG_SORT_CARD {
            wrap(SortCardMessageData::spec_parse(s), |v| CoreMessageView::SortCard(v))
        } else if t == MSG_SELECT_UNSELECT_CARD {
            wrap(spec_select_unselect(s), |v| CoreMessageView::SelectUnselectCard(v))
        } else if t == MSG_ANNOUNCE_NUMBER {
            Ok(CoreMessageView::AnnounceNumber(AnnounceNumberMessageData::spec_parse(s)))
        } else {
            Err(ParseError::UnknownMessage { found: t })
        }
    }

    /// Decodes the message in `bytes`, whose identifier is at byte 4.
    pub fn try_from(bytes: &[u8]) -> (res: Result<CoreMessage, ParseError>)
        requires
            Self::well_formed(bytes@),
        ensures
            match res {
                Ok(m) => Self::spec_parse(bytes@) == Ok::<CoreMessageView, ParseError>(m@),
                Err(e) => Self::spec_parse(bytes@) == Err::<CoreMessageView, ParseError>(e),
            },
    {
        let message_type = bytes[4];
        if message_type == MSG_RETRY {
            Ok(CoreMessage::Retry)
        } else if message_type == MSG_SELECT_IDLECMD {
            Ok(CoreMessage::Idle(AvailableActions::try_from(bytes)?))
        } else if message_type == MSG_SELECT_EFFECTYN {
            Ok(CoreMessage::SelectEffectYN(SelectEffectYNMessageData::try_from(bytes)?))
        } else if message_type == MSG_SELECT_YESNO {
            Ok(CoreMessage::SelectYesNo(SelectYesNoMessageData::try_from(bytes)?))
        } else if message_type == MSG_SELECT_OPTION {
            Ok(CoreMessage::SelectOption(SelectOptionMessageData::try_from(bytes)?))
        } else if message_type == MSG_SELECT_CARD {
            Ok(CoreMessage::SelectCard(SelectCardMessage::try_from(bytes)?))
        } else if message_type == MSG_SELECT_CHAIN {
            Ok(CoreMessage::SelectChain(SelectChainMessageData::try_from(bytes)?))
        } else if message_type == MSG_SELECT_PLACE {
            Ok(CoreMessage::SelectPlace(SelectPlaceMessageData::try_from(bytes)?))
        } else if message_type == MSG_SELECT_POSITION {
            Ok(CoreMessage::SelectPosition(SelectPositionMessageData::try_from(bytes)?))
        } else if message_type == MSG_SELECT_TRIBUTE {
            Ok(CoreMessage::SelectTribute(SelectTributeMessageData::try_from(bytes)?))
        } else if message_type == MSG_SORT_CARD {
            Ok(CoreMessage::SortCard(SortCardMessageData::try_from(bytes)?))
        } else if message_type == MSG_SELECT_UNSELECT_CARD {
            Ok(CoreMessage::SelectUnselectCard(SelectUnselectMessage::try_from(bytes)?))
        } else if message_type == MSG_ANNOUNCE_NUMBER {
            Ok(CoreMessage::AnnounceNumber(AnnounceNumberMessageData::try_from(bytes)?))
        } else {
            Err(ParseError::UnknownMessage { found: message_type })
        }
    }
}

} // verus!
