//! The engine's numeric codes for locations, players, positions and duel states.
use crate::error::ParseError;
use vstd::prelude::*;
use vstd::std_specs::convert::TryFromSpecImpl;

verus! {

/// Where a card lies on the field.
#[derive(Hash, Debug, Clone, Copy, PartialEq, Eq, Structural, PartialOrd, Ord)]
pub enum CardLocation {
    Deck,
    Hand,
    MonsterZone,
    SpellTrapZone,
    Graveyard,
    Banishment,
    ExtraDeck,
}

impl CardLocation {
    /// The engine's bit for this location.
    pub open spec fn spec_code(self) -> u8 {
        match self {
            CardLocation::Deck => 1,
            CardLocation::Hand => 2,
            CardLocation::MonsterZone => 4,
            CardLocation::SpellTrapZone => 8,
            CardLocation::Graveyard => 16,
            CardLocation::Banishment => 32,
            CardLocation::ExtraDeck => 64,
        }
    }

    /// The engine's bit for this location.
    #[verifier::when_used_as_spec(spec_code)]
    pub fn code(self) -> (c: u8)
        ensures
            c == self.spec_code(),
    {
        match self {
            CardLocation::Deck => 1,
            CardLocation::Hand => 2,
            CardLocation::MonsterZone => 4,
            CardLocation::SpellTrapZone => 8,
            CardLocation::Graveyard => 16,
            CardLocation::Banishment => 32,
            CardLocation::ExtraDeck => 64,
        }
    }

    /// The location named by `value`, or the error that reports it.
    pub open spec fn from_code(value: u8) -> Result<CardLocation, ParseError> {
        if value == 1 {
            Ok(CardLocation::Deck)
        } else if value == 2 {
            Ok(CardLocation::Hand)
        } else if value == 4 {
            Ok(CardLocation::MonsterZone)
        } else if value == 8 {
            Ok(CardLocation::SpellTrapZone)
        } else if value == 16 {
            Ok(CardLocation::Graveyard)
        } else if value == 32 {
            Ok(CardLocation::Banishment)
        } else if value == 64 {
            Ok(CardLocation::ExtraDeck)
        } else {
            Err(ParseError::InvalidLocation { value })
        }
    }

    /// The name a player reads for this location.
    pub fn to_display_string(&self) -> (s: String)
        ensures
            s@ == self.display_name(),
    {
        match self {
            CardLocation::Deck => String::from_str("Deck"),
            CardLocation::Hand => String::from_str("Hand"),
            CardLocation::ExtraDeck => String::from_str("Extra Deck"),
            CardLocation::Graveyard => String::from_str("GY"),
            CardLocation::Banishment => String::from_str("Banishment"),
            CardLocation::MonsterZone => String::from_str("Monster Zone"),
            CardLocation::SpellTrapZone => String::from_str("Spell/Trap Zone"),
        }
    }

    /// The name a player reads for this location.
    pub open spec fn display_name(self) -> Seq<char> {
        match self {
            CardLocation::Deck => "Deck"@,
            CardLocation::Hand => "Hand"@,
            CardLocation::ExtraDeck => "Extra Deck"@,
            CardLocation::Graveyard => "GY"@,
            CardLocation::Banishment => "Banishment"@,
            CardLocation::MonsterZone => "Monster Zone"@,
            CardLocation::SpellTrapZone => "Spell/Trap Zone"@,
        }
    }
}

impl TryFrom<u8> for CardLocation {
    type Error = ParseError;

    fn try_from(value: u8) -> (res: Result<Self, Self::Error>)
        ensures
            res == CardLocation::from_code(value),
    {
        match value {
            1 => Ok(CardLocation::Deck),
            2 => Ok(CardLocation::Hand),
            4 => Ok(CardLocation::MonsterZone),
            8 => Ok(CardLocation::SpellTrapZone),
            16 => Ok(CardLocation::Graveyard),
            32 => Ok(CardLocation::Banishment),
            64 => Ok(CardLocation::ExtraDeck),
            _ => Err(ParseError::InvalidLocation { value }),
        }
    }
}

impl TryFromSpecImpl<u8> for CardLocation {
    open spec fn obeys_try_from_spec() -> bool {
        true
    }

    open spec fn try_from_spec(v: u8) -> Result<Self, ParseError> {
        CardLocation::from_code(v)
    }
}


/// Which duelist owns a card.
#[derive(Hash, Debug, Clone, Copy, PartialEq, Eq, Structural, PartialOrd, Ord)]
pub enum CardOwner {
    Player,
    _Opponent,
}

impl CardOwner {
    /// The engine's number for this duelist.
    pub open spec fn spec_code(self) -> u8 {
        match self {
            CardOwner::Player => 0,
            CardOwner::_Opponent => 1,
        }
    }

    /// The engine's number for this duelist.
    #[verifier::when_used_as_spec(spec_code)]
    pub fn code(self) -> (c: u8)
        ensures
            c == self.spec_code(),
    {
        match self {
            CardOwner::Player => 0,
            CardOwner::_Opponent => 1,
        }
    }

    /// The owner named by `value`, or the error that reports it.
    pub open spec fn from_code(value: u8) -> Result<CardOwner, ParseError> {
        if value == 0 {
            Ok(CardOwner::Player)
        } else if value == 1 {
            Ok(CardOwner::_Opponent)
        } else {
            Err(ParseError::InvalidOwner { value })
        }
    }
}

impl TryFrom<u8> for CardOwner {
    type Error = ParseError;

    fn try_from(value: u8) -> (res: Result<Self, Self::Error>)
        ensures
            res == CardOwner::from_code(value),
    {
        match value {
            0 => Ok(CardOwner::Player),
            1 => Ok(CardOwner::_Opponent),
            _ => Err(ParseError::InvalidOwner { value }),
        }
    }
}

impl TryFromSpecImpl<u8> for CardOwner {
    open spec fn obeys_try_from_spec() -> bool {
        true
    }

    open spec fn try_from_spec(v: u8) -> Result<Self, ParseError> {
        CardOwner::from_code(v)
    }
}

/// Which duelist controls a card.
#[derive(Hash, Debug, Clone, Copy, PartialEq, Eq, Structural, PartialOrd, Ord)]
pub enum CardController {
    Player,
    _Opponent,
}

impl CardController {
    /// The engine's number for this duelist.
    pub open spec fn spec_code(self) -> u8 {
        match self {
            CardController::Player => 0,
            CardController::_Opponent => 1,
        }
    }

    /// The engine's number for this duelist.
    #[verifier::when_used_as_spec(spec_code)]
    pub fn code(self) -> (c: u8)
        ensures
            c == self.spec_code(),
    {
        match self {
            CardController::Player => 0,
            CardController::_Opponent => 1,
        }
    }

    /// The controller named by `value`, or the error that reports it.
    pub open spec fn from_code(value: u8) -> Result<CardController, ParseError> {
        if value == 0 {
            Ok(CardController::Player)
        } else if value == 1 {
            Ok(CardController::_Opponent)
        } else {
            Err(ParseError::InvalidController { value })
        }
    }
}

impl TryFrom<u8> for CardController {
    type Error = ParseError;

    fn try_from(value: u8) -> (res: Result<Self, Self::Error>)
        ensures
            res == CardController::from_code(value),
    {
        match value {
            0 => Ok(CardController::Player),
            1 => Ok(CardController::_Opponent),
            _ => Err(ParseError::InvalidController { value }),
        }
    }
}

impl TryFromSpecImpl<u8> for CardController {
    open spec fn obeys_try_from_spec() -> bool {
        true
    }

    open spec fn try_from_spec(v: u8) -> Result<Self, ParseError> {
        CardController::from_code(v)
    }
}

impl Default for CardController {
    /// The player.
    fn default() -> (c: CardController)
        ensures
            c == CardController::Player,
    {
        CardController::Player
    }
}

/// How a card sits in its zone.
#[derive(Hash, Debug, Clone, Copy, PartialEq, Eq, Structural, PartialOrd, Ord)]
pub enum BattlePosition {
    FaceUpAttack,
    FaceDownAttack,
    FaceUpDefense,
    FaceDownDefense,
    FaceDown,
}

impl BattlePosition {
    /// The engine's number for this position.
    pub open spec fn spec_code(self) -> u8 {
        match self {
            BattlePosition::FaceUpAttack => 1,
            BattlePosition::FaceDownAttack => 2,
            BattlePosition::FaceUpDefense => 4,
            BattlePosition::FaceDownDefense => 8,
            BattlePosition::FaceDown => 10,
        }
    }

    /// The engine's number for this position.
    #[verifier::when_used_as_spec(spec_code)]
    pub fn code(self) -> (c: u8)
        ensures
            c == self.spec_code(),
    {
        match self {
            BattlePosition::FaceUpAttack => 1,
            BattlePosition::FaceDownAttack => 2,
            BattlePosition::FaceUpDefense => 4,
            BattlePosition::FaceDownDefense => 8,
            BattlePosition::FaceDown => 10,
        }
    }

    /// The position named by `value`, or the error that reports it.
    pub open spec fn from_code(value: u32) -> Result<BattlePosition, ParseError> {
        if value == 1 {
            Ok(BattlePosition::FaceUpAttack)
        } else if value == 2 {
            Ok(BattlePosition::FaceDownAttack)
        } else if value == 4 {
            Ok(BattlePosition::FaceUpDefense)
        } else if value == 8 {
            Ok(BattlePosition::FaceDownDefense)
        } else if value == 10 {
            Ok(BattlePosition::FaceDown)
        } else {
            Err(ParseError::InvalidPosition { value })
        }
    }

    /// The name a player reads for this position.
    pub open spec fn display_name(self) -> Seq<char> {
        match self {
            BattlePosition::FaceUpAttack => "Face-up Attack Position"@,
            BattlePosition::FaceDownAttack => "Face-down Attack Position"@,
            BattlePosition::FaceUpDefense => "Face-up Defense Position"@,
            BattlePosition::FaceDownDefense => "Face-down Defense Position"@,
            BattlePosition::FaceDown => "Face-down"@,
        }
    }

    /// The name a player reads for this position.
    pub fn to_display_string(&self) -> (s: String)
        ensures
            s@ == self.display_name(),
    {
        match self {
            BattlePosition::FaceUpAttack => String::from_str("Face-up Attack Position"),
            BattlePosition::FaceDownAttack => String::from_str("Face-down Attack Position"),
            BattlePosition::FaceUpDefense => String::from_str("Face-up Defense Position"),
            BattlePosition::FaceDownDefense => String::from_str("Face-down Defense Position"),
            BattlePosition::FaceDown => String::from_str("Face-down"),
        }
    }
}

impl TryFrom<u32> for BattlePosition {
    type Error = ParseError;

    fn try_from(value: u32) -> (res: Result<Self, Self::Error>)
        ensures
            res == BattlePosition::from_code(value),
    {
        match value {
            1 => Ok(BattlePosition::FaceUpAttack),
            2 => Ok(BattlePosition::FaceDownAttack),
            4 => Ok(BattlePosition::FaceUpDefense),
            8 => Ok(BattlePosition::FaceDownDefense),
            10 => Ok(BattlePosition::FaceDown),
            _ => Err(ParseError::InvalidPosition { value }),
        }
    }
}

impl TryFromSpecImpl<u32> for BattlePosition {
    open spec fn obeys_try_from_spec() -> bool {
        true
    }

    open spec fn try_from_spec(v: u32) -> Result<Self, ParseError> {
        BattlePosition::from_code(v)
    }
}

impl TryFrom<u8> for BattlePosition {
    type Error = ParseError;

    fn try_from(value: u8) -> (res: Result<Self, Self::Error>)
        ensures
            res == BattlePosition::from_code(value as u32),
    {
        let wide: u32 = value as u32;
        BattlePosition::try_from(wide)
    }
}

impl TryFromSpecImpl<u8> for BattlePosition {
    open spec fn obeys_try_from_spec() -> bool {
        true
    }

    open spec fn try_from_spec(v: u8) -> Result<Self, ParseError> {
        BattlePosition::from_code(v as u32)
    }
}

/// What the engine reports after processing a step of the duel.
#[derive(Hash, Debug, Clone, Copy, PartialEq, Eq, Structural, PartialOrd, Ord)]
pub enum DuelStatus {
    End,
    Awaiting,
    Continue,
}

impl DuelStatus {
    /// The status named by `value`, or the error that reports it.
    pub open spec fn from_code(value: int) -> Result<DuelStatus, ParseError> {
        if value == 0 {
            Ok(DuelStatus::End)
        } else if value == 1 {
            Ok(DuelStatus::Awaiting)
        } else if value == 2 {
            Ok(DuelStatus::Continue)
        } else {
            Err(ParseError::InvalidDuelStatus { value: value as i64 })
        }
    }
}

impl TryFrom<i32> for DuelStatus {
    type Error = ParseError;

    fn try_from(value: i32) -> (res: Result<Self, Self::Error>)
        ensures
            res == DuelStatus::from_code(value as int),
    {
        match value {
            0 => Ok(DuelStatus::End),
            1 => Ok(DuelStatus::Awaiting),
            2 => Ok(DuelStatus::Continue),
            _ => Err(ParseError::InvalidDuelStatus { value: value as i64 }),
        }
    }
}

impl TryFromSpecImpl<i32> for DuelStatus {
    open spec fn obeys_try_from_spec() -> bool {
        true
    }

    open spec fn try_from_spec(v: i32) -> Result<Self, ParseError> {
        DuelStatus::from_code(v as int)
    }
}

impl TryFrom<u32> for DuelStatus {
    type Error = ParseError;

    fn try_from(value: u32) -> (res: Result<Self, Self::Error>)
        ensures
            res == DuelStatus::from_code(value as int),
    {
        match value {
            0 => Ok(DuelStatus::End),
            1 => Ok(DuelStatus::Awaiting),
            2 => Ok(DuelStatus::Continue),
            _ => Err(ParseError::InvalidDuelStatus { value: value as i64 }),
        }
    }
}

impl TryFromSpecImpl<u32> for DuelStatus {
    open spec fn obeys_try_from_spec() -> bool {
        true
    }

    open spec fn try_from_spec(v: u32) -> Result<Self, ParseError> {
        DuelStatus::from_code(v as int)
    }
}


/// Every location reads back from its own code, and a code that reads as a location is
/// that location's code.
pub proof fn lemma_location_code_round_trip(l: CardLocation, value: u8)
    ensures
        CardLocation::from_code(l.spec_code()) == Ok::<CardLocation, ParseError>(l),
        CardLocation::from_code(value) matches Ok(m) ==> m.spec_code() == value,
{
}

/// Every owner reads back from its own code, and a code that reads as an owner is that
/// owner's code.
pub proof fn lemma_owner_code_round_trip(o: CardOwner, value: u8)
    ensures
        CardOwner::from_code(o.spec_code()) == Ok::<CardOwner, ParseError>(o),
        CardOwner::from_code(value) matches Ok(m) ==> m.spec_code() == value,
{
}

/// Every controller reads back from its own code, and a code that reads as a controller is
/// that controller's code.
pub proof fn lemma_controller_code_round_trip(c: CardController, value: u8)
    ensures
        CardController::from_code(c.spec_code()) == Ok::<CardController, ParseError>(c),
        CardController::from_code(value) matches Ok(m) ==> m.spec_code() == value,
{
}

/// Every position reads back from its own code, and a code that reads as a position is
/// that position's code.
pub proof fn lemma_position_code_round_trip(p: BattlePosition, value: u32)
    ensures
        BattlePosition::from_code(p.spec_code() as u32) == Ok::<BattlePosition, ParseError>(p),
        BattlePosition::from_code(value) matches Ok(m) ==> m.spec_code() as u32 == value,
{
}

} // verus!
