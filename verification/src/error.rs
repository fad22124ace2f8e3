use vstd::prelude::*;

verus! {

/// Why a buffer handed out by the duel engine could not be decoded.
#[allow(inconsistent_fields)]
#[derive(Debug, Clone, Copy, PartialEq, Eq, Structural)]
pub enum ParseError {
    /// A field would have been read past the end of the buffer; `offset` is where it starts.
    Missing { offset: usize },
    /// The buffer is shorter than the smallest message of its kind.
    TooShort { length: usize },
    /// A length prefix does not match the number of bytes that follow it.
    LengthMismatch { declared: usize, actual: usize },
    /// The message identifier is not the one the decoder expects.
    UnexpectedMessage { expected: u8, found: u8 },
    /// The message identifier names no message this client understands.
    UnknownMessage { found: u8 },
    /// A list claims more entries than the engine can ever send.
    CountTooLarge { count: usize },
    /// A byte does not name a card location.
    InvalidLocation { value: u8 },
    /// A byte does not name a player controlling a card.
    InvalidController { value: u8 },
    /// A byte does not name a card owner.
    InvalidOwner { value: u8 },
    /// A number does not name a battle position.
    InvalidPosition { value: u32 },
    /// A number does not name a duel status.
    InvalidDuelStatus { value: i64 },
    /// A number to read is empty.
    EmptyNumber,
    /// A number to read holds a character that is not a decimal digit.
    InvalidDigit,
    /// A number to read is too large for its type.
    NumberOverflow,
}

} // verus!
