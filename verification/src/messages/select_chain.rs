//! The engine asks whether to chain one of the listed effects.
use crate::bytes::{get_u32_le, le_u32};
use crate::constants::{CardController, CardLocation};
use crate::data::{announced_card, new_announced_card, CardData};
use crate::error::ParseError;
use vstd::prelude::*;

verus! {

/// Whether the first seven bytes of the `i`-th 23-byte entry (from byte 20) are in `s`.
pub open spec fn chain_entry_present(s: Seq<u8>, i: nat) -> bool {
    20 + 23 * i + 7 <= s.len()
}

/// The `i`-th chainable effect: code, controller, location and sequence at `20 + 23 i`,
/// with `i` (cut to a byte) as its action index.
pub open spec fn spec_chain_entry(s: Seq<u8>, i: nat) -> Result<CardData, ParseError> {
    let at: int = 20 + 23 * (i as int);
    match CardController::from_code(s[at + 4]) {
        Err(e) => Err(e),
        Ok(controller) => match CardLocation::from_code(s[at + 5]) {
            Err(e) => Err(e),
            Ok(location) => Ok(
                announced_card(le_u32(s, at), controller, location, None, s[at + 6], Some(i as u8)),
            ),
        },
    }
}

/// The effects among the first `n` entries, skipping those that do not fit in `s`, or the
/// first error of an entry that fits.
pub open spec fn spec_chain_effects(s: Seq<u8>, n: nat) -> Result<Seq<CardData>, ParseError>
    decreases n,
{
    if n == 0 {
        Ok(Seq::empty())
    } else {
        match spec_chain_effects(s, (n - 1) as nat) {
            Err(e) => Err(e),
            Ok(v) => if chain_entry_present(s, (n - 1) as nat) {
                match spec_chain_entry(s, (n - 1) as nat) {
                    Ok(c) => Ok(v.push(c)),
                    Err(e) => Err(e),
                }
            } else {
                Ok(v)
            },
        }
    }
}

/// An error stays the result however many more entries are listed.
proof fn lemma_chain_err_sticks(s: Seq<u8>, i: nat, n: nat)
    requires
        i <= n,
        spec_chain_effects(s, i) is Err,
    ensures
        spec_chain_effects(s, n) == spec_chain_effects(s, i),
    decreases n - i,
{
    if i < n {
        lemma_chain_err_sticks(s, i, (n - 1) as nat);
    }
}

/// Once an entry does not fit, no later one does, and the result stays as it is.
proof fn lemma_chain_rest_absent(s: Seq<u8>, i: nat, n: nat)
    requires
        i <= n,
        !chain_entry_present(s, i),
    ensures
        spec_chain_effects(s, n) == spec_chain_effects(s, i),
    decreases n - i,
{
    if i < n {
        lemma_chain_rest_absent(s, i, (n - 1) as nat);
    }
}

/// The effects offered, as a mathematical sequence.
pub struct SelectChainView {
    pub player: u8,
    pub effects: Seq<CardData>,
}

/// The player and the effects it may chain.
#[derive(Debug, Clone, PartialEq, Eq)]
pub struct SelectChainMessageData {
    pub player: u8,
    pub effects: Vec<CardData>,
}

impl View for SelectChainMessageData {
    type V = SelectChainView;

    open spec fn view(&self) -> SelectChainView {
        SelectChainView { player: self.player, effects: self.effects@ }
    }
}

impl SelectChainMessageData {
    /// The buffer reaches the count (bytes 16..20).
    pub open spec fn well_formed(s: Seq<u8>) -> bool {
        s.len() >= 20
    }

    /// Whether [`Self::well_formed`] holds of `bytes`.
    pub fn is_well_formed(bytes: &[u8]) -> (b: bool)
        ensures
            b == Self::well_formed(bytes@),
    {
        bytes.len() >= 20
    }

    /// The message stored in `s`: the player (byte 6) and the listed effects that fit.
    pub open spec fn spec_parse(s: Seq<u8>) -> Result<SelectChainView, ParseError> {
        match spec_chain_effects(s, le_u32(s, 16) as nat) {
            Ok(effects) => Ok(SelectChainView { player: s[6], effects }),
            Err(e) => Err(e),
        }
    }

    /// Decodes the message in `bytes`.
    pub fn try_from(bytes: &[u8]) -> (res: Result<SelectChainMessageData, ParseError>)
        requires
            Self::well_formed(bytes@),
        ensures
            match res {
                Ok(m) => Self::spec_parse(bytes@) == Ok::<SelectChainView, ParseError>(m@),
                Err(e) => Self::spec_parse(bytes@) == Err::<SelectChainView, ParseError>(e),
            },
    {
        let len = bytes.len();
        let player = bytes[6];
        let count = get_u32_le(bytes, 16) as u64;
        let mut effects: Vec<CardData> = Vec::new();
        let mut index: u64 = 0;
        while index < count && 20 + 23 * index + 7 <= len as u64
            invariant
                Self::well_formed(bytes@),
                count == le_u32(bytes@, 16),
                len == bytes@.len(),
                index <= count,
                spec_chain_effects(bytes@, index as nat) == Ok::<Seq<CardData>, ParseError>(
                    effects@,
                ),
            decreases count - index,
        {
            let offset = (20 + 23 * index) as usize;
            let card_code = get_u32_le(bytes, offset);
            let controller = match CardController::try_from(bytes[offset + 4]) {
                Ok(c) => c,
                Err(e) => {
                    proof {
                        lemma_chain_err_sticks(bytes@, (index + 1) as nat, count as nat);
                    }
                    return Err(e);
                },
            };
            let location = match CardLocation::try_from(bytes[offset + 5]) {
                Ok(l) => l,
                Err(e) => {
                    proof {
                        lemma_chain_err_sticks(bytes@, (index + 1) as nat, count as nat);
                    }
                    return Err(e);
                },
            };
            let sequence = bytes[offset + 6];
            let card = new_announced_card(
                card_code,
                controller,
                location,
                None,
                sequence,
                Some(index as u8),
            );
            effects.push(card);
            proof {
                assert(effects@ =~= spec_chain_effects(bytes@, index as nat)->Ok_0.push(card));
            }
            index = index + 1;
        }
        proof {
            if index < count {
                lemma_chain_rest_absent(bytes@, index as nat, count as nat);
            }
        }
        Ok(SelectChainMessageData { player, effects })
    }
}

} // verus!
