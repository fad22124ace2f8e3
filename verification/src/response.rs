//! The answers the player sends back to the engine, and their encoding.
use crate::constants::BattlePosition;
use vstd::prelude::*;

verus! {

/// The four little-endian bytes of `x`.
pub open spec fn le_bytes_u32(x: u32) -> Seq<u8> {
    seq![(x % 256) as u8, ((x / 256) % 256) as u8, ((x / 65536) % 256) as u8, (x / 16777216) as u8]
}

/// Appends the four little-endian bytes of `x` to `out`.
pub fn push_le_u32(out: &mut Vec<u8>, x: u32)
    ensures
        final(out)@ == old(out)@ + le_bytes_u32(x),
{
    out.push((x % 256) as u8);
    out.push(((x / 256) % 256) as u8);
    out.push(((x / 65536) % 256) as u8);
    out.push((x / 16777216) as u8);
    proof {
        assert(final(out)@ =~= old(out)@ + le_bytes_u32(x));
    }
}

/// Appends every byte of `items` to `out`, in order.
fn push_all(out: &mut Vec<u8>, items: &Vec<u8>)
    ensures
        final(out)@ == old(out)@ + items@,
{
    let n = items.len();
    let mut i: usize = 0;
    while i < n
        invariant
            n == items@.len(),
            i <= n,
            out@ == old(out)@ + items@.take(i as int),
        decreases n - i,
    {
        out.push(items[i]);
        proof {
            assert(items@.take(i + 1) =~= items@.take(i as int).push(items@[i as int]));
        }
        i = i + 1;
    }
    proof {
        assert(items@.take(n as int) =~= items@);
    }
}

/// An answer to a message of the engine.
#[allow(inconsistent_fields)]
#[derive(Hash, Debug, Clone, PartialEq, Eq, PartialOrd, Ord)]
pub enum Response {
    Yes,
    No,
    PassPriority,
    Place { controller: u8, location: u8, index: u8 },
    Chain { index: u8 },
    Activate { index: u8 },
    SpecialSummon { index: u8 },
    NormalSummon { index: u8 },
    SetMonster { index: u8 },
    SetSpellTrap { index: u8 },
    SelectCard { indices: Vec<u8> },
    SortCard { indices: Vec<u8> },
    SelectUnselectCard { index: u32 },
    SelectPosition { position: BattlePosition },
    SelectTributes { tributes: Vec<u8> },
    SelectOption { index: u8 },
}

/// The bytes the engine expects for an answer: a four-byte word for yes, no, passing,
/// chaining, choosing an option or a position; an idle command (its kind, then the action's
/// index in the third byte); a zone as controller, location and index; a card choice as the
/// word 2, the count and the indices; a sort as the indices alone; a pick or drop as the word
/// 1 and the index.
pub open spec fn spec_response_bytes(r: Response) -> Seq<u8> {
    match r {
        Response::Yes => seq![1, 0, 0, 0],
        Response::No => seq![0, 0, 0, 0],
        Response::PassPriority => seq![255, 255, 255, 255],
        Response::Place { controller, location, index } => seq![controller, location, index],
        Response::Chain { index } => seq![index, 0, 0, 0],
        Response::SelectOption { index } => seq![index, 0, 0, 0],
        Response::NormalSummon { index } => seq![0, 0, index, 0],
        Response::SpecialSummon { index } => seq![1, 0, index, 0],
        Response::SetMonster { index } => seq![3, 0, index, 0],
        Response::SetSpellTrap { index } => seq![4, 0, index, 0],
        Response::Activate { index } => seq![5, 0, index, 0],
        Response::SelectCard { indices } => seq![2u8, 0, 0, 0] + le_bytes_u32(
            indices@.len() as u32,
        ) + indices@,
        Response::SortCard { indices } => indices@,
        Response::SelectUnselectCard { index } => seq![1u8, 0, 0, 0] + le_bytes_u32(index),
        Response::SelectPosition { position } => seq![position.spec_code(), 0, 0, 0],
        Response::SelectTributes { tributes } => seq![2u8, 0, 0, 0] + le_bytes_u32(
            tributes@.len() as u32,
        ) + tributes@,
    }
}

impl Response {
    /// The bytes to hand to the engine for this answer.
    pub fn get_response_bytes(&self) -> (bytes: Vec<u8>)
        ensures
            bytes@ == spec_response_bytes(*self),
    {
        match self {
            Response::Yes => vec![1, 0, 0, 0],
            Response::No => vec![0, 0, 0, 0],
            Response::PassPriority => vec![255, 255, 255, 255],
            Response::Place { controller, location, index } => vec![*controller, *location, *index],
            Response::Chain { index } => vec![*index, 0, 0, 0],
            Response::SelectOption { index } => vec![*index, 0, 0, 0],
            Response::NormalSummon { index } => vec![0, 0, *index, 0],
            Response::SpecialSummon { index } => vec![1, 0, *index, 0],
            Response::SetMonster { index } => vec![3, 0, *index, 0],
            Response::SetSpellTrap { index } => vec![4, 0, *index, 0],
            Response::Activate { index } => vec![5, 0, *index, 0],
            Response::SelectCard { indices } => {
                let mut response = vec![2, 0, 0, 0];
                push_le_u32(&mut response, #[verifier::truncate] (indices.len() as u32));
                push_all(&mut response, indices);
                response
            },
            Response::SortCard { indices } => {
                let mut response = Vec::new();
                push_all(&mut response, indices);
                response
            },
            Response::SelectUnselectCard { index } => {
                let mut response = vec![1, 0, 0, 0];
                push_le_u32(&mut response, *index);
                response
            },
            Response::SelectPosition { position } => vec![position.code(), 0, 0, 0],
            Response::SelectTributes { tributes } => {
                let mut response = vec![2, 0, 0, 0];
                push_le_u32(&mut response, #[verifier::truncate] (tributes.len() as u32));
                push_all(&mut response, tributes);
                response
            },
        }
    }
}

/// An answer of the earlier, smaller answer set.
#[derive(Debug, Clone, Copy, PartialEq, Eq, Structural, PartialOrd, Ord)]
pub enum UserResponse {
    Yes,
    No,
    PassPriority,
    Place { controller: u8, location: u8, index: u8 },
    Chain { index: u8 },
    Activate { index: u8 },
    SpecialSummon { index: u8 },
    NormalSummon { index: u8 },
    SelectCard { index: u8 },
    SelectPosition { position: BattlePosition },
}

/// The bytes the engine expects for an answer of the smaller set; a card choice picks one
/// card: the word 2, the count 1, then the index.
pub open spec fn spec_user_response_bytes(r: UserResponse) -> Seq<u8> {
    match r {
        UserResponse::Yes => seq![1, 0, 0, 0],
        UserResponse::No => seq![0, 0, 0, 0],
        UserResponse::PassPriority => seq![255, 255, 255, 255],
        UserResponse::Place { controller, location, index } => seq![controller, location, index],
        UserResponse::Chain { index } => seq![index, 0, 0, 0],
        UserResponse::Activate { index } => seq![5, 0, index, 0],
        UserResponse::SpecialSummon { index } => seq![1, 0, index, 0],
        UserResponse::NormalSummon { index } => seq![0, 0, index, 0],
        UserResponse::SelectCard { index } => seq![2, 0, 0, 0, 1, 0, 0, 0, index],
        UserResponse::SelectPosition { position } => seq![position.spec_code(), 0, 0, 0],
    }
}

impl UserResponse {
    /// The bytes to hand to the engine for this answer.
    pub fn get_response_bytes(&self) -> (bytes: Vec<u8>)
        ensures
            bytes@ == spec_user_response_bytes(*self),
    {
        match self {
            UserResponse::Yes => vec![1, 0, 0, 0],
            UserResponse::No => vec![0, 0, 0, 0],
            UserResponse::PassPriority => vec![255, 255, 255, 255],
            UserResponse::Place { controller, location, index } => vec![
                *controller,
                *location,
                *index,
            ],
            UserResponse::Chain { index } => vec![*index, 0, 0, 0],
            UserResponse::Activate { index } => vec![5, 0, *index, 0],
            UserResponse::SpecialSummon { index } => vec![1, 0, *index, 0],
            UserResponse::NormalSummon { index } => vec![0, 0, *index, 0],
            UserResponse::SelectCard { index } => vec![2, 0, 0, 0, 1, 0, 0, 0, *index],
            UserResponse::SelectPosition { position } => vec![position.code(), 0, 0, 0],
        }
    }
}


/// The four bytes of a number, read back little-endian, give the number.
pub proof fn lemma_le_bytes_round_trip(x: u32)
    ensures
        crate::bytes::le_u32(le_bytes_u32(x), 0) == x,
{
    let b = le_bytes_u32(x);
    assert(b[0] + 256 * b[1] + 65536 * b[2] + 16777216 * b[3] == x) by (nonlinear_arith)
        requires
            b[0] == x % 256,
            b[1] == (x / 256) % 256,
            b[2] == (x / 65536) % 256,
            b[3] == x / 16777216,
            x <= 0xffff_ffff,
    ;
}


/// An answer to the idle command names the kind of action by the place, among the
/// command's blocks, of the block its card was offered in (see
/// `crate::actions::lemma_idle_blocks_in_order`): 0 for a Normal Summon, 1 for a Special
/// Summon, 3 for a monster set, 4 for a spell/trap set, 5 for an activation (2 is the
/// reposition block). The card's index in its block follows in the third byte, and the two
/// other bytes are zero; so no two kinds of action give the same answer.
pub proof fn lemma_idle_answer_kinds(i: u8)
    ensures
        spec_response_bytes(Response::NormalSummon { index: i }) == seq![0u8, 0u8, i, 0u8],
        spec_response_bytes(Response::SpecialSummon { index: i }) == seq![1u8, 0u8, i, 0u8],
        spec_response_bytes(Response::SetMonster { index: i }) == seq![3u8, 0u8, i, 0u8],
        spec_response_bytes(Response::SetSpellTrap { index: i }) == seq![4u8, 0u8, i, 0u8],
        spec_response_bytes(Response::Activate { index: i }) == seq![5u8, 0u8, i, 0u8],
        spec_user_response_bytes(UserResponse::NormalSummon { index: i }) == seq![
            0u8,
            0u8,
            i,
            0u8,
        ],
        spec_user_response_bytes(UserResponse::SpecialSummon { index: i }) == seq![
            1u8,
            0u8,
            i,
            0u8,
        ],
        spec_user_response_bytes(UserResponse::Activate { index: i }) == seq![5u8, 0u8, i, 0u8],
{
}

} // verus!
