//! The idle command: every action the player may take while the engine waits.
use crate::bytes::{fits, le_u32, le_u64, read_u32, read_u64, read_u8, spec_read_u32, spec_read_u8};
use crate::collect::{
    collect, lemma_collect_err_sticks, lemma_collect_ok, lemma_collect_same_outcome, same_outcome,
};
use crate::response::{le_bytes_u32, lemma_le_bytes_round_trip};
use crate::constants::{CardController, CardLocation};
use crate::data::{announced_card, new_announced_card, CardData};
use crate::error::ParseError;
use std::collections::HashMap;
use vstd::prelude::*;

verus! {

/// Identifier of the idle-command message.
pub const MSG_SELECT_IDLECMD: u8 = 11;

/// Most entries the engine ever lists in one block of the idle command.
pub const MAX_IDLE_BLOCK_ENTRIES: u32 = 50;

/// The blocks of the idle command, in the order they are sent.
#[derive(Debug, Clone, Copy, PartialEq, Eq, Structural)]
pub enum IdleBlock {
    NormalSummon,
    SpecialSummon,
    Reposition,
    MonsterSet,
    SpellTrapSet,
    Activate,
}

/// Bytes taken by one entry of a block.
pub open spec fn idle_entry_size(block: IdleBlock) -> int {
    match block {
        IdleBlock::Reposition => 7,
        IdleBlock::Activate => 19,
        _ => 10,
    }
}

/// The entry of `block` with index `idx` stored at `s[at..]`.
/// Every entry starts with the card code (4 bytes), the controller and the location (a byte
/// each). Repositions then hold a one-byte sequence; activations a four-byte sequence, an
/// eight-byte effect description (of which the low 20 bits are kept) and a client-mode byte;
/// all others a four-byte sequence (of which the low byte is kept).
/// Activations are read whole before controller and location are checked; the others check
/// each byte as soon as it is read.
#[verifier::opaque]
pub open spec fn spec_idle_entry(s: Seq<u8>, at: int, block: IdleBlock, idx: nat) -> Result<
    CardData,
    ParseError,
> {
    let len = s.len() as int;
    if !fits(len, at, 4) {
        Err(ParseError::Missing { offset: at as usize })
    } else if !fits(len, at + 4, 1) {
        Err(ParseError::Missing { offset: (at + 4) as usize })
    } else if block != IdleBlock::Activate && CardController::from_code(s[at + 4]) is Err {
        Err(CardController::from_code(s[at + 4])->Err_0)
    } else if !fits(len, at + 5, 1) {
        Err(ParseError::Missing { offset: (at + 5) as usize })
    } else if block != IdleBlock::Activate && CardLocation::from_code(s[at + 5]) is Err {
        Err(CardLocation::from_code(s[at + 5])->Err_0)
    } else if block == IdleBlock::Reposition {
        if !fits(len, at + 6, 1) {
            Err(ParseError::Missing { offset: (at + 6) as usize })
        } else {
            Ok(
                announced_card(
                    le_u32(s, at),
                    CardController::from_code(s[at + 4])->Ok_0,
                    CardLocation::from_code(s[at + 5])->Ok_0,
                    None,
                    s[at + 6],
                    Some(idx as u8),
                ),
            )
        }
    } else if !fits(len, at + 6, 4) {
        Err(ParseError::Missing { offset: (at + 6) as usize })
    } else if block != IdleBlock::Activate {
        Ok(
            announced_card(
                le_u32(s, at),
                CardController::from_code(s[at + 4])->Ok_0,
                CardLocation::from_code(s[at + 5])->Ok_0,
                None,
                le_u32(s, at + 6) as u8,
                Some(idx as u8),
            ),
        )
    } else if !fits(len, at + 10, 8) {
        Err(ParseError::Missing { offset: (at + 10) as usize })
    } else if !fits(len, at + 18, 1) {
        Err(ParseError::Missing { offset: (at + 18) as usize })
    } else if CardController::from_code(s[at + 4]) is Err {
        Err(CardController::from_code(s[at + 4])->Err_0)
    } else if CardLocation::from_code(s[at + 5]) is Err {
        Err(CardLocation::from_code(s[at + 5])->Err_0)
    } else {
        Ok(
            CardData {
                description: Some((le_u64(s, at + 10) % 0x100000) as u32),
                ..announced_card(
                    le_u32(s, at),
                    CardController::from_code(s[at + 4])->Ok_0,
                    CardLocation::from_code(s[at + 5])->Ok_0,
                    None,
                    le_u32(s, at + 6) as u8,
                    Some(idx as u8),
                )
            },
        )
    }
}

/// The entries of `block` whose list of entries starts at `s[base..]`, by index.
pub open spec fn idle_entries(s: Seq<u8>, base: int, block: IdleBlock) -> spec_fn(nat) -> Result<
    CardData,
    ParseError,
> {
    |j: nat| spec_idle_entry(s, base + idle_entry_size(block) * j, block, j)
}

/// The block whose count starts at `s[c..]`, with the cursor just past it.
pub open spec fn spec_idle_block(s: Seq<u8>, c: int, block: IdleBlock) -> Result<
    (Seq<CardData>, int),
    ParseError,
> {
    match spec_read_u32(s, c) {
        Err(e) => Err(e),
        Ok(count) => if count > MAX_IDLE_BLOCK_ENTRIES {
            Err(ParseError::CountTooLarge { count: count as usize })
        } else {
            match collect(count as nat, idle_entries(s, c + 4, block)) {
                Ok(v) => Ok((v, c + 4 + idle_entry_size(block) * count)),
                Err(e) => Err(e),
            }
        },
    }
}

/// Where the idle command starts in `s`: at 0, or at 4 after a length prefix that must
/// count exactly the bytes after it.
pub open spec fn spec_idle_offset(s: Seq<u8>) -> Result<int, ParseError> {
    if s.len() < 2 {
        Err(ParseError::TooShort { length: s.len() as usize })
    } else if s[0] == MSG_SELECT_IDLECMD {
        Ok(0)
    } else if s.len() >= 5 && s[4] == MSG_SELECT_IDLECMD {
        if le_u32(s, 0) as int != s.len() - 4 {
            Err(
                ParseError::LengthMismatch {
                    declared: le_u32(s, 0) as usize,
                    actual: (s.len() - 4) as usize,
                },
            )
        } else {
            Ok(4)
        }
    } else {
        Err(ParseError::UnexpectedMessage { expected: MSG_SELECT_IDLECMD, found: s[0] })
    }
}

/// What the idle command offers, as mathematical sequences.
pub struct AvailableActionsView {
    pub playerid: u8,
    pub normal_summons: Seq<CardData>,
    pub special_summons: Seq<CardData>,
    pub battle_positions: Seq<CardData>,
    pub monster_sets: Seq<CardData>,
    pub spell_trap_sets: Seq<CardData>,
    pub activatable_effects: Seq<CardData>,
    pub can_to_bp: bool,
    pub can_to_ep: bool,
    pub can_shuffle: bool,
}

/// The three phase flags that close the idle command at `s[c..]`.
pub open spec fn spec_idle_flags(s: Seq<u8>, c: int) -> Result<(bool, bool, bool), ParseError> {
    match spec_read_u8(s, c) {
        Err(e) => Err(e),
        Ok(bp) => match spec_read_u8(s, c + 1) {
            Err(e) => Err(e),
            Ok(ep) => match spec_read_u8(s, c + 2) {
                Err(e) => Err(e),
                Ok(sh) => Ok((bp != 0, ep != 0, sh != 0)),
            },
        },
    }
}

/// The six blocks that follow the player byte at cursor `c`, then the flags.
pub open spec fn spec_idle_body(s: Seq<u8>, playerid: u8, c: int) -> Result<
    AvailableActionsView,
    ParseError,
> {
    match spec_idle_block(s, c, IdleBlock::NormalSummon) {
        Err(e) => Err(e),
        Ok((ns, c1)) => match spec_idle_block(s, c1, IdleBlock::SpecialSummon) {
            Err(e) => Err(e),
            Ok((ss, c2)) => match spec_idle_block(s, c2, IdleBlock::Reposition) {
                Err(e) => Err(e),
                Ok((bp, c3)) => match spec_idle_block(s, c3, IdleBlock::MonsterSet) {
                    Err(e) => Err(e),
                    Ok((ms, c4)) => match spec_idle_block(s, c4, IdleBlock::SpellTrapSet) {
                        Err(e) => Err(e),
                        Ok((st, c5)) => match spec_idle_block(s, c5, IdleBlock::Activate) {
                            Err(e) => Err(e),
                            Ok((ae, c6)) => match spec_idle_flags(s, c6) {
                                Err(e) => Err(e),
                                Ok((to_bp, to_ep, shuffle)) => Ok(
                                    AvailableActionsView {
                                        playerid,
                                        normal_summons: ns,
                                        special_summons: ss,
                                        battle_positions: bp,
                                        monster_sets: ms,
                                        spell_trap_sets: st,
                                        activatable_effects: ae,
                                        can_to_bp: to_bp,
                                        can_to_ep: to_ep,
                                        can_shuffle: shuffle,
                                    },
                                ),
                            },
                        },
                    },
                },
            },
        },
    }
}

/// The idle command stored in `s`, or the first error met while decoding it.
pub open spec fn spec_available_actions(s: Seq<u8>) -> Result<AvailableActionsView, ParseError> {
    match spec_idle_offset(s) {
        Err(e) => Err(e),
        Ok(off) => match spec_read_u8(s, off + 1) {
            Err(e) => Err(e),
            Ok(playerid) => spec_idle_body(s, playerid, off + 2),
        },
    }
}

/// The map built by inserting each entry of `s`, in order, under its position taken modulo
/// 2^16 (so a later entry replaces an earlier one with the same key).
pub open spec fn keyed_by_position(s: Seq<CardData>) -> Map<u16, CardData>
    decreases s.len(),
{
    if s.len() == 0 {
        Map::empty()
    } else {
        keyed_by_position(s.drop_last()).insert((s.len() - 1) as u16, s.last())
    }
}

/// With at most 2^16 entries, every position is its own key: the map has exactly the keys
/// below the length, and maps each to the entry at that position.
pub proof fn lemma_keyed_by_position_small(s: Seq<CardData>)
    requires
        s.len() <= 65536,
    ensures
        forall|k: u16| #[trigger] keyed_by_position(s).contains_key(k) <==> (k as int) < s.len(),
        forall|k: u16| (k as int) < s.len() ==> #[trigger] keyed_by_position(s)[k] == s[k as int],
    decreases s.len(),
{
    if s.len() > 0 {
        let prev = s.drop_last();
        lemma_keyed_by_position_small(prev);
        let last = (s.len() - 1) as u16;
        assert(last as int == s.len() - 1);
        let m = keyed_by_position(s);
        assert(m == keyed_by_position(prev).insert(last, s.last()));
        assert forall|k: u16| #[trigger] m.contains_key(k) <==> (k as int) < s.len() by {
            if k != last {
                assert(keyed_by_position(prev).contains_key(k) <==> (k as int) < prev.len());
            }
        }
        assert forall|k: u16| (k as int) < s.len() implies #[trigger] m[k] == s[k as int] by {
            if k != last {
                assert(keyed_by_position(prev)[k] == prev[k as int]);
            }
        }
    }
}

/// Every action the player may take while the engine waits in the main phase.
#[derive(Debug, Clone, PartialEq, Eq)]
pub struct AvailableActions {
    pub playerid: u8,
    pub normal_summons: Vec<CardData>,
    pub special_summons: Vec<CardData>,
    pub battle_positions: Vec<CardData>,
    pub monster_sets: Vec<CardData>,
    pub spell_trap_sets: Vec<CardData>,
    pub activatable_effects: Vec<CardData>,
    pub can_to_bp: bool,
    pub can_to_ep: bool,
    pub can_shuffle: bool,
}

impl View for AvailableActions {
    type V = AvailableActionsView;

    open spec fn view(&self) -> AvailableActionsView {
        AvailableActionsView {
            playerid: self.playerid,
            normal_summons: self.normal_summons@,
            special_summons: self.special_summons@,
            battle_positions: self.battle_positions@,
            monster_sets: self.monster_sets@,
            spell_trap_sets: self.spell_trap_sets@,
            activatable_effects: self.activatable_effects@,
            can_to_bp: self.can_to_bp,
            can_to_ep: self.can_to_ep,
            can_shuffle: self.can_shuffle,
        }
    }
}

/// Reads the entry of `block` with index `idx` under the cursor.
fn read_idle_entry(raw_bytes: &[u8], cursor: &mut usize, block: IdleBlock, idx: u8) -> (res: Result<
    CardData,
    ParseError,
>)
    ensures
        res == spec_idle_entry(raw_bytes@, *old(cursor) as int, block, idx as nat),
        res is Ok ==> *final(cursor) == *old(cursor) + idle_entry_size(block),
{
    reveal(spec_idle_entry);
    let card_code = read_u32(raw_bytes, cursor)?;
    if block == IdleBlock::Activate {
        let controller = read_u8(raw_bytes, cursor)?;
        let location = read_u8(raw_bytes, cursor)?;
        let sequence = read_u32(raw_bytes, cursor)?;
        let description = read_u64(raw_bytes, cursor)?;
        let _client_mode = read_u8(raw_bytes, cursor)?;
        let controller = CardController::try_from(controller)?;
        let location = CardLocation::try_from(location)?;
        let card = new_announced_card(
            card_code,
            controller,
            location,
            None,
            sequence as u8,
            Some(idx),
        );
        Ok(CardData { description: Some((description % 0x100000) as u32), ..card })
    } else {
        let controller = CardController::try_from(read_u8(raw_bytes, cursor)?)?;
        let location = CardLocation::try_from(read_u8(raw_bytes, cursor)?)?;
        let sequence = if block == IdleBlock::Reposition {
            read_u8(raw_bytes, cursor)?
        } else {
            read_u32(raw_bytes, cursor)? as u8
        };
        Ok(new_announced_card(card_code, controller, location, None, sequence, Some(idx)))
    }
}

/// Reads one block (its count, then its entries) under the cursor.
fn read_idle_block(raw_bytes: &[u8], cursor: &mut usize, block: IdleBlock) -> (res: Result<
    Vec<CardData>,
    ParseError,
>)
    ensures
        match res {
            Ok(v) => spec_idle_block(raw_bytes@, *old(cursor) as int, block) == Ok::<
                (Seq<CardData>, int),
                ParseError,
            >((v@, *final(cursor) as int)),
            Err(e) => spec_idle_block(raw_bytes@, *old(cursor) as int, block) == Err::<
                (Seq<CardData>, int),
                ParseError,
            >(e),
        },
{
    let ghost c0 = *cursor as int;
    let count = read_u32(raw_bytes, cursor)?;
    if count > MAX_IDLE_BLOCK_ENTRIES {
        return Err(ParseError::CountTooLarge { count: count as usize });
    }
    let ghost f = idle_entries(raw_bytes@, c0 + 4, block);
    let mut items: Vec<CardData> = Vec::new();
    let mut index: u32 = 0;
    while index < count
        invariant
            index <= count <= MAX_IDLE_BLOCK_ENTRIES,
            spec_read_u32(raw_bytes@, c0) == Ok::<u32, ParseError>(count),
            c0 == *old(cursor) as int,
            f == idle_entries(raw_bytes@, c0 + 4, block),
            *cursor as int == c0 + 4 + idle_entry_size(block) * index,
            collect(index as nat, f) == Ok::<Seq<CardData>, ParseError>(items@),
        decreases count - index,
    {
        let ghost at = *cursor as int;
        let entry = read_idle_entry(raw_bytes, cursor, block, index as u8);
        match entry {
            Ok(card) => {
                items.push(card);
                proof {
                    assert(f(index as nat) == spec_idle_entry(raw_bytes@, at, block, index as nat));
                    assert(items@ =~= collect(index as nat, f)->Ok_0.push(card));
                    let k = idle_entry_size(block);
                    assert(k * (index + 1) == k * index + k) by (nonlinear_arith);
                }
                index = index + 1;
            },
            Err(e) => {
                proof {
                    assert(f(index as nat) == spec_idle_entry(raw_bytes@, at, block, index as nat));
                    assert(collect((index + 1) as nat, f) == Err::<Seq<CardData>, ParseError>(e));
                    lemma_collect_err_sticks((index + 1) as nat, count as nat, f);
                }
                return Err(e);
            },
        }
    }
    Ok(items)
}

impl AvailableActions {
    /// Decodes the idle command in `raw_bytes`, which may start with a four-byte length
    /// prefix counting the bytes after it.
    pub fn try_from(raw_bytes: &[u8]) -> (res: Result<AvailableActions, ParseError>)
        ensures
            match res {
                Ok(a) => spec_available_actions(raw_bytes@) == Ok::<
                    AvailableActionsView,
                    ParseError,
                >(a@),
                Err(e) => spec_available_actions(raw_bytes@) == Err::<
                    AvailableActionsView,
                    ParseError,
                >(e),
            },
    {
        let len = raw_bytes.len();
        if len < 2 {
            return Err(ParseError::TooShort { length: len });
        }
        let message_offset: usize = if raw_bytes[0] == MSG_SELECT_IDLECMD {
            0
        } else if len >= 5 && raw_bytes[4] == MSG_SELECT_IDLECMD {
            let declared_len = crate::bytes::get_u32_le(raw_bytes, 0) as usize;
            if declared_len != len - 4 {
                return Err(ParseError::LengthMismatch { declared: declared_len, actual: len - 4 });
            }
            4
        } else {
            return Err(
                ParseError::UnexpectedMessage { expected: MSG_SELECT_IDLECMD, found: raw_bytes[0] },
            );
        };
        let mut cursor = message_offset + 1;
        let playerid = read_u8(raw_bytes, &mut cursor)?;
        let normal_summons = read_idle_block(raw_bytes, &mut cursor, IdleBlock::NormalSummon)?;
        let special_summons = read_idle_block(raw_bytes, &mut cursor, IdleBlock::SpecialSummon)?;
        let battle_positions = read_idle_block(raw_bytes, &mut cursor, IdleBlock::Reposition)?;
        let monster_sets = read_idle_block(raw_bytes, &mut cursor, IdleBlock::MonsterSet)?;
        let spell_trap_sets = read_idle_block(raw_bytes, &mut cursor, IdleBlock::SpellTrapSet)?;
        let activatable_effects = read_idle_block(raw_bytes, &mut cursor, IdleBlock::Activate)?;
        let can_to_bp = read_u8(raw_bytes, &mut cursor)? != 0;
        let can_to_ep = read_u8(raw_bytes, &mut cursor)? != 0;
        let can_shuffle = read_u8(raw_bytes, &mut cursor)? != 0;
        Ok(AvailableActions {
            playerid,
            normal_summons,
            special_summons,
            battle_positions,
            monster_sets,
            spell_trap_sets,
            activatable_effects,
            can_to_bp,
            can_to_ep,
            can_shuffle,
        })
    }

    /// The cards that can be Normal Summoned, in the engine's order.
    pub fn get_normal_summons(&self) -> (r: &Vec<CardData>)
        ensures
            r@ == self.normal_summons@,
    {
        &self.normal_summons
    }

    /// The cards that can be Special Summoned, in the engine's order.
    pub fn get_special_summons(&self) -> (r: &Vec<CardData>)
        ensures
            r@ == self.special_summons@,
    {
        &self.special_summons
    }

    /// The activatable effects keyed by their position in the engine's list, the position
    /// taken modulo 2^16 (a later entry replaces an earlier one with the same key).
    pub fn get_activatable_effects(&self) -> (m: HashMap<u16, CardData>)
        ensures
            m@ == keyed_by_position(self.activatable_effects@),
    {
        let mut m: HashMap<u16, CardData> = HashMap::new();
        let n = self.activatable_effects.len();
        let mut i: usize = 0;
        while i < n
            invariant
                n == self.activatable_effects@.len(),
                i <= n,
                m@ == keyed_by_position(self.activatable_effects@.take(i as int)),
            decreases n - i,
        {
            let card = self.activatable_effects[i];
            let key: u16 = #[verifier::truncate] (i as u16);
            m.insert(key, card);
            proof {
                let s2 = self.activatable_effects@.take(i + 1);
                assert(s2.drop_last() =~= self.activatable_effects@.take(i as int));
            }
            i = i + 1;
        }
        proof {
            assert(self.activatable_effects@.take(n as int) =~= self.activatable_effects@);
        }
        m
    }
}


/// `q` is `p` with four bytes in front.
pub open spec fn shifted_by_four(q: Seq<u8>, p: Seq<u8>) -> bool {
    &&& q.len() == p.len() + 4
    &&& forall|i: int| 0 <= i < p.len() ==> #[trigger] p[i] == q[i + 4]
}

proof fn lemma_idle_entry_shift(q: Seq<u8>, p: Seq<u8>, at: int, block: IdleBlock, idx: nat)
    requires
        shifted_by_four(q, p),
        0 <= at,
    ensures
        same_outcome(spec_idle_entry(q, at + 4, block, idx), spec_idle_entry(p, at, block, idx)),
{
    reveal(spec_idle_entry);
    if fits(p.len() as int, at, 19) {
        assert(p[at + 18] == q[at + 22]);
    }
    if fits(p.len() as int, at, 10) {
        assert(p[at + 9] == q[at + 13]);
    }
    if fits(p.len() as int, at, 7) {
        assert(p[at + 6] == q[at + 10]);
    }
    if fits(p.len() as int, at, 6) {
        assert(p[at] == q[at + 4]);
        assert(p[at + 1] == q[at + 5]);
        assert(p[at + 2] == q[at + 6]);
        assert(p[at + 3] == q[at + 7]);
        assert(p[at + 4] == q[at + 8]);
        assert(p[at + 5] == q[at + 9]);
    } else if fits(p.len() as int, at, 5) {
        assert(p[at + 4] == q[at + 8]);
    }
    if fits(p.len() as int, at, 10) {
        assert(p[at + 6] == q[at + 10]);
        assert(p[at + 7] == q[at + 11]);
        assert(p[at + 8] == q[at + 12]);
    }
    if fits(p.len() as int, at, 18) {
        assert(p[at + 10] == q[at + 14]);
        assert(p[at + 11] == q[at + 15]);
        assert(p[at + 12] == q[at + 16]);
        assert(p[at + 13] == q[at + 17]);
        assert(p[at + 14] == q[at + 18]);
        assert(p[at + 15] == q[at + 19]);
        assert(p[at + 16] == q[at + 20]);
        assert(p[at + 17] == q[at + 21]);
    }
}

proof fn lemma_read_u32_shift(q: Seq<u8>, p: Seq<u8>, c: int)
    requires
        shifted_by_four(q, p),
        0 <= c,
    ensures
        same_outcome(spec_read_u32(q, c + 4), spec_read_u32(p, c)),
{
    if fits(p.len() as int, c, 4) {
        assert(p[c] == q[c + 4]);
        assert(p[c + 1] == q[c + 5]);
        assert(p[c + 2] == q[c + 6]);
        assert(p[c + 3] == q[c + 7]);
    }
}

proof fn lemma_idle_block_shift(q: Seq<u8>, p: Seq<u8>, c: int, block: IdleBlock)
    requires
        shifted_by_four(q, p),
        0 <= c,
    ensures
        spec_idle_block(q, c + 4, block) is Ok <==> spec_idle_block(p, c, block) is Ok,
        spec_idle_block(p, c, block) is Ok ==> {
            &&& spec_idle_block(q, c + 4, block)->Ok_0.0 == spec_idle_block(p, c, block)->Ok_0.0
            &&& spec_idle_block(q, c + 4, block)->Ok_0.1 == spec_idle_block(p, c, block)->Ok_0.1
                + 4
            &&& spec_idle_block(p, c, block)->Ok_0.1 >= c
        },
{
    lemma_read_u32_shift(q, p, c);
    if spec_read_u32(p, c) is Ok {
        let count = spec_read_u32(p, c)->Ok_0;
        let size = idle_entry_size(block);
        let f = idle_entries(q, c + 8, block);
        let g = idle_entries(p, c + 4, block);
        assert forall|j: nat| j < count implies same_outcome(#[trigger] f(j), g(j)) by {
            assert(size * j >= 0) by (nonlinear_arith)
                requires
                    size >= 0,
            ;
            lemma_idle_entry_shift(q, p, c + 4 + size * j, block, j);
        }
        lemma_collect_same_outcome(count as nat, f, g);
        assert(size * count >= 0) by (nonlinear_arith)
            requires
                size >= 0,
        ;
    }
}

proof fn lemma_idle_body_shift(q: Seq<u8>, p: Seq<u8>, playerid: u8, c: int)
    requires
        shifted_by_four(q, p),
        0 <= c,
    ensures
        same_outcome(spec_idle_body(q, playerid, c + 4), spec_idle_body(p, playerid, c)),
{
    lemma_idle_block_shift(q, p, c, IdleBlock::NormalSummon);
    if let Ok((_, c1)) = spec_idle_block(p, c, IdleBlock::NormalSummon) {
        lemma_idle_block_shift(q, p, c1, IdleBlock::SpecialSummon);
        if let Ok((_, c2)) = spec_idle_block(p, c1, IdleBlock::SpecialSummon) {
            lemma_idle_block_shift(q, p, c2, IdleBlock::Reposition);
            if let Ok((_, c3)) = spec_idle_block(p, c2, IdleBlock::Reposition) {
                lemma_idle_block_shift(q, p, c3, IdleBlock::MonsterSet);
                if let Ok((_, c4)) = spec_idle_block(p, c3, IdleBlock::MonsterSet) {
                    lemma_idle_block_shift(q, p, c4, IdleBlock::SpellTrapSet);
                    if let Ok((_, c5)) = spec_idle_block(p, c4, IdleBlock::SpellTrapSet) {
                        lemma_idle_block_shift(q, p, c5, IdleBlock::Activate);
                        if let Ok((_, c6)) = spec_idle_block(p, c5, IdleBlock::Activate) {
                            if fits(p.len() as int, c6, 3) {
                                assert(p[c6] == q[c6 + 4]);
                                assert(p[c6 + 1] == q[c6 + 5]);
                                assert(p[c6 + 2] == q[c6 + 6]);
                            } else if fits(p.len() as int, c6, 2) {
                                assert(p[c6] == q[c6 + 4]);
                                assert(p[c6 + 1] == q[c6 + 5]);
                            } else if fits(p.len() as int, c6, 1) {
                                assert(p[c6] == q[c6 + 4]);
                            }
                        }
                    }
                }
            }
        }
    }
}

/// A four-byte length prefix that counts exactly the bytes after it (and does not itself
/// start with the idle identifier) leaves the idle command as it is: the prefixed and the
/// bare message are both read or both refused, and read the same actions.
pub proof fn lemma_idle_prefix_transparent(p: Seq<u8>)
    requires
        p.len() >= 1,
        p[0] == MSG_SELECT_IDLECMD,
        p.len() <= u32::MAX,
        le_bytes_u32(p.len() as u32)[0] != MSG_SELECT_IDLECMD,
    ensures
        same_outcome(spec_available_actions(le_bytes_u32(p.len() as u32) + p), spec_available_actions(p)),
{
    let prefix = le_bytes_u32(p.len() as u32);
    let q = prefix + p;
    lemma_le_bytes_round_trip(p.len() as u32);
    assert(le_u32(q, 0) == le_u32(prefix, 0));
    assert(q[4] == p[0]);
    assert(shifted_by_four(q, p));
    assert(spec_idle_offset(q) == Ok::<int, ParseError>(4));
    if p.len() >= 2 {
        assert(p[1] == q[5]);
        lemma_idle_body_shift(q, p, p[1], 2);
    }
}


/// Bytes taken by one entry of block `k` (0-based, in message order) of the idle command:
/// repositions (block 2) take 7, activations (block 5) 19, every other block 10.
pub open spec fn idle_block_entry_bytes(k: nat) -> int {
    if k == 2 {
        7
    } else if k == 5 {
        19
    } else {
        10
    }
}

/// Where block `k` of the idle command in `s` starts (its four-byte count): the blocks
/// follow the identifier and the player byte, each a count and then that many entries.
pub open spec fn idle_block_start(s: Seq<u8>, k: nat) -> int
    decreases k,
{
    if k == 0 {
        (if s[0] == MSG_SELECT_IDLECMD {
            0int
        } else {
            4int
        }) + 2
    } else {
        let c = idle_block_start(s, (k - 1) as nat);
        c + 4 + idle_block_entry_bytes((k - 1) as nat) * le_u32(s, c)
    }
}

/// `cards` are the entries of block `k` of the idle command in `s`: as many as its count
/// says, each with the code at the start of its entry and its index in the block.
pub open spec fn lists_idle_block(cards: Seq<CardData>, s: Seq<u8>, k: nat) -> bool {
    let c = idle_block_start(s, k);
    &&& cards.len() == le_u32(s, c)
    &&& forall|j: int|
        0 <= j < cards.len() ==> (#[trigger] cards[j]).card_code == le_u32(
            s,
            c + 4 + idle_block_entry_bytes(k) * j,
        ) && cards[j].action_index == Some(j as u8)
}

proof fn lemma_idle_entry_code(s: Seq<u8>, at: int, block: IdleBlock, idx: nat)
    requires
        spec_idle_entry(s, at, block, idx) is Ok,
    ensures
        spec_idle_entry(s, at, block, idx)->Ok_0.card_code == le_u32(s, at),
        spec_idle_entry(s, at, block, idx)->Ok_0.action_index == Some(idx as u8),
{
    reveal(spec_idle_entry);
}

proof fn lemma_idle_block_lists(s: Seq<u8>, c: int, block: IdleBlock, k: nat)
    requires
        spec_idle_block(s, c, block) is Ok,
        idle_entry_size(block) == idle_block_entry_bytes(k),
        c == idle_block_start(s, k),
    ensures
        lists_idle_block(spec_idle_block(s, c, block)->Ok_0.0, s, k),
        spec_idle_block(s, c, block)->Ok_0.1 == idle_block_start(s, k + 1),
{
    let count = spec_read_u32(s, c)->Ok_0;
    let f = idle_entries(s, c + 4, block);
    lemma_collect_ok(count as nat, f);
    let v = collect(count as nat, f)->Ok_0;
    assert forall|j: int| 0 <= j < v.len() implies (#[trigger] v[j]).card_code == le_u32(
        s,
        c + 4 + idle_block_entry_bytes(k) * j,
    ) && v[j].action_index == Some(j as u8) by {
        assert(f(j as nat) == Ok::<CardData, ParseError>(v[j]));
        lemma_idle_entry_code(s, c + 4 + idle_entry_size(block) * j, block, j as nat);
    }
    assert(idle_block_start(s, k + 1) == c + 4 + idle_block_entry_bytes(k) * le_u32(s, c));
}

/// The idle command lists its offers in six blocks, in this order: Normal Summons, Special
/// Summons, repositions, monster sets, spell/trap sets, activations. Each decoded list holds
/// the entries of its own block: as many as the block's count, with the codes and indices of
/// that block's entries.
pub proof fn lemma_idle_blocks_in_order(s: Seq<u8>)
    ensures
        spec_available_actions(s) matches Ok(a) ==> {
            &&& lists_idle_block(a.normal_summons, s, 0)
            &&& lists_idle_block(a.special_summons, s, 1)
            &&& lists_idle_block(a.battle_positions, s, 2)
            &&& lists_idle_block(a.monster_sets, s, 3)
            &&& lists_idle_block(a.spell_trap_sets, s, 4)
            &&& lists_idle_block(a.activatable_effects, s, 5)
        },
{
    if spec_available_actions(s) is Ok {
        let off = spec_idle_offset(s)->Ok_0;
        let c0 = off + 2;
        assert(c0 == idle_block_start(s, 0));
        lemma_idle_block_lists(s, c0, IdleBlock::NormalSummon, 0);
        let c1 = spec_idle_block(s, c0, IdleBlock::NormalSummon)->Ok_0.1;
        lemma_idle_block_lists(s, c1, IdleBlock::SpecialSummon, 1);
        let c2 = spec_idle_block(s, c1, IdleBlock::SpecialSummon)->Ok_0.1;
        lemma_idle_block_lists(s, c2, IdleBlock::Reposition, 2);
        let c3 = spec_idle_block(s, c2, IdleBlock::Reposition)->Ok_0.1;
        lemma_idle_block_lists(s, c3, IdleBlock::MonsterSet, 3);
        let c4 = spec_idle_block(s, c3, IdleBlock::MonsterSet)->Ok_0.1;
        lemma_idle_block_lists(s, c4, IdleBlock::SpellTrapSet, 4);
        let c5 = spec_idle_block(s, c4, IdleBlock::SpellTrapSet)->Ok_0.1;
        lemma_idle_block_lists(s, c5, IdleBlock::Activate, 5);
    }
}

} // verus!
