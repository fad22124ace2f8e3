//! The engine asks the player to pick or drop cards one at a time.
use crate::bytes::{fits, le_u32, read_u32, read_u8, spec_read_u32, spec_read_u8};
use crate::collect::{collect, lemma_collect_err_sticks};
use crate::constants::{BattlePosition, CardController, CardLocation};
use crate::data::{announced_card, new_announced_card, CardData};
use crate::error::ParseError;
use vstd::prelude::*;

verus! {

/// Identifier of the select/unselect message.
pub const MSG_SELECT_UNSELECT_CARD: u8 = 26;

/// Most cards the engine ever lists in one list of this message.
pub const MAX_SELECT_UNSELECT_ENTRIES: u32 = 100;

/// The position named by `value`, or none when it names no position.
pub open spec fn optional_position(value: u32) -> Option<BattlePosition> {
    match BattlePosition::from_code(value) {
        Ok(p) => Some(p),
        Err(_) => None,
    }
}

/// The card whose fourteen bytes start at `s[at..]`: code, controller, location, a four-byte
/// sequence (of which the low byte is kept) and a four-byte position; all are read before
/// controller and location are checked.
#[verifier::opaque]
pub open spec fn spec_unselect_entry(s: Seq<u8>, at: int, selected: bool) -> Result<
    CardData,
    ParseError,
> {
    let len = s.len() as int;
    if !fits(len, at, 4) {
        Err(ParseError::Missing { offset: at as usize })
    } else if !fits(len, at + 4, 1) {
        Err(ParseError::Missing { offset: (at + 4) as usize })
    } else if !fits(len, at + 5, 1) {
        Err(ParseError::Missing { offset: (at + 5) as usize })
    } else if !fits(len, at + 6, 4) {
        Err(ParseError::Missing { offset: (at + 6) as usize })
    } else if !fits(len, at + 10, 4) {
        Err(ParseError::Missing { offset: (at + 10) as usize })
    } else {
        match CardController::from_code(s[at + 4]) {
            Err(e) => Err(e),
            Ok(controller) => match CardLocation::from_code(s[at + 5]) {
                Err(e) => Err(e),
                Ok(location) => Ok(
                    CardData {
                        is_selected: selected,
                        ..announced_card(
                            le_u32(s, at),
                            controller,
                            location,
                            optional_position(le_u32(s, at + 10)),
                            le_u32(s, at + 6) as u8,
                            None,
                        )
                    },
                ),
            },
        }
    }
}

/// The cards of the list whose entries start at `s[base..]`, by index.
pub open spec fn unselect_entries(s: Seq<u8>, base: int, selected: bool) -> spec_fn(nat) -> Result<
    CardData,
    ParseError,
> {
    |j: nat| spec_unselect_entry(s, base + 14 * j, selected)
}

/// The list whose count starts at `s[c..]`, with the cursor just past it.
pub open spec fn spec_unselect_list(s: Seq<u8>, c: int, selected: bool) -> Result<
    (Seq<CardData>, int),
    ParseError,
> {
    match spec_read_u32(s, c) {
        Err(e) => Err(e),
        Ok(count) => if count > MAX_SELECT_UNSELECT_ENTRIES {
            Err(ParseError::CountTooLarge { count: count as usize })
        } else {
            match collect(count as nat, unselect_entries(s, c + 4, selected)) {
                Ok(v) => Ok((v, c + 4 + 14 * count)),
                Err(e) => Err(e),
            }
        },
    }
}

/// Where the message starts in `s`: at 0, or at 4 after a length prefix that must count
/// exactly the bytes after it.
pub open spec fn spec_unselect_offset(s: Seq<u8>) -> Result<int, ParseError> {
    if s[0] == MSG_SELECT_UNSELECT_CARD {
        Ok(0)
    } else if s.len() >= 5 && s[4] == MSG_SELECT_UNSELECT_CARD {
        if le_u32(s, 0) as int != s.len() - 4 {
            Err(
                ParseError::LengthMismatch {
                    declared: le_u32(s, 0) as usize,
                    actual: (s.len() - 4) as usize,
                },
            )
        } else {
            Ok(4)
        }
    } else {
        Err(ParseError::UnexpectedMessage { expected: MSG_SELECT_UNSELECT_CARD, found: s[0] })
    }
}

/// The choice offered, as mathematical sequences.
pub struct SelectUnselectView {
    pub playerid: u8,
    pub finishable: bool,
    pub cancelable: bool,
    pub min_count: u32,
    pub max_count: u32,
    pub select_cards: Seq<CardData>,
    pub unselect_cards: Seq<CardData>,
}

/// The two lists that follow the header whose fields start at cursor `c`.
pub open spec fn spec_unselect_lists(
    s: Seq<u8>,
    playerid: u8,
    finishable: bool,
    cancelable: bool,
    min_count: u32,
    max_count: u32,
    c: int,
) -> Result<SelectUnselectView, ParseError> {
    match spec_unselect_list(s, c, false) {
        Err(e) => Err(e),
        Ok((select_cards, c1)) => match spec_unselect_list(s, c1, true) {
            Err(e) => Err(e),
            Ok((unselect_cards, _)) => Ok(
                SelectUnselectView {
                    playerid,
                    finishable,
                    cancelable,
                    min_count,
                    max_count,
                    select_cards,
                    unselect_cards,
                },
            ),
        },
    }
}

/// The message stored in `s`, or the first error met while decoding it.
pub open spec fn spec_select_unselect(s: Seq<u8>) -> Result<SelectUnselectView, ParseError> {
    match spec_unselect_offset(s) {
        Err(e) => Err(e),
        Ok(off) => {
            let c = off + 1;
            match spec_read_u8(s, c) {
                Err(e) => Err(e),
                Ok(playerid) => match spec_read_u8(s, c + 1) {
                    Err(e) => Err(e),
                    Ok(finishable) => match spec_read_u8(s, c + 2) {
                        Err(e) => Err(e),
                        Ok(cancelable) => match spec_read_u32(s, c + 3) {
                            Err(e) => Err(e),
                            Ok(min_count) => match spec_read_u32(s, c + 7) {
                                Err(e) => Err(e),
                                Ok(max_count) => spec_unselect_lists(
                                    s,
                                    playerid,
                                    finishable != 0,
                                    cancelable != 0,
                                    min_count,
                                    max_count,
                                    c + 11,
                                ),
                            },
                        },
                    },
                },
            }
        },
    }
}

/// The cards the player may pick and the cards it picked already, which it may drop.
#[derive(Debug, Clone, PartialEq, Eq)]
pub struct SelectUnselectMessage {
    pub playerid: u8,
    pub finishable: bool,
    pub cancelable: bool,
    pub min_count: u32,
    pub max_count: u32,
    pub select_cards: Vec<CardData>,
    pub unselect_cards: Vec<CardData>,
}

impl View for SelectUnselectMessage {
    type V = SelectUnselectView;

    open spec fn view(&self) -> SelectUnselectView {
        SelectUnselectView {
            playerid: self.playerid,
            finishable: self.finishable,
            cancelable: self.cancelable,
            min_count: self.min_count,
            max_count: self.max_count,
            select_cards: self.select_cards@,
            unselect_cards: self.unselect_cards@,
        }
    }
}

/// Reads the fourteen-byte card under the cursor.
fn read_unselect_entry(raw_bytes: &[u8], cursor: &mut usize, selected: bool) -> (res: Result<
    CardData,
    ParseError,
>)
    ensures
        res == spec_unselect_entry(raw_bytes@, *old(cursor) as int, selected),
        res is Ok ==> *final(cursor) == *old(cursor) + 14,
{
    reveal(spec_unselect_entry);
    let card_code = read_u32(raw_bytes, cursor)?;
    let controller = read_u8(raw_bytes, cursor)?;
    let location = read_u8(raw_bytes, cursor)?;
    let sequence = read_u32(raw_bytes, cursor)?;
    let position = read_u32(raw_bytes, cursor)?;
    let controller = CardController::try_from(controller)?;
    let location = CardLocation::try_from(location)?;
    let position = match BattlePosition::try_from(position) {
        Ok(p) => Some(p),
        Err(_) => None,
    };
    let card = new_announced_card(card_code, controller, location, position, sequence as u8, None);
    Ok(CardData { is_selected: selected, ..card })
}

/// Reads one list (its count, then its cards) under the cursor.
fn read_unselect_list(raw_bytes: &[u8], cursor: &mut usize, selected: bool) -> (res: Result<
    Vec<CardData>,
    ParseError,
>)
    ensures
        match res {
            Ok(v) => spec_unselect_list(raw_bytes@, *old(cursor) as int, selected) == Ok::<
                (Seq<CardData>, int),
                ParseError,
            >((v@, *final(cursor) as int)),
            Err(e) => spec_unselect_list(raw_bytes@, *old(cursor) as int, selected) == Err::<
                (Seq<CardData>, int),
                ParseError,
            >(e),
        },
{
    let ghost c0 = *cursor as int;
    let count = read_u32(raw_bytes, cursor)?;
    if count > MAX_SELECT_UNSELECT_ENTRIES {
        return Err(ParseError::CountTooLarge { count: count as usize });
    }
    let ghost f = unselect_entries(raw_bytes@, c0 + 4, selected);
    let mut items: Vec<CardData> = Vec::new();
    let mut index: u32 = 0;
    while index < count
        invariant
            index <= count <= MAX_SELECT_UNSELECT_ENTRIES,
            spec_read_u32(raw_bytes@, c0) == Ok::<u32, ParseError>(count),
            c0 == *old(cursor) as int,
            f == unselect_entries(raw_bytes@, c0 + 4, selected),
            *cursor as int == c0 + 4 + 14 * index,
            collect(index as nat, f) == Ok::<Seq<CardData>, ParseError>(items@),
        decreases count - index,
    {
        let ghost at = *cursor as int;
        match read_unselect_entry(raw_bytes, cursor, selected) {
            Ok(card) => {
                items.push(card);
                proof {
                    assert(f(index as nat) == spec_unselect_entry(raw_bytes@, at, selected));
                    assert(items@ =~= collect(index as nat, f)->Ok_0.push(card));
                }
                index = index + 1;
            },
            Err(e) => {
                proof {
                    assert(f(index as nat) == spec_unselect_entry(raw_bytes@, at, selected));
                    lemma_collect_err_sticks((index + 1) as nat, count as nat, f);
                }
                return Err(e);
            },
        }
    }
    Ok(items)
}

impl SelectUnselectMessage {
    /// Decodes the message in `raw_bytes`, which may start with a four-byte length prefix
    /// counting the bytes after it.
    pub fn try_from(raw_bytes: &[u8]) -> (res: Result<SelectUnselectMessage, ParseError>)
        requires
            raw_bytes@.len() >= 1,
        ensures
            match res {
                Ok(m) => spec_select_unselect(raw_bytes@) == Ok::<
                    SelectUnselectView,
                    ParseError,
                >(m@),
                Err(e) => spec_select_unselect(raw_bytes@) == Err::<
                    SelectUnselectView,
                    ParseError,
                >(e),
            },
    {
        let len = raw_bytes.len();
        let message_offset: usize = if raw_bytes[0] == MSG_SELECT_UNSELECT_CARD {
            0
        } else if len >= 5 && raw_bytes[4] == MSG_SELECT_UNSELECT_CARD {
            let declared_len = crate::bytes::get_u32_le(raw_bytes, 0) as usize;
            if declared_len != len - 4 {
                return Err(ParseError::LengthMismatch { declared: declared_len, actual: len - 4 });
            }
            4
        } else {
            return Err(
                ParseError::UnexpectedMessage {
                    expected: MSG_SELECT_UNSELECT_CARD,
                    found: raw_bytes[0],
                },
            );
        };
        let mut cursor = message_offset + 1;
        let playerid = read_u8(raw_bytes, &mut cursor)?;
        let finishable = read_u8(raw_bytes, &mut cursor)? != 0;
        let cancelable = read_u8(raw_bytes, &mut cursor)? != 0;
        let min_count = read_u32(raw_bytes, &mut cursor)?;
        let max_count = read_u32(raw_bytes, &mut cursor)?;
        let select_cards = read_unselect_list(raw_bytes, &mut cursor, false)?;
        let unselect_cards = read_unselect_list(raw_bytes, &mut cursor, true)?;
        Ok(SelectUnselectMessage {
            playerid,
            finishable,
            cancelable,
            min_count,
            max_count,
            select_cards,
            unselect_cards,
        })
    }
}

/// Two records name the same card: same location, sequence and code.
pub open spec fn same_card(a: CardData, b: CardData) -> bool {
    a.location == b.location && a.sequence == b.sequence && a.card_code == b.card_code
}

/// `i` is the first position of `s` holding the same card as `card`.
pub open spec fn is_first_same_card(s: Seq<CardData>, card: CardData, i: int) -> bool {
    &&& 0 <= i < s.len()
    &&& same_card(s[i], card)
    &&& forall|j: int| 0 <= j < i ==> !same_card(#[trigger] s[j], card)
}

/// The first position of `s` holding the same card as `card`, if any.
pub open spec fn first_same_card(s: Seq<CardData>, card: CardData) -> Option<int> {
    if exists|i: int| 0 <= i < s.len() && same_card(#[trigger] s[i], card) {
        Some(choose|i: int| is_first_same_card(s, card, i))
    } else {
        None
    }
}

/// `i` is the first position of `s` holding a card at `location` with sequence `sequence`.
pub open spec fn is_first_in_zone(
    s: Seq<CardData>,
    location: CardLocation,
    sequence: u8,
    i: int,
) -> bool {
    &&& 0 <= i < s.len()
    &&& s[i].location == location && s[i].sequence == sequence
    &&& forall|j: int|
        0 <= j < i ==> !(#[trigger] s[j].location == location && s[j].sequence == sequence)
}

/// The first card of `s` at `location` with sequence `sequence`, if any.
pub open spec fn first_in_zone(s: Seq<CardData>, location: CardLocation, sequence: u8) -> Option<
    CardData,
> {
    if exists|i: int|
        0 <= i < s.len() && #[trigger] s[i].location == location && s[i].sequence == sequence {
        Some(s[choose|i: int| is_first_in_zone(s, location, sequence, i)])
    } else {
        None
    }
}

/// The answer index for `card`: a card already picked (in `unselect`) is dropped by its
/// position counted after all of `select`; otherwise a card is picked by its position in
/// `select`; no answer when neither list holds it. The index is cut to 32 bits.
pub open spec fn response_index(select: Seq<CardData>, unselect: Seq<CardData>, card: CardData) -> Option<
    u32,
> {
    match first_same_card(unselect, card) {
        Some(i) => Some((select.len() + i) as u32),
        None => match first_same_card(select, card) {
            Some(i) => Some(i as u32),
            None => None,
        },
    }
}

proof fn lemma_first_same_card_exists(s: Seq<CardData>, card: CardData, i: int)
    requires
        0 <= i < s.len(),
        same_card(s[i], card),
    ensures
        first_same_card(s, card) matches Some(k) ==> is_first_same_card(s, card, k),
        first_same_card(s, card) is Some,
    decreases i,
{
    if exists|j: int| 0 <= j < i && same_card(#[trigger] s[j], card) {
        let j = choose|j: int| 0 <= j < i && same_card(#[trigger] s[j], card);
        lemma_first_same_card_exists(s, card, j);
    } else {
        assert(is_first_same_card(s, card, i));
    }
}

proof fn lemma_first_in_zone_exists(s: Seq<CardData>, location: CardLocation, sequence: u8, i: int)
    requires
        0 <= i < s.len(),
        s[i].location == location && s[i].sequence == sequence,
    ensures
        exists|k: int| is_first_in_zone(s, location, sequence, k),
    decreases i,
{
    if exists|j: int|
        0 <= j < i && #[trigger] s[j].location == location && s[j].sequence == sequence {
        let j = choose|j: int|
            0 <= j < i && #[trigger] s[j].location == location && s[j].sequence == sequence;
        lemma_first_in_zone_exists(s, location, sequence, j);
    } else {
        assert(is_first_in_zone(s, location, sequence, i));
    }
}

/// A card the zone lookup finds has an answer, and the answer's index points at an entry of
/// the two lists (picked cards after the others) holding the same card: same location,
/// sequence and code. The lists together hold at most 2^32 entries, so that the index is not
/// cut.
pub proof fn lemma_found_card_has_answer(
    select: Seq<CardData>,
    unselect: Seq<CardData>,
    location: CardLocation,
    sequence: u8,
)
    requires
        select.len() + unselect.len() <= u32::MAX,
    ensures
        first_in_zone(select + unselect, location, sequence) matches Some(c) ==> response_index(
            select,
            unselect,
            c,
        ) matches Some(k) && k < select.len() + unselect.len() && same_card(
            (select + unselect)[k as int],
            c,
        ),
{
    let all = select + unselect;
    if first_in_zone(all, location, sequence) is Some {
        let w = choose|i: int|
            0 <= i < all.len() && #[trigger] all[i].location == location && all[i].sequence
                == sequence;
        lemma_first_in_zone_exists(all, location, sequence, w);
        let i0 = choose|i: int| is_first_in_zone(all, location, sequence, i);
        let c = all[i0];
        assert(first_in_zone(all, location, sequence) == Some(c));
        if i0 >= select.len() {
            assert(unselect[i0 - select.len()] == c);
            lemma_first_same_card_exists(unselect, c, i0 - select.len());
        } else {
            assert(select[i0] == c);
            lemma_first_same_card_exists(select, c, i0);
        }
        match first_same_card(unselect, c) {
            Some(j) => {
                let w2 = choose|j: int| 0 <= j < unselect.len() && same_card(#[trigger] unselect[j], c);
                lemma_first_same_card_exists(unselect, c, w2);
                assert(all[select.len() + j] == unselect[j]);
            },
            None => {
                let j = first_same_card(select, c)->Some_0;
                assert(all[j] == select[j]);
            },
        }
    }
}

/// The position of the first card of `cards` that is the same card as `card`.
fn find_same_card(cards: &Vec<CardData>, card: &CardData) -> (r: Option<usize>)
    ensures
        match r {
            Some(i) => first_same_card(cards@, *card) == Some(i as int) && is_first_same_card(
                cards@,
                *card,
                i as int,
            ),
            None => first_same_card(cards@, *card) is None,
        },
{
    let n = cards.len();
    let mut i: usize = 0;
    while i < n
        invariant
            n == cards@.len(),
            i <= n,
            forall|j: int| 0 <= j < i ==> !same_card(#[trigger] cards@[j], *card),
        decreases n - i,
    {
        let c = &cards[i];
        if c.location == card.location && c.sequence == card.sequence && c.card_code
            == card.card_code {
            proof {
                assert(is_first_same_card(cards@, *card, i as int));
                let k = choose|k: int| is_first_same_card(cards@, *card, k);
                assert(k == i) by {
                    if k < i {
                        assert(!same_card(cards@[k], *card));
                    }
                    if k > i {
                        assert(!same_card(cards@[i as int], *card));
                    }
                }
            }
            return Some(i);
        }
        i = i + 1;
    }
    None
}

impl SelectUnselectMessage {
    /// The answer that picks or drops `card`: a card already picked is dropped by its position
    /// in `unselect_cards` counted after all of `select_cards`; otherwise a card is picked by
    /// its position in `select_cards`. No answer when neither list holds it.
    pub fn response_index_for(&self, card: &CardData) -> (r: Option<u32>)
        requires
            self.select_cards@.len() + self.unselect_cards@.len() <= usize::MAX,
        ensures
            r == response_index(self.select_cards@, self.unselect_cards@, *card),
    {
        if let Some(index) = find_same_card(&self.unselect_cards, card) {
            return Some(#[verifier::truncate] ((self.select_cards.len() + index) as u32));
        }
        match find_same_card(&self.select_cards, card) {
            Some(index) => Some(#[verifier::truncate] (index as u32)),
            None => None,
        }
    }

    /// The first card at `location` with sequence `index`, looking through `select_cards`
    /// and then `unselect_cards`.
    pub fn select_card_for(&self, location: CardLocation, index: u8) -> (r: Option<CardData>)
        ensures
            r == first_in_zone(self.select_cards@ + self.unselect_cards@, location, index),
    {
        let ghost all = self.select_cards@ + self.unselect_cards@;
        let n = self.select_cards.len();
        let m = self.unselect_cards.len();
        let mut i: usize = 0;
        while i < n
            invariant
                all == self.select_cards@ + self.unselect_cards@,
                n == self.select_cards@.len(),
                m == self.unselect_cards@.len(),
                i <= n,
                forall|j: int|
                    0 <= j < i ==> !(#[trigger] all[j].location == location && all[j].sequence
                        == index),
            decreases n - i,
        {
            let c = self.select_cards[i];
            assert(c == all[i as int]);
            if c.location == location && c.sequence == index {
                proof {
                    assert(is_first_in_zone(all, location, index, i as int));
                    let k = choose|k: int| is_first_in_zone(all, location, index, k);
                    assert(k == i) by {
                        if k < i {
                            assert(!(all[k].location == location && all[k].sequence == index));
                        }
                        if k > i {
                            assert(!(all[i as int].location == location && all[i as int].sequence
                                == index));
                        }
                    }
                }
                return Some(c);
            }
            i = i + 1;
        }
        let mut i: usize = 0;
        while i < m
            invariant
                all == self.select_cards@ + self.unselect_cards@,
                n == self.select_cards@.len(),
                m == self.unselect_cards@.len(),
                i <= m,
                forall|j: int|
                    0 <= j < n + i ==> !(#[trigger] all[j].location == location && all[j].sequence
                        == index),
            decreases m - i,
        {
            let c = self.unselect_cards[i];
            assert(c == all[n + i]);
            if c.location == location && c.sequence == index {
                proof {
                    let p = n + i;
                    assert(is_first_in_zone(all, location, index, p));
                    let k = choose|k: int| is_first_in_zone(all, location, index, k);
                    assert(k == p) by {
                        if k < p {
                            assert(!(all[k].location == location && all[k].sequence == index));
                        }
                        if k > p {
                            assert(!(all[p].location == location && all[p].sequence == index));
                        }
                    }
                }
                return Some(c);
            }
            i = i + 1;
        }
        None
    }
}

} // verus!
