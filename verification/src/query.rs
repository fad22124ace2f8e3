//! Decoding the engine's answers to location queries.
use crate::bytes::{get_u16_le, get_u32_le, le_u16, le_u32};
use crate::constants::{BattlePosition, CardController, CardLocation};
use crate::data::{CardData, CardType, CARD_TYPE_KNOWN_BITS};
use vstd::prelude::*;

verus! {

/// Query flag of a field holding the card code.
pub const QUERY_CODE: u32 = 0x1;

/// Query flag of the field that closes a card's record.
pub const QUERY_END: u32 = 0x8000_0000;

/// The card code found in the fields of one record, starting with the field whose flag is at
/// `offset` and whose length (flag included) is `curr`; `found` is the code seen so far.
/// Each field is a four-byte flag and `curr - 4` value bytes; a code field with at least four
/// value bytes gives the code. A field whose value runs past the buffer, or a closing field,
/// ends the record; otherwise the next field's two-byte length follows. Gives where the scan
/// stopped and the code, or none when the value's end cannot be computed in a `usize`.
pub open spec fn spec_scan_record(s: Seq<u8>, offset: int, curr: int, found: Option<u32>) -> Option<
    (int, Option<u32>),
>
    decreases s.len() - offset,
{
    if offset < 0 || offset + 4 > s.len() {
        Some((offset, found))
    } else {
        let flag = le_u32(s, offset);
        let o1 = offset + 4;
        let value_size = if curr >= 4 {
            curr - 4
        } else {
            0
        };
        if o1 + value_size > usize::MAX {
            None
        } else if o1 + value_size > s.len() {
            Some((o1, found))
        } else {
            let f2 = if flag == QUERY_CODE && value_size >= 4 {
                Some(le_u32(s, o1))
            } else {
                found
            };
            let o2 = o1 + value_size;
            if flag == QUERY_END || o2 + 2 > s.len() {
                Some((o2, f2))
            } else {
                spec_scan_record(s, o2 + 2, le_u16(s, o2) as int, f2)
            }
        }
    }
}

/// The scan of a record never ends before it starts.
pub proof fn lemma_scan_record_advances(s: Seq<u8>, offset: int, curr: int, found: Option<u32>)
    requires
        spec_scan_record(s, offset, curr, found) is Some,
    ensures
        spec_scan_record(s, offset, curr, found)->Some_0.0 >= offset,
        0 <= offset <= s.len() ==> spec_scan_record(s, offset, curr, found)->Some_0.0 <= s.len(),
    decreases s.len() - offset,
{
    if !(offset < 0 || offset + 4 > s.len()) {
        let flag = le_u32(s, offset);
        let o1 = offset + 4;
        let value_size = if curr >= 4 {
            curr - 4
        } else {
            0
        };
        if !(o1 + value_size > s.len()) {
            let f2 = if flag == QUERY_CODE && value_size >= 4 {
                Some(le_u32(s, o1))
            } else {
                found
            };
            let o2 = o1 + value_size;
            if !(flag == QUERY_END || o2 + 2 > s.len()) {
                lemma_scan_record_advances(s, o2 + 2, le_u16(s, o2) as int, f2);
            }
        }
    }
}

/// The length of a record's first field: the two bytes read as a signed number and widened to
/// a `usize`, so that a negative length becomes a huge one.
pub open spec fn first_field_length(raw: u16) -> int {
    if raw < 0x8000 {
        raw as int
    } else {
        usize::MAX + 1 - 65536 + raw
    }
}

/// The codes of the records from `offset` on: each record starts with a two-byte length; a
/// zero length is an empty slot (code 0); any other record gives the code its fields hold, or
/// 0. None when a record's value end cannot be computed in a `usize`.
pub open spec fn spec_codes_from(s: Seq<u8>, offset: int) -> Option<Seq<u32>>
    decreases s.len() - offset,
{
    if offset < 0 || offset + 2 > s.len() {
        Some(Seq::empty())
    } else {
        let raw = le_u16(s, offset);
        if raw == 0 {
            match spec_codes_from(s, offset + 2) {
                Some(rest) => Some(seq![0u32] + rest),
                None => None,
            }
        } else {
            match spec_scan_record(s, offset + 2, first_field_length(raw), None) {
                None => None,
                Some((next, found)) => {
                    proof {
                        lemma_scan_record_advances(s, offset + 2, first_field_length(raw), None);
                    }
                    match spec_codes_from(s, next) {
                        Some(rest) => Some(
                            seq![
                                match found {
                                    Some(c) => c,
                                    None => 0u32,
                                },
                            ] + rest,
                        ),
                        None => None,
                    }
                },
            }
        }
    }
}

/// The codes of a location query's answer: the records start after a four-byte header when
/// the answer has at least four bytes.
pub open spec fn spec_location_codes(s: Seq<u8>) -> Option<Seq<u32>> {
    spec_codes_from(
        s,
        if s.len() >= 4 {
            4
        } else {
            0
        },
    )
}

/// Scans the fields of one record, as [`spec_scan_record`] says.
fn scan_record(data: &[u8], start: usize, first_len: usize) -> (r: Option<(usize, Option<u32>)>)
    ensures
        match r {
            Some((o, f)) => spec_scan_record(data@, start as int, first_len as int, None) == Some(
                (o as int, f),
            ),
            None => spec_scan_record(data@, start as int, first_len as int, None) is None,
        },
{
    let len = data.len();
    let mut offset = start;
    let mut curr = first_len;
    let mut found: Option<u32> = None;
    loop
        invariant
            len == data@.len(),
            spec_scan_record(data@, start as int, first_len as int, None) == spec_scan_record(
                data@,
                offset as int,
                curr as int,
                found,
            ),
        decreases len - offset,
    {
        if offset > len || len - offset < 4 {
            return Some((offset, found));
        }
        let flag = get_u32_le(data, offset);
        let o1 = offset + 4;
        let value_size = if curr >= 4 {
            curr - 4
        } else {
            0
        };
        if value_size > usize::MAX - o1 {
            return None;
        }
        if o1 + value_size > len {
            return Some((o1, found));
        }
        if flag == QUERY_CODE && value_size >= 4 {
            found = Some(get_u32_le(data, o1));
        }
        let o2 = o1 + value_size;
        if flag == QUERY_END || o2 > len || len - o2 < 2 {
            return Some((o2, found));
        }
        curr = get_u16_le(data, o2) as usize;
        offset = o2 + 2;
    }
}

/// Scans the records of a location query's answer; none when a record's value end would
/// not fit in a `usize`.
fn scan_location_codes(data: &[u8]) -> (r: Option<Vec<u32>>)
    ensures
        match r {
            Some(v) => spec_location_codes(data@) == Some(v@),
            None => spec_location_codes(data@) is None,
        },
{
    let len = data.len();
    let mut codes: Vec<u32> = Vec::new();
    let mut offset: usize = if len >= 4 {
        4
    } else {
        0
    };
    let ghost target = spec_location_codes(data@);
    while offset <= len && len - offset >= 2
        invariant
            len == data@.len(),
            target == spec_location_codes(data@),
            target == match spec_codes_from(data@, offset as int) {
                Some(rest) => Some(codes@ + rest),
                None => None,
            },
        decreases len - offset,
    {
        let raw = get_u16_le(data, offset);
        if raw == 0 {
            codes.push(0);
            proof {
                let rest = spec_codes_from(data@, offset + 2);
                if rest is Some {
                    assert(codes@ + rest->Some_0 =~= codes@.drop_last() + (seq![0u32]
                        + rest->Some_0));
                }
            }
            offset = offset + 2;
        } else {
            let curr: usize = if raw < 0x8000 {
                raw as usize
            } else {
                usize::MAX - (65535 - raw as usize)
            };
            assert(curr as int == first_field_length(raw));
            match scan_record(data, offset + 2, curr) {
                None => {
                    return None;
                },
                Some((next, found)) => {
                    let code = match found {
                        Some(c) => c,
                        None => 0,
                    };
                    codes.push(code);
                    proof {
                        lemma_scan_record_advances(data@, offset + 2, curr as int, None);
                        let rest = spec_codes_from(data@, next as int);
                        if rest is Some {
                            assert(codes@ + rest->Some_0 =~= codes@.drop_last() + (seq![code]
                                + rest->Some_0));
                        }
                    }
                    offset = next;
                },
            }
        }
    }
    proof {
        assert(codes@ + Seq::<u32>::empty() =~= codes@);
    }
    Some(codes)
}

/// Whether [`query_location_codes`] may be called on `data`: no record's value end
/// overflows a `usize`.
pub fn can_query_location_codes(data: &[u8]) -> (b: bool)
    ensures
        b == spec_location_codes(data@) is Some,
{
    scan_location_codes(data).is_some()
}

/// The card codes of a location query's answer, one per slot (0 for an empty slot or a
/// record without a code).
pub fn query_location_codes(data: &[u8]) -> (codes: Vec<u32>)
    requires
        spec_location_codes(data@) is Some,
    ensures
        Some(codes@) == spec_location_codes(data@),
{
    match scan_location_codes(data) {
        Some(codes) => codes,
        None => Vec::new(),
    }
}

/// Query flag of a field holding the battle position.
pub const QUERY_POSITION: u32 = 0x2;

/// Query flag of a field holding the card-type bits.
pub const QUERY_TYPE: u32 = 0x8;

/// Query flag of a field holding the level.
pub const QUERY_LEVEL: u32 = 0x10;

/// Query flag of a field holding the attack.
pub const QUERY_ATTACK: u32 = 0x100;

/// Query flag of a field holding the defense.
pub const QUERY_DEFENSE: u32 = 0x200;

/// What the fields of a card's record said so far.
#[derive(Debug, Clone, Copy, PartialEq, Eq, Structural)]
pub struct QueriedFields {
    pub code: u32,
    pub type_bits: u32,
    pub position: Option<BattlePosition>,
    pub level: Option<u32>,
    pub attack: Option<u32>,
    pub defense: Option<u32>,
}

/// Nothing said yet: code 0, no type bit, no position, level, attack or defense.
pub open spec fn no_fields() -> QueriedFields {
    QueriedFields {
        code: 0,
        type_bits: 0,
        position: None,
        level: None,
        attack: None,
        defense: None,
    }
}

/// What a field with flag `flag` and four value bytes `value` adds, when those bytes lie in
/// the payload (`has_value`); other fields add nothing.
pub open spec fn apply_field(f: QueriedFields, flag: u32, has_value: bool, value: u32) -> QueriedFields {
    if !has_value {
        f
    } else if flag == QUERY_CODE {
        QueriedFields { code: value, ..f }
    } else if flag == QUERY_POSITION {
        QueriedFields {
            position: match BattlePosition::from_code(value) {
                Ok(p) => Some(p),
                Err(_) => None,
            },
            ..f
        }
    } else if flag == QUERY_TYPE {
        QueriedFields { type_bits: value & CARD_TYPE_KNOWN_BITS, ..f }
    } else if flag == QUERY_LEVEL {
        QueriedFields { level: Some(value), ..f }
    } else if flag == QUERY_ATTACK {
        QueriedFields { attack: Some(value), ..f }
    } else if flag == QUERY_DEFENSE {
        QueriedFields { defense: Some(value), ..f }
    } else {
        f
    }
}

/// The record whose next field starts at `p[cursor..]`: each field is a two-byte length
/// (at least 4, the field inside `p`), a four-byte flag and the value; the closing field
/// ends the record. Gives the end of the closing field and what the fields said, or none when
/// the record is malformed: a field too short or past the end, a field ending at or past the
/// end of `p` without closing the record, or an empty slot marker right after a field.
pub open spec fn spec_card_record(p: Seq<u8>, cursor: int, f: QueriedFields) -> Option<
    (int, QueriedFields),
>
    decreases p.len() - cursor,
{
    if cursor < 0 || cursor + 2 > p.len() {
        None
    } else {
        let length = le_u16(p, cursor) as int;
        let record_end = cursor + 2 + length;
        if length < 4 || record_end > p.len() {
            None
        } else {
            let flag = le_u32(p, cursor + 2);
            if flag == QUERY_END {
                Some((record_end, f))
            } else {
                let has_value = cursor + 10 <= p.len();
                let f2 = apply_field(
                    f,
                    flag,
                    has_value,
                    if has_value {
                        le_u32(p, cursor + 6)
                    } else {
                        0
                    },
                );
                if record_end >= p.len() {
                    None
                } else if record_end + 2 <= p.len() && le_u16(p, record_end) == 0 {
                    None
                } else {
                    spec_card_record(p, record_end, f2)
                }
            }
        }
    }
}

/// A record ends past where it starts, and inside `p`.
pub proof fn lemma_card_record_advances(p: Seq<u8>, cursor: int, f: QueriedFields)
    requires
        spec_card_record(p, cursor, f) is Some,
    ensures
        spec_card_record(p, cursor, f)->Some_0.0 > cursor,
        spec_card_record(p, cursor, f)->Some_0.0 <= p.len(),
    decreases p.len() - cursor,
{
    let length = le_u16(p, cursor) as int;
    let record_end = cursor + 2 + length;
    let flag = le_u32(p, cursor + 2);
    if flag != QUERY_END {
        let has_value = cursor + 10 <= p.len();
        let f2 = apply_field(
            f,
            flag,
            has_value,
            if has_value {
                le_u32(p, cursor + 6)
            } else {
                0
            },
        );
        lemma_card_record_advances(p, record_end, f2);
    }
}

/// The card a closed record describes: a card of the player at `location` with sequence
/// `sequence`.
pub open spec fn queried_card(f: QueriedFields, location: CardLocation, sequence: u8) -> CardData {
    CardData {
        action_index: None,
        card_code: f.code,
        controller: CardController::Player,
        location,
        position: f.position,
        sequence,
        description: None,
        is_selected: false,
        level: f.level,
        attack: f.attack,
        defense: f.defense,
        card_type: CardType { bits: f.type_bits },
        link_rating: None,
    }
}

/// The slots of the payload from `cursor` on, the next card getting sequence `sequence`: a
/// two-byte zero is an empty slot, anything else a card's record. None when the payload is
/// malformed, or when a slot gets the sequence 255 (the byte counting the slots would then
/// overflow).
pub open spec fn spec_cards_from(
    p: Seq<u8>,
    cursor: int,
    sequence: u8,
    location: CardLocation,
) -> Option<Seq<Option<CardData>>>
    decreases p.len() - cursor,
{
    if cursor < 0 || cursor >= p.len() {
        Some(Seq::empty())
    } else if cursor + 2 <= p.len() && le_u16(p, cursor) == 0 {
        if sequence == 255 {
            None
        } else {
            match spec_cards_from(p, cursor + 2, (sequence + 1) as u8, location) {
                Some(rest) => Some(seq![None] + rest),
                None => None,
            }
        }
    } else if cursor + 6 > p.len() {
        None
    } else {
        match spec_card_record(p, cursor, no_fields()) {
            None => None,
            Some((end, f)) => if sequence == 255 {
                None
            } else {
                proof {
                    lemma_card_record_advances(p, cursor, no_fields());
                }
                match spec_cards_from(p, end, (sequence + 1) as u8, location) {
                    Some(rest) => Some(seq![Some(queried_card(f, location, sequence))] + rest),
                    None => None,
                }
            },
        }
    }
}

/// The cards of a location query's answer for `location`: a four-byte payload length, then
/// the payload. An answer too short for its header or its payload lists no card. None when
/// the payload is malformed.
pub open spec fn spec_location_cards(s: Seq<u8>, location: CardLocation) -> Option<
    Seq<Option<CardData>>,
> {
    if s.len() < 4 {
        Some(Seq::empty())
    } else if le_u32(s, 0) + 4 > usize::MAX {
        None
    } else if le_u32(s, 0) + 4 > s.len() {
        Some(Seq::empty())
    } else {
        spec_cards_from(s.subrange(4, 4 + le_u32(s, 0)), 0, 0, location)
    }
}

/// Reads one card's record, as [`spec_card_record`] says.
fn read_card_record(p: &[u8], start: usize) -> (r: Option<(usize, QueriedFields)>)
    ensures
        match r {
            Some((end, f)) => spec_card_record(p@, start as int, no_fields()) == Some(
                (end as int, f),
            ),
            None => spec_card_record(p@, start as int, no_fields()) is None,
        },
{
    let len = p.len();
    let mut cursor = start;
    let mut f = QueriedFields {
        code: 0,
        type_bits: 0,
        position: None,
        level: None,
        attack: None,
        defense: None,
    };
    loop
        invariant
            len == p@.len(),
            spec_card_record(p@, start as int, no_fields()) == spec_card_record(
                p@,
                cursor as int,
                f,
            ),
        decreases len - cursor,
    {
        if cursor > len || len - cursor < 2 {
            return None;
        }
        let length = get_u16_le(p, cursor) as usize;
        if length < 4 || length > len - cursor - 2 {
            return None;
        }
        let record_end = cursor + 2 + length;
        let flag = get_u32_le(p, cursor + 2);
        if flag == QUERY_END {
            return Some((record_end, f));
        }
        let has_value = len - cursor >= 10;
        let value = if has_value {
            get_u32_le(p, cursor + 6)
        } else {
            0
        };
        if has_value {
            if flag == QUERY_CODE {
                f = QueriedFields { code: value, ..f };
            } else if flag == QUERY_POSITION {
                f = QueriedFields {
                    position: match BattlePosition::try_from(value) {
                        Ok(pos) => Some(pos),
                        Err(_) => None,
                    },
                    ..f
                };
            } else if flag == QUERY_TYPE {
                f = QueriedFields { type_bits: value & CARD_TYPE_KNOWN_BITS, ..f };
            } else if flag == QUERY_LEVEL {
                f = QueriedFields { level: Some(value), ..f };
            } else if flag == QUERY_ATTACK {
                f = QueriedFields { attack: Some(value), ..f };
            } else if flag == QUERY_DEFENSE {
                f = QueriedFields { defense: Some(value), ..f };
            }
        }
        if record_end >= len {
            return None;
        }
        if len - record_end >= 2 && get_u16_le(p, record_end) == 0 {
            return None;
        }
        cursor = record_end;
    }
}

/// Decodes the payload's slots, as [`spec_cards_from`] says from its start.
fn scan_location_cards(p: &[u8], location: CardLocation) -> (r: Option<Vec<Option<CardData>>>)
    ensures
        match r {
            Some(v) => spec_cards_from(p@, 0, 0, location) == Some(v@),
            None => spec_cards_from(p@, 0, 0, location) is None,
        },
{
    let len = p.len();
    let mut cards: Vec<Option<CardData>> = Vec::new();
    let mut current_sequence: u8 = 0;
    let mut cursor: usize = 0;
    while cursor < len
        invariant
            len == p@.len(),
            spec_cards_from(p@, 0, 0, location) == match spec_cards_from(
                p@,
                cursor as int,
                current_sequence,
                location,
            ) {
                Some(rest) => Some(cards@ + rest),
                None => None,
            },
        decreases len - cursor,
    {
        if len - cursor >= 2 && get_u16_le(p, cursor) == 0 {
            if current_sequence == 255 {
                return None;
            }
            cards.push(None);
            proof {
                let rest = spec_cards_from(p@, cursor + 2, (current_sequence + 1) as u8, location);
                if rest is Some {
                    assert(cards@ + rest->Some_0 =~= cards@.drop_last() + (seq![None]
                        + rest->Some_0));
                }
            }
            current_sequence = current_sequence + 1;
            cursor = cursor + 2;
        } else {
            if len - cursor < 6 {
                return None;
            }
            match read_card_record(p, cursor) {
                None => {
                    return None;
                },
                Some((end, f)) => {
                    if current_sequence == 255 {
                        return None;
                    }
                    let card = CardData {
                        action_index: None,
                        card_code: f.code,
                        controller: CardController::Player,
                        location,
                        position: f.position,
                        sequence: current_sequence,
                        description: None,
                        is_selected: false,
                        level: f.level,
                        attack: f.attack,
                        defense: f.defense,
                        card_type: CardType { bits: f.type_bits },
                        link_rating: None,
                    };
                    cards.push(Some(card));
                    proof {
                        lemma_card_record_advances(p@, cursor as int, no_fields());
                        let rest = spec_cards_from(
                            p@,
                            end as int,
                            (current_sequence + 1) as u8,
                            location,
                        );
                        if rest is Some {
                            assert(cards@ + rest->Some_0 =~= cards@.drop_last() + (seq![Some(card)]
                                + rest->Some_0));
                        }
                    }
                    current_sequence = current_sequence + 1;
                    cursor = end;
                },
            }
        }
    }
    proof {
        assert(cards@ + Seq::<Option<CardData>>::empty() =~= cards@);
    }
    Some(cards)
}

/// Decodes a location query's answer, as [`spec_location_cards`] says.
fn scan_query_answer(buffer: &[u8], location: CardLocation) -> (r: Option<Vec<Option<CardData>>>)
    ensures
        match r {
            Some(v) => spec_location_cards(buffer@, location) == Some(v@),
            None => spec_location_cards(buffer@, location) is None,
        },
{
    let len = buffer.len();
    if len < 4 {
        return Some(Vec::new());
    }
    let payload_len = get_u32_le(buffer, 0) as usize;
    if payload_len > usize::MAX - 4 {
        return None;
    }
    if payload_len + 4 > len {
        return Some(Vec::new());
    }
    let payload = &buffer[4..4 + payload_len];
    scan_location_cards(payload, location)
}

/// Whether [`location_cards`] may be called on `buffer`: its payload is well formed.
pub fn can_read_location_cards(buffer: &[u8], location: CardLocation) -> (b: bool)
    ensures
        b == spec_location_cards(buffer@, location) is Some,
{
    scan_query_answer(buffer, location).is_some()
}

/// The slots of `location` in the engine's answer to a full query of it: an empty slot, or
/// the card whose record fills it, numbered from 0.
pub fn location_cards(buffer: &[u8], location: CardLocation) -> (cards: Vec<Option<CardData>>)
    requires
        spec_location_cards(buffer@, location) is Some,
    ensures
        Some(cards@) == spec_location_cards(buffer@, location),
{
    match scan_query_answer(buffer, location) {
        Some(cards) => cards,
        None => Vec::new(),
    }
}


proof fn lemma_cards_from_numbered(p: Seq<u8>, cursor: int, sequence: u8, location: CardLocation)
    ensures
        spec_cards_from(p, cursor, sequence, location) matches Some(r) ==> forall|i: int|
            0 <= i < r.len() ==> (#[trigger] r[i] matches Some(c) ==> c.sequence == sequence + i
                && c.location == location && c.controller == CardController::Player),
    decreases p.len() - cursor,
{
    if cursor < 0 || cursor >= p.len() {
    } else if cursor + 2 <= p.len() && le_u16(p, cursor) == 0 {
        if sequence != 255 {
            lemma_cards_from_numbered(p, cursor + 2, (sequence + 1) as u8, location);
        }
    } else if cursor + 6 > p.len() {
    } else {
        match spec_card_record(p, cursor, no_fields()) {
            None => {},
            Some((end, f)) => if sequence != 255 {
                lemma_card_record_advances(p, cursor, no_fields());
                lemma_cards_from_numbered(p, end, (sequence + 1) as u8, location);
            },
        }
    }
}

/// The slots of a location's answer are numbered in order from 0, and each card in them is
/// the player's card at that location.
pub proof fn lemma_location_cards_numbered(s: Seq<u8>, location: CardLocation)
    ensures
        spec_location_cards(s, location) matches Some(r) ==> forall|i: int|
            0 <= i < r.len() ==> (#[trigger] r[i] matches Some(c) ==> c.sequence == i
                && c.location == location && c.controller == CardController::Player),
{
    if s.len() >= 4 && le_u32(s, 0) + 4 <= s.len() {
        lemma_cards_from_numbered(s.subrange(4, 4 + le_u32(s, 0)), 0, 0, location);
    }
}


/// Each field of a card's record sets the one property its flag names, to its value, and
/// leaves every other property as the earlier fields set it: the code field the code, the
/// position field the position (none for a value that names no position), the type field
/// the known type bits, and the level, attack and defense fields their own property. A
/// field with any other flag, or whose value lies past the payload, changes nothing.
pub proof fn lemma_field_sets_its_own_property(f: QueriedFields, flag: u32, value: u32)
    ensures
        ({
            let g = apply_field(f, flag, true, value);
            &&& g.code == (if flag == QUERY_CODE { value } else { f.code })
            &&& g.position == (if flag == QUERY_POSITION {
                match BattlePosition::from_code(value) {
                    Ok(p) => Some(p),
                    Err(_) => None,
                }
            } else {
                f.position
            })
            &&& g.type_bits == (if flag == QUERY_TYPE {
                value & CARD_TYPE_KNOWN_BITS
            } else {
                f.type_bits
            })
            &&& g.level == (if flag == QUERY_LEVEL { Some(value) } else { f.level })
            &&& g.attack == (if flag == QUERY_ATTACK { Some(value) } else { f.attack })
            &&& g.defense == (if flag == QUERY_DEFENSE { Some(value) } else { f.defense })
        }),
        apply_field(f, flag, false, value) == f,
{
}

/// The card a record describes carries what its fields said: the code, the position, the
/// level, the attack and the defense as set, the type bits as set; it lies at the queried
/// location with the slot's sequence and belongs to the player.
pub proof fn lemma_queried_card_carries_fields(f: QueriedFields, location: CardLocation, sequence: u8)
    ensures
        queried_card(f, location, sequence).card_code == f.code,
        queried_card(f, location, sequence).position == f.position,
        queried_card(f, location, sequence).level == f.level,
        queried_card(f, location, sequence).attack == f.attack,
        queried_card(f, location, sequence).defense == f.defense,
        queried_card(f, location, sequence).card_type.bits == f.type_bits,
        queried_card(f, location, sequence).location == location,
        queried_card(f, location, sequence).sequence == sequence,
        queried_card(f, location, sequence).controller == CardController::Player,
{
}

} // verus!
