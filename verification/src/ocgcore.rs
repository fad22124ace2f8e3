//! What the client makes of the engine's raw answers: the codes in the hand, the size of
//! a deck, the framing of the message buffer, and the encoding of a plain answer.
use crate::bytes::{get_u32_le, le_u32};
use crate::query::{query_location_codes, spec_location_codes};
use crate::response::{le_bytes_u32, push_le_u32};
use crate::scripts::names_of;
use crate::text::{decimal, decimal_string};
use vstd::prelude::*;

verus! {

/// The codes of the cards in a location query's answer, each written in decimal.
pub open spec fn hand_code_texts(data: Seq<u8>) -> Seq<Seq<char>> {
    spec_location_codes(data)->Some_0.map_values(|c: u32| decimal(c as nat))
}

/// The codes of the cards in the hand, written in decimal, from the engine's answer
/// `data` to a full query of the hand (one per slot, "0" for an empty slot).
pub fn query_hand(data: &[u8]) -> (codes: Vec<String>)
    requires
        spec_location_codes(data@) is Some,
    ensures
        names_of(codes@) == hand_code_texts(data@),
{
    let raw = query_location_codes(data);
    let mut codes: Vec<String> = Vec::new();
    let mut i: usize = 0;
    while i < raw.len()
        invariant
            i <= raw.len(),
            Some(raw@) == spec_location_codes(data@),
            names_of(codes@) == raw@.take(i as int).map_values(|c: u32| decimal(c as nat)),
        decreases raw.len() - i,
    {
        let ghost before = names_of(codes@);
        let text = decimal_string(raw[i]);
        codes.push(text);
        proof {
            assert(names_of(codes@) =~= before.push(text@));
            assert(raw@.take(i + 1) =~= raw@.take(i as int).push(raw@[i as int]));
            assert(names_of(codes@) =~= raw@.take(i + 1).map_values(
                |c: u32| decimal(c as nat),
            ));
        }
        i = i + 1;
    }
    proof {
        assert(raw@.take(raw.len() as int) =~= raw@);
    }
    codes
}

/// The number of cards in the player's deck from the engine's count query: the count it
/// gave, or 0 when the query failed.
pub fn get_deck_count(queried: Result<u32, String>) -> (n: u32)
    ensures
        n == (match queried {
            Ok(c) => c,
            Err(_) => 0,
        }),
{
    match queried {
        Ok(c) => c,
        Err(_) => 0,
    }
}

/// The number of cards in the player's extra deck from the engine's count query: the
/// count it gave, or 0 when the query failed.
pub fn get_extra_deck_count(queried: Result<u32, String>) -> (n: u32)
    ensures
        n == (match queried {
            Ok(c) => c,
            Err(_) => 0,
        }),
{
    match queried {
        Ok(c) => c,
        Err(_) => 0,
    }
}

/// The bytes of a plain numeric answer: `value` in four little-endian bytes.
pub fn send_response_u32(value: u32) -> (bytes: Vec<u8>)
    ensures
        bytes@ == le_bytes_u32(value),
{
    let mut bytes: Vec<u8> = Vec::new();
    push_le_u32(&mut bytes, value);
    proof {
        assert(bytes@ =~= le_bytes_u32(value));
    }
    bytes
}

/// The messages packed in the engine's buffer `s` from `offset` on: each is a
/// little-endian 32-bit length followed by that many bytes. The unpacking stops at a
/// length that does not fit, or at a message that does not fit.
pub open spec fn message_frames(s: Seq<u8>, offset: int) -> Seq<Seq<u8>>
    decreases s.len() - offset,
{
    if offset < 0 || offset + 4 > s.len() {
        Seq::empty()
    } else {
        let start = offset + 4;
        let end = start + le_u32(s, offset);
        if end > s.len() {
            Seq::empty()
        } else {
            seq![s.subrange(start, end)] + message_frames(s, end)
        }
    }
}

/// The messages packed in the engine's buffer `data`, in order (see [`message_frames`]).
pub fn poll_messages(data: &[u8]) -> (messages: Vec<Vec<u8>>)
    ensures
        messages@.map_values(|m: Vec<u8>| m@) == message_frames(data@, 0),
{
    let mut messages: Vec<Vec<u8>> = Vec::new();
    let mut offset: usize = 0;
    while offset <= data.len() && 4 <= data.len() - offset
        invariant
            offset <= data.len(),
            messages@.map_values(|m: Vec<u8>| m@) + message_frames(data@, offset as int)
                == message_frames(data@, 0),
        decreases data.len() - offset,
    {
        let size = get_u32_le(data, offset) as usize;
        let start = offset + 4;
        if size > data.len() - start {
            proof {
                assert(message_frames(data@, offset as int) == Seq::<Seq<u8>>::empty());
                assert(messages@.map_values(|m: Vec<u8>| m@) + Seq::<Seq<u8>>::empty()
                    =~= messages@.map_values(|m: Vec<u8>| m@));
            }
            return messages;
        }
        let end = start + size;
        let mut frame: Vec<u8> = Vec::new();
        let mut i: usize = start;
        while i < end
            invariant
                start <= i <= end <= data.len(),
                frame@ == data@.subrange(start as int, i as int),
            decreases end - i,
        {
            frame.push(data[i]);
            i = i + 1;
            proof {
                assert(frame@ =~= data@.subrange(start as int, i as int));
            }
        }
        let ghost before = messages@.map_values(|m: Vec<u8>| m@);
        messages.push(frame);
        proof {
            assert(messages@.map_values(|m: Vec<u8>| m@) =~= before.push(
                data@.subrange(start as int, end as int),
            ));
            assert(message_frames(data@, offset as int) == seq![
                data@.subrange(start as int, end as int),
            ] + message_frames(data@, end as int));
            assert(before + message_frames(data@, offset as int) =~= before.push(
                data@.subrange(start as int, end as int),
            ) + message_frames(data@, end as int));
        }
        offset = end;
    }
    proof {
        assert(message_frames(data@, offset as int) == Seq::<Seq<u8>>::empty());
        assert(messages@.map_values(|m: Vec<u8>| m@) + Seq::<Seq<u8>>::empty()
            =~= messages@.map_values(|m: Vec<u8>| m@));
    }
    messages
}

} // verus!
