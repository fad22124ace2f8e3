use tensho::bytes::{read_u32, read_u64, read_u8};
use tensho::constants::{BattlePosition, CardController, CardLocation, CardOwner, DuelStatus};
use tensho::custom_hand::{parse_u32, CustomHand};
use tensho::data::{CardData, CardType};
use tensho::error::ParseError;
use tensho::data::HandCard;
use tensho::hand::{can_normal_summon, get_raw_hand, hand_card_layout, HandCardLayout};
use tensho::memory::CorePointer;
use tensho::ocgcore::{
    get_deck_count, get_extra_deck_count, poll_messages, query_hand, send_response_u32,
};
use tensho::query::{
    can_query_location_codes, can_read_location_cards, location_cards, query_location_codes,
};
use tensho::response::{Response, UserResponse};

#[test]
fn location_codes_round_trip() {
    let all = [
        CardLocation::Deck,
        CardLocation::Hand,
        CardLocation::MonsterZone,
        CardLocation::SpellTrapZone,
        CardLocation::Graveyard,
        CardLocation::Banishment,
        CardLocation::ExtraDeck,
    ];
    for l in all {
        assert_eq!(CardLocation::try_from(l.code()), Ok(l));
    }
    assert_eq!(CardLocation::Graveyard.code(), 16);
    assert_eq!(CardLocation::try_from(3u8), Err(ParseError::InvalidLocation { value: 3 }));
    assert_eq!(CardLocation::ExtraDeck.to_display_string(), "Extra Deck");
    assert_eq!(CardLocation::Graveyard.to_display_string(), "GY");
    assert_eq!(CardLocation::SpellTrapZone.to_display_string(), "Spell/Trap Zone");
}

#[test]
fn owner_controller_position_status_codes() {
    assert_eq!(CardOwner::try_from(1u8), Ok(CardOwner::_Opponent));
    assert_eq!(CardOwner::try_from(2u8), Err(ParseError::InvalidOwner { value: 2 }));
    assert_eq!(CardController::try_from(0u8), Ok(CardController::Player));
    assert_eq!(CardController::try_from(5u8), Err(ParseError::InvalidController { value: 5 }));
    assert_eq!(CardController::default(), CardController::Player);
    assert_eq!(BattlePosition::try_from(8u32), Ok(BattlePosition::FaceDownDefense));
    assert_eq!(BattlePosition::try_from(10u8), Ok(BattlePosition::FaceDown));
    assert_eq!(BattlePosition::try_from(3u32), Err(ParseError::InvalidPosition { value: 3 }));
    assert_eq!(BattlePosition::FaceUpDefense.code(), 4);
    assert_eq!(BattlePosition::FaceDownAttack.to_display_string(), "Face-down Attack Position");
    assert_eq!(DuelStatus::try_from(1i32), Ok(DuelStatus::Awaiting));
    assert_eq!(DuelStatus::try_from(2u32), Ok(DuelStatus::Continue));
    assert_eq!(DuelStatus::try_from(-1i32), Err(ParseError::InvalidDuelStatus { value: -1 }));
}

#[test]
fn card_type_bits() {
    assert_eq!(CardType::from_bits_truncate(0xFFFF_FFFF).bits(), 0x7FF_FFF7);
    assert_eq!(CardType::from_bits_truncate(0x21).bits(), 0x21);
    assert_eq!(CardType::empty().bits(), 0);
    assert_eq!(CardType::default().bits(), 0);
}

#[test]
fn byte_readers_advance_or_report() {
    let raw = [1u8, 2, 3, 4, 5, 6, 7, 8, 9];
    let mut cursor = 0usize;
    assert_eq!(read_u8(&raw, &mut cursor), Ok(1));
    assert_eq!(cursor, 1);
    assert_eq!(read_u32(&raw, &mut cursor), Ok(0x05040302));
    assert_eq!(cursor, 5);
    assert_eq!(read_u64(&raw, &mut cursor), Err(ParseError::Missing { offset: 5 }));
    assert_eq!(cursor, 5);
    let mut start = 1usize;
    assert_eq!(read_u64(&raw, &mut start), Ok(0x0908070605040302));
    assert_eq!(start, 9);
    assert_eq!(read_u8(&raw, &mut start), Err(ParseError::Missing { offset: 9 }));
}

#[test]
fn response_bytes() {
    assert_eq!(Response::Yes.get_response_bytes(), vec![1, 0, 0, 0]);
    assert_eq!(Response::PassPriority.get_response_bytes(), vec![255, 255, 255, 255]);
    assert_eq!(Response::SetMonster { index: 2 }.get_response_bytes(), vec![3, 0, 2, 0]);
    assert_eq!(Response::SetSpellTrap { index: 1 }.get_response_bytes(), vec![4, 0, 1, 0]);
    assert_eq!(
        Response::SelectCard { indices: vec![1, 2] }.get_response_bytes(),
        vec![2, 0, 0, 0, 2, 0, 0, 0, 1, 2]
    );
    assert_eq!(Response::SortCard { indices: vec![3, 1] }.get_response_bytes(), vec![3, 1]);
    assert_eq!(
        Response::SelectUnselectCard { index: 258 }.get_response_bytes(),
        vec![1, 0, 0, 0, 2, 1, 0, 0]
    );
    assert_eq!(
        Response::Place { controller: 0, location: 4, index: 2 }.get_response_bytes(),
        vec![0, 4, 2]
    );
    assert_eq!(
        Response::SelectPosition { position: BattlePosition::FaceDownDefense }.get_response_bytes(),
        vec![8, 0, 0, 0]
    );
    assert_eq!(
        Response::SelectTributes { tributes: vec![0] }.get_response_bytes(),
        vec![2, 0, 0, 0, 1, 0, 0, 0, 0]
    );
    assert_eq!(UserResponse::SelectCard { index: 4 }.get_response_bytes(), vec![2, 0, 0, 0, 1, 0, 0, 0, 4]);
    assert_eq!(UserResponse::NormalSummon { index: 1 }.get_response_bytes(), vec![0, 0, 1, 0]);
    assert_eq!(UserResponse::Chain { index: 2 }.get_response_bytes(), vec![2, 0, 0, 0]);
}

#[test]
fn numeric_answer_round_trips() {
    let bytes = send_response_u32(0x0102_0304);
    assert_eq!(bytes, vec![4, 3, 2, 1]);
    let mut cursor = 0usize;
    assert_eq!(read_u32(&bytes, &mut cursor), Ok(0x0102_0304));
    for x in [0u32, 1, 255, 256, 65535, 1 << 24, u32::MAX] {
        let mut c = 0usize;
        assert_eq!(read_u32(&send_response_u32(x), &mut c), Ok(x));
    }
}

fn hand_query() -> Vec<u8> {
    let mut b: Vec<u8> = vec![0, 0, 0, 0];
    b.extend_from_slice(&8i16.to_le_bytes());
    b.extend_from_slice(&1u32.to_le_bytes());
    b.extend_from_slice(&1234u32.to_le_bytes());
    b.extend_from_slice(&4u16.to_le_bytes());
    b.extend_from_slice(&0x8000_0000u32.to_le_bytes());
    b.extend_from_slice(&0i16.to_le_bytes());
    b
}

#[test]
fn location_codes_and_hand_texts() {
    let b = hand_query();
    assert!(can_query_location_codes(&b));
    assert_eq!(query_location_codes(&b), vec![1234, 0]);
    assert_eq!(query_hand(&b), vec![String::from("1234"), String::from("0")]);
    assert!(query_hand(&[]).is_empty());
}

#[test]
fn hand_texts_parse_back() {
    let texts = query_hand(&hand_query());
    let joined = texts.join(",");
    assert_eq!(CustomHand::try_from(joined), Ok(CustomHand(vec![1234, 0])));
}

fn field_answer(payload: &[u8]) -> Vec<u8> {
    let mut b = (payload.len() as u32).to_le_bytes().to_vec();
    b.extend_from_slice(payload);
    b
}

#[test]
fn location_cards_reads_slots() {
    let mut p: Vec<u8> = vec![0, 0];
    for (flag, value) in [(1u32, 1234u32), (2, 1), (0x10, 4), (0x100, 1800), (0x8, 0x21)] {
        p.extend_from_slice(&8u16.to_le_bytes());
        p.extend_from_slice(&flag.to_le_bytes());
        p.extend_from_slice(&value.to_le_bytes());
    }
    p.extend_from_slice(&4u16.to_le_bytes());
    p.extend_from_slice(&0x8000_0000u32.to_le_bytes());
    let b = field_answer(&p);
    assert!(can_read_location_cards(&b, CardLocation::MonsterZone));
    let cards = location_cards(&b, CardLocation::MonsterZone);
    let expected = CardData {
        action_index: None,
        card_code: 1234,
        controller: CardController::Player,
        location: CardLocation::MonsterZone,
        position: Some(BattlePosition::FaceUpAttack),
        sequence: 1,
        description: None,
        is_selected: false,
        level: Some(4),
        attack: Some(1800),
        defense: None,
        card_type: CardType { bits: 0x21 },
        link_rating: None,
    };
    assert_eq!(cards, vec![None, Some(expected)]);
}

#[test]
fn location_cards_short_or_malformed() {
    assert!(location_cards(&[1, 2], CardLocation::Hand).is_empty());
    assert!(location_cards(&field_answer(&[]), CardLocation::Hand).is_empty());
    let mut p: Vec<u8> = Vec::new();
    p.extend_from_slice(&8u16.to_le_bytes());
    p.extend_from_slice(&1u32.to_le_bytes());
    p.extend_from_slice(&1234u32.to_le_bytes());
    assert!(!can_read_location_cards(&field_answer(&p), CardLocation::Hand));
    let mut q = p.clone();
    q.extend_from_slice(&[0, 0]);
    assert!(!can_read_location_cards(&field_answer(&q), CardLocation::Hand));
}

#[test]
fn message_frames() {
    let data = [2u8, 0, 0, 0, 9, 8, 1, 0, 0, 0, 7, 5, 0, 0, 0, 1];
    assert_eq!(poll_messages(&data), vec![vec![9, 8], vec![7]]);
    assert!(poll_messages(&[1, 0]).is_empty());
    assert_eq!(poll_messages(&[0, 0, 0, 0]), vec![Vec::<u8>::new()]);
}

#[test]
fn deck_counts_default_to_zero() {
    assert_eq!(get_deck_count(Ok(40)), 40);
    assert_eq!(get_deck_count(Err(String::from("no engine"))), 0);
    assert_eq!(get_extra_deck_count(Ok(15)), 15);
    assert_eq!(get_extra_deck_count(Err(String::new())), 0);
}

#[test]
fn custom_hand_parsing() {
    assert_eq!(CustomHand::try_from(String::from("1,22,+3")), Ok(CustomHand(vec![1, 22, 3])));
    assert_eq!(CustomHand::try_from(String::from("4294967295")), Ok(CustomHand(vec![u32::MAX])));
    assert_eq!(CustomHand::try_from(String::from("4294967296")), Err(ParseError::NumberOverflow));
    assert_eq!(CustomHand::try_from(String::from("1,,2")), Err(ParseError::EmptyNumber));
    assert_eq!(CustomHand::try_from(String::from("")), Err(ParseError::EmptyNumber));
    assert_eq!(CustomHand::try_from(String::from("1,x")), Err(ParseError::InvalidDigit));
    assert_eq!(CustomHand::try_from(String::from("-1")), Err(ParseError::InvalidDigit));
    assert_eq!(CustomHand::try_from(String::from("+")), Err(ParseError::InvalidDigit));
    assert_eq!(parse_u32(&"0042".chars().collect()), Ok(42));
}

#[test]
fn hand_fan_layout() {
    assert_eq!(hand_card_layout(0, 5, -1), HandCardLayout { rotation: -4, translate_y: 4, z_index: 0 });
    assert_eq!(hand_card_layout(4, 5, -1), HandCardLayout { rotation: 4, translate_y: 4, z_index: 0 });
    assert_eq!(hand_card_layout(2, 5, -1), HandCardLayout { rotation: 0, translate_y: 0, z_index: 0 });
    assert_eq!(hand_card_layout(1, 4, -1), HandCardLayout { rotation: -1, translate_y: 0, z_index: 0 });
    assert_eq!(hand_card_layout(3, 5, 3), HandCardLayout { rotation: 0, translate_y: -25, z_index: 100 });
    assert_eq!(hand_card_layout(0, 23171, -1).translate_y, 134_212_225);
}

#[test]
fn normal_summon_button() {
    let available = vec![111, 222];
    assert!(can_normal_summon(&String::from("222"), &available));
    assert!(!can_normal_summon(&String::from("333"), &available));
    assert!(!can_normal_summon(&String::from("abc"), &available));
    assert!(can_normal_summon(&String::from("abc"), &vec![0]));
}

#[test]
fn core_pointer_offsets() {
    let p = CorePointer::new(0x1000);
    assert_eq!(u32::from(p.offset_by(4)), 0x1004);
    assert_eq!(u32::from(p.offset_by(0)), 0x1000);
    assert_eq!(usize::from(p.offset_by(4).offset_by(8)), 0x100C);
}

#[test]
fn raw_hand_numbers_slots() {
    let mut a = CardData {
        action_index: None,
        card_code: 7,
        controller: CardController::Player,
        location: CardLocation::Hand,
        position: None,
        sequence: 0,
        description: None,
        is_selected: false,
        level: None,
        attack: None,
        defense: None,
        card_type: CardType { bits: 0 },
        link_rating: None,
    };
    let first = a;
    a.card_code = 9;
    a.sequence = 1;
    let hand = get_raw_hand(&vec![Some(first), Some(a)]);
    let plain = |index: usize, code: u32| HandCard {
        index,
        code,
        is_activatable_or_chainable: false,
        activate_index: None,
        chain_index: None,
        normal_summon_index: None,
        monster_set_index: None,
        spell_trap_set_index: None,
    };
    assert_eq!(hand, vec![plain(0, 7), plain(1, 9)]);
    assert!(get_raw_hand(&vec![]).is_empty());
}

#[test]
fn negative_field_length_is_refused() {
    let mut b: Vec<u8> = vec![0, 0, 0, 0];
    b.extend_from_slice(&(-4i16).to_le_bytes());
    b.extend_from_slice(&1u32.to_le_bytes());
    assert!(!can_query_location_codes(&b));
}
