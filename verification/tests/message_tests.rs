use tensho::actions::AvailableActions;
use tensho::constants::{BattlePosition, CardController, CardLocation};
use tensho::data::{CardData, CardType, Zone};
use tensho::error::ParseError;
use tensho::messages::announce_number::AnnounceNumberMessageData;
use tensho::messages::draw::DrawMessageData;
use tensho::messages::select_card::SelectCardMessage;
use tensho::messages::select_chain::SelectChainMessageData;
use tensho::messages::select_effect_yes_no::SelectEffectYNMessageData;
use tensho::messages::select_option::{SelectOption, SelectOptionMessageData};
use tensho::messages::select_place::SelectPlaceMessageData;
use tensho::messages::select_position::SelectPositionMessageData;
use tensho::messages::select_tribute::SelectTributeMessageData;
use tensho::messages::select_unselect_card::SelectUnselectMessage;
use tensho::messages::select_yes_no::{
    card_code_of_description, string_index_of_description, SelectYesNoMessageData,
};
use tensho::messages::sort_card::SortCardMessageData;
use tensho::messages::CoreMessage;

fn card(
    code: u32,
    controller: CardController,
    location: CardLocation,
    position: Option<BattlePosition>,
    sequence: u8,
    action_index: Option<u8>,
) -> CardData {
    CardData {
        action_index,
        card_code: code,
        controller,
        location,
        position,
        sequence,
        description: None,
        is_selected: false,
        level: None,
        attack: None,
        defense: None,
        card_type: CardType { bits: 0 },
        link_rating: None,
    }
}

fn header(kind: u8) -> Vec<u8> {
    vec![0, 0, 0, 0, kind]
}

fn decode(bytes: &[u8]) -> Result<CoreMessage, ParseError> {
    assert!(CoreMessage::is_well_formed(bytes));
    CoreMessage::try_from(bytes)
}

#[test]
fn yes_no_question_splits_description() {
    let mut b = header(13);
    b.push(1);
    let description: u64 = (12345u64 << 20) | 3;
    b.extend_from_slice(&description.to_le_bytes());
    let expected = SelectYesNoMessageData { player: 1, card_code: 12345, string_index: 3 };
    assert_eq!(decode(&b), Ok(CoreMessage::SelectYesNo(expected)));
    assert_eq!(card_code_of_description(description), 12345);
    assert_eq!(string_index_of_description(description), 3);
}

#[test]
fn effect_prompt_reads_card() {
    let mut b = header(12);
    b.push(0);
    b.extend_from_slice(&4242u32.to_le_bytes());
    b.extend_from_slice(&[1, 4, 2]);
    let expected = SelectEffectYNMessageData {
        player: 0,
        card_code: 4242,
        controller: CardController::_Opponent,
        location: CardLocation::MonsterZone,
        sequence: 2,
    };
    assert_eq!(decode(&b), Ok(CoreMessage::SelectEffectYN(expected)));
}

#[test]
fn effect_prompt_rejects_bad_controller() {
    let mut b = header(12);
    b.push(0);
    b.extend_from_slice(&4242u32.to_le_bytes());
    b.extend_from_slice(&[2, 4, 2]);
    assert_eq!(decode(&b), Err(ParseError::InvalidController { value: 2 }));
}

#[test]
fn effect_prompt_needs_known_location() {
    let mut b = header(12);
    b.push(0);
    b.extend_from_slice(&4242u32.to_le_bytes());
    b.extend_from_slice(&[0, 3, 2]);
    assert!(!CoreMessage::is_well_formed(&b));
    assert!(!SelectEffectYNMessageData::is_well_formed(&b));
}

#[test]
fn position_mask_lists_allowed_positions() {
    let mut b = header(19);
    b.push(0);
    b.extend_from_slice(&777u32.to_le_bytes());
    b.push(0b0101);
    let expected = SelectPositionMessageData {
        player: 0,
        card_code: 777,
        positions: vec![BattlePosition::FaceUpAttack, BattlePosition::FaceUpDefense],
    };
    assert_eq!(decode(&b), Ok(CoreMessage::SelectPosition(expected)));
}

#[test]
fn place_mask_lists_free_zones() {
    let mut b = header(18);
    b.push(0);
    b.push(1);
    let mask: u32 = !((1u32 << 2) | (1u32 << 8) | (1u32 << 13));
    b.extend_from_slice(&mask.to_le_bytes());
    let expected = SelectPlaceMessageData {
        player: 0,
        count: 1,
        zones: vec![
            Zone { location: CardLocation::MonsterZone, sequence: 2 },
            Zone { location: CardLocation::SpellTrapZone, sequence: 0 },
            Zone { location: CardLocation::SpellTrapZone, sequence: 5 },
        ],
    };
    assert_eq!(decode(&b), Ok(CoreMessage::SelectPlace(expected)));
}

#[test]
fn place_with_every_zone_taken_offers_none() {
    let mut b = header(18);
    b.push(0);
    b.push(1);
    b.extend_from_slice(&u32::MAX.to_le_bytes());
    let decoded = SelectPlaceMessageData::try_from(&b).unwrap();
    assert!(decoded.zones.is_empty());
}

#[test]
fn options_with_and_without_card() {
    let mut b = header(14);
    b.push(0);
    b.push(2);
    b.extend_from_slice(&5u64.to_le_bytes());
    b.extend_from_slice(&((777u64 << 20) | 2).to_le_bytes());
    let expected = SelectOptionMessageData {
        player: 0,
        options: vec![
            SelectOption { card_code: None, string_index: None },
            SelectOption { card_code: Some(777), string_index: Some(2) },
        ],
    };
    assert_eq!(decode(&b), Ok(CoreMessage::SelectOption(expected)));
}

#[test]
fn announce_number_reads_each_slot() {
    let mut b = header(143);
    b.push(1);
    b.push(2);
    b.extend_from_slice(&3u64.to_le_bytes());
    b.extend_from_slice(&9u64.to_le_bytes());
    let expected = AnnounceNumberMessageData { player: 1, numbers: vec![3, 9] };
    assert_eq!(decode(&b), Ok(CoreMessage::AnnounceNumber(expected)));
}

#[test]
fn select_card_strips_material_flag() {
    let mut b = header(15);
    b.extend_from_slice(&[0, 0]);
    b.extend_from_slice(&1u32.to_le_bytes());
    b.extend_from_slice(&2u32.to_le_bytes());
    b.extend_from_slice(&1u32.to_le_bytes());
    b.extend_from_slice(&1000u32.to_le_bytes());
    b.extend_from_slice(&[1, 0x82, 3]);
    b.extend_from_slice(&[0; 7]);
    let expected = SelectCardMessage {
        min_select: 1,
        max_select: 2,
        cards: vec![card(1000, CardController::_Opponent, CardLocation::Hand, None, 3, None)],
    };
    assert_eq!(decode(&b), Ok(CoreMessage::SelectCard(expected)));
}

#[test]
fn select_card_count_must_fit() {
    let mut b = header(15);
    b.extend_from_slice(&[0, 0]);
    b.extend_from_slice(&1u32.to_le_bytes());
    b.extend_from_slice(&2u32.to_le_bytes());
    b.extend_from_slice(&5u32.to_le_bytes());
    assert!(!CoreMessage::is_well_formed(&b));
}

fn chain_message(entries: &[(u32, u8, u8, u8)], count: u32) -> Vec<u8> {
    let mut b = header(16);
    b.extend_from_slice(&[0, 1]);
    b.extend_from_slice(&[0; 9]);
    b.extend_from_slice(&count.to_le_bytes());
    for (code, controller, location, sequence) in entries {
        b.extend_from_slice(&code.to_le_bytes());
        b.extend_from_slice(&[*controller, *location, *sequence]);
        b.extend_from_slice(&[0; 16]);
    }
    b
}

#[test]
fn chain_lists_effects_with_their_index() {
    let b = chain_message(&[(11, 0, 2, 1), (22, 0, 8, 3)], 2);
    let expected = SelectChainMessageData {
        player: 1,
        effects: vec![
            card(11, CardController::Player, CardLocation::Hand, None, 1, Some(0)),
            card(22, CardController::Player, CardLocation::SpellTrapZone, None, 3, Some(1)),
        ],
    };
    assert_eq!(decode(&b), Ok(CoreMessage::SelectChain(expected)));
}

#[test]
fn chain_skips_entries_past_the_end() {
    let b = chain_message(&[(11, 0, 2, 1)], 3);
    let decoded = SelectChainMessageData::try_from(&b).unwrap();
    assert_eq!(decoded.effects.len(), 1);
}

#[test]
fn chain_with_no_effect() {
    let b = chain_message(&[], 0);
    let decoded = SelectChainMessageData::try_from(&b).unwrap();
    assert!(decoded.effects.is_empty());
}

#[test]
fn chain_rejects_bad_location() {
    let b = chain_message(&[(11, 0, 3, 1)], 1);
    assert_eq!(decode(&b), Err(ParseError::InvalidLocation { value: 3 }));
}

#[test]
fn tribute_candidates_are_numbered() {
    let mut b = header(20);
    b.extend_from_slice(&[0, 1]);
    b.extend_from_slice(&1u32.to_le_bytes());
    b.extend_from_slice(&2u32.to_le_bytes());
    b.extend_from_slice(&2u32.to_le_bytes());
    for (code, sequence) in [(5u32, 0u32), (6u32, 258u32)] {
        b.extend_from_slice(&code.to_le_bytes());
        b.extend_from_slice(&[0, 4]);
        b.extend_from_slice(&sequence.to_le_bytes());
        b.push(1);
    }
    let expected = SelectTributeMessageData {
        player: 0,
        is_cancelable: true,
        min_select: 1,
        max_select: 2,
        candidates: vec![
            card(5, CardController::Player, CardLocation::MonsterZone, None, 0, Some(0)),
            card(6, CardController::Player, CardLocation::MonsterZone, None, 2, Some(1)),
        ],
    };
    assert_eq!(decode(&b), Ok(CoreMessage::SelectTribute(expected)));
}

#[test]
fn sort_card_reads_blocks() {
    let mut b = header(25);
    b.push(0);
    b.extend_from_slice(&1u32.to_le_bytes());
    b.extend_from_slice(&99u32.to_le_bytes());
    b.extend_from_slice(&[0, 1, 7]);
    b.extend_from_slice(&[0; 6]);
    let expected = SortCardMessageData {
        player: 0,
        cards: vec![card(99, CardController::Player, CardLocation::Deck, None, 7, None)],
    };
    assert_eq!(decode(&b), Ok(CoreMessage::SortCard(expected)));
}

#[test]
fn draw_reads_cards_into_hand() {
    let mut b = header(90);
    b.push(0);
    b.extend_from_slice(&1u32.to_le_bytes());
    b.extend_from_slice(&55u32.to_le_bytes());
    b.extend_from_slice(&10u32.to_le_bytes());
    assert!(DrawMessageData::is_well_formed(&b));
    let decoded = DrawMessageData::try_from(&b).unwrap();
    assert_eq!(decoded.player, 0);
    assert_eq!(
        decoded.cards,
        vec![card(55, CardController::Player, CardLocation::Hand, Some(BattlePosition::FaceDown), 0, None)]
    );
}

#[test]
fn draw_rejects_unknown_position() {
    let mut b = header(90);
    b.push(0);
    b.extend_from_slice(&1u32.to_le_bytes());
    b.extend_from_slice(&55u32.to_le_bytes());
    b.extend_from_slice(&3u32.to_le_bytes());
    assert_eq!(DrawMessageData::try_from(&b), Err(ParseError::InvalidPosition { value: 3 }));
}

#[test]
fn retry_and_unknown_messages() {
    assert_eq!(decode(&header(1)), Ok(CoreMessage::Retry));
    assert_eq!(decode(&header(77)), Err(ParseError::UnknownMessage { found: 77 }));
}

fn idle_message() -> Vec<u8> {
    let mut body: Vec<u8> = vec![11, 0];
    body.extend_from_slice(&1u32.to_le_bytes());
    body.extend_from_slice(&111u32.to_le_bytes());
    body.extend_from_slice(&[0, 2]);
    body.extend_from_slice(&4u32.to_le_bytes());
    for _ in 0..4 {
        body.extend_from_slice(&0u32.to_le_bytes());
    }
    body.extend_from_slice(&1u32.to_le_bytes());
    body.extend_from_slice(&222u32.to_le_bytes());
    body.extend_from_slice(&[0, 8]);
    body.extend_from_slice(&1u32.to_le_bytes());
    body.extend_from_slice(&((222u64 << 20) | 5).to_le_bytes());
    body.push(0);
    body.extend_from_slice(&[1, 0, 1]);
    let mut b = (body.len() as u32).to_le_bytes().to_vec();
    b.extend_from_slice(&body);
    b
}

#[test]
fn idle_command_lists_actions() {
    let b = idle_message();
    let actions = AvailableActions::try_from(&b).unwrap();
    assert_eq!(actions.playerid, 0);
    assert_eq!(
        actions.get_normal_summons(),
        &vec![card(111, CardController::Player, CardLocation::Hand, None, 4, Some(0))]
    );
    assert!(actions.get_special_summons().is_empty());
    let mut effect = card(222, CardController::Player, CardLocation::SpellTrapZone, None, 1, Some(0));
    effect.description = Some(5);
    assert_eq!(actions.activatable_effects, vec![effect]);
    let by_position = actions.get_activatable_effects();
    assert_eq!(by_position.len(), 1);
    assert_eq!(by_position.get(&0), Some(&effect));
    assert!(actions.can_to_bp);
    assert!(!actions.can_to_ep);
    assert!(actions.can_shuffle);
    assert!(matches!(decode(&b), Ok(CoreMessage::Idle(_))));
}

#[test]
fn idle_command_without_prefix() {
    let b = idle_message();
    let unprefixed = &b[4..];
    let actions = AvailableActions::try_from(unprefixed).unwrap();
    assert_eq!(actions.normal_summons.len(), 1);
}

#[test]
fn idle_command_errors() {
    let mut b = idle_message();
    b[0] = b[0].wrapping_add(1);
    assert!(matches!(
        AvailableActions::try_from(&b),
        Err(ParseError::LengthMismatch { .. })
    ));
    assert_eq!(AvailableActions::try_from(&[11]), Err(ParseError::TooShort { length: 1 }));
    assert_eq!(
        AvailableActions::try_from(&[3, 0, 0]),
        Err(ParseError::UnexpectedMessage { expected: 11, found: 3 })
    );
    let mut big: Vec<u8> = vec![11, 0];
    big.extend_from_slice(&51u32.to_le_bytes());
    assert_eq!(AvailableActions::try_from(&big), Err(ParseError::CountTooLarge { count: 51 }));
    let truncated: Vec<u8> = vec![11, 0, 1, 0, 0, 0, 9];
    assert_eq!(AvailableActions::try_from(&truncated), Err(ParseError::Missing { offset: 6 }));
}

fn unselect_message() -> Vec<u8> {
    let mut b: Vec<u8> = vec![26, 0, 1, 0];
    b.extend_from_slice(&1u32.to_le_bytes());
    b.extend_from_slice(&1u32.to_le_bytes());
    b.extend_from_slice(&2u32.to_le_bytes());
    for (code, sequence) in [(10u32, 0u32), (20u32, 1u32)] {
        b.extend_from_slice(&code.to_le_bytes());
        b.extend_from_slice(&[0, 2]);
        b.extend_from_slice(&sequence.to_le_bytes());
        b.extend_from_slice(&0u32.to_le_bytes());
    }
    b.extend_from_slice(&1u32.to_le_bytes());
    b.extend_from_slice(&30u32.to_le_bytes());
    b.extend_from_slice(&[0, 4]);
    b.extend_from_slice(&3u32.to_le_bytes());
    b.extend_from_slice(&1u32.to_le_bytes());
    b
}

#[test]
fn select_unselect_lists_both_sides() {
    let m = SelectUnselectMessage::try_from(&unselect_message()).unwrap();
    assert!(m.finishable);
    assert!(!m.cancelable);
    assert_eq!(m.min_count, 1);
    assert_eq!(m.max_count, 1);
    assert_eq!(
        m.select_cards,
        vec![
            card(10, CardController::Player, CardLocation::Hand, None, 0, None),
            card(20, CardController::Player, CardLocation::Hand, None, 1, None),
        ]
    );
    let mut picked = card(
        30,
        CardController::Player,
        CardLocation::MonsterZone,
        Some(BattlePosition::FaceUpAttack),
        3,
        None,
    );
    picked.is_selected = true;
    assert_eq!(m.unselect_cards, vec![picked]);
    assert_eq!(m.response_index_for(&m.select_cards[1]), Some(1));
    assert_eq!(m.response_index_for(&picked), Some(2));
    let stranger = card(99, CardController::Player, CardLocation::Hand, None, 0, None);
    assert_eq!(m.response_index_for(&stranger), None);
    assert_eq!(m.select_card_for(CardLocation::Hand, 1), Some(m.select_cards[1]));
    assert_eq!(m.select_card_for(CardLocation::MonsterZone, 3), Some(picked));
    assert_eq!(m.select_card_for(CardLocation::Graveyard, 0), None);
}

#[test]
fn select_unselect_with_prefix_and_errors() {
    let body = unselect_message();
    let mut b = (body.len() as u32).to_le_bytes().to_vec();
    b.extend_from_slice(&body);
    assert!(matches!(decode(&b), Ok(CoreMessage::SelectUnselectCard(_))));
    b[0] = b[0].wrapping_add(1);
    assert!(matches!(
        SelectUnselectMessage::try_from(&b),
        Err(ParseError::LengthMismatch { .. })
    ));
    let mut big: Vec<u8> = vec![26, 0, 0, 0];
    big.extend_from_slice(&0u32.to_le_bytes());
    big.extend_from_slice(&0u32.to_le_bytes());
    big.extend_from_slice(&101u32.to_le_bytes());
    assert_eq!(
        SelectUnselectMessage::try_from(&big),
        Err(ParseError::CountTooLarge { count: 101 })
    );
    assert_eq!(
        SelectUnselectMessage::try_from(&[7, 0, 0, 0, 0]),
        Err(ParseError::UnexpectedMessage { expected: 26, found: 7 })
    );
}

#[test]
fn idle_prefix_leaves_parse_unchanged() {
    let b = idle_message();
    assert_eq!(AvailableActions::try_from(&b), AvailableActions::try_from(&b[4..]));
    let short: Vec<u8> = vec![11];
    let mut prefixed = 1u32.to_le_bytes().to_vec();
    prefixed.extend_from_slice(&short);
    assert!(AvailableActions::try_from(&short).is_err());
    assert!(AvailableActions::try_from(&prefixed).is_err());
}

#[test]
fn found_card_has_matching_answer() {
    let m = SelectUnselectMessage::try_from(&unselect_message()).unwrap();
    let all: Vec<CardData> = m.select_cards.iter().chain(m.unselect_cards.iter()).copied().collect();
    for (location, index) in [(CardLocation::Hand, 0u8), (CardLocation::Hand, 1), (CardLocation::MonsterZone, 3)] {
        let c = m.select_card_for(location, index).unwrap();
        let k = m.response_index_for(&c).unwrap() as usize;
        assert_eq!(all[k].location, c.location);
        assert_eq!(all[k].sequence, c.sequence);
        assert_eq!(all[k].card_code, c.card_code);
    }
}
