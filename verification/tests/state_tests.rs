use tensho::constants::{CardController, CardLocation, DuelStatus};
use tensho::data::{CardData, CardType};
use tensho::messages::select_chain::SelectChainMessageData;
use tensho::messages::select_effect_yes_no::SelectEffectYNMessageData;
use tensho::messages::select_yes_no::SelectYesNoMessageData;
use tensho::messages::CoreMessage;
use tensho::response::UserResponse;
use tensho::state::{run_game_loop_step, DuelState, FieldSnapshot, LoopStep};

fn card(code: u32, action_index: Option<u8>) -> CardData {
    CardData {
        action_index,
        card_code: code,
        controller: CardController::Player,
        location: CardLocation::Hand,
        position: None,
        sequence: 0,
        description: None,
        is_selected: false,
        level: None,
        attack: None,
        defense: None,
        card_type: CardType { bits: 0 },
        link_rating: None,
    }
}

fn field(deck: u32) -> FieldSnapshot {
    FieldSnapshot {
        main_deck_length: deck,
        extra_deck: vec![None],
        monsters: vec![Some(card(1, None))],
        spell_traps: vec![],
        hand: vec![Some(card(2, None)), Some(card(3, None))],
        graveyard: vec![],
    }
}

#[test]
fn loop_steps() {
    assert_eq!(run_game_loop_step(DuelStatus::Continue), LoopStep::ProcessAgain);
    assert_eq!(run_game_loop_step(DuelStatus::Awaiting), LoopStep::HandleMessage);
    assert_eq!(run_game_loop_step(DuelStatus::End), LoopStep::Stop);
}

#[test]
fn new_state_is_empty_and_processes() {
    let s = DuelState::new(7);
    assert_eq!(s.duel, 7);
    assert!(s.should_process());
    assert!(s.hand_contents.is_empty());
    assert!(s.activatable_effects.is_empty());
}

#[test]
fn empty_chain_is_passed_at_once() {
    let mut s = DuelState::new(1);
    s.show_graveyard = true;
    let chain = SelectChainMessageData { player: 0, effects: vec![] };
    let bytes = s.handle_core_message(CoreMessage::SelectChain(chain), None, field(30));
    assert_eq!(bytes, Some(vec![255, 255, 255, 255]));
    assert!(!s.waiting_on_input);
    assert!(!s.show_graveyard);
    assert_eq!(s.main_deck_length, 30);
    assert_eq!(s.hand_contents.len(), 2);
    assert_eq!(s.monsters.len(), 1);
}

#[test]
fn chain_prompt_waits_and_right_click_passes() {
    let mut s = DuelState::new(1);
    let chain = SelectChainMessageData { player: 0, effects: vec![card(9, Some(0))] };
    let bytes = s.handle_core_message(CoreMessage::SelectChain(chain), None, field(30));
    assert_eq!(bytes, None);
    assert!(s.waiting_on_input);
    assert!(!s.should_process());
    assert_eq!(s.card_prompting_to_activate, vec![card(9, Some(0))]);
    let answer = s.handle_right_click();
    assert_eq!(answer, Some(vec![255, 255, 255, 255]));
    assert!(s.card_prompting_to_activate.is_empty());
    assert!(!s.waiting_on_input);
    assert!(s.hand_contents.is_empty());
    assert_eq!(s.main_deck_length, 30);
}

#[test]
fn effect_prompt_right_click_says_no() {
    let mut s = DuelState::new(1);
    let effect = SelectEffectYNMessageData {
        player: 0,
        card_code: 5,
        controller: CardController::Player,
        location: CardLocation::MonsterZone,
        sequence: 2,
    };
    s.handle_core_message(CoreMessage::SelectEffectYN(effect), None, field(10));
    let mut expected = card(5, None);
    expected.location = CardLocation::MonsterZone;
    expected.sequence = 2;
    assert_eq!(s.card_prompting_to_activate, vec![expected]);
    assert!(s.waiting_on_input);
    assert_eq!(s.handle_right_click(), Some(vec![0, 0, 0, 0]));
}

#[test]
fn question_uses_label_or_fallback() {
    let mut s = DuelState::new(1);
    let q = SelectYesNoMessageData { player: 0, card_code: 5, string_index: 1 };
    s.handle_core_message(CoreMessage::SelectYesNo(q), Some(String::from("Draw 1?")), field(1));
    assert_eq!(s.yes_no_question, Some(String::from("Draw 1?")));
    assert!(!s.waiting_on_input);
    s.handle_core_message(CoreMessage::SelectYesNo(q), None, field(1));
    assert_eq!(s.yes_no_question, Some(String::from("undefined label")));
    assert_eq!(s.handle_right_click(), Some(vec![0, 0, 0, 0]));
    assert_eq!(s.yes_no_question, None);
}

#[test]
fn right_click_with_nothing_pending_closes_graveyard() {
    let mut s = DuelState::new(1);
    s.show_graveyard = true;
    s.hand_contents = vec![None];
    assert_eq!(s.handle_right_click(), None);
    assert!(!s.show_graveyard);
    assert_eq!(s.hand_contents, vec![None]);
}

#[test]
fn left_click_drops_selection() {
    let mut s = DuelState::new(1);
    s.selected_card = Some(card(4, None));
    s.handle_left_click();
    assert_eq!(s.selected_card, None);
}

#[test]
fn answering_clears_offers() {
    let mut s = DuelState::new(1);
    s.waiting_on_input = true;
    s.selectables = vec![card(1, None)];
    s.graveyard = vec![None];
    let bytes = s.send_user_response(UserResponse::Activate { index: 3 });
    assert_eq!(bytes, vec![5, 0, 3, 0]);
    assert!(s.selectables.is_empty());
    assert!(!s.waiting_on_input);
    assert_eq!(s.graveyard, vec![None]);
}

#[test]
fn reset_only_for_another_duel() {
    let mut s = DuelState::new(1);
    s.main_deck_length = 40;
    s.show_extra_deck = true;
    assert!(!s.reset(1));
    assert_eq!(s.main_deck_length, 40);
    assert!(s.reset(2));
    assert_eq!(s.duel, 2);
    assert_eq!(s.main_deck_length, 0);
    assert!(s.show_extra_deck);
}
