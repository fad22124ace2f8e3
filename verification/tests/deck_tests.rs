use tensho::constants::{CardController, CardLocation, CardOwner};
use tensho::deck::{
    cards_to_add, deck_card_ids, duel_setup_cards, extra_deck, loaded_card_ids,
    lookup_static_card, main_deck, new_card_info, shuffled_main_deck, unique_card_ids,
    NewCardInfo, StaticCard,
};

#[test]
fn preset_decks() {
    let main = main_deck();
    let extra = extra_deck();
    assert_eq!(main.len(), 40);
    assert_eq!(extra.len(), 15);
    assert_eq!(main[0], 66431519);
    assert_eq!(main[39], 40366667);
    assert_eq!(extra[0], 94259633);
    assert_eq!(extra[14], 64182380);
}

#[test]
fn static_card_lookup() {
    assert_eq!(
        lookup_static_card(2526224),
        Some(StaticCard { type_: 33, atk: 2400, def: 200, level: 8, race: 16384, attribute: 4 })
    );
    assert_eq!(
        lookup_static_card(14558128),
        Some(StaticCard { type_: 4129, atk: 0, def: 1800, level: 3, race: 16, attribute: 4 })
    );
    assert_eq!(lookup_static_card(28332834), None);
    assert_eq!(lookup_static_card(0), None);
}

#[test]
fn unique_ids_are_sorted_and_distinct() {
    let ids = unique_card_ids(&vec![5, 3, 5, 9, 3, 1]);
    assert_eq!(ids, vec![1, 3, 5, 9]);
    assert!(unique_card_ids(&vec![]).is_empty());
}

#[test]
fn deck_ids_cover_both_decks() {
    let ids = deck_card_ids();
    for w in ids.windows(2) {
        assert!(w[0] < w[1]);
    }
    for id in main_deck().iter().chain(extra_deck().iter()) {
        assert!(ids.contains(id));
    }
    assert_eq!(ids.len(), 28);
}

#[test]
fn loaded_ids_keep_known_cards() {
    let loaded = loaded_card_ids(&vec![14558128, 2526224, 1, 97268402]);
    assert_eq!(loaded, vec![14558128, 2526224, 97268402]);
    let all = loaded_card_ids(&deck_card_ids());
    assert_eq!(all, deck_card_ids());
}

#[test]
fn cards_are_added_last_first() {
    let deck = vec![1, 2, 3, 2, 4];
    assert_eq!(cards_to_add(&deck, &vec![2, 4]), vec![4, 2, 2]);
    assert_eq!(cards_to_add(&deck, &vec![1, 2, 3, 4]), vec![4, 2, 3, 2, 1]);
    assert!(cards_to_add(&deck, &vec![]).is_empty());
}

#[test]
fn shuffled_deck_keeps_cards() {
    let mut shuffled = shuffled_main_deck();
    let mut listed = main_deck();
    assert_eq!(shuffled.len(), 40);
    // Forty cards coming back in list order would take odds far below one in 10^30.
    assert_ne!(shuffled, listed);
    shuffled.sort();
    listed.sort();
    assert_eq!(shuffled, listed);
}

#[test]
fn new_card_record() {
    let info = new_card_info(
        CardOwner::_Opponent,
        77,
        CardController::Player,
        CardLocation::ExtraDeck,
        3,
        8,
    );
    assert_eq!(info, NewCardInfo { team: 0, duelist: 1, code: 77, con: 0, loc: 64, seq: 3, pos: 8 });
}

#[test]
fn duel_setup_lists_main_then_extra() {
    let cards = duel_setup_cards(&vec![10, 20]);
    assert_eq!(cards.len(), 17);
    assert_eq!(cards[0], NewCardInfo { team: 0, duelist: 0, code: 10, con: 0, loc: 1, seq: 0, pos: 0 });
    assert_eq!(cards[1].code, 20);
    assert_eq!(
        cards[2],
        NewCardInfo { team: 0, duelist: 0, code: 94259633, con: 0, loc: 64, seq: 0, pos: 0 }
    );
    assert_eq!(cards[16].code, 64182380);
}

#[test]
fn whole_preset_deck_goes_in() {
    let loaded = loaded_card_ids(&deck_card_ids());
    let main = cards_to_add(&main_deck(), &loaded);
    let extra = cards_to_add(&extra_deck(), &loaded);
    assert_eq!(main.len(), 40);
    assert_eq!(extra.len(), 15);
    let mut reversed = main_deck();
    reversed.reverse();
    assert_eq!(main, reversed);
    assert_eq!(main.iter().filter(|c| **c == 14558128).count(), 3);
}
