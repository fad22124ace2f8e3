//! The preset deck and the card data the client knows without asking a server.
use crate::constants::{CardController, CardLocation, CardOwner};
use rand::seq::SliceRandom;
use vstd::prelude::*;

verus! {

/// The preset main deck (a Fire King deck), in list order.
pub open spec fn spec_main_deck() -> Seq<u32> {
    seq![66431519, 66431519, 66431519, 23015896, 44455560, 44455560, 44455560, 90681088, 90681088, 90681088, 18621798, 2526224, 2526224, 2526224, 14558128, 14558128, 14558128, 97268402, 97268402, 97268402, 24508238, 33854624, 6637331, 65305978, 65305978, 65305978, 57554544, 91703676, 91703676, 84211599, 49238328, 49238328, 49238328, 24224830, 10045474, 10045474, 10045474, 40366667, 40366667, 40366667]
}

/// The preset extra deck, in list order.
pub open spec fn spec_extra_deck() -> Seq<u32> {
    seq![94259633, 60303245, 87871125, 2772337, 2772337, 2772337, 48815792, 48815792, 8264361, 29301450, 29301450, 93039339, 64182380, 64182380, 64182380]
}

/// The preset main deck, in list order.
pub fn main_deck() -> (v: Vec<u32>)
    ensures
        v@ == spec_main_deck(),
{
    let v = vec![66431519, 66431519, 66431519, 23015896, 44455560, 44455560, 44455560, 90681088, 90681088, 90681088, 18621798, 2526224, 2526224, 2526224, 14558128, 14558128, 14558128, 97268402, 97268402, 97268402, 24508238, 33854624, 6637331, 65305978, 65305978, 65305978, 57554544, 91703676, 91703676, 84211599, 49238328, 49238328, 49238328, 24224830, 10045474, 10045474, 10045474, 40366667, 40366667, 40366667];
    proof {
        assert(v@ =~= spec_main_deck());
    }
    v
}

/// The preset extra deck, in list order.
pub fn extra_deck() -> (v: Vec<u32>)
    ensures
        v@ == spec_extra_deck(),
{
    let v = vec![94259633, 60303245, 87871125, 2772337, 2772337, 2772337, 48815792, 48815792, 8264361, 29301450, 29301450, 93039339, 64182380, 64182380, 64182380];
    proof {
        assert(v@ =~= spec_extra_deck());
    }
    v
}

/// The data of a card the client knows by heart.
#[derive(Debug, Clone, Copy, PartialEq, Eq, Structural)]
pub struct StaticCard {
    pub type_: u32,
    pub atk: i32,
    pub def: i32,
    pub level: u32,
    pub race: u32,
    pub attribute: u32,
}

/// The built-in data of the card with code `id`, if the client has any.
pub open spec fn static_card(id: u32) -> Option<StaticCard> {
    match id {
        2526224 => Some(StaticCard { type_: 33, atk: 2400, def: 200, level: 8, race: 16384, attribute: 4 }),
        2772337 => Some(StaticCard { type_: 67108897, atk: 2700, def: 42, level: 3, race: 8, attribute: 4 }),
        6637331 => Some(StaticCard { type_: 33, atk: 2500, def: 2000, level: 6, race: 8192, attribute: 32 }),
        8264361 => Some(StaticCard { type_: 67108897, atk: 1850, def: 5, level: 2, race: 2, attribute: 32 }),
        10045474 => Some(StaticCard { type_: 4, atk: 0, def: 0, level: 0, race: 0, attribute: 0 }),
        14558127 => Some(StaticCard { type_: 4129, atk: 0, def: 1800, level: 3, race: 16, attribute: 4 }),
        14558128 => Some(StaticCard { type_: 4129, atk: 0, def: 1800, level: 3, race: 16, attribute: 4 }),
        18621798 => Some(StaticCard { type_: 33, atk: 1800, def: 200, level: 4, race: 32768, attribute: 4 }),
        23015896 => Some(StaticCard { type_: 33, atk: 2700, def: 1700, level: 8, race: 512, attribute: 4 }),
        24224830 => Some(StaticCard { type_: 65538, atk: 0, def: 0, level: 0, race: 0, attribute: 0 }),
        24508238 => Some(StaticCard { type_: 33, atk: 100, def: 100, level: 1, race: 512, attribute: 32 }),
        28332833 => Some(StaticCard { type_: 33, atk: 200, def: 200, level: 1, race: 128, attribute: 4 }),
        29301450 => Some(StaticCard { type_: 67108897, atk: 1600, def: 40, level: 2, race: 1, attribute: 32 }),
        33854624 => Some(StaticCard { type_: 33, atk: 2500, def: 2000, level: 6, race: 8192, attribute: 32 }),
        40366667 => Some(StaticCard { type_: 4, atk: 0, def: 0, level: 0, race: 0, attribute: 0 }),
        44455560 => Some(StaticCard { type_: 33, atk: 800, def: 2000, level: 4, race: 512, attribute: 4 }),
        48815792 => Some(StaticCard { type_: 67108897, atk: 1850, def: 5, level: 2, race: 2, attribute: 4 }),
        49238328 => Some(StaticCard { type_: 2, atk: 0, def: 0, level: 0, race: 0, attribute: 0 }),
        57554544 => Some(StaticCard { type_: 524290, atk: 0, def: 0, level: 0, race: 0, attribute: 0 }),
        60303245 => Some(StaticCard { type_: 67108897, atk: 0, def: 4, level: 1, race: 16777216, attribute: 4 }),
        64182380 => Some(StaticCard { type_: 8388641, atk: 3000, def: 2000, level: 8, race: 128, attribute: 4 }),
        65305978 => Some(StaticCard { type_: 131074, atk: 0, def: 0, level: 0, race: 0, attribute: 0 }),
        66431519 => Some(StaticCard { type_: 33, atk: 2700, def: 1700, level: 8, race: 512, attribute: 4 }),
        84211599 => Some(StaticCard { type_: 2, atk: 0, def: 0, level: 0, race: 0, attribute: 0 }),
        87871125 => Some(StaticCard { type_: 67108897, atk: 1800, def: 130, level: 2, race: 16777216, attribute: 4 }),
        90681088 => Some(StaticCard { type_: 33, atk: 500, def: 200, level: 1, race: 512, attribute: 4 }),
        91703676 => Some(StaticCard { type_: 65538, atk: 0, def: 0, level: 0, race: 0, attribute: 0 }),
        93039339 => Some(StaticCard { type_: 8388641, atk: 2900, def: 2900, level: 12, race: 8, attribute: 32 }),
        94259633 => Some(StaticCard { type_: 67108897, atk: 0, def: 128, level: 1, race: 2, attribute: 32 }),
        97268402 => Some(StaticCard { type_: 4129, atk: 0, def: 0, level: 1, race: 2, attribute: 16 }),
        _ => None,
    }
}

/// The built-in data of the card with code `id`, if the client has any.
pub fn lookup_static_card(id: u32) -> (card: Option<StaticCard>)
    ensures
        card == static_card(id),
{
    match id {
        2526224 => Some(StaticCard { type_: 33, atk: 2400, def: 200, level: 8, race: 16384, attribute: 4 }),
        2772337 => Some(StaticCard { type_: 67108897, atk: 2700, def: 42, level: 3, race: 8, attribute: 4 }),
        6637331 => Some(StaticCard { type_: 33, atk: 2500, def: 2000, level: 6, race: 8192, attribute: 32 }),
        8264361 => Some(StaticCard { type_: 67108897, atk: 1850, def: 5, level: 2, race: 2, attribute: 32 }),
        10045474 => Some(StaticCard { type_: 4, atk: 0, def: 0, level: 0, race: 0, attribute: 0 }),
        14558127 => Some(StaticCard { type_: 4129, atk: 0, def: 1800, level: 3, race: 16, attribute: 4 }),
        14558128 => Some(StaticCard { type_: 4129, atk: 0, def: 1800, level: 3, race: 16, attribute: 4 }),
        18621798 => Some(StaticCard { type_: 33, atk: 1800, def: 200, level: 4, race: 32768, attribute: 4 }),
        23015896 => Some(StaticCard { type_: 33, atk: 2700, def: 1700, level: 8, race: 512, attribute: 4 }),
        24224830 => Some(StaticCard { type_: 65538, atk: 0, def: 0, level: 0, race: 0, attribute: 0 }),
        24508238 => Some(StaticCard { type_: 33, atk: 100, def: 100, level: 1, race: 512, attribute: 32 }),
        28332833 => Some(StaticCard { type_: 33, atk: 200, def: 200, level: 1, race: 128, attribute: 4 }),
        29301450 => Some(StaticCard { type_: 67108897, atk: 1600, def: 40, level: 2, race: 1, attribute: 32 }),
        33854624 => Some(StaticCard { type_: 33, atk: 2500, def: 2000, level: 6, race: 8192, attribute: 32 }),
        40366667 => Some(StaticCard { type_: 4, atk: 0, def: 0, level: 0, race: 0, attribute: 0 }),
        44455560 => Some(StaticCard { type_: 33, atk: 800, def: 2000, level: 4, race: 512, attribute: 4 }),
        48815792 => Some(StaticCard { type_: 67108897, atk: 1850, def: 5, level: 2, race: 2, attribute: 4 }),
        49238328 => Some(StaticCard { type_: 2, atk: 0, def: 0, level: 0, race: 0, attribute: 0 }),
        57554544 => Some(StaticCard { type_: 524290, atk: 0, def: 0, level: 0, race: 0, attribute: 0 }),
        60303245 => Some(StaticCard { type_: 67108897, atk: 0, def: 4, level: 1, race: 16777216, attribute: 4 }),
        64182380 => Some(StaticCard { type_: 8388641, atk: 3000, def: 2000, level: 8, race: 128, attribute: 4 }),
        65305978 => Some(StaticCard { type_: 131074, atk: 0, def: 0, level: 0, race: 0, attribute: 0 }),
        66431519 => Some(StaticCard { type_: 33, atk: 2700, def: 1700, level: 8, race: 512, attribute: 4 }),
        84211599 => Some(StaticCard { type_: 2, atk: 0, def: 0, level: 0, race: 0, attribute: 0 }),
        87871125 => Some(StaticCard { type_: 67108897, atk: 1800, def: 130, level: 2, race: 16777216, attribute: 4 }),
        90681088 => Some(StaticCard { type_: 33, atk: 500, def: 200, level: 1, race: 512, attribute: 4 }),
        91703676 => Some(StaticCard { type_: 65538, atk: 0, def: 0, level: 0, race: 0, attribute: 0 }),
        93039339 => Some(StaticCard { type_: 8388641, atk: 2900, def: 2900, level: 12, race: 8, attribute: 32 }),
        94259633 => Some(StaticCard { type_: 67108897, atk: 0, def: 128, level: 1, race: 2, attribute: 32 }),
        97268402 => Some(StaticCard { type_: 4129, atk: 0, def: 0, level: 1, race: 2, attribute: 16 }),
        _ => None,
    }
}


/// Whether each element of `s` is smaller than the next.
pub open spec fn strictly_increasing(s: Seq<u32>) -> bool {
    forall|i: int, j: int| 0 <= i < j < s.len() ==> s[i] < s[j]
}

/// The first index of the increasing `ids` whose element is at least `x` (or the length).
fn lower_bound(ids: &Vec<u32>, x: u32) -> (p: usize)
    requires
        strictly_increasing(ids@),
    ensures
        p <= ids.len(),
        forall|i: int| 0 <= i < p ==> ids@[i] < x,
        forall|i: int| p <= i < ids.len() ==> x <= ids@[i],
{
    let mut p: usize = 0;
    while p < ids.len() && ids[p] < x
        invariant
            p <= ids.len(),
            strictly_increasing(ids@),
            forall|i: int| 0 <= i < p ==> ids@[i] < x,
        decreases ids.len() - p,
    {
        p = p + 1;
    }
    p
}

/// The distinct codes among `cards`, in increasing order.
pub fn unique_card_ids(cards: &Vec<u32>) -> (ids: Vec<u32>)
    ensures
        strictly_increasing(ids@),
        forall|x: u32| ids@.contains(x) <==> cards@.contains(x),
{
    let mut ids: Vec<u32> = Vec::new();
    let mut k: usize = 0;
    while k < cards.len()
        invariant
            k <= cards.len(),
            strictly_increasing(ids@),
            forall|x: u32| ids@.contains(x) <==> cards@.take(k as int).contains(x),
        decreases cards.len() - k,
    {
        let c = cards[k];
        let p = lower_bound(&ids, c);
        let ghost before = ids@;
        if p < ids.len() && ids[p] == c {
            proof {
                assert forall|x: u32| ids@.contains(x) <==> (before.contains(x) || x == c) by {
                    if x == c {
                        assert(ids@[p as int] == c);
                    }
                }
            }
        } else {
            ids.insert(p, c);
            proof {
                assert forall|i: int, j: int| 0 <= i < j < ids@.len() implies ids@[i]
                    < ids@[j] by {
                    if j < p {
                    } else if j == p {
                    } else if i < p {
                        assert(ids@[j] == before[j - 1]);
                    } else if i == p {
                        assert(ids@[j] == before[j - 1]);
                    } else {
                        assert(ids@[i] == before[i - 1]);
                        assert(ids@[j] == before[j - 1]);
                    }
                }
                assert forall|x: u32| ids@.contains(x) implies before.contains(x) || x == c by {
                    let i = choose|i: int| 0 <= i < ids@.len() && ids@[i] == x;
                    if i < p {
                        assert(before[i] == x);
                    } else if i > p {
                        assert(before[i - 1] == x);
                    }
                }
                assert forall|x: u32| before.contains(x) implies ids@.contains(x) by {
                    let i = choose|i: int| 0 <= i < before.len() && before[i] == x;
                    if i < p {
                        assert(ids@[i] == x);
                    } else {
                        assert(ids@[i + 1] == x);
                    }
                }
                assert(ids@[p as int] == c);
                assert forall|x: u32| ids@.contains(x) <==> (before.contains(x) || x == c) by {
                    if x == c {
                        assert(ids@[p as int] == c);
                    }
                }
            }
        }
        proof {
            let t0 = cards@.take(k as int);
            let t1 = cards@.take(k + 1);
            assert(t1 =~= t0.push(c));
            assert forall|x: u32| ids@.contains(x) <==> t1.contains(x) by {
                assert(before.contains(x) <==> t0.contains(x));
                if x == c {
                    assert(t1[k as int] == c);
                } else {
                    if t1.contains(x) {
                        let i = choose|i: int| 0 <= i < t1.len() && #[trigger] t1[i] == x;
                        assert(i < k);
                        assert(t0[i] == x);
                        assert(t0.contains(x));
                    }
                    if t0.contains(x) {
                        let i = choose|i: int| 0 <= i < t0.len() && #[trigger] t0[i] == x;
                        assert(t1[i] == x);
                    }
                }
            }
        }
        k = k + 1;
    }
    proof {
        assert(cards@.take(cards.len() as int) =~= cards@);
    }
    ids
}

/// Whether the client has built-in data for the card with code `id`.
pub open spec fn has_static_data(id: u32) -> bool {
    static_card(id) is Some
}

/// The codes among `ids` whose cards the client has data for, in order: the cards that
/// can be registered with the engine.
pub fn loaded_card_ids(ids: &Vec<u32>) -> (loaded: Vec<u32>)
    ensures
        loaded@ == ids@.filter(|id: u32| has_static_data(id)),
{
    let mut loaded: Vec<u32> = Vec::new();
    let mut k: usize = 0;
    while k < ids.len()
        invariant
            k <= ids.len(),
            loaded@ == ids@.take(k as int).filter(|id: u32| has_static_data(id)),
        decreases ids.len() - k,
    {
        proof {
            reveal(Seq::filter);
            assert(ids@.take(k + 1).drop_last() =~= ids@.take(k as int));
        }
        if lookup_static_card(ids[k]).is_some() {
            loaded.push(ids[k]);
        }
        k = k + 1;
    }
    proof {
        assert(ids@.take(ids.len() as int) =~= ids@);
    }
    loaded
}

/// The distinct codes of the preset main and extra decks, in increasing order.
pub fn deck_card_ids() -> (ids: Vec<u32>)
    ensures
        strictly_increasing(ids@),
        forall|x: u32| ids@.contains(x) <==> (spec_main_deck() + spec_extra_deck()).contains(x),
{
    let mut all = main_deck();
    let mut extra = extra_deck();
    all.append(&mut extra);
    unique_card_ids(&all)
}

fn contains_code(v: &Vec<u32>, x: u32) -> (b: bool)
    ensures
        b == v@.contains(x),
{
    let mut i: usize = 0;
    while i < v.len()
        invariant
            i <= v.len(),
            forall|j: int| 0 <= j < i ==> v@[j] != x,
        decreases v.len() - i,
    {
        if v[i] == x {
            return true;
        }
        i = i + 1;
    }
    false
}

/// The cards of `deck` whose codes are in `loaded`, last card first: the order in which
/// they are put into the duel, so that the first card of the list ends on top.
pub fn cards_to_add(deck: &Vec<u32>, loaded: &Vec<u32>) -> (cards: Vec<u32>)
    ensures
        cards@ == deck@.reverse().filter(|c: u32| loaded@.contains(c)),
{
    let mut cards: Vec<u32> = Vec::new();
    let mut k: usize = deck.len();
    while k > 0
        invariant
            k <= deck.len(),
            cards@ == deck@.subrange(k as int, deck.len() as int).reverse().filter(
                |c: u32| loaded@.contains(c),
            ),
        decreases k,
    {
        k = k - 1;
        proof {
            reveal(Seq::filter);
            let tail = deck@.subrange(k as int, deck.len() as int).reverse();
            assert(tail.drop_last() =~= deck@.subrange(k + 1, deck.len() as int).reverse());
            assert(tail.last() == deck@[k as int]);
        }
        if contains_code(loaded, deck[k]) {
            cards.push(deck[k]);
        }
    }
    proof {
        assert(deck@.subrange(0, deck.len() as int) =~= deck@);
    }
    cards
}

/// Puts `cards` in a random order, through rand's `SliceRandom::shuffle` with the
/// thread's generator. Trusted: the shuffle only swaps elements of the slice, so the same
/// cards come out, each as many times; which order comes out is left open.
#[verifier::external_body]
fn shuffle_cards(cards: &mut Vec<u32>)
    ensures
        final(cards)@.to_multiset() == old(cards)@.to_multiset(),
        final(cards)@.len() == old(cards)@.len(),
{
    cards.shuffle(&mut rand::rng());
}

/// The preset main deck in a random order: the same cards, each as many times.
pub fn shuffled_main_deck() -> (deck: Vec<u32>)
    ensures
        deck@.to_multiset() == spec_main_deck().to_multiset(),
        deck@.len() == spec_main_deck().len(),
{
    let mut deck = main_deck();
    shuffle_cards(&mut deck);
    deck
}

/// A card to put into a duel before it starts, field for field as the engine's
/// `OCG_NewCardInfo` holds it.
#[derive(Debug, Clone, Copy, PartialEq, Eq, Structural)]
pub struct NewCardInfo {
    pub team: u8,
    pub duelist: u8,
    pub code: u32,
    pub con: u8,
    pub loc: u32,
    pub seq: u32,
    pub pos: u32,
}

/// The record for a card of `owner` with code `code`, controlled by `controller`, put at
/// `location` and `index` in position `position`; the team field is always the first
/// team, and the owner goes in the duelist field.
pub open spec fn spec_new_card(
    owner: CardOwner,
    code: u32,
    controller: CardController,
    location: CardLocation,
    index: u32,
    position: u32,
) -> NewCardInfo {
    NewCardInfo {
        team: 0,
        duelist: owner.spec_code(),
        code,
        con: controller.spec_code(),
        loc: location.spec_code() as u32,
        seq: index,
        pos: position,
    }
}

/// Builds the record of [`spec_new_card`].
pub fn new_card_info(
    owner: CardOwner,
    code: u32,
    controller: CardController,
    location: CardLocation,
    index: u32,
    position: u32,
) -> (info: NewCardInfo)
    ensures
        info == spec_new_card(owner, code, controller, location, index, position),
{
    NewCardInfo {
        team: 0,
        duelist: owner.code(),
        code,
        con: controller.code(),
        loc: location.code() as u32,
        seq: index,
        pos: position,
    }
}

/// The player's card with code `code` put into `location`.
pub open spec fn player_card(code: u32, location: CardLocation) -> NewCardInfo {
    spec_new_card(CardOwner::Player, code, CardController::Player, location, 0, 0)
}

/// The cards a duel starts with: the player's main deck in the order given, into the
/// deck, then the preset extra deck in list order, into the extra deck.
pub open spec fn duel_start_cards(main: Seq<u32>) -> Seq<NewCardInfo> {
    main.map_values(|c: u32| player_card(c, CardLocation::Deck)) + spec_extra_deck().map_values(
        |c: u32| player_card(c, CardLocation::ExtraDeck),
    )
}

/// The records of [`duel_start_cards`] for the main deck `main`.
pub fn duel_setup_cards(main: &Vec<u32>) -> (cards: Vec<NewCardInfo>)
    ensures
        cards@ == duel_start_cards(main@),
{
    let mut cards: Vec<NewCardInfo> = Vec::new();
    let mut k: usize = 0;
    while k < main.len()
        invariant
            k <= main.len(),
            cards@ == main@.take(k as int).map_values(|c: u32| player_card(c, CardLocation::Deck)),
        decreases main.len() - k,
    {
        cards.push(
            new_card_info(
                CardOwner::Player,
                main[k],
                CardController::Player,
                CardLocation::Deck,
                0,
                0,
            ),
        );
        k = k + 1;
        proof {
            assert(cards@ =~= main@.take(k as int).map_values(
                |c: u32| player_card(c, CardLocation::Deck),
            ));
        }
    }
    let extra = extra_deck();
    let mut j: usize = 0;
    while j < extra.len()
        invariant
            j <= extra.len(),
            extra@ == spec_extra_deck(),
            cards@ == main@.map_values(|c: u32| player_card(c, CardLocation::Deck))
                + extra@.take(j as int).map_values(|c: u32| player_card(c, CardLocation::ExtraDeck)),
        decreases extra.len() - j,
    {
        proof {
            assert(main@.take(main.len() as int) =~= main@);
        }
        cards.push(
            new_card_info(
                CardOwner::Player,
                extra[j],
                CardController::Player,
                CardLocation::ExtraDeck,
                0,
                0,
            ),
        );
        j = j + 1;
        proof {
            assert(cards@ =~= main@.map_values(|c: u32| player_card(c, CardLocation::Deck))
                + extra@.take(j as int).map_values(
                |c: u32| player_card(c, CardLocation::ExtraDeck),
            ));
        }
    }
    proof {
        assert(main@.take(main.len() as int) =~= main@);
        assert(extra@.take(extra.len() as int) =~= extra@);
        assert(cards@ =~= duel_start_cards(main@));
    }
    cards
}


/// A duel starts with the preset deck: whatever order the main deck was shuffled into, its
/// cards (each as many times as in the preset list) go into the player's deck, and then the
/// preset extra deck, in list order, into the extra deck; every card is the player's.
pub proof fn lemma_duel_starts_with_preset_deck(main: Seq<u32>)
    requires
        main.to_multiset() == spec_main_deck().to_multiset(),
    ensures
        duel_start_cards(main).len() == spec_main_deck().len() + spec_extra_deck().len(),
        duel_start_cards(main).subrange(0, spec_main_deck().len() as int).map_values(
            |c: NewCardInfo| c.code,
        ).to_multiset() == spec_main_deck().to_multiset(),
        forall|i: int|
            0 <= i < spec_main_deck().len() ==> (#[trigger] duel_start_cards(main)[i]).loc
                == CardLocation::Deck.spec_code() && duel_start_cards(main)[i].duelist
                == CardOwner::Player.spec_code(),
        forall|j: int|
            0 <= j < spec_extra_deck().len() ==> #[trigger] duel_start_cards(main)[spec_main_deck().len()
                + j] == player_card(spec_extra_deck()[j], CardLocation::ExtraDeck),
{
    vstd::seq_lib::to_multiset_len(main);
    vstd::seq_lib::to_multiset_len(spec_main_deck());
    let cards = duel_start_cards(main);
    let n = main.len() as int;
    assert(cards.subrange(0, n).map_values(|c: NewCardInfo| c.code) =~= main);
}


/// Every card of the preset main and extra decks has built-in data.
pub proof fn lemma_preset_cards_have_data()
    ensures
        forall|i: int| 0 <= i < spec_main_deck().len() ==> has_static_data(#[trigger] spec_main_deck()[i]),
        forall|i: int| 0 <= i < spec_extra_deck().len() ==> has_static_data(#[trigger] spec_extra_deck()[i]),
{
}

proof fn lemma_filter_keeps_all(s: Seq<u32>, pred: spec_fn(u32) -> bool)
    requires
        forall|i: int| 0 <= i < s.len() ==> pred(#[trigger] s[i]),
    ensures
        s.filter(pred) == s,
    decreases s.len(),
{
    reveal(Seq::filter);
    if s.len() > 0 {
        lemma_filter_keeps_all(s.drop_last(), pred);
        assert(s.drop_last().push(s.last()) =~= s);
    }
}

/// With the codes the client registers (the distinct codes of both preset decks that have
/// built-in data, as [`deck_card_ids`] and [`loaded_card_ids`] give them), every card of
/// both preset decks goes into the duel: all 40 main-deck cards and all 15 extra-deck
/// cards, each list last card first.
pub proof fn lemma_preset_decks_fully_added(ids: Seq<u32>, loaded: Seq<u32>)
    requires
        forall|x: u32| ids.contains(x) <==> (spec_main_deck() + spec_extra_deck()).contains(x),
        loaded == ids.filter(|id: u32| has_static_data(id)),
    ensures
        spec_main_deck().reverse().filter(|c: u32| loaded.contains(c)) == spec_main_deck().reverse(),
        spec_extra_deck().reverse().filter(|c: u32| loaded.contains(c)) == spec_extra_deck().reverse(),
{
    lemma_preset_cards_have_data();
    let pred = |id: u32| has_static_data(id);
    ids.filter_lemma(pred);
    let all = spec_main_deck() + spec_extra_deck();
    assert forall|x: u32| all.contains(x) implies loaded.contains(x) by {
        let k = choose|k: int| 0 <= k < all.len() && all[k] == x;
        if k < spec_main_deck().len() {
            assert(spec_main_deck()[k] == x);
        } else {
            assert(spec_extra_deck()[k - spec_main_deck().len()] == x);
        }
        assert(ids.contains(x));
        let j = choose|j: int| 0 <= j < ids.len() && ids[j] == x;
        assert(pred(ids[j]));
    }
    let m = spec_main_deck().reverse();
    assert forall|i: int| 0 <= i < m.len() implies loaded.contains(#[trigger] m[i]) by {
        let k = spec_main_deck().len() - 1 - i;
        assert(m[i] == spec_main_deck()[k]);
        assert(all[k] == spec_main_deck()[k]);
    }
    lemma_filter_keeps_all(m, |c: u32| loaded.contains(c));
    let e = spec_extra_deck().reverse();
    assert forall|i: int| 0 <= i < e.len() implies loaded.contains(#[trigger] e[i]) by {
        let k = spec_extra_deck().len() - 1 - i;
        assert(e[i] == spec_extra_deck()[k]);
        assert(all[spec_main_deck().len() + k] == spec_extra_deck()[k]);
    }
    lemma_filter_keeps_all(e, |c: u32| loaded.contains(c));
}

} // verus!
