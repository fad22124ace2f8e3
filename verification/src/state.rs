//! What the client shows of a duel, and how it changes as the engine reports and the
//! player answers. Talking to the engine is left to the caller: each step here says which
//! answer to hand over, if any.
use crate::actions::{keyed_by_position, lemma_keyed_by_position_small};
use crate::constants::{BattlePosition, DuelStatus};
use crate::data::{announced_card, new_announced_card, CardData, Zone};
use crate::messages::select_effect_yes_no::SelectEffectYNMessageData;
use crate::messages::select_unselect_card::{SelectUnselectMessage, SelectUnselectView};
use crate::messages::{CoreMessage, CoreMessageView};
use crate::response::{spec_user_response_bytes, UserResponse};
use std::collections::HashMap;
use vstd::prelude::*;
use vstd::string::StringExecFns;

verus! {

/// What to do after the engine processed a step.
#[derive(Debug, Clone, Copy, PartialEq, Eq, Structural)]
pub enum LoopStep {
    /// The engine has more to do: process again.
    ProcessAgain,
    /// The engine waits for the player: read its message.
    HandleMessage,
    /// The duel is over.
    Stop,
}

/// The step that follows a processing status: process again while the engine continues,
/// read its message when it waits, stop when the duel ends.
pub open spec fn spec_loop_step(status: DuelStatus) -> LoopStep {
    match status {
        DuelStatus::Continue => LoopStep::ProcessAgain,
        DuelStatus::Awaiting => LoopStep::HandleMessage,
        DuelStatus::End => LoopStep::Stop,
    }
}

/// The step of [`spec_loop_step`].
pub fn run_game_loop_step(status: DuelStatus) -> (step: LoopStep)
    ensures
        step == spec_loop_step(status),
{
    match status {
        DuelStatus::Continue => LoopStep::ProcessAgain,
        DuelStatus::Awaiting => LoopStep::HandleMessage,
        DuelStatus::End => LoopStep::Stop,
    }
}

/// The cards of the player's field as the engine reports them after a message.
#[derive(Debug, Clone, PartialEq, Eq)]
pub struct FieldSnapshot {
    pub main_deck_length: u32,
    pub extra_deck: Vec<Option<CardData>>,
    pub monsters: Vec<Option<CardData>>,
    pub spell_traps: Vec<Option<CardData>>,
    pub hand: Vec<Option<CardData>>,
    pub graveyard: Vec<Option<CardData>>,
}

/// A field report as sequences.
pub struct FieldView {
    pub main_deck_length: u32,
    pub extra_deck: Seq<Option<CardData>>,
    pub monsters: Seq<Option<CardData>>,
    pub spell_traps: Seq<Option<CardData>>,
    pub hand: Seq<Option<CardData>>,
    pub graveyard: Seq<Option<CardData>>,
}

impl View for FieldSnapshot {
    type V = FieldView;

    open spec fn view(&self) -> FieldView {
        FieldView {
            main_deck_length: self.main_deck_length,
            extra_deck: self.extra_deck@,
            monsters: self.monsters@,
            spell_traps: self.spell_traps@,
            hand: self.hand@,
            graveyard: self.graveyard@,
        }
    }
}

/// What the client shows of a duel, as mathematical values.
pub struct DuelStateView {
    pub duel: u64,
    pub main_deck_length: u32,
    pub extra_deck: Seq<Option<CardData>>,
    pub hand_contents: Seq<Option<CardData>>,
    pub selected_card: Option<CardData>,
    pub normal_summons: Seq<CardData>,
    pub special_summons: Seq<CardData>,
    pub activatable_effects: Map<u16, CardData>,
    pub waiting_on_input: bool,
    pub monsters: Seq<Option<CardData>>,
    pub spell_traps: Seq<Option<CardData>>,
    pub graveyard: Seq<Option<CardData>>,
    pub card_prompting_to_activate: Seq<CardData>,
    pub selectables: Seq<CardData>,
    pub yes_no_question: Option<Seq<char>>,
    pub available_zones: Seq<Zone>,
    pub positions_to_select: Seq<BattlePosition>,
    pub show_graveyard: bool,
    pub show_extra_deck: bool,
    pub effects_to_select_from: Seq<(u16, CardData)>,
    pub cards_to_select_from: Option<SelectUnselectView>,
}

/// What the client shows of a duel: the duel it follows (by the handle the caller gave),
/// the player's cards, what the engine last offered, and what the player is asked.
pub struct DuelState {
    pub duel: u64,
    pub main_deck_length: u32,
    pub extra_deck: Vec<Option<CardData>>,
    pub hand_contents: Vec<Option<CardData>>,
    pub selected_card: Option<CardData>,
    pub normal_summons: Vec<CardData>,
    pub special_summons: Vec<CardData>,
    pub activatable_effects: HashMap<u16, CardData>,
    pub waiting_on_input: bool,
    pub monsters: Vec<Option<CardData>>,
    pub spell_traps: Vec<Option<CardData>>,
    pub graveyard: Vec<Option<CardData>>,
    pub card_prompting_to_activate: Vec<CardData>,
    pub selectables: Vec<CardData>,
    pub yes_no_question: Option<String>,
    pub available_zones: Vec<Zone>,
    pub positions_to_select: Vec<BattlePosition>,
    pub show_graveyard: bool,
    pub show_extra_deck: bool,
    pub effects_to_select_from: Vec<(u16, CardData)>,
    pub cards_to_select_from: Option<SelectUnselectMessage>,
}

/// A question as text.
pub open spec fn question_view(q: Option<String>) -> Option<Seq<char>> {
    match q {
        Some(s) => Some(s@),
        None => None,
    }
}

/// A pick-or-drop prompt as values.
pub open spec fn unselect_view(m: Option<SelectUnselectMessage>) -> Option<SelectUnselectView> {
    match m {
        Some(m) => Some(m@),
        None => None,
    }
}

impl View for DuelState {
    type V = DuelStateView;

    open spec fn view(&self) -> DuelStateView {
        DuelStateView {
            duel: self.duel,
            main_deck_length: self.main_deck_length,
            extra_deck: self.extra_deck@,
            hand_contents: self.hand_contents@,
            selected_card: self.selected_card,
            normal_summons: self.normal_summons@,
            special_summons: self.special_summons@,
            activatable_effects: self.activatable_effects@,
            waiting_on_input: self.waiting_on_input,
            monsters: self.monsters@,
            spell_traps: self.spell_traps@,
            graveyard: self.graveyard@,
            card_prompting_to_activate: self.card_prompting_to_activate@,
            selectables: self.selectables@,
            yes_no_question: question_view(self.yes_no_question),
            available_zones: self.available_zones@,
            positions_to_select: self.positions_to_select@,
            show_graveyard: self.show_graveyard,
            show_extra_deck: self.show_extra_deck,
            effects_to_select_from: self.effects_to_select_from@,
            cards_to_select_from: unselect_view(self.cards_to_select_from),
        }
    }
}

/// The state of a duel that has just begun: nothing shown, nothing asked.
pub open spec fn initial_state(duel: u64) -> DuelStateView {
    DuelStateView {
        duel,
        main_deck_length: 0,
        extra_deck: Seq::empty(),
        hand_contents: Seq::empty(),
        selected_card: None,
        normal_summons: Seq::empty(),
        special_summons: Seq::empty(),
        activatable_effects: Map::empty(),
        waiting_on_input: false,
        monsters: Seq::empty(),
        spell_traps: Seq::empty(),
        graveyard: Seq::empty(),
        card_prompting_to_activate: Seq::empty(),
        selectables: Seq::empty(),
        yes_no_question: None,
        available_zones: Seq::empty(),
        positions_to_select: Seq::empty(),
        show_graveyard: false,
        show_extra_deck: false,
        effects_to_select_from: Seq::empty(),
        cards_to_select_from: None,
    }
}

/// The state after switching to another duel: everything shown of the old one is dropped,
/// except the open extra-deck view and a pending pick-or-drop prompt, which stay.
pub open spec fn switched_state(v: DuelStateView, duel: u64) -> DuelStateView {
    DuelStateView {
        duel,
        show_extra_deck: v.show_extra_deck,
        cards_to_select_from: v.cards_to_select_from,
        ..initial_state(duel)
    }
}

/// The state after an answer went to the engine: the hand, the field's monsters and
/// spells and traps, the selection, every offer and every question are dropped, the
/// graveyard view closes, and the client no longer waits; the deck count, the extra deck,
/// the graveyard, the extra-deck view and a pick-or-drop prompt stay.
pub open spec fn answered_state(v: DuelStateView) -> DuelStateView {
    DuelStateView {
        hand_contents: Seq::empty(),
        selected_card: None,
        normal_summons: Seq::empty(),
        special_summons: Seq::empty(),
        activatable_effects: Map::empty(),
        waiting_on_input: false,
        monsters: Seq::empty(),
        spell_traps: Seq::empty(),
        card_prompting_to_activate: Seq::empty(),
        selectables: Seq::empty(),
        yes_no_question: None,
        available_zones: Seq::empty(),
        positions_to_select: Seq::empty(),
        show_graveyard: false,
        effects_to_select_from: Seq::empty(),
        ..v
    }
}

/// Whether a prompt holds an effect that would start or extend a chain (one the engine
/// listed with a chain index).
pub open spec fn offers_chain(cards: Seq<CardData>) -> bool {
    exists|i: int| 0 <= i < cards.len() && (#[trigger] cards[i]).action_index is Some
}

/// The answer a right click gives: declining the pending activation prompt (passing
/// priority when it offers a chain, "no" otherwise), else "no" to a pending question,
/// else none.
pub open spec fn right_click_answer(v: DuelStateView) -> Option<UserResponse> {
    if v.card_prompting_to_activate.len() > 0 {
        if offers_chain(v.card_prompting_to_activate) {
            Some(UserResponse::PassPriority)
        } else {
            Some(UserResponse::No)
        }
    } else if v.yes_no_question is Some {
        Some(UserResponse::No)
    } else {
        None
    }
}

/// The state after a right click: as after an answer when one is given, else with the
/// graveyard view closed.
pub open spec fn right_clicked_state(v: DuelStateView) -> DuelStateView {
    match right_click_answer(v) {
        Some(_) => answered_state(v),
        None => DuelStateView { show_graveyard: false, ..v },
    }
}

/// The card whose effect the engine offers to activate, as the prompt lists it (with no
/// chain index).
pub open spec fn effect_prompt_card(e: SelectEffectYNMessageData) -> CardData {
    announced_card(e.card_code, e.controller, e.location, None, e.sequence, None)
}

/// The text shown for a yes/no question: the card's label for it, or "undefined label"
/// when the card has none.
pub open spec fn question_text(label: Option<Seq<char>>) -> Seq<char> {
    match label {
        Some(l) => l,
        None => "undefined label"@,
    }
}

/// The state and the answer (if any) after the engine's message `m`, before the field is
/// refreshed. A main-phase offer, a choice of zones, of cards, of positions, a
/// pick-or-drop prompt or an effect to activate is shown and the client waits; a chain
/// prompt with no effect is answered at once by passing priority; a yes/no question shows
/// `label` (see [`question_text`]). Messages this client has no prompt for change
/// nothing.
pub open spec fn message_state(v: DuelStateView, m: CoreMessageView, label: Option<Seq<char>>) -> (
    DuelStateView,
    Option<UserResponse>,
) {
    match m {
        CoreMessageView::Idle(a) => (
            DuelStateView {
                normal_summons: a.normal_summons,
                special_summons: a.special_summons,
                activatable_effects: keyed_by_position(a.activatable_effects),
                waiting_on_input: true,
                ..v
            },
            None,
        ),
        CoreMessageView::SelectPlace(p) => (
            DuelStateView { available_zones: p.zones, waiting_on_input: true, ..v },
            None,
        ),
        CoreMessageView::SelectChain(c) => if c.effects.len() == 0 {
            (answered_state(v), Some(UserResponse::PassPriority))
        } else {
            (
                DuelStateView {
                    card_prompting_to_activate: c.effects,
                    waiting_on_input: true,
                    ..v
                },
                None,
            )
        },
        CoreMessageView::SelectEffectYN(e) => (
            DuelStateView {
                card_prompting_to_activate: v.card_prompting_to_activate.push(
                    effect_prompt_card(e),
                ),
                waiting_on_input: true,
                ..v
            },
            None,
        ),
        CoreMessageView::SelectCard(c) => (
            DuelStateView { selectables: c.cards, waiting_on_input: true, ..v },
            None,
        ),
        CoreMessageView::SelectYesNo(_) => (
            DuelStateView { yes_no_question: Some(question_text(label)), ..v },
            None,
        ),
        CoreMessageView::SelectPosition(p) => (
            DuelStateView { positions_to_select: p.positions, waiting_on_input: true, ..v },
            None,
        ),
        CoreMessageView::SelectUnselectCard(u) => (
            DuelStateView { cards_to_select_from: Some(u), waiting_on_input: true, ..v },
            None,
        ),
        _ => (v, None),
    }
}

/// `v` with the player's field as `f` reports it.
pub open spec fn refreshed_state(v: DuelStateView, f: FieldView) -> DuelStateView {
    DuelStateView {
        main_deck_length: f.main_deck_length,
        extra_deck: f.extra_deck,
        monsters: f.monsters,
        spell_traps: f.spell_traps,
        hand_contents: f.hand,
        graveyard: f.graveyard,
        ..v
    }
}

/// The bytes of an answer, if there is one.
pub open spec fn answer_bytes(r: Option<UserResponse>) -> Option<Seq<u8>> {
    match r {
        Some(r) => Some(spec_user_response_bytes(r)),
        None => None,
    }
}

/// Bytes to hand over, as plain values.
pub open spec fn bytes_view(b: Option<Vec<u8>>) -> Option<Seq<u8>> {
    match b {
        Some(b) => Some(b@),
        None => None,
    }
}

impl DuelState {
    /// The state of the duel with handle `duel` as it begins (see [`initial_state`]).
    pub fn new(duel: u64) -> (s: DuelState)
        ensures
            s@ == initial_state(duel),
    {
        let s = DuelState {
            duel,
            main_deck_length: 0,
            extra_deck: Vec::new(),
            hand_contents: Vec::new(),
            selected_card: None,
            normal_summons: Vec::new(),
            special_summons: Vec::new(),
            activatable_effects: HashMap::new(),
            waiting_on_input: false,
            monsters: Vec::new(),
            spell_traps: Vec::new(),
            graveyard: Vec::new(),
            card_prompting_to_activate: Vec::new(),
            selectables: Vec::new(),
            yes_no_question: None,
            available_zones: Vec::new(),
            positions_to_select: Vec::new(),
            show_graveyard: false,
            show_extra_deck: false,
            effects_to_select_from: Vec::new(),
            cards_to_select_from: None,
        };
        proof {
            assert(s@ =~= initial_state(duel));
        }
        s
    }

    /// Follows the duel with handle `duel`. Nothing changes when it is the duel already
    /// followed; otherwise the state is that of [`switched_state`], and the result says
    /// that the old duel is to be destroyed.
    pub fn reset(&mut self, duel: u64) -> (replaced: bool)
        ensures
            replaced == (old(self).duel != duel),
            final(self)@ == (if replaced {
                switched_state(old(self)@, duel)
            } else {
                old(self)@
            }),
    {
        if self.duel == duel {
            return false;
        }
        self.duel = duel;
        self.main_deck_length = 0;
        self.extra_deck = Vec::new();
        self.hand_contents = Vec::new();
        self.selected_card = None;
        self.normal_summons = Vec::new();
        self.special_summons = Vec::new();
        self.activatable_effects = HashMap::new();
        self.waiting_on_input = false;
        self.monsters = Vec::new();
        self.spell_traps = Vec::new();
        self.graveyard = Vec::new();
        self.card_prompting_to_activate = Vec::new();
        self.selectables = Vec::new();
        self.yes_no_question = None;
        self.available_zones = Vec::new();
        self.positions_to_select = Vec::new();
        self.show_graveyard = false;
        self.effects_to_select_from = Vec::new();
        proof {
            assert(self@ =~= switched_state(old(self)@, duel));
        }
        true
    }

    /// Whether the engine should be run: not while the client waits for the player.
    pub fn should_process(&self) -> (b: bool)
        ensures
            b == !self@.waiting_on_input,
    {
        !self.waiting_on_input
    }

    /// Records that `response` goes to the engine (see [`answered_state`]) and gives the
    /// bytes to hand it.
    pub fn send_user_response(&mut self, response: UserResponse) -> (bytes: Vec<u8>)
        ensures
            bytes@ == spec_user_response_bytes(response),
            final(self)@ == answered_state(old(self)@),
    {
        let bytes = response.get_response_bytes();
        self.hand_contents = Vec::new();
        self.selected_card = None;
        self.normal_summons = Vec::new();
        self.special_summons = Vec::new();
        self.activatable_effects = HashMap::new();
        self.waiting_on_input = false;
        self.monsters = Vec::new();
        self.spell_traps = Vec::new();
        self.card_prompting_to_activate = Vec::new();
        self.selectables = Vec::new();
        self.yes_no_question = None;
        self.available_zones = Vec::new();
        self.positions_to_select = Vec::new();
        self.show_graveyard = false;
        self.effects_to_select_from = Vec::new();
        proof {
            assert(self@ =~= answered_state(old(self)@));
        }
        bytes
    }

    /// A right click: declines what is pending (see [`right_click_answer`]) and gives the
    /// bytes of the answer, if one is given; the state becomes that of
    /// [`right_clicked_state`].
    pub fn handle_right_click(&mut self) -> (bytes: Option<Vec<u8>>)
        ensures
            bytes_view(bytes) == answer_bytes(right_click_answer(old(self)@)),
            final(self)@ == right_clicked_state(old(self)@),
    {
        if self.card_prompting_to_activate.len() > 0 {
            let mut chain = false;
            let mut i: usize = 0;
            while i < self.card_prompting_to_activate.len()
                invariant
                    i <= self.card_prompting_to_activate.len(),
                    chain == exists|j: int|
                        0 <= j < i && (#[trigger] self.card_prompting_to_activate@[j]).action_index is Some,
                decreases self.card_prompting_to_activate.len() - i,
            {
                if self.card_prompting_to_activate[i].action_index.is_some() {
                    chain = true;
                }
                i = i + 1;
            }
            let response = if chain {
                UserResponse::PassPriority
            } else {
                UserResponse::No
            };
            return Some(self.send_user_response(response));
        }
        if self.yes_no_question.is_some() {
            return Some(self.send_user_response(UserResponse::No));
        }
        self.show_graveyard = false;
        proof {
            assert(self@ =~= right_clicked_state(old(self)@));
        }
        None
    }

    /// A left click: drops the selected card.
    pub fn handle_left_click(&mut self)
        ensures
            final(self)@ == (DuelStateView { selected_card: None, ..old(self)@ }),
    {
        self.selected_card = None;
        proof {
            assert(self@ =~= (DuelStateView { selected_card: None, ..old(self)@ }));
        }
    }

    /// Takes in the engine's message `message` and then the field `field` reported after
    /// it: the state becomes that of [`message_state`] refreshed by `field`
    /// ([`refreshed_state`]), and the bytes of the answer to hand over at once, if any,
    /// come back. `label` is the card's label for a yes/no question, if it has one. A
    /// retry message is not accepted: the engine never sends one to this client.
    pub fn handle_core_message(
        &mut self,
        message: CoreMessage,
        label: Option<String>,
        field: FieldSnapshot,
    ) -> (bytes: Option<Vec<u8>>)
        requires
            !(message is Retry),
        ensures
            final(self)@ == refreshed_state(
                message_state(old(self)@, message@, question_view(label)).0,
                field@,
            ),
            bytes_view(bytes) == answer_bytes(
                message_state(old(self)@, message@, question_view(label)).1,
            ),
    {
        let mut bytes: Option<Vec<u8>> = None;
        match message {
            CoreMessage::Retry => {},
            CoreMessage::Idle(actions) => {
                let effects = actions.get_activatable_effects();
                self.normal_summons = actions.normal_summons;
                self.special_summons = actions.special_summons;
                self.activatable_effects = effects;
                self.waiting_on_input = true;
            },
            CoreMessage::SelectPlace(place) => {
                self.available_zones = place.zones;
                self.waiting_on_input = true;
            },
            CoreMessage::SelectChain(chain) => {
                if chain.effects.len() == 0 {
                    bytes = Some(self.send_user_response(UserResponse::PassPriority));
                } else {
                    self.card_prompting_to_activate = chain.effects;
                    self.waiting_on_input = true;
                }
            },
            CoreMessage::SelectEffectYN(effect) => {
                let card = new_announced_card(
                    effect.card_code,
                    effect.controller,
                    effect.location,
                    None,
                    effect.sequence,
                    None,
                );
                self.card_prompting_to_activate.push(card);
                self.waiting_on_input = true;
            },
            CoreMessage::SelectCard(select) => {
                self.selectables = select.cards;
                self.waiting_on_input = true;
            },
            CoreMessage::SelectYesNo(_) => {
                let text = match label {
                    Some(l) => l,
                    None => String::from_str("undefined label"),
                };
                self.yes_no_question = Some(text);
            },
            CoreMessage::SelectPosition(position) => {
                self.positions_to_select = position.positions;
                self.waiting_on_input = true;
            },
            CoreMessage::SelectUnselectCard(prompt) => {
                self.cards_to_select_from = Some(prompt);
                self.waiting_on_input = true;
            },
            _ => {},
        }
        let ghost mid = self@;
        proof {
            assert(mid =~= message_state(old(self)@, message@, question_view(label)).0);
        }
        self.main_deck_length = field.main_deck_length;
        self.extra_deck = field.extra_deck;
        self.monsters = field.monsters;
        self.spell_traps = field.spell_traps;
        self.hand_contents = field.hand;
        self.graveyard = field.graveyard;
        proof {
            assert(self@ =~= refreshed_state(mid, field@));
        }
        bytes
    }
}


/// After a right click nothing is pending: no activation prompt and no question.
pub proof fn lemma_right_click_clears_prompts(v: DuelStateView)
    ensures
        right_clicked_state(v).card_prompting_to_activate.len() == 0,
        right_clicked_state(v).yes_no_question is None,
        right_clicked_state(v).show_graveyard == false,
{
}

/// Once an answer went to the engine the client no longer waits and offers nothing until
/// the next message, and the duel it follows is the same.
pub proof fn lemma_answer_clears_offers(v: DuelStateView)
    ensures
        answered_state(v).waiting_on_input == false,
        answered_state(v).normal_summons.len() == 0,
        answered_state(v).special_summons.len() == 0,
        answered_state(v).activatable_effects == Map::<u16, CardData>::empty(),
        answered_state(v).card_prompting_to_activate.len() == 0,
        answered_state(v).selectables.len() == 0,
        answered_state(v).duel == v.duel,
        answered_state(answered_state(v)) == answered_state(v),
{
    assert(answered_state(answered_state(v)) =~= answered_state(v));
}

/// A message that shows a prompt leaves the client waiting for the player, and an empty
/// chain prompt is answered by passing priority without waiting.
pub proof fn lemma_prompt_waits(v: DuelStateView, m: CoreMessageView, label: Option<Seq<char>>)
    ensures
        (m is Idle || m is SelectPlace || m is SelectEffectYN || m is SelectCard
            || m is SelectPosition || m is SelectUnselectCard) ==> message_state(v, m, label).0.waiting_on_input
            && message_state(v, m, label).1 is None,
        m matches CoreMessageView::SelectChain(c) ==> (c.effects.len() == 0
            <==> message_state(v, m, label).1 == Some(UserResponse::PassPriority)),
        m matches CoreMessageView::SelectChain(c) ==> (c.effects.len() > 0
            ==> message_state(v, m, label).0.waiting_on_input),
{
}


/// After a message and the field report that follows it, the state shows what the message
/// offered, each offer in its own place: the Normal Summons and Special Summons of a
/// main-phase offer as listed, its activatable effects under their positions in the list,
/// the zones, positions, cards and pick-or-drop prompt of a choice as listed, a chain's
/// effects (when there is one), the card of an effect prompt after those already pending;
/// and the player's field as reported.
pub proof fn lemma_message_offers_shown(
    v: DuelStateView,
    m: CoreMessageView,
    label: Option<Seq<char>>,
    f: FieldView,
)
    ensures
        ({
            let r = refreshed_state(message_state(v, m, label).0, f);
            &&& m matches CoreMessageView::Idle(a) ==> {
                &&& r.normal_summons == a.normal_summons
                &&& r.special_summons == a.special_summons
                &&& a.activatable_effects.len() <= 65536 ==> forall|k: u16|
                    #[trigger] r.activatable_effects.contains_key(k) <==> (k as int)
                        < a.activatable_effects.len()
                &&& a.activatable_effects.len() <= 65536 ==> forall|k: u16|
                    (k as int) < a.activatable_effects.len() ==> #[trigger] r.activatable_effects[k]
                        == a.activatable_effects[k as int]
            }
            &&& m matches CoreMessageView::SelectPlace(p) ==> r.available_zones == p.zones
            &&& m matches CoreMessageView::SelectChain(c) ==> (c.effects.len() > 0
                ==> r.card_prompting_to_activate == c.effects)
            &&& m matches CoreMessageView::SelectCard(c) ==> r.selectables == c.cards
            &&& m matches CoreMessageView::SelectPosition(p) ==> r.positions_to_select
                == p.positions
            &&& m matches CoreMessageView::SelectUnselectCard(u) ==> r.cards_to_select_from
                == Some(u)
            &&& m matches CoreMessageView::SelectEffectYN(e) ==> {
                &&& r.card_prompting_to_activate.len() == v.card_prompting_to_activate.len() + 1
                &&& r.card_prompting_to_activate.last().card_code == e.card_code
                &&& r.card_prompting_to_activate.last().location == e.location
                &&& r.card_prompting_to_activate.last().sequence == e.sequence
                &&& r.card_prompting_to_activate.last().action_index is None
            }
            &&& r.hand_contents == f.hand
            &&& r.monsters == f.monsters
            &&& r.spell_traps == f.spell_traps
            &&& r.graveyard == f.graveyard
            &&& r.extra_deck == f.extra_deck
            &&& r.main_deck_length == f.main_deck_length
        }),
{
    if let CoreMessageView::Idle(a) = m {
        if a.activatable_effects.len() <= 65536 {
            lemma_keyed_by_position_small(a.activatable_effects);
        }
    }
}

} // verus!
