//! Selection-session state for an interactive client: which view is shown,
//! which list entry is highlighted, which cards the local player has marked
//! for drafting, and whether the extra-draft utility card was activated this
//! turn. The rendering layer and the key decoding live outside the engine;
//! they feed these transitions plain snapshots and act on the results.

use vstd::prelude::*;

use crate::cards::{CardKind, NUM_KINDS};
use crate::counts::{sum_prefix, CardCounts};

verus! {

/// The view a client is currently showing.
#[derive(Clone, Copy, Debug, PartialEq, Eq, Structural)]
pub enum GameView {
    Hand,
    MyCards,
    PlayerCards,
}

/// What the input layer should do after a key is handled.
#[derive(Clone, Copy, Debug, PartialEq, Eq, Structural)]
pub enum InputAction {
    Quit,
    SubmitTurn,
    Continue,
}

/// Number of kinds with a positive count among the first `n`.
pub open spec fn distinct_nonzero(s: Seq<u64>, n: int) -> int
    decreases n,
{
    if n <= 0 {
        0
    } else {
        distinct_nonzero(s, n - 1) + if s[n - 1] > 0 {
            1int
        } else {
            0int
        }
    }
}

/// The index of the `k`-th kind (0-based) with a positive count, scanning in
/// catalog order from index `j`.
pub open spec fn nth_nonzero_from(s: Seq<u64>, k: int, j: int) -> int
    decreases s.len() - j,
    when 0 <= j <= s.len()
{
    if j >= s.len() {
        j
    } else if s[j] > 0 {
        if k <= 0 {
            j
        } else {
            nth_nonzero_from(s, k - 1, j + 1)
        }
    } else {
        nth_nonzero_from(s, k, j + 1)
    }
}

pub open spec fn nth_nonzero(s: Seq<u64>, k: int) -> int {
    nth_nonzero_from(s, k, 0)
}

/// Per-player drafting state of one client session.
pub struct GameUIState {
    pub hand_selection_index: usize,
    pub my_cards_selection_index: usize,
    pub player_selections: Vec<CardCounts>,
    pub drink_tray_activated: Vec<bool>,
    pub current_view: GameView,
    pub viewing_player_id: usize,
    pub player_list_index: usize,
    pub view_history: Vec<GameView>,
}

impl GameUIState {
    pub open spec fn wf(self) -> bool {
        forall|p: int|
            0 <= p < self.player_selections@.len() ==> (
            #[trigger] self.player_selections@[p]).wf()
    }

    /// The cards player `p` has marked so far; none when no entry exists.
    pub open spec fn selection_of(self, p: int) -> Seq<u64> {
        if 0 <= p < self.player_selections@.len() {
            self.player_selections@[p]@
        } else {
            crate::state::zero_counts()
        }
    }

    /// Whether player `p` activated the utility card this turn.
    pub open spec fn tray_active(self, p: int) -> bool {
        0 <= p < self.drink_tray_activated@.len() && self.drink_tray_activated@[p]
    }

    /// A fresh session: hand view, nothing highlighted, nothing marked.
    pub fn new() -> (r: GameUIState)
        ensures
            r.wf(),
            r.hand_selection_index == 0,
            r.my_cards_selection_index == 0,
            r.player_selections@.len() == 0,
            r.drink_tray_activated@.len() == 0,
            r.current_view == GameView::Hand,
            r.viewing_player_id == 0,
            r.player_list_index == 0,
            r.view_history@.len() == 0,
    {
        GameUIState {
            hand_selection_index: 0,
            my_cards_selection_index: 0,
            player_selections: Vec::new(),
            drink_tray_activated: Vec::new(),
            current_view: GameView::Hand,
            viewing_player_id: 0,
            player_list_index: 0,
            view_history: Vec::new(),
        }
    }

    /// Reset the highlights for a fresh turn.
    pub fn reset_for_new_turn(&mut self)
        ensures
            final(self).hand_selection_index == 0,
            final(self).my_cards_selection_index == 0,
            final(self).player_selections == old(self).player_selections,
            final(self).drink_tray_activated == old(self).drink_tray_activated,
            final(self).current_view == old(self).current_view,
            final(self).viewing_player_id == old(self).viewing_player_id,
            final(self).player_list_index == old(self).player_list_index,
            final(self).view_history == old(self).view_history,
    {
        self.hand_selection_index = 0;
        self.my_cards_selection_index = 0;
    }

    /// Drop every player's marked cards.
    pub fn clear_selections(&mut self)
        ensures
            final(self).wf(),
            final(self).player_selections@.len() == 0,
            final(self).drink_tray_activated == old(self).drink_tray_activated,
            final(self).hand_selection_index == old(self).hand_selection_index,
            final(self).my_cards_selection_index == old(self).my_cards_selection_index,
            final(self).current_view == old(self).current_view,
            final(self).viewing_player_id == old(self).viewing_player_id,
            final(self).player_list_index == old(self).player_list_index,
            final(self).view_history == old(self).view_history,
    {
        self.player_selections.clear();
    }

    /// Make sure a selection entry exists for `player_id`; new entries are
    /// empty.
    fn ensure_selection(&mut self, player_id: usize)
        requires
            old(self).wf(),
            player_id < usize::MAX,
        ensures
            final(self).wf(),
            final(self).player_selections@.len() > player_id,
            final(self).player_selections@.len() == if old(self).player_selections@.len()
                > player_id {
                old(self).player_selections@.len() as int
            } else {
                player_id + 1
            },
            forall|p: int|
                0 <= p < old(self).player_selections@.len() ==> final(self).player_selections@[p] == old(self).player_selections@[p],
            forall|p: int|
                old(self).player_selections@.len() <= p < final(self).player_selections@.len()
                    ==> final(self).selection_of(p) == crate::state::zero_counts(),
            final(self).drink_tray_activated == old(self).drink_tray_activated,
            final(self).hand_selection_index == old(self).hand_selection_index,
            final(self).my_cards_selection_index == old(self).my_cards_selection_index,
            final(self).current_view == old(self).current_view,
            final(self).viewing_player_id == old(self).viewing_player_id,
            final(self).player_list_index == old(self).player_list_index,
            final(self).view_history == old(self).view_history,
    {
        while self.player_selections.len() <= player_id
            invariant
                self.wf(),
                player_id < usize::MAX,
                old(self).wf(),
                self.player_selections@.len() >= old(self).player_selections@.len(),
                old(self).player_selections@.len() > player_id ==> self.player_selections@.len()
                    == old(self).player_selections@.len(),
                self.player_selections@.len() <= player_id + 1 || self.player_selections@.len()
                    == old(self).player_selections@.len(),
                forall|p: int|
                    0 <= p < old(self).player_selections@.len() ==> self.player_selections@[p]
                        == old(self).player_selections@[p],
                forall|p: int|
                    old(self).player_selections@.len() <= p < self.player_selections@.len()
                        ==> (#[trigger] self.player_selections@[p])@
                        == crate::state::zero_counts(),
                self.drink_tray_activated == old(self).drink_tray_activated,
                self.hand_selection_index == old(self).hand_selection_index,
                self.my_cards_selection_index == old(self).my_cards_selection_index,
                self.current_view == old(self).current_view,
                self.viewing_player_id == old(self).viewing_player_id,
                self.player_list_index == old(self).player_list_index,
                self.view_history == old(self).view_history,
            decreases player_id + 1 - self.player_selections@.len(),
        {
            let fresh = CardCounts::new();
            proof {
                assert(fresh@ =~= crate::state::zero_counts());
            }
            self.player_selections.push(fresh);
        }
    }
}

/// How many cards the player may select this turn: two after activating the
/// extra-draft utility card, one otherwise.
pub fn calculate_max_selections(ui_state: &GameUIState, player_id: usize) -> (r: usize)
    ensures
        r == if ui_state.tray_active(player_id as int) {
            2int
        } else {
            1int
        },
{
    if player_id < ui_state.drink_tray_activated.len() && ui_state.drink_tray_activated[player_id]
    {
        2
    } else {
        1
    }
}

/// Count the kinds held (positive count) in a collection.
pub fn distinct_count(c: &CardCounts) -> (r: usize)
    requires
        c.wf(),
    ensures
        r == distinct_nonzero(c@, NUM_KINDS as int),
        r <= NUM_KINDS,
{
    let mut n: usize = 0;
    let mut i: usize = 0;
    while i < NUM_KINDS
        invariant
            c.wf(),
            i <= NUM_KINDS,
            n == distinct_nonzero(c@, i as int),
            n <= i,
        decreases NUM_KINDS - i,
    {
        if c.get_index(i) > 0 {
            n += 1;
        }
        i += 1;
    }
    n
}

/// The `k`-th held kind of a collection, in catalog order.
pub fn nth_held(c: &CardCounts, k: usize) -> (r: CardKind)
    requires
        c.wf(),
        k < distinct_nonzero(c@, NUM_KINDS as int),
    ensures
        r.index_spec() == nth_nonzero(c@, k as int),
        c@[r.index_spec()] > 0,
{
    let mut remaining = k;
    let mut i: usize = 0;
    while i < NUM_KINDS
        invariant
            c.wf(),
            i <= NUM_KINDS,
            remaining <= k,
            k < distinct_nonzero(c@, NUM_KINDS as int),
            distinct_nonzero(c@, i as int) == k - remaining,
            nth_nonzero(c@, k as int) == nth_nonzero_from(c@, remaining as int, i as int),
        decreases NUM_KINDS - i,
    {
        if c.get_index(i) > 0 {
            if remaining == 0 {
                return CardKind::from_index(i);
            }
            remaining -= 1;
        }
        i += 1;
    }
    proof {
        lemma_distinct_nonzero_le(c@, NUM_KINDS as int);
        assert(false);
    }
    CardKind::TapiocaPearl
}

proof fn lemma_distinct_nonzero_le(s: Seq<u64>, n: int)
    requires
        0 <= n <= s.len(),
    ensures
        distinct_nonzero(s, n) <= n,
    decreases n,
{
    if n > 0 {
        lemma_distinct_nonzero_le(s, n - 1);
    }
}

/// Move the highlight up in the current view, wrapping at the top.
pub fn handle_up_navigation(
    ui_state: &mut GameUIState,
    num_players: usize,
    hand: &CardCounts,
    my_public: &CardCounts,
    my_boosted: &CardCounts,
)
    requires
        old(ui_state).wf(),
        num_players >= 1,
        hand.wf(),
        my_public.wf(),
        my_boosted.wf(),
    ensures
        final(ui_state).wf(),
        ({
            let old_ui = *old(ui_state);
            let ui = *final(ui_state);
            match old_ui.current_view {
                GameView::PlayerCards => {
                    let idx = if old_ui.player_list_index == 0 {
                        num_players as int - 1
                    } else {
                        old_ui.player_list_index - 1
                    };
                    &&& ui.player_list_index == idx
                    &&& ui.viewing_player_id == idx
                    &&& ui.my_cards_selection_index == old_ui.my_cards_selection_index
                    &&& ui.hand_selection_index == old_ui.hand_selection_index
                },
                GameView::MyCards => {
                    let cc = distinct_nonzero(my_public@, NUM_KINDS as int) + distinct_nonzero(
                        my_boosted@,
                        NUM_KINDS as int,
                    );
                    &&& ui.my_cards_selection_index == if cc > 0 {
                        if old_ui.my_cards_selection_index == 0 {
                            cc - 1
                        } else {
                            old_ui.my_cards_selection_index - 1
                        }
                    } else {
                        old_ui.my_cards_selection_index as int
                    }
                    &&& ui.player_list_index == old_ui.player_list_index
                    &&& ui.hand_selection_index == old_ui.hand_selection_index
                },
                GameView::Hand => {
                    let hc = distinct_nonzero(hand@, NUM_KINDS as int);
                    &&& ui.hand_selection_index == if hc > 0 {
                        if old_ui.hand_selection_index == 0 {
                            hc - 1
                        } else {
                            old_ui.hand_selection_index - 1
                        }
                    } else {
                        old_ui.hand_selection_index as int
                    }
                    &&& ui.player_list_index == old_ui.player_list_index
                    &&& ui.my_cards_selection_index == old_ui.my_cards_selection_index
                },
            }
        }),
        final(ui_state).current_view == old(ui_state).current_view,
        final(ui_state).player_selections == old(ui_state).player_selections,
        final(ui_state).drink_tray_activated == old(ui_state).drink_tray_activated,
        final(ui_state).view_history == old(ui_state).view_history,
{
    match ui_state.current_view {
        GameView::PlayerCards => {
            if ui_state.player_list_index == 0 {
                ui_state.player_list_index = num_players - 1;
            } else {
                ui_state.player_list_index = ui_state.player_list_index - 1;
            }
            ui_state.viewing_player_id = ui_state.player_list_index;
        },
        GameView::MyCards => {
            let card_count = distinct_count(my_public) + distinct_count(my_boosted);
            if card_count > 0 {
                if ui_state.my_cards_selection_index == 0 {
                    ui_state.my_cards_selection_index = card_count - 1;
                } else {
                    ui_state.my_cards_selection_index = ui_state.my_cards_selection_index - 1;
                }
            }
        },
        GameView::Hand => {
            let held = distinct_count(hand);
            if held > 0 {
                if ui_state.hand_selection_index == 0 {
                    ui_state.hand_selection_index = held - 1;
                } else {
                    ui_state.hand_selection_index = ui_state.hand_selection_index - 1;
                }
            }
        },
    }
}

/// Move the highlight down in the current view, wrapping at the bottom.
pub fn handle_down_navigation(
    ui_state: &mut GameUIState,
    num_players: usize,
    hand: &CardCounts,
    my_public: &CardCounts,
    my_boosted: &CardCounts,
)
    requires
        old(ui_state).wf(),
        num_players >= 1,
        hand.wf(),
        my_public.wf(),
        my_boosted.wf(),
        old(ui_state).player_list_index < num_players,
        old(ui_state).my_cards_selection_index < usize::MAX,
        old(ui_state).hand_selection_index < usize::MAX,
    ensures
        final(ui_state).wf(),
        ({
            let old_ui = *old(ui_state);
            let ui = *final(ui_state);
            match old_ui.current_view {
                GameView::PlayerCards => {
                    let idx = (old_ui.player_list_index + 1) as int % (num_players as int);
                    &&& ui.player_list_index == idx
                    &&& ui.viewing_player_id == idx
                    &&& ui.my_cards_selection_index == old_ui.my_cards_selection_index
                    &&& ui.hand_selection_index == old_ui.hand_selection_index
                },
                GameView::MyCards => {
                    let cc = distinct_nonzero(my_public@, NUM_KINDS as int) + distinct_nonzero(
                        my_boosted@,
                        NUM_KINDS as int,
                    );
                    &&& ui.my_cards_selection_index == if cc > 0 {
                        (old_ui.my_cards_selection_index + 1) as int % cc
                    } else {
                        old_ui.my_cards_selection_index as int
                    }
                    &&& ui.player_list_index == old_ui.player_list_index
                    &&& ui.hand_selection_index == old_ui.hand_selection_index
                },
                GameView::Hand => {
                    let hc = distinct_nonzero(hand@, NUM_KINDS as int);
                    &&& ui.hand_selection_index == if hc > 0 {
                        (old_ui.hand_selection_index + 1) as int % hc
                    } else {
                        old_ui.hand_selection_index as int
                    }
                    &&& ui.player_list_index == old_ui.player_list_index
                    &&& ui.my_cards_selection_index == old_ui.my_cards_selection_index
                },
            }
        }),
        final(ui_state).current_view == old(ui_state).current_view,
        final(ui_state).player_selections == old(ui_state).player_selections,
        final(ui_state).drink_tray_activated == old(ui_state).drink_tray_activated,
        final(ui_state).view_history == old(ui_state).view_history,
{
    match ui_state.current_view {
        GameView::PlayerCards => {
            ui_state.player_list_index = (ui_state.player_list_index + 1) % num_players;
            ui_state.viewing_player_id = ui_state.player_list_index;
        },
        GameView::MyCards => {
            let card_count = distinct_count(my_public) + distinct_count(my_boosted);
            if card_count > 0 {
                ui_state.my_cards_selection_index = (ui_state.my_cards_selection_index + 1)
                    % card_count;
            }
        },
        GameView::Hand => {
            let held = distinct_count(hand);
            if held > 0 {
                ui_state.hand_selection_index = (ui_state.hand_selection_index + 1) % held;
            }
        },
    }
}

/// Toggle or extend the local player's selection of the highlighted hand
/// card: an unselected kind is selected up to the allowance or the held
/// count; a kind already selected is topped up the same way when possible,
/// and otherwise deselected one unit at a time.
pub fn handle_card_selection(
    ui_state: &mut GameUIState,
    player_id: usize,
    hand: &CardCounts,
    max_selections: usize,
)
    requires
        old(ui_state).wf(),
        player_id < usize::MAX,
        hand.wf(),
        crate::counts::counts_bounded(hand@),
        max_selections <= 2,
        crate::counts::sum_counts(old(ui_state).selection_of(player_id as int)) <= 2,
    ensures
        final(ui_state).wf(),
        final(ui_state).current_view == old(ui_state).current_view,
        final(ui_state).drink_tray_activated == old(ui_state).drink_tray_activated,
        final(ui_state).hand_selection_index == old(ui_state).hand_selection_index,
        final(ui_state).my_cards_selection_index == old(ui_state).my_cards_selection_index,
        final(ui_state).view_history == old(ui_state).view_history,
        forall|p: int|
            0 <= p < final(ui_state).player_selections@.len() && p != player_id ==> final(ui_state).selection_of(p) == old(ui_state).selection_of(p),
        old(ui_state).current_view != GameView::Hand ==> *final(ui_state) == *old(ui_state),
        ({
            let s0 = old(ui_state).selection_of(player_id as int);
            let s1 = final(ui_state).selection_of(player_id as int);
            let held = distinct_nonzero(hand@, NUM_KINDS as int);
            let idx = old(ui_state).hand_selection_index as int;
            if old(ui_state).current_view == GameView::Hand {
                if held == 0 || idx >= held {
                    s1 == s0
                } else {
                    let ki = nth_nonzero(hand@, idx);
                    let available = hand@[ki] as int;
                    let already = s0[ki] as int;
                    let total = crate::counts::sum_counts(s0);
                    if already > 0 {
                        if total < max_selections && already < available {
                            let add = if max_selections - total < available - already {
                                max_selections - total
                            } else {
                                available - already
                            };
                            s1 == s0.update(ki, (already + add) as u64)
                        } else {
                            s1 == s0.update(ki, (already - 1) as u64)
                        }
                    } else if total < max_selections {
                        let add = if max_selections - total < available {
                            max_selections - total
                        } else {
                            available
                        };
                        s1 == s0.update(ki, add as u64)
                    } else {
                        s1 == s0
                    }
                }
            } else {
                true
            }
        }),
{
    if !matches!(ui_state.current_view, GameView::Hand) {
        return ;
    }
    let held = distinct_count(hand);
    if held == 0 || ui_state.hand_selection_index >= held {
        return ;
    }
    let kind = nth_held(hand, ui_state.hand_selection_index);
    let available = hand.get(kind);
    ui_state.ensure_selection(player_id);
    let ghost mid = *ui_state;
    let ghost pre = ui_state.selection_of(player_id as int);
    let mut sel = ui_state.player_selections[player_id].clone();
    proof {
        assert(sel@ == pre);
        crate::counts::lemma_sum_prefix_bound(sel@, kind.index_spec(), NUM_KINDS as int);
        crate::counts::lemma_sum_prefix_nonneg(sel@, kind.index_spec());
        crate::counts::lemma_sum_prefix_sub_nonneg(
            sel@,
            kind.index_spec() + 1,
            NUM_KINDS as int,
        );
    }
    let already = sel.get(kind);
    let total = sel.total();
    if already > 0 {
        if total < max_selections as u64 && already < available {
            let room = max_selections as u64 - total;
            let headroom = available - already;
            let to_select = if room < headroom {
                room
            } else {
                headroom
            };
            sel.add(kind, to_select);
        } else {
            sel.sub(kind, 1);
        }
    } else if total < max_selections as u64 {
        let room = max_selections as u64 - total;
        let to_select = if room < available {
            room
        } else {
            available
        };
        sel.add(kind, to_select);
    }
    ui_state.player_selections.set(player_id, sel);
    proof {
        assert forall|p: int|
            0 <= p < ui_state.player_selections@.len() && p != player_id implies ui_state.selection_of(
            p,
        ) == old(ui_state).selection_of(p) by {
            if p < old(ui_state).player_selections@.len() {
                assert(ui_state.player_selections@[p] == old(ui_state).player_selections@[p]);
            } else {
                assert(mid.selection_of(p) == crate::state::zero_counts());
                assert(ui_state.player_selections@[p] == mid.player_selections@[p]);
            }
        }
    }
}

/// Activate the extra-draft utility card when it is the highlighted entry of
/// the player's own public cards: remember the activation and jump back to
/// the hand view to pick the extra card.
pub fn handle_drink_tray_activation(
    ui_state: &mut GameUIState,
    player_id: usize,
    my_public: &CardCounts,
    my_boosted: &CardCounts,
)
    requires
        old(ui_state).wf(),
        player_id < usize::MAX,
        my_public.wf(),
        my_boosted.wf(),
    ensures
        final(ui_state).wf(),
        ({
            let pc = distinct_nonzero(my_public@, NUM_KINDS as int);
            let cc = pc + distinct_nonzero(my_boosted@, NUM_KINDS as int);
            let idx = old(ui_state).my_cards_selection_index as int;
            let hit = cc > 0 && idx < cc && idx < pc && nth_nonzero(my_public@, idx)
                == CardKind::DrinkTray.index_spec();
            if hit {
                &&& final(ui_state).tray_active(player_id as int)
                &&& final(ui_state).current_view == GameView::Hand
                &&& final(ui_state).hand_selection_index == 0
                &&& final(ui_state).view_history@ == old(ui_state).view_history@.push(
                    GameView::MyCards,
                )
            } else {
                *final(ui_state) == *old(ui_state)
            }
        }),
        final(ui_state).player_selections == old(ui_state).player_selections,
{
    let public_count = distinct_count(my_public);
    let boosted_count = distinct_count(my_boosted);
    let card_count = public_count + boosted_count;
    if card_count == 0 || ui_state.my_cards_selection_index >= card_count {
        return ;
    }
    // Entries list the public kinds first, then the boosted ones; a boosted
    // entry can never be the utility card for activation purposes.
    if ui_state.my_cards_selection_index >= public_count {
        return ;
    }
    let kind = nth_held(my_public, ui_state.my_cards_selection_index);
    if !matches!(kind, CardKind::DrinkTray) {
        return ;
    }
    while ui_state.drink_tray_activated.len() <= player_id
        invariant
            old(ui_state).wf(),
            ui_state.wf(),
            player_id < usize::MAX,
            ui_state.drink_tray_activated@.len() >= old(ui_state).drink_tray_activated@.len(),
            forall|p: int|
                0 <= p < old(ui_state).drink_tray_activated@.len() ==> ui_state.drink_tray_activated@[p]
                    == old(ui_state).drink_tray_activated@[p],
            forall|p: int|
                old(ui_state).drink_tray_activated@.len() <= p
                    < ui_state.drink_tray_activated@.len() ==> !ui_state.drink_tray_activated@[p],
            ui_state.player_selections == old(ui_state).player_selections,
            ui_state.hand_selection_index == old(ui_state).hand_selection_index,
            ui_state.my_cards_selection_index == old(ui_state).my_cards_selection_index,
            ui_state.current_view == old(ui_state).current_view,
            ui_state.viewing_player_id == old(ui_state).viewing_player_id,
            ui_state.player_list_index == old(ui_state).player_list_index,
            ui_state.view_history == old(ui_state).view_history,
        decreases player_id + 1 - ui_state.drink_tray_activated@.len(),
    {
        ui_state.drink_tray_activated.push(false);
    }
    ui_state.drink_tray_activated.set(player_id, true);
    ui_state.view_history.push(GameView::MyCards);
    ui_state.current_view = GameView::Hand;
    ui_state.hand_selection_index = 0;
}

/// Undo a still-pending activation of the extra-draft utility card from the
/// hand view: forget the activation and return to the own-cards view.
pub fn handle_undo_drink_tray(ui_state: &mut GameUIState, player_id: usize)
    requires
        old(ui_state).wf(),
    ensures
        final(ui_state).wf(),
        ({
            let hit = old(ui_state).current_view == GameView::Hand && old(ui_state).tray_active(
                player_id as int,
            );
            if hit {
                &&& !final(ui_state).tray_active(player_id as int)
                &&& final(ui_state).current_view == GameView::MyCards
                &&& final(ui_state).my_cards_selection_index == 0
                &&& final(ui_state).view_history@ == old(ui_state).view_history@.push(
                    GameView::Hand,
                )
            } else {
                *final(ui_state) == *old(ui_state)
            }
        }),
        final(ui_state).player_selections == old(ui_state).player_selections,
{
    if !matches!(ui_state.current_view, GameView::Hand) {
        return ;
    }
    if player_id < ui_state.drink_tray_activated.len() && ui_state.drink_tray_activated[player_id]
    {
        ui_state.drink_tray_activated.set(player_id, false);
        ui_state.view_history.push(GameView::Hand);
        ui_state.current_view = GameView::MyCards;
        ui_state.my_cards_selection_index = 0;
    }
}

/// Confirm the current state on the enter key: in the own-cards view this is
/// an activation attempt; in the hand view a full selection is turned into a
/// `(selected, remaining)` submission for the caller to validate and send.
pub fn handle_enter_key(
    ui_state: &mut GameUIState,
    player_id: usize,
    hand: &CardCounts,
    my_public: &CardCounts,
    my_boosted: &CardCounts,
    max_selections: usize,
) -> (r: (InputAction, Option<(CardCounts, CardCounts)>))
    requires
        old(ui_state).wf(),
        player_id < usize::MAX,
        hand.wf(),
        my_public.wf(),
        my_boosted.wf(),
    ensures
        final(ui_state).wf(),
        r.1 matches Some(s) ==> (r.0 == InputAction::SubmitTurn && s.0.wf() && s.1.wf()
            && forall|k: int|
            0 <= k < NUM_KINDS ==> s.0@[k] + s.1@[k] == hand@[k]),
        r.1 is None ==> r.0 == InputAction::Continue,
{
    match ui_state.current_view {
        GameView::MyCards => {
            handle_drink_tray_activation(ui_state, player_id, my_public, my_boosted);
            (InputAction::Continue, None)
        },
        GameView::Hand => {
            if player_id >= ui_state.player_selections.len() {
                return (InputAction::Continue, None);
            }
            let sel = &ui_state.player_selections[player_id];
            proof {
                crate::counts::lemma_sum_prefix_nonneg(sel@, NUM_KINDS as int);
            }
            let mut fits = true;
            let mut total: u64 = 0;
            let mut i: usize = 0;
            while i < NUM_KINDS
                invariant
                    sel.wf(),
                    hand.wf(),
                    i <= NUM_KINDS,
                    total <= 2 * i,
                    fits ==> total == sum_prefix(sel@, i as int),
                    fits ==> forall|k: int| 0 <= k < i ==> sel@[k] <= hand@[k],
                    fits ==> forall|k: int| 0 <= k < i ==> sel@[k] <= 2,
                decreases NUM_KINDS - i,
            {
                let c = sel.get_index(i);
                if c > hand.get_index(i) || c > 2 {
                    fits = false;
                } else if fits {
                    total = total + c;
                }
                i += 1;
            }
            if !fits || total < max_selections as u64 || total == 0 {
                return (InputAction::Continue, None);
            }
            let selected = sel.clone();
            let mut remaining = hand.clone();
            let mut k: usize = 0;
            while k < NUM_KINDS
                invariant
                    selected.wf(),
                    remaining.wf(),
                    hand.wf(),
                    k <= NUM_KINDS,
                    forall|m: int| 0 <= m < NUM_KINDS ==> selected@[m] <= hand@[m],
                    forall|m: int|
                        0 <= m < k ==> #[trigger] remaining@[m] == hand@[m] - selected@[m],
                    forall|m: int| k <= m < NUM_KINDS ==> #[trigger] remaining@[m] == hand@[m],
                decreases NUM_KINDS - k,
            {
                let take = selected.get_index(k);
                let have = remaining.get_index(k);
                remaining.set_index(k, have - take);
                k += 1;
            }
            (InputAction::SubmitTurn, Some((selected, remaining)))
        },
        GameView::PlayerCards => (InputAction::Continue, None),
    }
}

} // verus!
