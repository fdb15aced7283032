//! The game state machine: players, round/turn counters, pass direction,
//! per-player turn-submission flags, and the resolution of one full turn
//! (drafting with pairing, hand passing, draft effects, round advance).
//!
//! Every mutating operation's contract pins the resulting state down as a
//! function of the prior state, the arguments, and the named ChaCha draw
//! function, so two games with the same seed and the same inputs evolve
//! identically.

use vstd::prelude::*;

use crate::cards::{CardKind, NUM_KINDS};
use crate::config::{fallback_distribution, GameConfig};
use crate::constants::{cards_per_player, cards_per_player_spec};
use crate::counts::{
    add_counts, counts_bounded, hands_sum, lemma_sum_bounded, lemma_sum_prefix_nonneg,
    lemma_sum_prefix_zero, lemma_sum_update, lemma_sum_zero, sum_counts, CardCounts, COUNT_LIMIT,
};
use crate::deck::{draw_spec, Deck};
use crate::player::{Player, PlayerPublic};
use crate::rng::{chacha_pick, random_seed, GameRng};
use crate::scoring::{
    breakdown_entries, calculate_player_score as scoring_calculate, entry_views,
    total_tenths_spec, ScoreBreakdown,
};

verus! {

/// Errors a game operation can return. No operation panics on caller input.
#[derive(Debug)]
pub enum GameError {
    /// A malformed request: bad player count, out-of-range player id,
    /// malformed submission vector, or a submission that fails the hand
    /// reconstruction check.
    InvalidConfig,
    /// The deck cannot cover a full deal for the table.
    NotEnoughCards,
    /// A failure reported by a collaborator outside the rules engine,
    /// carried through for display.
    Other(String),
}

impl GameError {
    /// The display text of the error.
    pub fn message(&self) -> (r: String)
        ensures
            self matches GameError::InvalidConfig ==> r@ == "Invalid configuration"@,
            self matches GameError::NotEnoughCards ==> r@
                == "Not enough cards in deck for new round"@,
            self matches GameError::Other(m) ==> r@ == m@,
    {
        match self {
            GameError::InvalidConfig => "Invalid configuration".to_owned(),
            GameError::NotEnoughCards => "Not enough cards in deck for new round".to_owned(),
            GameError::Other(m) => m.clone(),
        }
    }
}

/// The direction hands travel when passed; alternates with round parity.
#[derive(Clone, Copy, Debug, PartialEq, Eq, Structural)]
pub enum PassDirection {
    Left,
    Right,
}

/// Whether a player has confirmed a selection this turn.
#[derive(Clone, Copy, Debug, PartialEq, Eq, Structural)]
pub enum PlayerTurnState {
    NotSelected,
    Selected,
}

/// A snapshot of the public game state.
pub struct GameStatus {
    pub round: usize,
    pub turn: usize,
    pub round_count: usize,
    pub pass_direction: PassDirection,
    pub is_game_over: bool,
    pub player_turn_states: Vec<PlayerTurnState>,
}

/// The pass direction of a round: odd rounds pass one way, even rounds the
/// other.
pub open spec fn pass_direction_spec(round: int) -> PassDirection {
    if round % 2 == 1 {
        PassDirection::Left
    } else {
        PassDirection::Right
    }
}

/// The player whose hand player `i` receives when hands pass in `dir` at a
/// table of `n`.
pub open spec fn pass_source(dir: PassDirection, i: int, n: int) -> int {
    match dir {
        PassDirection::Left => if i == 0 {
            n - 1
        } else {
            i - 1
        },
        PassDirection::Right => if i == n - 1 {
            0
        } else {
            i + 1
        },
    }
}

/// The id-name-holdings view of a player.
pub open spec fn pview(p: Player) -> (int, Seq<char>, Seq<u64>, Seq<u64>, Seq<u64>) {
    (p.id as int, p.username@, p.hand@, p.public_cards@, p.boosted_fruit_teas@)
}

/// The empty count vector.
pub open spec fn zero_counts() -> Seq<u64> {
    Seq::new(NUM_KINDS as nat, |i: int| 0u64)
}

/// Every player's hand, by seat.
pub open spec fn hands_of(players: Seq<Player>) -> Seq<Seq<u64>> {
    Seq::new(players.len(), |p: int| players[p].hand@)
}

/// `n` empty hands.
pub open spec fn zero_hands(n: int) -> Seq<Seq<u64>> {
    Seq::new(n as nat, |p: int| zero_counts())
}

/// Every player's public collection, by seat.
pub open spec fn publics_of(players: Seq<Player>) -> Seq<Seq<u64>> {
    Seq::new(players.len(), |p: int| players[p].public_cards@)
}

/// Every player's boosted collection, by seat.
pub open spec fn boosteds_of(players: Seq<Player>) -> Seq<Seq<u64>> {
    Seq::new(players.len(), |p: int| players[p].boosted_fruit_teas@)
}

/// The hand, deck and draw history after `n` consecutive draws from the deck
/// into `hand`: each successful draw moves one card; a failed draw (empty
/// pool, no initial distribution) moves nothing.
pub open spec fn draw_n_into(
    hand: Seq<u64>,
    deckc: Seq<u64>,
    initial: Seq<u64>,
    seed: u64,
    hist: Seq<u64>,
    n: int,
) -> (Seq<u64>, Seq<u64>, Seq<u64>)
    decreases n,
{
    if n <= 0 {
        (hand, deckc, hist)
    } else {
        let (h1, d1, hi1) = draw_n_into(hand, deckc, initial, seed, hist, n - 1);
        let (d2, hi2, k) = draw_spec(d1, initial, seed, hi1);
        match k {
            Option::Some(kk) => (
                h1.update(kk.index_spec(), (h1[kk.index_spec()] + 1) as u64),
                d2,
                hi2,
            ),
            Option::None => (h1, d2, hi2),
        }
    }
}

/// The hands, deck and draw history after dealing `cpp` cards to each of the
/// first `k` players in seat order.
pub open spec fn deal_spec(
    hands: Seq<Seq<u64>>,
    deckc: Seq<u64>,
    initial: Seq<u64>,
    seed: u64,
    hist: Seq<u64>,
    cpp: int,
    k: int,
) -> (Seq<Seq<u64>>, Seq<u64>, Seq<u64>)
    decreases k,
{
    if k <= 0 {
        (hands, deckc, hist)
    } else {
        let (hs1, d1, hi1) = deal_spec(hands, deckc, initial, seed, hist, cpp, k - 1);
        let (nh, d2, hi2) = draw_n_into(hs1[k - 1], d1, initial, seed, hi1, cpp);
        (hs1.update(k - 1, nh), d2, hi2)
    }
}

/// The deck counts a configuration asks for: its own distribution, or the
/// built-in fallback mix.
pub open spec fn deck_counts_init(config: GameConfig) -> Seq<u64> {
    match config.card_distribution {
        Option::Some(d) => d@,
        Option::None => crate::config::fallback_counts(),
    }
}

/// The public and boosted collections after drafting the selected units of
/// the kinds with index below `j`, in catalog order, together with the
/// pre-selection booster stock still unconsumed. A selected fruit-tea unit
/// pairs with a booster (moving to the boosted bucket and consuming the
/// booster from the public collection) only while boosters held *before*
/// the selection remain — a booster drafted the same turn never pairs;
/// everything else, and any unpaired remainder, goes to the public
/// collection.
pub open spec fn apply_selection_upto(pubc: Seq<u64>, boo: Seq<u64>, sel: Seq<u64>, j: int) -> (
    Seq<u64>,
    Seq<u64>,
    int,
)
    decreases j,
{
    if j <= 0 {
        (pubc, boo, pubc[CardKind::PoppingBubbles.index_spec()] as int)
    } else {
        let (p1, b1, stock) = apply_selection_upto(pubc, boo, sel, j - 1);
        let k = CardKind::from_index_spec(j - 1);
        let cnt = sel[j - 1] as int;
        if cnt > 0 {
            if k.is_fruit_tea_spec() {
                let pb = CardKind::PoppingBubbles.index_spec();
                let boost = if cnt < stock {
                    cnt
                } else {
                    stock
                };
                let rem = cnt - boost;
                let b2 = b1.update(j - 1, (b1[j - 1] + boost) as u64);
                let p2 = p1.update(pb, (p1[pb] - boost) as u64);
                let p3 = p2.update(j - 1, (p2[j - 1] + rem) as u64);
                (p3, b2, stock - boost)
            } else {
                (p1.update(j - 1, (p1[j - 1] + cnt) as u64), b1, stock)
            }
        } else {
            (p1, b1, stock)
        }
    }
}

/// The full draft of one selection: the resulting public and boosted
/// collections.
pub open spec fn apply_selection(pubc: Seq<u64>, boo: Seq<u64>, sel: Seq<u64>) -> (Seq<u64>, Seq<
    u64,
>) {
    let (p1, b1, stock) = apply_selection_upto(pubc, boo, sel, NUM_KINDS as int);
    (p1, b1)
}

/// A player's public collection after their submission is drafted.
pub open spec fn post_public(pl: Player, sub: Option<(CardCounts, CardCounts)>) -> Seq<u64> {
    match sub {
        Option::Some(s) => apply_selection(pl.public_cards@, pl.boosted_fruit_teas@, s.0@).0,
        Option::None => pl.public_cards@,
    }
}

/// A player's boosted collection after their submission is drafted.
pub open spec fn post_boosted(pl: Player, sub: Option<(CardCounts, CardCounts)>) -> Seq<u64> {
    match sub {
        Option::Some(s) => apply_selection(pl.public_cards@, pl.boosted_fruit_teas@, s.0@).1,
        Option::None => pl.boosted_fruit_teas@,
    }
}

/// A player's hand after their submission is drafted: the submitted
/// remainder, or the unchanged hand when no submission was given.
pub open spec fn post_hand(pl: Player, sub: Option<(CardCounts, CardCounts)>) -> Seq<u64> {
    match sub {
        Option::Some(s) => s.1@,
        Option::None => pl.hand@,
    }
}

/// Every submitted selection and remainder is a well-formed, bounded count
/// vector.
pub open spec fn subs_wf(subs: Seq<Option<(CardCounts, CardCounts)>>) -> bool {
    forall|p: int|
        0 <= p < subs.len() ==> ((#[trigger] subs[p]) matches Option::Some(s) ==> s.0.wf()
            && s.1.wf() && counts_bounded(s.0@) && counts_bounded(s.1@))
}

/// Whether a submission drafts a card with a draft effect.
pub open spec fn hook_flag(sub: Option<(CardCounts, CardCounts)>) -> bool {
    match sub {
        Option::Some(s) => s.0@[CardKind::MysteryTea.index_spec()] > 0,
        Option::None => false,
    }
}

/// Every hand after the turn's drafting, by seat.
pub open spec fn post_hands(players: Seq<Player>, subs: Seq<Option<(CardCounts, CardCounts)>>) -> Seq<
    Seq<u64>,
> {
    Seq::new(players.len(), |p: int| post_hand(players[p], subs[p]))
}

/// The draft-effect flags of the turn, by seat.
pub open spec fn turn_flags(subs: Seq<Option<(CardCounts, CardCounts)>>) -> Seq<bool> {
    Seq::new(subs.len(), |p: int| hook_flag(subs[p]))
}

/// Whether every hand is empty.
pub open spec fn all_hands_empty(hands: Seq<Seq<u64>>) -> bool {
    forall|p: int| 0 <= p < hands.len() ==> sum_counts(#[trigger] hands[p]) == 0
}

/// The hands after one rotation in direction `dir`.
pub open spec fn passed_hands(hands: Seq<Seq<u64>>, dir: PassDirection) -> Seq<Seq<u64>> {
    Seq::new(hands.len(), |p: int| hands[pass_source(dir, p, hands.len() as int)])
}

/// The seat whose hand the drafter's effect rewrites: the one that received
/// the hand the effect card was drafted from, one step along the direction
/// of travel.
pub open spec fn mystery_recv(dir: PassDirection, drafter: int, n: int) -> int {
    match dir {
        PassDirection::Left => (drafter + 1) % n,
        PassDirection::Right => (drafter + n - 1) % n,
    }
}

/// The "wild reshuffle" draft effect: return the receiving seat's whole hand
/// to the deck, then deal that seat a fresh hand of the same size.
pub open spec fn mystery_spec(
    hands: Seq<Seq<u64>>,
    deckc: Seq<u64>,
    initial: Seq<u64>,
    seed: u64,
    hist: Seq<u64>,
    drafter: int,
    dir: PassDirection,
) -> (Seq<Seq<u64>>, Seq<u64>, Seq<u64>) {
    let n = hands.len() as int;
    let recv = mystery_recv(dir, drafter, n);
    let h = hands[recv];
    let hsize = sum_counts(h);
    let d1 = add_counts(deckc, h);
    let (nh, d2, hi2) = draw_n_into(zero_counts(), d1, initial, seed, hist, hsize);
    (hands.update(recv, nh), d2, hi2)
}

/// The hands, deck and draw history after running the remembered draft
/// effects of the first `k` seats, in seat order.
pub open spec fn run_hooks_spec(
    hands: Seq<Seq<u64>>,
    flags: Seq<bool>,
    deckc: Seq<u64>,
    initial: Seq<u64>,
    seed: u64,
    hist: Seq<u64>,
    dir: PassDirection,
    k: int,
) -> (Seq<Seq<u64>>, Seq<u64>, Seq<u64>)
    decreases k,
{
    if k <= 0 {
        (hands, deckc, hist)
    } else {
        let (h1, d1, hi1) = run_hooks_spec(hands, flags, deckc, initial, seed, hist, dir, k - 1);
        if flags[k - 1] {
            mystery_spec(h1, d1, initial, seed, hi1, k - 1, dir)
        } else {
            (h1, d1, hi1)
        }
    }
}

/// Drafting a selection touches only the drafted kinds and the booster
/// count, each by no more than the selected amounts; the unconsumed booster
/// stock never exceeds what was held before the selection.
pub proof fn lemma_apply_selection_bounds(pubc: Seq<u64>, boo: Seq<u64>, sel: Seq<u64>, j: int)
    requires
        pubc.len() == NUM_KINDS,
        boo.len() == NUM_KINDS,
        sel.len() == NUM_KINDS,
        0 <= j <= NUM_KINDS,
        forall|m: int| 0 <= m < NUM_KINDS ==> pubc[m] + sel[m] <= u64::MAX,
        forall|m: int| 0 <= m < NUM_KINDS ==> boo[m] + sel[m] <= u64::MAX,
    ensures
        ({
            let (p1, b1, stock) = apply_selection_upto(pubc, boo, sel, j);
            let pb = CardKind::PoppingBubbles.index_spec();
            &&& p1.len() == NUM_KINDS
            &&& b1.len() == NUM_KINDS
            &&& 0 <= stock <= pubc[pb]
            &&& p1[pb] == stock + (if pb < j {
                sel[pb] as int
            } else {
                0int
            })
            &&& forall|m: int| j <= m < NUM_KINDS && m != pb ==> p1[m] == pubc[m]
            &&& (j <= pb ==> p1[pb] == pubc[pb] && stock == pubc[pb])
            &&& forall|m: int| 0 <= m < NUM_KINDS ==> #[trigger] p1[m] <= pubc[m] + sel[m]
            &&& forall|m: int| j <= m < NUM_KINDS ==> b1[m] == boo[m]
            &&& forall|m: int| 0 <= m < NUM_KINDS ==> #[trigger] b1[m] <= boo[m] + sel[m]
        }),
    decreases j,
{
    if j > 0 {
        lemma_apply_selection_bounds(pubc, boo, sel, j - 1);
    }
}
pub proof fn lemma_deal_spec_untouched(
    hands: Seq<Seq<u64>>,
    deckc: Seq<u64>,
    initial: Seq<u64>,
    seed: u64,
    hist: Seq<u64>,
    cpp: int,
    k: int,
)
    requires
        0 <= k <= hands.len(),
    ensures
        deal_spec(hands, deckc, initial, seed, hist, cpp, k).0.len() == hands.len(),
        forall|q: int|
            k <= q < hands.len() ==> deal_spec(hands, deckc, initial, seed, hist, cpp, k).0[q]
                == hands[q],
    decreases k,
{
    if k > 0 {
        lemma_deal_spec_untouched(hands, deckc, initial, seed, hist, cpp, k - 1);
    }
}

/// A run of `n` draws only adds to the hand (at most `n` cards per kind) and
/// never pushes a deck count above the pool's or the initial distribution's.
pub proof fn lemma_draw_n_into_bounds(
    hand: Seq<u64>,
    deckc: Seq<u64>,
    initial: Seq<u64>,
    seed: u64,
    hist: Seq<u64>,
    n: int,
)
    requires
        0 <= n,
        hand.len() == NUM_KINDS,
        deckc.len() == NUM_KINDS,
        initial.len() == NUM_KINDS,
        sum_counts(deckc) <= u64::MAX,
        sum_counts(initial) <= u64::MAX,
        forall|m: int| 0 <= m < NUM_KINDS ==> hand[m] + n <= u64::MAX,
    ensures
        ({
            let (h, d, hi) = draw_n_into(hand, deckc, initial, seed, hist, n);
            &&& h.len() == NUM_KINDS
            &&& d.len() == NUM_KINDS
            &&& forall|m: int| 0 <= m < NUM_KINDS ==> hand[m] <= #[trigger] h[m] <= hand[m] + n
            &&& forall|m: int|
                0 <= m < NUM_KINDS ==> #[trigger] d[m] <= deckc[m] || d[m] <= initial[m]
            &&& (sum_counts(d) <= sum_counts(deckc) || sum_counts(d) <= sum_counts(initial))
            &&& sum_counts(h) <= sum_counts(hand) + n
        }),
    decreases n,
{
    if n > 0 {
        lemma_draw_n_into_bounds(hand, deckc, initial, seed, hist, n - 1);
        let (h1, d1, hi1) = draw_n_into(hand, deckc, initial, seed, hist, n - 1);
        lemma_sum_prefix_nonneg(d1, NUM_KINDS as int);
        proof_draw_spec_step(h1, d1, initial, seed, hi1);
        let (d2, hi2, k) = draw_spec(d1, initial, seed, hi1);
        match k {
            Option::Some(kk) => {
                lemma_sum_update(h1, kk.index_spec(), (h1[kk.index_spec()] + 1) as u64);
            },
            Option::None => {},
        }
    }
}

/// One draw moves at most one card into the hand and never pushes a deck
/// count above the pool's or the initial distribution's.
proof fn proof_draw_spec_step(h1: Seq<u64>, d1: Seq<u64>, initial: Seq<u64>, seed: u64, hi1: Seq<
    u64,
>)
    requires
        h1.len() == NUM_KINDS,
        d1.len() == NUM_KINDS,
        initial.len() == NUM_KINDS,
        0 <= sum_counts(d1) <= u64::MAX,
        sum_counts(initial) <= u64::MAX,
    ensures
        ({
            let (d2, hi2, k) = draw_spec(d1, initial, seed, hi1);
            &&& d2.len() == NUM_KINDS
            &&& forall|m: int| 0 <= m < NUM_KINDS ==> #[trigger] d2[m] <= d1[m] || d2[m]
                <= initial[m]
            &&& (sum_counts(d2) <= sum_counts(d1) || sum_counts(d2) <= sum_counts(initial))
            &&& (k matches Option::Some(kk) ==> 0 <= kk.index_spec() < NUM_KINDS)
        }),
{
    crate::counts::lemma_sum_prefix_nonneg(d1, NUM_KINDS as int);
    crate::counts::lemma_sum_prefix_nonneg(initial, NUM_KINDS as int);
    if sum_counts(d1) == 0 {
        if sum_counts(initial) == 0 {
        } else {
            let total = sum_counts(initial) as u64;
            let p = chacha_pick(seed, hi1, total) as int % (total as int);
            crate::deck::lemma_pick_index_in_range(initial, p);
            let i = crate::deck::pick_index(initial, p);
            lemma_sum_update(initial, i, (initial[i] - 1) as u64);
            assert(CardKind::from_index_spec(i).index_spec() == i);
        }
    } else {
        let total = sum_counts(d1) as u64;
        let p = chacha_pick(seed, hi1, total) as int % (total as int);
        crate::deck::lemma_pick_index_in_range(d1, p);
        let i = crate::deck::pick_index(d1, p);
        lemma_sum_update(d1, i, (d1[i] - 1) as u64);
        assert(CardKind::from_index_spec(i).index_spec() == i);
    }
}

/// One full game.
pub struct Game {
    pub seed: u64,
    pub rng: GameRng,
    pub deck: Deck,
    pub players: Vec<Player>,
    pub round: usize,
    pub turn: usize,
    pub player_turn_states: Vec<PlayerTurnState>,
    pub round_count: usize,
}

impl Game {
    /// Structural invariant: a supported table size, one flag and one id per
    /// seat, well-formed holdings, and a random source still tied to the
    /// recorded seed.
    pub open spec fn wf(self) -> bool {
        &&& self.deck.wf()
        &&& self.players@.len() >= 2
        &&& cards_per_player_spec(self.players@.len() as int) is Some
        &&& self.player_turn_states@.len() == self.players@.len()
        &&& forall|p: int|
            0 <= p < self.players@.len() ==> (#[trigger] self.players@[p]).wf()
                && self.players@[p].id == p
        &&& self.rng.seed_spec() == self.seed
    }

    /// The counts a deal reads and writes — the pools and the hands — are
    /// far below the count type's range.
    pub open spec fn deal_counts_ok(self) -> bool {
        &&& counts_bounded(self.deck.cards@)
        &&& counts_bounded(self.deck.initial@)
        &&& forall|p: int|
            0 <= p < self.players@.len() ==> counts_bounded((#[trigger] self.players@[p]).hand@)
    }

    /// Every count in the game is far below the count type's range, so a
    /// turn's arithmetic cannot overflow.
    pub open spec fn counts_small(self) -> bool {
        &&& self.deal_counts_ok()
        &&& forall|p: int|
            0 <= p < self.players@.len() ==> counts_bounded(
                (#[trigger] self.players@[p]).public_cards@,
            ) && counts_bounded(self.players@[p].boosted_fruit_teas@)
    }

    /// Total cards across the deck pool and every player's hand, public and
    /// boosted collections.
    pub open spec fn units_total(self) -> int {
        let n = self.players@.len() as int;
        sum_counts(self.deck.cards@) + hands_sum(hands_of(self.players@), n) + hands_sum(
            publics_of(self.players@),
            n,
        ) + hands_sum(boosteds_of(self.players@), n)
    }

    /// The headroom the turn operations preserve: the game's whole card
    /// total, and the recorded initial distribution, stay below
    /// `COUNT_LIMIT`. `Game::new` establishes it, a turn with valid
    /// submissions keeps it (a turn only moves or destroys cards), and it
    /// implies `counts_small`.
    pub open spec fn counts_ok(self) -> bool {
        &&& self.units_total() <= COUNT_LIMIT
        &&& sum_counts(self.deck.initial@) <= COUNT_LIMIT
    }

    pub fn get_current_pass_direction(&self) -> (r: PassDirection)
        ensures
            r == pass_direction_spec(self.round as int),
    {
        if self.round % 2 == 1 {
            PassDirection::Left
        } else {
            PassDirection::Right
        }
    }

    /// Record that a player has confirmed a selection for this turn.
    pub fn mark_player_selected(&mut self, player_id: usize) -> (r: Result<(), GameError>)
        ensures
            player_id < old(self).player_turn_states@.len() ==> r is Ok && final(self).player_turn_states@ == old(self).player_turn_states@.update(
                player_id as int,
                PlayerTurnState::Selected,
            ),
            player_id >= old(self).player_turn_states@.len() ==> (r matches Err(
                GameError::InvalidConfig,
            ) && *final(self) == *old(self)),
            final(self).seed == old(self).seed,
            final(self).rng == old(self).rng,
            final(self).deck == old(self).deck,
            final(self).players == old(self).players,
            final(self).round == old(self).round,
            final(self).turn == old(self).turn,
            final(self).round_count == old(self).round_count,
    {
        if player_id >= self.player_turn_states.len() {
            return Err(GameError::InvalidConfig);
        }
        self.player_turn_states.set(player_id, PlayerTurnState::Selected);
        Ok(())
    }

    /// Whether every seat has confirmed a selection.
    pub fn all_players_selected(&self) -> (r: bool)
        ensures
            r <==> (forall|p: int|
                0 <= p < self.player_turn_states@.len() ==> self.player_turn_states@[p]
                    == PlayerTurnState::Selected),
    {
        let mut i: usize = 0;
        while i < self.player_turn_states.len()
            invariant
                i <= self.player_turn_states@.len(),
                forall|p: int|
                    0 <= p < i ==> self.player_turn_states@[p] == PlayerTurnState::Selected,
            decreases self.player_turn_states@.len() - i,
        {
            if self.player_turn_states[i] != PlayerTurnState::Selected {
                return false;
            }
            i += 1;
        }
        true
    }

    /// Clear every seat's flag for a fresh turn.
    pub fn reset_turn_states(&mut self)
        ensures
            final(self).player_turn_states@.len() == old(self).player_turn_states@.len(),
            forall|p: int|
                0 <= p < final(self).player_turn_states@.len() ==> final(self).player_turn_states@[p] == PlayerTurnState::NotSelected,
            final(self).seed == old(self).seed,
            final(self).rng == old(self).rng,
            final(self).deck == old(self).deck,
            final(self).players == old(self).players,
            final(self).round == old(self).round,
            final(self).turn == old(self).turn,
            final(self).round_count == old(self).round_count,
    {
        let mut i: usize = 0;
        while i < self.player_turn_states.len()
            invariant
                i <= self.player_turn_states@.len(),
                self.player_turn_states@.len() == old(self).player_turn_states@.len(),
                forall|p: int|
                    0 <= p < i ==> self.player_turn_states@[p] == PlayerTurnState::NotSelected,
                self.seed == old(self).seed,
                self.rng == old(self).rng,
                self.deck == old(self).deck,
                self.players == old(self).players,
                self.round == old(self).round,
                self.turn == old(self).turn,
                self.round_count == old(self).round_count,
            decreases self.player_turn_states@.len() - i,
        {
            self.player_turn_states.set(i, PlayerTurnState::NotSelected);
            i += 1;
        }
    }

    /// The structural anti-cheat check: accepted exactly when the selected
    /// cards and the remaining hand together reconstruct the player's
    /// current hand as a multiset.
    pub fn validate_hand_submission(
        &self,
        player_id: usize,
        selected_cards: &CardCounts,
        remaining_hand: &CardCounts,
    ) -> (r: Result<(), GameError>)
        requires
            self.wf(),
            selected_cards.wf(),
            remaining_hand.wf(),
        ensures
            r is Ok <==> (player_id < self.players@.len() && forall|k: int|
                0 <= k < NUM_KINDS ==> selected_cards@[k] + remaining_hand@[k]
                    == self.players@[player_id as int].hand@[k]),
            r is Err ==> r matches Err(GameError::InvalidConfig),
    {
        if player_id >= self.players.len() {
            return Err(GameError::InvalidConfig);
        }
        let hand = &self.players[player_id].hand;
        let mut k: usize = 0;
        while k < NUM_KINDS
            invariant
                self.wf(),
                selected_cards.wf(),
                remaining_hand.wf(),
                player_id < self.players@.len(),
                hand == self.players@[player_id as int].hand,
                k <= NUM_KINDS,
                forall|m: int|
                    0 <= m < k ==> selected_cards@[m] + remaining_hand@[m] == hand@[m],
            decreases NUM_KINDS - k,
        {
            let s = selected_cards.get_index(k);
            let r = remaining_hand.get_index(k);
            let h = hand.get_index(k);
            if s > h || r != h - s {
                return Err(GameError::InvalidConfig);
            }
            k += 1;
        }
        Ok(())
    }

    /// Rotate every hand one seat in the current pass direction.
    pub fn pass_hands(&mut self)
        requires
            old(self).wf(),
        ensures
            final(self).wf(),
            final(self).players@.len() == old(self).players@.len(),
            forall|p: int|
                0 <= p < final(self).players@.len() ==> (#[trigger] final(self).players@[p]).hand@
                    == old(self).players@[pass_source(
                    pass_direction_spec(old(self).round as int),
                    p,
                    old(self).players@.len() as int,
                )].hand@,
            forall|p: int|
                0 <= p < final(self).players@.len() ==> (#[trigger] final(self).players@[p]).id
                    == old(self).players@[p].id && final(self).players@[p].username@ == old(self).players@[p].username@ && final(self).players@[p].public_cards@ == old(self).players@[p].public_cards@ && final(self).players@[p].boosted_fruit_teas@ == old(self).players@[p].boosted_fruit_teas@,
            final(self).seed == old(self).seed,
            final(self).rng == old(self).rng,
            final(self).deck == old(self).deck,
            final(self).round == old(self).round,
            final(self).turn == old(self).turn,
            final(self).round_count == old(self).round_count,
            final(self).player_turn_states == old(self).player_turn_states,
    {
        let direction = self.get_current_pass_direction();
        let num_players = self.players.len();
        let ghost dir = pass_direction_spec(old(self).round as int);
        let ghost n = old(self).players@.len() as int;
        match direction {
            PassDirection::Left => {
                let last_hand = self.players[num_players - 1].hand.clone();
                let mut i: usize = num_players - 1;
                while i >= 1
                    invariant
                        self.wf(),
                        num_players == self.players@.len(),
                        n == num_players as int,
                        0 <= i <= num_players - 1,
                        last_hand.wf(),
                        last_hand@ == old(self).players@[n - 1].hand@,
                        forall|p: int|
                            i < p < n ==> (#[trigger] self.players@[p]).hand@ == old(self).players@[p - 1].hand@,
                        forall|p: int|
                            0 <= p <= i ==> (#[trigger] self.players@[p]).hand@ == old(self).players@[p].hand@,
                        forall|p: int|
                            0 <= p < n ==> (#[trigger] self.players@[p]).id == old(self).players@[p].id && self.players@[p].username@ == old(self).players@[p].username@ && self.players@[p].public_cards@ == old(self).players@[p].public_cards@ && self.players@[p].boosted_fruit_teas@
                                == old(self).players@[p].boosted_fruit_teas@,
                        self.seed == old(self).seed,
                        self.rng == old(self).rng,
                        self.deck == old(self).deck,
                        self.round == old(self).round,
                        self.turn == old(self).turn,
                        self.round_count == old(self).round_count,
                        self.player_turn_states == old(self).player_turn_states,
                    decreases i,
                {
                    let prev_hand = self.players[i - 1].hand.clone();
                    self.set_player_hand(i, prev_hand);
                    i -= 1;
                }
                self.set_player_hand(0, last_hand);
            },
            PassDirection::Right => {
                let first_hand = self.players[0].hand.clone();
                let mut i: usize = 0;
                while i < num_players - 1
                    invariant
                        self.wf(),
                        num_players == self.players@.len(),
                        n == num_players as int,
                        0 <= i <= num_players - 1,
                        first_hand.wf(),
                        first_hand@ == old(self).players@[0].hand@,
                        forall|p: int|
                            0 <= p < i ==> (#[trigger] self.players@[p]).hand@ == old(self).players@[p + 1].hand@,
                        forall|p: int|
                            i <= p < n ==> (#[trigger] self.players@[p]).hand@ == old(self).players@[p].hand@,
                        forall|p: int|
                            0 <= p < n ==> (#[trigger] self.players@[p]).id == old(self).players@[p].id && self.players@[p].username@ == old(self).players@[p].username@ && self.players@[p].public_cards@ == old(self).players@[p].public_cards@ && self.players@[p].boosted_fruit_teas@
                                == old(self).players@[p].boosted_fruit_teas@,
                        self.seed == old(self).seed,
                        self.rng == old(self).rng,
                        self.deck == old(self).deck,
                        self.round == old(self).round,
                        self.turn == old(self).turn,
                        self.round_count == old(self).round_count,
                        self.player_turn_states == old(self).player_turn_states,
                    decreases num_players - 1 - i,
                {
                    let next_hand = self.players[i + 1].hand.clone();
                    self.set_player_hand(i, next_hand);
                    i += 1;
                }
                self.set_player_hand(num_players - 1, first_hand);
            },
        }
    }

    /// Replace one player's hand, leaving everything else as it was.
    fn set_player_hand(&mut self, i: usize, hand: CardCounts)
        requires
            old(self).wf(),
            i < old(self).players@.len(),
            hand.wf(),
        ensures
            final(self).wf(),
            final(self).players@.len() == old(self).players@.len(),
            final(self).players@[i as int].hand@ == hand@,
            final(self).players@[i as int].id == old(self).players@[i as int].id,
            final(self).players@[i as int].username@ == old(self).players@[i as int].username@,
            final(self).players@[i as int].public_cards@ == old(self).players@[i as int].public_cards@,
            final(self).players@[i as int].boosted_fruit_teas@ == old(self).players@[i as int].boosted_fruit_teas@,
            forall|p: int|
                0 <= p < old(self).players@.len() && p != i ==> final(self).players@[p] == old(self).players@[p],
            final(self).seed == old(self).seed,
            final(self).rng == old(self).rng,
            final(self).deck == old(self).deck,
            final(self).round == old(self).round,
            final(self).turn == old(self).turn,
            final(self).round_count == old(self).round_count,
            final(self).player_turn_states == old(self).player_turn_states,
    {
        let p = &self.players[i];
        let replacement = Player {
            id: p.id,
            username: p.username.clone(),
            hand,
            public_cards: p.public_cards.clone(),
            boosted_fruit_teas: p.boosted_fruit_teas.clone(),
        };
        self.players.set(i, replacement);
    }

    /// Whether the game has ended: the final round is reached and every hand
    /// is empty.
    pub open spec fn is_game_over_spec(self) -> bool {
        self.round >= self.round_count && forall|p: int|
            0 <= p < self.players@.len() ==> sum_counts((#[trigger] self.players@[p]).hand@) == 0
    }

    pub fn is_game_over(&self) -> (r: bool)
        requires
            self.wf(),
        ensures
            r == self.is_game_over_spec(),
    {
        if self.round < self.round_count {
            return false;
        }
        let mut i: usize = 0;
        while i < self.players.len()
            invariant
                self.wf(),
                i <= self.players@.len(),
                forall|p: int|
                    0 <= p < i ==> sum_counts((#[trigger] self.players@[p]).hand@) == 0,
            decreases self.players@.len() - i,
        {
            if !self.players[i].hand.is_empty() {
                return false;
            }
            i += 1;
        }
        true
    }

    /// Move one utility card from a player's public cards back to their
    /// hand; the inverse move (drafting it again) undoes it within the same
    /// selection phase.
    pub fn activate_drink_tray(&mut self, player_id: usize) -> (r: Result<(), GameError>)
        requires
            old(self).wf(),
            old(self).counts_small(),
        ensures
            final(self).wf(),
            r is Ok <==> (player_id < old(self).players@.len() && old(self).players@[player_id as int].public_cards@[CardKind::DrinkTray.index_spec()] > 0),
            r is Err ==> (r matches Err(GameError::InvalidConfig) && *final(self) == *old(self)),
            r is Ok ==> ({
                let tray = CardKind::DrinkTray.index_spec();
                let pl = old(self).players@[player_id as int];
                &&& final(self).players@.len() == old(self).players@.len()
                &&& final(self).players@[player_id as int].hand@ == pl.hand@.update(
                    tray,
                    (pl.hand@[tray] + 1) as u64,
                )
                &&& final(self).players@[player_id as int].public_cards@ == pl.public_cards@.update(
                    tray,
                    (pl.public_cards@[tray] - 1) as u64,
                )
                &&& final(self).players@[player_id as int].boosted_fruit_teas@
                    == pl.boosted_fruit_teas@
                &&& final(self).players@[player_id as int].id == pl.id
                &&& final(self).players@[player_id as int].username@ == pl.username@
                &&& forall|p: int|
                    0 <= p < old(self).players@.len() && p != player_id ==> final(self).players@[p] == old(self).players@[p]
            }),
            final(self).seed == old(self).seed,
            final(self).rng == old(self).rng,
            final(self).deck == old(self).deck,
            final(self).round == old(self).round,
            final(self).turn == old(self).turn,
            final(self).round_count == old(self).round_count,
            final(self).player_turn_states == old(self).player_turn_states,
            old(self).counts_ok() ==> (final(self).counts_ok() && final(self).counts_small()),
    {
        if player_id >= self.players.len() {
            return Err(GameError::InvalidConfig);
        }
        let p = &self.players[player_id];
        if p.public_cards.get(CardKind::DrinkTray) == 0 {
            return Err(GameError::InvalidConfig);
        }
        let mut hand = p.hand.clone();
        let mut public_cards = p.public_cards.clone();
        public_cards.sub(CardKind::DrinkTray, 1);
        hand.add(CardKind::DrinkTray, 1);
        let replacement = Player {
            id: p.id,
            username: p.username.clone(),
            hand,
            public_cards,
            boosted_fruit_teas: p.boosted_fruit_teas.clone(),
        };
        self.players.set(player_id, replacement);
        proof {
            if old(self).counts_ok() {
                lemma_one_seat_swap_units(
                    old(self).players@,
                    self.players@,
                    player_id as int,
                    1,
                    -1,
                );
                lemma_counts_ok_small(*self);
            }
        }
        Ok(())
    }

    /// The inverse of `activate_drink_tray`, allowed while the same turn's
    /// selection phase is still open: move one utility card from the
    /// player's hand back to their public cards.
    pub fn undo_drink_tray(&mut self, player_id: usize) -> (r: Result<(), GameError>)
        requires
            old(self).wf(),
            old(self).counts_small(),
        ensures
            final(self).wf(),
            r is Ok <==> (player_id < old(self).players@.len() && old(self).players@[player_id as int].hand@[CardKind::DrinkTray.index_spec()] > 0),
            r is Err ==> (r matches Err(GameError::InvalidConfig) && *final(self) == *old(self)),
            r is Ok ==> ({
                let tray = CardKind::DrinkTray.index_spec();
                let pl = old(self).players@[player_id as int];
                &&& final(self).players@.len() == old(self).players@.len()
                &&& final(self).players@[player_id as int].hand@ == pl.hand@.update(
                    tray,
                    (pl.hand@[tray] - 1) as u64,
                )
                &&& final(self).players@[player_id as int].public_cards@ == pl.public_cards@.update(
                    tray,
                    (pl.public_cards@[tray] + 1) as u64,
                )
                &&& final(self).players@[player_id as int].boosted_fruit_teas@
                    == pl.boosted_fruit_teas@
                &&& final(self).players@[player_id as int].id == pl.id
                &&& final(self).players@[player_id as int].username@ == pl.username@
                &&& forall|p: int|
                    0 <= p < old(self).players@.len() && p != player_id ==> final(self).players@[p] == old(self).players@[p]
            }),
            final(self).seed == old(self).seed,
            final(self).rng == old(self).rng,
            final(self).deck == old(self).deck,
            final(self).round == old(self).round,
            final(self).turn == old(self).turn,
            final(self).round_count == old(self).round_count,
            final(self).player_turn_states == old(self).player_turn_states,
            old(self).counts_ok() ==> (final(self).counts_ok() && final(self).counts_small()),
    {
        if player_id >= self.players.len() {
            return Err(GameError::InvalidConfig);
        }
        let p = &self.players[player_id];
        if p.hand.get(CardKind::DrinkTray) == 0 {
            return Err(GameError::InvalidConfig);
        }
        let mut hand = p.hand.clone();
        let mut public_cards = p.public_cards.clone();
        hand.sub(CardKind::DrinkTray, 1);
        public_cards.add(CardKind::DrinkTray, 1);
        let replacement = Player {
            id: p.id,
            username: p.username.clone(),
            hand,
            public_cards,
            boosted_fruit_teas: p.boosted_fruit_teas.clone(),
        };
        self.players.set(player_id, replacement);
        proof {
            if old(self).counts_ok() {
                lemma_one_seat_swap_units(
                    old(self).players@,
                    self.players@,
                    player_id as int,
                    -1,
                    1,
                );
                lemma_counts_ok_small(*self);
            }
        }
        Ok(())
    }

    /// A player's current hand.
    pub fn get_player_hand(&self, player_id: usize) -> (r: Result<&CardCounts, GameError>)
        requires
            self.wf(),
        ensures
            player_id < self.players@.len() ==> (r matches Ok(h) && h
                == self.players@[player_id as int].hand),
            player_id >= self.players@.len() ==> r matches Err(GameError::InvalidConfig),
    {
        if player_id >= self.players.len() {
            return Err(GameError::InvalidConfig);
        }
        Ok(&self.players[player_id].hand)
    }

    /// Every player's public snapshot.
    pub fn get_players_public(&self) -> (r: Vec<PlayerPublic>)
        requires
            self.wf(),
        ensures
            r@.len() == self.players@.len(),
            forall|p: int|
                0 <= p < r@.len() ==> (#[trigger] r@[p]).id == self.players@[p].id && r@[p].name@
                    == self.players@[p].username@ && r@[p].public_cards@
                    == self.players@[p].public_cards@ && r@[p].boosted_fruit_teas@
                    == self.players@[p].boosted_fruit_teas@,
    {
        let mut out: Vec<PlayerPublic> = Vec::new();
        let mut i: usize = 0;
        while i < self.players.len()
            invariant
                self.wf(),
                i <= self.players@.len(),
                out@.len() == i,
                forall|p: int|
                    0 <= p < i ==> (#[trigger] out@[p]).id == self.players@[p].id && out@[p].name@
                        == self.players@[p].username@ && out@[p].public_cards@
                        == self.players@[p].public_cards@ && out@[p].boosted_fruit_teas@
                        == self.players@[p].boosted_fruit_teas@,
            decreases self.players@.len() - i,
        {
            out.push(self.players[i].to_public());
            i += 1;
        }
        out
    }

    /// One player's public snapshot.
    pub fn get_player_public(&self, player_id: usize) -> (r: Result<PlayerPublic, GameError>)
        requires
            self.wf(),
        ensures
            player_id < self.players@.len() ==> (r matches Ok(pp) && pp.id
                == self.players@[player_id as int].id && pp.name@
                == self.players@[player_id as int].username@ && pp.public_cards@
                == self.players@[player_id as int].public_cards@ && pp.boosted_fruit_teas@
                == self.players@[player_id as int].boosted_fruit_teas@),
            player_id >= self.players@.len() ==> r matches Err(GameError::InvalidConfig),
    {
        if player_id >= self.players.len() {
            return Err(GameError::InvalidConfig);
        }
        Ok(self.players[player_id].to_public())
    }

    /// The public counters and flags.
    pub fn get_game_status(&self) -> (r: GameStatus)
        requires
            self.wf(),
        ensures
            r.round == self.round,
            r.turn == self.turn,
            r.round_count == self.round_count,
            r.pass_direction == pass_direction_spec(self.round as int),
            r.is_game_over == self.is_game_over_spec(),
            r.player_turn_states@ == self.player_turn_states@,
    {
        let mut flags: Vec<PlayerTurnState> = Vec::new();
        let mut i: usize = 0;
        while i < self.player_turn_states.len()
            invariant
                i <= self.player_turn_states@.len(),
                flags@.len() == i,
                forall|p: int| 0 <= p < i ==> flags@[p] == self.player_turn_states@[p],
            decreases self.player_turn_states@.len() - i,
        {
            flags.push(self.player_turn_states[i]);
            i += 1;
        }
        proof {
            assert(flags@ =~= self.player_turn_states@);
        }
        GameStatus {
            round: self.round,
            turn: self.turn,
            round_count: self.round_count,
            pass_direction: self.get_current_pass_direction(),
            is_game_over: self.is_game_over(),
            player_turn_states: flags,
        }
    }

    /// Current round number (1-based).
    pub fn get_round(&self) -> (r: usize)
        ensures
            r == self.round,
    {
        self.round
    }

    /// Current turn number within the round (1-based).
    pub fn get_turn(&self) -> (r: usize)
        ensures
            r == self.turn,
    {
        self.turn
    }

    /// Number of seats at the table.
    pub fn num_players(&self) -> (r: usize)
        ensures
            r == self.players@.len(),
    {
        self.players.len()
    }

    /// One seat's turn flag.
    pub fn get_player_turn_state(&self, player_id: usize) -> (r: Result<
        PlayerTurnState,
        GameError,
    >)
        ensures
            player_id < self.player_turn_states@.len() ==> (r matches Ok(s) && s
                == self.player_turn_states@[player_id as int]),
            player_id >= self.player_turn_states@.len() ==> r matches Err(GameError::InvalidConfig),
    {
        if player_id >= self.player_turn_states.len() {
            return Err(GameError::InvalidConfig);
        }
        Ok(self.player_turn_states[player_id])
    }

    /// Advance to the next turn of the same round: bump the counter and
    /// clear every flag.
    pub fn next_turn(&mut self)
        requires
            old(self).turn < usize::MAX,
        ensures
            final(self).turn == old(self).turn + 1,
            final(self).player_turn_states@.len() == old(self).player_turn_states@.len(),
            forall|p: int|
                0 <= p < final(self).player_turn_states@.len() ==> final(self).player_turn_states@[p] == PlayerTurnState::NotSelected,
            final(self).seed == old(self).seed,
            final(self).rng == old(self).rng,
            final(self).deck == old(self).deck,
            final(self).players == old(self).players,
            final(self).round == old(self).round,
            final(self).round_count == old(self).round_count,
    {
        self.turn = self.turn + 1;
        self.reset_turn_states();
    }

    /// Deal `cards_per_player` cards to every player in seat order, one draw
    /// at a time; fails up front, without drawing, when the pool cannot
    /// cover the full deal.
    fn distribute_cards(&mut self, cards_per_player: usize) -> (r: Result<(), GameError>)
        requires
            old(self).wf(),
            old(self).deal_counts_ok(),
            cards_per_player <= 10,
        ensures
            final(self).wf(),
            old(self).deck.total < old(self).players@.len() * cards_per_player ==> (r matches Err(
                GameError::NotEnoughCards,
            ) && *final(self) == *old(self)),
            old(self).deck.total >= old(self).players@.len() * cards_per_player ==> (r is Ok && ({
                let (hs, dc, hi) = deal_spec(
                    hands_of(old(self).players@),
                    old(self).deck.cards@,
                    old(self).deck.initial@,
                    old(self).rng.seed_spec(),
                    old(self).rng.history_spec(),
                    cards_per_player as int,
                    old(self).players@.len() as int,
                );
                &&& final(self).players@.len() == old(self).players@.len()
                &&& forall|p: int|
                    0 <= p < old(self).players@.len() ==> (#[trigger] final(self).players@[p]).hand@ == hs[p]
                &&& forall|p: int|
                    0 <= p < old(self).players@.len() ==> (#[trigger] final(self).players@[p]).id
                        == old(self).players@[p].id && final(self).players@[p].username@ == old(self).players@[p].username@ && final(self).players@[p].public_cards@ == old(self).players@[p].public_cards@ && final(self).players@[p].boosted_fruit_teas@
                        == old(self).players@[p].boosted_fruit_teas@
                &&& final(self).deck.cards@ == dc
                &&& final(self).rng.history_spec() == hi
            })),
            final(self).deck.initial@ == old(self).deck.initial@,
            final(self).rng.seed_spec() == old(self).rng.seed_spec(),
            final(self).seed == old(self).seed,
            final(self).round == old(self).round,
            final(self).turn == old(self).turn,
            final(self).round_count == old(self).round_count,
            final(self).player_turn_states == old(self).player_turn_states,
    {
        let num_players = self.players.len();
        assert(num_players <= 5);
        let total_needed = num_players * cards_per_player;
        if self.deck.size() < total_needed as u64 {
            return Err(GameError::NotEnoughCards);
        }
        let ghost seed = self.rng.seed_spec();
        let ghost hist0 = self.rng.history_spec();
        let ghost hands0 = hands_of(old(self).players@);
        let ghost deck0 = old(self).deck.cards@;
        let ghost initial0 = old(self).deck.initial@;
        let mut p: usize = 0;
        while p < num_players
            invariant
                self.wf(),
                old(self).wf(),
                old(self).deal_counts_ok(),
                num_players == self.players@.len(),
                num_players == old(self).players@.len(),
                cards_per_player <= 10,
                p <= num_players,
                seed == old(self).rng.seed_spec(),
                hist0 == old(self).rng.history_spec(),
                hands0 == hands_of(old(self).players@),
                deck0 == old(self).deck.cards@,
                initial0 == old(self).deck.initial@,
                ({
                    let (hs, dc, hi) = deal_spec(
                        hands0,
                        deck0,
                        initial0,
                        seed,
                        hist0,
                        cards_per_player as int,
                        p as int,
                    );
                    &&& forall|q: int|
                        0 <= q < p ==> (#[trigger] self.players@[q]).hand@ == hs[q]
                    &&& self.deck.cards@ == dc
                    &&& self.rng.history_spec() == hi
                }),
                forall|q: int|
                    p <= q < num_players ==> (#[trigger] self.players@[q]).hand@ == old(self).players@[q].hand@,
                forall|q: int|
                    0 <= q < num_players ==> (#[trigger] self.players@[q]).id == old(self).players@[q].id && self.players@[q].username@ == old(self).players@[q].username@ && self.players@[q].public_cards@ == old(self).players@[q].public_cards@ && self.players@[q].boosted_fruit_teas@ == old(self).players@[q].boosted_fruit_teas@,
                self.deck.initial@ == old(self).deck.initial@,
                self.rng.seed_spec() == seed,
                self.seed == old(self).seed,
                self.round == old(self).round,
                self.turn == old(self).turn,
                self.round_count == old(self).round_count,
                self.player_turn_states == old(self).player_turn_states,
            decreases num_players - p,
        {
            let ghost step0 = deal_spec(
                hands0,
                deck0,
                initial0,
                seed,
                hist0,
                cards_per_player as int,
                p as int,
            );
            let mut hand = self.players[p].hand.clone();
            let ghost hand0 = hand@;
            let ghost d0 = self.deck.cards@;
            let ghost hi0 = self.rng.history_spec();
            let ghost players_snap = self.players@;
            proof {
                lemma_sum_bounded(old(self).players@[p as int].hand@, NUM_KINDS as int);
                lemma_sum_bounded(old(self).deck.initial@, NUM_KINDS as int);
            }
            let mut c: usize = 0;
            while c < cards_per_player
                invariant
                    old(self).wf(),
                    old(self).deal_counts_ok(),
                    self.wf(),
                    hand.wf(),
                    cards_per_player <= 10,
                    c <= cards_per_player,
                    p < num_players,
                    num_players == self.players@.len(),
                    num_players == old(self).players@.len(),
                    counts_bounded(hand0),
                    hand0.len() == NUM_KINDS,
                    d0.len() == NUM_KINDS,
                    initial0.len() == NUM_KINDS,
                    sum_counts(d0) <= u64::MAX,
                    sum_counts(initial0) <= u64::MAX,
                    initial0 == old(self).deck.initial@,
                    self.deck.initial@ == initial0,
                    seed == old(self).rng.seed_spec(),
                    self.rng.seed_spec() == seed,
                    ({
                        let (h, d, hi) = draw_n_into(hand0, d0, initial0, seed, hi0, c as int);
                        hand@ == h && self.deck.cards@ == d && self.rng.history_spec() == hi
                    }),
                    self.players@ == players_snap,
                    self.seed == old(self).seed,
                    self.round == old(self).round,
                    self.turn == old(self).turn,
                    self.round_count == old(self).round_count,
                    self.player_turn_states == old(self).player_turn_states,
                decreases cards_per_player - c,
            {
                let drawn = self.deck.draw(&mut self.rng);
                proof {
                    lemma_draw_n_into_bounds(hand0, d0, initial0, seed, hi0, c as int);
                    lemma_sum_prefix_nonneg(self.deck.cards@, NUM_KINDS as int);
                }
                match drawn {
                    Some(card) => {
                        hand.add(card, 1);
                    },
                    None => {},
                }
                c += 1;
            }
            let ghost final_hand = hand@;
            let ghost final_deck = self.deck.cards@;
            let ghost final_hist = self.rng.history_spec();
            self.set_player_hand(p, hand);
            proof {
                lemma_deal_spec_untouched(
                    hands0,
                    deck0,
                    initial0,
                    seed,
                    hist0,
                    cards_per_player as int,
                    p as int,
                );
                assert(hands0.len() == num_players);
                assert(hand0 == hands0[p as int]);
                let prev = deal_spec(
                    hands0,
                    deck0,
                    initial0,
                    seed,
                    hist0,
                    cards_per_player as int,
                    p as int,
                );
                assert(prev.0[p as int] == hands0[p as int]);
                let step = draw_n_into(
                    prev.0[p as int],
                    prev.1,
                    initial0,
                    seed,
                    prev.2,
                    cards_per_player as int,
                );
                assert(final_hand == step.0);
                assert(final_deck == step.1);
                assert(final_hist == step.2);
                let next = deal_spec(
                    hands0,
                    deck0,
                    initial0,
                    seed,
                    hist0,
                    cards_per_player as int,
                    p + 1,
                );
                assert(next.0 == prev.0.update(p as int, step.0));
                assert(next.1 == step.1);
                assert(next.2 == step.2);
            }
            p += 1;
        }
        Ok(())
    }

    /// Deal a fresh round: a new hand for every player, the round counter
    /// bumped, the turn reset to 1, every flag cleared. Fails on the final
    /// round, or when the deck cannot cover the deal (then nothing changes).
    pub fn start_new_round(&mut self) -> (r: Result<(), GameError>)
        requires
            old(self).wf(),
            old(self).deal_counts_ok(),
        ensures
            final(self).wf(),
            old(self).round >= old(self).round_count ==> (r matches Err(GameError::InvalidConfig)
                && *final(self) == *old(self)),
            old(self).round < old(self).round_count ==> ({
                let n = old(self).players@.len() as int;
                let cpp = cards_per_player_spec(n)->Some_0;
                if old(self).deck.total < n * cpp {
                    &&& r matches Err(GameError::NotEnoughCards)
                    &&& *final(self) == *old(self)
                } else {
                    let (hs, dc, hi) = deal_spec(
                        hands_of(old(self).players@),
                        old(self).deck.cards@,
                        old(self).deck.initial@,
                        old(self).rng.seed_spec(),
                        old(self).rng.history_spec(),
                        cpp as int,
                        n,
                    );
                    &&& r is Ok
                    &&& final(self).players@.len() == old(self).players@.len()
                    &&& forall|p: int|
                        0 <= p < n ==> (#[trigger] final(self).players@[p]).hand@ == hs[p]
                    &&& forall|p: int|
                        0 <= p < n ==> (#[trigger] final(self).players@[p]).id == old(self).players@[p].id && final(self).players@[p].username@ == old(self).players@[p].username@ && final(self).players@[p].public_cards@ == old(self).players@[p].public_cards@ && final(self).players@[p].boosted_fruit_teas@ == old(self).players@[p].boosted_fruit_teas@
                    &&& final(self).deck.cards@ == dc
                    &&& final(self).rng.history_spec() == hi
                    &&& final(self).round == old(self).round + 1
                    &&& final(self).turn == 1
                    &&& forall|p: int|
                        0 <= p < final(self).player_turn_states@.len() ==> final(self).player_turn_states@[p] == PlayerTurnState::NotSelected
                }
            }),
            final(self).deck.initial@ == old(self).deck.initial@,
            final(self).rng.seed_spec() == old(self).rng.seed_spec(),
            final(self).seed == old(self).seed,
            final(self).round_count == old(self).round_count,
            final(self).player_turn_states@.len() == old(self).player_turn_states@.len(),
            old(self).counts_ok() ==> (final(self).counts_ok() && final(self).counts_small()),
    {
        if self.round >= self.round_count {
            proof {
                if old(self).counts_ok() {
                    lemma_counts_ok_small(*self);
                }
            }
            return Err(GameError::InvalidConfig);
        }
        let num_players = self.players.len();
        let cpp = match cards_per_player(num_players) {
            Some(c) => c,
            None => {
                proof {
                    assert(false);
                }
                return Err(GameError::InvalidConfig);
            },
        };
        match self.distribute_cards(cpp) {
            Err(e) => {
                proof {
                    if old(self).counts_ok() {
                        lemma_counts_ok_small(*self);
                    }
                }
                Err(e)
            },
            Ok(()) => {
                proof {
                    if old(self).counts_ok() {
                        let n = old(self).players@.len() as int;
                        let cppi = cpp as int;
                        let hands0 = hands_of(old(self).players@);
                        assert forall|q: int|
                            0 <= q < n implies (#[trigger] hands0[q]).len() == NUM_KINDS && (
                        forall|m: int|
                            0 <= m < NUM_KINDS ==> #[trigger] hands0[q][m] + cppi
                                <= u64::MAX) by {
                            assert(hands0[q] == old(self).players@[q].hand@);
                            assert(counts_bounded(old(self).players@[q].hand@));
                        }
                        lemma_deal_conserves(
                            hands0,
                            old(self).deck.cards@,
                            old(self).deck.initial@,
                            old(self).rng.seed_spec(),
                            old(self).rng.history_spec(),
                            cppi,
                            n,
                        );
                        lemma_deal_spec_untouched(
                            hands0,
                            old(self).deck.cards@,
                            old(self).deck.initial@,
                            old(self).rng.seed_spec(),
                            old(self).rng.history_spec(),
                            cppi,
                            n,
                        );
                        let (hs, dc, hi) = deal_spec(
                            hands0,
                            old(self).deck.cards@,
                            old(self).deck.initial@,
                            old(self).rng.seed_spec(),
                            old(self).rng.history_spec(),
                            cppi,
                            n,
                        );
                        assert(hands_of(self.players@) =~= hs);
                        crate::counts::lemma_hands_sum_congruence(hands_of(self.players@), hs, n);
                        assert(publics_of(self.players@) =~= publics_of(old(self).players@));
                        crate::counts::lemma_hands_sum_congruence(
                            publics_of(self.players@),
                            publics_of(old(self).players@),
                            n,
                        );
                        assert(boosteds_of(self.players@) =~= boosteds_of(old(self).players@));
                        crate::counts::lemma_hands_sum_congruence(
                            boosteds_of(self.players@),
                            boosteds_of(old(self).players@),
                            n,
                        );
                        lemma_counts_ok_small(*self);
                    }
                }
                self.round = self.round + 1;
                self.turn = 1;
                self.reset_turn_states();
                Ok(())
            },
        }
    }

    /// Build a game from a configuration: reject an unsupported table size,
    /// seed the random source (from the configuration's seed, or a fresh
    /// random one reported back in the result's `seed`), build the deck from
    /// the configured or fallback distribution, and deal the first round.
    pub fn new(config: GameConfig) -> (r: Result<Game, GameError>)
        requires
            config.wf(),
            config.card_distribution matches Some(d) ==> sum_counts(d@) <= COUNT_LIMIT,
        ensures
            cards_per_player_spec(config.player_names@.len() as int) is None ==> r matches Err(
                GameError::InvalidConfig,
            ),
            cards_per_player_spec(config.player_names@.len() as int) matches Some(cpp) ==> ({
                let n = config.player_names@.len() as int;
                let dist = deck_counts_init(config);
                if sum_counts(dist) < n * cpp {
                    r matches Err(GameError::NotEnoughCards)
                } else {
                    &&& r matches Ok(g)
                    &&& g.wf()
                    &&& g.counts_small()
                    &&& g.counts_ok()
                    &&& (config.seed matches Some(s) ==> g.seed == s)
                    &&& g.round == 1
                    &&& g.turn == 1
                    &&& g.round_count == config.round_count
                    &&& g.players@.len() == n
                    &&& g.player_turn_states@.len() == n
                    &&& (forall|p: int|
                        0 <= p < n ==> g.player_turn_states@[p] == PlayerTurnState::NotSelected)
                    &&& (forall|p: int|
                        0 <= p < n ==> (#[trigger] g.players@[p]).id == p
                            && g.players@[p].username@ == config.player_names@[p]@
                            && g.players@[p].public_cards@ == zero_counts()
                            && g.players@[p].boosted_fruit_teas@ == zero_counts())
                    &&& g.deck.initial@ == dist
                    &&& ({
                        let (hs, dc, hi) = deal_spec(
                            zero_hands(n),
                            dist,
                            dist,
                            g.seed,
                            Seq::<u64>::empty(),
                            cpp as int,
                            n,
                        );
                        &&& (forall|p: int|
                            0 <= p < n ==> (#[trigger] g.players@[p]).hand@ == hs[p])
                        &&& g.deck.cards@ == dc
                        &&& g.rng.history_spec() == hi
                        &&& g.rng.seed_spec() == g.seed
                    })
                }
            }),
    {
        let num_players = config.player_names.len();
        let cpp = match cards_per_player(num_players) {
            Some(c) => c,
            None => {
                return Err(GameError::InvalidConfig);
            },
        };
        let GameConfig { player_names, seed: seed_opt, round_count, card_distribution } = config;
        let seed = match seed_opt {
            Some(s) => s,
            None => random_seed(),
        };
        let rng = GameRng::from_seed(seed);
        let dist: CardCounts = match card_distribution {
            Some(d) => d,
            None => fallback_distribution(),
        };
        proof {
            assert forall|m: int| 0 <= m < NUM_KINDS implies dist@[m] <= COUNT_LIMIT by {
                crate::counts::lemma_sum_prefix_bound(dist@, m, NUM_KINDS as int);
            }
            lemma_sum_bounded(dist@, NUM_KINDS as int);
        }
        let deck = Deck::with_cards(dist);
        let mut players: Vec<Player> = Vec::new();
        let mut player_turn_states: Vec<PlayerTurnState> = Vec::new();
        let mut i: usize = 0;
        while i < num_players
            invariant
                i <= num_players,
                num_players == player_names@.len(),
                players@.len() == i,
                player_turn_states@.len() == i,
                forall|p: int|
                    0 <= p < i ==> (#[trigger] players@[p]).id == p && players@[p].username@
                        == player_names@[p]@ && players@[p].wf() && players@[p].hand@
                        == zero_counts() && players@[p].public_cards@ == zero_counts()
                        && players@[p].boosted_fruit_teas@ == zero_counts(),
                forall|p: int|
                    0 <= p < i ==> player_turn_states@[p] == PlayerTurnState::NotSelected,
            decreases num_players - i,
        {
            let hand = CardCounts::new();
            let public_cards = CardCounts::new();
            let boosted_fruit_teas = CardCounts::new();
            proof {
                assert(hand@ =~= zero_counts());
                assert(public_cards@ =~= zero_counts());
                assert(boosted_fruit_teas@ =~= zero_counts());
            }
            players.push(
                Player {
                    id: i,
                    username: player_names[i].clone(),
                    hand,
                    public_cards,
                    boosted_fruit_teas,
                },
            );
            player_turn_states.push(PlayerTurnState::NotSelected);
            i += 1;
        }
        let mut game = Game {
            seed,
            rng,
            deck,
            players,
            round: 1,
            turn: 1,
            player_turn_states,
            round_count,
        };
        proof {
            assert(hands_of(game.players@) =~= zero_hands(num_players as int));
        }
        match game.distribute_cards(cpp) {
            Ok(()) => {
                proof {
                    let n = num_players as int;
                    let dist0 = deck_counts_init(config);
                    lemma_deal_spec_untouched(
                        zero_hands(n),
                        dist0,
                        dist0,
                        seed,
                        Seq::<u64>::empty(),
                        cpp as int,
                        n,
                    );
                    lemma_game_counts_small_after_deal(game, dist0, seed, cpp as int);
                    assert forall|q: int|
                        0 <= q < n implies (#[trigger] zero_hands(n)[q]).len() == NUM_KINDS && (
                    forall|m: int|
                        0 <= m < NUM_KINDS ==> #[trigger] zero_hands(n)[q][m] + cpp
                            <= u64::MAX) by {
                        assert(zero_hands(n)[q] == zero_counts());
                    }
                    lemma_deal_conserves(
                        zero_hands(n),
                        dist0,
                        dist0,
                        seed,
                        Seq::<u64>::empty(),
                        cpp as int,
                        n,
                    );
                    lemma_zero_hands_sum(n, n);
                    let (hs, dc, hi) = deal_spec(
                        zero_hands(n),
                        dist0,
                        dist0,
                        seed,
                        Seq::<u64>::empty(),
                        cpp as int,
                        n,
                    );
                    assert(hands_of(game.players@) =~= hs);
                    crate::counts::lemma_hands_sum_congruence(hands_of(game.players@), hs, n);
                    assert(publics_of(game.players@) =~= zero_hands(n));
                    crate::counts::lemma_hands_sum_congruence(
                        publics_of(game.players@),
                        zero_hands(n),
                        n,
                    );
                    assert(boosteds_of(game.players@) =~= zero_hands(n));
                    crate::counts::lemma_hands_sum_congruence(
                        boosteds_of(game.players@),
                        zero_hands(n),
                        n,
                    );
                    assert(game.units_total() == sum_counts(dist0));
                    assert(game.counts_ok());
                }
                Ok(game)
            },
            Err(e) => Err(e),
        }
    }

    /// Compute one player's itemized score from the current public state.
    pub fn calculate_player_score(&self, player_id: usize) -> (r: Result<
        (i64, ScoreBreakdown),
        GameError,
    >)
        requires
            self.wf(),
            self.counts_small(),
        ensures
            player_id < self.players@.len() ==> (r matches Ok(t) && entry_views(
                t.1.category_scores@,
            ) == breakdown_entries(
                self.players@[player_id as int],
                self.players@,
                player_id as int,
            ) && t.1.total_tenths == total_tenths_spec(
                self.players@[player_id as int],
                self.players@,
                player_id as int,
            ) && t.0 == t.1.total_tenths),
            player_id >= self.players@.len() ==> r matches Err(GameError::InvalidConfig),
    {
        if player_id >= self.players.len() {
            return Err(GameError::InvalidConfig);
        }
        let breakdown = scoring_calculate(&self.players[player_id], &self.players, player_id);
        let total = breakdown.total_tenths;
        Ok((total, breakdown))
    }

    /// Draft one player's selected cards into their public and boosted
    /// collections, applying the booster pairing rule kind by kind in
    /// catalog order; pairing consumes only boosters the player held
    /// publicly before this draft. The hand is not touched here.
    fn apply_selection_player(&mut self, p: usize, sel: &CardCounts)
        requires
            old(self).wf(),
            p < old(self).players@.len(),
            sel.wf(),
            counts_bounded(sel@),
            counts_bounded(old(self).players@[p as int].public_cards@),
            counts_bounded(old(self).players@[p as int].boosted_fruit_teas@),
        ensures
            final(self).wf(),
            final(self).players@.len() == old(self).players@.len(),
            ({
                let pl = old(self).players@[p as int];
                let (p1, b1) = apply_selection(pl.public_cards@, pl.boosted_fruit_teas@, sel@);
                &&& final(self).players@[p as int].public_cards@ == p1
                &&& final(self).players@[p as int].boosted_fruit_teas@ == b1
                &&& final(self).players@[p as int].hand@ == pl.hand@
                &&& final(self).players@[p as int].id == pl.id
                &&& final(self).players@[p as int].username@ == pl.username@
            }),
            forall|q: int|
                0 <= q < old(self).players@.len() && q != p ==> final(self).players@[q] == old(self).players@[q],
            final(self).seed == old(self).seed,
            final(self).rng == old(self).rng,
            final(self).deck == old(self).deck,
            final(self).round == old(self).round,
            final(self).turn == old(self).turn,
            final(self).round_count == old(self).round_count,
            final(self).player_turn_states == old(self).player_turn_states,
    {
        let pl = &self.players[p];
        let id = pl.id;
        let username = pl.username.clone();
        let hand = pl.hand.clone();
        let mut pubc = pl.public_cards.clone();
        let mut boo = pl.boosted_fruit_teas.clone();
        let ghost pub0 = pubc@;
        let ghost boo0 = boo@;
        let mut stock = pubc.get(CardKind::PoppingBubbles);
        let mut j: usize = 0;
        while j < NUM_KINDS
            invariant
                pubc.wf(),
                boo.wf(),
                sel.wf(),
                j <= NUM_KINDS,
                counts_bounded(pub0),
                counts_bounded(boo0),
                counts_bounded(sel@),
                pub0.len() == NUM_KINDS,
                boo0.len() == NUM_KINDS,
                pubc@ == apply_selection_upto(pub0, boo0, sel@, j as int).0,
                boo@ == apply_selection_upto(pub0, boo0, sel@, j as int).1,
                stock as int == apply_selection_upto(pub0, boo0, sel@, j as int).2,
            decreases NUM_KINDS - j,
        {
            proof {
                lemma_apply_selection_bounds(pub0, boo0, sel@, j as int);
                lemma_apply_selection_bounds(pub0, boo0, sel@, j + 1);
            }
            let k = CardKind::from_index(j);
            let cnt = sel.get_index(j);
            if cnt > 0 {
                if k.is_fruit_tea() {
                    let boost = if cnt < stock {
                        cnt
                    } else {
                        stock
                    };
                    let rem = cnt - boost;
                    boo.add(k, boost);
                    pubc.sub(CardKind::PoppingBubbles, boost);
                    pubc.add(k, rem);
                    stock = stock - boost;
                } else {
                    pubc.add(k, cnt);
                }
            }
            j += 1;
        }
        let replacement = Player {
            id,
            username,
            hand,
            public_cards: pubc,
            boosted_fruit_teas: boo,
        };
        self.players.set(p, replacement);
    }

    /// Run the "wild reshuffle" draft effect recorded for `drafter`: replace
    /// the receiving seat's hand with an equal number of fresh cards drawn
    /// after the old hand returns to the deck.
    fn apply_mystery(&mut self, drafter: usize)
        requires
            old(self).wf(),
            drafter < old(self).players@.len(),
            counts_bounded(old(self).deck.initial@),
            old(self).deck.total + 2952790016 <= u64::MAX,
            forall|p: int|
                0 <= p < old(self).players@.len() ==> sum_counts(
                    (#[trigger] old(self).players@[p]).hand@,
                ) <= 2952790016,
        ensures
            final(self).wf(),
            final(self).players@.len() == old(self).players@.len(),
            ({
                let (hands2, d2, hi2) = mystery_spec(
                    hands_of(old(self).players@),
                    old(self).deck.cards@,
                    old(self).deck.initial@,
                    old(self).rng.seed_spec(),
                    old(self).rng.history_spec(),
                    drafter as int,
                    pass_direction_spec(old(self).round as int),
                );
                &&& forall|p: int|
                    0 <= p < old(self).players@.len() ==> (#[trigger] final(self).players@[p]).hand@ == hands2[p]
                &&& final(self).deck.cards@ == d2
                &&& final(self).rng.history_spec() == hi2
            }),
            forall|p: int|
                0 <= p < old(self).players@.len() ==> (#[trigger] final(self).players@[p]).id
                    == old(self).players@[p].id && final(self).players@[p].username@ == old(self).players@[p].username@ && final(self).players@[p].public_cards@ == old(self).players@[p].public_cards@ && final(self).players@[p].boosted_fruit_teas@ == old(self).players@[p].boosted_fruit_teas@,
            forall|p: int|
                0 <= p < old(self).players@.len() ==> sum_counts(
                    (#[trigger] final(self).players@[p]).hand@,
                ) <= 2952790016,
            final(self).deck.total <= old(self).deck.total + 2952790016,
            final(self).deck.initial@ == old(self).deck.initial@,
            final(self).rng.seed_spec() == old(self).rng.seed_spec(),
            final(self).seed == old(self).seed,
            final(self).round == old(self).round,
            final(self).turn == old(self).turn,
            final(self).round_count == old(self).round_count,
            final(self).player_turn_states == old(self).player_turn_states,
    {
        let direction = self.get_current_pass_direction();
        let num_players = self.players.len();
        let ghost n = num_players as int;
        let recv = match direction {
            PassDirection::Left => if drafter == num_players - 1 {
                0
            } else {
                drafter + 1
            },
            PassDirection::Right => if drafter == 0 {
                num_players - 1
            } else {
                drafter - 1
            },
        };
        proof {
            assert(recv as int == mystery_recv(direction, drafter as int, n)) by (nonlinear_arith)
                requires
                    0 <= drafter < n,
                    n >= 2,
                    recv as int == (match direction {
                        PassDirection::Left => if drafter as int == n - 1 { 0int } else { drafter as int + 1 },
                        PassDirection::Right => if drafter as int == 0 { n - 1 } else { drafter as int - 1 },
                    }),
            ;
        }
        let hand = self.players[recv].hand.clone();
        let hand_size = hand.total();
        let ghost hsize = sum_counts(hand@);
        self.deck.extend(&hand);
        let ghost d1 = self.deck.cards@;
        let ghost hi1 = self.rng.history_spec();
        let ghost seed = self.rng.seed_spec();
        let ghost initial0 = self.deck.initial@;
        let mut new_hand = CardCounts::new();
        proof {
            assert(new_hand@ =~= zero_counts());
            lemma_sum_prefix_zero(new_hand@, NUM_KINDS as int);
        }
        let mut c: u64 = 0;
        while c < hand_size
            invariant
                self.wf(),
                new_hand.wf(),
                c <= hand_size,
                hsize == hand_size,
                d1.len() == NUM_KINDS,
                initial0.len() == NUM_KINDS,
                counts_bounded(initial0),
                sum_counts(d1) <= u64::MAX,
                sum_counts(initial0) <= u64::MAX,
                self.deck.initial@ == initial0,
                self.rng.seed_spec() == seed,
                ({
                    let (h, d, hi) = draw_n_into(zero_counts(), d1, initial0, seed, hi1, c as int);
                    new_hand@ == h && self.deck.cards@ == d && self.rng.history_spec() == hi
                }),
                self.players@ == old(self).players@,
                self.seed == old(self).seed,
                self.round == old(self).round,
                self.turn == old(self).turn,
                self.round_count == old(self).round_count,
                self.player_turn_states == old(self).player_turn_states,
            decreases hand_size - c,
        {
            proof {
                lemma_draw_n_into_bounds(zero_counts(), d1, initial0, seed, hi1, c as int);
            }
            match self.deck.draw(&mut self.rng) {
                Some(card) => {
                    new_hand.add(card, 1);
                },
                None => {},
            }
            c += 1;
        }
        proof {
            lemma_draw_n_into_bounds(zero_counts(), d1, initial0, seed, hi1, hsize);
            lemma_sum_bounded(initial0, NUM_KINDS as int);
            assert(hands_of(old(self).players@)[recv as int] == hand@);
        }
        self.set_player_hand(recv, new_hand);
    }

    /// Whether every hand at the table is empty.
    fn hands_all_empty(&self) -> (r: bool)
        requires
            self.wf(),
        ensures
            r == all_hands_empty(hands_of(self.players@)),
    {
        let mut i: usize = 0;
        while i < self.players.len()
            invariant
                self.wf(),
                i <= self.players@.len(),
                forall|p: int|
                    0 <= p < i ==> sum_counts((#[trigger] self.players@[p]).hand@) == 0,
            decreases self.players@.len() - i,
        {
            if !self.players[i].hand.is_empty() {
                proof {
                    assert(sum_counts(hands_of(self.players@)[i as int]) != 0);
                }
                return false;
            }
            i += 1;
        }
        proof {
            assert forall|p: int|
                0 <= p < hands_of(self.players@).len() implies sum_counts(
                #[trigger] hands_of(self.players@)[p],
            ) == 0 by {
                assert(hands_of(self.players@)[p] == self.players@[p].hand@);
            }
        }
        true
    }

    /// Resolve one full turn from the players' submissions. Each submitted
    /// selection is drafted into public/boosted state under the pairing
    /// rule and the hand becomes the submitted remainder; if any cards
    /// remain, hands rotate in the round's direction, the remembered draft
    /// effects run in seat order, and the turn counter advances; with all
    /// hands empty the next round is dealt instead (or nothing more happens
    /// on the final round). Fails, changing nothing, unless every seat has
    /// confirmed and the vector has one entry per seat; a deck too small
    /// for the next round's deal is reported after the drafts are applied,
    /// with the counters unchanged.
    pub fn process_turn(&mut self, submissions: Vec<Option<(CardCounts, CardCounts)>>) -> (r:
        Result<(), GameError>)
        requires
            old(self).wf(),
            old(self).counts_small(),
            old(self).turn < usize::MAX,
            subs_wf(submissions@),
        ensures
            final(self).wf(),
            final(self).players@.len() == old(self).players@.len(),
            final(self).seed == old(self).seed,
            final(self).round_count == old(self).round_count,
            final(self).deck.initial@ == old(self).deck.initial@,
            final(self).rng.seed_spec() == old(self).rng.seed_spec(),
            forall|p: int|
                0 <= p < old(self).players@.len() ==> (#[trigger] final(self).players@[p]).id
                    == old(self).players@[p].id && final(self).players@[p].username@ == old(self).players@[p].username@,
            (old(self).counts_ok() && valid_subs(old(self).players@, submissions@)) ==> (final(self).counts_ok() && final(self).counts_small()),
            ({
                let subs = submissions@;
                let n = old(self).players@.len() as int;
                let sel_ok = forall|p: int|
                    0 <= p < old(self).player_turn_states@.len() ==> old(self).player_turn_states@[p] == PlayerTurnState::Selected;
                if !sel_ok || subs.len() != n {
                    &&& r matches Err(GameError::InvalidConfig)
                    &&& *final(self) == *old(self)
                } else {
                    let hands1 = post_hands(old(self).players@, subs);
                    let flags = turn_flags(subs);
                    let dir = pass_direction_spec(old(self).round as int);
                    &&& forall|p: int|
                        0 <= p < n ==> (#[trigger] final(self).players@[p]).public_cards@
                            == post_public(old(self).players@[p], subs[p])
                    &&& forall|p: int|
                        0 <= p < n ==> (#[trigger] final(self).players@[p]).boosted_fruit_teas@
                            == post_boosted(old(self).players@[p], subs[p])
                    &&& if !all_hands_empty(hands1) {
                        let (hands2, d2, hi2) = run_hooks_spec(
                            passed_hands(hands1, dir),
                            flags,
                            old(self).deck.cards@,
                            old(self).deck.initial@,
                            old(self).rng.seed_spec(),
                            old(self).rng.history_spec(),
                            dir,
                            n,
                        );
                        &&& r is Ok
                        &&& forall|p: int|
                            0 <= p < n ==> (#[trigger] final(self).players@[p]).hand@ == hands2[p]
                        &&& final(self).deck.cards@ == d2
                        &&& final(self).rng.history_spec() == hi2
                        &&& final(self).round == old(self).round
                        &&& final(self).turn == old(self).turn + 1
                        &&& forall|p: int|
                            0 <= p < n ==> final(self).player_turn_states@[p]
                                == PlayerTurnState::NotSelected
                    } else if old(self).round < old(self).round_count {
                        let cpp = cards_per_player_spec(n)->Some_0;
                        if old(self).deck.total >= n * cpp {
                            let (hs, dc, hi) = deal_spec(
                                hands1,
                                old(self).deck.cards@,
                                old(self).deck.initial@,
                                old(self).rng.seed_spec(),
                                old(self).rng.history_spec(),
                                cpp as int,
                                n,
                            );
                            &&& r is Ok
                            &&& forall|p: int|
                                0 <= p < n ==> (#[trigger] final(self).players@[p]).hand@ == hs[p]
                            &&& final(self).deck.cards@ == dc
                            &&& final(self).rng.history_spec() == hi
                            &&& final(self).round == old(self).round + 1
                            &&& final(self).turn == 1
                            &&& forall|p: int|
                                0 <= p < n ==> final(self).player_turn_states@[p]
                                    == PlayerTurnState::NotSelected
                        } else {
                            &&& r matches Err(GameError::NotEnoughCards)
                            &&& forall|p: int|
                                0 <= p < n ==> (#[trigger] final(self).players@[p]).hand@
                                    == hands1[p]
                            &&& final(self).deck.cards@ == old(self).deck.cards@
                            &&& final(self).rng.history_spec() == old(self).rng.history_spec()
                            &&& final(self).round == old(self).round
                            &&& final(self).turn == old(self).turn
                            &&& final(self).player_turn_states@ == old(self).player_turn_states@
                        }
                    } else {
                        &&& r is Ok
                        &&& forall|p: int|
                            0 <= p < n ==> (#[trigger] final(self).players@[p]).hand@ == hands1[p]
                        &&& final(self).deck.cards@ == old(self).deck.cards@
                        &&& final(self).rng.history_spec() == old(self).rng.history_spec()
                        &&& final(self).round == old(self).round
                        &&& final(self).turn == old(self).turn
                        &&& final(self).player_turn_states@ == old(self).player_turn_states@
                    }
                }
            }),
    {
        if !self.all_players_selected() {
            return Err(GameError::InvalidConfig);
        }
        if submissions.len() != self.players.len() {
            return Err(GameError::InvalidConfig);
        }
        let ghost subs = submissions@;
        let n = self.players.len();
        let mut subs_vec = submissions;
        let mut flags_vec: Vec<bool> = Vec::new();
        let mut q: usize = 0;
        while q < n
            invariant
                self.wf(),
                old(self).wf(),
                old(self).counts_small(),
                n == self.players@.len(),
                n == old(self).players@.len(),
                subs.len() == n,
                subs_wf(subs),
                q <= n,
                subs_vec@ == subs.skip(q as int),
                flags_vec@.len() == q,
                forall|p: int| 0 <= p < q ==> flags_vec@[p] == turn_flags(subs)[p],
                forall|p: int|
                    0 <= p < q ==> (#[trigger] self.players@[p]).public_cards@ == post_public(
                        old(self).players@[p],
                        subs[p],
                    ) && self.players@[p].boosted_fruit_teas@ == post_boosted(
                        old(self).players@[p],
                        subs[p],
                    ) && self.players@[p].hand@ == post_hand(old(self).players@[p], subs[p])
                        && self.players@[p].id == old(self).players@[p].id
                        && self.players@[p].username@ == old(self).players@[p].username@,
                forall|p: int|
                    q <= p < n ==> #[trigger] self.players@[p] == old(self).players@[p],
                self.seed == old(self).seed,
                self.rng == old(self).rng,
                self.deck == old(self).deck,
                self.round == old(self).round,
                self.turn == old(self).turn,
                self.round_count == old(self).round_count,
                self.player_turn_states == old(self).player_turn_states,
            decreases n - q,
        {
            let sub = subs_vec.remove(0);
            proof {
                assert(sub == subs[q as int]);
                assert(subs_vec@ =~= subs.skip(q as int + 1));
            }
            match sub {
                Some((sel, rem)) => {
                    let has_hook = sel.get(CardKind::MysteryTea) > 0;
                    self.apply_selection_player(q, &sel);
                    self.set_player_hand(q, rem);
                    flags_vec.push(has_hook);
                },
                None => {
                    flags_vec.push(false);
                },
            }
            q += 1;
        }
        let ghost hands1 = post_hands(old(self).players@, subs);
        proof {
            assert(hands_of(self.players@) =~= hands1);
        }
        let all_empty = self.hands_all_empty();
        if !all_empty {
            self.pass_hands();
            let ghost dir = pass_direction_spec(old(self).round as int);
            proof {
                assert(hands_of(self.players@) =~= passed_hands(hands1, dir));
            }
            let ghost passed0 = hands_of(self.players@);
            let ghost flags_spec = turn_flags(subs);
            let ghost d0 = self.deck.cards@;
            let ghost d0_total = self.deck.total;
            let ghost hi0 = self.rng.history_spec();
            let ghost seed = self.rng.seed_spec();
            let ghost initial0 = self.deck.initial@;
            proof {
                lemma_sum_bounded(d0, NUM_KINDS as int);
                assert forall|p: int|
                    0 <= p < n implies sum_counts(
                    (#[trigger] self.players@[p]).hand@,
                ) <= 2952790016 by {
                    assert(self.players@[p].hand@ == hands1[pass_source(dir, p, n as int)]);
                    assert(counts_bounded(hands1[pass_source(dir, p, n as int)]));
                    lemma_sum_bounded(self.players@[p].hand@, NUM_KINDS as int);
                }
            }
            let mut h: usize = 0;
            while h < n
                invariant
                    self.wf(),
                    n == self.players@.len(),
                    n >= 2,
                    h <= n,
                    flags_vec@.len() == n,
                    flags_spec.len() == n,
                    forall|p: int| 0 <= p < n ==> flags_vec@[p] == flags_spec[p],
                    counts_bounded(initial0),
                    self.deck.initial@ == initial0,
                    self.rng.seed_spec() == seed,
                    d0_total <= 2952790016 * 11,
                    self.deck.total <= d0_total + 2952790016 * h,
                    forall|p: int|
                        0 <= p < n ==> sum_counts((#[trigger] self.players@[p]).hand@)
                            <= 2952790016,
                    ({
                        let (h2, d2, hi2) = run_hooks_spec(
                            passed0,
                            flags_spec,
                            d0,
                            initial0,
                            seed,
                            hi0,
                            dir,
                            h as int,
                        );
                        &&& hands_of(self.players@) == h2
                        &&& self.deck.cards@ == d2
                        &&& self.rng.history_spec() == hi2
                    }),
                    dir == pass_direction_spec(self.round as int),
                    forall|p: int|
                        0 <= p < n ==> (#[trigger] self.players@[p]).public_cards@ == post_public(
                            old(self).players@[p],
                            subs[p],
                        ) && self.players@[p].boosted_fruit_teas@ == post_boosted(
                            old(self).players@[p],
                            subs[p],
                        ) && self.players@[p].id == old(self).players@[p].id
                            && self.players@[p].username@ == old(self).players@[p].username@,
                    self.seed == old(self).seed,
                    self.round == old(self).round,
                    self.turn == old(self).turn,
                    self.round_count == old(self).round_count,
                    self.player_turn_states == old(self).player_turn_states,
                decreases n - h,
            {
                if flags_vec[h] {
                    self.apply_mystery(h);
                }
                proof {
                    assert(hands_of(self.players@) =~= run_hooks_spec(
                        passed0,
                        flags_spec,
                        d0,
                        initial0,
                        seed,
                        hi0,
                        dir,
                        h as int + 1,
                    ).0);
                }
                h += 1;
            }
            proof {
                if old(self).counts_ok() && valid_subs(old(self).players@, subs) {
                    let ni = n as int;
                    lemma_selection_phase_units(old(self).players@, subs);
                    let pub2 = Seq::new(
                        old(self).players@.len(),
                        |p: int| post_public(old(self).players@[p], subs[p]),
                    );
                    let boo2 = Seq::new(
                        old(self).players@.len(),
                        |p: int| post_boosted(old(self).players@[p], subs[p]),
                    );
                    lemma_rotation_preserves_sum(hands1, dir);
                    assert(passed0 == passed_hands(hands1, dir));
                    assert forall|q: int|
                        0 <= q < ni implies (#[trigger] passed0[q]).len() == NUM_KINDS
                        && sum_counts(passed0[q]) >= 0 by {
                        assert(passed0[q] == hands1[pass_source(dir, q, ni)]);
                        assert(0 <= pass_source(dir, q, ni) < ni);
                    }
                    assert forall|q: int|
                        0 <= q < ni implies sum_counts(#[trigger] passed0[q]) <= hands_sum(
                        passed0,
                        ni,
                    ) by {
                        crate::counts::lemma_hands_sum_element(passed0, q, ni);
                    }
                    lemma_sum_prefix_nonneg(d0, NUM_KINDS as int);
                    assert(sum_counts(d0) + hands_sum(passed0, ni) <= COUNT_LIMIT);
                    lemma_hooks_conserve(passed0, flags_spec, d0, initial0, seed, hi0, dir, ni);
                    let (h2, d2, hi2) = run_hooks_spec(
                        passed0,
                        flags_spec,
                        d0,
                        initial0,
                        seed,
                        hi0,
                        dir,
                        ni,
                    );
                    assert(hands_of(self.players@) == h2);
                    assert(publics_of(self.players@) =~= pub2);
                    crate::counts::lemma_hands_sum_congruence(publics_of(self.players@), pub2, ni);
                    assert(boosteds_of(self.players@) =~= boo2);
                    crate::counts::lemma_hands_sum_congruence(
                        boosteds_of(self.players@),
                        boo2,
                        ni,
                    );
                    assert(self.units_total() <= old(self).units_total());
                    lemma_counts_ok_small(*self);
                }
            }
            self.next_turn();
            Ok(())
        } else {
            proof {
                if old(self).counts_ok() && valid_subs(old(self).players@, subs) {
                    let ni = n as int;
                    lemma_selection_phase_units(old(self).players@, subs);
                    let pub2 = Seq::new(
                        old(self).players@.len(),
                        |p: int| post_public(old(self).players@[p], subs[p]),
                    );
                    let boo2 = Seq::new(
                        old(self).players@.len(),
                        |p: int| post_boosted(old(self).players@[p], subs[p]),
                    );
                    crate::counts::lemma_hands_sum_congruence(hands_of(self.players@), hands1, ni);
                    assert(publics_of(self.players@) =~= pub2);
                    crate::counts::lemma_hands_sum_congruence(publics_of(self.players@), pub2, ni);
                    assert(boosteds_of(self.players@) =~= boo2);
                    crate::counts::lemma_hands_sum_congruence(
                        boosteds_of(self.players@),
                        boo2,
                        ni,
                    );
                    lemma_sum_prefix_nonneg(self.deck.cards@, NUM_KINDS as int);
                    assert(self.units_total() <= old(self).units_total());
                    assert(self.counts_ok());
                }
            }
            if self.round < self.round_count {
                proof {
                    assert forall|p: int|
                        0 <= p < n implies counts_bounded(
                        (#[trigger] self.players@[p]).hand@,
                    ) by {
                        assert(hands_of(self.players@)[p] == self.players@[p].hand@);
                        assert(sum_counts(self.players@[p].hand@) == 0);
                        lemma_sum_zero(self.players@[p].hand@);
                    }
                }
                match self.start_new_round() {
                    Ok(()) => Ok(()),
                    Err(e2) => Err(e2),
                }
            } else {
                proof {
                    if old(self).counts_ok() && valid_subs(old(self).players@, subs) {
                        lemma_counts_ok_small(*self);
                    }
                }
                Ok(())
            }
        }
    }
}

/// After the first deal every count in the game is still far below the count
/// type's range.
proof fn lemma_game_counts_small_after_deal(game: Game, dist: Seq<u64>, seed: u64, cpp: int)
    requires
        game.players@.len() >= 1,
        dist.len() == NUM_KINDS,
        counts_bounded(dist),
        0 <= cpp <= 10,
        sum_counts(dist) <= u64::MAX,
        game.deck.initial@ == dist,
        forall|p: int|
            0 <= p < game.players@.len() ==> (#[trigger] game.players@[p]).public_cards@
                == zero_counts() && game.players@[p].boosted_fruit_teas@ == zero_counts(),
        ({
            let n = game.players@.len() as int;
            let (hs, dc, hi) = deal_spec(
                zero_hands(n),
                dist,
                dist,
                seed,
                Seq::<u64>::empty(),
                cpp,
                n,
            );
            &&& (forall|p: int| 0 <= p < n ==> (#[trigger] game.players@[p]).hand@ == hs[p])
            &&& game.deck.cards@ == dc
        }),
    ensures
        game.counts_small(),
{
    let n = game.players@.len() as int;
    lemma_deal_counts_small(zero_hands(n), dist, dist, seed, Seq::<u64>::empty(), cpp, n);
    assert forall|i: int| 0 <= i < NUM_KINDS implies zero_counts()[i] <= COUNT_LIMIT by {}
}

/// Dealing keeps every hand count below the deal size and every deck count
/// below the distribution's.
proof fn lemma_deal_counts_small(
    hands: Seq<Seq<u64>>,
    deckc: Seq<u64>,
    initial: Seq<u64>,
    seed: u64,
    hist: Seq<u64>,
    cpp: int,
    k: int,
)
    requires
        0 <= k <= hands.len(),
        0 <= cpp <= 10,
        deckc.len() == NUM_KINDS,
        initial.len() == NUM_KINDS,
        counts_bounded(deckc),
        counts_bounded(initial),
        sum_counts(deckc) <= u64::MAX,
        sum_counts(initial) <= u64::MAX,
        forall|q: int|
            0 <= q < hands.len() ==> (#[trigger] hands[q]).len() == NUM_KINDS && counts_bounded(
                hands[q],
            ),
    ensures
        ({
            let (hs, dc, hi) = deal_spec(hands, deckc, initial, seed, hist, cpp, k);
            &&& hs.len() == hands.len()
            &&& dc.len() == NUM_KINDS
            &&& counts_bounded(dc)
            &&& sum_counts(dc) <= u64::MAX
            &&& forall|q: int|
                0 <= q < hands.len() ==> (#[trigger] hs[q]).len() == NUM_KINDS && (forall|m: int|
                    0 <= m < NUM_KINDS ==> #[trigger] hs[q][m] <= hands[q][m] + cpp)
        }),
    decreases k,
{
    if k > 0 {
        lemma_deal_counts_small(hands, deckc, initial, seed, hist, cpp, k - 1);
        lemma_deal_spec_untouched(hands, deckc, initial, seed, hist, cpp, k - 1);
        let (hs1, d1, hi1) = deal_spec(hands, deckc, initial, seed, hist, cpp, k - 1);
        assert(hs1[k - 1] == hands[k - 1]);
        lemma_sum_prefix_nonneg(d1, NUM_KINDS as int);
        lemma_draw_n_into_bounds(hs1[k - 1], d1, initial, seed, hi1, cpp);
    }
}

/// One draft's conservation equations over the kinds below `j`, with the
/// created boosted units written as the consumed pre-selection stock.
proof fn lemma_selection_conservation_upto(pubc: Seq<u64>, boo: Seq<u64>, sel: Seq<u64>, j: int)
    requires
        pubc.len() == NUM_KINDS,
        boo.len() == NUM_KINDS,
        sel.len() == NUM_KINDS,
        0 <= j <= NUM_KINDS,
        forall|m: int| 0 <= m < NUM_KINDS ==> pubc[m] + sel[m] <= u64::MAX,
        forall|m: int| 0 <= m < NUM_KINDS ==> boo[m] + sel[m] <= u64::MAX,
    ensures
        ({
            let (p1, b1, stock) = apply_selection_upto(pubc, boo, sel, j);
            let pb = CardKind::PoppingBubbles.index_spec();
            let created = sum_counts(b1) - sum_counts(boo);
            &&& created == pubc[pb] - stock
            &&& created >= 0
            &&& forall|m: int|
                0 <= m < NUM_KINDS && m != pb ==> #[trigger] p1[m] + b1[m] == if m < j {
                    pubc[m] + boo[m] + sel[m]
                } else {
                    pubc[m] + boo[m]
                }
            &&& b1[pb] == boo[pb]
            &&& p1[pb] == pubc[pb] + (if pb < j {
                sel[pb] as int
            } else {
                0
            }) - created
        }),
    decreases j,
{
    lemma_apply_selection_bounds(pubc, boo, sel, j);
    if j > 0 {
        lemma_selection_conservation_upto(pubc, boo, sel, j - 1);
        lemma_apply_selection_bounds(pubc, boo, sel, j - 1);
        let (p1, b1, stock) = apply_selection_upto(pubc, boo, sel, j - 1);
        let k = CardKind::from_index_spec(j - 1);
        let pb = CardKind::PoppingBubbles.index_spec();
        let cnt = sel[j - 1] as int;
        if cnt > 0 {
            if k.is_fruit_tea_spec() {
                let boost = if cnt < stock {
                    cnt
                } else {
                    stock
                };
                lemma_sum_update(b1, j - 1, (b1[j - 1] + boost) as u64);
            }
        }
    }
}

/// Conservation through a draft. For every kind other than the booster, the
/// public and boosted collections together gain exactly the selected units.
/// The booster's boosted count never changes; its public count drops by
/// exactly the number of boosted units created, which never exceeds the
/// boosters the player held publicly before the draft.
pub proof fn lemma_selection_conservation(pubc: Seq<u64>, boo: Seq<u64>, sel: Seq<u64>)
    requires
        pubc.len() == NUM_KINDS,
        boo.len() == NUM_KINDS,
        sel.len() == NUM_KINDS,
        forall|m: int| 0 <= m < NUM_KINDS ==> pubc[m] + sel[m] <= u64::MAX,
        forall|m: int| 0 <= m < NUM_KINDS ==> boo[m] + sel[m] <= u64::MAX,
    ensures
        ({
            let (p1, b1) = apply_selection(pubc, boo, sel);
            let pb = CardKind::PoppingBubbles.index_spec();
            let created = sum_counts(b1) - sum_counts(boo);
            &&& 0 <= created <= pubc[pb]
            &&& forall|m: int|
                0 <= m < NUM_KINDS && m != pb ==> #[trigger] p1[m] + b1[m] == pubc[m] + boo[m]
                    + sel[m]
            &&& b1[pb] == boo[pb]
            &&& p1[pb] == pubc[pb] + sel[pb] - created
        }),
{
    lemma_selection_conservation_upto(pubc, boo, sel, NUM_KINDS as int);
    lemma_apply_selection_bounds(pubc, boo, sel, NUM_KINDS as int);
}

/// Summing the conservation equations over the kinds: the drafted state's
/// totals follow from the pointwise equations.
pub proof fn lemma_split_sums(pubc: Seq<u64>, boo: Seq<u64>, sel: Seq<u64>, rem: Seq<u64>, hand: Seq<
    u64,
>)
    requires
        pubc.len() == NUM_KINDS,
        boo.len() == NUM_KINDS,
        sel.len() == NUM_KINDS,
        rem.len() == NUM_KINDS,
        hand.len() == NUM_KINDS,
        forall|m: int| 0 <= m < NUM_KINDS ==> sel[m] + rem[m] == hand[m],
        forall|m: int| 0 <= m < NUM_KINDS ==> pubc[m] + sel[m] <= u64::MAX,
        forall|m: int| 0 <= m < NUM_KINDS ==> boo[m] + sel[m] <= u64::MAX,
    ensures
        ({
            let (p1, b1) = apply_selection(pubc, boo, sel);
            let created = sum_counts(b1) - sum_counts(boo);
            &&& created >= 0
            &&& sum_counts(rem) + sum_counts(p1) + sum_counts(b1) == sum_counts(hand) + sum_counts(
                pubc,
            ) + sum_counts(boo) - created
        }),
{
    lemma_selection_conservation(pubc, boo, sel);
    let (p1, b1) = apply_selection(pubc, boo, sel);
    lemma_apply_selection_bounds(pubc, boo, sel, NUM_KINDS as int);
    lemma_pointwise_sum_eq(p1, b1, pubc, boo, sel, rem, hand, NUM_KINDS as int);
}

proof fn lemma_pointwise_sum_eq(
    p1: Seq<u64>,
    b1: Seq<u64>,
    pubc: Seq<u64>,
    boo: Seq<u64>,
    sel: Seq<u64>,
    rem: Seq<u64>,
    hand: Seq<u64>,
    k: int,
)
    requires
        p1.len() == NUM_KINDS,
        b1.len() == NUM_KINDS,
        pubc.len() == NUM_KINDS,
        boo.len() == NUM_KINDS,
        sel.len() == NUM_KINDS,
        rem.len() == NUM_KINDS,
        hand.len() == NUM_KINDS,
        0 <= k <= NUM_KINDS,
        forall|m: int| 0 <= m < NUM_KINDS ==> sel[m] + rem[m] == hand[m],
        forall|m: int|
            0 <= m < NUM_KINDS && m != CardKind::PoppingBubbles.index_spec() ==> #[trigger] p1[m]
                + b1[m] == pubc[m] + boo[m] + sel[m],
        ({
            let pb = CardKind::PoppingBubbles.index_spec();
            &&& b1[pb] == boo[pb]
            &&& p1[pb] == pubc[pb] + sel[pb] - (sum_counts(b1) - sum_counts(boo))
        }),
    ensures
        ({
            let pb = CardKind::PoppingBubbles.index_spec();
            let created = sum_counts(b1) - sum_counts(boo);
            crate::counts::sum_prefix(rem, k) + crate::counts::sum_prefix(p1, k)
                + crate::counts::sum_prefix(b1, k) == crate::counts::sum_prefix(hand, k)
                + crate::counts::sum_prefix(pubc, k) + crate::counts::sum_prefix(boo, k) - (if pb
                < k {
                created
            } else {
                0
            })
        }),
    decreases k,
{
    if k > 0 {
        lemma_pointwise_sum_eq(p1, b1, pubc, boo, sel, rem, hand, k - 1);
    }
}

/// The per-seat conservation equations summed over the first `k` seats.
pub proof fn lemma_turn_units_partial(players: Seq<Player>, subs: Seq<
    Option<(CardCounts, CardCounts)>,
>, k: int)
    requires
        subs.len() == players.len(),
        0 <= k <= players.len(),
        forall|p: int|
            0 <= p < players.len() ==> (#[trigger] players[p]).wf() && players[p].hand@.len()
                == NUM_KINDS,
        forall|p: int|
            0 <= p < subs.len() ==> ((#[trigger] subs[p]) matches Option::Some(s) ==> s.0@.len()
                == NUM_KINDS && s.1@.len() == NUM_KINDS),
        forall|p: int|
            0 <= p < subs.len() ==> ((#[trigger] subs[p]) matches Option::Some(s) ==> forall|
                m: int,
            |
                0 <= m < NUM_KINDS ==> s.0@[m] + s.1@[m] == players[p].hand@[m]),
        forall|p: int|
            0 <= p < subs.len() ==> ((#[trigger] subs[p]) matches Option::Some(s) ==> (forall|
                m: int,
            |
                0 <= m < NUM_KINDS ==> players[p].public_cards@[m] + s.0@[m] <= u64::MAX) && (
            forall|m: int|
                0 <= m < NUM_KINDS ==> players[p].boosted_fruit_teas@[m] + s.0@[m] <= u64::MAX)),
    ensures
        ({
            let hands1 = post_hands(players, subs);
            let publics2 = Seq::new(players.len(), |p: int| post_public(players[p], subs[p]));
            let boosteds2 = Seq::new(players.len(), |p: int| post_boosted(players[p], subs[p]));
            let boosteds1 = Seq::new(players.len(), |p: int| players[p].boosted_fruit_teas@);
            let publics1 = Seq::new(players.len(), |p: int| players[p].public_cards@);
            let consumed = hands_sum(boosteds2, k) - hands_sum(boosteds1, k);
            &&& consumed >= 0
            &&& hands_sum(hands1, k) + hands_sum(publics2, k) + hands_sum(boosteds2, k)
                == hands_sum(hands_of(players), k) + hands_sum(publics1, k) + hands_sum(
                boosteds1,
                k,
            ) - consumed
        }),
    decreases k,
{
    if k > 0 {
        lemma_turn_units_partial(players, subs, k - 1);
        let p = k - 1;
        match subs[p] {
            Option::Some(s) => {
                let pl = players[p];
                lemma_selection_conservation(pl.public_cards@, pl.boosted_fruit_teas@, s.0@);
                lemma_split_sums(pl.public_cards@, pl.boosted_fruit_teas@, s.0@, s.1@, pl.hand@);
            },
            Option::None => {},
        }
    }
}

/// Rotating hands one seat preserves their total.
pub proof fn lemma_rotation_preserves_sum(hands: Seq<Seq<u64>>, dir: PassDirection)
    requires
        hands.len() >= 1,
    ensures
        hands_sum(passed_hands(hands, dir), hands.len() as int) == hands_sum(
            hands,
            hands.len() as int,
        ),
{
    let n = hands.len() as int;
    match dir {
        PassDirection::Left => {
            lemma_rot_left_partial(hands, n);
        },
        PassDirection::Right => {
            lemma_rot_right_partial(hands, n - 1);
            assert(passed_hands(hands, PassDirection::Right)[n - 1] == hands[0]);
        },
    }
}

proof fn lemma_rot_left_partial(hands: Seq<Seq<u64>>, k: int)
    requires
        hands.len() >= 1,
        1 <= k <= hands.len(),
    ensures
        hands_sum(passed_hands(hands, PassDirection::Left), k) == hands_sum(hands, k - 1)
            + sum_counts(hands[hands.len() - 1]),
    decreases k,
{
    let hs = passed_hands(hands, PassDirection::Left);
    if k == 1 {
        assert(hs[0] == hands[hands.len() - 1]);
        assert(hands_sum(hs, 0) == 0);
        assert(hands_sum(hands, 0) == 0);
        assert(hands_sum(hs, 1) == hands_sum(hs, 0) + sum_counts(hs[0]));
    } else {
        lemma_rot_left_partial(hands, k - 1);
        assert(hs[k - 1] == hands[k - 2]);
        assert(hands_sum(hs, k) == hands_sum(hs, k - 1) + sum_counts(hs[k - 1]));
        assert(hands_sum(hands, k - 1) == hands_sum(hands, k - 2) + sum_counts(hands[k - 2]));
    }
}

proof fn lemma_rot_right_partial(hands: Seq<Seq<u64>>, k: int)
    requires
        hands.len() >= 1,
        0 <= k <= hands.len() - 1,
    ensures
        hands_sum(passed_hands(hands, PassDirection::Right), k) == hands_sum(hands, k + 1)
            - sum_counts(hands[0]),
    decreases k,
{
    let hs = passed_hands(hands, PassDirection::Right);
    if k == 0 {
        assert(hands_sum(hs, 0) == 0);
        assert(hands_sum(hands, 1) == hands_sum(hands, 0) + sum_counts(hands[0]));
    } else {
        lemma_rot_right_partial(hands, k - 1);
        assert(hs[k - 1] == hands[k]);
        assert(hands_sum(hs, k) == hands_sum(hs, k - 1) + sum_counts(hs[k - 1]));
        assert(hands_sum(hands, k + 1) == hands_sum(hands, k) + sum_counts(hands[k]));
    }
}

/// From a pool that still covers `n` draws, every draw succeeds without a
/// reshuffle: the hand gains exactly `n` cards and the pool loses them.
pub proof fn lemma_draw_n_conserves(
    hand: Seq<u64>,
    deckc: Seq<u64>,
    initial: Seq<u64>,
    seed: u64,
    hist: Seq<u64>,
    n: int,
)
    requires
        0 <= n,
        hand.len() == NUM_KINDS,
        deckc.len() == NUM_KINDS,
        initial.len() == NUM_KINDS,
        n <= sum_counts(deckc) <= u64::MAX,
        sum_counts(initial) <= u64::MAX,
        forall|m: int| 0 <= m < NUM_KINDS ==> hand[m] + n <= u64::MAX,
    ensures
        ({
            let (h, d, hi) = draw_n_into(hand, deckc, initial, seed, hist, n);
            &&& sum_counts(h) == sum_counts(hand) + n
            &&& sum_counts(d) == sum_counts(deckc) - n
        }),
    decreases n,
{
    if n > 0 {
        lemma_draw_n_conserves(hand, deckc, initial, seed, hist, n - 1);
        lemma_draw_n_into_bounds(hand, deckc, initial, seed, hist, n - 1);
        let (h1, d1, hi1) = draw_n_into(hand, deckc, initial, seed, hist, n - 1);
        lemma_sum_prefix_nonneg(d1, NUM_KINDS as int);
        let total = sum_counts(d1) as u64;
        let p = chacha_pick(seed, hi1, total) as int % (total as int);
        crate::deck::lemma_pick_index_in_range(d1, p);
        let i = crate::deck::pick_index(d1, p);
        lemma_sum_update(d1, i, (d1[i] - 1) as u64);
        let kk = CardKind::from_index_spec(i);
        assert(kk.index_spec() == i);
        lemma_sum_update(h1, i, (h1[i] + 1) as u64);
    }
}

/// Dealing from a pool that covers the whole deal moves cards from the deck
/// to the hands one for one: deck + hands together are conserved.
pub proof fn lemma_deal_conserves(
    hands: Seq<Seq<u64>>,
    deckc: Seq<u64>,
    initial: Seq<u64>,
    seed: u64,
    hist: Seq<u64>,
    cpp: int,
    k: int,
)
    requires
        0 <= k <= hands.len(),
        0 <= cpp <= 10,
        deckc.len() == NUM_KINDS,
        initial.len() == NUM_KINDS,
        k * cpp <= sum_counts(deckc) <= u64::MAX,
        sum_counts(initial) <= u64::MAX,
        forall|q: int|
            0 <= q < hands.len() ==> (#[trigger] hands[q]).len() == NUM_KINDS && (forall|m: int|
                0 <= m < NUM_KINDS ==> #[trigger] hands[q][m] + cpp <= u64::MAX),
    ensures
        ({
            let (hs, dc, hi) = deal_spec(hands, deckc, initial, seed, hist, cpp, k);
            &&& sum_counts(dc) == sum_counts(deckc) - k * cpp
            &&& dc.len() == NUM_KINDS
            &&& hands_sum(hs, hands.len() as int) == hands_sum(hands, hands.len() as int) + k * cpp
        }),
    decreases k,
{
    if k > 0 {
        assert((k - 1) * cpp <= k * cpp && k * cpp - (k - 1) * cpp == cpp) by (nonlinear_arith)
            requires
                0 <= cpp,
                1 <= k,
        ;
        assert(0 <= (k - 1) * cpp) by (nonlinear_arith)
            requires
                0 <= cpp,
                1 <= k,
        ;
        lemma_deal_conserves(hands, deckc, initial, seed, hist, cpp, k - 1);
        lemma_deal_spec_untouched(hands, deckc, initial, seed, hist, cpp, k - 1);
        let (hs1, d1, hi1) = deal_spec(hands, deckc, initial, seed, hist, cpp, k - 1);
        assert(hs1[k - 1] == hands[k - 1]);
        lemma_draw_n_conserves(hs1[k - 1], d1, initial, seed, hi1, cpp);
        lemma_draw_n_into_bounds(hs1[k - 1], d1, initial, seed, hi1, cpp);
        let (nh, d2, hi2) = draw_n_into(hs1[k - 1], d1, initial, seed, hi1, cpp);
        crate::counts::lemma_hands_sum_update(hs1, k - 1, nh, hands.len() as int);
        let (hsk, dk, hik) = deal_spec(hands, deckc, initial, seed, hist, cpp, k);
        assert(dk == d2);
        assert(sum_counts(d2) == sum_counts(d1) - cpp);
        assert(sum_counts(d1) == sum_counts(deckc) - (k - 1) * cpp);
    } else {
        assert(k * cpp == 0) by (nonlinear_arith)
            requires
                k == 0,
        ;
    }
}

/// One run of the "wild reshuffle" effect conserves the deck and the hands:
/// the returned hand always covers the redraw, so the pool can never be
/// exhausted mid-effect and no auto-reshuffle can fire inside a turn.
proof fn lemma_mystery_conserves(
    hands: Seq<Seq<u64>>,
    deckc: Seq<u64>,
    initial: Seq<u64>,
    seed: u64,
    hist: Seq<u64>,
    drafter: int,
    dir: PassDirection,
)
    requires
        hands.len() >= 1,
        0 <= drafter < hands.len(),
        deckc.len() == NUM_KINDS,
        initial.len() == NUM_KINDS,
        sum_counts(initial) <= u64::MAX,
        forall|q: int| 0 <= q < hands.len() ==> (#[trigger] hands[q]).len() == NUM_KINDS,
        sum_counts(deckc) + hands_sum(hands, hands.len() as int) <= u64::MAX,
        forall|q: int|
            0 <= q < hands.len() ==> sum_counts(#[trigger] hands[q]) <= hands_sum(
                hands,
                hands.len() as int,
            ),
        sum_counts(deckc) >= 0,
        forall|q: int| 0 <= q < hands.len() ==> sum_counts(#[trigger] hands[q]) >= 0,
    ensures
        ({
            let n = hands.len() as int;
            let (hands2, d2, hi2) = mystery_spec(hands, deckc, initial, seed, hist, drafter, dir);
            &&& sum_counts(d2) == sum_counts(deckc)
            &&& d2.len() == NUM_KINDS
            &&& hands2.len() == n
            &&& hands_sum(hands2, n) == hands_sum(hands, n)
            &&& forall|q: int| 0 <= q < n ==> (#[trigger] hands2[q]).len() == NUM_KINDS
            &&& forall|q: int|
                0 <= q < n ==> sum_counts(#[trigger] hands2[q]) <= sum_counts(
                    hands[mystery_recv(dir, drafter, n)],
                ) || hands2[q] == hands[q]
        }),
{
    let n = hands.len() as int;
    let recv = mystery_recv(dir, drafter, n);
    assert(0 <= recv < n) by (nonlinear_arith)
        requires
            n >= 1,
            0 <= drafter < n,
            recv == mystery_recv(dir, drafter, n),
            recv == (match dir {
                PassDirection::Left => (drafter + 1) % n,
                PassDirection::Right => (drafter + n - 1) % n,
            }),
    ;
    let h = hands[recv];
    let hsize = sum_counts(h);
    crate::counts::lemma_hands_sum_element(hands, recv, n);
    let d1 = add_counts(deckc, h);
    assert forall|m: int| 0 <= m < NUM_KINDS implies deckc[m] + h[m] <= u64::MAX by {
        crate::counts::lemma_sum_prefix_bound(deckc, m, NUM_KINDS as int);
        crate::counts::lemma_sum_prefix_bound(h, m, NUM_KINDS as int);
        lemma_sum_prefix_nonneg(deckc, m);
        lemma_sum_prefix_nonneg(h, m);
        crate::counts::lemma_sum_prefix_sub_nonneg(deckc, m + 1, NUM_KINDS as int);
        crate::counts::lemma_sum_prefix_sub_nonneg(h, m + 1, NUM_KINDS as int);
    }
    crate::counts::lemma_sum_prefix_add(deckc, h, NUM_KINDS as int);
    assert(sum_counts(d1) == sum_counts(deckc) + hsize);
    assert forall|m: int| 0 <= m < NUM_KINDS implies zero_counts()[m] + hsize <= u64::MAX by {}
    lemma_draw_n_conserves(zero_counts(), d1, initial, seed, hist, hsize);
    let (nh, d2, hi2) = draw_n_into(zero_counts(), d1, initial, seed, hist, hsize);
    lemma_draw_n_into_bounds(zero_counts(), d1, initial, seed, hist, hsize);
    assert(sum_counts(zero_counts()) == 0) by {
        lemma_sum_prefix_zero(zero_counts(), NUM_KINDS as int);
    }
    crate::counts::lemma_hands_sum_update(hands, recv, nh, n);
}

/// Running any set of the turn's draft effects conserves the deck and the
/// hands together: effects move cards between a hand and the pool one for
/// one and never trigger a reshuffle.
pub proof fn lemma_hooks_conserve(
    hands: Seq<Seq<u64>>,
    flags: Seq<bool>,
    deckc: Seq<u64>,
    initial: Seq<u64>,
    seed: u64,
    hist: Seq<u64>,
    dir: PassDirection,
    k: int,
)
    requires
        hands.len() >= 1,
        0 <= k <= hands.len(),
        deckc.len() == NUM_KINDS,
        initial.len() == NUM_KINDS,
        sum_counts(initial) <= u64::MAX,
        forall|q: int| 0 <= q < hands.len() ==> (#[trigger] hands[q]).len() == NUM_KINDS,
        sum_counts(deckc) >= 0,
        forall|q: int| 0 <= q < hands.len() ==> sum_counts(#[trigger] hands[q]) >= 0,
        sum_counts(deckc) + hands_sum(hands, hands.len() as int) <= u64::MAX,
        forall|q: int|
            0 <= q < hands.len() ==> sum_counts(#[trigger] hands[q]) <= hands_sum(
                hands,
                hands.len() as int,
            ),
    ensures
        ({
            let n = hands.len() as int;
            let (hands2, d2, hi2) = run_hooks_spec(hands, flags, deckc, initial, seed, hist, dir, k);
            &&& sum_counts(d2) == sum_counts(deckc)
            &&& d2.len() == NUM_KINDS
            &&& hands2.len() == n
            &&& hands_sum(hands2, n) == hands_sum(hands, n)
            &&& forall|q: int| 0 <= q < n ==> (#[trigger] hands2[q]).len() == NUM_KINDS
            &&& forall|q: int| 0 <= q < n ==> sum_counts(#[trigger] hands2[q]) >= 0
            &&& forall|q: int|
                0 <= q < n ==> sum_counts(#[trigger] hands2[q]) <= hands_sum(hands2, n)
        }),
    decreases k,
{
    let n = hands.len() as int;
    if k > 0 {
        lemma_hooks_conserve(hands, flags, deckc, initial, seed, hist, dir, k - 1);
        let (h1, d1, hi1) = run_hooks_spec(hands, flags, deckc, initial, seed, hist, dir, k - 1);
        if flags[k - 1] {
            lemma_mystery_conserves(h1, d1, initial, seed, hi1, k - 1, dir);
            let (h2, d2, hi2) = mystery_spec(h1, d1, initial, seed, hi1, k - 1, dir);
            assert forall|q: int| 0 <= q < n implies sum_counts(#[trigger] h2[q]) >= 0 by {
                lemma_sum_prefix_nonneg(h2[q], NUM_KINDS as int);
            }
            assert forall|q: int| 0 <= q < n implies sum_counts(#[trigger] h2[q]) <= hands_sum(
                h2,
                n,
            ) by {
                crate::counts::lemma_hands_sum_element(h2, q, n);
            }
        }
    } else {
        assert forall|q: int| 0 <= q < n implies sum_counts(#[trigger] hands[q]) >= 0 by {}
    }
}

/// Every submission is a valid multiset split of that player's hand.
pub open spec fn valid_subs(players: Seq<Player>, subs: Seq<Option<(CardCounts, CardCounts)>>) -> bool {
    &&& subs.len() == players.len()
    &&& forall|p: int|
        0 <= p < subs.len() ==> ((#[trigger] subs[p]) matches Option::Some(s) ==> forall|k: int|
            0 <= k < NUM_KINDS ==> s.0@[k] + s.1@[k] == players[p].hand@[k])
}

/// A well-formed table's seat projections have the catalog shape and
/// nonnegative totals.
proof fn lemma_buckets_nonneg(players: Seq<Player>)
    requires
        forall|p: int| 0 <= p < players.len() ==> (#[trigger] players[p]).wf(),
    ensures
        forall|q: int|
            0 <= q < players.len() ==> (#[trigger] hands_of(players)[q]).len() == NUM_KINDS
                && sum_counts(hands_of(players)[q]) >= 0,
        forall|q: int|
            0 <= q < players.len() ==> (#[trigger] publics_of(players)[q]).len() == NUM_KINDS
                && sum_counts(publics_of(players)[q]) >= 0,
        forall|q: int|
            0 <= q < players.len() ==> (#[trigger] boosteds_of(players)[q]).len() == NUM_KINDS
                && sum_counts(boosteds_of(players)[q]) >= 0,
        hands_sum(hands_of(players), players.len() as int) >= 0,
        hands_sum(publics_of(players), players.len() as int) >= 0,
        hands_sum(boosteds_of(players), players.len() as int) >= 0,
{
    assert forall|q: int|
        0 <= q < players.len() implies (#[trigger] hands_of(players)[q]).len() == NUM_KINDS
        && sum_counts(hands_of(players)[q]) >= 0 by {
        lemma_sum_prefix_nonneg(players[q].hand@, NUM_KINDS as int);
    }
    assert forall|q: int|
        0 <= q < players.len() implies (#[trigger] publics_of(players)[q]).len() == NUM_KINDS
        && sum_counts(publics_of(players)[q]) >= 0 by {
        lemma_sum_prefix_nonneg(players[q].public_cards@, NUM_KINDS as int);
    }
    assert forall|q: int|
        0 <= q < players.len() implies (#[trigger] boosteds_of(players)[q]).len() == NUM_KINDS
        && sum_counts(boosteds_of(players)[q]) >= 0 by {
        lemma_sum_prefix_nonneg(players[q].boosted_fruit_teas@, NUM_KINDS as int);
    }
    crate::counts::lemma_hands_sum_nonneg(hands_of(players), players.len() as int);
    crate::counts::lemma_hands_sum_nonneg(publics_of(players), players.len() as int);
    crate::counts::lemma_hands_sum_nonneg(boosteds_of(players), players.len() as int);
}

/// The headroom bound implies the pointwise one: every count in the game is
/// below the bucket's total, which is below the game total.
pub proof fn lemma_counts_ok_small(g: Game)
    requires
        g.wf(),
        g.counts_ok(),
    ensures
        g.counts_small(),
{
    let n = g.players@.len() as int;
    lemma_buckets_nonneg(g.players@);
    lemma_sum_prefix_nonneg(g.deck.cards@, NUM_KINDS as int);
    assert forall|i: int| 0 <= i < NUM_KINDS implies g.deck.cards@[i] <= COUNT_LIMIT by {
        crate::counts::lemma_sum_prefix_bound(g.deck.cards@, i, NUM_KINDS as int);
    }
    assert forall|i: int| 0 <= i < NUM_KINDS implies g.deck.initial@[i] <= COUNT_LIMIT by {
        crate::counts::lemma_sum_prefix_bound(g.deck.initial@, i, NUM_KINDS as int);
    }
    assert forall|p: int|
        0 <= p < n implies counts_bounded((#[trigger] g.players@[p]).hand@) && counts_bounded(
        g.players@[p].public_cards@,
    ) && counts_bounded(g.players@[p].boosted_fruit_teas@) by {
        crate::counts::lemma_hands_sum_element(hands_of(g.players@), p, n);
        crate::counts::lemma_hands_sum_element(publics_of(g.players@), p, n);
        crate::counts::lemma_hands_sum_element(boosteds_of(g.players@), p, n);
        assert forall|i: int| 0 <= i < NUM_KINDS implies g.players@[p].hand@[i]
            <= COUNT_LIMIT by {
            crate::counts::lemma_sum_prefix_bound(g.players@[p].hand@, i, NUM_KINDS as int);
            assert(hands_of(g.players@)[p] == g.players@[p].hand@);
        }
        assert forall|i: int| 0 <= i < NUM_KINDS implies g.players@[p].public_cards@[i]
            <= COUNT_LIMIT by {
            crate::counts::lemma_sum_prefix_bound(
                g.players@[p].public_cards@,
                i,
                NUM_KINDS as int,
            );
            assert(publics_of(g.players@)[p] == g.players@[p].public_cards@);
        }
        assert forall|i: int| 0 <= i < NUM_KINDS implies g.players@[p].boosted_fruit_teas@[i]
            <= COUNT_LIMIT by {
            crate::counts::lemma_sum_prefix_bound(
                g.players@[p].boosted_fruit_teas@,
                i,
                NUM_KINDS as int,
            );
            assert(boosteds_of(g.players@)[p] == g.players@[p].boosted_fruit_teas@);
        }
    }
}

/// Empty hands add up to nothing.
proof fn lemma_zero_hands_sum(n: int, k: int)
    requires
        0 <= k <= n,
    ensures
        hands_sum(zero_hands(n), k) == 0,
    decreases k,
{
    if k > 0 {
        lemma_zero_hands_sum(n, k - 1);
        lemma_sum_prefix_zero(zero_counts(), NUM_KINDS as int);
        assert(zero_hands(n)[k - 1] == zero_counts());
    }
}

/// Replacing one seat's holdings shifts the bucket totals by that seat's
/// differences: the hand total by `dh`, the public total by `dp`, the
/// boosted bucket not at all.
proof fn lemma_one_seat_swap_units(a: Seq<Player>, b: Seq<Player>, pid: int, dh: int, dp: int)
    requires
        a.len() == b.len(),
        0 <= pid < a.len(),
        forall|q: int| 0 <= q < a.len() && q != pid ==> b[q] == a[q],
        sum_counts(b[pid].hand@) == sum_counts(a[pid].hand@) + dh,
        sum_counts(b[pid].public_cards@) == sum_counts(a[pid].public_cards@) + dp,
        b[pid].boosted_fruit_teas@ == a[pid].boosted_fruit_teas@,
    ensures
        hands_sum(hands_of(b), a.len() as int) == hands_sum(hands_of(a), a.len() as int) + dh,
        hands_sum(publics_of(b), a.len() as int) == hands_sum(publics_of(a), a.len() as int) + dp,
        hands_sum(boosteds_of(b), a.len() as int) == hands_sum(boosteds_of(a), a.len() as int),
{
    let n = a.len() as int;
    assert(hands_of(b) =~= hands_of(a).update(pid, b[pid].hand@));
    crate::counts::lemma_hands_sum_update(hands_of(a), pid, b[pid].hand@, n);
    assert(publics_of(b) =~= publics_of(a).update(pid, b[pid].public_cards@));
    crate::counts::lemma_hands_sum_update(publics_of(a), pid, b[pid].public_cards@, n);
    assert(boosteds_of(b) =~= boosteds_of(a));
    crate::counts::lemma_hands_sum_congruence(boosteds_of(b), boosteds_of(a), n);
}

/// A validated drafting phase never increases the game's card total: the
/// drafted buckets add up to the prior ones, less the consumed boosters.
proof fn lemma_selection_phase_units(players: Seq<Player>, subs: Seq<
    Option<(CardCounts, CardCounts)>,
>)
    requires
        subs.len() == players.len(),
        subs_wf(subs),
        valid_subs(players, subs),
        forall|p: int| 0 <= p < players.len() ==> (#[trigger] players[p]).wf(),
        forall|p: int|
            0 <= p < players.len() ==> counts_bounded((#[trigger] players[p]).public_cards@)
                && counts_bounded(players[p].boosted_fruit_teas@),
    ensures
        ({
            let n = players.len() as int;
            let hands1 = post_hands(players, subs);
            let pub2 = Seq::new(players.len(), |p: int| post_public(players[p], subs[p]));
            let boo2 = Seq::new(players.len(), |p: int| post_boosted(players[p], subs[p]));
            &&& forall|q: int|
                0 <= q < n ==> (#[trigger] hands1[q]).len() == NUM_KINDS && sum_counts(hands1[q])
                    >= 0
            &&& forall|q: int|
                0 <= q < n ==> (#[trigger] pub2[q]).len() == NUM_KINDS && sum_counts(pub2[q]) >= 0
            &&& forall|q: int|
                0 <= q < n ==> (#[trigger] boo2[q]).len() == NUM_KINDS && sum_counts(boo2[q]) >= 0
            &&& hands_sum(hands1, n) >= 0
            &&& hands_sum(pub2, n) >= 0
            &&& hands_sum(boo2, n) >= 0
            &&& hands_sum(hands1, n) + hands_sum(pub2, n) + hands_sum(boo2, n) <= hands_sum(
                hands_of(players),
                n,
            ) + hands_sum(publics_of(players), n) + hands_sum(boosteds_of(players), n)
        }),
{
    let n = players.len() as int;
    assert forall|p: int|
        0 <= p < subs.len() implies ((#[trigger] subs[p]) matches Option::Some(s) ==> (forall|
        m: int,
    |
        0 <= m < NUM_KINDS ==> players[p].public_cards@[m] + s.0@[m] <= u64::MAX) && (forall|
        m: int,
    |
        0 <= m < NUM_KINDS ==> players[p].boosted_fruit_teas@[m] + s.0@[m] <= u64::MAX)) by {
        match subs[p] {
            Option::Some(s) => {
                assert(counts_bounded(s.0@));
                assert(counts_bounded(players[p].public_cards@));
                assert(counts_bounded(players[p].boosted_fruit_teas@));
            },
            Option::None => {},
        }
    }
    lemma_turn_units_partial(players, subs, n);
    let hands1 = post_hands(players, subs);
    let pub2 = Seq::new(players.len(), |p: int| post_public(players[p], subs[p]));
    let boo2 = Seq::new(players.len(), |p: int| post_boosted(players[p], subs[p]));
    assert forall|q: int|
        0 <= q < n implies (#[trigger] hands1[q]).len() == NUM_KINDS && sum_counts(hands1[q])
        >= 0 by {
        assert(hands1[q] == post_hand(players[q], subs[q]));
        match subs[q] {
            Option::Some(s) => {},
            Option::None => {},
        }
        lemma_sum_prefix_nonneg(hands1[q], NUM_KINDS as int);
    }
    assert forall|q: int|
        0 <= q < n implies (#[trigger] pub2[q]).len() == NUM_KINDS && sum_counts(pub2[q])
        >= 0 by {
        match subs[q] {
            Option::Some(s) => {
                lemma_apply_selection_bounds(
                    players[q].public_cards@,
                    players[q].boosted_fruit_teas@,
                    s.0@,
                    NUM_KINDS as int,
                );
            },
            Option::None => {},
        }
        lemma_sum_prefix_nonneg(pub2[q], NUM_KINDS as int);
    }
    assert forall|q: int|
        0 <= q < n implies (#[trigger] boo2[q]).len() == NUM_KINDS && sum_counts(boo2[q])
        >= 0 by {
        match subs[q] {
            Option::Some(s) => {
                lemma_apply_selection_bounds(
                    players[q].public_cards@,
                    players[q].boosted_fruit_teas@,
                    s.0@,
                    NUM_KINDS as int,
                );
            },
            Option::None => {},
        }
        lemma_sum_prefix_nonneg(boo2[q], NUM_KINDS as int);
    }
    crate::counts::lemma_hands_sum_nonneg(hands1, n);
    crate::counts::lemma_hands_sum_nonneg(pub2, n);
    crate::counts::lemma_hands_sum_nonneg(boo2, n);
    lemma_buckets_nonneg(players);
}

} // verus!
