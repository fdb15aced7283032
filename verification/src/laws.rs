//! Engine-wide laws, proved from the operations' contracts: the pairing cap
//! on boosted units, the deck-total invariant of a whole turn, the
//! reversibility of a utility-card activation, and the determinism of
//! resolution. The per-phase conservation lemmas these build on live beside
//! the transition functions they speak of, in the state module.

use vstd::prelude::*;

use crate::cards::{CardKind, NUM_KINDS};
use crate::counts::{hands_sum, sum_counts, CardCounts};
use crate::deck::draw_spec;
use crate::player::Player;
use crate::state::{
    apply_selection, hands_of, lemma_hooks_conserve, lemma_rotation_preserves_sum,
    lemma_selection_conservation, lemma_turn_units_partial, pass_direction_spec, pass_source,
    passed_hands, post_boosted, post_hand, post_hands, post_public, pview, run_hooks_spec,
    turn_flags, Game, PassDirection,
};

verus! {

/// Pairing cap: the number of boosted units one draft creates never exceeds
/// the boosters the player held publicly before it — a booster selected in
/// the same draft enters the public collection but never pairs; per kind, no
/// more units are boosted than were selected.
pub proof fn lemma_pairing_cap(pubc: Seq<u64>, boo: Seq<u64>, sel: Seq<u64>)
    requires
        pubc.len() == NUM_KINDS,
        boo.len() == NUM_KINDS,
        sel.len() == NUM_KINDS,
        forall|m: int| 0 <= m < NUM_KINDS ==> pubc[m] + sel[m] <= u64::MAX,
        forall|m: int| 0 <= m < NUM_KINDS ==> boo[m] + sel[m] <= u64::MAX,
    ensures
        ({
            let (p1, b1) = apply_selection(pubc, boo, sel);
            let pb = CardKind::PoppingBubbles.index_spec();
            &&& 0 <= sum_counts(b1) - sum_counts(boo) <= pubc[pb]
            &&& forall|m: int| 0 <= m < NUM_KINDS ==> #[trigger] b1[m] <= boo[m] + sel[m]
        }),
{
    lemma_selection_conservation(pubc, boo, sel);
    crate::state::lemma_apply_selection_bounds(pubc, boo, sel, NUM_KINDS as int);
}

/// The deck-total invariant of a turn: when every submission is a valid
/// split of the player's hand, the cards in the deck, the hands (after
/// passing and after the draft effects), the public collections and the
/// boosted collections add up to what they did before the turn, less one
/// card for each booster consumed by pairing. Effects conserve the total
/// because the returned hand always covers the redraw, so no mid-turn
/// reshuffle is possible; with no pairing, the total is conserved exactly.
pub proof fn lemma_turn_deck_total_invariant(players: Seq<Player>, subs: Seq<
    Option<(CardCounts, CardCounts)>,
>, deckc: Seq<u64>, initial: Seq<u64>, seed: u64, hist: Seq<u64>, dir: PassDirection)
    requires
        players.len() >= 1,
        subs.len() == players.len(),
        forall|p: int|
            0 <= p < players.len() ==> (#[trigger] players[p]).wf() && players[p].hand@.len()
                == NUM_KINDS,
        forall|p: int|
            0 <= p < subs.len() ==> ((#[trigger] subs[p]) matches Option::Some(s) ==> s.0@.len()
                == NUM_KINDS && s.1@.len() == NUM_KINDS),
        forall|p: int|
            0 <= p < subs.len() ==> ((#[trigger] subs[p]) matches Option::Some(s) ==> forall|
                m: int,
            |
                0 <= m < NUM_KINDS ==> s.0@[m] + s.1@[m] == players[p].hand@[m]),
        forall|p: int|
            0 <= p < subs.len() ==> ((#[trigger] subs[p]) matches Option::Some(s) ==> (forall|
                m: int,
            |
                0 <= m < NUM_KINDS ==> players[p].public_cards@[m] + s.0@[m] <= u64::MAX) && (
            forall|m: int|
                0 <= m < NUM_KINDS ==> players[p].boosted_fruit_teas@[m] + s.0@[m] <= u64::MAX)),
        deckc.len() == NUM_KINDS,
        initial.len() == NUM_KINDS,
        sum_counts(initial) <= u64::MAX,
        sum_counts(deckc) >= 0,
        sum_counts(deckc) + hands_sum(post_hands(players, subs), players.len() as int)
            <= u64::MAX,
    ensures
        ({
            let n = players.len() as int;
            let (hands2, deck2, hist2) = run_hooks_spec(
                passed_hands(post_hands(players, subs), dir),
                turn_flags(subs),
                deckc,
                initial,
                seed,
                hist,
                dir,
                n,
            );
            let publics2 = Seq::new(players.len(), |p: int| post_public(players[p], subs[p]));
            let boosteds2 = Seq::new(players.len(), |p: int| post_boosted(players[p], subs[p]));
            let consumed = hands_sum(boosteds2, n) - hands_sum(
                Seq::new(players.len(), |p: int| players[p].boosted_fruit_teas@),
                n,
            );
            &&& consumed >= 0
            &&& sum_counts(deck2) + hands_sum(hands2, n) + hands_sum(publics2, n) + hands_sum(
                boosteds2,
                n,
            ) == sum_counts(deckc) + hands_sum(hands_of(players), n) + hands_sum(
                Seq::new(players.len(), |p: int| players[p].public_cards@),
                n,
            ) + hands_sum(
                Seq::new(players.len(), |p: int| players[p].boosted_fruit_teas@),
                n,
            ) - consumed
        }),
{
    let n = players.len() as int;
    let hands1 = post_hands(players, subs);
    lemma_rotation_preserves_sum(hands1, dir);
    lemma_turn_units_partial(players, subs, n);
    let passed = passed_hands(hands1, dir);
    assert forall|q: int| 0 <= q < n implies (#[trigger] passed[q]).len() == NUM_KINDS by {
        assert(passed[q] == hands1[pass_source(dir, q, n)]);
        assert(0 <= pass_source(dir, q, n) < n);
        assert(hands1[pass_source(dir, q, n)] == post_hand(
            players[pass_source(dir, q, n)],
            subs[pass_source(dir, q, n)],
        ));
    }
    assert forall|q: int| 0 <= q < n implies sum_counts(#[trigger] passed[q]) >= 0 by {
        crate::counts::lemma_sum_prefix_nonneg(passed[q], NUM_KINDS as int);
    }
    assert forall|q: int| 0 <= q < n implies sum_counts(#[trigger] passed[q]) <= hands_sum(
        passed,
        n,
    ) by {
        crate::counts::lemma_hands_sum_element(passed, q, n);
    }
    lemma_hooks_conserve(passed, turn_flags(subs), deckc, initial, seed, hist, dir, n);
}

/// A turn in which no seat drafted an effect card runs no hooks: the hands,
/// the deck and the draw history come out exactly as they went in.
pub proof fn lemma_no_hooks_identity(
    hands: Seq<Seq<u64>>,
    flags: Seq<bool>,
    deckc: Seq<u64>,
    initial: Seq<u64>,
    seed: u64,
    hist: Seq<u64>,
    dir: PassDirection,
    k: int,
)
    requires
        forall|p: int| 0 <= p < k ==> !flags[p],
    ensures
        run_hooks_spec(hands, flags, deckc, initial, seed, hist, dir, k) == (hands, deckc, hist),
    decreases k,
{
    if k > 0 {
        lemma_no_hooks_identity(hands, flags, deckc, initial, seed, hist, dir, k - 1);
    }
}

/// Activating the utility card and undoing the activation within the same
/// selection phase restores the player's hand and public cards exactly:
/// the two operations' updates cancel.
pub proof fn lemma_tray_activation_reversible(hand: Seq<u64>, pubc: Seq<u64>)
    requires
        hand.len() == NUM_KINDS,
        pubc.len() == NUM_KINDS,
        pubc[CardKind::DrinkTray.index_spec()] > 0,
        hand[CardKind::DrinkTray.index_spec()] < u64::MAX,
    ensures
        ({
            let tray = CardKind::DrinkTray.index_spec();
            let hand1 = hand.update(tray, (hand[tray] + 1) as u64);
            let pubc1 = pubc.update(tray, (pubc[tray] - 1) as u64);
            &&& hand1[tray] > 0
            &&& hand1.update(tray, (hand1[tray] - 1) as u64) =~= hand
            &&& pubc1.update(tray, (pubc1[tray] + 1) as u64) =~= pubc
        }),
{
}

/// A draw from an exhausted pool with no recorded initial distribution
/// yields no card and leaves the pool and the draw history alone.
pub proof fn lemma_empty_draw_yields_none(cards: Seq<u64>, initial: Seq<u64>, seed: u64, hist: Seq<
    u64,
>)
    requires
        sum_counts(cards) == 0,
        sum_counts(initial) == 0,
    ensures
        draw_spec(cards, initial, seed, hist) == (cards, hist, None::<CardKind>),
{
}

/// Determinism of resolution: the drafted state, the passed hands, the
/// effect outcomes and the next deal are all mathematical functions of the
/// prior state and the submissions (randomness enters only through
/// `chacha_pick`, a function of the seed and draw history), so two games in
/// identical states fed identical submissions resolve identically.
pub proof fn lemma_resolution_deterministic(g1: Game, g2: Game, subs: Seq<
    Option<(CardCounts, CardCounts)>,
>)
    requires
        g1.players@.len() == g2.players@.len(),
        forall|p: int|
            0 <= p < g1.players@.len() ==> pview(#[trigger] g1.players@[p]) == pview(
                g2.players@[p],
            ),
        g1.deck.cards@ == g2.deck.cards@,
        g1.deck.initial@ == g2.deck.initial@,
        g1.rng.seed_spec() == g2.rng.seed_spec(),
        g1.rng.history_spec() == g2.rng.history_spec(),
        g1.round == g2.round,
    ensures
        post_hands(g1.players@, subs) == post_hands(g2.players@, subs),
        forall|p: int|
            0 <= p < g1.players@.len() ==> post_public(#[trigger] g1.players@[p], subs[p])
                == post_public(g2.players@[p], subs[p]) && post_boosted(g1.players@[p], subs[p])
                == post_boosted(g2.players@[p], subs[p]),
        ({
            let n = g1.players@.len() as int;
            let dir = pass_direction_spec(g1.round as int);
            run_hooks_spec(
                passed_hands(post_hands(g1.players@, subs), dir),
                turn_flags(subs),
                g1.deck.cards@,
                g1.deck.initial@,
                g1.rng.seed_spec(),
                g1.rng.history_spec(),
                dir,
                n,
            ) == run_hooks_spec(
                passed_hands(post_hands(g2.players@, subs), dir),
                turn_flags(subs),
                g2.deck.cards@,
                g2.deck.initial@,
                g2.rng.seed_spec(),
                g2.rng.history_spec(),
                dir,
                n,
            )
        }),
{
    assert forall|p: int| 0 <= p < g1.players@.len() implies post_hand(
        #[trigger] g1.players@[p],
        subs[p],
    ) == post_hand(g2.players@[p], subs[p]) && post_public(g1.players@[p], subs[p]) == post_public(
        g2.players@[p],
        subs[p],
    ) && post_boosted(g1.players@[p], subs[p]) == post_boosted(g2.players@[p], subs[p]) by {
        assert(g1.players@[p].hand@ == g2.players@[p].hand@);
        assert(g1.players@[p].public_cards@ == g2.players@[p].public_cards@);
        assert(g1.players@[p].boosted_fruit_teas@ == g2.players@[p].boosted_fruit_teas@);
    }
    assert(post_hands(g1.players@, subs) =~= post_hands(g2.players@, subs));
}

} // verus!
