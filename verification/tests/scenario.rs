use boba_go::cards::CardKind;
use boba_go::config::GameConfig;
use boba_go::counts::CardCounts;
use boba_go::deck::Deck;
use boba_go::player::Player;
use boba_go::rng::GameRng;
use boba_go::state::{Game, PlayerTurnState};

fn counts_of(pairs: &[(CardKind, u64)]) -> CardCounts {
    let mut c = CardCounts::new();
    for (kind, n) in pairs {
        c.add(*kind, *n);
    }
    c
}

/// Split one unit of `kind` out of `hand`.
fn split_one(hand: &CardCounts, kind: CardKind) -> (CardCounts, CardCounts) {
    let mut selected = CardCounts::new();
    let mut remaining = hand.clone();
    selected.add(kind, 1);
    remaining.sub(kind, 1);
    (selected, remaining)
}

/// The kind a simple player drafts: the dessert card while still wanted,
/// otherwise the first held kind that is neither the dessert nor the
/// effect card, otherwise whatever is held.
fn draft_pick(hand: &CardCounts, want_mochi: bool) -> CardKind {
    if want_mochi && hand.get(CardKind::MochiIceCream) > 0 {
        return CardKind::MochiIceCream;
    }
    for i in 0..11 {
        let kind = CardKind::from_index(i);
        if hand.get(kind) > 0
            && !matches!(kind, CardKind::MochiIceCream)
            && !matches!(kind, CardKind::MysteryTea)
        {
            return kind;
        }
    }
    for i in 0..11 {
        let kind = CardKind::from_index(i);
        if hand.get(kind) > 0 {
            return kind;
        }
    }
    unreachable!();
}

/// Play a full 2-player, 1-round game in which player 0 chases the dessert
/// card (up to `mochi_goal` copies) and player 1 avoids it; returns player
/// 0's number of drafted dessert cards.
fn play_mochi_chase(seed: u64, mochi_goal: u64) -> (Game, u64) {
    let config = GameConfig {
        player_names: vec!["a".to_string(), "b".to_string()],
        seed: Some(seed),
        round_count: 1,
        ..GameConfig::default()
    };
    let mut game = Game::new(config).unwrap();
    let mut taken: u64 = 0;
    loop {
        if game.is_game_over() {
            break;
        }
        let mut subs: Vec<Option<(CardCounts, CardCounts)>> = Vec::new();
        for p in 0..2 {
            let hand = game.get_player_hand(p).unwrap().clone();
            let want = p == 0 && taken < mochi_goal;
            let kind = draft_pick(&hand, want);
            if p == 0 && matches!(kind, CardKind::MochiIceCream) {
                taken += 1;
            }
            let (selected, remaining) = split_one(&hand, kind);
            game.validate_hand_submission(p, &selected, &remaining).unwrap();
            game.mark_player_selected(p).unwrap();
            subs.push(Some((selected, remaining)));
        }
        game.process_turn(subs).unwrap();
    }
    (game, taken)
}

#[test]
fn two_seeded_games_resolve_identically() {
    let mk = || GameConfig {
        player_names: vec!["a".to_string(), "b".to_string()],
        seed: Some(2024),
        round_count: 1,
        card_distribution: None,
    };
    let mut g1 = Game::new(mk()).unwrap();
    let mut g2 = Game::new(mk()).unwrap();
    for _turn in 0..10 {
        for p in 0..2 {
            let h1 = g1.get_player_hand(p).unwrap().clone();
            let h2 = g2.get_player_hand(p).unwrap().clone();
            assert!(h1.equals(&h2));
        }
        let mut subs1: Vec<Option<(CardCounts, CardCounts)>> = Vec::new();
        let mut subs2: Vec<Option<(CardCounts, CardCounts)>> = Vec::new();
        for p in 0..2 {
            let hand = g1.get_player_hand(p).unwrap().clone();
            let kind = draft_pick(&hand, false);
            let (sel, rem) = split_one(&hand, kind);
            subs1.push(Some((sel.clone(), rem.clone())));
            subs2.push(Some((sel, rem)));
            g1.mark_player_selected(p).unwrap();
            g2.mark_player_selected(p).unwrap();
        }
        g1.process_turn(subs1).unwrap();
        g2.process_turn(subs2).unwrap();
        let s1 = g1.get_game_status();
        let s2 = g2.get_game_status();
        assert_eq!(s1.round, s2.round);
        assert_eq!(s1.turn, s2.turn);
        assert_eq!(s1.is_game_over, s2.is_game_over);
        for p in 0..2 {
            let p1 = g1.get_player_public(p).unwrap();
            let p2 = g2.get_player_public(p).unwrap();
            assert!(p1.public_cards.equals(&p2.public_cards));
            assert!(p1.boosted_fruit_teas.equals(&p2.boosted_fruit_teas));
        }
    }
    assert!(g1.is_game_over() && g2.is_game_over());
    for p in 0..2 {
        let (t1, _) = g1.calculate_player_score(p).unwrap();
        let (t2, _) = g2.calculate_player_score(p).unwrap();
        assert_eq!(t1, t2);
    }
}

#[test]
fn round_advances_when_hands_empty_and_rounds_remain() {
    let config = GameConfig {
        player_names: vec!["a".to_string(), "b".to_string()],
        seed: Some(9),
        round_count: 2,
        card_distribution: None,
    };
    let mut game = Game::new(config).unwrap();
    for turn in 1..=10 {
        assert_eq!(game.get_turn(), turn);
        let mut subs: Vec<Option<(CardCounts, CardCounts)>> = Vec::new();
        for p in 0..2 {
            let hand = game.get_player_hand(p).unwrap().clone();
            let kind = draft_pick(&hand, false);
            let (sel, rem) = split_one(&hand, kind);
            game.mark_player_selected(p).unwrap();
            subs.push(Some((sel, rem)));
        }
        game.process_turn(subs).unwrap();
    }
    // All hands emptied with a round to go: a fresh round was dealt.
    assert_eq!(game.get_round(), 2);
    assert_eq!(game.get_turn(), 1);
    assert!(!game.is_game_over());
    for p in 0..2 {
        assert_eq!(game.get_player_hand(p).unwrap().total(), 10);
        assert_eq!(
            game.get_player_turn_state(p).unwrap(),
            PlayerTurnState::NotSelected
        );
    }
}

#[test]
fn game_ends_on_final_round_with_empty_hands() {
    let (game, _) = play_mochi_chase(31, 0);
    assert!(game.is_game_over());
    assert_eq!(game.get_round(), 1);
    for p in 0..2 {
        assert_eq!(game.get_player_hand(p).unwrap().total(), 0);
    }
    let status = game.get_game_status();
    assert!(status.is_game_over);
}

/// A hand-built two-seat game whose deck holds the given pool.
fn bare_game(seed: u64, pool: &[(CardKind, u64)], hands: [&[(CardKind, u64)]; 2]) -> Game {
    let players = vec![
        Player {
            id: 0,
            username: "a".to_string(),
            hand: counts_of(hands[0]),
            public_cards: CardCounts::new(),
            boosted_fruit_teas: CardCounts::new(),
        },
        Player {
            id: 1,
            username: "b".to_string(),
            hand: counts_of(hands[1]),
            public_cards: CardCounts::new(),
            boosted_fruit_teas: CardCounts::new(),
        },
    ];
    Game {
        seed,
        rng: GameRng::from_seed(seed),
        deck: Deck::with_cards(counts_of(pool)),
        players,
        round: 1,
        turn: 1,
        player_turn_states: vec![PlayerTurnState::Selected, PlayerTurnState::Selected],
        round_count: 1,
    }
}

#[test]
fn pairing_boosts_up_to_available_boosters() {
    let mut game = bare_game(
        5,
        &[(CardKind::Matcha, 4)],
        [&[(CardKind::MangoTea, 2), (CardKind::ThaiTea, 1)], &[(CardKind::ThaiTea, 1)]],
    );
    game.players[0].public_cards.add(CardKind::PoppingBubbles, 1);
    let (sel0, rem0) = {
        let mut sel = CardCounts::new();
        sel.add(CardKind::MangoTea, 2);
        (sel, counts_of(&[(CardKind::ThaiTea, 1)]))
    };
    let subs = vec![
        Some((sel0, rem0)),
        Some((CardCounts::new(), counts_of(&[(CardKind::ThaiTea, 1)]))),
    ];
    game.process_turn(subs).unwrap();
    let pp = game.get_player_public(0).unwrap();
    // One of the two selected fruit teas paired with the single booster;
    // the booster was consumed; the remainder went public.
    assert_eq!(pp.boosted_fruit_teas.get(CardKind::MangoTea), 1);
    assert_eq!(pp.public_cards.get(CardKind::MangoTea), 1);
    assert_eq!(pp.public_cards.get(CardKind::PoppingBubbles), 0);
}

#[test]
fn conservation_through_an_effect_free_turn() {
    let mut game = bare_game(
        5,
        &[(CardKind::Matcha, 4)],
        [
            &[(CardKind::ThaiTea, 2), (CardKind::LycheeTea, 1)],
            &[(CardKind::BrownSugarMilkTea, 3)],
        ],
    );
    let units_before = game.deck.size()
        + game.players.iter().map(|p| {
            p.hand.total() + p.public_cards.total() + p.boosted_fruit_teas.total()
        }).sum::<u64>();
    let subs = vec![
        Some(split_one(&game.players[0].hand.clone(), CardKind::ThaiTea)),
        Some(split_one(&game.players[1].hand.clone(), CardKind::BrownSugarMilkTea)),
    ];
    game.process_turn(subs).unwrap();
    let units_after = game.deck.size()
        + game.players.iter().map(|p| {
            p.hand.total() + p.public_cards.total() + p.boosted_fruit_teas.total()
        }).sum::<u64>();
    // No draft effect fired and no pairing occurred: the card total over
    // deck, hands, public and boosted collections is conserved.
    assert_eq!(units_before, units_after);
    // The selected units moved from the hands into the public collections.
    assert_eq!(game.players[0].public_cards.get(CardKind::ThaiTea), 1);
    assert_eq!(game.players[1].public_cards.get(CardKind::BrownSugarMilkTea), 1);
    assert_eq!(game.players[0].hand.total() + game.players[1].hand.total(), 4);
}

#[test]
fn mystery_tea_replaces_the_received_hand() {
    let mut game = bare_game(
        12,
        &[(CardKind::Matcha, 5)],
        [
            &[(CardKind::MysteryTea, 1), (CardKind::ThaiTea, 1)],
            &[(CardKind::LycheeTea, 3)],
        ],
    );
    let units_before = game.deck.size()
        + game.players.iter().map(|p| {
            p.hand.total() + p.public_cards.total() + p.boosted_fruit_teas.total()
        }).sum::<u64>();
    let subs = vec![
        Some(split_one(&game.players[0].hand.clone(), CardKind::MysteryTea)),
        Some((CardCounts::new(), counts_of(&[(CardKind::LycheeTea, 3)]))),
    ];
    game.process_turn(subs).unwrap();
    let units_after = game.deck.size()
        + game.players.iter().map(|p| {
            p.hand.total() + p.public_cards.total() + p.boosted_fruit_teas.total()
        }).sum::<u64>();
    // The effect moves cards hand -> deck -> hand one for one: the total is
    // conserved even across a turn that runs the draft effect.
    assert_eq!(units_before, units_after);
    // Round 1 passes left: player 0 received player 1's untouched hand.
    assert_eq!(game.players[0].hand.get(CardKind::LycheeTea), 3);
    // Player 1 received the hand the effect card was drafted from (one
    // Thai Tea); the effect returned it to the deck and drew one fresh
    // card, so the hand size is unchanged but drawn from the pool.
    assert_eq!(game.players[1].hand.total(), 1);
    // The pool got one card back and gave one out.
    assert_eq!(game.deck.size(), 5);
}

#[test]
fn dessert_chase_scores_the_tier_not_the_sum() {
    // Found by searching seeds: with this seed the dealt hands let player 0
    // draft the dessert card on five separate turns.
    let (game, taken) = play_mochi_chase(25, 5);
    assert_eq!(taken, 5);
    assert_eq!(
        game.get_player_public(0).unwrap().public_cards.get(CardKind::MochiIceCream),
        5
    );
    let (_, breakdown) = game.calculate_player_score(0).unwrap();
    let mut mochi_line = None;
    for c in &breakdown.category_scores {
        if c.category == "Mochi Ice Cream" {
            mochi_line = Some(c.points_tenths);
        }
    }
    // The tier for five cards is 15 points, not five times the one-card tier.
    assert_eq!(mochi_line, Some(150));
}


#[test]
fn booster_selected_same_turn_never_pairs() {
    // No boosters held before the draft: selecting a booster together with
    // a fruit tea creates no boosted unit; both cards simply go public.
    let mut game = bare_game(
        3,
        &[(CardKind::Matcha, 4)],
        [
            &[(CardKind::PoppingBubbles, 1), (CardKind::MangoTea, 1), (CardKind::ThaiTea, 1)],
            &[(CardKind::ThaiTea, 2)],
        ],
    );
    let sel0 = counts_of(&[(CardKind::PoppingBubbles, 1), (CardKind::MangoTea, 1)]);
    let rem0 = counts_of(&[(CardKind::ThaiTea, 1)]);
    game.validate_hand_submission(0, &sel0, &rem0).unwrap();
    let subs = vec![
        Some((sel0, rem0)),
        Some((CardCounts::new(), counts_of(&[(CardKind::ThaiTea, 2)]))),
    ];
    game.process_turn(subs).unwrap();
    let pp = game.get_player_public(0).unwrap();
    assert_eq!(pp.boosted_fruit_teas.total(), 0);
    assert_eq!(pp.public_cards.get(CardKind::MangoTea), 1);
    assert_eq!(pp.public_cards.get(CardKind::PoppingBubbles), 1);
}

#[test]
fn pairing_uses_only_boosters_held_before_the_draft() {
    // One booster held before the draft, another selected alongside two
    // fruit teas: exactly one tea pairs (against the held booster); the
    // selected booster goes public for later turns.
    let mut game = bare_game(
        3,
        &[(CardKind::Matcha, 4)],
        [
            &[(CardKind::PoppingBubbles, 1), (CardKind::MangoTea, 2)],
            &[(CardKind::ThaiTea, 2)],
        ],
    );
    game.players[0].public_cards.add(CardKind::PoppingBubbles, 1);
    let sel0 = counts_of(&[(CardKind::PoppingBubbles, 1), (CardKind::MangoTea, 2)]);
    let rem0 = CardCounts::new();
    game.validate_hand_submission(0, &sel0, &rem0).unwrap();
    let subs = vec![
        Some((sel0, rem0)),
        Some((CardCounts::new(), counts_of(&[(CardKind::ThaiTea, 2)]))),
    ];
    game.process_turn(subs).unwrap();
    let pp = game.get_player_public(0).unwrap();
    assert_eq!(pp.boosted_fruit_teas.get(CardKind::MangoTea), 1);
    assert_eq!(pp.public_cards.get(CardKind::MangoTea), 1);
    // The held booster was consumed; the selected one remains public.
    assert_eq!(pp.public_cards.get(CardKind::PoppingBubbles), 1);
}
