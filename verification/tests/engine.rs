use boba_go::cards::CardKind;
use boba_go::config::GameConfig;
use boba_go::constants::cards_per_player;
use boba_go::counts::CardCounts;
use boba_go::deck::Deck;
use boba_go::rng::GameRng;
use boba_go::state::{Game, GameError, PassDirection, PlayerTurnState};

fn counts_of(pairs: &[(CardKind, u64)]) -> CardCounts {
    let mut c = CardCounts::new();
    for (kind, n) in pairs {
        c.add(*kind, *n);
    }
    c
}

fn two_player_config(seed: u64) -> GameConfig {
    GameConfig {
        player_names: vec!["a".to_string(), "b".to_string()],
        seed: Some(seed),
        round_count: 1,
        card_distribution: None,
    }
}

#[test]
fn catalog_metadata() {
    assert_eq!(CardKind::TapiocaPearl.name(), "Tapioca Pearl");
    assert_eq!(CardKind::Matcha.name(), "Matcha Tea");
    assert_eq!(CardKind::BrownSugarMilkTea.score(), 1);
    assert_eq!(CardKind::ThaiTea.score(), 2);
    assert_eq!(CardKind::Matcha.score(), 3);
    assert_eq!(CardKind::MysteryTea.score(), 2);
    assert_eq!(CardKind::MangoTea.score(), 2);
    assert_eq!(CardKind::LycheeTea.score(), 3);
    assert_eq!(CardKind::PassionFruitTea.score(), 1);
    assert_eq!(CardKind::PoppingBubbles.score(), 0);
    assert_eq!(CardKind::DrinkTray.score(), 0);
    assert!(CardKind::MangoTea.is_fruit_tea());
    assert!(CardKind::LycheeTea.is_fruit_tea());
    assert!(CardKind::PassionFruitTea.is_fruit_tea());
    assert!(!CardKind::ThaiTea.is_fruit_tea());
    assert!(!CardKind::PoppingBubbles.is_fruit_tea());
    assert!(CardKind::MysteryTea.has_on_draft());
    assert!(!CardKind::DrinkTray.has_on_draft());
    assert!(CardKind::MochiIceCream.playable());
    assert!(!CardKind::ThaiTea.playable());
    assert_eq!(CardKind::BrownSugarMilkTea.flavor_text(), "a classic blend");
    assert!(CardKind::DrinkTray.description().contains("activated"));
}

#[test]
fn cards_per_player_table() {
    assert_eq!(cards_per_player(2), Some(10));
    assert_eq!(cards_per_player(3), Some(9));
    assert_eq!(cards_per_player(4), Some(8));
    assert_eq!(cards_per_player(5), Some(7));
    assert_eq!(cards_per_player(1), None);
    assert_eq!(cards_per_player(6), None);
}

#[test]
fn empty_unseeded_deck_never_yields_a_card() {
    let mut deck = Deck::new();
    let mut rng = GameRng::from_seed(7);
    assert_eq!(deck.size(), 0);
    assert!(deck.draw(&mut rng).is_none());
    assert_eq!(deck.size(), 0);
}

#[test]
fn deck_draw_decrements_and_reshuffles() {
    let cards = counts_of(&[(CardKind::ThaiTea, 2), (CardKind::MangoTea, 1)]);
    let mut deck = Deck::with_cards(cards);
    let mut rng = GameRng::from_seed(1);
    assert_eq!(deck.size(), 3);
    let mut drawn = 0;
    for _ in 0..3 {
        assert!(deck.draw(&mut rng).is_some());
        drawn += 1;
        assert_eq!(deck.size(), 3 - drawn);
    }
    // Exhausted, but an initial distribution exists: the next draw
    // reshuffles the full mix back in before drawing.
    let card = deck.draw(&mut rng);
    assert!(card.is_some());
    assert_eq!(deck.size(), 2);
}

#[test]
fn deck_extend_returns_cards() {
    let mut deck = Deck::new();
    let batch = counts_of(&[(CardKind::ThaiTea, 2), (CardKind::DrinkTray, 1)]);
    deck.extend(&batch);
    assert_eq!(deck.size(), 3);
}

#[test]
fn rng_same_seed_same_picks() {
    let mut a = GameRng::from_seed(123);
    let mut b = GameRng::from_seed(123);
    for bound in [5u64, 17, 2, 1000, 1] {
        assert_eq!(a.pick(bound), b.pick(bound));
    }
    let mut c = GameRng::from_seed(124);
    let mut d = GameRng::from_seed(123);
    let mut any_diff = false;
    for _ in 0..32 {
        if c.pick(1_000_000) != d.pick(1_000_000) {
            any_diff = true;
        }
    }
    assert!(any_diff);
}

#[test]
fn rng_pick_stays_below_bound() {
    let mut r = GameRng::from_seed(99);
    for _ in 0..100 {
        assert!(r.pick(3) < 3);
    }
    assert_eq!(r.pick(1), 0);
}

#[test]
fn new_game_rejects_bad_player_counts() {
    let cfg = GameConfig { player_names: vec!["solo".to_string()], ..GameConfig::default() };
    assert!(matches!(Game::new(cfg), Err(GameError::InvalidConfig)));
    let names: Vec<String> = (0..6).map(|i| format!("p{}", i)).collect();
    let cfg6 = GameConfig { player_names: names, ..GameConfig::default() };
    assert!(matches!(Game::new(cfg6), Err(GameError::InvalidConfig)));
}

#[test]
fn new_game_rejects_undersized_deck() {
    let cfg = GameConfig {
        player_names: vec!["a".to_string(), "b".to_string()],
        seed: Some(5),
        round_count: 1,
        card_distribution: Some(counts_of(&[(CardKind::ThaiTea, 19)])),
    };
    assert!(matches!(Game::new(cfg), Err(GameError::NotEnoughCards)));
}

#[test]
fn new_game_deals_and_reports_seed() {
    let game = Game::new(two_player_config(42)).unwrap();
    assert_eq!(game.seed, 42);
    assert_eq!(game.num_players(), 2);
    assert_eq!(game.get_round(), 1);
    assert_eq!(game.get_turn(), 1);
    for p in 0..2 {
        let hand = game.get_player_hand(p).unwrap();
        assert_eq!(hand.total(), 10);
        let public = game.get_player_public(p).unwrap();
        assert_eq!(public.public_cards.total(), 0);
        assert_eq!(public.boosted_fruit_teas.total(), 0);
    }
    assert!(game.get_player_hand(2).is_err());
    // The fallback mix holds 114 cards; 20 were dealt.
    assert_eq!(game.deck.size(), 94);
}

#[test]
fn pass_direction_alternates_with_round_parity() {
    let mut game = Game::new(GameConfig {
        player_names: vec!["a".to_string(), "b".to_string()],
        seed: Some(3),
        round_count: 4,
        card_distribution: None,
    })
    .unwrap();
    assert_eq!(game.get_current_pass_direction(), PassDirection::Left);
    game.round = 2;
    assert_eq!(game.get_current_pass_direction(), PassDirection::Right);
    game.round = 3;
    assert_eq!(game.get_current_pass_direction(), PassDirection::Left);
}

#[test]
fn validate_hand_submission_checks_reconstruction() {
    let game = Game::new(two_player_config(11)).unwrap();
    let hand = game.get_player_hand(0).unwrap();
    // Split off one unit of the first held kind.
    let mut selected = CardCounts::new();
    let mut remaining = CardCounts::new();
    let mut taken = false;
    for i in 0..11 {
        let kind = CardKind::from_index(i);
        let c = hand.get(kind);
        if c > 0 && !taken {
            selected.add(kind, 1);
            remaining.add(kind, c - 1);
            taken = true;
        } else {
            remaining.add(kind, c);
        }
    }
    assert!(game.validate_hand_submission(0, &selected, &remaining).is_ok());
    // A unit too many fails the reconstruction check.
    let mut extra = CardCounts::new();
    extra.add(CardKind::ThaiTea, 1);
    let mut bloated = remaining.clone();
    bloated.add(CardKind::ThaiTea, 1);
    assert!(matches!(
        game.validate_hand_submission(0, &selected, &bloated),
        Err(GameError::InvalidConfig)
    ));
    // An out-of-range player id fails.
    assert!(game.validate_hand_submission(5, &selected, &remaining).is_err());
}

#[test]
fn turn_flags_track_marking() {
    let mut game = Game::new(two_player_config(8)).unwrap();
    assert!(!game.all_players_selected());
    assert_eq!(game.get_player_turn_state(0).unwrap(), PlayerTurnState::NotSelected);
    game.mark_player_selected(0).unwrap();
    assert!(!game.all_players_selected());
    game.mark_player_selected(1).unwrap();
    assert!(game.all_players_selected());
    assert_eq!(game.get_player_turn_state(1).unwrap(), PlayerTurnState::Selected);
    assert!(game.mark_player_selected(2).is_err());
    game.reset_turn_states();
    assert!(!game.all_players_selected());
}

#[test]
fn process_turn_requires_all_selected_and_matching_length() {
    let mut game = Game::new(two_player_config(8)).unwrap();
    let subs: Vec<Option<(CardCounts, CardCounts)>> = vec![None, None];
    assert!(matches!(game.process_turn(subs), Err(GameError::InvalidConfig)));
    game.mark_player_selected(0).unwrap();
    game.mark_player_selected(1).unwrap();
    let short: Vec<Option<(CardCounts, CardCounts)>> = vec![None];
    assert!(matches!(game.process_turn(short), Err(GameError::InvalidConfig)));
}

#[test]
fn activate_drink_tray_moves_card_and_is_reversible() {
    let mut game = Game::new(two_player_config(8)).unwrap();
    // Nothing public yet: activation must fail.
    assert!(matches!(game.activate_drink_tray(0), Err(GameError::InvalidConfig)));
    assert!(game.activate_drink_tray(9).is_err());
    // Give player 0 a public tray directly.
    game.players[0].public_cards.add(CardKind::DrinkTray, 2);
    let hand_before = game.players[0].hand.get(CardKind::DrinkTray);
    game.activate_drink_tray(0).unwrap();
    assert_eq!(game.players[0].public_cards.get(CardKind::DrinkTray), 1);
    assert_eq!(game.players[0].hand.get(CardKind::DrinkTray), hand_before + 1);
    // The engine's inverse operation restores the prior state exactly.
    game.undo_drink_tray(0).unwrap();
    assert_eq!(game.players[0].public_cards.get(CardKind::DrinkTray), 2);
    assert_eq!(game.players[0].hand.get(CardKind::DrinkTray), hand_before);
    // Undoing without a recalled tray in hand fails.
    if hand_before == 0 {
        assert!(matches!(game.undo_drink_tray(0), Err(GameError::InvalidConfig)));
    }
    assert!(game.undo_drink_tray(7).is_err());
}

#[test]
fn pass_hands_rotates_left_on_odd_rounds() {
    let mut game = Game::new(GameConfig {
        player_names: vec!["a".to_string(), "b".to_string(), "c".to_string()],
        seed: Some(77),
        round_count: 1,
        card_distribution: None,
    })
    .unwrap();
    let h0 = game.players[0].hand.clone();
    let h1 = game.players[1].hand.clone();
    let h2 = game.players[2].hand.clone();
    game.pass_hands();
    assert!(game.players[0].hand.equals(&h2));
    assert!(game.players[1].hand.equals(&h0));
    assert!(game.players[2].hand.equals(&h1));
}

#[test]
fn start_new_round_rejects_final_round() {
    let mut game = Game::new(two_player_config(8)).unwrap();
    assert!(matches!(game.start_new_round(), Err(GameError::InvalidConfig)));
}

#[test]
fn config_default_values() {
    let cfg = GameConfig::default();
    assert!(cfg.player_names.is_empty());
    assert!(cfg.seed.is_none());
    assert_eq!(cfg.round_count, 3);
    let dist = cfg.card_distribution.unwrap();
    assert_eq!(dist.total(), 104);
    assert_eq!(dist.get(CardKind::MochiIceCream), 8);
    assert_eq!(dist.get(CardKind::DrinkTray), 0);
}

#[test]
fn fallback_distribution_includes_the_utility_card() {
    let dist = boba_go::config::fallback_distribution();
    assert_eq!(dist.total(), 114);
    assert_eq!(dist.get(CardKind::DrinkTray), 10);
}

#[test]
fn three_player_two_round_game_runs_to_the_end() {
    let config = GameConfig {
        player_names: vec!["a".to_string(), "b".to_string(), "c".to_string()],
        seed: Some(4242),
        round_count: 2,
        card_distribution: None,
    };
    let mut game = Game::new(config).unwrap();
    let mut turns = 0;
    while !game.is_game_over() {
        turns += 1;
        assert!(turns <= 18);
        let n = game.num_players();
        let mut subs: Vec<Option<(CardCounts, CardCounts)>> = Vec::new();
        for p in 0..n {
            let hand = game.get_player_hand(p).unwrap().clone();
            let mut selected = CardCounts::new();
            let mut remaining = hand.clone();
            for i in 0..11 {
                let kind = CardKind::from_index(i);
                if remaining.get(kind) > 0 {
                    selected.add(kind, 1);
                    remaining.sub(kind, 1);
                    break;
                }
            }
            game.validate_hand_submission(p, &selected, &remaining).unwrap();
            game.mark_player_selected(p).unwrap();
            subs.push(Some((selected, remaining)));
        }
        game.process_turn(subs).unwrap();
    }
    // Two rounds of nine turns each.
    assert_eq!(turns, 18);
    assert_eq!(game.get_round(), 2);
    for p in 0..3 {
        let (total, breakdown) = game.calculate_player_score(p).unwrap();
        let mut sum = 0;
        for c in &breakdown.category_scores {
            sum += c.points_tenths;
        }
        assert_eq!(sum, total);
    }
}

#[test]
fn recalled_utility_card_allows_a_two_card_draft() {
    let mut game = Game::new(two_player_config(61)).unwrap();
    game.players[0].public_cards.add(CardKind::DrinkTray, 1);
    game.players[0].hand = counts_of(&[(CardKind::ThaiTea, 1), (CardKind::MangoTea, 1)]);
    game.players[1].hand = counts_of(&[(CardKind::Matcha, 2)]);
    game.activate_drink_tray(0).unwrap();
    // The tray is back in the hand; the turn may now draft two cards.
    let selected = counts_of(&[(CardKind::ThaiTea, 1), (CardKind::DrinkTray, 1)]);
    let remaining = counts_of(&[(CardKind::MangoTea, 1)]);
    game.validate_hand_submission(0, &selected, &remaining).unwrap();
    game.mark_player_selected(0).unwrap();
    game.mark_player_selected(1).unwrap();
    let subs = vec![
        Some((selected, remaining)),
        Some((CardCounts::new(), counts_of(&[(CardKind::Matcha, 2)]))),
    ];
    game.process_turn(subs).unwrap();
    let pp = game.get_player_public(0).unwrap();
    assert_eq!(pp.public_cards.get(CardKind::ThaiTea), 1);
    assert_eq!(pp.public_cards.get(CardKind::DrinkTray), 1);
}

#[test]
fn error_messages() {
    assert_eq!(GameError::InvalidConfig.message(), "Invalid configuration");
    assert_eq!(
        GameError::NotEnoughCards.message(),
        "Not enough cards in deck for new round"
    );
    assert_eq!(GameError::Other("transport closed".to_string()).message(), "transport closed");
}
