use boba_go::cards::CardKind;
use boba_go::counts::CardCounts;
use boba_go::player::Player;
use boba_go::scoring::calculate_player_score;

fn counts_of(pairs: &[(CardKind, u64)]) -> CardCounts {
    let mut c = CardCounts::new();
    for (kind, n) in pairs {
        c.add(*kind, *n);
    }
    c
}

fn player_with(id: usize, public: &[(CardKind, u64)], boosted: &[(CardKind, u64)]) -> Player {
    Player {
        id,
        username: format!("p{}", id),
        hand: CardCounts::new(),
        public_cards: counts_of(public),
        boosted_fruit_teas: counts_of(boosted),
    }
}

fn line(points: &boba_go::scoring::ScoreBreakdown, label: &str) -> Option<i64> {
    for c in &points.category_scores {
        if c.category == label {
            return Some(c.points_tenths);
        }
    }
    None
}

#[test]
fn base_categories_score_per_card() {
    let players = vec![
        player_with(0, &[(CardKind::ThaiTea, 2), (CardKind::Matcha, 3)], &[]),
        player_with(1, &[], &[]),
    ];
    let b = calculate_player_score(&players[0], &players, 0);
    assert_eq!(line(&b, "Thai Tea"), Some(40));
    assert_eq!(line(&b, "Matcha Tea"), Some(90));
    // Both players are tied for fewest of the majority/minority card at
    // zero, so each carries -6 / 2 = -3.
    assert_eq!(line(&b, "Tapioca Pearl Majority/Minority"), Some(-30));
    assert_eq!(b.total_tenths, 40 + 90 - 30);
    assert!(b.set_bonuses.is_empty());
}

#[test]
fn boosted_fruit_teas_score_triple() {
    let players = vec![
        player_with(0, &[], &[(CardKind::MangoTea, 2)]),
        player_with(1, &[], &[]),
    ];
    let b = calculate_player_score(&players[0], &players, 0);
    // 2 points x 3 x 2 cards = 12 points.
    assert_eq!(line(&b, "Mango Tea (boosted)"), Some(120));
}

#[test]
fn mochi_tiers() {
    let expected: [(u64, i64); 7] =
        [(1, 10), (2, 30), (3, 60), (4, 100), (5, 150), (6, 150), (7, 150)];
    for (count, pts) in expected {
        let players = vec![
            player_with(0, &[(CardKind::MochiIceCream, count)], &[]),
            player_with(1, &[], &[]),
        ];
        let b = calculate_player_score(&players[0], &players, 0);
        assert_eq!(line(&b, "Mochi Ice Cream"), Some(pts));
    }
    let players = vec![player_with(0, &[], &[]), player_with(1, &[], &[])];
    let b = calculate_player_score(&players[0], &players, 0);
    assert_eq!(line(&b, "Mochi Ice Cream"), None);
}

#[test]
fn tapioca_tie_split_two_high_one_low() {
    // Holdings {2, 2, 0}: the two tied-high players each get +6/2 = +3,
    // the single low player gets -6; the award is zero-sum.
    let players = vec![
        player_with(0, &[(CardKind::TapiocaPearl, 2)], &[]),
        player_with(1, &[(CardKind::TapiocaPearl, 2)], &[]),
        player_with(2, &[], &[]),
    ];
    let a = calculate_player_score(&players[0], &players, 0);
    let b = calculate_player_score(&players[1], &players, 1);
    let c = calculate_player_score(&players[2], &players, 2);
    assert_eq!(line(&a, "Tapioca Pearl Majority/Minority"), Some(30));
    assert_eq!(line(&b, "Tapioca Pearl Majority/Minority"), Some(30));
    assert_eq!(line(&c, "Tapioca Pearl Majority/Minority"), Some(-60));
    assert_eq!(a.total_tenths + b.total_tenths + c.total_tenths, 0);
}

#[test]
fn tapioca_all_tied_nonzero_cancels_out() {
    // Everyone tied above zero is both the majority and the minority; the
    // award nets to zero and the line item is omitted.
    let players = vec![
        player_with(0, &[(CardKind::TapiocaPearl, 1)], &[]),
        player_with(1, &[(CardKind::TapiocaPearl, 1)], &[]),
    ];
    let a = calculate_player_score(&players[0], &players, 0);
    assert_eq!(line(&a, "Tapioca Pearl Majority/Minority"), None);
}

#[test]
fn tapioca_nobody_holds_any_still_penalizes() {
    // The majority award needs a positive count; the minority penalty does
    // not, so with no pearls at all everyone splits the -6.
    let players = vec![
        player_with(0, &[], &[]),
        player_with(1, &[], &[]),
        player_with(2, &[], &[]),
    ];
    let a = calculate_player_score(&players[0], &players, 0);
    assert_eq!(line(&a, "Tapioca Pearl Majority/Minority"), Some(-20));
}

#[test]
fn tea_set_bonus_counts_sets() {
    // Sorted descending 3, 2, 1+1: sets = min(3, min(2, 2)) = 2 -> +10.
    let players = vec![
        player_with(
            0,
            &[
                (CardKind::ThaiTea, 3),
                (CardKind::Matcha, 2),
                (CardKind::BrownSugarMilkTea, 1),
                (CardKind::MysteryTea, 1),
            ],
            &[],
        ),
        player_with(1, &[], &[]),
    ];
    let b = calculate_player_score(&players[0], &players, 0);
    assert_eq!(line(&b, "Tea Set Bonus"), Some(100));
    // A single staple kind forms no set.
    let players2 = vec![
        player_with(0, &[(CardKind::ThaiTea, 4)], &[]),
        player_with(1, &[], &[]),
    ];
    let b2 = calculate_player_score(&players2[0], &players2, 0);
    assert_eq!(line(&b2, "Tea Set Bonus"), None);
}

#[test]
fn totals_sum_all_line_items() {
    let players = vec![
        player_with(
            0,
            &[
                (CardKind::ThaiTea, 1),
                (CardKind::MochiIceCream, 2),
                (CardKind::TapiocaPearl, 1),
            ],
            &[(CardKind::LycheeTea, 1)],
        ),
        player_with(1, &[], &[]),
    ];
    let b = calculate_player_score(&players[0], &players, 0);
    let mut sum = 0;
    for c in &b.category_scores {
        sum += c.points_tenths;
    }
    assert_eq!(sum, b.total_tenths);
    // Thai Tea 2.0, mochi tier 3.0, boosted lychee 9.0, majority +6.
    assert_eq!(b.total_tenths, 20 + 30 + 90 + 60);
}
