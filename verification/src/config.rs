//! Game configuration: player names, an optional seed (a random one is
//! picked and reported back when absent), an optional card-count
//! distribution, and the number of rounds.

use vstd::prelude::*;

use crate::cards::CardKind;
use crate::counts::CardCounts;

verus! {

/// What a caller supplies to construct a `Game`.
pub struct GameConfig {
    pub player_names: Vec<String>,
    pub seed: Option<u64>,
    pub round_count: usize,
    pub card_distribution: Option<CardCounts>,
}

impl GameConfig {
    pub open spec fn wf(self) -> bool {
        match self.card_distribution {
            Some(d) => d.wf(),
            None => true,
        }
    }
}

/// The built-in card mix of `default_distribution`, by kind index.
pub open spec fn default_counts() -> Seq<u64> {
    seq![14u64, 14u64, 12u64, 8u64, 10u64, 6u64, 10u64, 10u64, 10u64, 10u64, 0u64]
}

/// The card mix of `fallback_distribution`, by kind index.
pub open spec fn fallback_counts() -> Seq<u64> {
    seq![14u64, 14u64, 12u64, 8u64, 10u64, 6u64, 10u64, 10u64, 10u64, 10u64, 10u64]
}

/// The built-in card mix used when a configuration supplies no custom
/// distribution of its own.
pub fn default_distribution() -> (r: CardCounts)
    ensures
        r.wf(),
        r@ == default_counts(),
        r.count_spec(CardKind::TapiocaPearl) == 14,
        r.count_spec(CardKind::BrownSugarMilkTea) == 14,
        r.count_spec(CardKind::ThaiTea) == 12,
        r.count_spec(CardKind::MochiIceCream) == 8,
        r.count_spec(CardKind::Matcha) == 10,
        r.count_spec(CardKind::MysteryTea) == 6,
        r.count_spec(CardKind::PoppingBubbles) == 10,
        r.count_spec(CardKind::MangoTea) == 10,
        r.count_spec(CardKind::LycheeTea) == 10,
        r.count_spec(CardKind::PassionFruitTea) == 10,
        r.count_spec(CardKind::DrinkTray) == 0,
        r.total_spec() == 104,
{
    let mut d = CardCounts::new();
    proof {
        crate::counts::lemma_sum_prefix_zero(d@, crate::cards::NUM_KINDS as int);
    }
    d.add(CardKind::TapiocaPearl, 14);
    d.add(CardKind::BrownSugarMilkTea, 14);
    d.add(CardKind::ThaiTea, 12);
    d.add(CardKind::MochiIceCream, 8);
    d.add(CardKind::Matcha, 10);
    d.add(CardKind::MysteryTea, 6);
    d.add(CardKind::PoppingBubbles, 10);
    d.add(CardKind::MangoTea, 10);
    d.add(CardKind::LycheeTea, 10);
    d.add(CardKind::PassionFruitTea, 10);
    proof {
        assert(d@ =~= default_counts());
    }
    d
}

/// The card mix a deck is built from when the configuration's distribution
/// field itself is absent; unlike the configuration default it includes the
/// utility card.
pub fn fallback_distribution() -> (r: CardCounts)
    ensures
        r.wf(),
        r@ == fallback_counts(),
        r.count_spec(CardKind::TapiocaPearl) == 14,
        r.count_spec(CardKind::BrownSugarMilkTea) == 14,
        r.count_spec(CardKind::ThaiTea) == 12,
        r.count_spec(CardKind::MochiIceCream) == 8,
        r.count_spec(CardKind::Matcha) == 10,
        r.count_spec(CardKind::MysteryTea) == 6,
        r.count_spec(CardKind::PoppingBubbles) == 10,
        r.count_spec(CardKind::MangoTea) == 10,
        r.count_spec(CardKind::LycheeTea) == 10,
        r.count_spec(CardKind::PassionFruitTea) == 10,
        r.count_spec(CardKind::DrinkTray) == 10,
        r.total_spec() == 114,
{
    let mut d = default_distribution();
    d.add(CardKind::DrinkTray, 10);
    proof {
        assert(d@ =~= fallback_counts());
    }
    d
}

impl Default for GameConfig {
    /// No players, no seed, three rounds, the built-in distribution.
    fn default() -> (r: GameConfig)
        ensures
            r.player_names@.len() == 0,
            r.seed is None,
            r.round_count == 3,
            r.card_distribution is Some,
            r.wf(),
            r.card_distribution->Some_0@ == default_counts(),
            crate::counts::counts_bounded(r.card_distribution->Some_0@),
            r.card_distribution->Some_0.total_spec() == 104,
            r.card_distribution->Some_0.count_spec(CardKind::MochiIceCream) == 8,
    {
        let distribution = default_distribution();
        proof {
            assert forall|i: int|
                0 <= i < distribution@.len() implies distribution@[i]
                <= crate::counts::COUNT_LIMIT by {
                assert(distribution@ == default_counts());
            }
        }
        GameConfig {
            player_names: Vec::new(),
            seed: None,
            round_count: 3,
            card_distribution: Some(distribution),
        }
    }
}

} // verus!
