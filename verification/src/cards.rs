//! The card catalog: a closed enumeration of card kinds and their immutable
//! rule attributes (display name, description, flavor text, base score,
//! selectability, fruit-tea classification, and whether drafting the card
//! triggers a special effect).

use vstd::prelude::*;

verus! {

/// Number of distinct card kinds in the catalog.
pub const NUM_KINDS: usize = 11;

/// The closed set of card identities. Holdings are counted per kind, never
/// tracked as unique card instances.
#[derive(Clone, Copy, Debug, PartialEq, Eq, Structural)]
pub enum CardKind {
    TapiocaPearl,
    BrownSugarMilkTea,
    ThaiTea,
    MochiIceCream,
    Matcha,
    MysteryTea,
    PoppingBubbles,
    MangoTea,
    LycheeTea,
    PassionFruitTea,
    DrinkTray,
}

impl CardKind {
    /// The fixed index of this kind in count vectors, in declaration order.
    pub open spec fn index_spec(self) -> int {
        match self {
            CardKind::TapiocaPearl => 0,
            CardKind::BrownSugarMilkTea => 1,
            CardKind::ThaiTea => 2,
            CardKind::MochiIceCream => 3,
            CardKind::Matcha => 4,
            CardKind::MysteryTea => 5,
            CardKind::PoppingBubbles => 6,
            CardKind::MangoTea => 7,
            CardKind::LycheeTea => 8,
            CardKind::PassionFruitTea => 9,
            CardKind::DrinkTray => 10,
        }
    }

    /// The kind whose index is `i`.
    pub open spec fn from_index_spec(i: int) -> CardKind {
        if i == 0 { CardKind::TapiocaPearl }
        else if i == 1 { CardKind::BrownSugarMilkTea }
        else if i == 2 { CardKind::ThaiTea }
        else if i == 3 { CardKind::MochiIceCream }
        else if i == 4 { CardKind::Matcha }
        else if i == 5 { CardKind::MysteryTea }
        else if i == 6 { CardKind::PoppingBubbles }
        else if i == 7 { CardKind::MangoTea }
        else if i == 8 { CardKind::LycheeTea }
        else if i == 9 { CardKind::PassionFruitTea }
        else { CardKind::DrinkTray }
    }

    pub fn index(&self) -> (r: usize)
        ensures
            r == self.index_spec(),
            r < NUM_KINDS,
    {
        match self {
            CardKind::TapiocaPearl => 0,
            CardKind::BrownSugarMilkTea => 1,
            CardKind::ThaiTea => 2,
            CardKind::MochiIceCream => 3,
            CardKind::Matcha => 4,
            CardKind::MysteryTea => 5,
            CardKind::PoppingBubbles => 6,
            CardKind::MangoTea => 7,
            CardKind::LycheeTea => 8,
            CardKind::PassionFruitTea => 9,
            CardKind::DrinkTray => 10,
        }
    }

    pub fn from_index(i: usize) -> (r: CardKind)
        requires
            i < NUM_KINDS,
        ensures
            r == CardKind::from_index_spec(i as int),
            r.index_spec() == i,
    {
        if i == 0 { CardKind::TapiocaPearl }
        else if i == 1 { CardKind::BrownSugarMilkTea }
        else if i == 2 { CardKind::ThaiTea }
        else if i == 3 { CardKind::MochiIceCream }
        else if i == 4 { CardKind::Matcha }
        else if i == 5 { CardKind::MysteryTea }
        else if i == 6 { CardKind::PoppingBubbles }
        else if i == 7 { CardKind::MangoTea }
        else if i == 8 { CardKind::LycheeTea }
        else if i == 9 { CardKind::PassionFruitTea }
        else { CardKind::DrinkTray }
    }

    /// Base point value per publicly held card of this kind.
    pub open spec fn score_spec(self) -> u32 {
        match self {
            CardKind::TapiocaPearl => 0,
            CardKind::BrownSugarMilkTea => 1,
            CardKind::ThaiTea => 2,
            CardKind::MochiIceCream => 0,
            CardKind::Matcha => 3,
            CardKind::MysteryTea => 2,
            CardKind::PoppingBubbles => 0,
            CardKind::MangoTea => 2,
            CardKind::LycheeTea => 3,
            CardKind::PassionFruitTea => 1,
            CardKind::DrinkTray => 0,
        }
    }

    pub fn score(&self) -> (r: u32)
        ensures
            r == self.score_spec(),
    {
        match self {
            CardKind::TapiocaPearl => 0,
            CardKind::BrownSugarMilkTea => 1,
            CardKind::ThaiTea => 2,
            CardKind::MochiIceCream => 0,
            CardKind::Matcha => 3,
            CardKind::MysteryTea => 2,
            CardKind::PoppingBubbles => 0,
            CardKind::MangoTea => 2,
            CardKind::LycheeTea => 3,
            CardKind::PassionFruitTea => 1,
            CardKind::DrinkTray => 0,
        }
    }

    /// Whether a card of this kind counts as a fruit tea (and can therefore
    /// pair with a booster when drafted).
    pub open spec fn is_fruit_tea_spec(self) -> bool {
        match self {
            CardKind::MangoTea => true,
            CardKind::LycheeTea => true,
            CardKind::PassionFruitTea => true,
            _ => false,
        }
    }

    pub fn is_fruit_tea(&self) -> (r: bool)
        ensures
            r == self.is_fruit_tea_spec(),
    {
        match self {
            CardKind::MangoTea => true,
            CardKind::LycheeTea => true,
            CardKind::PassionFruitTea => true,
            _ => false,
        }
    }

    /// Whether drafting a card of this kind triggers a draft effect.
    pub open spec fn has_on_draft_spec(self) -> bool {
        self == CardKind::MysteryTea
    }

    pub fn has_on_draft(&self) -> (r: bool)
        ensures
            r == self.has_on_draft_spec(),
    {
        match self {
            CardKind::MysteryTea => true,
            _ => false,
        }
    }

    /// Whether this kind may be independently selected.
    pub open spec fn playable_spec(self) -> bool {
        self == CardKind::MochiIceCream
    }

    pub fn playable(&self) -> (r: bool)
        ensures
            r == self.playable_spec(),
    {
        match self {
            CardKind::MochiIceCream => true,
            _ => false,
        }
    }

    pub open spec fn name_spec(self) -> Seq<char> {
        match self {
            CardKind::TapiocaPearl => "Tapioca Pearl"@,
            CardKind::BrownSugarMilkTea => "Brown Sugar Milk Tea"@,
            CardKind::ThaiTea => "Thai Tea"@,
            CardKind::MochiIceCream => "Mochi Ice Cream"@,
            CardKind::Matcha => "Matcha Tea"@,
            CardKind::MysteryTea => "Mystery Tea"@,
            CardKind::PoppingBubbles => "Popping Bubbles"@,
            CardKind::MangoTea => "Mango Tea"@,
            CardKind::LycheeTea => "Lychee Tea"@,
            CardKind::PassionFruitTea => "Passion Fruit Tea"@,
            CardKind::DrinkTray => "Drink Tray"@,
        }
    }

    /// Display name of the kind.
    pub fn name(&self) -> (r: &'static str)
        ensures
            r@ == self.name_spec(),
    {
        match self {
            CardKind::TapiocaPearl => "Tapioca Pearl",
            CardKind::BrownSugarMilkTea => "Brown Sugar Milk Tea",
            CardKind::ThaiTea => "Thai Tea",
            CardKind::MochiIceCream => "Mochi Ice Cream",
            CardKind::Matcha => "Matcha Tea",
            CardKind::MysteryTea => "Mystery Tea",
            CardKind::PoppingBubbles => "Popping Bubbles",
            CardKind::MangoTea => "Mango Tea",
            CardKind::LycheeTea => "Lychee Tea",
            CardKind::PassionFruitTea => "Passion Fruit Tea",
            CardKind::DrinkTray => "Drink Tray",
        }
    }

    /// Name used for the score line of a boosted holding of this kind.
    pub open spec fn boosted_name_spec(self) -> Seq<char> {
        match self {
            CardKind::TapiocaPearl => "Tapioca Pearl (boosted)"@,
            CardKind::BrownSugarMilkTea => "Brown Sugar Milk Tea (boosted)"@,
            CardKind::ThaiTea => "Thai Tea (boosted)"@,
            CardKind::MochiIceCream => "Mochi Ice Cream (boosted)"@,
            CardKind::Matcha => "Matcha Tea (boosted)"@,
            CardKind::MysteryTea => "Mystery Tea (boosted)"@,
            CardKind::PoppingBubbles => "Popping Bubbles (boosted)"@,
            CardKind::MangoTea => "Mango Tea (boosted)"@,
            CardKind::LycheeTea => "Lychee Tea (boosted)"@,
            CardKind::PassionFruitTea => "Passion Fruit Tea (boosted)"@,
            CardKind::DrinkTray => "Drink Tray (boosted)"@,
        }
    }

    pub fn boosted_name(&self) -> (r: &'static str)
        ensures
            r@ == self.boosted_name_spec(),
    {
        match self {
            CardKind::TapiocaPearl => "Tapioca Pearl (boosted)",
            CardKind::BrownSugarMilkTea => "Brown Sugar Milk Tea (boosted)",
            CardKind::ThaiTea => "Thai Tea (boosted)",
            CardKind::MochiIceCream => "Mochi Ice Cream (boosted)",
            CardKind::Matcha => "Matcha Tea (boosted)",
            CardKind::MysteryTea => "Mystery Tea (boosted)",
            CardKind::PoppingBubbles => "Popping Bubbles (boosted)",
            CardKind::MangoTea => "Mango Tea (boosted)",
            CardKind::LycheeTea => "Lychee Tea (boosted)",
            CardKind::PassionFruitTea => "Passion Fruit Tea (boosted)",
            CardKind::DrinkTray => "Drink Tray (boosted)",
        }
    }

    pub open spec fn description_spec(self) -> Seq<char> {
        match self {
            CardKind::TapiocaPearl => "Most Tapioca Pearls: +6 points (split if tied). Least Tapioca Pearls: -6 points (split if tied)."@,
            CardKind::BrownSugarMilkTea => "+1 point. Each set of 3 unique non-fruit teas gives a +5 bonus!"@,
            CardKind::ThaiTea => "+2 points. Each set of 3 unique non-fruit teas gives a +5 bonus!"@,
            CardKind::MochiIceCream => "Points based on quantity: 1 (1 card), 3 (2 cards), 6 (3 cards), 10 (4 cards), 15 (5+ cards)"@,
            CardKind::Matcha => "+3 points. Each set of 3 unique non-fruit teas gives a +5 bonus!"@,
            CardKind::MysteryTea => "+2 points. After drafting this card, the remaining cards in this hand are replaced with random  cards from the deck. Each set of 3 unique non-fruit teas gives a +5 bonus!"@,
            CardKind::PoppingBubbles => "Pairs with fruit teas to triple their points. Each Popping Bubbles can boost one fruit tea."@,
            CardKind::MangoTea => "+2 points. Each set of 3 unique fruit teas gives a +5 bonus!"@,
            CardKind::LycheeTea => "+3 points. Each set of 3 unique fruit teas gives a +5 bonus!"@,
            CardKind::PassionFruitTea => "+1 point. Each set of 3 unique fruit teas gives a +5 bonus!"@,
            CardKind::DrinkTray => "Can be activated to return it to your hand and give you the ability to draft another card for that turn"@,
        }
    }

    /// Rules text shown for the kind.
    pub fn description(&self) -> (r: &'static str)
        ensures
            r@ == self.description_spec(),
    {
        match self {
            CardKind::TapiocaPearl => "Most Tapioca Pearls: +6 points (split if tied). Least Tapioca Pearls: -6 points (split if tied).",
            CardKind::BrownSugarMilkTea => "+1 point. Each set of 3 unique non-fruit teas gives a +5 bonus!",
            CardKind::ThaiTea => "+2 points. Each set of 3 unique non-fruit teas gives a +5 bonus!",
            CardKind::MochiIceCream => "Points based on quantity: 1 (1 card), 3 (2 cards), 6 (3 cards), 10 (4 cards), 15 (5+ cards)",
            CardKind::Matcha => "+3 points. Each set of 3 unique non-fruit teas gives a +5 bonus!",
            CardKind::MysteryTea => "+2 points. After drafting this card, the remaining cards in this hand are replaced with random  cards from the deck. Each set of 3 unique non-fruit teas gives a +5 bonus!",
            CardKind::PoppingBubbles => "Pairs with fruit teas to triple their points. Each Popping Bubbles can boost one fruit tea.",
            CardKind::MangoTea => "+2 points. Each set of 3 unique fruit teas gives a +5 bonus!",
            CardKind::LycheeTea => "+3 points. Each set of 3 unique fruit teas gives a +5 bonus!",
            CardKind::PassionFruitTea => "+1 point. Each set of 3 unique fruit teas gives a +5 bonus!",
            CardKind::DrinkTray => "Can be activated to return it to your hand and give you the ability to draft another card for that turn",
        }
    }

    pub open spec fn flavor_text_spec(self) -> Seq<char> {
        match self {
            CardKind::BrownSugarMilkTea => "a classic blend"@,
            CardKind::MochiIceCream => "like an ice cream filled dumpling"@,
            _ => ""@,
        }
    }

    /// Flavor text shown for the kind.
    pub fn flavor_text(&self) -> (r: &'static str)
        ensures
            r@ == self.flavor_text_spec(),
    {
        match self {
            CardKind::BrownSugarMilkTea => "a classic blend",
            CardKind::MochiIceCream => "like an ice cream filled dumpling",
            _ => "",
        }
    }
}

/// Marker type for the majority/minority-scored card.
pub struct TapiocaPearl;

/// Marker type for the 1-point staple tea.
pub struct BrownSugarMilkTea;

/// Marker type for the 2-point staple tea.
pub struct ThaiTea;

/// Marker type for the quantity-tiered dessert card.
pub struct MochiIceCream;

/// Marker type for the 3-point staple tea.
pub struct MatchaTea;

/// Marker type for the hand-reshuffling effect card.
pub struct MysteryTea;

/// Marker type for the booster that pairs with fruit teas.
pub struct PoppingBubbles;

/// Marker type for the 2-point fruit tea.
pub struct MangoTea;

/// Marker type for the 3-point fruit tea.
pub struct LycheeTea;

/// Marker type for the 1-point fruit tea.
pub struct PassionFruitTea;

/// Marker type for the recoverable extra-draft utility card.
pub struct DrinkTray;

impl TapiocaPearl {
    /// The catalog kind this card belongs to.
    pub fn kind() -> (r: CardKind)
        ensures r == CardKind::TapiocaPearl,
    {
        CardKind::TapiocaPearl
    }
}

impl BrownSugarMilkTea {
    /// The catalog kind this card belongs to.
    pub fn kind() -> (r: CardKind)
        ensures r == CardKind::BrownSugarMilkTea,
    {
        CardKind::BrownSugarMilkTea
    }
}

impl ThaiTea {
    /// The catalog kind this card belongs to.
    pub fn kind() -> (r: CardKind)
        ensures r == CardKind::ThaiTea,
    {
        CardKind::ThaiTea
    }
}

impl MochiIceCream {
    /// The catalog kind this card belongs to.
    pub fn kind() -> (r: CardKind)
        ensures r == CardKind::MochiIceCream,
    {
        CardKind::MochiIceCream
    }
}

impl MatchaTea {
    /// The catalog kind this card belongs to.
    pub fn kind() -> (r: CardKind)
        ensures r == CardKind::Matcha,
    {
        CardKind::Matcha
    }
}

impl MysteryTea {
    /// The catalog kind this card belongs to.
    pub fn kind() -> (r: CardKind)
        ensures r == CardKind::MysteryTea,
    {
        CardKind::MysteryTea
    }
}

impl PoppingBubbles {
    /// The catalog kind this card belongs to.
    pub fn kind() -> (r: CardKind)
        ensures r == CardKind::PoppingBubbles,
    {
        CardKind::PoppingBubbles
    }
}

impl MangoTea {
    /// The catalog kind this card belongs to.
    pub fn kind() -> (r: CardKind)
        ensures r == CardKind::MangoTea,
    {
        CardKind::MangoTea
    }
}

impl LycheeTea {
    /// The catalog kind this card belongs to.
    pub fn kind() -> (r: CardKind)
        ensures r == CardKind::LycheeTea,
    {
        CardKind::LycheeTea
    }
}

impl PassionFruitTea {
    /// The catalog kind this card belongs to.
    pub fn kind() -> (r: CardKind)
        ensures r == CardKind::PassionFruitTea,
    {
        CardKind::PassionFruitTea
    }
}

impl DrinkTray {
    /// The catalog kind this card belongs to.
    pub fn kind() -> (r: CardKind)
        ensures r == CardKind::DrinkTray,
    {
        CardKind::DrinkTray
    }
}

} // verus!
