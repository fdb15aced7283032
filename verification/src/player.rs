//! Players: a stable id, a display name, a private hand, the public cards
//! drafted so far, and the separately tracked boosted fruit teas (which score
//! at a multiplier and must not be boosted twice).

use vstd::prelude::*;

use crate::counts::CardCounts;

verus! {

/// One seat at the table.
pub struct Player {
    pub id: usize,
    pub username: String,
    pub hand: CardCounts,
    pub public_cards: CardCounts,
    pub boosted_fruit_teas: CardCounts,
}

/// The part of a player that every peer may see: everything but the hand.
pub struct PlayerPublic {
    pub id: usize,
    pub name: String,
    pub public_cards: CardCounts,
    pub boosted_fruit_teas: CardCounts,
}

impl Player {
    /// Every holding of a player is a well-formed count vector.
    pub open spec fn wf(self) -> bool {
        &&& self.hand.wf()
        &&& self.public_cards.wf()
        &&& self.boosted_fruit_teas.wf()
    }

    /// The player's public snapshot.
    pub fn to_public(&self) -> (r: PlayerPublic)
        requires
            self.wf(),
        ensures
            r.id == self.id,
            r.name@ == self.username@,
            r.public_cards@ == self.public_cards@,
            r.boosted_fruit_teas@ == self.boosted_fruit_teas@,
            r.public_cards.wf(),
            r.boosted_fruit_teas.wf(),
    {
        PlayerPublic {
            id: self.id,
            name: self.username.clone(),
            public_cards: self.public_cards.clone(),
            boosted_fruit_teas: self.boosted_fruit_teas.clone(),
        }
    }
}

} // verus!
