//! The fixed table of supported player counts and the hand size dealt to
//! each player for that count.

use vstd::prelude::*;

verus! {

/// Hand size dealt per player for a supported player count, none for an
/// unsupported one.
pub open spec fn cards_per_player_spec(num_players: int) -> Option<usize> {
    if num_players == 2 {
        Some(10usize)
    } else if num_players == 3 {
        Some(9usize)
    } else if num_players == 4 {
        Some(8usize)
    } else if num_players == 5 {
        Some(7usize)
    } else {
        None
    }
}

pub fn cards_per_player(num_players: usize) -> (r: Option<usize>)
    ensures
        r == cards_per_player_spec(num_players as int),
{
    if num_players == 2 {
        Some(10)
    } else if num_players == 3 {
        Some(9)
    } else if num_players == 4 {
        Some(8)
    } else if num_players == 5 {
        Some(7)
    } else {
        None
    }
}

} // verus!
