//! Rules engine for a turn-based drafting card game: a seeded weighted deck,
//! a round/turn state machine with hand passing and draft effects, and an
//! itemized cross-player scoring algorithm.

pub mod cards;
pub mod config;
pub mod constants;
pub mod counts;
pub mod deck;
pub mod laws;
pub mod player;
pub mod rng;
pub mod scoring;
pub mod state;
pub mod ui;

pub use cards::CardKind;
pub use config::GameConfig;
pub use counts::CardCounts;
pub use deck::Deck;
pub use player::{Player, PlayerPublic};
pub use scoring::{CategoryScore, ScoreBreakdown, SetBonus};
pub use state::{Game, GameError, GameStatus, PassDirection, PlayerTurnState};
