//! A Schulte table: a grid of shuffled numbers that the player taps in
//! ascending order, as fast as possible.
//!
//! This crate holds the rules of one play-through and proves them: how the
//! grid is laid out, how a tap is resolved, how the feedback flashes run down,
//! when the session is complete, what the final score is and how it is written
//! into the score log. Windows, layout and drawing are left to the host.

pub mod config;
pub mod game;
pub mod game_over;
pub mod grid;
pub mod tile;

pub use config::{ConfigError, GameConfiguraiton, ScoreVariant, MAX_TILES};
pub use game::{GameDuration, GameState, Penalty, Session};
pub use game_over::{calculate_score, countdown, final_score, plan_save, save_score};
pub use game_over::{GameOverTimer, SavePlan, Score, GAME_OVER_DELAY};
pub use grid::{ascending_labels, generate_grid, is_layout};
pub use tile::{FlashState, TapOutcome, Tile, TileVisual};
