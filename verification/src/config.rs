//! The parameters of a session.

use vstd::prelude::*;

verus! {

/// The largest number of tiles a grid can have. The labels are `u32`, and the
/// label that is expected after the last tile has to be a `u32` as well.
pub const MAX_TILES: u32 = 0xFFFF_FFFE;

/// Why a configuration cannot start a session.
#[derive(Clone, Copy, Debug, PartialEq, Eq, Structural)]
pub enum ConfigError {
    /// The width or the height is zero.
    ZeroDimension,
    /// `width * height` is more than [`MAX_TILES`].
    LabelOverflow,
    /// A layout handed in is no arrangement of the labels `1..=width * height`.
    InvalidLayout,
}

/// What the final score of a session counts.
#[derive(Clone, Copy, Debug, PartialEq, Eq, Structural)]
pub enum ScoreVariant {
    /// The time played plus the penalties; the lower, the better.
    ElapsedPlusPenalty,
    /// The number of correct taps, whatever time they took.
    CorrectTaps,
}

/// The parameters of a session. They are read when a session starts and stay
/// as they were until it ends.
#[derive(Debug)]
pub struct GameConfiguraiton {
    /// Number of tiles in a row.
    pub width: u32,
    /// Number of rows.
    pub height: u32,
    /// How long a tapped tile keeps its feedback colour, in nanoseconds.
    pub timer_duration: u64,
    /// What one tap on a wrong tile costs, in seconds.
    pub incorrect_penalty: u32,
    /// What the final score counts.
    pub scoring: ScoreVariant,
    /// Name of the score log inside the application's data directory.
    pub score_file_path: String,
}

impl GameConfiguraiton {
    /// The number of tiles that the grid of this configuration has.
    pub open spec fn cells(&self) -> nat {
        (self.width * self.height) as nat
    }

    /// A session can be started: both dimensions are at least 1 and every
    /// label fits.
    pub open spec fn valid(&self) -> bool {
        &&& self.width >= 1
        &&& self.height >= 1
        &&& self.width * self.height <= MAX_TILES
    }

    /// What [`GameConfiguraiton::tile_count`] answers.
    pub open spec fn checked(&self) -> Result<u32, ConfigError> {
        if self.width == 0 || self.height == 0 {
            Err(ConfigError::ZeroDimension)
        } else if self.width * self.height > MAX_TILES {
            Err(ConfigError::LabelOverflow)
        } else {
            Ok((self.width * self.height) as u32)
        }
    }

    /// Checks the dimensions and returns the number of tiles.
    pub fn tile_count(&self) -> (count: Result<u32, ConfigError>)
        ensures
            count == self.checked(),
            count is Ok <==> self.valid(),
            count matches Ok(n) ==> n == self.cells(),
    {
        if self.width == 0 || self.height == 0 {
            return Err(ConfigError::ZeroDimension);
        }
        assert(self.width * self.height <= 0xFFFF_FFFF * 0xFFFF_FFFF) by (nonlinear_arith)
            requires
                self.width <= 0xFFFF_FFFF,
                self.height <= 0xFFFF_FFFF,
        ;
        let product: u64 = (self.width as u64) * (self.height as u64);
        if product > MAX_TILES as u64 {
            Err(ConfigError::LabelOverflow)
        } else {
            Ok(product as u32)
        }
    }
}

impl Clone for GameConfiguraiton {
    fn clone(&self) -> (copy: Self)
        ensures
            copy == *self,
    {
        GameConfiguraiton {
            width: self.width,
            height: self.height,
            timer_duration: self.timer_duration,
            incorrect_penalty: self.incorrect_penalty,
            scoring: self.scoring,
            score_file_path: self.score_file_path.clone(),
        }
    }
}

impl Default for GameConfiguraiton {
    /// A grid of two by two tiles, a flash of a fifth of a second, and two
    /// seconds for a wrong tap.
    fn default() -> (config: Self)
        ensures
            config.width == 2,
            config.height == 2,
            config.timer_duration == 200_000_000,
            config.incorrect_penalty == 2,
            config.scoring == ScoreVariant::ElapsedPlusPenalty,
            config.score_file_path@ == "scores.txt"@,
            config.valid(),
    {
        GameConfiguraiton {
            width: 2,
            height: 2,
            timer_duration: 200_000_000,
            incorrect_penalty: 2,
            scoring: ScoreVariant::ElapsedPlusPenalty,
            score_file_path: "scores.txt".to_owned(),
        }
    }
}

} // verus!
