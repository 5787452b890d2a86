//! A tile of the grid and the flash that a tap leaves on it.

use vstd::prelude::*;

verus! {

/// How a tap on a tile was resolved.
#[derive(Clone, Copy, Debug, PartialEq, Eq, Structural)]
pub enum TapOutcome {
    /// The tile carried the label that was expected next.
    Correct,
    /// The tile carried another label.
    Incorrect,
}

/// What the host draws a tile as.
#[derive(Clone, Copy, Debug, PartialEq, Eq, Structural)]
pub enum TileVisual {
    /// The tile's own colour.
    Neutral,
    /// The colour of a correct tap.
    CorrectFlash,
    /// The colour of a wrong tap.
    IncorrectFlash,
}

/// The feedback state of one tile. A tap starts a flash, time runs it down,
/// and when nothing of it remains the tile is idle again.
#[derive(Clone, Copy, Debug, PartialEq, Eq, Structural)]
pub enum FlashState {
    /// No flash is running.
    Idle,
    /// A flash is running.
    Flashing {
        /// The tap that started it.
        outcome: TapOutcome,
        /// Nanoseconds until the tile is idle again.
        remaining: u64,
    },
}

impl FlashState {
    /// The state after `delta` nanoseconds: a flash that has more than `delta`
    /// left goes on with that much less, any other state ends idle.
    pub open spec fn ticked(self, delta: u64) -> FlashState {
        match self {
            FlashState::Idle => FlashState::Idle,
            FlashState::Flashing { outcome, remaining } => if delta >= remaining {
                FlashState::Idle
            } else {
                FlashState::Flashing { outcome, remaining: (remaining - delta) as u64 }
            },
        }
    }

    /// What a tile in this state is drawn as.
    pub open spec fn shown(self) -> TileVisual {
        match self {
            FlashState::Idle => TileVisual::Neutral,
            FlashState::Flashing { outcome: TapOutcome::Correct, .. } => TileVisual::CorrectFlash,
            FlashState::Flashing {
                outcome: TapOutcome::Incorrect,
                ..
            } => TileVisual::IncorrectFlash,
        }
    }

    /// Advances the state by `delta` nanoseconds.
    pub fn tick(self, delta: u64) -> (next: FlashState)
        ensures
            next == self.ticked(delta),
    {
        match self {
            FlashState::Idle => FlashState::Idle,
            FlashState::Flashing { outcome, remaining } => {
                if delta >= remaining {
                    FlashState::Idle
                } else {
                    FlashState::Flashing { outcome, remaining: remaining - delta }
                }
            },
        }
    }

    /// What a tile in this state is drawn as.
    pub fn visual(self) -> (visual: TileVisual)
        ensures
            visual == self.shown(),
    {
        match self {
            FlashState::Idle => TileVisual::Neutral,
            FlashState::Flashing { outcome, .. } => match outcome {
                TapOutcome::Correct => TileVisual::CorrectFlash,
                TapOutcome::Incorrect => TileVisual::IncorrectFlash,
            },
        }
    }
}

/// One tile of the grid. Its label is what identifies it; where it lies is
/// its place in the session's list of tiles.
#[derive(Clone, Copy, Debug, PartialEq, Eq, Structural)]
pub struct Tile {
    /// The number on the tile.
    pub label: u32,
    /// The flash that the last tap left, if it still runs.
    pub flash: FlashState,
}

impl Tile {
    /// The tile with a fresh flash for a tap that was resolved as `outcome`.
    /// A flash that was still running is replaced, not prolonged.
    pub open spec fn flashed(self, outcome: TapOutcome, duration: u64) -> Tile {
        Tile { label: self.label, flash: FlashState::Flashing { outcome, remaining: duration } }
    }

    /// The tile after `delta` nanoseconds.
    pub open spec fn ticked(self, delta: u64) -> Tile {
        Tile { label: self.label, flash: self.flash.ticked(delta) }
    }

    /// An idle tile with the given label.
    pub fn new(label: u32) -> (tile: Tile)
        ensures
            tile == (Tile { label, flash: FlashState::Idle }),
    {
        Tile { label, flash: FlashState::Idle }
    }

    /// Starts a flash for a tap that was resolved as `outcome`.
    pub fn start_flash(self, outcome: TapOutcome, duration: u64) -> (tile: Tile)
        ensures
            tile == self.flashed(outcome, duration),
    {
        Tile { label: self.label, flash: FlashState::Flashing { outcome, remaining: duration } }
    }

    /// Advances the tile's flash by `delta` nanoseconds.
    pub fn tick(self, delta: u64) -> (tile: Tile)
        ensures
            tile == self.ticked(delta),
    {
        Tile { label: self.label, flash: self.flash.tick(delta) }
    }

    /// What the tile is drawn as.
    pub fn visual(self) -> (visual: TileVisual)
        ensures
            visual == self.flash.shown(),
    {
        self.flash.visual()
    }
}

/// A flash never outlasts the time it was given: once `delta` is at least
/// what remained, the tile is idle, and an idle tile stays idle.
pub proof fn lemma_flash_runs_out(flash: FlashState, delta: u64)
    ensures
        flash is Idle ==> flash.ticked(delta) is Idle,
        flash matches FlashState::Flashing { remaining, .. } ==> (flash.ticked(delta) is Idle
            <==> delta >= remaining),
        flash.ticked(delta) matches FlashState::Flashing { outcome, remaining } ==> flash
            == (FlashState::Flashing { outcome, remaining: (remaining + delta) as u64 }),
{
}

/// Two ticks in a row do what one tick of their sum does.
pub proof fn lemma_ticks_add_up(flash: FlashState, first: u64, second: u64)
    requires
        first + second <= u64::MAX,
    ensures
        flash.ticked(first).ticked(second) == flash.ticked((first + second) as u64),
{
}

} // verus!
