//! One play-through: the tiles, the label that is expected next, the
//! penalties and the time played.

use vstd::prelude::*;

use crate::config::ConfigError;
use crate::config::GameConfiguraiton;
use crate::config::ScoreVariant;
use crate::grid::generate_grid;
use crate::grid::is_grid;
use crate::grid::is_layout;
use crate::grid::lemma_grid_is_permutation;
use crate::tile::FlashState;
use crate::tile::TapOutcome;
use crate::tile::Tile;
use crate::tile::TileVisual;

verus! {

/// The phases that the game goes through.
#[derive(Clone, Copy, Debug, PartialEq, Eq, Hash, Structural)]
pub enum GameState {
    /// The menu is shown; no session runs.
    Menu,
    /// A session runs.
    Game,
    /// The session is complete and its score is shown.
    GameOver,
}

impl Default for GameState {
    /// The game begins in the menu.
    fn default() -> (state: Self)
        ensures
            state == GameState::Menu,
    {
        GameState::Menu
    }
}

/// The penalties of a session, in seconds.
#[derive(Clone, Copy, Debug, PartialEq, Eq, Structural)]
pub struct Penalty(pub u64);

impl Default for Penalty {
    /// No penalty.
    fn default() -> (penalty: Self)
        ensures
            penalty.0 == 0,
    {
        Penalty(0)
    }
}

impl Penalty {
    /// Adds `seconds` to the penalty.
    pub fn add(&mut self, seconds: u32)
        requires
            old(self).0 + seconds <= u64::MAX,
        ensures
            final(self).0 == old(self).0 + seconds,
    {
        self.0 = self.0 + seconds as u64;
    }
}

/// The time played, in nanoseconds: a stopwatch that can be stopped and not
/// be started again.
#[derive(Clone, Copy, Debug, PartialEq, Eq, Structural)]
pub struct GameDuration {
    /// Nanoseconds counted so far.
    pub elapsed: u64,
    /// Whether the stopwatch has been stopped.
    pub paused: bool,
}

impl GameDuration {
    /// The stopwatch after `delta` nanoseconds. A stopped one stays as it is;
    /// a running one counts `delta` more.
    pub open spec fn ticked(self, delta: u64) -> GameDuration {
        if self.paused {
            self
        } else {
            GameDuration { elapsed: (self.elapsed + delta) as u64, paused: false }
        }
    }

    /// The time counted, in whole milliseconds.
    pub open spec fn millis(self) -> nat {
        (self.elapsed / 1_000_000) as nat
    }

    /// A running stopwatch at zero.
    pub fn new() -> (duration: GameDuration)
        ensures
            duration == (GameDuration { elapsed: 0, paused: false }),
    {
        GameDuration { elapsed: 0, paused: false }
    }

    /// Counts `delta` nanoseconds more, unless the stopwatch is stopped.
    pub fn tick(&mut self, delta: u64)
        requires
            !old(self).paused ==> old(self).elapsed + delta <= u64::MAX,
        ensures
            *final(self) == old(self).ticked(delta),
            final(self).paused == old(self).paused,
            !old(self).paused ==> final(self).elapsed == old(self).elapsed + delta,
            old(self).paused ==> final(self).elapsed == old(self).elapsed,
    {
        if !self.paused {
            self.elapsed = self.elapsed + delta;
        }
    }

    /// Stops the stopwatch.
    pub fn pause(&mut self)
        ensures
            final(self).paused,
            final(self).elapsed == old(self).elapsed,
    {
        self.paused = true;
    }

    /// The time counted, in whole milliseconds.
    pub fn elapsed_millis(&self) -> (millis: u64)
        ensures
            millis == self.millis(),
    {
        self.elapsed / 1_000_000
    }
}

/// A session as the rules see it.
pub struct SessionView {
    /// Number of tiles in a row.
    pub width: nat,
    /// Number of rows.
    pub height: nat,
    /// The tiles, left to right and top to bottom.
    pub tiles: Seq<Tile>,
    /// The label that has to be tapped next.
    pub next_expected: nat,
    /// The penalties so far, in seconds.
    pub penalty: nat,
    /// The time played, in nanoseconds.
    pub elapsed: nat,
    /// Whether the stopwatch has been stopped.
    pub paused: bool,
    /// What one wrong tap costs, in seconds.
    pub incorrect_penalty: nat,
    /// How long a flash lasts, in nanoseconds.
    pub timer_duration: u64,
    /// What the final score counts.
    pub scoring: ScoreVariant,
}

impl SessionView {
    /// The number of tiles.
    pub open spec fn cells(self) -> nat {
        self.width * self.height
    }

    /// The labels of the tiles, in the order of the tiles.
    pub open spec fn labels(self) -> Seq<u32> {
        self.tiles.map_values(|tile: Tile| tile.label)
    }

    /// What every session keeps to: the tiles are a grid of `width * height`
    /// labels, the label expected next is at least 1 and at most one more
    /// than the number of tiles, and the stopwatch is stopped in a complete
    /// session only.
    pub open spec fn valid(self) -> bool {
        &&& self.width >= 1
        &&& self.height >= 1
        &&& self.cells() <= crate::config::MAX_TILES
        &&& is_grid(self.labels(), self.cells())
        &&& 1 <= self.next_expected <= self.cells() + 1
        &&& self.paused ==> self.is_complete()
    }

    /// The session that `config` starts on the grid `labels`: every tile idle,
    /// label 1 expected, no penalty, the stopwatch running at zero.
    pub open spec fn initial(config: GameConfiguraiton, labels: Seq<u32>) -> SessionView {
        SessionView {
            width: config.width as nat,
            height: config.height as nat,
            tiles: labels.map_values(|label: u32| Tile { label, flash: FlashState::Idle }),
            next_expected: 1,
            penalty: 0,
            elapsed: 0,
            paused: false,
            incorrect_penalty: config.incorrect_penalty as nat,
            timer_duration: config.timer_duration,
            scoring: config.scoring,
        }
    }

    /// Some tile carries `label`.
    pub open spec fn has_tile(self, label: u32) -> bool {
        self.labels().contains(label)
    }

    /// How a tap on the tile with `label` is resolved: not at all where no
    /// tile carries the label, as correct where the label is the one expected
    /// next, as incorrect otherwise.
    pub open spec fn resolve(self, label: u32) -> Option<TapOutcome> {
        if !self.has_tile(label) {
            None
        } else if label == self.next_expected {
            Some(TapOutcome::Correct)
        } else {
            Some(TapOutcome::Incorrect)
        }
    }

    /// The tiles after the tile with `label` has begun to flash for `outcome`.
    pub open spec fn flash_on(self, label: u32, outcome: TapOutcome) -> Seq<Tile> {
        self.tiles.map_values(
            |tile: Tile|
                if tile.label == label {
                    tile.flashed(outcome, self.timer_duration)
                } else {
                    tile
                },
        )
    }

    /// The session after a tap on the tile with `label`.
    ///
    /// A correct tap moves the expected label on by one. A wrong tap adds the
    /// configured penalty. Either way the tapped tile begins a new flash. A
    /// label that no tile carries changes nothing.
    pub open spec fn tapped(self, label: u32) -> SessionView {
        match self.resolve(label) {
            None => self,
            Some(TapOutcome::Correct) => SessionView {
                next_expected: self.next_expected + 1,
                tiles: self.flash_on(label, TapOutcome::Correct),
                ..self
            },
            Some(TapOutcome::Incorrect) => SessionView {
                penalty: self.penalty + self.incorrect_penalty,
                tiles: self.flash_on(label, TapOutcome::Incorrect),
                ..self
            },
        }
    }

    /// The session after every flash has run for `delta` nanoseconds.
    pub open spec fn blinked(self, delta: u64) -> SessionView {
        SessionView { tiles: self.tiles.map_values(|tile: Tile| tile.ticked(delta)), ..self }
    }

    /// The session after `delta` nanoseconds of play: a running stopwatch
    /// counts them, a stopped one does not.
    pub open spec fn timed(self, delta: u64) -> SessionView {
        if self.paused {
            self
        } else {
            SessionView { elapsed: self.elapsed + delta as nat, ..self }
        }
    }

    /// The session is complete: every label has been tapped in its turn.
    pub open spec fn is_complete(self) -> bool {
        self.next_expected > self.cells()
    }

    /// The session after the check for completion: a complete session has
    /// its stopwatch stopped.
    pub open spec fn checked(self) -> SessionView {
        if self.is_complete() {
            SessionView { paused: true, ..self }
        } else {
            self
        }
    }

    /// The number of correct taps so far.
    pub open spec fn correct_taps(self) -> nat {
        (self.next_expected - 1) as nat
    }

    /// This session and `other` were started with the same configuration on
    /// the same grid.
    pub open spec fn same_setup(self, other: SessionView) -> bool {
        &&& self.width == other.width
        &&& self.height == other.height
        &&& self.incorrect_penalty == other.incorrect_penalty
        &&& self.timer_duration == other.timer_duration
        &&& self.scoring == other.scoring
        &&& self.labels() == other.labels()
    }

    /// The session after `taps` taps, each on the tile that was expected.
    pub open spec fn played(self, taps: nat) -> SessionView
        decreases taps,
    {
        if taps == 0 {
            self
        } else {
            let earlier = self.played((taps - 1) as nat);
            earlier.tapped(earlier.next_expected as u32)
        }
    }

    /// What the tile with `label` is drawn as, where a tile carries the label.
    pub open spec fn visual_of(self, label: u32) -> Option<TileVisual> {
        if self.has_tile(label) {
            Some(self.tiles[self.labels().index_of(label)].flash.shown())
        } else {
            None
        }
    }
}

/// In a valid session the tiles carry the labels `1..=width * height` and no
/// others.
pub proof fn lemma_tiles_carry_labels(session: SessionView, label: u32)
    requires
        session.valid(),
    ensures
        session.has_tile(label) <==> 1 <= label <= session.cells(),
{
    lemma_grid_is_permutation(session.labels(), session.cells());
    if session.has_tile(label) {
        let i = choose|i: int| 0 <= i < session.labels().len() && session.labels()[i] == label;
        assert(1 <= session.labels()[i] <= session.cells());
    }
}

/// A tap on the tile that is expected next, in a session that is not yet
/// complete, moves the expected label on by exactly one and leaves the penalty
/// as it was.
pub proof fn lemma_expected_tap_advances(session: SessionView)
    requires
        session.valid(),
        !session.is_complete(),
    ensures
        session.resolve(session.next_expected as u32) == Some(TapOutcome::Correct),
        session.tapped(session.next_expected as u32).next_expected == session.next_expected + 1,
        session.tapped(session.next_expected as u32).penalty == session.penalty,
{
    lemma_tiles_carry_labels(session, session.next_expected as u32);
}

/// A tap on any other tile leaves the expected label as it was and adds
/// exactly the configured penalty.
pub proof fn lemma_other_tap_is_penalised(session: SessionView, label: u32)
    requires
        session.valid(),
        session.has_tile(label),
        label != session.next_expected,
    ensures
        session.resolve(label) == Some(TapOutcome::Incorrect),
        session.tapped(label).next_expected == session.next_expected,
        session.tapped(label).penalty == session.penalty + session.incorrect_penalty,
{
}

/// A tap that meets no tile changes nothing.
pub proof fn lemma_stray_tap_is_ignored(session: SessionView, label: u32)
    requires
        !session.has_tile(label),
    ensures
        session.resolve(label) is None,
        session.tapped(label) == session,
{
}

/// A tap starts a new flash of the configured length on the tile it met,
/// whatever flash ran there before, and leaves every other tile alone.
pub proof fn lemma_tap_flashes_its_tile(session: SessionView, label: u32, place: int)
    requires
        session.valid(),
        0 <= place < session.tiles.len(),
    ensures
        session.tapped(label).tiles.len() == session.tiles.len(),
        session.tiles[place].label == label ==> {
            &&& session.resolve(label) matches Some(outcome)
            &&& session.tapped(label).tiles[place] == (Tile {
                label,
                flash: FlashState::Flashing { outcome, remaining: session.timer_duration },
            })
        },
        session.tiles[place].label != label ==> session.tapped(label).tiles[place]
            == session.tiles[place],
{
    if session.tiles[place].label == label {
        assert(session.labels()[place] == label);
    }
}

/// The session is complete exactly when the expected label is past the last
/// tile: not yet when it is the last label, and as soon as it is one more.
pub proof fn lemma_complete_past_the_last_label(session: SessionView)
    ensures
        session.is_complete() <==> session.next_expected > session.width * session.height,
        session.next_expected == session.width * session.height ==> !session.is_complete(),
        session.next_expected == session.width * session.height + 1 ==> session.is_complete(),
        session.valid() ==> (session.is_complete() <==> session.next_expected
            == session.width * session.height + 1),
{
}

/// Whatever happens in a valid session leaves it valid. The expected label
/// never goes back, nor does the penalty.
pub proof fn lemma_steps_keep_valid(session: SessionView, label: u32, delta: u64)
    requires
        session.valid(),
    ensures
        session.tapped(label).valid(),
        session.tapped(label).next_expected >= session.next_expected,
        session.tapped(label).penalty >= session.penalty,
        session.blinked(delta).valid(),
        session.timed(delta).valid(),
        session.checked().valid(),
{
    assert(session.blinked(delta).labels() =~= session.labels());
    match session.resolve(label) {
        None => {},
        Some(outcome) => {
            lemma_tiles_carry_labels(session, label);
            assert(session.tapped(label).labels() =~= session.labels());
        },
    }
}

/// What the session was started with stays as it was: no step changes the
/// dimensions, the penalty for a wrong tap, the length of a flash, what the
/// score counts, or which label lies where.
pub proof fn lemma_steps_keep_the_setup(session: SessionView, label: u32, delta: u64)
    ensures
        session.tapped(label).same_setup(session),
        session.blinked(delta).same_setup(session),
        session.timed(delta).same_setup(session),
        session.checked().same_setup(session),
{
    assert(session.blinked(delta).labels() =~= session.labels());
    assert(session.tapped(label).labels() =~= session.labels());
}

/// A play without a wrong tap: each tap moves the expected label on by one,
/// no penalty is drawn, and the session is complete with the tap on the last
/// label and not before.
pub proof fn lemma_flawless_play(session: SessionView, taps: nat)
    requires
        session.valid(),
        session.next_expected + taps <= session.cells() + 1,
    ensures
        session.played(taps).valid(),
        session.played(taps).width == session.width,
        session.played(taps).height == session.height,
        session.played(taps).next_expected == session.next_expected + taps,
        session.played(taps).penalty == session.penalty,
        session.played(taps).is_complete() <==> session.next_expected + taps == session.cells()
            + 1,
    decreases taps,
{
    if taps > 0 {
        let earlier = session.played((taps - 1) as nat);
        lemma_flawless_play(session, (taps - 1) as nat);
        lemma_expected_tap_advances(earlier);
        lemma_steps_keep_valid(earlier, earlier.next_expected as u32, 0);
    }
}

/// The stopwatch is stopped once: from then on no step starts it again or
/// moves the time played.
pub proof fn lemma_stopped_stays_stopped(session: SessionView, label: u32, delta: u64)
    requires
        session.paused,
    ensures
        session.tapped(label).paused && session.tapped(label).elapsed == session.elapsed,
        session.blinked(delta).paused && session.blinked(delta).elapsed == session.elapsed,
        session.timed(delta).paused && session.timed(delta).elapsed == session.elapsed,
        session.checked().paused && session.checked().elapsed == session.elapsed,
{
}

/// The check for completion stops the stopwatch of a complete session, and
/// of no other, and leaves the time played as it was.
pub proof fn lemma_check_stops_when_complete(session: SessionView)
    ensures
        session.checked().elapsed == session.elapsed,
        session.checked().paused == (session.paused || session.is_complete()),
{
}

/// Only the stopwatch moves the time played, and only forward: by `delta`
/// while it runs.
pub proof fn lemma_time_is_counted_by_the_stopwatch(session: SessionView, label: u32, delta: u64)
    ensures
        session.tapped(label).elapsed == session.elapsed,
        session.blinked(delta).elapsed == session.elapsed,
        !session.paused ==> session.timed(delta).elapsed == session.elapsed + delta,
        session.paused ==> session.timed(delta).elapsed == session.elapsed,
{
}

/// A running session.
#[derive(Debug)]
pub struct Session {
    width: u32,
    height: u32,
    tiles: Vec<Tile>,
    next_expected: u32,
    penalty: Penalty,
    duration: GameDuration,
    incorrect_penalty: u32,
    timer_duration: u64,
    scoring: ScoreVariant,
}

impl View for Session {
    type V = SessionView;

    closed spec fn view(&self) -> SessionView {
        SessionView {
            width: self.width as nat,
            height: self.height as nat,
            tiles: self.tiles@,
            next_expected: self.next_expected as nat,
            penalty: self.penalty.0 as nat,
            elapsed: self.duration.elapsed as nat,
            paused: self.duration.paused,
            incorrect_penalty: self.incorrect_penalty as nat,
            timer_duration: self.timer_duration,
            scoring: self.scoring,
        }
    }
}

/// Idle tiles with the given labels, in the order of the labels.
fn idle_tiles(labels: &Vec<u32>) -> (tiles: Vec<Tile>)
    ensures
        tiles@ == labels@.map_values(|label: u32| Tile { label, flash: FlashState::Idle }),
{
    let mut tiles: Vec<Tile> = Vec::new();
    let mut i: usize = 0;
    while i < labels.len()
        invariant
            i <= labels.len(),
            tiles.len() == i,
            forall|j: int|
                0 <= j < i ==> tiles[j] == (Tile { label: labels[j], flash: FlashState::Idle }),
        decreases labels.len() - i,
    {
        tiles.push(Tile::new(labels[i]));
        i = i + 1;
    }
    assert(tiles@ =~= labels@.map_values(|label: u32| Tile { label, flash: FlashState::Idle }));
    tiles
}

/// Runs every flash in `tiles` for `delta` nanoseconds.
fn tick_tiles(tiles: &mut Vec<Tile>, delta: u64)
    ensures
        final(tiles)@ == old(tiles)@.map_values(|tile: Tile| tile.ticked(delta)),
{
    let ghost before = tiles@;
    let mut i: usize = 0;
    while i < tiles.len()
        invariant
            i <= tiles.len(),
            tiles.len() == before.len(),
            forall|j: int| 0 <= j < i ==> tiles[j] == before[j].ticked(delta),
            forall|j: int| i <= j < tiles.len() ==> tiles[j] == before[j],
        decreases tiles.len() - i,
    {
        let tile = tiles[i];
        tiles.set(i, tile.tick(delta));
        i = i + 1;
    }
    assert(tiles@ =~= before.map_values(|tile: Tile| tile.ticked(delta)));
}

impl Session {
    /// The session keeps to what [`SessionView::valid`] says.
    pub open spec fn wf(&self) -> bool {
        self@.valid()
    }

    /// The place of the tile that carries `label`, if there is one.
    fn locate(&self, label: u32) -> (found: Option<usize>)
        requires
            self.wf(),
        ensures
            found is None <==> !self@.has_tile(label),
            found matches Some(place) ==> {
                &&& place < self@.tiles.len()
                &&& self@.tiles[place as int].label == label
                &&& place == self@.labels().index_of(label)
                &&& 1 <= label <= self@.cells()
            },
    {
        let ghost labels = self@.labels();
        let mut i: usize = 0;
        while i < self.tiles.len()
            invariant
                self.wf(),
                i <= self.tiles.len(),
                labels == self@.labels(),
                forall|j: int| 0 <= j < i ==> labels[j] != label,
            decreases self.tiles.len() - i,
        {
            if self.tiles[i].label == label {
                proof {
                    assert(labels[i as int] == label);
                    let chosen = labels.index_of(label);
                    assert(0 <= chosen < labels.len() && labels[chosen] == label);
                    assert(chosen == i);
                    assert(1 <= labels[i as int] <= self@.cells());
                }
                return Some(i);
            }
            assert(labels[i as int] != label);
            i = i + 1;
        }
        None
    }

    /// Starts a session on a grid that the caller has laid out.
    ///
    /// The configuration is checked first, then the grid: it has to hold the
    /// labels `1..=width * height`, each once.
    pub fn from_grid(config: &GameConfiguraiton, labels: Vec<u32>) -> (session: Result<
        Session,
        ConfigError,
    >)
        ensures
            match config.checked() {
                Err(error) => session == Err::<Session, ConfigError>(error),
                Ok(cells) => if is_grid(labels@, cells as nat) {
                    &&& session matches Ok(started)
                    &&& started.wf()
                    &&& started@ == SessionView::initial(*config, labels@)
                } else {
                    session == Err::<Session, ConfigError>(ConfigError::InvalidLayout)
                },
            },
    {
        let cells = match config.tile_count() {
            Err(error) => {
                return Err(error);
            },
            Ok(cells) => cells,
        };
        if !is_layout(&labels, cells) {
            return Err(ConfigError::InvalidLayout);
        }
        let tiles = idle_tiles(&labels);
        let started = Session {
            width: config.width,
            height: config.height,
            tiles,
            next_expected: 1,
            penalty: Penalty(0),
            duration: GameDuration::new(),
            incorrect_penalty: config.incorrect_penalty,
            timer_duration: config.timer_duration,
            scoring: config.scoring,
        };
        proof {
            assert(started@.labels() =~= labels@);
        }
        Ok(started)
    }

    /// Starts a session on a freshly shuffled grid.
    ///
    /// A configuration with a zero dimension, or with more tiles than labels,
    /// is refused before any tile exists.
    pub fn start(config: &GameConfiguraiton) -> (session: Result<Session, ConfigError>)
        ensures
            session is Ok <==> config.valid(),
            session matches Err(error) ==> config.checked() == Err::<u32, ConfigError>(error),
            session matches Ok(started) ==> {
                &&& started.wf()
                &&& is_grid(started@.labels(), config.cells())
                &&& started@ == SessionView::initial(*config, started@.labels())
            },
    {
        match generate_grid(config) {
            Err(error) => Err(error),
            Ok(labels) => {
                let ghost laid_out = labels@;
                let session = Session::from_grid(config, labels);
                proof {
                    if session is Ok {
                        assert(session->Ok_0@.labels() =~= laid_out);
                    }
                }
                session
            },
        }
    }

    /// Number of tiles in a row.
    pub fn width(&self) -> (width: u32)
        ensures
            width == self@.width,
    {
        self.width
    }

    /// Number of rows.
    pub fn height(&self) -> (height: u32)
        ensures
            height == self@.height,
    {
        self.height
    }

    /// The tiles, left to right and top to bottom.
    pub fn tiles(&self) -> (tiles: &Vec<Tile>)
        ensures
            tiles@ == self@.tiles,
    {
        &self.tiles
    }

    /// The label that has to be tapped next.
    pub fn next_expected(&self) -> (label: u32)
        ensures
            label == self@.next_expected,
    {
        self.next_expected
    }

    /// The penalties so far.
    pub fn penalty(&self) -> (penalty: Penalty)
        ensures
            penalty.0 == self@.penalty,
    {
        self.penalty
    }

    /// The time played.
    pub fn duration(&self) -> (duration: GameDuration)
        ensures
            duration.elapsed == self@.elapsed,
            duration.paused == self@.paused,
    {
        self.duration
    }

    /// What the final score of this session counts.
    pub fn scoring(&self) -> (scoring: ScoreVariant)
        ensures
            scoring == self@.scoring,
    {
        self.scoring
    }

    /// The number of correct taps so far.
    pub fn correct_taps(&self) -> (taps: u32)
        requires
            self.wf(),
        ensures
            taps == self@.correct_taps(),
    {
        self.next_expected - 1
    }

    /// Resolves a tap on the tile that carries `label`.
    ///
    /// Returns how the tap was resolved, or `None` where no tile carries the
    /// label; such a tap changes nothing.
    pub fn on_tile_tapped(&mut self, label: u32) -> (outcome: Option<TapOutcome>)
        requires
            old(self).wf(),
            old(self)@.resolve(label) == Some(TapOutcome::Incorrect) ==> old(self)@.penalty + old(
                self,
            )@.incorrect_penalty <= u64::MAX,
        ensures
            final(self).wf(),
            outcome == old(self)@.resolve(label),
            final(self)@ == old(self)@.tapped(label),
            outcome is None ==> final(self)@ == old(self)@,
            outcome == Some(TapOutcome::Correct) ==> {
                &&& final(self)@.next_expected == old(self)@.next_expected + 1
                &&& final(self)@.penalty == old(self)@.penalty
            },
            outcome == Some(TapOutcome::Incorrect) ==> {
                &&& final(self)@.next_expected == old(self)@.next_expected
                &&& final(self)@.penalty == old(self)@.penalty + old(self)@.incorrect_penalty
            },
    {
        let ghost before = self@;
        let place = match self.locate(label) {
            None => {
                return None;
            },
            Some(place) => place,
        };
        let outcome = if label == self.next_expected {
            self.next_expected = self.next_expected + 1;
            TapOutcome::Correct
        } else {
            self.penalty.add(self.incorrect_penalty);
            TapOutcome::Incorrect
        };
        let tile = self.tiles[place];
        self.tiles.set(place, tile.start_flash(outcome, self.timer_duration));
        proof {
            assert forall|j: int| 0 <= j < before.tiles.len() implies #[trigger] self.tiles@[j]
                == before.flash_on(label, outcome)[j] by {
                if j != place {
                    assert(before.labels()[j] != before.labels()[place as int]);
                }
            }
            assert(self.tiles@ =~= before.flash_on(label, outcome));
            assert(self@.labels() =~= before.labels());
        }
        Some(outcome)
    }

    /// What the tile with `label` is to be drawn as, or `None` where no tile
    /// carries the label.
    pub fn visual(&self, label: u32) -> (visual: Option<TileVisual>)
        requires
            self.wf(),
        ensures
            visual == self@.visual_of(label),
    {
        match self.locate(label) {
            None => None,
            Some(place) => Some(self.tiles[place].visual()),
        }
    }

    /// The cell in which the tile with `label` lies, as its column and its
    /// row, both counted from zero, or `None` where no tile carries the label.
    /// The tiles fill the grid row by row, each row from the left.
    pub fn grid_position(&self, label: u32) -> (cell: Option<(u32, u32)>)
        requires
            self.wf(),
        ensures
            cell is None <==> !self@.has_tile(label),
            cell matches Some((column, row)) ==> {
                &&& column < self@.width
                &&& row < self@.height
                &&& self@.tiles[row * self@.width + column].label == label
            },
    {
        let place = match self.locate(label) {
            None => {
                return None;
            },
            Some(place) => place,
        };
        let width = self.width as usize;
        let column = place % width;
        let row = place / width;
        proof {
            let w = self.width as int;
            let h = self.height as int;
            let p = place as int;
            assert(p / w < h && (p / w) * w + p % w == p) by (nonlinear_arith)
                requires
                    0 <= p < w * h,
                    w >= 1,
            ;
        }
        Some((column as u32, row as u32))
    }

    /// Runs the flash of every tile for `delta` nanoseconds. A flash that has
    /// run out leaves its tile idle.
    pub fn blink(&mut self, delta: u64)
        requires
            old(self).wf(),
        ensures
            final(self).wf(),
            final(self)@ == old(self)@.blinked(delta),
    {
        let ghost before = self@;
        tick_tiles(&mut self.tiles, delta);
        proof {
            assert(self@.labels() =~= before.labels());
        }
    }

    /// Counts `delta` nanoseconds of play, unless the stopwatch is stopped.
    pub fn update_timer(&mut self, delta: u64)
        requires
            old(self).wf(),
            !old(self)@.paused ==> old(self)@.elapsed + delta <= u64::MAX,
        ensures
            final(self).wf(),
            final(self)@ == old(self)@.timed(delta),
    {
        self.duration.tick(delta);
    }

    /// Tells whether every label has been tapped in its turn.
    pub fn is_complete(&self) -> (complete: bool)
        requires
            self.wf(),
        ensures
            complete == self@.is_complete(),
    {
        self.next_expected > self.width * self.height
    }

    /// Checks for completion. When the session is complete, the stopwatch is
    /// stopped for good and the phase to go to is returned.
    pub fn check_game_over(&mut self) -> (next: Option<GameState>)
        requires
            old(self).wf(),
        ensures
            final(self).wf(),
            final(self)@ == old(self)@.checked(),
            next == if old(self)@.is_complete() {
                Some(GameState::GameOver)
            } else {
                None::<GameState>
            },
    {
        if self.is_complete() {
            self.duration.pause();
            Some(GameState::GameOver)
        } else {
            None
        }
    }
}

} // verus!
