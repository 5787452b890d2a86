//! The end of a session: the final score, the line that records it in the
//! score log, and the pause before the game returns to the menu.

use directories::ProjectDirs;
use std::path::PathBuf;
use vstd::prelude::*;

use crate::config::GameConfiguraiton;
use crate::config::ScoreVariant;
use crate::game::GameDuration;
use crate::game::GameState;
use crate::game::Penalty;
use crate::game::Session;
use crate::game::SessionView;

verus! {

/// How long the final score stays on the screen, in nanoseconds.
pub const GAME_OVER_DELAY: u64 = 2_000_000_000;

const DIGIT_ZERO: u8 = 48;

const POINT: u8 = 46;

const SPACE: u8 = 32;

const LETTER_S: u8 = 115;

const NEWLINE: u8 = 10;

/// The final score of a session, in thousandths: milliseconds where the time
/// is scored, a thousand for each tap where the taps are counted. It is
/// computed once and never changes.
#[derive(Clone, Copy, Debug, PartialEq, Eq, Structural)]
pub struct Score {
    thousandths: u128,
}

impl View for Score {
    type V = nat;

    closed spec fn view(&self) -> nat {
        self.thousandths as nat
    }
}

/// The score of a play that took `duration` and drew `penalty`: the time in
/// milliseconds plus a thousand for each second of penalty.
pub open spec fn time_score(penalty: Penalty, duration: GameDuration) -> nat {
    duration.millis() + 1000 * (penalty.0 as nat)
}

/// The score that a session ends with, by what its configuration counts.
pub open spec fn session_score(session: SessionView) -> nat {
    match session.scoring {
        ScoreVariant::ElapsedPlusPenalty => session.elapsed / 1_000_000 + 1000 * session.penalty,
        ScoreVariant::CorrectTaps => 1000 * session.correct_taps(),
    }
}

/// The ASCII digit for `d`, which is less than ten.
pub open spec fn digit(d: nat) -> u8 {
    (48 + d) as u8
}

/// `n` in decimal, as ASCII digits, without leading zeros.
pub open spec fn decimal(n: nat) -> Seq<u8>
    decreases n,
{
    if n < 10 {
        seq![digit(n)]
    } else {
        decimal(n / 10).push(digit(n % 10))
    }
}

/// A number of thousandths in hundredths, rounded to the nearest; a half
/// goes to the even neighbour.
pub open spec fn hundredths(thousandths: nat) -> nat {
    let down = thousandths / 10;
    let rest = thousandths % 10;
    if rest > 5 || (rest == 5 && down % 2 == 1) {
        down + 1
    } else {
        down
    }
}

/// A score as it is shown and recorded: the seconds, a point, two decimals,
/// a space and the unit `s`.
pub open spec fn score_text(thousandths: nat) -> Seq<u8> {
    let value = hundredths(thousandths);
    decimal(value / 100) + seq![
        46u8,
        digit(value / 10 % 10),
        digit(value % 10),
        32u8,
        115u8,
    ]
}

/// The line that records a score in the log: its text and a line feed.
pub open spec fn score_line(thousandths: nat) -> Seq<u8> {
    score_text(thousandths).push(10u8)
}

/// The number of line feeds in `bytes`.
pub open spec fn line_count(bytes: Seq<u8>) -> nat
    decreases bytes.len(),
{
    if bytes.len() == 0 {
        0
    } else if bytes.last() == 10u8 {
        line_count(bytes.drop_last()) + 1
    } else {
        line_count(bytes.drop_last())
    }
}

/// The log after the `scores` have been recorded in it, one after the other.
pub open spec fn log_after(log: Seq<u8>, scores: Seq<nat>) -> Seq<u8>
    decreases scores.len(),
{
    if scores.len() == 0 {
        log
    } else {
        log_after(log, scores.drop_last()) + score_line(scores.last())
    }
}

/// The digits that stand before the last ones written: none where nothing
/// is left to write.
spec fn leading(rest: nat) -> Seq<u8> {
    if rest == 0 {
        Seq::empty()
    } else {
        decimal(rest)
    }
}

/// Appends `n` in decimal to `out`.
fn push_decimal(out: &mut Vec<u8>, n: u128)
    ensures
        final(out)@ == old(out)@ + decimal(n as nat),
{
    let ghost before = out@;
    let mut backwards: Vec<u8> = Vec::new();
    backwards.push(DIGIT_ZERO + (n % 10) as u8);
    let mut rest: u128 = n / 10;
    assert(decimal(n as nat) =~= leading(rest as nat) + backwards@.reverse());
    while rest > 0
        invariant
            backwards.len() >= 1,
            decimal(n as nat) == leading(rest as nat) + backwards@.reverse(),
        decreases rest,
    {
        let ghost written = backwards@;
        backwards.push(DIGIT_ZERO + (rest % 10) as u8);
        proof {
            let last = digit((rest % 10) as nat);
            assert(backwards@.reverse() =~= seq![last] + written.reverse());
            assert(decimal(rest as nat) =~= leading((rest / 10) as nat) + seq![last]);
            assert(decimal(n as nat) =~= leading((rest / 10) as nat) + backwards@.reverse());
        }
        rest = rest / 10;
    }
    let mut left: usize = backwards.len();
    while left > 0
        invariant
            left <= backwards.len(),
            out@ == before + backwards@.reverse().subrange(0, backwards.len() - left),
        decreases left,
    {
        left = left - 1;
        out.push(backwards[left]);
        assert(out@ =~= before + backwards@.reverse().subrange(0, backwards.len() - left));
    }
    assert(backwards@.reverse().subrange(0, backwards.len() as int) =~= backwards@.reverse());
}

/// A number in decimal is made of digits, at least one, and holds no line
/// feed.
pub proof fn lemma_decimal_is_digits(n: nat)
    ensures
        decimal(n).len() >= 1,
        forall|i: int| 0 <= i < decimal(n).len() ==> 48 <= #[trigger] decimal(n)[i] <= 57,
        line_count(decimal(n)) == 0,
    decreases n,
{
    if n >= 10 {
        lemma_decimal_is_digits(n / 10);
        assert(decimal(n).drop_last() =~= decimal(n / 10));
    } else {
        assert(decimal(n).drop_last() =~= Seq::<u8>::empty());
        assert(line_count(Seq::<u8>::empty()) == 0);
    }
    assert(decimal(n).last() == digit(n % 10));
}

/// The line feeds of two pieces add up when the pieces are joined.
pub proof fn lemma_line_count_adds(first: Seq<u8>, second: Seq<u8>)
    ensures
        line_count(first + second) == line_count(first) + line_count(second),
    decreases second.len(),
{
    if second.len() == 0 {
        assert(first + second =~= first);
    } else {
        lemma_line_count_adds(first, second.drop_last());
        assert((first + second).drop_last() =~= first + second.drop_last());
    }
}

/// One more byte adds a line where it is a line feed, and none otherwise.
pub proof fn lemma_line_count_push(bytes: Seq<u8>, byte: u8)
    ensures
        line_count(bytes.push(byte)) == line_count(bytes) + if byte == 10u8 {
            1nat
        } else {
            0nat
        },
{
    assert(bytes.push(byte).drop_last() =~= bytes);
}

/// The record of a score is one line: its text holds no line feed, and the
/// line feed that ends it is its last byte.
pub proof fn lemma_record_is_one_line(thousandths: nat)
    ensures
        line_count(score_text(thousandths)) == 0,
        line_count(score_line(thousandths)) == 1,
        score_line(thousandths).last() == 10u8,
        score_line(thousandths).drop_last() == score_text(thousandths),
{
    let value = hundredths(thousandths);
    let tenths = digit(value / 10 % 10);
    let ones = digit(value % 10);
    let whole = decimal(value / 100);
    lemma_decimal_is_digits(value / 100);
    lemma_line_count_push(whole, 46u8);
    lemma_line_count_push(whole.push(46u8), tenths);
    lemma_line_count_push(whole.push(46u8).push(tenths), ones);
    lemma_line_count_push(whole.push(46u8).push(tenths).push(ones), 32u8);
    lemma_line_count_push(whole.push(46u8).push(tenths).push(ones).push(32u8), 115u8);
    assert(score_text(thousandths) =~= whole.push(46u8).push(tenths).push(ones).push(32u8).push(
        115u8,
    ));
    lemma_line_count_push(score_text(thousandths), 10u8);
    assert(score_line(thousandths).drop_last() =~= score_text(thousandths));
}

/// Recording scores only ever adds to the log: what stood in it stays where
/// it was, and each score adds exactly one line, in the order of recording.
pub proof fn lemma_log_grows_by_lines(log: Seq<u8>, scores: Seq<nat>)
    ensures
        log_after(log, scores).len() >= log.len(),
        log_after(log, scores).subrange(0, log.len() as int) == log,
        line_count(log_after(log, scores)) == line_count(log) + scores.len(),
    decreases scores.len(),
{
    if scores.len() == 0 {
        assert(log.subrange(0, log.len() as int) =~= log);
    } else {
        let earlier = log_after(log, scores.drop_last());
        lemma_log_grows_by_lines(log, scores.drop_last());
        lemma_record_is_one_line(scores.last());
        lemma_line_count_adds(earlier, score_line(scores.last()));
        assert(log_after(log, scores).subrange(0, log.len() as int) =~= earlier.subrange(
            0,
            log.len() as int,
        ));
    }
}

/// Recording one more score appends its line to what the earlier ones left.
pub proof fn lemma_log_one_more(log: Seq<u8>, scores: Seq<nat>, thousandths: nat)
    ensures
        log_after(log, scores.push(thousandths)) == log_after(log, scores) + score_line(
            thousandths,
        ),
{
    assert(scores.push(thousandths).drop_last() =~= scores);
}

impl Score {
    /// The score in thousandths.
    pub fn thousandths(&self) -> (thousandths: u128)
        ensures
            thousandths == self@,
    {
        self.thousandths
    }

    /// The score as it is shown: rounded to two decimals, with the unit.
    pub fn text(&self) -> (text: Vec<u8>)
        ensures
            text@ == score_text(self@),
    {
        let down = self.thousandths / 10;
        let rest = self.thousandths % 10;
        let value = if rest > 5 || (rest == 5 && down % 2 == 1) {
            down + 1
        } else {
            down
        };
        let mut text: Vec<u8> = Vec::new();
        push_decimal(&mut text, value / 100);
        text.push(POINT);
        text.push(DIGIT_ZERO + (value / 10 % 10) as u8);
        text.push(DIGIT_ZERO + (value % 10) as u8);
        text.push(SPACE);
        text.push(LETTER_S);
        assert(text@ =~= score_text(self@));
        text
    }

    /// The line that records the score in the log.
    pub fn record(&self) -> (line: Vec<u8>)
        ensures
            line@ == score_line(self@),
    {
        let mut line = self.text();
        line.push(NEWLINE);
        line
    }
}

/// The final score of a play that took `game_duration` and drew `penalty`:
/// the time played, in whole milliseconds, plus the penalty.
pub fn calculate_score(penalty: &Penalty, game_duration: &GameDuration) -> (score: Score)
    ensures
        score@ == time_score(*penalty, *game_duration),
{
    let millis = game_duration.elapsed_millis();
    Score { thousandths: millis as u128 + 1000 * (penalty.0 as u128) }
}

/// The final score of `session`, once it is complete.
pub fn final_score(session: &Session) -> (score: Option<Score>)
    requires
        session.wf(),
    ensures
        score is Some <==> session@.is_complete(),
        score matches Some(reached) ==> reached@ == session_score(session@),
{
    if !session.is_complete() {
        return None;
    }
    match session.scoring() {
        ScoreVariant::ElapsedPlusPenalty => {
            let penalty = session.penalty();
            let duration = session.duration();
            Some(calculate_score(&penalty, &duration))
        },
        ScoreVariant::CorrectTaps => {
            let taps = session.correct_taps();
            Some(Score { thousandths: 1000 * (taps as u128) })
        },
    }
}

/// The pause between the end of a session and the return to the menu.
#[derive(Clone, Copy, Debug, PartialEq, Eq, Structural)]
pub struct GameOverTimer {
    /// Nanoseconds until the game returns to the menu.
    pub remaining: u64,
}

impl GameOverTimer {
    /// The timer after `delta` nanoseconds.
    pub open spec fn ticked(self, delta: u64) -> GameOverTimer {
        if delta >= self.remaining {
            GameOverTimer { remaining: 0 }
        } else {
            GameOverTimer { remaining: (self.remaining - delta) as u64 }
        }
    }

    /// A timer that runs for [`GAME_OVER_DELAY`].
    pub fn new() -> (timer: GameOverTimer)
        ensures
            timer.remaining == GAME_OVER_DELAY,
    {
        GameOverTimer { remaining: GAME_OVER_DELAY }
    }
}

/// Runs the timer for `delta` nanoseconds. When nothing remains, the phase to
/// go to is returned.
pub fn countdown(timer: &mut GameOverTimer, delta: u64) -> (next: Option<GameState>)
    ensures
        *final(timer) == old(timer).ticked(delta),
        next == if delta >= old(timer).remaining {
            Some(GameState::Menu)
        } else {
            None::<GameState>
        },
{
    if delta >= timer.remaining {
        timer.remaining = 0;
        Some(GameState::Menu)
    } else {
        timer.remaining = timer.remaining - delta;
        None
    }
}

/// The directories of an application, as the `directories` crate lays them
/// out. Nothing is known of what is inside.
#[verifier::external_type_specification]
#[verifier::external_body]
pub struct ExProjectDirs(ProjectDirs);

/// An owned path of the standard library. Nothing is known of what is
/// inside.
#[verifier::external_type_specification]
#[verifier::external_body]
pub struct ExPathBuf(PathBuf);

/// `ProjectDirs::from` looks up the directories of the application with the
/// given names. What it finds depends on the system and the user; it finds
/// nothing where the user has no home directory.
pub assume_specification[ ProjectDirs::from ](
    qualifier: &str,
    organization: &str,
    application: &str,
) -> (dirs: Option<ProjectDirs>)
;

/// `ProjectDirs::data_dir` hands out the application's data directory.
#[verifier::external_body]
fn data_dir(dirs: &ProjectDirs) -> (directory: PathBuf) {
    dirs.data_dir().to_path_buf()
}

/// What has to be done to record a score.
#[derive(Debug, PartialEq, Eq)]
pub enum SavePlan {
    /// Append `record` to the file `file_name` in `directory`; the directory
    /// and the file are created where they are missing.
    Append {
        /// The application's data directory.
        directory: PathBuf,
        /// The name of the score log in it.
        file_name: String,
        /// The bytes to append.
        record: Vec<u8>,
    },
    /// The system names no data directory: nothing can be recorded.
    NoProjectDirs,
}

/// The plan that records `score` where `directory` is the application's data
/// directory, if there is one.
pub fn plan_save(score: &Score, config: &GameConfiguraiton, directory: Option<PathBuf>) -> (plan:
    SavePlan)
    ensures
        directory is None ==> plan is NoProjectDirs,
        directory matches Some(found) ==> {
            &&& plan matches SavePlan::Append { directory: target, file_name, record }
            &&& target == found
            &&& file_name@ == config.score_file_path@
            &&& record@ == score_line(score@)
        },
{
    match directory {
        None => SavePlan::NoProjectDirs,
        Some(found) => SavePlan::Append {
            directory: found,
            file_name: config.score_file_path.clone(),
            record: score.record(),
        },
    }
}

/// The plan that records `score` in the data directory of this application.
pub fn save_score(score: &Score, config: &GameConfiguraiton) -> (plan: SavePlan)
    ensures
        plan matches SavePlan::Append { file_name, record, .. } ==> {
            &&& file_name@ == config.score_file_path@
            &&& record@ == score_line(score@)
        },
{
    let directory = match ProjectDirs::from("com", "example", "schulte_table") {
        None => None,
        Some(dirs) => Some(data_dir(&dirs)),
    };
    plan_save(score, config, directory)
}

} // verus!
