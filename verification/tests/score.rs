use directories::ProjectDirs;
use schulte_table::{
    calculate_score, countdown, final_score, plan_save, save_score, GameConfiguraiton,
    GameDuration, GameOverTimer, GameState, Penalty, SavePlan, Score, ScoreVariant, Session,
    GAME_OVER_DELAY,
};
use std::path::PathBuf;

fn score_of(millis: u64, penalty: u64) -> Score {
    calculate_score(&Penalty(penalty), &GameDuration { elapsed: millis * 1_000_000, paused: true })
}

fn text_of(millis: u64) -> String {
    String::from_utf8(score_of(millis, 0).text()).unwrap()
}

#[test]
fn score_is_time_plus_penalty() {
    let duration = GameDuration { elapsed: 3_210_000_000, paused: true };
    assert_eq!(calculate_score(&Penalty(0), &duration).thousandths(), 3_210);
    assert_eq!(calculate_score(&Penalty(2), &duration).thousandths(), 5_210);
    assert_eq!(calculate_score(&Penalty(14), &duration).thousandths(), 17_210);
    let idle = GameDuration { elapsed: 0, paused: false };
    assert_eq!(calculate_score(&Penalty(0), &idle).thousandths(), 0);
    assert_eq!(calculate_score(&Penalty(1), &idle).thousandths(), 1_000);
}

#[test]
fn score_counts_whole_milliseconds() {
    let just_under = GameDuration { elapsed: 3_210_999_999, paused: true };
    assert_eq!(calculate_score(&Penalty(2), &just_under).thousandths(), 5_210);
    let just_over = GameDuration { elapsed: 3_211_000_000, paused: true };
    assert_eq!(calculate_score(&Penalty(2), &just_over).thousandths(), 5_211);
}

#[test]
fn score_has_room_for_the_largest_values() {
    let duration = GameDuration { elapsed: u64::MAX, paused: true };
    let score = calculate_score(&Penalty(u64::MAX), &duration);
    assert_eq!(score.thousandths(), 18_446_744_073_709 + 1000 * (u64::MAX as u128));
    assert_eq!(String::from_utf8(score.text()).unwrap(), "18446744092156295688.71 s");
}

#[test]
fn score_is_computed_from_copies() {
    let mut penalty = Penalty(2);
    let mut duration = GameDuration { elapsed: 1_000_000_000, paused: true };
    let score = calculate_score(&penalty, &duration);
    penalty.add(10);
    duration.paused = false;
    duration.tick(5_000_000_000);
    assert_eq!(score.thousandths(), 3_000);
    assert_eq!(score, score_of(1_000, 2));
}

#[test]
fn text_has_two_decimals_and_the_unit() {
    assert_eq!(text_of(0), "0.00 s");
    assert_eq!(text_of(10), "0.01 s");
    assert_eq!(text_of(90), "0.09 s");
    assert_eq!(text_of(100), "0.10 s");
    assert_eq!(text_of(990), "0.99 s");
    assert_eq!(text_of(1_000), "1.00 s");
    assert_eq!(text_of(5_210), "5.21 s");
    assert_eq!(text_of(9_990), "9.99 s");
    assert_eq!(text_of(10_000), "10.00 s");
    assert_eq!(text_of(12_340), "12.34 s");
    assert_eq!(text_of(100_050), "100.05 s");
    assert_eq!(text_of(3_600_000), "3600.00 s");
    assert_eq!(text_of(1_234_567_890), "1234567.89 s");
}

#[test]
fn text_is_rounded_to_the_nearest_hundredth() {
    assert_eq!(text_of(4), "0.00 s");
    assert_eq!(text_of(6), "0.01 s");
    assert_eq!(text_of(5_214), "5.21 s");
    assert_eq!(text_of(5_216), "5.22 s");
    assert_eq!(text_of(5_219), "5.22 s");
    assert_eq!(text_of(994), "0.99 s");
    assert_eq!(text_of(996), "1.00 s");
    assert_eq!(text_of(9_996), "10.00 s");
    assert_eq!(text_of(99_999), "100.00 s");
}

#[test]
fn half_goes_to_the_even_hundredth() {
    assert_eq!(text_of(5), "0.00 s");
    assert_eq!(text_of(15), "0.02 s");
    assert_eq!(text_of(25), "0.02 s");
    assert_eq!(text_of(125), "0.12 s");
    assert_eq!(text_of(375), "0.38 s");
    assert_eq!(text_of(625), "0.62 s");
    assert_eq!(text_of(875), "0.88 s");
    assert_eq!(text_of(995), "1.00 s");
    assert_eq!(text_of(9_985), "9.98 s");
    assert_eq!(text_of(9_995), "10.00 s");
}

#[test]
fn text_agrees_with_float_formatting() {
    // values that a float holds without a tie at the third decimal
    let plain = [0u64, 10, 250, 500, 1_000, 2_750, 5_210, 7_250, 9_990, 12_340, 60_000, 125, 375];
    for millis in plain {
        let seconds = millis as f32 / 1000.0;
        assert_eq!(text_of(millis), format!("{:.2} s", seconds));
    }
    for (millis, penalty) in [(3_210u64, 2u64), (7_250, 2), (500, 14), (0, 0), (999, 1)] {
        let seconds = millis as f32 / 1000.0 + penalty as f32;
        let text = String::from_utf8(score_of(millis, penalty).text()).unwrap();
        assert_eq!(text, format!("{:.2} s", seconds));
    }
}

#[test]
fn record_is_the_text_and_a_line_feed() {
    assert_eq!(score_of(3_210, 2).record(), b"5.21 s\n".to_vec());
    assert_eq!(score_of(0, 0).record(), b"0.00 s\n".to_vec());
    for millis in [0u64, 7, 1_005, 65_432, 1_000_000_007] {
        let score = score_of(millis, 3);
        let mut expected = score.text();
        expected.push(b'\n');
        let record = score.record();
        assert_eq!(record, expected);
        assert_eq!(record.iter().filter(|&&byte| byte == b'\n').count(), 1);
        assert_eq!(record.last(), Some(&b'\n'));
    }
}

#[test]
fn records_add_up_to_a_log_of_as_many_lines() {
    let earlier = b"1.00 s\n2.50 s\n".to_vec();
    let mut log = earlier.clone();
    let scores = [score_of(3_210, 2), score_of(0, 0), score_of(59_999, 0), score_of(1, 100)];
    for score in scores.iter() {
        log.extend_from_slice(&score.record());
    }
    assert!(log.starts_with(&earlier));
    let text = String::from_utf8(log).unwrap();
    let lines: Vec<&str> = text.lines().collect();
    assert_eq!(lines, vec!["1.00 s", "2.50 s", "5.21 s", "0.00 s", "60.00 s", "100.00 s"]);
    assert!(text.ends_with('\n'));
}

fn config(scoring: ScoreVariant) -> GameConfiguraiton {
    GameConfiguraiton {
        width: 2,
        height: 2,
        timer_duration: 200_000_000,
        incorrect_penalty: 2,
        scoring,
        score_file_path: String::from("times.log"),
    }
}

#[test]
fn final_score_waits_for_completion() {
    let mut session =
        Session::from_grid(&config(ScoreVariant::ElapsedPlusPenalty), vec![1, 2, 3, 4]).unwrap();
    assert_eq!(final_score(&session), None);
    session.update_timer(4_500_000_000);
    session.on_tile_tapped(1);
    session.on_tile_tapped(3);
    session.on_tile_tapped(2);
    session.on_tile_tapped(3);
    assert_eq!(final_score(&session), None);
    session.on_tile_tapped(4);
    let score = final_score(&session).unwrap();
    assert_eq!(score.thousandths(), 6_500);
    assert_eq!(score, calculate_score(&session.penalty(), &session.duration()));
    // asked again, the answer is the same
    assert_eq!(final_score(&session), Some(score));
}

#[test]
fn counting_variant_scores_the_correct_taps() {
    let mut session =
        Session::from_grid(&config(ScoreVariant::CorrectTaps), vec![1, 2, 3, 4]).unwrap();
    assert_eq!(session.scoring(), ScoreVariant::CorrectTaps);
    session.update_timer(4_500_000_000);
    for label in [1, 4, 2, 3, 1, 4] {
        session.on_tile_tapped(label);
    }
    assert_eq!(session.correct_taps(), 4);
    assert_eq!(session.penalty(), Penalty(4));
    let score = final_score(&session).unwrap();
    assert_eq!(score.thousandths(), 4_000);
    assert_eq!(score.text(), b"4.00 s".to_vec());
}

#[test]
fn countdown_returns_to_the_menu() {
    assert_eq!(GAME_OVER_DELAY, 2_000_000_000);
    let mut timer = GameOverTimer::new();
    assert_eq!(timer, GameOverTimer { remaining: 2_000_000_000 });
    assert_eq!(countdown(&mut timer, 500_000_000), None);
    assert_eq!(timer.remaining, 1_500_000_000);
    assert_eq!(countdown(&mut timer, 0), None);
    assert_eq!(countdown(&mut timer, 1_499_999_999), None);
    assert_eq!(timer.remaining, 1);
    assert_eq!(countdown(&mut timer, 1), Some(GameState::Menu));
    assert_eq!(timer.remaining, 0);
    // once run out, it stays so
    assert_eq!(countdown(&mut timer, 0), Some(GameState::Menu));
    assert_eq!(countdown(&mut timer, 16_000_000), Some(GameState::Menu));
    assert_eq!(timer.remaining, 0);
}

#[test]
fn countdown_with_one_long_tick() {
    let mut timer = GameOverTimer::new();
    assert_eq!(countdown(&mut timer, u64::MAX), Some(GameState::Menu));
    assert_eq!(timer.remaining, 0);
    let mut exact = GameOverTimer::new();
    assert_eq!(countdown(&mut exact, GAME_OVER_DELAY), Some(GameState::Menu));
}

#[test]
fn plan_appends_the_record_in_the_data_directory() {
    let score = score_of(3_210, 2);
    let settings = config(ScoreVariant::ElapsedPlusPenalty);
    let directory = PathBuf::from("/home/alice/.local/share/schulte_table");
    let plan = plan_save(&score, &settings, Some(directory.clone()));
    assert_eq!(
        plan,
        SavePlan::Append {
            directory,
            file_name: String::from("times.log"),
            record: b"5.21 s\n".to_vec(),
        }
    );
}

#[test]
fn plan_without_a_data_directory() {
    let score = score_of(3_210, 2);
    let settings = config(ScoreVariant::ElapsedPlusPenalty);
    assert_eq!(plan_save(&score, &settings, None), SavePlan::NoProjectDirs);
}

#[test]
fn save_score_uses_the_directory_of_this_application() {
    let score = score_of(61_005, 4);
    let settings = config(ScoreVariant::ElapsedPlusPenalty);
    let plan = save_score(&score, &settings);
    match ProjectDirs::from("com", "example", "schulte_table") {
        Some(dirs) => {
            assert_eq!(
                plan,
                SavePlan::Append {
                    directory: dirs.data_dir().to_path_buf(),
                    file_name: String::from("times.log"),
                    record: b"65.00 s\n".to_vec(),
                }
            );
        }
        None => assert_eq!(plan, SavePlan::NoProjectDirs),
    }
}
