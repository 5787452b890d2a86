use schulte_table::{
    ascending_labels, generate_grid, is_layout, ConfigError, GameConfiguraiton, ScoreVariant,
    MAX_TILES,
};

fn config(width: u32, height: u32) -> GameConfiguraiton {
    GameConfiguraiton {
        width,
        height,
        timer_duration: 200_000_000,
        incorrect_penalty: 2,
        scoring: ScoreVariant::ElapsedPlusPenalty,
        score_file_path: String::from("scores.txt"),
    }
}

#[test]
fn default_configuration() {
    let config = GameConfiguraiton::default();
    assert_eq!(config.width, 2);
    assert_eq!(config.height, 2);
    assert_eq!(config.timer_duration, 200_000_000);
    assert_eq!(config.incorrect_penalty, 2);
    assert_eq!(config.scoring, ScoreVariant::ElapsedPlusPenalty);
    assert_eq!(config.score_file_path, "scores.txt");
    assert_eq!(config.tile_count(), Ok(4));
}

#[test]
fn clone_keeps_every_field() {
    let settings = config(7, 3);
    let copy = settings.clone();
    assert_eq!(copy.width, 7);
    assert_eq!(copy.height, 3);
    assert_eq!(copy.timer_duration, 200_000_000);
    assert_eq!(copy.incorrect_penalty, 2);
    assert_eq!(copy.scoring, ScoreVariant::ElapsedPlusPenalty);
    assert_eq!(copy.score_file_path, "scores.txt");
}

#[test]
fn tile_count_is_the_product() {
    assert_eq!(config(1, 1).tile_count(), Ok(1));
    assert_eq!(config(5, 5).tile_count(), Ok(25));
    assert_eq!(config(3, 7).tile_count(), Ok(21));
    assert_eq!(config(65_535, 65_536).tile_count(), Ok(4_294_901_760));
}

#[test]
fn zero_dimension_is_refused() {
    assert_eq!(config(0, 5).tile_count(), Err(ConfigError::ZeroDimension));
    assert_eq!(config(5, 0).tile_count(), Err(ConfigError::ZeroDimension));
    assert_eq!(config(0, 0).tile_count(), Err(ConfigError::ZeroDimension));
    assert_eq!(config(0, u32::MAX).tile_count(), Err(ConfigError::ZeroDimension));
    assert_eq!(generate_grid(&config(0, 3)), Err(ConfigError::ZeroDimension));
    assert_eq!(generate_grid(&config(3, 0)), Err(ConfigError::ZeroDimension));
}

#[test]
fn too_many_tiles_are_refused() {
    assert_eq!(MAX_TILES, 4_294_967_294);
    assert_eq!(config(MAX_TILES, 1).tile_count(), Ok(MAX_TILES));
    assert_eq!(config(1, MAX_TILES).tile_count(), Ok(MAX_TILES));
    assert_eq!(config(2, 2_147_483_647).tile_count(), Ok(MAX_TILES));
    assert_eq!(config(u32::MAX, 1).tile_count(), Err(ConfigError::LabelOverflow));
    assert_eq!(config(65_535, 65_537).tile_count(), Err(ConfigError::LabelOverflow));
    assert_eq!(config(65_536, 65_536).tile_count(), Err(ConfigError::LabelOverflow));
    assert_eq!(config(u32::MAX, u32::MAX).tile_count(), Err(ConfigError::LabelOverflow));
    assert_eq!(generate_grid(&config(u32::MAX, u32::MAX)), Err(ConfigError::LabelOverflow));
}

#[test]
fn ascending_labels_count_from_one() {
    assert_eq!(ascending_labels(0), Vec::<u32>::new());
    assert_eq!(ascending_labels(1), vec![1]);
    assert_eq!(ascending_labels(6), vec![1, 2, 3, 4, 5, 6]);
}

#[test]
fn generated_grid_is_a_permutation() {
    for (width, height) in [(1, 1), (2, 2), (3, 5), (5, 5), (1, 9), (12, 1), (10, 10)] {
        let cells = width * height;
        let grid = generate_grid(&config(width, height)).unwrap();
        assert_eq!(grid.len() as u32, cells);
        assert!(is_layout(&grid, cells));
        let mut sorted = grid.clone();
        sorted.sort();
        assert_eq!(sorted, ascending_labels(cells));
    }
}

#[test]
fn single_tile_grid() {
    assert_eq!(generate_grid(&config(1, 1)), Ok(vec![1]));
}

#[test]
fn generated_grid_is_shuffled() {
    let ascending = ascending_labels(100);
    let grid = generate_grid(&config(10, 10)).unwrap();
    assert_ne!(grid, ascending);
}

#[test]
fn two_grids_hold_the_same_labels_in_another_order() {
    let first = generate_grid(&config(10, 10)).unwrap();
    let second = generate_grid(&config(10, 10)).unwrap();
    assert_ne!(first, second);
    let mut first_sorted = first.clone();
    let mut second_sorted = second.clone();
    first_sorted.sort();
    second_sorted.sort();
    assert_eq!(first_sorted, second_sorted);
}

#[test]
fn layouts_are_told_apart() {
    assert!(is_layout(&vec![], 0));
    assert!(is_layout(&vec![1], 1));
    assert!(is_layout(&vec![3, 1, 4, 2], 4));
    assert!(is_layout(&vec![1, 2, 3, 4], 4));
    // wrong length
    assert!(!is_layout(&vec![1, 2, 3], 4));
    assert!(!is_layout(&vec![1, 2, 3, 4, 5], 4));
    assert!(!is_layout(&vec![1], 0));
    // a label twice
    assert!(!is_layout(&vec![1, 2, 2, 4], 4));
    assert!(!is_layout(&vec![3, 3, 3, 3], 4));
    // a label out of range
    assert!(!is_layout(&vec![0, 1, 2, 3], 4));
    assert!(!is_layout(&vec![1, 2, 3, 5], 4));
    assert!(!is_layout(&vec![1, 2, 3, u32::MAX], 4));
}
