use game_of_life::config::{parse_cell, parse_map, setup_board, setup_timer, Config};
use game_of_life::double_buffer::DoubleBuffer;
use game_of_life::driver::{TickDriver, TickMode};
use game_of_life::grid::ShapeError;
use game_of_life::timer::{TerminationTimer, TimerPhase};
use game_of_life::visuals::{close_on_esc, CellAssets};

fn records(lines: &[&[&str]]) -> Vec<Vec<String>> {
    lines.iter().map(|line| line.iter().map(|field| field.to_string()).collect()).collect()
}

#[test]
fn timer_with_three_ticks_fires_once_after_three_ticks() {
    let mut timer = TerminationTimer::new(3);
    assert_eq!(timer.phase(), TimerPhase::Uninitialized);
    assert!(!timer.observe());
    assert_eq!(timer.phase(), TimerPhase::Running);
    assert_eq!(timer.elapsed(), 0);
    assert!(!timer.observe());
    assert_eq!(timer.elapsed(), 1);
    assert!(!timer.observe());
    assert_eq!(timer.elapsed(), 2);
    assert!(!timer.finished());
    assert!(timer.observe());
    assert_eq!(timer.elapsed(), 3);
    assert!(timer.finished());
    for _ in 0..5 {
        assert!(!timer.observe());
        assert_eq!(timer.phase(), TimerPhase::Finished);
        assert_eq!(timer.elapsed(), 3);
    }
    assert_eq!(timer.total_ticks(), 3);
}

#[test]
fn timer_with_one_tick_fires_on_the_second_observation() {
    let mut timer = TerminationTimer::new(1);
    assert!(!timer.observe());
    assert!(timer.observe());
    assert_eq!(timer.elapsed(), 1);
    assert!(!timer.observe());
}

#[test]
fn timer_without_budget_fires_on_the_first_tick() {
    let mut timer = TerminationTimer::new(0);
    assert!(!timer.observe());
    assert!(timer.observe());
    assert_eq!(timer.elapsed(), 0);
    assert!(timer.finished());
    assert!(!timer.observe());
}

#[test]
fn timer_counts_to_the_largest_budget_without_overflow() {
    let mut timer = TerminationTimer::new(u32::MAX);
    assert!(!timer.observe());
    for tick in 1..=1000u32 {
        assert!(!timer.observe());
        assert_eq!(timer.elapsed(), tick);
    }
}

#[test]
fn timer_signal_count_is_one_for_every_small_budget() {
    for total in 0..20u32 {
        let mut timer = TerminationTimer::new(total);
        let mut fired_at = Vec::new();
        for observation in 1..=40u32 {
            if timer.observe() {
                fired_at.push(observation);
            }
        }
        let expected = if total == 0 { 2 } else { total + 1 };
        assert_eq!(fired_at, vec![expected]);
    }
}

#[test]
fn continuous_driver_steps_on_every_tick() {
    let start = vec![
        vec![false, false, false, false, false],
        vec![false, false, false, false, false],
        vec![false, true, true, true, false],
        vec![false, false, false, false, false],
        vec![false, false, false, false, false],
    ];
    let mut board = DoubleBuffer::new(start.clone()).unwrap();
    let driver = TickDriver::new(TickMode::Continuous);
    assert_eq!(driver.mode(), TickMode::Continuous);
    assert!(driver.should_step(false));
    assert!(driver.should_step(true));
    assert!(driver.tick(&mut board, false));
    assert_ne!(board.current().to_rows(), start);
    assert!(driver.tick(&mut board, true));
    assert_eq!(board.current().to_rows(), start);
}

#[test]
fn event_gated_driver_steps_only_on_a_trigger() {
    let start = vec![
        vec![false, false, false, false, false],
        vec![false, false, true, false, false],
        vec![false, false, true, false, false],
        vec![false, false, true, false, false],
        vec![false, false, false, false, false],
    ];
    let mut board = DoubleBuffer::new(start.clone()).unwrap();
    let driver = TickDriver::new(TickMode::EventGated);
    assert!(!driver.should_step(false));
    assert!(driver.should_step(true));
    for _ in 0..3 {
        assert!(!driver.tick(&mut board, false));
        assert_eq!(board.current().to_rows(), start);
        assert!(board.is_first_board_active());
    }
    assert!(driver.tick(&mut board, true));
    assert!(!board.is_first_board_active());
    assert_eq!(board.previous().to_rows(), start);
    assert_eq!(board.current().to_rows()[2], vec![false, true, true, true, false]);
}

#[test]
fn timer_runs_apart_from_the_event_gated_board() {
    let config = Config::new(2, vec![vec![false, true], vec![true, false]]).unwrap();
    let mut board = setup_board(&config);
    let mut timer = setup_timer(&config);
    let driver = TickDriver::new(TickMode::EventGated);
    let mut signals = Vec::new();
    for _ in 0..5 {
        assert!(!driver.tick(&mut board, false));
        signals.push(timer.observe());
    }
    assert_eq!(signals, vec![false, false, true, false, false]);
    assert!(board.is_first_board_active());
}

#[test]
fn only_the_text_one_is_a_live_cell() {
    assert!(parse_cell("1"));
    assert!(!parse_cell("0"));
    assert!(!parse_cell(""));
    assert!(!parse_cell("11"));
    assert!(!parse_cell(" 1"));
    assert!(!parse_cell("1 "));
    assert!(!parse_cell("true"));
    assert!(!parse_cell("\u{ff11}"));
    assert!(!parse_cell("01"));
}

#[test]
fn parse_map_reads_every_field() {
    let map = parse_map(&records(&[&["1", "0", "x"], &["", "1"], &[]]));
    assert_eq!(map, vec![vec![true, false, false], vec![false, true], vec![]]);
    assert_eq!(parse_map(&Vec::new()), Vec::<Vec<bool>>::new());
}

#[test]
fn config_from_records_takes_rows_as_height() {
    let config = Config::from_records(7, &records(&[&["1", "0", "0"], &["0", "1", "1"]])).unwrap();
    assert_eq!(config.iterations(), 7);
    assert_eq!(config.width(), 3);
    assert_eq!(config.height(), 2);
    assert_eq!(config.initial_map().to_rows(), vec![vec![true, false, false], vec![false, true, true]]);
}

#[test]
fn config_rejects_a_malformed_map() {
    assert_eq!(Config::from_records(1, &Vec::new()).unwrap_err(), ShapeError::Empty);
    assert_eq!(Config::from_records(1, &records(&[&[]])).unwrap_err(), ShapeError::Empty);
    assert_eq!(
        Config::from_records(1, &records(&[&["1", "1"], &["1", "1"], &["1", "1", "1"]])).unwrap_err(),
        ShapeError::Jagged { row: 2 }
    );
    assert_eq!(Config::new(1, vec![vec![true], vec![]]).unwrap_err(), ShapeError::Jagged { row: 1 });
    assert_eq!(Config::new(1, Vec::new()).unwrap_err(), ShapeError::Empty);
}

#[test]
fn setup_seeds_board_and_timer_from_the_config() {
    let map = vec![vec![true, false, true], vec![false, false, true]];
    let config = Config::new(4, map.clone()).unwrap();
    let board = setup_board(&config);
    assert!(board.is_first_board_active());
    assert_eq!(board.current().to_rows(), map);
    assert_eq!(board.previous().to_rows(), map);
    let timer = setup_timer(&config);
    assert_eq!(timer.total_ticks(), 4);
    assert_eq!(timer.elapsed(), 0);
    assert_eq!(timer.phase(), TimerPhase::Uninitialized);
}

#[test]
fn assets_follow_the_cell_state() {
    let assets = CellAssets { alive_cell: "white", dead_cell: "black" };
    assert_eq!(*assets.for_cell(true), "white");
    assert_eq!(*assets.for_cell(false), "black");
}

#[test]
fn escape_closes_the_focused_window_only() {
    assert!(close_on_esc(true, true));
    assert!(!close_on_esc(true, false));
    assert!(!close_on_esc(false, true));
    assert!(!close_on_esc(false, false));
}
