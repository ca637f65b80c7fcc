use eels_escalators::claims::{claim_next, claimed_game, count_up};
use eels_escalators::random::RandomSource;
use eels_escalators::stats::summarize;
use eels_escalators::tileboard::Tile;
use eels_escalators::worker::{play_all_games, play_claimed_games, record_result};
use std::sync::atomic::{AtomicUsize, Ordering};
use std::sync::{Arc, Mutex};

struct Sixes;

impl RandomSource for Sixes {
    fn draw(&mut self) -> u32 {
        5
    }
}

fn board() -> Vec<Tile> {
    let mut board = vec![Tile::Normal; 40];
    board[7] = Tile::Escalator(20);
    board[11] = Tile::Eel(3);
    board[25] = Tile::Eel(9);
    board[30] = Tile::Escalator(38);
    board
}

#[test]
fn counter_goes_up_while_games_are_left() {
    assert_eq!(count_up(0, 3), Some(1));
    assert_eq!(count_up(2, 3), Some(3));
    assert_eq!(count_up(3, 3), None);
    assert_eq!(count_up(4, 3), None);
    assert_eq!(count_up(0, 0), None);
    assert_eq!(count_up(usize::MAX - 1, usize::MAX), Some(usize::MAX));
    assert_eq!(count_up(usize::MAX, usize::MAX), None);
}

#[test]
fn a_claim_hands_out_what_it_found() {
    assert_eq!(claimed_game(Ok(4)), Some(4));
    assert_eq!(claimed_game(Err(4)), None);
}

#[test]
fn claims_count_through_the_games_and_stop() {
    let counter = AtomicUsize::new(0);
    assert_eq!(claim_next(&counter, 3), Some(0));
    assert_eq!(claim_next(&counter, 3), Some(1));
    assert_eq!(claim_next(&counter, 3), Some(2));
    assert_eq!(claim_next(&counter, 3), None);
    assert_eq!(claim_next(&counter, 3), None);
    assert_eq!(counter.load(Ordering::SeqCst), 3);
}

#[test]
fn no_games_no_claim() {
    let counter = AtomicUsize::new(0);
    assert_eq!(claim_next(&counter, 0), None);
    assert_eq!(counter.load(Ordering::SeqCst), 0);
}

#[test]
fn interleaved_claims_hand_out_each_game_once() {
    let total = 5000;
    let counter = AtomicUsize::new(0);
    let mut claimed: Vec<Vec<usize>> = vec![Vec::new(); 8];
    let mut stopped = [false; 8];
    let mut turn = 0usize;
    while stopped.iter().any(|done| !*done) {
        let worker = (turn * 3 + turn / 8) % 8;
        turn += 1;
        if stopped[worker] {
            continue;
        }
        match claim_next(&counter, total) {
            Some(game) => claimed[worker].push(game),
            None => stopped[worker] = true,
        }
    }
    let mut all: Vec<usize> = claimed.concat();
    all.sort_unstable();
    assert_eq!(all, (0..total).collect::<Vec<usize>>());
    assert_eq!(counter.load(Ordering::SeqCst), total);
}

#[test]
fn results_are_appended() {
    let results = Mutex::new(vec![4]);
    record_result(&results, 9);
    record_result(&results, 2);
    assert_eq!(*results.lock().unwrap(), vec![4, 9, 2]);
}

#[test]
fn one_worker_plays_every_game() {
    let board = vec![Tile::Normal; 7];
    let counter = AtomicUsize::new(0);
    let results = Mutex::new(Vec::new());
    let played = play_claimed_games(&board, &counter, 10, 2, &results, &mut Sixes);
    assert_eq!(played, 10);
    assert_eq!(*results.lock().unwrap(), vec![2; 10]);
    assert_eq!(counter.load(Ordering::SeqCst), 10);
    let again = play_claimed_games(&board, &counter, 10, 2, &results, &mut Sixes);
    assert_eq!(again, 0);
    assert_eq!(results.lock().unwrap().len(), 10);
}

#[test]
fn a_worker_plays_what_is_left() {
    let board = vec![Tile::Normal; 7];
    let counter = AtomicUsize::new(6);
    let results = Mutex::new(Vec::new());
    assert_eq!(play_claimed_games(&board, &counter, 10, 1, &results, &mut Sixes), 4);
    assert_eq!(results.lock().unwrap().len(), 4);
}

#[test]
fn worker_with_the_thread_generator() {
    let board = board();
    let counter = Arc::new(AtomicUsize::new(0));
    let results = Arc::new(Mutex::new(Vec::new()));
    play_all_games(&board, counter.clone(), 25, 3, results.clone());
    assert_eq!(counter.load(Ordering::SeqCst), 25);
    let held = results.lock().unwrap();
    assert_eq!(held.len(), 25);
    assert!(held.iter().all(|rounds| *rounds >= 1));
}

#[test]
fn eight_workers_play_a_thousand_games() {
    let board = Arc::new(board());
    let counter = Arc::new(AtomicUsize::new(0));
    let results = Arc::new(Mutex::new(Vec::with_capacity(1000)));
    for _ in 0..8 {
        play_all_games(&board, counter.clone(), 1000, 3, results.clone());
    }
    assert_eq!(counter.load(Ordering::SeqCst), 1000);
    let mut held = results.lock().unwrap();
    assert_eq!(held.len(), 1000);
    let summary = summarize(&mut held).unwrap();
    assert_eq!(summary.instances, 1000);
    assert!(summary.min <= summary.median && summary.median <= summary.max);
    let mean = summary.total as f64 / summary.instances as f64;
    assert!(summary.min as f64 <= mean && mean <= summary.max as f64);
    assert!(summary.min >= 1);
}

#[test]
fn workers_that_take_turns_share_the_games() {
    let board = board();
    let counter = AtomicUsize::new(0);
    let results = Mutex::new(Vec::new());
    let mut played = [0usize; 8];
    for round in 0..200 {
        let worker = round % 8;
        let goal = counter.load(Ordering::SeqCst) + 5;
        played[worker] += play_claimed_games(&board, &counter, goal.min(1000), 3, &results, &mut rand::thread_rng());
    }
    assert_eq!(played.iter().sum::<usize>(), 1000);
    assert_eq!(results.lock().unwrap().len(), 1000);
    assert_eq!(played, [125; 8]);
}
