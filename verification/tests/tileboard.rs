use eels_escalators::tileboard::{
    find_next_eel, find_next_escalator, find_next_special, is_valid_board, SpecialKind, Tile,
};

fn sample() -> Vec<Tile> {
    vec![
        Tile::Normal,
        Tile::Escalator(4),
        Tile::Eel(0),
        Tile::Normal,
        Tile::Eel(1),
        Tile::Escalator(6),
        Tile::Normal,
    ]
}

#[test]
fn next_eel_is_the_first_at_or_after_start() {
    let board = sample();
    assert_eq!(find_next_eel(&board, 0), Some(2));
    assert_eq!(find_next_eel(&board, 2), Some(2));
    assert_eq!(find_next_eel(&board, 3), Some(4));
    assert_eq!(find_next_eel(&board, 4), Some(4));
}

#[test]
fn next_escalator_is_the_first_at_or_after_start() {
    let board = sample();
    assert_eq!(find_next_escalator(&board, 0), Some(1));
    assert_eq!(find_next_escalator(&board, 1), Some(1));
    assert_eq!(find_next_escalator(&board, 2), Some(5));
    assert_eq!(find_next_escalator(&board, 5), Some(5));
}

#[test]
fn no_special_tile_ahead() {
    let board = sample();
    assert_eq!(find_next_eel(&board, 5), None);
    assert_eq!(find_next_escalator(&board, 6), None);
    assert_eq!(find_next_eel(&[Tile::Normal, Tile::Escalator(0)], 0), None);
    assert_eq!(find_next_escalator(&[Tile::Normal, Tile::Eel(0)], 0), None);
}

#[test]
fn search_from_the_end_or_beyond_finds_nothing() {
    let board = sample();
    assert_eq!(find_next_eel(&board, 7), None);
    assert_eq!(find_next_eel(&board, 8), None);
    assert_eq!(find_next_escalator(&board, usize::MAX), None);
    assert_eq!(find_next_eel(&[], 0), None);
}

#[test]
fn search_by_kind() {
    let board = sample();
    assert_eq!(find_next_special(&board, SpecialKind::Eel, 1), Some(2));
    assert_eq!(find_next_special(&board, SpecialKind::Escalator, 3), Some(5));
    assert!(Tile::Eel(3).has_kind(SpecialKind::Eel));
    assert!(!Tile::Eel(3).has_kind(SpecialKind::Escalator));
    assert!(!Tile::Normal.has_kind(SpecialKind::Eel));
    assert!(Tile::Escalator(3).has_kind(SpecialKind::Escalator));
}

#[test]
fn a_board_with_every_destination_on_it_is_valid() {
    assert!(is_valid_board(&sample()));
    assert!(is_valid_board(&[Tile::Normal]));
    assert!(is_valid_board(&[Tile::Eel(0)]));
    assert!(is_valid_board(&[Tile::Normal, Tile::Escalator(1)]));
}

#[test]
fn an_empty_board_is_not_valid() {
    assert!(!is_valid_board(&[]));
}

#[test]
fn a_destination_beyond_the_board_is_not_valid() {
    assert!(!is_valid_board(&[Tile::Normal, Tile::Escalator(2)]));
    assert!(!is_valid_board(&[Tile::Eel(1)]));
    assert!(!is_valid_board(&[Tile::Normal, Tile::Normal, Tile::Eel(255)]));
}
