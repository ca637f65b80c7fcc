use eels_escalators::loader::{
    get_destination_from_row, get_type_from_row, parse_i8, parse_u8, read_tile_board_from_csv, tile_from_row,
    tiles_from_rows, BoardError,
};
use eels_escalators::tileboard::Tile;

fn row(fields: &[&str]) -> Vec<Vec<u8>> {
    fields.iter().map(|field| field.as_bytes().to_vec()).collect()
}

#[test]
fn signed_fields() {
    assert_eq!(parse_i8(b"0"), Some(0));
    assert_eq!(parse_i8(b"-1"), Some(-1));
    assert_eq!(parse_i8(b"+1"), Some(1));
    assert_eq!(parse_i8(b"127"), Some(127));
    assert_eq!(parse_i8(b"-128"), Some(-128));
    assert_eq!(parse_i8(b"007"), Some(7));
    assert_eq!(parse_i8(b"-0"), Some(0));
    assert_eq!(parse_i8(b"0000000000000000000000000000000012"), Some(12));
}

#[test]
fn fields_that_are_no_signed_number() {
    assert_eq!(parse_i8(b""), None);
    assert_eq!(parse_i8(b"-"), None);
    assert_eq!(parse_i8(b"+"), None);
    assert_eq!(parse_i8(b"128"), None);
    assert_eq!(parse_i8(b"-129"), None);
    assert_eq!(parse_i8(b"99999999999999999999999"), None);
    assert_eq!(parse_i8(b" 1"), None);
    assert_eq!(parse_i8(b"1 "), None);
    assert_eq!(parse_i8(b"--1"), None);
    assert_eq!(parse_i8(b"+-1"), None);
    assert_eq!(parse_i8(b"1x"), None);
    assert_eq!(parse_i8(b"x"), None);
}

#[test]
fn fields_read_as_the_standard_library_reads_them() {
    let fields: [&str; 16] = [
        "", "0", "-0", "+0", "-", "+", "12", "-12", "+12", "127", "128", "-128", "-129", "255", "256", "1e1",
    ];
    for field in fields {
        assert_eq!(parse_i8(field.as_bytes()), field.parse::<i8>().ok());
        assert_eq!(parse_u8(field.as_bytes()), field.parse::<u8>().ok());
    }
}

#[test]
fn unsigned_fields() {
    assert_eq!(parse_u8(b"0"), Some(0));
    assert_eq!(parse_u8(b"255"), Some(255));
    assert_eq!(parse_u8(b"+42"), Some(42));
    assert_eq!(parse_u8(b"0042"), Some(42));
    assert_eq!(parse_u8(b"256"), None);
    assert_eq!(parse_u8(b"-0"), None);
    assert_eq!(parse_u8(b"-1"), None);
    assert_eq!(parse_u8(b""), None);
    assert_eq!(parse_u8(b"+"), None);
    assert_eq!(parse_u8(b"4 2"), None);
}

#[test]
fn type_and_destination_of_a_row() {
    assert_eq!(get_type_from_row(&row(&["9", "-1", "4"])), Ok(-1));
    assert_eq!(get_type_from_row(&row(&["9", "100"])), Ok(100));
    assert_eq!(get_type_from_row(&row(&["9"])), Err(BoardError::MissingType));
    assert_eq!(get_type_from_row(&row(&[])), Err(BoardError::MissingType));
    assert_eq!(get_type_from_row(&row(&["9", "one"])), Err(BoardError::InvalidType));
    assert_eq!(get_destination_from_row(&row(&["9", "-1", "4"])), Ok(4));
    assert_eq!(get_destination_from_row(&row(&["9", "-1"])), Err(BoardError::MissingDestination));
    assert_eq!(get_destination_from_row(&row(&["9", "-1", "-4"])), Err(BoardError::InvalidDestination));
}

#[test]
fn tile_of_a_row() {
    assert_eq!(tile_from_row(&row(&["0", "-1", "4"])), Ok(Tile::Eel(4)));
    assert_eq!(tile_from_row(&row(&["0", "0", "4"])), Ok(Tile::Normal));
    assert_eq!(tile_from_row(&row(&["0", "1", "4"])), Ok(Tile::Escalator(4)));
    assert_eq!(tile_from_row(&row(&["0", "2", "4"])), Err(BoardError::TypeOutOfRange));
    assert_eq!(tile_from_row(&row(&["0", "-2", "4"])), Err(BoardError::TypeOutOfRange));
}

#[test]
fn a_normal_tile_needs_no_destination() {
    assert_eq!(tile_from_row(&row(&["0", "0"])), Ok(Tile::Normal));
    assert_eq!(tile_from_row(&row(&["0", "0", "nowhere"])), Ok(Tile::Normal));
    assert_eq!(tile_from_row(&row(&["0", "1"])), Err(BoardError::MissingDestination));
    assert_eq!(tile_from_row(&row(&["0", "-1", "nowhere"])), Err(BoardError::InvalidDestination));
    assert_eq!(tile_from_row(&row(&["0", "1", "256"])), Err(BoardError::InvalidDestination));
}

#[test]
fn tiles_of_rows_stop_at_the_first_fault() {
    let rows = vec![row(&["0", "0", "0"]), row(&["1", "1", "0"])];
    assert_eq!(tiles_from_rows(&rows), Ok(vec![Tile::Normal, Tile::Escalator(0)]));
    let faulty = vec![row(&["0", "0", "0"]), row(&["1", "5", "0"]), row(&["2"])];
    assert_eq!(tiles_from_rows(&faulty), Err(BoardError::TypeOutOfRange));
    assert_eq!(tiles_from_rows(&Vec::new()), Ok(Vec::new()));
}

#[test]
fn board_from_a_table() {
    let data = b"0,0,0\n1,-1,0\n2,1,3\n3,0,0\n";
    assert_eq!(
        read_tile_board_from_csv(data),
        Ok(vec![Tile::Normal, Tile::Eel(0), Tile::Escalator(3), Tile::Normal])
    );
}

#[test]
fn the_first_row_is_a_tile_and_no_header() {
    assert_eq!(read_tile_board_from_csv(b"0,1,7\n"), Ok(vec![Tile::Escalator(7)]));
    assert_eq!(read_tile_board_from_csv(b"index,type,destination\n0,1,7\n"), Err(BoardError::InvalidType));
}

#[test]
fn quoted_fields_and_line_ends_are_read_as_a_table() {
    let data = b"\"0\",\"1\",\"7\"\r\n\"1\",\"0\",\"\"";
    assert_eq!(read_tile_board_from_csv(data), Ok(vec![Tile::Escalator(7), Tile::Normal]));
}

#[test]
fn an_empty_table_is_an_empty_board() {
    assert_eq!(read_tile_board_from_csv(b""), Ok(Vec::new()));
}

#[test]
fn rows_of_unequal_length_are_no_table() {
    assert_eq!(read_tile_board_from_csv(b"0,0,0\n1,0\n"), Err(BoardError::Table));
}

#[test]
fn bytes_that_are_no_text_are_no_table() {
    assert_eq!(read_tile_board_from_csv(b"0,0,\xff\n"), Err(BoardError::Table));
}

#[test]
fn the_fault_that_comes_first_is_reported() {
    assert_eq!(read_tile_board_from_csv(b"0,3,0\n1,0\n"), Err(BoardError::TypeOutOfRange));
    assert_eq!(read_tile_board_from_csv(b"0,0,0\n1,0\n2,3,0\n"), Err(BoardError::Table));
}

#[test]
fn each_fault_of_a_table() {
    assert_eq!(read_tile_board_from_csv(b"0\n"), Err(BoardError::MissingType));
    assert_eq!(read_tile_board_from_csv(b"0,eel,1\n"), Err(BoardError::InvalidType));
    assert_eq!(read_tile_board_from_csv(b"0,2,1\n"), Err(BoardError::TypeOutOfRange));
    assert_eq!(read_tile_board_from_csv(b"0,1\n"), Err(BoardError::MissingDestination));
    assert_eq!(read_tile_board_from_csv(b"0,-1,far\n"), Err(BoardError::InvalidDestination));
}
