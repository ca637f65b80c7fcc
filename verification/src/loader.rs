//! Reading a board from a table of comma-separated values. Each row of the
//! table is one tile: its second field is the type of the tile (-1 an eel,
//! 0 a normal tile, 1 an escalator) and its third field, which is read for
//! a special tile only, is the index to which the tile sends a player.

use crate::tileboard::Tile;
use csv::ReaderBuilder;
use vstd::prelude::*;

verus! {

/// The index of the field that holds the type of a tile.
pub const TYPE_COLUMN_INDEX: usize = 1;

/// The index of the field that holds the destination of a special tile.
pub const DESTINATION_COLUMN_INDEX: usize = 2;

/// Why a table could not be read as a board.
#[derive(Clone, Copy, Debug, PartialEq, Eq, Structural)]
pub enum BoardError {
    /// The data is no table of comma-separated values.
    Table,
    /// A row has no field for the type of the tile.
    MissingType,
    /// The type of a tile is no number that fits eight bits with a sign.
    InvalidType,
    /// The type of a tile is none of -1, 0 and 1.
    TypeOutOfRange,
    /// The row of a special tile has no field for the destination.
    MissingDestination,
    /// The destination of a special tile is no number from 0 to 255.
    InvalidDestination,
}

/// Whether the byte is an ASCII digit.
pub open spec fn is_digit(byte: u8) -> bool {
    0x30 <= byte <= 0x39
}

/// Whether every byte of the sequence is an ASCII digit.
pub open spec fn all_digits(s: Seq<u8>) -> bool {
    forall|i: int| 0 <= i < s.len() ==> is_digit(#[trigger] s[i])
}

/// The number that a sequence of ASCII digits writes in base ten.
pub open spec fn digits_value(s: Seq<u8>) -> int
    decreases s.len(),
{
    if s.len() == 0 {
        0
    } else {
        digits_value(s.drop_last()) * 10 + (s.last() - 0x30)
    }
}

/// The number that `s` writes, if `s` is one digit or more, nothing but
/// digits, and the number is `limit` at most.
pub open spec fn magnitude_within(s: Seq<u8>, limit: int) -> Option<int> {
    if s.len() > 0 && all_digits(s) && digits_value(s) <= limit {
        Some(digits_value(s))
    } else {
        None
    }
}

/// The integer from -128 to 127 that a field writes in base ten: digits,
/// with one `+` or `-` in front of them if the writer chose, and nothing
/// else.
pub open spec fn parsed_i8(s: Seq<u8>) -> Option<i8> {
    if s.len() == 0 {
        None
    } else if s[0] == 0x2d {
        match magnitude_within(s.skip(1), 128) {
            Some(m) => Some((-m) as i8),
            None => None,
        }
    } else if s[0] == 0x2b {
        match magnitude_within(s.skip(1), 127) {
            Some(m) => Some(m as i8),
            None => None,
        }
    } else {
        match magnitude_within(s, 127) {
            Some(m) => Some(m as i8),
            None => None,
        }
    }
}

/// The integer from 0 to 255 that a field writes in base ten: digits, with
/// one `+` in front of them if the writer chose, and nothing else.
pub open spec fn parsed_u8(s: Seq<u8>) -> Option<u8> {
    if s.len() == 0 {
        None
    } else if s[0] == 0x2b {
        match magnitude_within(s.skip(1), 255) {
            Some(m) => Some(m as u8),
            None => None,
        }
    } else {
        match magnitude_within(s, 255) {
            Some(m) => Some(m as u8),
            None => None,
        }
    }
}

/// The digits read so far never write more than all the digits do.
proof fn lemma_digits_prefix(s: Seq<u8>, k: int)
    requires
        all_digits(s),
        0 <= k <= s.len(),
    ensures
        0 <= digits_value(s.take(k)) <= digits_value(s),
    decreases s.len() - k,
{
    lemma_digits_nonnegative(s.take(k));
    if k == s.len() {
        assert(s.take(k) =~= s);
    } else {
        lemma_digits_prefix(s, k + 1);
        assert(s.take(k + 1).drop_last() =~= s.take(k));
    }
}

/// Digits write no negative number.
proof fn lemma_digits_nonnegative(s: Seq<u8>)
    requires
        all_digits(s),
    ensures
        0 <= digits_value(s),
    decreases s.len(),
{
    if s.len() > 0 {
        lemma_digits_nonnegative(s.drop_last());
    }
}

/// Reads the digits of `field` from the index `from` to its end.
fn read_magnitude(field: &[u8], from: usize, limit: u32) -> (value: Option<u32>)
    requires
        from <= field@.len(),
        limit <= 255,
    ensures
        value matches Some(v) ==> magnitude_within(field@.skip(from as int), limit as int) == Some(v as int),
        value is None ==> magnitude_within(field@.skip(from as int), limit as int) is None,
{
    let ghost digits = field@.skip(from as int);
    let mut value: u32 = 0;
    let mut index: usize = from;
    while index < field.len()
        invariant
            from <= index <= field@.len(),
            limit <= 255,
            digits == field@.skip(from as int),
            all_digits(digits.take(index - from)),
            value == digits_value(digits.take(index - from)),
            value <= limit,
        decreases field@.len() - index,
    {
        let byte: u8 = field[index];
        let ghost read = digits.take(index - from + 1);
        assert(read.drop_last() =~= digits.take(index - from));
        assert(read.last() == byte);
        if byte < 0x30 || byte > 0x39 {
            assert(!is_digit(digits[index - from]));
            return None;
        }
        let next: u32 = value * 10 + (byte - 0x30) as u32;
        if next > limit {
            proof {
                if all_digits(digits) {
                    lemma_digits_prefix(digits, index - from + 1);
                }
            }
            return None;
        }
        value = next;
        index += 1;
    }
    assert(digits.take(index - from) =~= digits);
    if index == from {
        None
    } else {
        Some(value)
    }
}

/// Reads a field as an integer from -128 to 127.
pub fn parse_i8(field: &[u8]) -> (number: Option<i8>)
    ensures
        number == parsed_i8(field@),
{
    if field.len() == 0 {
        return None;
    }
    let first: u8 = field[0];
    if first == 0x2d {
        match read_magnitude(field, 1, 128) {
            Some(m) => Some((0 - m as i32) as i8),
            None => None,
        }
    } else if first == 0x2b {
        match read_magnitude(field, 1, 127) {
            Some(m) => Some(m as i8),
            None => None,
        }
    } else {
        assert(field@.skip(0) =~= field@);
        match read_magnitude(field, 0, 127) {
            Some(m) => Some(m as i8),
            None => None,
        }
    }
}

/// Reads a field as an integer from 0 to 255.
pub fn parse_u8(field: &[u8]) -> (number: Option<u8>)
    ensures
        number == parsed_u8(field@),
{
    if field.len() == 0 {
        return None;
    }
    if field[0] == 0x2b {
        match read_magnitude(field, 1, 255) {
            Some(m) => Some(m as u8),
            None => None,
        }
    } else {
        assert(field@.skip(0) =~= field@);
        match read_magnitude(field, 0, 255) {
            Some(m) => Some(m as u8),
            None => None,
        }
    }
}

/// The type of the tile that a row describes.
pub open spec fn type_of_row(row: Seq<Seq<u8>>) -> Result<i8, BoardError> {
    if row.len() <= TYPE_COLUMN_INDEX {
        Err(BoardError::MissingType)
    } else {
        match parsed_i8(row[TYPE_COLUMN_INDEX as int]) {
            Some(tile_type) => Ok(tile_type),
            None => Err(BoardError::InvalidType),
        }
    }
}

/// The destination of the special tile that a row describes.
pub open spec fn destination_of_row(row: Seq<Seq<u8>>) -> Result<u8, BoardError> {
    if row.len() <= DESTINATION_COLUMN_INDEX {
        Err(BoardError::MissingDestination)
    } else {
        match parsed_u8(row[DESTINATION_COLUMN_INDEX as int]) {
            Some(dest) => Ok(dest),
            None => Err(BoardError::InvalidDestination),
        }
    }
}

/// The tile that a row describes. The destination is read, and can be at
/// fault, for an eel and an escalator only.
pub open spec fn tile_of_row(row: Seq<Seq<u8>>) -> Result<Tile, BoardError> {
    match type_of_row(row) {
        Err(e) => Err(e),
        Ok(tile_type) => if tile_type == -1 {
            match destination_of_row(row) {
                Ok(dest) => Ok(Tile::Eel(dest)),
                Err(e) => Err(e),
            }
        } else if tile_type == 0 {
            Ok(Tile::Normal)
        } else if tile_type == 1 {
            match destination_of_row(row) {
                Ok(dest) => Ok(Tile::Escalator(dest)),
                Err(e) => Err(e),
            }
        } else {
            Err(BoardError::TypeOutOfRange)
        },
    }
}

/// The tiles that the rows describe, in the order of the rows, or the fault
/// of the first row that describes none.
pub open spec fn tiles_of_rows(rows: Seq<Seq<Seq<u8>>>) -> Result<Seq<Tile>, BoardError>
    decreases rows.len(),
{
    if rows.len() == 0 {
        Ok(Seq::empty())
    } else {
        match tiles_of_rows(rows.drop_last()) {
            Err(e) => Err(e),
            Ok(tiles) => match tile_of_row(rows.last()) {
                Err(e) => Err(e),
                Ok(tile) => Ok(tiles.push(tile)),
            },
        }
    }
}

/// The board that a table describes. `rows` are the rows that could be read
/// from the data, and `complete` says whether that was all of the data. A
/// row at fault comes before the place where the reading stopped, so its
/// fault is the one reported.
pub open spec fn board_of_table(rows: Seq<Seq<Seq<u8>>>, complete: bool) -> Result<Seq<Tile>, BoardError> {
    match tiles_of_rows(rows) {
        Err(e) => Err(e),
        Ok(tiles) => if complete {
            Ok(tiles)
        } else {
            Err(BoardError::Table)
        },
    }
}

/// Reads the type of the tile from a row.
pub fn get_type_from_row(row: &Vec<Vec<u8>>) -> (tile_type: Result<i8, BoardError>)
    ensures
        tile_type == type_of_row(row.deep_view()),
{
    if row.len() <= TYPE_COLUMN_INDEX {
        return Err(BoardError::MissingType);
    }
    assert(row.deep_view()[TYPE_COLUMN_INDEX as int] == row@[TYPE_COLUMN_INDEX as int]@);
    match parse_i8(row[TYPE_COLUMN_INDEX].as_slice()) {
        Some(tile_type) => Ok(tile_type),
        None => Err(BoardError::InvalidType),
    }
}

/// Reads the destination of a special tile from a row.
pub fn get_destination_from_row(row: &Vec<Vec<u8>>) -> (dest: Result<u8, BoardError>)
    ensures
        dest == destination_of_row(row.deep_view()),
{
    if row.len() <= DESTINATION_COLUMN_INDEX {
        return Err(BoardError::MissingDestination);
    }
    assert(row.deep_view()[DESTINATION_COLUMN_INDEX as int] == row@[DESTINATION_COLUMN_INDEX as int]@);
    match parse_u8(row[DESTINATION_COLUMN_INDEX].as_slice()) {
        Some(dest) => Ok(dest),
        None => Err(BoardError::InvalidDestination),
    }
}

/// Reads the tile that a row describes.
pub fn tile_from_row(row: &Vec<Vec<u8>>) -> (tile: Result<Tile, BoardError>)
    ensures
        tile == tile_of_row(row.deep_view()),
{
    let tile_type: i8 = match get_type_from_row(row) {
        Ok(tile_type) => tile_type,
        Err(e) => {
            return Err(e);
        },
    };
    if tile_type == -1 {
        match get_destination_from_row(row) {
            Ok(dest) => Ok(Tile::Eel(dest)),
            Err(e) => Err(e),
        }
    } else if tile_type == 0 {
        Ok(Tile::Normal)
    } else if tile_type == 1 {
        match get_destination_from_row(row) {
            Ok(dest) => Ok(Tile::Escalator(dest)),
            Err(e) => Err(e),
        }
    } else {
        Err(BoardError::TypeOutOfRange)
    }
}

/// Reads the tiles that the rows describe, and stops at the first row that
/// describes none.
pub fn tiles_from_rows(rows: &Vec<Vec<Vec<u8>>>) -> (tiles: Result<Vec<Tile>, BoardError>)
    ensures
        match tiles {
            Ok(board) => tiles_of_rows(rows.deep_view()) == Ok::<Seq<Tile>, BoardError>(board@),
            Err(e) => tiles_of_rows(rows.deep_view()) == Err::<Seq<Tile>, BoardError>(e),
        },
{
    let ghost all = rows.deep_view();
    let mut tileboard: Vec<Tile> = Vec::new();
    let mut index: usize = 0;
    while index < rows.len()
        invariant
            index <= rows@.len(),
            all == rows.deep_view(),
            tiles_of_rows(all.take(index as int)) == Ok::<Seq<Tile>, BoardError>(tileboard@),
        decreases rows@.len() - index,
    {
        assert(all.take(index + 1).drop_last() =~= all.take(index as int));
        assert(all.take(index + 1).last() == rows@[index as int].deep_view());
        match tile_from_row(&rows[index]) {
            Ok(tile) => {
                tileboard.push(tile);
            },
            Err(e) => {
                proof {
                    lemma_fault_stays(all, index + 1);
                }
                return Err(e);
            },
        }
        index += 1;
    }
    assert(all.take(index as int) =~= all);
    Ok(tileboard)
}

/// The fault of the first rows is the fault of all the rows.
proof fn lemma_fault_stays(rows: Seq<Seq<Seq<u8>>>, k: int)
    requires
        0 <= k <= rows.len(),
        tiles_of_rows(rows.take(k)) is Err,
    ensures
        tiles_of_rows(rows) == tiles_of_rows(rows.take(k)),
    decreases rows.len() - k,
{
    if k == rows.len() {
        assert(rows.take(k) =~= rows);
    } else {
        assert(rows.take(k + 1).drop_last() =~= rows.take(k));
        lemma_fault_stays(rows, k + 1);
    }
}

#[verifier::external_type_specification]
#[verifier::external_body]
pub struct ExCsvError(csv::Error);

/// What the reader of the `csv` crate makes of the data, read without a
/// header row: the rows that it reads before its first error or the end of
/// the data, each row as the bytes of its fields, and whether it got to the
/// end of the data without an error.
pub uninterp spec fn csv_table(data: Seq<u8>) -> (Seq<Seq<Seq<u8>>>, bool);

/// Reads the data with `csv::ReaderBuilder`, headers switched off, and
/// walks the records of `csv::Reader::into_records` up to the first error.
/// Returns the rows read, each field of a row as its bytes, and the error
/// at which the reading stopped, if it stopped at one.
#[verifier::external_body]
fn read_records(data: &[u8]) -> (table: (Vec<Vec<Vec<u8>>>, Option<csv::Error>))
    ensures
        table.0.deep_view() == csv_table(data@).0,
        (table.1 is None) == csv_table(data@).1,
{
    let mut rows = Vec::new();
    for record in ReaderBuilder::new().has_headers(false).from_reader(data).into_records() {
        match record {
            Ok(fields) => rows.push(fields.iter().map(|field| field.as_bytes().to_vec()).collect()),
            Err(error) => return (rows, Some(error)),
        }
    }
    (rows, None)
}

/// Makes the board of the rows that were read from a table. `complete`
/// says whether the rows are all of the table, or the reading stopped at a
/// fault of the data.
pub fn board_from_table(rows: &Vec<Vec<Vec<u8>>>, complete: bool) -> (board: Result<Vec<Tile>, BoardError>)
    ensures
        match board {
            Ok(tiles) => board_of_table(rows.deep_view(), complete) == Ok::<Seq<Tile>, BoardError>(tiles@),
            Err(e) => board_of_table(rows.deep_view(), complete) == Err::<Seq<Tile>, BoardError>(e),
        },
{
    match tiles_from_rows(rows) {
        Err(e) => Err(e),
        Ok(tiles) => if complete {
            Ok(tiles)
        } else {
            Err(BoardError::Table)
        },
    }
}

/// Reads a board from the bytes of a table of comma-separated values, one
/// row to a tile and no header row.
pub fn read_tile_board_from_csv(csv_data: &[u8]) -> (board: Result<Vec<Tile>, BoardError>)
    ensures
        match board {
            Ok(tiles) => board_of_table(csv_table(csv_data@).0, csv_table(csv_data@).1) == Ok::<
                Seq<Tile>,
                BoardError,
            >(tiles@),
            Err(e) => board_of_table(csv_table(csv_data@).0, csv_table(csv_data@).1) == Err::<
                Seq<Tile>,
                BoardError,
            >(e),
        },
{
    let (rows, stopped_at) = read_records(csv_data);
    let complete = match stopped_at {
        None => true,
        Some(_) => false,
    };
    board_from_table(&rows, complete)
}

} // verus!
