//! The board: an ordered row of tiles, and the search for the next special
//! tile ahead of a player.

use vstd::prelude::*;

verus! {

/// One tile of the board. The position of a tile in the row is its index; a
/// special tile carries the index to which it sends the player who lands on it.
#[derive(Clone, Copy, Debug, PartialEq, Eq, Structural)]
pub enum Tile {
    Eel(u8),
    Normal,
    Escalator(u8),
}

/// The two kinds of special tile.
#[derive(Clone, Copy, Debug, PartialEq, Eq, Structural)]
pub enum SpecialKind {
    Eel,
    Escalator,
}

impl Tile {
    /// Whether this tile is a special tile of the given kind.
    pub open spec fn is_kind(self, kind: SpecialKind) -> bool {
        match kind {
            SpecialKind::Eel => self is Eel,
            SpecialKind::Escalator => self is Escalator,
        }
    }

    /// The index to which this tile sends a player, if it is a special tile.
    pub open spec fn destination(self) -> Option<int> {
        match self {
            Tile::Eel(d) => Some(d as int),
            Tile::Normal => None,
            Tile::Escalator(d) => Some(d as int),
        }
    }

    /// Whether this tile is a special tile of `kind`.
    pub fn has_kind(&self, kind: SpecialKind) -> (yes: bool)
        ensures
            yes == self.is_kind(kind),
    {
        match (kind, self) {
            (SpecialKind::Eel, Tile::Eel(_)) => true,
            (SpecialKind::Escalator, Tile::Escalator(_)) => true,
            _ => false,
        }
    }
}

/// Whether the board is fit to play on: it has a tile, and every special
/// tile sends the player to an index of the board.
pub open spec fn valid_board(board: Seq<Tile>) -> bool {
    &&& board.len() >= 1
    &&& forall|i: int|
        0 <= i < board.len() ==> match (#[trigger] board[i]).destination() {
            Some(d) => d < board.len(),
            None => true,
        }
}

/// Whether the board is fit to play on.
pub fn is_valid_board(tileboard: &[Tile]) -> (valid: bool)
    ensures
        valid == valid_board(tileboard@),
{
    if tileboard.len() == 0 {
        return false;
    }
    let mut index: usize = 0;
    while index < tileboard.len()
        invariant
            index <= tileboard@.len(),
            forall|i: int|
                0 <= i < index ==> match (#[trigger] tileboard@[i]).destination() {
                    Some(d) => d < tileboard@.len(),
                    None => true,
                },
        decreases tileboard@.len() - index,
    {
        let within = match tileboard[index] {
            Tile::Eel(dest) => (dest as usize) < tileboard.len(),
            Tile::Escalator(dest) => (dest as usize) < tileboard.len(),
            Tile::Normal => true,
        };
        if !within {
            assert(tileboard@[index as int].destination() is Some);
            return false;
        }
        index += 1;
    }
    true
}

/// The smallest index at or after `from` whose tile is of `kind`, if the
/// board has one.
pub open spec fn next_special(board: Seq<Tile>, kind: SpecialKind, from: int) -> Option<int>
    decreases board.len() - from,
{
    if from < 0 || from >= board.len() {
        None
    } else if board[from].is_kind(kind) {
        Some(from)
    } else {
        next_special(board, kind, from + 1)
    }
}

/// `next_special` finds the first tile of the kind at or after `from`: what
/// it returns is such a tile with none of the kind between `from` and it, and
/// it returns nothing exactly when no tile at or after `from` is of the kind.
pub proof fn lemma_next_special_is_first(board: Seq<Tile>, kind: SpecialKind, from: int)
    requires
        0 <= from,
    ensures
        match next_special(board, kind, from) {
            Some(i) => {
                &&& from <= i < board.len()
                &&& board[i].is_kind(kind)
                &&& forall|j: int| from <= j < i ==> !(#[trigger] board[j]).is_kind(kind)
            },
            None => forall|j: int| from <= j < board.len() ==> !(#[trigger] board[j]).is_kind(kind),
        },
    decreases board.len() - from,
{
    if from < board.len() && !board[from].is_kind(kind) {
        lemma_next_special_is_first(board, kind, from + 1);
    }
}

/// Scans the board forward from `start` for the first tile of `kind`.
pub fn find_next_special(tileboard: &[Tile], kind: SpecialKind, start: usize) -> (found: Option<usize>)
    ensures
        match found {
            Some(i) => {
                &&& start <= i < tileboard@.len()
                &&& tileboard@[i as int].is_kind(kind)
                &&& forall|j: int| start <= j < i ==> !(#[trigger] tileboard@[j]).is_kind(kind)
            },
            None => forall|j: int|
                start <= j < tileboard@.len() ==> !(#[trigger] tileboard@[j]).is_kind(kind),
        },
        found matches Some(i) ==> next_special(tileboard@, kind, start as int) == Some(i as int),
        found is None ==> next_special(tileboard@, kind, start as int) is None,
{
    let mut index: usize = start;
    while index < tileboard.len()
        invariant
            start <= index,
            forall|j: int| start <= j < index && j < tileboard@.len() ==> !(#[trigger] tileboard@[j]).is_kind(kind),
            next_special(tileboard@, kind, start as int) == next_special(tileboard@, kind, index as int),
        decreases tileboard@.len() - index,
    {
        if tileboard[index].has_kind(kind) {
            return Some(index);
        }
        index += 1;
    }
    None
}

/// The index of the first eel tile at or after `start`, if there is one.
pub fn find_next_eel(tileboard: &[Tile], start: usize) -> (found: Option<usize>)
    ensures
        match found {
            Some(i) => {
                &&& start <= i < tileboard@.len()
                &&& tileboard@[i as int] is Eel
                &&& forall|j: int| start <= j < i ==> !((#[trigger] tileboard@[j]) is Eel)
            },
            None => forall|j: int| start <= j < tileboard@.len() ==> !((#[trigger] tileboard@[j]) is Eel),
        },
        found matches Some(i) ==> next_special(tileboard@, SpecialKind::Eel, start as int) == Some(i as int),
        found is None ==> next_special(tileboard@, SpecialKind::Eel, start as int) is None,
{
    find_next_special(tileboard, SpecialKind::Eel, start)
}

/// The index of the first escalator tile at or after `start`, if there is one.
pub fn find_next_escalator(tileboard: &[Tile], start: usize) -> (found: Option<usize>)
    ensures
        match found {
            Some(i) => {
                &&& start <= i < tileboard@.len()
                &&& tileboard@[i as int] is Escalator
                &&& forall|j: int| start <= j < i ==> !((#[trigger] tileboard@[j]) is Escalator)
            },
            None => forall|j: int|
                start <= j < tileboard@.len() ==> !((#[trigger] tileboard@[j]) is Escalator),
        },
        found matches Some(i) ==> next_special(tileboard@, SpecialKind::Escalator, start as int) == Some(
            i as int,
        ),
        found is None ==> next_special(tileboard@, SpecialKind::Escalator, start as int) is None,
{
    find_next_special(tileboard, SpecialKind::Escalator, start)
}

} // verus!
