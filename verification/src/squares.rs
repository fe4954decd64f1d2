//! The premium squares of the board.

use vstd::prelude::*;
use crate::table::on_board;

verus! {

/// What a square of the board is marked as.
#[derive(Copy, Clone, Debug, PartialEq, Eq, Structural)]
pub enum Square {
    Center,
    TripleWord,
    DoubleLetter,
    TripleLetter,
    DoubleWord,
    Plain,
}

/// The squares in the corners and in the middle of the edges.
pub open spec fn is_triple_word(row: int, col: int) -> bool {
    (row == 0 || row == 7 || row == 14) && (col == 0 || col == 7 || col == 14) && !(row == 7 && col
        == 7)
}

pub open spec fn is_double_letter(row: int, col: int) -> bool {
    ||| (row == 0 || row == 14) && (col == 3 || col == 11)
    ||| (row == 3 || row == 11) && (col == 0 || col == 7 || col == 14)
    ||| (row == 2 || row == 12) && (col == 6 || col == 8)
    ||| (row == 6 || row == 8) && (col == 2 || col == 6 || col == 8 || col == 12)
    ||| row == 7 && (col == 3 || col == 11)
}

pub open spec fn is_triple_letter(row: int, col: int) -> bool {
    ||| (row == 1 || row == 13) && (col == 5 || col == 9)
    ||| (row == 5 || row == 9) && (col == 1 || col == 5 || col == 9 || col == 13)
}

/// The squares on the two diagonals between the corners and the middle.
pub open spec fn is_double_word(row: int, col: int) -> bool {
    (row == col || row + col == 14) && (1 <= row <= 4 || 10 <= row <= 13)
}

/// The mark of a square. The middle square is the centre; of the others each
/// has at most one mark.
pub open spec fn square_at(row: int, col: int) -> Square {
    if row == 7 && col == 7 {
        Square::Center
    } else if is_triple_word(row, col) {
        Square::TripleWord
    } else if is_double_letter(row, col) {
        Square::DoubleLetter
    } else if is_triple_letter(row, col) {
        Square::TripleLetter
    } else if is_double_word(row, col) {
        Square::DoubleWord
    } else {
        Square::Plain
    }
}

/// The board looks the same from all four sides: the mark of a square is
/// that of its mirror images across the middle row, the middle column and
/// the diagonal.
pub proof fn lemma_square_symmetry(row: int, col: int)
    requires
        on_board(row, col),
    ensures
        square_at(row, col) == square_at(col, row),
        square_at(row, col) == square_at(14 - row, col),
        square_at(row, col) == square_at(row, 14 - col),
{
}

/// The mark of a square of the board.
pub fn square(row: usize, col: usize) -> (mark: Square)
    requires
        on_board(row as int, col as int),
    ensures
        mark == square_at(row as int, col as int),
{
    match (row, col) {
        (7, 7) => Square::Center,
        (0, 0) | (0, 7) | (0, 14) | (7, 0) | (7, 14) | (14, 0) | (14, 7) | (14, 14) => {
            Square::TripleWord
        },
        (0, 3) | (0, 11) | (3, 0) | (3, 14) | (11, 0) | (11, 14) | (14, 3) | (14, 11) | (2, 6)
        | (3, 7) | (2, 8) | (12, 6) | (11, 7) | (12, 8) | (6, 2) | (7, 3) | (8, 2) | (6, 12)
        | (7, 11) | (8, 12) | (8, 8) | (6, 6) | (8, 6) | (6, 8) => Square::DoubleLetter,
        (1, 5) | (1, 9) | (5, 5) | (5, 9) | (9, 5) | (9, 9) | (13, 5) | (13, 9) | (5, 1)
        | (9, 1) | (5, 13) | (9, 13) => Square::TripleLetter,
        (1, 1) | (1, 13) | (13, 1) | (13, 13) | (2, 2) | (2, 12) | (12, 2) | (12, 12) | (11, 3)
        | (11, 11) | (3, 3) | (3, 11) | (10, 4) | (10, 10) | (4, 4) | (4, 10) => {
            Square::DoubleWord
        },
        _ => Square::Plain,
    }
}

} // verus!
