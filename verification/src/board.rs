//! The board: fifteen rows of fifteen cells, and what the player has
//! selected.
//!
//! Every operation here does what the move of the same name does on the
//! [`Table`] made of the board and the rack of the player who moves.

use vstd::prelude::*;
use vstd::multiset::*;
use crate::player::Player;
use crate::table::{grid_tiles, lemma_empty_grid, on_board, SelectedTile, Table, BOARD_SIZE};
use crate::tile::Tile;

verus! {

/// The board and the selection. A cell holds a tile or nothing.
pub struct Board {
    /// The cells by row, then by column.
    pub board: [[Option<Tile>; 15]; 15],
    pub selected_tile: SelectedTile,
}

impl Board {
    /// The cells as the table has them.
    pub open spec fn cells(&self) -> Seq<Seq<Option<Tile>>> {
        Seq::new(BOARD_SIZE as nat, |row: int| self.board[row]@)
    }

    /// The table made of this board and a rack.
    pub open spec fn table(&self, rack: Seq<Tile>) -> Table {
        Table { cells: self.cells(), selection: self.selected_tile, rack }
    }

    /// The table of a board has its fifteen rows of fifteen cells.
    pub proof fn lemma_table_wf(&self, rack: Seq<Tile>)
        ensures
            self.table(rack).wf(),
    {
    }

    /// An empty board with nothing selected.
    pub fn new() -> (board: Board)
        ensures
            forall|row: int, col: int|
                on_board(row, col) ==> (#[trigger] board.cells()[row][col]) is None,
            grid_tiles(board.cells()) == Multiset::<Tile>::empty(),
            board.selected_tile == SelectedTile::Idle,
    {
        let board = Board { board: [[None; 15]; 15], selected_tile: SelectedTile::Idle };
        proof {
            lemma_empty_grid(board.cells());
        }
        board
    }

    /// The cell itself if it holds a tile, and nothing if it is empty.
    pub fn get_board_tile(&self, row: usize, col: usize) -> (cell: Option<(usize, usize)>)
        requires
            on_board(row as int, col as int),
        ensures
            cell == if self.table(Seq::empty()).can_select_board(row as int, col as int) {
                Some((row, col))
            } else {
                None
            },
    {
        match self.board[row][col] {
            Some(_) => Some((row, col)),
            None => None,
        }
    }

    /// The slot itself if the player's rack has it, and nothing if not.
    pub fn get_rack_tile(&self, index: usize, player: &Player) -> (slot: Option<usize>)
        ensures
            slot == if self.table(player.tiles@).can_select_rack(index as int) {
                Some(index)
            } else {
                None
            },
    {
        if index < player.tiles.len() {
            Some(index)
        } else {
            None
        }
    }

    /// Moves the tile of the selected slot of the rack onto the cell, if a
    /// slot is selected and the cell is empty. Else nothing changes.
    pub fn place_tile(&mut self, row: usize, col: usize, player: &mut Player)
        requires
            on_board(row as int, col as int),
        ensures
            final(self).table(final(player).tiles@) == old(self).table(old(player).tiles@).place(
                row as int,
                col as int,
            ),
            final(player).score == old(player).score,
    {
        if let SelectedTile::Rack(selected) = self.selected_tile {
            if selected < player.tiles.len() && self.board[row][col].is_none() {
                let tile = player.tiles.remove(selected);
                self.board[row][col] = Some(tile);
                self.selected_tile = SelectedTile::Idle;
                assert(self.cells() =~~= old(self).table(old(player).tiles@).with_cell(
                    row as int,
                    col as int,
                    Some(tile),
                ).cells);
            }
        }
    }

    /// Moves the tile of the cell to the end of the rack, if the cell holds
    /// one. If that cell was selected, nothing stays selected. Else nothing
    /// changes.
    pub fn remove_tile_from_board(&mut self, row: usize, col: usize, player: &mut Player)
        requires
            on_board(row as int, col as int),
        ensures
            final(self).table(final(player).tiles@) == old(self).table(
                old(player).tiles@,
            ).remove_from_board(row as int, col as int),
            final(player).score == old(player).score,
    {
        if let Some(tile) = self.board[row][col] {
            player.tiles.push(tile);
            self.board[row][col] = None;
            if self.selected_tile == SelectedTile::Board(row, col) {
                self.selected_tile = SelectedTile::Idle;
            }
            assert(self.cells() =~~= old(self).table(old(player).tiles@).with_cell(
                row as int,
                col as int,
                None,
            ).cells);
        }
    }

    /// Exchanges what the selected cell and the given cell hold and selects
    /// the given cell, if a cell is selected and the given cell holds a tile.
    /// Else nothing changes.
    pub fn swap_tile_on_board(&mut self, row: usize, col: usize)
        requires
            on_board(row as int, col as int),
        ensures
            forall|rack: Seq<Tile>| #[trigger]
                final(self).table(rack) == old(self).table(rack).swap_on_board(
                    row as int,
                    col as int,
                ),
    {
        if let SelectedTile::Board(selected_row, selected_col) = self.selected_tile {
            if selected_row < BOARD_SIZE && selected_col < BOARD_SIZE {
                if let Some(tile) = self.board[row][col] {
                    let other = self.board[selected_row][selected_col];
                    self.board[selected_row][selected_col] = Some(tile);
                    self.board[row][col] = other;
                    self.selected_tile = SelectedTile::Board(row, col);
                    assert(self.cells() =~~= old(self).table(Seq::empty()).swap_on_board(
                        row as int,
                        col as int,
                    ).cells);
                }
            }
        }
    }

    /// Exchanges the tiles of the selected slot and the given slot and
    /// selects the given slot, if a slot is selected and the rack has both.
    /// Else nothing changes.
    pub fn swap_tile_on_rack(&mut self, index: usize, player: &mut Player)
        ensures
            final(self).table(final(player).tiles@) == old(self).table(
                old(player).tiles@,
            ).swap_on_rack(index as int),
            final(player).score == old(player).score,
    {
        if let SelectedTile::Rack(selected) = self.selected_tile {
            if selected < player.tiles.len() && index < player.tiles.len() {
                let tile = player.tiles[index];
                let other = player.tiles[selected];
                player.tiles[selected] = tile;
                player.tiles[index] = other;
                self.selected_tile = SelectedTile::Rack(index);
            }
        }
    }
}

impl Board {
    /// What the cell holds.
    pub fn tile_at(&self, row: usize, col: usize) -> (cell: Option<Tile>)
        requires
            on_board(row as int, col as int),
        ensures
            cell == self.cells()[row as int][col as int],
    {
        self.board[row][col]
    }

    /// Whether the cell is the one selected.
    pub fn is_cell_selected(&self, row: usize, col: usize) -> (selected: bool)
        ensures
            selected == (self.selected_tile == SelectedTile::Board(row, col)),
    {
        self.selected_tile == SelectedTile::Board(row, col)
    }

    /// Whether the slot of the rack is the one selected.
    pub fn is_slot_selected(&self, index: usize) -> (selected: bool)
        ensures
            selected == (self.selected_tile == SelectedTile::Rack(index)),
    {
        self.selected_tile == SelectedTile::Rack(index)
    }
}

} // verus!
