//! The rules of selecting, placing, removing and swapping tiles, stated on a
//! mathematical picture of the board and one rack.
//!
//! Every move is a total function on that picture: either its condition
//! holds and it does what it says, or it hands the picture back unchanged.

use vstd::prelude::*;
use vstd::seq_lib::*;
use vstd::multiset::*;
use crate::tile::Tile;

verus! {

/// The number of rows of the board, and of its columns.
pub const BOARD_SIZE: usize = 15;

/// What the player has picked: nothing, a cell of the board by row and
/// column, or a slot of the rack by its place.
#[derive(Debug, Clone, Copy, PartialEq, Eq, Structural)]
pub enum SelectedTile {
    Idle,
    Board(usize, usize),
    Rack(usize),
}

/// Whether row and column name a cell of the board.
pub open spec fn on_board(row: int, col: int) -> bool {
    0 <= row < BOARD_SIZE && 0 <= col < BOARD_SIZE
}

/// The tiles that one cell holds: one or none.
pub open spec fn cell_tiles(cell: Option<Tile>) -> Multiset<Tile> {
    match cell {
        Some(tile) => Multiset::singleton(tile),
        None => Multiset::empty(),
    }
}

/// The tiles that lie in one row of cells.
pub open spec fn row_tiles(row: Seq<Option<Tile>>) -> Multiset<Tile>
    decreases row.len(),
{
    if row.len() == 0 {
        Multiset::empty()
    } else {
        row_tiles(row.drop_last()).add(cell_tiles(row.last()))
    }
}

/// The tiles that lie in a grid of cells.
pub open spec fn grid_tiles(cells: Seq<Seq<Option<Tile>>>) -> Multiset<Tile>
    decreases cells.len(),
{
    if cells.len() == 0 {
        Multiset::empty()
    } else {
        grid_tiles(cells.drop_last()).add(row_tiles(cells.last()))
    }
}

/// The board, what is selected, and the rack of the player who moves.
pub struct Table {
    /// The cells by row, then by column.
    pub cells: Seq<Seq<Option<Tile>>>,
    pub selection: SelectedTile,
    pub rack: Seq<Tile>,
}

impl Table {
    /// The board has its fifteen rows of fifteen cells.
    pub open spec fn wf(self) -> bool {
        &&& self.cells.len() == BOARD_SIZE
        &&& forall|row: int| 0 <= row < BOARD_SIZE ==> (#[trigger] self.cells[row]).len() == BOARD_SIZE
    }

    /// What is selected is there: a selected cell lies on the board and
    /// holds a tile, a selected slot is a slot of the rack.
    pub open spec fn selection_valid(self) -> bool {
        match self.selection {
            SelectedTile::Idle => true,
            SelectedTile::Board(row, col) => on_board(row as int, col as int) && self.at(
                row as int,
                col as int,
            ) is Some,
            SelectedTile::Rack(index) => index < self.rack.len(),
        }
    }

    /// What the cell holds.
    pub open spec fn at(self, row: int, col: int) -> Option<Tile> {
        self.cells[row][col]
    }

    /// The table with one cell changed.
    pub open spec fn with_cell(self, row: int, col: int, cell: Option<Tile>) -> Table {
        Table { cells: self.cells.update(row, self.cells[row].update(col, cell)), ..self }
    }

    /// The tiles on the board.
    pub open spec fn board_tiles(self) -> Multiset<Tile> {
        grid_tiles(self.cells)
    }

    /// How many cells of the board hold a tile.
    pub open spec fn occupied(self) -> nat {
        self.board_tiles().len()
    }

    /// The tiles on the board and on the rack together.
    pub open spec fn tiles(self) -> Multiset<Tile> {
        self.board_tiles().add(self.rack.to_multiset())
    }

    /// A slot can be selected when the rack has it.
    pub open spec fn can_select_rack(self, index: int) -> bool {
        0 <= index < self.rack.len()
    }

    /// A cell can be selected when it holds a tile.
    pub open spec fn can_select_board(self, row: int, col: int) -> bool {
        on_board(row, col) && self.at(row, col) is Some
    }

    /// A tile can be placed on an empty cell when a slot of the rack is
    /// selected.
    pub open spec fn can_place(self, row: int, col: int) -> bool {
        &&& on_board(row, col)
        &&& self.at(row, col) is None
        &&& self.selection matches SelectedTile::Rack(index)
        &&& index < self.rack.len()
    }

    /// A tile can be taken off a cell that holds one, whatever is selected.
    pub open spec fn can_remove(self, row: int, col: int) -> bool {
        on_board(row, col) && self.at(row, col) is Some
    }

    /// The selected cell can change places with a cell that holds a tile.
    pub open spec fn can_swap_on_board(self, row: int, col: int) -> bool {
        &&& on_board(row, col)
        &&& self.at(row, col) is Some
        &&& self.selection matches SelectedTile::Board(selected_row, selected_col)
        &&& on_board(selected_row as int, selected_col as int)
    }

    /// The selected slot can change places with another slot of the rack.
    pub open spec fn can_swap_on_rack(self, index: int) -> bool {
        &&& 0 <= index < self.rack.len()
        &&& self.selection matches SelectedTile::Rack(selected)
        &&& selected < self.rack.len()
    }

    /// Selects a slot of the rack, or drops the selection if that slot was
    /// selected already.
    pub open spec fn select_rack(self, index: int) -> Table {
        if self.can_select_rack(index) {
            if self.selection == SelectedTile::Rack(index as usize) {
                Table { selection: SelectedTile::Idle, ..self }
            } else {
                Table { selection: SelectedTile::Rack(index as usize), ..self }
            }
        } else {
            self
        }
    }

    /// Selects a cell that holds a tile, or drops the selection if that cell
    /// was selected already.
    pub open spec fn select_board(self, row: int, col: int) -> Table {
        if self.can_select_board(row, col) {
            if self.selection == SelectedTile::Board(row as usize, col as usize) {
                Table { selection: SelectedTile::Idle, ..self }
            } else {
                Table { selection: SelectedTile::Board(row as usize, col as usize), ..self }
            }
        } else {
            self
        }
    }

    /// Moves the tile of the selected slot onto an empty cell. The tile
    /// leaves the rack, and nothing stays selected.
    pub open spec fn place(self, row: int, col: int) -> Table {
        if self.can_place(row, col) {
            let index = self.selection->Rack_0 as int;
            Table {
                cells: self.with_cell(row, col, Some(self.rack[index])).cells,
                selection: SelectedTile::Idle,
                rack: self.rack.remove(index),
            }
        } else {
            self
        }
    }

    /// Moves the tile of a cell to the end of the rack. If that cell was
    /// selected nothing stays selected; any other selection stays.
    pub open spec fn remove_from_board(self, row: int, col: int) -> Table {
        if self.can_remove(row, col) {
            Table {
                cells: self.with_cell(row, col, None).cells,
                selection: if self.selection == SelectedTile::Board(row as usize, col as usize) {
                    SelectedTile::Idle
                } else {
                    self.selection
                },
                rack: self.rack.push(self.at(row, col)->Some_0),
            }
        } else {
            self
        }
    }

    /// Exchanges what the selected cell and the given cell hold, and selects
    /// the given cell.
    pub open spec fn swap_on_board(self, row: int, col: int) -> Table {
        if self.can_swap_on_board(row, col) {
            let selected_row = self.selection->Board_0 as int;
            let selected_col = self.selection->Board_1 as int;
            Table {
                cells: self.with_cell(selected_row, selected_col, self.at(row, col)).with_cell(
                    row,
                    col,
                    self.at(selected_row, selected_col),
                ).cells,
                selection: SelectedTile::Board(row as usize, col as usize),
                rack: self.rack,
            }
        } else {
            self
        }
    }

    /// Exchanges the tiles of the selected slot and the given slot, and
    /// selects the given slot.
    pub open spec fn swap_on_rack(self, index: int) -> Table {
        if self.can_swap_on_rack(index) {
            let selected = self.selection->Rack_0 as int;
            Table {
                cells: self.cells,
                selection: SelectedTile::Rack(index as usize),
                rack: self.rack.update(selected, self.rack[index]).update(
                    index,
                    self.rack[selected],
                ),
            }
        } else {
            self
        }
    }
}

/// Changing one cell of a row takes out what the cell held and puts in what
/// it holds now.
pub proof fn lemma_row_update(row: Seq<Option<Tile>>, col: int, cell: Option<Tile>)
    requires
        0 <= col < row.len(),
    ensures
        row_tiles(row.update(col, cell)).add(cell_tiles(row[col])) == row_tiles(row).add(
            cell_tiles(cell),
        ),
    decreases row.len(),
{
    let changed = row.update(col, cell);
    let rest = row_tiles(row.drop_last());
    assert(row_tiles(row) == rest.add(cell_tiles(row.last())));
    if col == row.len() - 1 {
        assert(changed.drop_last() =~= row.drop_last());
        assert(row_tiles(changed) == rest.add(cell_tiles(cell)));
    } else {
        lemma_row_update(row.drop_last(), col, cell);
        assert(changed.drop_last() =~= row.drop_last().update(col, cell));
        assert(row_tiles(changed) == row_tiles(changed.drop_last()).add(cell_tiles(row.last())));
        assert forall|tile: Tile|
            row_tiles(changed).add(cell_tiles(row[col])).count(tile) == row_tiles(row).add(
                cell_tiles(cell),
            ).count(tile) by {
            assert(row_tiles(changed.drop_last()).add(cell_tiles(row[col])).count(tile)
                == rest.add(cell_tiles(cell)).count(tile));
        }
    }
    assert(row_tiles(changed).add(cell_tiles(row[col])) =~= row_tiles(row).add(cell_tiles(cell)));
}

/// Changing one row of a grid takes out what the row held and puts in what
/// it holds now.
pub proof fn lemma_grid_update(
    cells: Seq<Seq<Option<Tile>>>,
    row: int,
    new_row: Seq<Option<Tile>>,
)
    requires
        0 <= row < cells.len(),
    ensures
        grid_tiles(cells.update(row, new_row)).add(row_tiles(cells[row])) == grid_tiles(cells).add(
            row_tiles(new_row),
        ),
    decreases cells.len(),
{
    let changed = cells.update(row, new_row);
    let rest = grid_tiles(cells.drop_last());
    assert(grid_tiles(cells) == rest.add(row_tiles(cells.last())));
    if row == cells.len() - 1 {
        assert(changed.drop_last() =~= cells.drop_last());
        assert(grid_tiles(changed) == rest.add(row_tiles(new_row)));
    } else {
        lemma_grid_update(cells.drop_last(), row, new_row);
        assert(changed.drop_last() =~= cells.drop_last().update(row, new_row));
        assert(grid_tiles(changed) == grid_tiles(changed.drop_last()).add(
            row_tiles(cells.last()),
        ));
        assert forall|tile: Tile|
            grid_tiles(changed).add(row_tiles(cells[row])).count(tile) == grid_tiles(cells).add(
                row_tiles(new_row),
            ).count(tile) by {
            assert(grid_tiles(changed.drop_last()).add(row_tiles(cells[row])).count(tile)
                == rest.add(row_tiles(new_row)).count(tile));
        }
    }
    assert(grid_tiles(changed).add(row_tiles(cells[row])) =~= grid_tiles(cells).add(
        row_tiles(new_row),
    ));
}

/// A grid of empty cells holds no tile.
pub proof fn lemma_empty_grid(cells: Seq<Seq<Option<Tile>>>)
    requires
        forall|row: int, col: int|
            0 <= row < cells.len() && 0 <= col < cells[row].len() ==> (#[trigger] cells[row][col])
                is None,
    ensures
        grid_tiles(cells) == Multiset::<Tile>::empty(),
    decreases cells.len(),
{
    if cells.len() > 0 {
        lemma_empty_grid(cells.drop_last());
        lemma_empty_row(cells.last());
    }
}

proof fn lemma_empty_row(row: Seq<Option<Tile>>)
    requires
        forall|col: int| 0 <= col < row.len() ==> (#[trigger] row[col]) is None,
    ensures
        row_tiles(row) == Multiset::<Tile>::empty(),
    decreases row.len(),
{
    if row.len() > 0 {
        lemma_empty_row(row.drop_last());
    }
}

impl Table {
    /// Changing one cell of the board takes out the tile that the cell held
    /// and puts in the tile that it holds now.
    pub proof fn lemma_with_cell(self, row: int, col: int, cell: Option<Tile>)
        requires
            self.wf(),
            on_board(row, col),
        ensures
            self.with_cell(row, col, cell).wf(),
            self.with_cell(row, col, cell).at(row, col) == cell,
            forall|r: int, c: int|
                on_board(r, c) && (r != row || c != col) ==> self.with_cell(row, col, cell).at(r, c)
                    == self.at(r, c),
            self.with_cell(row, col, cell).board_tiles().add(cell_tiles(self.at(row, col)))
                == self.board_tiles().add(cell_tiles(cell)),
    {
        let new_row = self.cells[row].update(col, cell);
        lemma_row_update(self.cells[row], col, cell);
        lemma_grid_update(self.cells, row, new_row);
        let before = self.board_tiles();
        let after = self.with_cell(row, col, cell).board_tiles();
        assert(after.add(row_tiles(self.cells[row])).add(cell_tiles(self.at(row, col)))
            =~= before.add(row_tiles(new_row)).add(cell_tiles(self.at(row, col))));
        assert(after.add(cell_tiles(self.at(row, col))) =~= before.add(cell_tiles(cell))) by {
            assert forall|tile: Tile|
                after.add(cell_tiles(self.at(row, col))).count(tile) == before.add(
                    cell_tiles(cell),
                ).count(tile) by {
                assert(after.add(row_tiles(self.cells[row])).add(
                    cell_tiles(self.at(row, col)),
                ).count(tile) == before.add(row_tiles(new_row)).add(
                    cell_tiles(self.at(row, col)),
                ).count(tile));
                assert(row_tiles(new_row).add(cell_tiles(self.at(row, col))).count(tile)
                    == row_tiles(self.cells[row]).add(cell_tiles(cell)).count(tile));
            }
        }
    }
}

/// One move of the player.
pub enum Move {
    SelectRack(int),
    SelectBoard(int, int),
    Place(int, int),
    RemoveFromBoard(int, int),
    SwapOnBoard(int, int),
    SwapOnRack(int),
}

impl Table {
    /// The table after a move.
    pub open spec fn step(self, m: Move) -> Table {
        match m {
            Move::SelectRack(index) => self.select_rack(index),
            Move::SelectBoard(row, col) => self.select_board(row, col),
            Move::Place(row, col) => self.place(row, col),
            Move::RemoveFromBoard(row, col) => self.remove_from_board(row, col),
            Move::SwapOnBoard(row, col) => self.swap_on_board(row, col),
            Move::SwapOnRack(index) => self.swap_on_rack(index),
        }
    }

    /// No move loses, makes or copies a tile: board and rack together hold
    /// after the move what they held before it, and so as many tiles.
    pub proof fn lemma_step_conserves(self, m: Move)
        requires
            self.wf(),
        ensures
            self.step(m).wf(),
            self.step(m).tiles() == self.tiles(),
            self.step(m).occupied() + self.step(m).rack.len() == self.occupied() + self.rack.len(),
    {
        broadcast use group_to_multiset_ensures;
        let after = self.step(m);
        match m {
            Move::SelectRack(index) => {},
            Move::SelectBoard(row, col) => {},
            Move::Place(row, col) => {
                if self.can_place(row, col) {
                    let index = self.selection->Rack_0 as int;
                    let tile = self.rack[index];
                    self.lemma_with_cell(row, col, Some(tile));
                    assert(self.rack.to_multiset().count(tile) > 0) by {
                        assert(self.rack.contains(tile));
                    }
                    to_multiset_remove(self.rack, index);
                    assert forall|t: Tile| after.tiles().count(t) == self.tiles().count(t) by {
                        assert(after.board_tiles().add(cell_tiles(None)).count(t)
                            == self.board_tiles().add(cell_tiles(Some(tile))).count(t));
                    }
                    assert(after.tiles() =~= self.tiles());
                }
            },
            Move::RemoveFromBoard(row, col) => {
                if self.can_remove(row, col) {
                    let tile = self.at(row, col)->Some_0;
                    self.lemma_with_cell(row, col, None);
                    to_multiset_build(self.rack, tile);
                    assert forall|t: Tile| after.tiles().count(t) == self.tiles().count(t) by {
                        assert(after.board_tiles().add(cell_tiles(Some(tile))).count(t)
                            == self.board_tiles().add(cell_tiles(None)).count(t));
                    }
                    assert(after.tiles() =~= self.tiles());
                }
            },
            Move::SwapOnBoard(row, col) => {
                if self.can_swap_on_board(row, col) {
                    let selected_row = self.selection->Board_0 as int;
                    let selected_col = self.selection->Board_1 as int;
                    let mid = self.with_cell(selected_row, selected_col, self.at(row, col));
                    self.lemma_with_cell(selected_row, selected_col, self.at(row, col));
                    mid.lemma_with_cell(row, col, self.at(selected_row, selected_col));
                    assert forall|t: Tile| after.tiles().count(t) == self.tiles().count(t) by {
                        assert(mid.board_tiles().add(
                            cell_tiles(self.at(selected_row, selected_col)),
                        ).count(t) == self.board_tiles().add(cell_tiles(self.at(row, col))).count(
                            t,
                        ));
                        assert(after.board_tiles().add(cell_tiles(mid.at(row, col))).count(t)
                            == mid.board_tiles().add(
                            cell_tiles(self.at(selected_row, selected_col)),
                        ).count(t));
                    }
                    assert(after.tiles() =~= self.tiles());
                }
            },
            Move::SwapOnRack(index) => {
                if self.can_swap_on_rack(index) {
                    let selected = self.selection->Rack_0 as int;
                    lemma_swap_keeps_tiles(self.rack, selected, index);
                }
            },
        }
        assert(after.tiles().len() == self.tiles().len());
    }

    /// A move leaves the selection on something that is there, if it was
    /// before.
    pub proof fn lemma_step_keeps_selection_valid(self, m: Move)
        requires
            self.wf(),
            self.selection_valid(),
        ensures
            self.step(m).selection_valid(),
    {
        match m {
            Move::Place(row, col) => {
                if self.can_place(row, col) {
                    self.lemma_with_cell(row, col, Some(self.rack[self.selection->Rack_0 as int]));
                }
            },
            Move::RemoveFromBoard(row, col) => {
                if self.can_remove(row, col) {
                    self.lemma_with_cell(row, col, None);
                }
            },
            Move::SwapOnBoard(row, col) => {
                if self.can_swap_on_board(row, col) {
                    let selected_row = self.selection->Board_0 as int;
                    let selected_col = self.selection->Board_1 as int;
                    let mid = self.with_cell(selected_row, selected_col, self.at(row, col));
                    self.lemma_with_cell(selected_row, selected_col, self.at(row, col));
                    mid.lemma_with_cell(row, col, self.at(selected_row, selected_col));
                }
            },
            _ => {},
        }
    }

    /// Selecting a slot twice in a row leaves nothing selected, unless that
    /// very slot was selected to begin with.
    pub proof fn lemma_select_rack_twice(self, index: int)
        requires
            self.can_select_rack(index),
            self.selection != SelectedTile::Rack(index as usize),
        ensures
            self.select_rack(index).select_rack(index) == (Table {
                selection: SelectedTile::Idle,
                ..self
            }),
    {
    }

    /// Selecting a cell twice in a row leaves nothing selected, unless that
    /// very cell was selected to begin with.
    pub proof fn lemma_select_board_twice(self, row: int, col: int)
        requires
            self.can_select_board(row, col),
            self.selection != SelectedTile::Board(row as usize, col as usize),
        ensures
            self.select_board(row, col).select_board(row, col) == (Table {
                selection: SelectedTile::Idle,
                ..self
            }),
    {
    }

    /// Placing changes nothing unless a slot of the rack is selected and the
    /// cell is empty.
    pub proof fn lemma_place_guard(self, row: int, col: int)
        ensures
            !(self.selection is Rack) || self.at(row, col) is Some ==> self.place(row, col)
                == self,
    {
    }

    /// A swap on the board changes the two cells it names and no other, and
    /// leaves the rack alone.
    pub proof fn lemma_swap_on_board_exact(self, row: int, col: int)
        requires
            self.wf(),
            self.can_swap_on_board(row, col),
        ensures
            self.swap_on_board(row, col).at(row, col) == self.at(
                self.selection->Board_0 as int,
                self.selection->Board_1 as int,
            ),
            self.swap_on_board(row, col).at(
                self.selection->Board_0 as int,
                self.selection->Board_1 as int,
            ) == self.at(row, col),
            forall|r: int, c: int|
                on_board(r, c) && (r != row || c != col) && (r != self.selection->Board_0 || c
                    != self.selection->Board_1) ==> self.swap_on_board(row, col).at(r, c)
                    == self.at(r, c),
            self.swap_on_board(row, col).rack == self.rack,
    {
        let selected_row = self.selection->Board_0 as int;
        let selected_col = self.selection->Board_1 as int;
        let mid = self.with_cell(selected_row, selected_col, self.at(row, col));
        self.lemma_with_cell(selected_row, selected_col, self.at(row, col));
        mid.lemma_with_cell(row, col, self.at(selected_row, selected_col));
    }

    /// Placing a tile on an empty cell and taking it off at once leaves the
    /// board as it was and the rack with the tiles it had: the tile that
    /// went out comes back at the end of the rack.
    pub proof fn lemma_place_then_remove(self, row: int, col: int)
        requires
            self.wf(),
            on_board(row, col),
            self.at(row, col) is None,
        ensures
            self.place(row, col).remove_from_board(row, col).cells == self.cells,
            self.place(row, col).remove_from_board(row, col).at(row, col) is None,
            self.place(row, col).remove_from_board(row, col).rack.to_multiset()
                == self.rack.to_multiset(),
            self.can_place(row, col) ==> self.place(row, col).remove_from_board(row, col).rack
                == self.rack.remove(self.selection->Rack_0 as int).push(
                self.rack[self.selection->Rack_0 as int],
            ),
            !self.can_place(row, col) ==> self.place(row, col).remove_from_board(row, col) == self,
    {
        broadcast use group_to_multiset_ensures;
        if self.can_place(row, col) {
            let index = self.selection->Rack_0 as int;
            let tile = self.rack[index];
            let placed = self.place(row, col);
            let back = placed.remove_from_board(row, col);
            self.lemma_with_cell(row, col, Some(tile));
            assert(placed.at(row, col) == Some(tile));
            assert(back.cells =~~= self.cells) by {
                assert(back.cells[row] =~= self.cells[row]);
            }
            to_multiset_build(self.rack.remove(index), tile);
            assert(self.rack.to_multiset().count(tile) > 0) by {
                assert(self.rack.contains(tile));
            }
            assert(back.rack.to_multiset() =~= self.rack.to_multiset());
        }
    }
}

/// Exchanging two tiles of a rack leaves the rack with the tiles it had.
pub proof fn lemma_swap_keeps_tiles(rack: Seq<Tile>, i: int, j: int)
    requires
        0 <= i < rack.len(),
        0 <= j < rack.len(),
    ensures
        rack.update(i, rack[j]).update(j, rack[i]).to_multiset() == rack.to_multiset(),
{
    broadcast use group_to_multiset_ensures;
    let swapped = rack.update(i, rack[j]).update(j, rack[i]);
    to_multiset_update(rack, i, rack[j]);
    to_multiset_update(rack.update(i, rack[j]), j, rack[i]);
    assert(swapped.to_multiset() =~= rack.to_multiset());
}

/// A button of the pointer.
#[derive(Debug, Clone, Copy, PartialEq, Eq, Structural)]
pub enum MouseButton {
    Left,
    Right,
}

/// What the pointer is on: a cell of the board by row and column, whether
/// or not it holds a tile, or a place in the row of rack slots.
#[derive(Debug, Clone, Copy, PartialEq, Eq, Structural)]
pub enum Address {
    Board(usize, usize),
    Rack(usize),
}

/// One press of a button on an address.
#[derive(Debug, Clone, Copy, PartialEq, Eq, Structural)]
pub struct Click {
    pub button: MouseButton,
    pub at: Address,
}

impl Table {
    /// A left click tries to select a slot, to select a cell, to place, to
    /// swap on the board and to swap on the rack, in this order, and does
    /// the first of them whose condition holds.
    pub open spec fn left_click(self, at: Address) -> Table {
        match at {
            Address::Rack(index) => {
                if self.can_select_rack(index as int) {
                    self.select_rack(index as int)
                } else if self.can_swap_on_rack(index as int) {
                    self.swap_on_rack(index as int)
                } else {
                    self
                }
            },
            Address::Board(row, col) => {
                if self.can_select_board(row as int, col as int) {
                    self.select_board(row as int, col as int)
                } else if self.can_place(row as int, col as int) {
                    self.place(row as int, col as int)
                } else if self.can_swap_on_board(row as int, col as int) {
                    self.swap_on_board(row as int, col as int)
                } else {
                    self
                }
            },
        }
    }

    /// A right click on a cell selects the cell and then takes its tile off
    /// the board. On the rack it does nothing.
    pub open spec fn right_click(self, at: Address) -> Table {
        match at {
            Address::Rack(_) => self,
            Address::Board(row, col) => self.select_board(row as int, col as int).remove_from_board(
                row as int,
                col as int,
            ),
        }
    }

    /// The table after a click.
    pub open spec fn click(self, click: Click) -> Table {
        match click.button {
            MouseButton::Left => self.left_click(click.at),
            MouseButton::Right => self.right_click(click.at),
        }
    }

    /// A click is a move or two, so it loses, makes or copies no tile and
    /// leaves the selection on something that is there.
    pub proof fn lemma_click_conserves(self, click: Click)
        requires
            self.wf(),
        ensures
            self.click(click).wf(),
            self.click(click).tiles() == self.tiles(),
            self.click(click).occupied() + self.click(click).rack.len() == self.occupied()
                + self.rack.len(),
            self.selection_valid() ==> self.click(click).selection_valid(),
    {
        match click.at {
            Address::Rack(index) => {
                self.lemma_step_conserves(Move::SelectRack(index as int));
                self.lemma_step_conserves(Move::SwapOnRack(index as int));
                if self.selection_valid() {
                    self.lemma_step_keeps_selection_valid(Move::SelectRack(index as int));
                    self.lemma_step_keeps_selection_valid(Move::SwapOnRack(index as int));
                }
            },
            Address::Board(row, col) => {
                let selected = self.select_board(row as int, col as int);
                self.lemma_step_conserves(Move::SelectBoard(row as int, col as int));
                self.lemma_step_conserves(Move::Place(row as int, col as int));
                self.lemma_step_conserves(Move::SwapOnBoard(row as int, col as int));
                selected.lemma_step_conserves(Move::RemoveFromBoard(row as int, col as int));
                if self.selection_valid() {
                    self.lemma_step_keeps_selection_valid(
                        Move::SelectBoard(row as int, col as int),
                    );
                    self.lemma_step_keeps_selection_valid(Move::Place(row as int, col as int));
                    self.lemma_step_keeps_selection_valid(
                        Move::SwapOnBoard(row as int, col as int),
                    );
                    selected.lemma_step_keeps_selection_valid(
                        Move::RemoveFromBoard(row as int, col as int),
                    );
                }
            },
        }
    }

    /// A left click on an occupied cell or on a slot of the rack always
    /// selects, so it never swaps: on an address that is there it selects,
    /// or places on an empty cell, or does nothing.
    pub proof fn lemma_left_click(self, at: Address)
        ensures
            at matches Address::Rack(index) ==> self.left_click(at) == self.select_rack(
                index as int,
            ),
            at matches Address::Board(row, col) ==> self.left_click(at) == if self.can_select_board(
                row as int,
                col as int,
            ) {
                self.select_board(row as int, col as int)
            } else {
                self.place(row as int, col as int)
            },
    {
    }

    /// A right click on a cell that holds a tile moves the tile to the end
    /// of the rack and leaves nothing selected; on an empty cell it changes
    /// nothing.
    pub proof fn lemma_right_click(self, row: usize, col: usize)
        requires
            self.wf(),
            on_board(row as int, col as int),
        ensures
            self.at(row as int, col as int) is None ==> self.right_click(Address::Board(row, col))
                == self,
            self.at(row as int, col as int) is Some ==> self.right_click(Address::Board(row, col))
                == (Table {
                selection: SelectedTile::Idle,
                ..self.remove_from_board(row as int, col as int)
            }),
    {
    }
}

impl Table {
    /// The table after a run of moves, the first of the sequence first.
    pub open spec fn run(self, moves: Seq<Move>) -> Table
        decreases moves.len(),
    {
        if moves.len() == 0 {
            self
        } else {
            self.run(moves.drop_last()).step(moves.last())
        }
    }

    /// Whatever the player does, in any order and however often, board and
    /// rack together go on holding the tiles they held at the start, and
    /// the selection stays on something that is there.
    pub proof fn lemma_run_conserves(self, moves: Seq<Move>)
        requires
            self.wf(),
        ensures
            self.run(moves).wf(),
            self.run(moves).tiles() == self.tiles(),
            self.run(moves).occupied() + self.run(moves).rack.len() == self.occupied()
                + self.rack.len(),
            self.selection_valid() ==> self.run(moves).selection_valid(),
        decreases moves.len(),
    {
        if moves.len() > 0 {
            let before = self.run(moves.drop_last());
            self.lemma_run_conserves(moves.drop_last());
            before.lemma_step_conserves(moves.last());
            if self.selection_valid() {
                before.lemma_step_keeps_selection_valid(moves.last());
            }
        }
    }
}

} // verus!
