//! The game: the bag, the board, the two players and the dictionary.
//!
//! The first player moves. Every move and every click keeps the game well
//! formed: the tiles in the bag, on the racks and on the board are at all
//! times a full set, neither more nor fewer.

use vstd::prelude::*;
use vstd::multiset::*;
use vstd::seq_lib::*;
use rand::rngs::ThreadRng;
use crate::bag::{full_set, initialize, lemma_full_set, TILE_COUNT};
use crate::board::Board;
use crate::dictionary::Dictionary;
use crate::player::{Player, RACK_SIZE};
use crate::screens::Screen;
use crate::table::{on_board, Address, Click, MouseButton, Move, SelectedTile, Table};
use crate::tile::Tile;

verus! {

/// A game in play. The player who moves is the first of `players`.
pub struct Game {
    pub tile_bag: Vec<Tile>,
    pub score: u32,
    pub words: Dictionary,
    pub board: Board,
    pub players: [Player; 2],
    pub screen: Screen,
}

impl Game {
    /// The board and the rack of the player who moves.
    pub open spec fn table(&self) -> Table {
        self.board.table(self.players[0].tiles@)
    }

    /// Every tile of the game: those in the bag, on the board and on the
    /// two racks.
    pub open spec fn tiles(&self) -> Multiset<Tile> {
        self.tile_bag@.to_multiset().add(self.table().tiles()).add(
            self.players[1].tiles@.to_multiset(),
        )
    }

    /// The game is well formed: its tiles are a full set, what is on the
    /// board came from the first player's rack, no rack holds more than
    /// seven tiles, and what is selected is there.
    pub open spec fn wf(&self) -> bool {
        &&& self.tiles() == full_set().to_multiset()
        &&& self.table().occupied() + self.players[0].tiles@.len() <= RACK_SIZE
        &&& self.players[1].tiles@.len() <= RACK_SIZE
        &&& self.table().selection_valid()
    }

    /// Everything but the board, the selection and the first rack is the
    /// same in both games.
    pub open spec fn same_but_table(&self, other: &Game) -> bool {
        &&& self.tile_bag@ == other.tile_bag@
        &&& self.score == other.score
        &&& self.words == other.words
        &&& self.players[0].score == other.players[0].score
        &&& self.players[1] == other.players[1]
        &&& self.screen == other.screen
    }

    /// In a well-formed game the tiles in the bag, on the two racks and on
    /// the board are a hundred.
    pub proof fn lemma_conservation(&self)
        requires
            self.wf(),
        ensures
            self.tile_bag@.len() + self.players[0].tiles@.len() + self.players[1].tiles@.len()
                + self.table().occupied() == TILE_COUNT,
            forall|tile: Tile| #[trigger] self.tiles().count(tile) == tile.quantity(),
            self.players[0].tiles@.len() <= RACK_SIZE,
            self.players[1].tiles@.len() <= RACK_SIZE,
    {
        broadcast use group_to_multiset_ensures;
        lemma_full_set();
        assert(self.tiles().len() == full_set().len());
    }

    /// A game in which only the table changed, and that by a click or by
    /// moves that conserve the tiles, is well formed if it was before.
    pub proof fn lemma_table_change_keeps_wf(&self, after: &Game)
        requires
            self.wf(),
            self.same_but_table(after),
            after.table().tiles() == self.table().tiles(),
            after.table().occupied() + after.table().rack.len() == self.table().occupied()
                + self.table().rack.len(),
            after.table().selection_valid(),
        ensures
            after.wf(),
    {
    }
}

impl Game {
    /// A new game: a full bag, a dictionary of the given words, an empty
    /// board with nothing selected, and both racks filled from the bag.
    pub fn new(words: Vec<String>, rng: &mut ThreadRng) -> (game: Game)
        ensures
            game.wf(),
            game.words@ == words.deep_view().to_set(),
            game.score == 0,
            game.screen == Screen::Start,
            game.board.selected_tile == SelectedTile::Idle,
            forall|row: int, col: int| on_board(row, col) ==> game.table().at(row, col) is None,
            game.players[0].tiles@.len() == RACK_SIZE,
            game.players[1].tiles@.len() == RACK_SIZE,
            game.players[0].score == 0,
            game.players[1].score == 0,
            game.tile_bag@.len() == TILE_COUNT - 2 * RACK_SIZE,
    {
        broadcast use group_to_multiset_ensures;
        let mut tile_bag = initialize();
        let words = Dictionary::from_words(words);
        let mut first = Player::new();
        let mut second = Player::new();
        let _ = first.fill_tiles(&mut tile_bag, rng);
        let ghost bag_between = tile_bag@;
        let _ = second.fill_tiles(&mut tile_bag, rng);
        let board = Board::new();
        let game = Game {
            tile_bag,
            score: 0,
            words,
            board,
            players: [first, second],
            screen: Screen::Start,
        };
        proof {
            assert(first.tiles@.to_multiset().add(bag_between.to_multiset())
                =~= full_set().to_multiset());
            assert(game.tiles() =~= full_set().to_multiset()) by {
                assert forall|tile: Tile|
                    game.tiles().count(tile) == full_set().to_multiset().count(tile) by {
                    assert(second.tiles@.to_multiset().add(tile_bag@.to_multiset()).count(tile)
                        == bag_between.to_multiset().count(tile));
                    assert(first.tiles@.to_multiset().add(bag_between.to_multiset()).count(tile)
                        == full_set().to_multiset().count(tile));
                }
            }
        }
        game
    }

    /// Moves the tile of the selected slot of the first rack onto the cell,
    /// if a slot is selected and the cell is empty.
    pub fn place_tile(&mut self, row: usize, col: usize)
        requires
            on_board(row as int, col as int),
        ensures
            final(self).table() == old(self).table().place(row as int, col as int),
            old(self).same_but_table(final(self)),
            final(self).tiles() == old(self).tiles(),
            old(self).wf() ==> final(self).wf(),
    {
        self.board.place_tile(row, col, &mut self.players[0]);
        proof {
            old(self).table().lemma_step_conserves(Move::Place(row as int, col as int));
            if old(self).wf() {
                old(self).table().lemma_step_keeps_selection_valid(
                    Move::Place(row as int, col as int),
                );
                old(self).lemma_table_change_keeps_wf(self);
            }
        }
    }
}

impl Game {
    /// Selects a slot of the first rack, or drops the selection if that slot
    /// was selected already. A slot that the rack does not have changes
    /// nothing.
    pub fn select_tile_from_rack(&mut self, index: usize)
        ensures
            final(self).table() == old(self).table().select_rack(index as int),
            old(self).same_but_table(final(self)),
            final(self).tiles() == old(self).tiles(),
            old(self).wf() ==> final(self).wf(),
    {
        match self.board.get_rack_tile(index, &self.players[0]) {
            Some(selected) => {
                if self.board.selected_tile == SelectedTile::Rack(selected) {
                    self.board.selected_tile = SelectedTile::Idle;
                } else {
                    self.board.selected_tile = SelectedTile::Rack(selected);
                }
            },
            None => {},
        }
        proof {
            old(self).table().lemma_step_conserves(Move::SelectRack(index as int));
            if old(self).wf() {
                old(self).table().lemma_step_keeps_selection_valid(Move::SelectRack(index as int));
                old(self).lemma_table_change_keeps_wf(self);
            }
        }
    }

    /// Selects a cell that holds a tile, or drops the selection if that cell
    /// was selected already. An empty cell changes nothing.
    pub fn select_tile_from_board(&mut self, row: usize, col: usize)
        requires
            on_board(row as int, col as int),
        ensures
            final(self).table() == old(self).table().select_board(row as int, col as int),
            old(self).same_but_table(final(self)),
            final(self).tiles() == old(self).tiles(),
            old(self).wf() ==> final(self).wf(),
    {
        match self.board.get_board_tile(row, col) {
            Some(selected) => {
                if self.board.selected_tile == SelectedTile::Board(selected.0, selected.1) {
                    self.board.selected_tile = SelectedTile::Idle;
                } else {
                    self.board.selected_tile = SelectedTile::Board(selected.0, selected.1);
                }
            },
            None => {},
        }
        proof {
            old(self).table().lemma_step_conserves(Move::SelectBoard(row as int, col as int));
            if old(self).wf() {
                old(self).table().lemma_step_keeps_selection_valid(
                    Move::SelectBoard(row as int, col as int),
                );
                old(self).lemma_table_change_keeps_wf(self);
            }
        }
    }

    /// Moves the tile of the cell to the end of the first rack, if the cell
    /// holds one. If that cell was selected, nothing stays selected.
    pub fn remove_tile_from_board(&mut self, row: usize, col: usize)
        requires
            on_board(row as int, col as int),
        ensures
            final(self).table() == old(self).table().remove_from_board(row as int, col as int),
            old(self).same_but_table(final(self)),
            final(self).tiles() == old(self).tiles(),
            old(self).wf() ==> final(self).wf(),
    {
        self.board.remove_tile_from_board(row, col, &mut self.players[0]);
        proof {
            old(self).table().lemma_step_conserves(Move::RemoveFromBoard(row as int, col as int));
            if old(self).wf() {
                old(self).table().lemma_step_keeps_selection_valid(
                    Move::RemoveFromBoard(row as int, col as int),
                );
                old(self).lemma_table_change_keeps_wf(self);
            }
        }
    }

    /// Exchanges what the selected cell and the given cell hold and selects
    /// the given cell, if a cell is selected and the given cell holds a tile.
    pub fn swap_tile_on_board(&mut self, row: usize, col: usize)
        requires
            on_board(row as int, col as int),
        ensures
            final(self).table() == old(self).table().swap_on_board(row as int, col as int),
            old(self).same_but_table(final(self)),
            final(self).tiles() == old(self).tiles(),
            final(self).players[0] == old(self).players[0],
            old(self).wf() ==> final(self).wf(),
    {
        self.board.swap_tile_on_board(row, col);
        proof {
            assert(self.board.table(self.players[0].tiles@) == old(self).board.table(
                self.players[0].tiles@,
            ).swap_on_board(row as int, col as int));
            old(self).table().lemma_step_conserves(Move::SwapOnBoard(row as int, col as int));
            if old(self).wf() {
                old(self).table().lemma_step_keeps_selection_valid(
                    Move::SwapOnBoard(row as int, col as int),
                );
                old(self).lemma_table_change_keeps_wf(self);
            }
        }
    }

    /// Exchanges the tiles of the selected slot and the given slot of the
    /// first rack and selects the given slot, if a slot is selected and the
    /// rack has both.
    pub fn swap_tile_on_rack(&mut self, index: usize)
        ensures
            final(self).table() == old(self).table().swap_on_rack(index as int),
            old(self).same_but_table(final(self)),
            final(self).tiles() == old(self).tiles(),
            old(self).wf() ==> final(self).wf(),
    {
        self.board.swap_tile_on_rack(index, &mut self.players[0]);
        proof {
            old(self).table().lemma_step_conserves(Move::SwapOnRack(index as int));
            if old(self).wf() {
                old(self).table().lemma_step_keeps_selection_valid(Move::SwapOnRack(index as int));
                old(self).lemma_table_change_keeps_wf(self);
            }
        }
    }

    /// Answers a click. A left click selects the slot or the occupied cell
    /// it is on, or places the selected tile on the empty cell it is on; a
    /// right click on a cell selects it and takes its tile off the board.
    pub fn handle_movement(&mut self, click: Click)
        requires
            click.at matches Address::Board(row, col) ==> on_board(row as int, col as int),
        ensures
            final(self).table() == old(self).table().click(click),
            old(self).same_but_table(final(self)),
            final(self).tiles() == old(self).tiles(),
            old(self).wf() ==> final(self).wf(),
    {
        proof {
            old(self).table().lemma_left_click(click.at);
            old(self).board.lemma_table_wf(old(self).players[0].tiles@);
            old(self).table().lemma_click_conserves(click);
        }
        match click.button {
            MouseButton::Left => match click.at {
                Address::Rack(index) => {
                    self.select_tile_from_rack(index);
                },
                Address::Board(row, col) => {
                    if self.board.get_board_tile(row, col).is_some() {
                        self.select_tile_from_board(row, col);
                    } else {
                        self.place_tile(row, col);
                    }
                },
            },
            MouseButton::Right => match click.at {
                Address::Rack(_) => {},
                Address::Board(row, col) => {
                    self.select_tile_from_board(row, col);
                    self.remove_tile_from_board(row, col);
                },
            },
        }
    }

    /// One frame of play: the screen moves on, and the click of this frame,
    /// if there was one, is answered.
    pub fn play(&mut self, key_pressed: bool, click: Option<Click>)
        requires
            click matches Some(c) ==> (c.at matches Address::Board(row, col) ==> on_board(
                row as int,
                col as int,
            )),
        ensures
            final(self).screen == old(self).screen.next(key_pressed),
            final(self).table() == match click {
                Some(c) => old(self).table().click(c),
                None => old(self).table(),
            },
            final(self).tile_bag@ == old(self).tile_bag@,
            final(self).score == old(self).score,
            final(self).words == old(self).words,
            final(self).players[0].score == old(self).players[0].score,
            final(self).players[1] == old(self).players[1],
            final(self).tiles() == old(self).tiles(),
            old(self).wf() ==> final(self).wf(),
    {
        self.screen = self.screen.advance(key_pressed);
        match click {
            Some(c) => {
                self.handle_movement(c);
            },
            None => {},
        }
    }
}

} // verus!
