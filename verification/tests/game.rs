use scrabble::error::GameError;
use scrabble::game::Game;
use scrabble::screens::Screen;
use scrabble::table::{Address, Click, MouseButton, SelectedTile};
use scrabble::tile::Tile;

fn new_game() -> Game {
    let mut rng = rand::thread_rng();
    Game::new(vec!["cat".to_string(), "dog".to_string()], &mut rng)
}

fn occupied(game: &Game) -> usize {
    let mut n = 0;
    for row in 0..15 {
        for col in 0..15 {
            if game.board.tile_at(row, col).is_some() {
                n += 1;
            }
        }
    }
    n
}

fn total(game: &Game) -> usize {
    game.tile_bag.len() + game.players[0].tiles.len() + game.players[1].tiles.len()
        + occupied(game)
}

fn count(game: &Game, tile: Tile) -> usize {
    let mut n = game.tile_bag.iter().filter(|t| **t == tile).count();
    n += game.players[0].tiles.iter().filter(|t| **t == tile).count();
    n += game.players[1].tiles.iter().filter(|t| **t == tile).count();
    for row in 0..15 {
        for col in 0..15 {
            if game.board.tile_at(row, col) == Some(tile) {
                n += 1;
            }
        }
    }
    n
}

fn left(at: Address) -> Click {
    Click { button: MouseButton::Left, at }
}

fn right(at: Address) -> Click {
    Click { button: MouseButton::Right, at }
}

#[test]
fn a_new_game_holds_a_full_set() {
    let game = new_game();
    assert_eq!(game.tile_bag.len(), 86);
    assert_eq!(game.players[0].tiles.len(), 7);
    assert_eq!(game.players[1].tiles.len(), 7);
    assert_eq!(occupied(&game), 0);
    assert_eq!(total(&game), 100);
    assert_eq!(game.score, 0);
    assert_eq!(game.players[0].score, 0);
    assert_eq!(game.players[1].score, 0);
    assert_eq!(game.screen, Screen::Start);
    assert_eq!(game.board.selected_tile, SelectedTile::Idle);
    for tile in Tile::iter().iter() {
        assert_eq!(count(&game, *tile), tile.get_quantity() as usize);
    }
}

#[test]
fn a_new_game_knows_its_words() {
    let game = new_game();
    assert_eq!(game.words.calculate_score("cat"), Ok(5));
    assert_eq!(game.words.calculate_score("zzq"), Err(GameError::InvalidWord));
}

#[test]
fn selecting_a_slot_twice_leaves_nothing_selected() {
    let mut game = new_game();
    game.select_tile_from_rack(3);
    assert_eq!(game.board.selected_tile, SelectedTile::Rack(3));
    game.select_tile_from_rack(3);
    assert_eq!(game.board.selected_tile, SelectedTile::Idle);
}

#[test]
fn selecting_another_slot_moves_the_selection() {
    let mut game = new_game();
    game.select_tile_from_rack(3);
    game.select_tile_from_rack(5);
    assert_eq!(game.board.selected_tile, SelectedTile::Rack(5));
    game.select_tile_from_rack(5);
    assert_eq!(game.board.selected_tile, SelectedTile::Idle);
}

#[test]
fn selecting_a_slot_that_is_not_there_changes_nothing() {
    let mut game = new_game();
    game.select_tile_from_rack(7);
    assert_eq!(game.board.selected_tile, SelectedTile::Idle);
    game.select_tile_from_rack(2);
    game.select_tile_from_rack(70);
    assert_eq!(game.board.selected_tile, SelectedTile::Rack(2));
}

#[test]
fn selecting_a_cell_twice_leaves_nothing_selected() {
    let mut game = new_game();
    game.select_tile_from_rack(0);
    game.place_tile(7, 7);
    game.select_tile_from_board(7, 7);
    assert_eq!(game.board.selected_tile, SelectedTile::Board(7, 7));
    game.select_tile_from_board(7, 7);
    assert_eq!(game.board.selected_tile, SelectedTile::Idle);
}

#[test]
fn selecting_an_empty_cell_changes_nothing() {
    let mut game = new_game();
    game.select_tile_from_board(7, 7);
    assert_eq!(game.board.selected_tile, SelectedTile::Idle);
    game.select_tile_from_rack(1);
    game.select_tile_from_board(7, 7);
    assert_eq!(game.board.selected_tile, SelectedTile::Rack(1));
}

#[test]
fn placing_takes_the_tile_off_the_first_rack() {
    let mut game = new_game();
    let tile = game.players[0].tiles[2];
    let second = game.players[1].tiles.clone();
    game.select_tile_from_rack(2);
    game.place_tile(7, 7);
    assert_eq!(game.board.tile_at(7, 7), Some(tile));
    assert_eq!(game.players[0].tiles.len(), 6);
    assert_eq!(game.players[1].tiles, second);
    assert_eq!(game.tile_bag.len(), 86);
    assert_eq!(game.board.selected_tile, SelectedTile::Idle);
    assert_eq!(total(&game), 100);
}

#[test]
fn place_then_remove_restores_the_rack() {
    let mut game = new_game();
    let before = game.players[0].tiles.clone();
    game.select_tile_from_rack(0);
    game.place_tile(3, 3);
    game.remove_tile_from_board(3, 3);
    assert_eq!(game.board.tile_at(3, 3), None);
    let mut expected = before[1..].to_vec();
    expected.push(before[0]);
    assert_eq!(game.players[0].tiles, expected);
    assert_eq!(total(&game), 100);
}

#[test]
fn swapping_on_the_board_exchanges_two_tiles() {
    let mut game = new_game();
    let first = game.players[0].tiles[0];
    let second = game.players[0].tiles[1];
    game.select_tile_from_rack(0);
    game.place_tile(1, 1);
    game.select_tile_from_rack(0);
    game.place_tile(2, 2);
    game.select_tile_from_board(1, 1);
    game.swap_tile_on_board(2, 2);
    assert_eq!(game.board.tile_at(1, 1), Some(second));
    assert_eq!(game.board.tile_at(2, 2), Some(first));
    assert_eq!(game.board.selected_tile, SelectedTile::Board(2, 2));
    assert_eq!(occupied(&game), 2);
    assert_eq!(total(&game), 100);
}

#[test]
fn swapping_on_the_rack_exchanges_two_slots() {
    let mut game = new_game();
    let before = game.players[0].tiles.clone();
    game.select_tile_from_rack(1);
    game.swap_tile_on_rack(4);
    assert_eq!(game.players[0].tiles[1], before[4]);
    assert_eq!(game.players[0].tiles[4], before[1]);
    assert_eq!(game.players[0].tiles[0], before[0]);
    assert_eq!(game.board.selected_tile, SelectedTile::Rack(4));
    assert_eq!(total(&game), 100);
}

#[test]
fn a_left_click_on_the_rack_selects() {
    let mut game = new_game();
    let before = game.players[0].tiles.clone();
    game.handle_movement(left(Address::Rack(2)));
    assert_eq!(game.board.selected_tile, SelectedTile::Rack(2));
    game.handle_movement(left(Address::Rack(4)));
    assert_eq!(game.board.selected_tile, SelectedTile::Rack(4));
    assert_eq!(game.players[0].tiles, before);
    game.handle_movement(left(Address::Rack(4)));
    assert_eq!(game.board.selected_tile, SelectedTile::Idle);
    game.handle_movement(left(Address::Rack(9)));
    assert_eq!(game.board.selected_tile, SelectedTile::Idle);
}

#[test]
fn a_left_click_on_an_empty_cell_places() {
    let mut game = new_game();
    let tile = game.players[0].tiles[2];
    game.handle_movement(left(Address::Board(7, 7)));
    assert_eq!(occupied(&game), 0);
    game.handle_movement(left(Address::Rack(2)));
    game.handle_movement(left(Address::Board(7, 7)));
    assert_eq!(game.board.tile_at(7, 7), Some(tile));
    assert_eq!(game.board.selected_tile, SelectedTile::Idle);
    assert_eq!(game.players[0].tiles.len(), 6);
}

#[test]
fn a_left_click_on_an_occupied_cell_selects() {
    let mut game = new_game();
    let first = game.players[0].tiles[0];
    let second = game.players[0].tiles[1];
    game.handle_movement(left(Address::Rack(0)));
    game.handle_movement(left(Address::Board(7, 7)));
    game.handle_movement(left(Address::Rack(0)));
    game.handle_movement(left(Address::Board(7, 8)));
    game.handle_movement(left(Address::Board(7, 7)));
    assert_eq!(game.board.selected_tile, SelectedTile::Board(7, 7));
    game.handle_movement(left(Address::Board(7, 8)));
    assert_eq!(game.board.selected_tile, SelectedTile::Board(7, 8));
    assert_eq!(game.board.tile_at(7, 7), Some(first));
    assert_eq!(game.board.tile_at(7, 8), Some(second));
    game.handle_movement(left(Address::Board(7, 8)));
    assert_eq!(game.board.selected_tile, SelectedTile::Idle);
    game.handle_movement(left(Address::Rack(0)));
    game.handle_movement(left(Address::Board(7, 8)));
    assert_eq!(game.board.selected_tile, SelectedTile::Board(7, 8));
    assert_eq!(game.players[0].tiles.len(), 5);
}

#[test]
fn a_right_click_takes_the_tile_off_the_board() {
    let mut game = new_game();
    let tile = game.players[0].tiles[0];
    game.handle_movement(left(Address::Rack(0)));
    game.handle_movement(left(Address::Board(7, 7)));
    game.handle_movement(right(Address::Board(7, 7)));
    assert_eq!(game.board.tile_at(7, 7), None);
    assert_eq!(game.players[0].tiles.len(), 7);
    assert_eq!(game.players[0].tiles[6], tile);
    assert_eq!(game.board.selected_tile, SelectedTile::Idle);
    assert_eq!(total(&game), 100);
}

#[test]
fn a_right_click_leaves_nothing_selected_whatever_was() {
    let mut game = new_game();
    game.handle_movement(left(Address::Rack(0)));
    game.handle_movement(left(Address::Board(7, 7)));
    game.handle_movement(left(Address::Board(7, 7)));
    assert_eq!(game.board.selected_tile, SelectedTile::Board(7, 7));
    game.handle_movement(right(Address::Board(7, 7)));
    assert_eq!(game.board.selected_tile, SelectedTile::Idle);
    assert_eq!(occupied(&game), 0);
    game.handle_movement(left(Address::Rack(0)));
    game.handle_movement(left(Address::Board(1, 1)));
    game.handle_movement(left(Address::Rack(3)));
    game.handle_movement(right(Address::Board(1, 1)));
    assert_eq!(game.board.selected_tile, SelectedTile::Idle);
    assert_eq!(occupied(&game), 0);
}

#[test]
fn a_right_click_elsewhere_changes_nothing() {
    let mut game = new_game();
    let before = game.players[0].tiles.clone();
    game.handle_movement(left(Address::Rack(1)));
    game.handle_movement(right(Address::Board(7, 7)));
    assert_eq!(game.board.selected_tile, SelectedTile::Rack(1));
    game.handle_movement(right(Address::Rack(1)));
    assert_eq!(game.board.selected_tile, SelectedTile::Rack(1));
    assert_eq!(game.players[0].tiles, before);
    assert_eq!(occupied(&game), 0);
}

#[test]
fn a_long_game_keeps_a_hundred_tiles() {
    let mut game = new_game();
    let clicks = [
        left(Address::Rack(0)),
        left(Address::Board(7, 7)),
        left(Address::Rack(5)),
        left(Address::Board(7, 8)),
        left(Address::Board(7, 7)),
        left(Address::Board(7, 8)),
        right(Address::Board(7, 7)),
        left(Address::Rack(6)),
        left(Address::Rack(2)),
        left(Address::Board(0, 14)),
        right(Address::Board(3, 3)),
        right(Address::Board(0, 14)),
        right(Address::Board(7, 8)),
        left(Address::Rack(20)),
    ];
    for click in clicks {
        game.handle_movement(click);
        assert_eq!(total(&game), 100);
        assert!(game.players[0].tiles.len() <= 7);
        assert_eq!(game.players[1].tiles.len(), 7);
        for tile in Tile::iter().iter() {
            assert_eq!(count(&game, *tile), tile.get_quantity() as usize);
        }
    }
    assert_eq!(occupied(&game), 0);
    assert_eq!(game.players[0].tiles.len(), 7);
}

#[test]
fn play_moves_the_screen_on_and_answers_the_click() {
    let mut game = new_game();
    game.play(false, None);
    assert_eq!(game.screen, Screen::Start);
    game.play(false, Some(left(Address::Rack(1))));
    assert_eq!(game.screen, Screen::Start);
    assert_eq!(game.board.selected_tile, SelectedTile::Rack(1));
    game.play(true, None);
    assert_eq!(game.screen, Screen::Main);
    assert_eq!(game.board.selected_tile, SelectedTile::Rack(1));
    game.play(true, Some(left(Address::Board(7, 7))));
    assert_eq!(game.screen, Screen::Main);
    assert_eq!(occupied(&game), 1);
}

#[test]
fn screens_follow_one_another() {
    assert_eq!(Screen::Start.advance(false), Screen::Start);
    assert_eq!(Screen::Start.advance(true), Screen::Main);
    assert_eq!(Screen::Exit.advance(false), Screen::Exit);
    assert_eq!(Screen::Exit.advance(true), Screen::Main);
    assert_eq!(Screen::Main.advance(false), Screen::Main);
    assert_eq!(Screen::Main.advance(true), Screen::Main);
}
