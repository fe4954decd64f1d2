use scrabble::bag::{draw_at, draw_random, initialize, TILE_COUNT};
use scrabble::error::GameError;
use scrabble::player::{Player, RACK_SIZE};
use scrabble::tile::Tile;

fn count(tiles: &[Tile], tile: Tile) -> usize {
    tiles.iter().filter(|t| **t == tile).count()
}

#[test]
fn fresh_bag_composition() {
    let bag = initialize();
    assert_eq!(bag.len(), 100);
    assert_eq!(bag.len(), TILE_COUNT);
    assert_eq!(count(&bag, Tile::Blank), 2);
    assert_eq!(count(&bag, Tile::E), 12);
    assert_eq!(count(&bag, Tile::Q), 1);
    assert_eq!(count(&bag, Tile::Z), 1);
}

#[test]
fn fresh_bag_holds_the_quantity_of_every_tile() {
    let bag = initialize();
    for tile in Tile::iter().iter() {
        assert_eq!(count(&bag, *tile), tile.get_quantity() as usize);
    }
}

#[test]
fn fresh_bag_is_in_catalogue_order() {
    let bag = initialize();
    assert_eq!(bag[0], Tile::A);
    assert_eq!(bag[8], Tile::A);
    assert_eq!(bag[9], Tile::B);
    assert_eq!(bag[98], Tile::Blank);
    assert_eq!(bag[99], Tile::Blank);
}

#[test]
fn draw_at_takes_the_tile_at_the_index() {
    let mut bag = vec![Tile::C, Tile::A, Tile::T];
    let tile = draw_at(&mut bag, 1);
    assert_eq!(tile, Tile::A);
    assert_eq!(bag, vec![Tile::C, Tile::T]);
}

#[test]
fn draw_random_from_an_empty_bag_fails() {
    let mut bag: Vec<Tile> = Vec::new();
    let mut rng = rand::thread_rng();
    assert_eq!(draw_random(&mut bag, &mut rng), Err(GameError::EmptyBag));
    assert!(bag.is_empty());
}

#[test]
fn draw_random_takes_one_tile_of_the_bag() {
    let mut rng = rand::thread_rng();
    for _ in 0..50 {
        let mut bag = vec![Tile::C, Tile::A, Tile::T, Tile::A];
        let drawn = draw_random(&mut bag, &mut rng).unwrap();
        assert_eq!(bag.len(), 3);
        let mut all = bag.clone();
        all.push(drawn);
        assert_eq!(count(&all, Tile::C), 1);
        assert_eq!(count(&all, Tile::A), 2);
        assert_eq!(count(&all, Tile::T), 1);
    }
}

#[test]
fn draw_random_reaches_every_place() {
    let mut rng = rand::thread_rng();
    let mut seen = [false; 3];
    for _ in 0..400 {
        let mut bag = vec![Tile::X, Tile::Y, Tile::Z];
        match draw_random(&mut bag, &mut rng).unwrap() {
            Tile::X => seen[0] = true,
            Tile::Y => seen[1] = true,
            Tile::Z => seen[2] = true,
            _ => unreachable!(),
        }
    }
    assert_eq!(seen, [true, true, true]);
}

#[test]
fn drawing_a_whole_bag_empties_it() {
    let mut bag = initialize();
    let mut rng = rand::thread_rng();
    let mut drawn = Vec::new();
    for _ in 0..100 {
        drawn.push(draw_random(&mut bag, &mut rng).unwrap());
    }
    assert!(bag.is_empty());
    assert_eq!(draw_random(&mut bag, &mut rng), Err(GameError::EmptyBag));
    for tile in Tile::iter().iter() {
        assert_eq!(count(&drawn, *tile), tile.get_quantity() as usize);
    }
}

#[test]
fn fill_tiles_fills_an_empty_rack() {
    let mut bag = initialize();
    let mut rng = rand::thread_rng();
    let mut player = Player::new();
    assert_eq!(player.fill_tiles(&mut bag, &mut rng), Ok(()));
    assert_eq!(player.tiles.len(), 7);
    assert_eq!(player.tiles.len(), RACK_SIZE);
    assert_eq!(bag.len(), 93);
    assert_eq!(player.score, 0);
    let mut all = bag.clone();
    all.extend(player.tiles.iter().copied());
    for tile in Tile::iter().iter() {
        assert_eq!(count(&all, *tile), tile.get_quantity() as usize);
    }
}

#[test]
fn fill_tiles_tops_up_and_keeps_what_was_there() {
    let mut bag = initialize();
    let mut rng = rand::thread_rng();
    let mut player = Player { tiles: vec![Tile::Q, Tile::Z, Tile::Q], score: 12 };
    assert_eq!(player.fill_tiles(&mut bag, &mut rng), Ok(()));
    assert_eq!(player.tiles.len(), 7);
    assert_eq!(&player.tiles[..3], &[Tile::Q, Tile::Z, Tile::Q]);
    assert_eq!(bag.len(), 96);
    assert_eq!(player.score, 12);
}

#[test]
fn fill_tiles_from_a_short_bag_is_partial() {
    let mut bag = vec![Tile::A, Tile::B, Tile::C];
    let mut rng = rand::thread_rng();
    let mut player = Player::new();
    assert_eq!(player.fill_tiles(&mut bag, &mut rng), Err(GameError::EmptyBag));
    assert_eq!(player.tiles.len(), 3);
    assert!(bag.is_empty());
    assert_eq!(count(&player.tiles, Tile::A), 1);
    assert_eq!(count(&player.tiles, Tile::B), 1);
    assert_eq!(count(&player.tiles, Tile::C), 1);
}

#[test]
fn fill_tiles_from_an_empty_bag_changes_nothing() {
    let mut bag: Vec<Tile> = Vec::new();
    let mut rng = rand::thread_rng();
    let mut player = Player { tiles: vec![Tile::A], score: 0 };
    assert_eq!(player.fill_tiles(&mut bag, &mut rng), Err(GameError::EmptyBag));
    assert_eq!(player.tiles, vec![Tile::A]);
}

#[test]
fn fill_tiles_on_a_full_rack_draws_nothing() {
    let mut bag = initialize();
    let mut rng = rand::thread_rng();
    let mut player = Player { tiles: vec![Tile::A; 7], score: 0 };
    assert_eq!(player.fill_tiles(&mut bag, &mut rng), Ok(()));
    assert_eq!(player.tiles, vec![Tile::A; 7]);
    assert_eq!(bag.len(), 100);
}

#[test]
fn new_player_has_nothing() {
    let player = Player::new();
    assert!(player.tiles.is_empty());
    assert_eq!(player.score, 0);
    let other = Player::default();
    assert!(other.tiles.is_empty());
    assert_eq!(other.score, 0);
}

#[test]
fn add_tile_appends() {
    let mut player = Player::new();
    player.add_tile(Tile::C);
    player.add_tile(Tile::A);
    player.add_tile(Tile::T);
    assert_eq!(player.tiles, vec![Tile::C, Tile::A, Tile::T]);
}

#[test]
fn remove_tile_takes_every_copy() {
    let mut player =
        Player { tiles: vec![Tile::A, Tile::B, Tile::A, Tile::C, Tile::A], score: 3 };
    player.remove_tile(Tile::A);
    assert_eq!(player.tiles, vec![Tile::B, Tile::C]);
    assert_eq!(player.score, 3);
    player.remove_tile(Tile::Z);
    assert_eq!(player.tiles, vec![Tile::B, Tile::C]);
}
