use scrabble::tile::Tile;

#[test]
fn values_of_the_catalogue() {
    assert_eq!(Tile::Blank.get_value(), 0);
    assert_eq!(Tile::E.get_value(), 1);
    assert_eq!(Tile::D.get_value(), 2);
    assert_eq!(Tile::C.get_value(), 3);
    assert_eq!(Tile::H.get_value(), 4);
    assert_eq!(Tile::K.get_value(), 5);
    assert_eq!(Tile::J.get_value(), 8);
    assert_eq!(Tile::X.get_value(), 8);
    assert_eq!(Tile::Q.get_value(), 10);
    assert_eq!(Tile::Z.get_value(), 10);
}

#[test]
fn quantities_of_the_catalogue() {
    assert_eq!(Tile::Blank.get_quantity(), 2);
    assert_eq!(Tile::E.get_quantity(), 12);
    assert_eq!(Tile::A.get_quantity(), 9);
    assert_eq!(Tile::I.get_quantity(), 9);
    assert_eq!(Tile::O.get_quantity(), 8);
    assert_eq!(Tile::N.get_quantity(), 6);
    assert_eq!(Tile::S.get_quantity(), 4);
    assert_eq!(Tile::G.get_quantity(), 3);
    assert_eq!(Tile::Q.get_quantity(), 1);
    assert_eq!(Tile::Z.get_quantity(), 1);
}

#[test]
fn quantities_add_up_to_a_hundred() {
    let total: u32 = Tile::iter().iter().map(|tile| tile.get_quantity() as u32).sum();
    assert_eq!(total, 100);
}

#[test]
fn iter_gives_every_tile_once_in_order() {
    let tiles = Tile::iter();
    assert_eq!(tiles.len(), 27);
    assert_eq!(tiles[0], Tile::A);
    assert_eq!(tiles[4], Tile::E);
    assert_eq!(tiles[25], Tile::Z);
    assert_eq!(tiles[26], Tile::Blank);
    for i in 0..27 {
        for j in 0..i {
            assert_ne!(tiles[i], tiles[j]);
        }
    }
}

#[test]
fn a_character_stands_for_its_letter_in_either_case() {
    assert_eq!(Tile::from('a'), Tile::A);
    assert_eq!(Tile::from('A'), Tile::A);
    assert_eq!(Tile::from('q'), Tile::Q);
    assert_eq!(Tile::from('Z'), Tile::Z);
}

#[test]
fn every_other_character_stands_for_the_blank() {
    assert_eq!(Tile::from(' '), Tile::Blank);
    assert_eq!(Tile::from('7'), Tile::Blank);
    assert_eq!(Tile::from('?'), Tile::Blank);
    assert_eq!(Tile::from('é'), Tile::Blank);
}

#[test]
fn the_label_is_the_capital_letter() {
    let a: &str = (&Tile::A).into();
    let z: &str = (&Tile::Z).into();
    let blank: &str = (&Tile::Blank).into();
    assert_eq!(a, "A");
    assert_eq!(z, "Z");
    assert_eq!(blank, "");
}

#[test]
fn label_and_character_agree() {
    for tile in Tile::iter().iter() {
        let label: &str = tile.into();
        match label.chars().next() {
            Some(c) => assert_eq!(Tile::from(c), *tile),
            None => assert_eq!(*tile, Tile::Blank),
        }
    }
}
