use scrabble::squares::{square, Square};

#[test]
fn marks_of_some_squares() {
    assert_eq!(square(7, 7), Square::Center);
    assert_eq!(square(0, 0), Square::TripleWord);
    assert_eq!(square(7, 14), Square::TripleWord);
    assert_eq!(square(0, 3), Square::DoubleLetter);
    assert_eq!(square(6, 6), Square::DoubleLetter);
    assert_eq!(square(11, 7), Square::DoubleLetter);
    assert_eq!(square(1, 5), Square::TripleLetter);
    assert_eq!(square(9, 13), Square::TripleLetter);
    assert_eq!(square(1, 1), Square::DoubleWord);
    assert_eq!(square(10, 4), Square::DoubleWord);
    assert_eq!(square(0, 1), Square::Plain);
    assert_eq!(square(7, 8), Square::Plain);
}

#[test]
fn how_many_squares_bear_each_mark() {
    let mut counts = [0usize; 6];
    for row in 0..15 {
        for col in 0..15 {
            let i = match square(row, col) {
                Square::Center => 0,
                Square::TripleWord => 1,
                Square::DoubleLetter => 2,
                Square::TripleLetter => 3,
                Square::DoubleWord => 4,
                Square::Plain => 5,
            };
            counts[i] += 1;
        }
    }
    assert_eq!(counts, [1, 8, 24, 12, 16, 164]);
}

#[test]
fn the_board_is_symmetric() {
    for row in 0..15 {
        for col in 0..15 {
            assert_eq!(square(row, col), square(col, row));
            assert_eq!(square(row, col), square(14 - row, col));
            assert_eq!(square(row, col), square(row, 14 - col));
        }
    }
}
