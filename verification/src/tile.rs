//! The tiles of the game and the catalogue of their values and quantities.

use vstd::prelude::*;

verus! {

/// One of the twenty-six letters, or the blank.
#[derive(Copy, Clone, Debug, PartialEq, Eq, Structural)]
pub enum Tile {
    A, B, C, D, E, F, G,
    H, I, J, K, L, M, N,
    O, P, Q, R, S, T, U,
    V, W, X, Y, Z, Blank,
}

impl Tile {
    /// The points that the tile is worth. The blank is worth nothing,
    /// whatever letter it stands for.
    pub open spec fn value(self) -> nat {
        match self {
            Tile::Blank => 0,
            Tile::A | Tile::E | Tile::I | Tile::L | Tile::N | Tile::O | Tile::R | Tile::S
            | Tile::T | Tile::U => 1,
            Tile::D | Tile::G => 2,
            Tile::B | Tile::C | Tile::M | Tile::P => 3,
            Tile::F | Tile::H | Tile::V | Tile::W | Tile::Y => 4,
            Tile::K => 5,
            Tile::J | Tile::X => 8,
            Tile::Q | Tile::Z => 10,
        }
    }

    /// How many copies of the tile a full set holds.
    pub open spec fn quantity(self) -> nat {
        match self {
            Tile::Z | Tile::X | Tile::Q | Tile::K | Tile::J => 1,
            Tile::Y | Tile::W | Tile::V | Tile::P | Tile::M | Tile::H | Tile::F | Tile::C
            | Tile::B | Tile::Blank => 2,
            Tile::G => 3,
            Tile::U | Tile::S | Tile::L | Tile::D => 4,
            Tile::T | Tile::R | Tile::N => 6,
            Tile::O => 8,
            Tile::I | Tile::A => 9,
            Tile::E => 12,
        }
    }

    /// Every tile once, the letters in alphabetical order and the blank last.
    pub open spec fn all() -> Seq<Tile> {
        seq![
            Tile::A, Tile::B, Tile::C, Tile::D, Tile::E, Tile::F, Tile::G,
            Tile::H, Tile::I, Tile::J, Tile::K, Tile::L, Tile::M, Tile::N,
            Tile::O, Tile::P, Tile::Q, Tile::R, Tile::S, Tile::T, Tile::U,
            Tile::V, Tile::W, Tile::X, Tile::Y, Tile::Z, Tile::Blank,
        ]
    }

    /// The place of the tile in [`Tile::all`].
    pub open spec fn position(self) -> int {
        match self {
            Tile::A => 0,
            Tile::B => 1,
            Tile::C => 2,
            Tile::D => 3,
            Tile::E => 4,
            Tile::F => 5,
            Tile::G => 6,
            Tile::H => 7,
            Tile::I => 8,
            Tile::J => 9,
            Tile::K => 10,
            Tile::L => 11,
            Tile::M => 12,
            Tile::N => 13,
            Tile::O => 14,
            Tile::P => 15,
            Tile::Q => 16,
            Tile::R => 17,
            Tile::S => 18,
            Tile::T => 19,
            Tile::U => 20,
            Tile::V => 21,
            Tile::W => 22,
            Tile::X => 23,
            Tile::Y => 24,
            Tile::Z => 25,
            Tile::Blank => 26,
        }
    }

    /// The tile that a character stands for: its letter in either case, and
    /// the blank for every other character.
    pub open spec fn of_char(c: char) -> Tile {
        match c {
            'a' | 'A' => Tile::A,
            'b' | 'B' => Tile::B,
            'c' | 'C' => Tile::C,
            'd' | 'D' => Tile::D,
            'e' | 'E' => Tile::E,
            'f' | 'F' => Tile::F,
            'g' | 'G' => Tile::G,
            'h' | 'H' => Tile::H,
            'i' | 'I' => Tile::I,
            'j' | 'J' => Tile::J,
            'k' | 'K' => Tile::K,
            'l' | 'L' => Tile::L,
            'm' | 'M' => Tile::M,
            'n' | 'N' => Tile::N,
            'o' | 'O' => Tile::O,
            'p' | 'P' => Tile::P,
            'q' | 'Q' => Tile::Q,
            'r' | 'R' => Tile::R,
            's' | 'S' => Tile::S,
            't' | 'T' => Tile::T,
            'u' | 'U' => Tile::U,
            'v' | 'V' => Tile::V,
            'w' | 'W' => Tile::W,
            'x' | 'X' => Tile::X,
            'y' | 'Y' => Tile::Y,
            'z' | 'Z' => Tile::Z,
            _ => Tile::Blank,
        }
    }

    /// The text printed on the tile: its capital letter, and nothing on the
    /// blank.
    pub open spec fn label(self) -> Seq<char> {
        match self {
            Tile::A => seq!['A'],
            Tile::B => seq!['B'],
            Tile::C => seq!['C'],
            Tile::D => seq!['D'],
            Tile::E => seq!['E'],
            Tile::F => seq!['F'],
            Tile::G => seq!['G'],
            Tile::H => seq!['H'],
            Tile::I => seq!['I'],
            Tile::J => seq!['J'],
            Tile::K => seq!['K'],
            Tile::L => seq!['L'],
            Tile::M => seq!['M'],
            Tile::N => seq!['N'],
            Tile::O => seq!['O'],
            Tile::P => seq!['P'],
            Tile::Q => seq!['Q'],
            Tile::R => seq!['R'],
            Tile::S => seq!['S'],
            Tile::T => seq!['T'],
            Tile::U => seq!['U'],
            Tile::V => seq!['V'],
            Tile::W => seq!['W'],
            Tile::X => seq!['X'],
            Tile::Y => seq!['Y'],
            Tile::Z => seq!['Z'],
            Tile::Blank => Seq::empty(),
        }
    }

    /// The points that the tile is worth.
    pub fn get_value(&self) -> (value: u8)
        ensures
            value == self.value(),
    {
        match self {
            Tile::Blank => 0,
            Tile::A | Tile::E | Tile::I | Tile::L | Tile::N | Tile::O | Tile::R | Tile::S
            | Tile::T | Tile::U => 1,
            Tile::D | Tile::G => 2,
            Tile::B | Tile::C | Tile::M | Tile::P => 3,
            Tile::F | Tile::H | Tile::V | Tile::W | Tile::Y => 4,
            Tile::K => 5,
            Tile::J | Tile::X => 8,
            Tile::Q | Tile::Z => 10,
        }
    }

    /// How many copies of the tile a full set holds.
    pub fn get_quantity(&self) -> (quantity: u8)
        ensures
            quantity == self.quantity(),
    {
        match self {
            Tile::Z | Tile::X | Tile::Q | Tile::K | Tile::J => 1,
            Tile::Y | Tile::W | Tile::V | Tile::P | Tile::M | Tile::H | Tile::F | Tile::C
            | Tile::B | Tile::Blank => 2,
            Tile::G => 3,
            Tile::U | Tile::S | Tile::L | Tile::D => 4,
            Tile::T | Tile::R | Tile::N => 6,
            Tile::O => 8,
            Tile::I | Tile::A => 9,
            Tile::E => 12,
        }
    }

    /// Every tile once, in the order of [`Tile::all`].
    pub fn iter() -> (tiles: [Tile; 27])
        ensures
            tiles@ == Tile::all(),
    {
        let tiles = [
            Tile::A, Tile::B, Tile::C, Tile::D, Tile::E, Tile::F, Tile::G,
            Tile::H, Tile::I, Tile::J, Tile::K, Tile::L, Tile::M, Tile::N,
            Tile::O, Tile::P, Tile::Q, Tile::R, Tile::S, Tile::T, Tile::U,
            Tile::V, Tile::W, Tile::X, Tile::Y, Tile::Z, Tile::Blank,
        ];
        assert(tiles@ =~= Tile::all());
        tiles
    }
}

impl From<char> for Tile {
    fn from(c: char) -> (tile: Tile) {
        match c {
            'a' | 'A' => Tile::A,
            'b' | 'B' => Tile::B,
            'c' | 'C' => Tile::C,
            'd' | 'D' => Tile::D,
            'e' | 'E' => Tile::E,
            'f' | 'F' => Tile::F,
            'g' | 'G' => Tile::G,
            'h' | 'H' => Tile::H,
            'i' | 'I' => Tile::I,
            'j' | 'J' => Tile::J,
            'k' | 'K' => Tile::K,
            'l' | 'L' => Tile::L,
            'm' | 'M' => Tile::M,
            'n' | 'N' => Tile::N,
            'o' | 'O' => Tile::O,
            'p' | 'P' => Tile::P,
            'q' | 'Q' => Tile::Q,
            'r' | 'R' => Tile::R,
            's' | 'S' => Tile::S,
            't' | 'T' => Tile::T,
            'u' | 'U' => Tile::U,
            'v' | 'V' => Tile::V,
            'w' | 'W' => Tile::W,
            'x' | 'X' => Tile::X,
            'y' | 'Y' => Tile::Y,
            'z' | 'Z' => Tile::Z,
            _ => Tile::Blank,
        }
    }
}

impl vstd::std_specs::convert::FromSpecImpl<char> for Tile {
    open spec fn obeys_from_spec() -> bool {
        true
    }

    open spec fn from_spec(c: char) -> Tile {
        Tile::of_char(c)
    }
}

impl<'a> From<&'a Tile> for &'static str {
    fn from(tile: &'a Tile) -> (text: &'static str)
        ensures
            text@ == tile.label(),
    {
        proof {
            reveal_strlit("A");
            reveal_strlit("B");
            reveal_strlit("C");
            reveal_strlit("D");
            reveal_strlit("E");
            reveal_strlit("F");
            reveal_strlit("G");
            reveal_strlit("H");
            reveal_strlit("I");
            reveal_strlit("J");
            reveal_strlit("K");
            reveal_strlit("L");
            reveal_strlit("M");
            reveal_strlit("N");
            reveal_strlit("O");
            reveal_strlit("P");
            reveal_strlit("Q");
            reveal_strlit("R");
            reveal_strlit("S");
            reveal_strlit("T");
            reveal_strlit("U");
            reveal_strlit("V");
            reveal_strlit("W");
            reveal_strlit("X");
            reveal_strlit("Y");
            reveal_strlit("Z");
            reveal_strlit("");
        }
        match tile {
            Tile::A => "A",
            Tile::B => "B",
            Tile::C => "C",
            Tile::D => "D",
            Tile::E => "E",
            Tile::F => "F",
            Tile::G => "G",
            Tile::H => "H",
            Tile::I => "I",
            Tile::J => "J",
            Tile::K => "K",
            Tile::L => "L",
            Tile::M => "M",
            Tile::N => "N",
            Tile::O => "O",
            Tile::P => "P",
            Tile::Q => "Q",
            Tile::R => "R",
            Tile::S => "S",
            Tile::T => "T",
            Tile::U => "U",
            Tile::V => "V",
            Tile::W => "W",
            Tile::X => "X",
            Tile::Y => "Y",
            Tile::Z => "Z",
            Tile::Blank => "",
        }
    }
}

impl<'a> vstd::std_specs::convert::FromSpecImpl<&'a Tile> for &'static str {
    open spec fn obeys_from_spec() -> bool {
        true
    }

    open spec fn from_spec(tile: &'a Tile) -> &'static str {
        match tile {
            Tile::A => "A",
            Tile::B => "B",
            Tile::C => "C",
            Tile::D => "D",
            Tile::E => "E",
            Tile::F => "F",
            Tile::G => "G",
            Tile::H => "H",
            Tile::I => "I",
            Tile::J => "J",
            Tile::K => "K",
            Tile::L => "L",
            Tile::M => "M",
            Tile::N => "N",
            Tile::O => "O",
            Tile::P => "P",
            Tile::Q => "Q",
            Tile::R => "R",
            Tile::S => "S",
            Tile::T => "T",
            Tile::U => "U",
            Tile::V => "V",
            Tile::W => "W",
            Tile::X => "X",
            Tile::Y => "Y",
            Tile::Z => "Z",
            Tile::Blank => "",
        }
    }
}

} // verus!
