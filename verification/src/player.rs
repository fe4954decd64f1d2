//! A player: the rack of tiles in hand, and the score.

use vstd::prelude::*;
use vstd::seq_lib::*;
use rand::rngs::ThreadRng;
use crate::bag::draw_random;
use crate::error::GameError;
use crate::tile::Tile;

verus! {

/// The number of tiles that a full rack holds.
pub const RACK_SIZE: usize = 7;

/// A player. The rack is `tiles`; the order of its tiles is the order in
/// which they are shown and addressed.
pub struct Player {
    pub tiles: Vec<Tile>,
    pub score: u32,
}

impl Default for Player {
    fn default() -> (player: Player)
        ensures
            player.tiles@.len() == 0,
            player.score == 0,
    {
        Player::new()
    }
}

/// How many tiles a rack of `rack` tiles takes from a bag of `bag` tiles
/// when it is filled: what it lacks of a full rack, as far as the bag goes.
pub open spec fn fill_count(rack: nat, bag: nat) -> nat {
    if rack >= RACK_SIZE {
        0
    } else if bag <= RACK_SIZE - rack {
        bag
    } else {
        (RACK_SIZE - rack) as nat
    }
}

impl Player {
    /// A player with an empty rack and no points.
    pub fn new() -> (player: Player)
        ensures
            player.tiles@.len() == 0,
            player.score == 0,
    {
        Player { tiles: Vec::new(), score: 0 }
    }

    /// Puts a tile at the end of the rack.
    pub fn add_tile(&mut self, tile: Tile)
        ensures
            final(self).tiles@ == old(self).tiles@.push(tile),
            final(self).score == old(self).score,
    {
        self.tiles.push(tile);
    }

    /// Takes every copy of a tile off the rack. The other tiles keep their
    /// order.
    pub fn remove_tile(&mut self, tile: Tile)
        ensures
            final(self).tiles@ == old(self).tiles@.filter(|t: Tile| t != tile),
            final(self).score == old(self).score,
    {
        let mut kept: Vec<Tile> = Vec::new();
        let n = self.tiles.len();
        for i in 0..n
            invariant
                n == self.tiles@.len(),
                self.tiles@ == old(self).tiles@,
                self.score == old(self).score,
                kept@ == self.tiles@.take(i as int).filter(|t: Tile| t != tile),
        {
            let t = self.tiles[i];
            proof {
                let before = self.tiles@.take(i as int);
                let next = self.tiles@.take(i + 1);
                assert(next.drop_last() =~= before);
                assert(next.last() == t);
                reveal(Seq::filter);
            }
            if t != tile {
                kept.push(t);
            }
        }
        proof {
            reveal(Seq::filter);
            assert(self.tiles@.take(n as int) =~= self.tiles@);
        }
        self.tiles = kept;
    }

    /// Draws from the bag, at places that the generator picks, until the rack
    /// is full or the bag is empty. The tiles drawn go to the end of the
    /// rack, and no tile is lost or made: rack and bag together hold what
    /// they held before. A rack left short by an empty bag is reported as
    /// `EmptyBag`, and is as valid a rack as a full one.
    pub fn fill_tiles(&mut self, bag: &mut Vec<Tile>, rng: &mut ThreadRng) -> (filled: Result<
        (),
        GameError,
    >)
        ensures
            final(self).tiles@.len() == old(self).tiles@.len() + fill_count(
                old(self).tiles@.len(),
                old(bag)@.len(),
            ),
            final(bag)@.len() == old(bag)@.len() - fill_count(
                old(self).tiles@.len(),
                old(bag)@.len(),
            ),
            final(self).tiles@.take(old(self).tiles@.len() as int) == old(self).tiles@,
            final(self).tiles@.to_multiset().add(final(bag)@.to_multiset()) == old(
                self,
            ).tiles@.to_multiset().add(old(bag)@.to_multiset()),
            final(self).score == old(self).score,
            filled is Ok <==> final(self).tiles@.len() >= RACK_SIZE,
            filled is Err ==> filled == Err::<(), GameError>(GameError::EmptyBag),
    {
        broadcast use group_to_multiset_ensures;
        while self.tiles.len() < RACK_SIZE && bag.len() > 0
            invariant
                self.score == old(self).score,
                old(self).tiles@.len() <= self.tiles@.len(),
                self.tiles@.len() + bag@.len() == old(self).tiles@.len() + old(bag)@.len(),
                self.tiles@.len() > old(self).tiles@.len() ==> self.tiles@.len() <= RACK_SIZE,
                self.tiles@.take(old(self).tiles@.len() as int) == old(self).tiles@,
                self.tiles@.to_multiset().add(bag@.to_multiset()) == old(
                    self,
                ).tiles@.to_multiset().add(old(bag)@.to_multiset()),
            decreases bag@.len(),
        {
            let ghost rack_before = self.tiles@;
            let ghost bag_before = bag@;
            match draw_random(bag, rng) {
                Ok(tile) => {
                    self.add_tile(tile);
                    assert(self.tiles@.take(old(self).tiles@.len() as int) =~= rack_before.take(
                        old(self).tiles@.len() as int,
                    ));
                    proof {
                        to_multiset_build(rack_before, tile);
                    }
                    assert(self.tiles@.to_multiset().add(bag@.to_multiset())
                        =~= rack_before.to_multiset().add(bag_before.to_multiset()));
                },
                Err(_) => {},
            }
        }
        if self.tiles.len() >= RACK_SIZE {
            Ok(())
        } else {
            Err(GameError::EmptyBag)
        }
    }
}

} // verus!
