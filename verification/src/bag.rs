//! The tile bag: the supply of tiles that have not been drawn yet.
//!
//! A bag is a `Vec<Tile>`. The order of its tiles carries no meaning, since
//! tiles leave it at random places; what matters is the multiset it holds.

use vstd::prelude::*;
use vstd::seq_lib::*;
use rand::Rng;
use rand::rngs::ThreadRng;
use crate::error::GameError;
use crate::tile::Tile;

verus! {

/// The number of tiles in a full set.
pub const TILE_COUNT: usize = 100;

/// `n` copies of one tile.
pub open spec fn copies(tile: Tile, n: nat) -> Seq<Tile> {
    Seq::new(n, |i: int| tile)
}

/// The tiles of a full set that belong to the first `k` kinds of
/// [`Tile::all`]: of each kind as many copies as its quantity says.
pub open spec fn full_set_upto(k: nat) -> Seq<Tile>
    decreases k,
{
    if k == 0 {
        Seq::empty()
    } else {
        full_set_upto((k - 1) as nat) + copies(
            Tile::all()[k - 1],
            Tile::all()[k - 1].quantity(),
        )
    }
}

/// A full set of tiles, kind after kind in the order of [`Tile::all`].
pub open spec fn full_set() -> Seq<Tile> {
    full_set_upto(27)
}

proof fn lemma_copies_count(tile: Tile, n: nat, other: Tile)
    ensures
        copies(tile, n).to_multiset().count(other) == if other == tile { n } else { 0 },
    decreases n,
{
    broadcast use group_to_multiset_ensures;
    if n == 0 {
        assert(copies(tile, n) =~= Seq::<Tile>::empty());
    } else {
        lemma_copies_count(tile, (n - 1) as nat, other);
        assert(copies(tile, n) =~= copies(tile, (n - 1) as nat).push(tile));
    }
}

proof fn lemma_position(tile: Tile)
    ensures
        0 <= tile.position() < 27,
        Tile::all()[tile.position()] == tile,
        Tile::all().len() == 27,
{
}

proof fn lemma_full_set_upto(k: nat, tile: Tile)
    requires
        k <= 27,
    ensures
        full_set_upto(k).to_multiset().count(tile) == if tile.position() < k {
            tile.quantity()
        } else {
            0
        },
    decreases k,
{
    broadcast use group_to_multiset_ensures;
    if k == 0 {
    } else {
        let last = Tile::all()[k - 1];
        lemma_full_set_upto((k - 1) as nat, tile);
        lemma_copies_count(last, last.quantity(), tile);
        lemma_multiset_commutative(full_set_upto((k - 1) as nat), copies(last, last.quantity()));
        lemma_position(tile);
        lemma_position(last);
        assert(last.position() == k - 1);
    }
}

/// A full set holds of every tile as many copies as the tile's quantity
/// says, and a hundred tiles in all.
pub proof fn lemma_full_set()
    ensures
        forall|tile: Tile| #[trigger] full_set().to_multiset().count(tile) == tile.quantity(),
        full_set().len() == TILE_COUNT,
{
    assert forall|tile: Tile| #[trigger]
        full_set().to_multiset().count(tile) == tile.quantity() by {
        lemma_full_set_upto(27, tile);
        lemma_position(tile);
    }
    reveal_with_fuel(full_set_upto, 28);
}

/// Makes a bag that holds a full set: of every tile as many copies as its
/// quantity says, a hundred tiles in all.
pub fn initialize() -> (bag: Vec<Tile>)
    ensures
        bag@ == full_set(),
        forall|tile: Tile| #[trigger] bag@.to_multiset().count(tile) == tile.quantity(),
        bag@.len() == TILE_COUNT,
{
    let tiles = Tile::iter();
    let mut bag: Vec<Tile> = Vec::new();
    for k in 0..27usize
        invariant
            tiles@ == Tile::all(),
            bag@ == full_set_upto(k as nat),
    {
        let tile = tiles[k];
        let quantity = tile.get_quantity();
        for n in 0..quantity
            invariant
                tile == Tile::all()[k as int],
                quantity == tile.quantity(),
                bag@ == full_set_upto(k as nat) + copies(tile, n as nat),
        {
            bag.push(tile);
            assert(copies(tile, (n + 1) as nat) =~= copies(tile, n as nat).push(tile));
        }
    }
    proof {
        lemma_full_set();
    }
    bag
}

/// The thread-local generator `ThreadRng` of the `rand` crate. It is carried
/// through to `gen_range` as it is; nothing is claimed of what is inside.
#[verifier::external_type_specification]
#[verifier::external_body]
pub struct ExThreadRng(ThreadRng);

/// Calls `Rng::gen_range` of the `rand` crate on the range `0..n`. The range
/// must not be empty, and the number that comes back lies in it; which one
/// it is depends on the generator alone.
#[verifier::external_body]
fn random_index(rng: &mut ThreadRng, n: usize) -> (index: usize)
    requires
        n > 0,
    ensures
        index < n,
{
    rng.gen_range(0..n)
}

/// Takes the tile at `index` out of the bag. The tiles behind it move up by
/// one place.
pub fn draw_at(bag: &mut Vec<Tile>, index: usize) -> (tile: Tile)
    requires
        index < old(bag)@.len(),
    ensures
        tile == old(bag)@[index as int],
        final(bag)@ == old(bag)@.remove(index as int),
        old(bag)@.to_multiset().count(tile) > 0,
        final(bag)@.to_multiset() == old(bag)@.to_multiset().remove(tile),
{
    broadcast use group_to_multiset_ensures;
    assert(bag@.contains(bag@[index as int]));
    bag.remove(index)
}

/// Takes one tile out of the bag, at a place that the generator picks. A
/// bag that holds no tile is left as it is, and the draw fails.
pub fn draw_random(bag: &mut Vec<Tile>, rng: &mut ThreadRng) -> (drawn: Result<Tile, GameError>)
    ensures
        old(bag)@.len() == 0 ==> drawn == Err::<Tile, GameError>(GameError::EmptyBag) && final(bag)@
            == old(bag)@,
        old(bag)@.len() > 0 ==> drawn is Ok && exists|index: int|
            0 <= index < old(bag)@.len() && drawn == Ok::<Tile, GameError>(
                #[trigger] old(bag)@[index],
            ) && final(bag)@ == old(bag)@.remove(index),
        drawn is Ok ==> old(bag)@.to_multiset().count(drawn->Ok_0) > 0 && final(bag)@.to_multiset()
            == old(bag)@.to_multiset().remove(drawn->Ok_0),
{
    if bag.len() == 0 {
        return Err(GameError::EmptyBag);
    }
    let index = random_index(rng, bag.len());
    let tile = draw_at(bag, index);
    Ok(tile)
}

} // verus!
