//! The randomizer: a shuffled bag of the seven canonical pieces, dealt from
//! its end.

use vstd::prelude::*;
use rand::seq::SliceRandom;
use crate::grid::{Cells, Color, GRID_HEIGHT, GRID_WIDTH};
use crate::tetromino::{spawn, Piece, Tetromino};
use crate::vec2::Vec2;

verus! {

/// The pieces still to come. The last one is the piece in play.
pub type Bag = Vec<Tetromino>;

/// The values of the pieces of a bag, in its order.
pub open spec fn pieces(bag: Seq<Tetromino>) -> Seq<Piece> {
    bag.map_values(|t: Tetromino| t@)
}

/// A piece at the spawn position with the given offsets.
pub open spec fn shape(blocks: Seq<Vec2>, color: Color, does_rotate: bool) -> Piece {
    Piece { blocks, does_rotate, pos: spawn(), color }
}

/// The seven canonical pieces: the bar, the square, the two skews, the tee
/// and the two hooks. Only the square cannot be turned.
pub open spec fn canonical_pieces() -> Seq<Piece> {
    seq![
        shape(
            seq![Vec2::at(-1, 0), Vec2::at(0, 0), Vec2::at(1, 0), Vec2::at(2, 0)],
            Color::Red,
            true,
        ),
        shape(
            seq![Vec2::at(0, 0), Vec2::at(1, 0), Vec2::at(0, 1), Vec2::at(1, 1)],
            Color::Blue,
            false,
        ),
        shape(
            seq![Vec2::at(0, 0), Vec2::at(-1, 0), Vec2::at(0, 1), Vec2::at(1, 1)],
            Color::Green,
            true,
        ),
        shape(
            seq![Vec2::at(0, 0), Vec2::at(1, 0), Vec2::at(0, 1), Vec2::at(-1, 1)],
            Color::Cyan,
            true,
        ),
        shape(
            seq![Vec2::at(0, 0), Vec2::at(1, 0), Vec2::at(-1, 0), Vec2::at(0, 1)],
            Color::Yellow,
            true,
        ),
        shape(
            seq![Vec2::at(-1, 1), Vec2::at(-1, 0), Vec2::at(0, 0), Vec2::at(1, 0)],
            Color::Magenta,
            true,
        ),
        shape(
            seq![Vec2::at(1, 1), Vec2::at(1, 0), Vec2::at(0, 0), Vec2::at(-1, 0)],
            Color::White,
            true,
        ),
    ]
}

/// `bag` holds the seven canonical pieces, each once, in some order.
pub open spec fn freshly_filled(bag: Seq<Tetromino>) -> bool {
    pieces(bag).to_multiset() == canonical_pieces().to_multiset()
}

/// `rand::seq::SliceRandom::shuffle` on the bag, with the generator that
/// `rand::rng` hands out. The call reorders the slice in place by swaps, so the
/// bag holds the same pieces afterwards, each as often as before. Nothing is
/// claimed of the order. `rand::rng` panics on a machine that gives the
/// thread's generator no seed.
#[verifier::external_body]
fn shuffle(bag: &mut Vec<Tetromino>)
    ensures
        pieces(final(bag)@).to_multiset() == pieces(old(bag)@).to_multiset(),
{
    bag.shuffle(&mut rand::rng());
}

/// A four-block piece at the spawn position.
fn four_blocks(a: Vec2, b: Vec2, c: Vec2, d: Vec2, color: Color, does_rotate: bool) -> (piece:
    Tetromino)
    ensures
        piece@ == shape(seq![a, b, c, d], color, does_rotate),
{
    let blocks = vec![a, b, c, d];
    assert(blocks@ =~= seq![a, b, c, d]);
    Tetromino { blocks, does_rotate, pos: Vec2::new(5, 1), color }
}

/// A bag with the seven canonical pieces, each once, in random order.
pub fn new_bag() -> (bag: Bag)
    ensures
        freshly_filled(bag@),
        bag.len() == 7,
        forall|k: int|
            0 <= k < 7 ==> pieces(bag@).to_multiset().count(#[trigger] canonical_pieces()[k]) == 1,
{
    let mut bag: Vec<Tetromino> = Vec::new();
    bag.push(
        four_blocks(
            Vec2::new(-1, 0),
            Vec2::new(0, 0),
            Vec2::new(1, 0),
            Vec2::new(2, 0),
            Color::Red,
            true,
        ),
    );
    bag.push(
        four_blocks(
            Vec2::new(0, 0),
            Vec2::new(1, 0),
            Vec2::new(0, 1),
            Vec2::new(1, 1),
            Color::Blue,
            false,
        ),
    );
    bag.push(
        four_blocks(
            Vec2::new(0, 0),
            Vec2::new(-1, 0),
            Vec2::new(0, 1),
            Vec2::new(1, 1),
            Color::Green,
            true,
        ),
    );
    bag.push(
        four_blocks(
            Vec2::new(0, 0),
            Vec2::new(1, 0),
            Vec2::new(0, 1),
            Vec2::new(-1, 1),
            Color::Cyan,
            true,
        ),
    );
    bag.push(
        four_blocks(
            Vec2::new(0, 0),
            Vec2::new(1, 0),
            Vec2::new(-1, 0),
            Vec2::new(0, 1),
            Color::Yellow,
            true,
        ),
    );
    bag.push(
        four_blocks(
            Vec2::new(-1, 1),
            Vec2::new(-1, 0),
            Vec2::new(0, 0),
            Vec2::new(1, 0),
            Color::Magenta,
            true,
        ),
    );
    bag.push(
        four_blocks(
            Vec2::new(1, 1),
            Vec2::new(1, 0),
            Vec2::new(0, 0),
            Vec2::new(-1, 0),
            Color::White,
            true,
        ),
    );
    assert(pieces(bag@) =~= canonical_pieces());
    shuffle(&mut bag);
    proof {
        lemma_each_shape_once(pieces(bag@));
        assert(pieces(bag@).len() == bag@.len());
    }
    bag
}

/// Throws away what the bag holds and fills it with the seven canonical
/// pieces, each once, in random order.
pub fn refill(bag: &mut Bag)
    ensures
        freshly_filled(final(bag)@),
        final(bag).len() == 7,
{
    *bag = new_bag();
}

/// The piece in play: the last of the bag.
pub fn active(bag: &Bag) -> (piece: &Tetromino)
    requires
        bag.len() > 0,
    ensures
        *piece == bag@.last(),
{
    &bag[bag.len() - 1]
}

/// The piece in play, to be changed in place. The rest of the bag stays.
pub fn active_mut(bag: &mut Bag) -> (piece: &mut Tetromino)
    requires
        old(bag).len() > 0,
    ensures
        *piece == old(bag)@.last(),
        final(bag)@ == old(bag)@.drop_last().push(*final(piece)),
{
    let last = bag.len() - 1;
    &mut bag[last]
}

/// Takes the piece in play out of the bag and returns it. The bag may be
/// empty afterwards, and is then to be refilled before it is read again.
pub fn lock_active(bag: &mut Bag) -> (piece: Tetromino)
    requires
        old(bag).len() > 0,
    ensures
        piece == old(bag)@.last(),
        final(bag)@ == old(bag)@.drop_last(),
{
    let popped = bag.pop();
    popped.unwrap()
}

/// Every piece of a freshly filled bag is one of the canonical pieces: it is
/// sound, and it stands at the spawn position.
pub proof fn lemma_fresh_bag_is_sound(bag: Seq<Tetromino>)
    requires
        freshly_filled(bag),
    ensures
        forall|i: int|
            0 <= i < bag.len() ==> (#[trigger] bag[i])@.sound() && bag[i]@.pos == spawn()
                && canonical_pieces().contains(bag[i]@),
{
    let all = canonical_pieces();
    let held = pieces(bag);
    held.to_multiset_ensures();
    all.to_multiset_ensures();
    assert forall|k: int| 0 <= k < all.len() implies (#[trigger] all[k]).sound() && all[k].pos
        == spawn() by {
        let p = all[k];
        assert(p.blocks.len() == 4);
        assert(p.blocks[0] != p.blocks[1]);
        assert(p.blocks[0] != p.blocks[2]);
        assert(p.blocks[0] != p.blocks[3]);
        assert(p.blocks[1] != p.blocks[2]);
        assert(p.blocks[1] != p.blocks[3]);
        assert(p.blocks[2] != p.blocks[3]);
    }
    assert forall|i: int| 0 <= i < bag.len() implies (#[trigger] bag[i])@.sound() && bag[i]@.pos
        == spawn() && all.contains(bag[i]@) by {
        assert(held[i] == bag[i]@);
        assert(held.contains(held[i]));
        assert(all.to_multiset().count(held[i]) > 0);
        assert(all.contains(held[i]));
        let k = choose|k: int| 0 <= k < all.len() && all[k] == held[i];
        assert(all[k].sound());
    }
}

/// Each canonical piece has room at the spawn position of an empty
/// playfield.
pub proof fn lemma_canonical_piece_fits(grid: Cells, k: int)
    requires
        0 <= k < 7,
        forall|r: int, c: int|
            0 <= r < GRID_HEIGHT && 0 <= c < GRID_WIDTH ==> (#[trigger] grid[r][c]) is None,
    ensures
        canonical_pieces()[k].fits(grid),
{
    let p = canonical_pieces()[k];
    assert(p.blocks.len() == 4);
    assert forall|i: int| 0 <= i < p.blocks.len() implies (#[trigger] p.hit(grid, i)) is None by {
        assert(p.inside(i));
        assert(grid[p.row(i)][p.col(i)] is None);
    }
}

/// A bag that holds the same pieces as the canonical list holds seven pieces,
/// and each canonical piece exactly once, whatever its order.
pub proof fn lemma_each_shape_once(bag: Seq<Piece>)
    requires
        bag.to_multiset() == canonical_pieces().to_multiset(),
    ensures
        bag.len() == 7,
        forall|k: int|
            0 <= k < 7 ==> bag.to_multiset().count(#[trigger] canonical_pieces()[k]) == 1,
{
    let all = canonical_pieces();
    bag.to_multiset_ensures();
    all.to_multiset_ensures();
    assert(all.no_duplicates()) by {
        assert forall|i: int, j: int|
            0 <= i < all.len() && 0 <= j < all.len() && i != j implies all[i] != all[j] by {
            assert(all[i].color != all[j].color);
        }
    }
    all.lemma_multiset_has_no_duplicates();
    assert forall|k: int| 0 <= k < 7 implies bag.to_multiset().count(#[trigger] all[k]) == 1 by {
        assert(all.contains(all[k]));
    }
}

} // verus!
