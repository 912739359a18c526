//! Pieces: their geometry, rotation, collision test and stamping.

use vstd::prelude::*;
use crate::grid::{cells, Cells, Color, Grid, GRID_HEIGHT, GRID_WIDTH};
use crate::vec2::Vec2;

verus! {

/// Why a piece cannot be where it is.
#[derive(Copy, Clone, Debug, PartialEq, Eq, Structural)]
pub enum Collision {
    /// A block lies on a cell that already holds a piece.
    Occupied,
    /// A block lies outside the playfield.
    OutOfBound,
}

/// A piece: block offsets around a pivot, the pivot's position on the
/// playfield, a colour, and whether the piece can be turned.
#[derive(Debug)]
pub struct Tetromino {
    pub blocks: Vec<Vec2>,
    pub does_rotate: bool,
    pub pos: Vec2,
    pub color: Color,
}

/// Where a new piece's pivot stands: the centre column, one row below the
/// top.
pub open spec fn spawn() -> Vec2 {
    Vec2 { x: 5, y: 1 }
}

/// The farthest that a block of a piece in play lies from the pivot, along
/// either axis. Within this reach a piece that stands on the playfield can be
/// turned, moved a row down and kicked sideways without its position leaving
/// `i8`.
pub const REACH: i8 = 107;

/// The mathematical value of a [`Tetromino`].
pub struct Piece {
    pub blocks: Seq<Vec2>,
    pub does_rotate: bool,
    pub pos: Vec2,
    pub color: Color,
}

impl View for Tetromino {
    type V = Piece;

    open spec fn view(&self) -> Piece {
        Piece {
            blocks: self.blocks@,
            does_rotate: self.does_rotate,
            pos: self.pos,
            color: self.color,
        }
    }
}

impl Piece {
    /// The playfield column of block `i`.
    pub open spec fn col(self, i: int) -> int {
        self.pos.x + self.blocks[i].x
    }

    /// The playfield row of block `i`.
    pub open spec fn row(self, i: int) -> int {
        self.pos.y + self.blocks[i].y
    }

    /// Block `i` lies on the playfield.
    pub open spec fn inside(self, i: int) -> bool {
        0 <= self.col(i) < GRID_WIDTH && 0 <= self.row(i) < GRID_HEIGHT
    }

    /// What block `i` runs into on `grid`: the edge first, then an occupied
    /// cell.
    pub open spec fn hit(self, grid: Cells, i: int) -> Option<Collision> {
        if !self.inside(i) {
            Some(Collision::OutOfBound)
        } else if grid[self.row(i)][self.col(i)] is Some {
            Some(Collision::Occupied)
        } else {
            None
        }
    }

    /// Every block lies on the playfield, on an empty cell.
    pub open spec fn fits(self, grid: Cells) -> bool {
        forall|i: int| 0 <= i < self.blocks.len() ==> (#[trigger] self.hit(grid, i)) is None
    }

    /// Block `i` is the first in the list that runs into something.
    pub open spec fn first_hit(self, grid: Cells, i: int) -> bool {
        &&& 0 <= i < self.blocks.len()
        &&& self.hit(grid, i) is Some
        &&& forall|j: int| 0 <= j < i ==> (#[trigger] self.hit(grid, j)) is None
    }

    /// One of the first `n` blocks lies on row `r`, column `c`.
    pub open spec fn covers(self, n: int, r: int, c: int) -> bool {
        exists|i: int| 0 <= i < n && #[trigger] self.row(i) == r && self.col(i) == c
    }

    /// Block `i` can be written: it lies on the playfield, on a cell that is
    /// empty on `grid` and that no earlier block of the list lies on.
    pub open spec fn free(self, grid: Cells, i: int) -> bool {
        self.hit(grid, i) is None && !self.covers(i, self.row(i), self.col(i))
    }

    /// The first block at or after `i` that cannot be written, or the number
    /// of blocks where all of them can.
    pub open spec fn written_from(self, grid: Cells, i: int) -> int
        decreases self.blocks.len() - i,
    {
        if 0 <= i < self.blocks.len() && self.free(grid, i) {
            self.written_from(grid, i + 1)
        } else {
            i
        }
    }

    /// How many blocks stamping writes onto `grid`: those before the first one
    /// that cannot be written.
    pub open spec fn written(self, grid: Cells) -> int {
        self.written_from(grid, 0)
    }

    /// What stamping onto `grid` reports: success where every block is
    /// written, else what stops the first block that is not, the edge of the
    /// playfield or an occupied cell.
    pub open spec fn stamp_outcome(self, grid: Cells) -> Result<(), Collision> {
        if self.written(grid) == self.blocks.len() {
            Ok(())
        } else if !self.inside(self.written(grid)) {
            Err(Collision::OutOfBound)
        } else {
            Err(Collision::Occupied)
        }
    }

    /// The cell at row `r`, column `c` once the first `n` blocks are written
    /// onto `grid`.
    pub open spec fn stamped_cell(self, grid: Cells, n: int, r: int, c: int) -> Option<Color> {
        if self.covers(n, r, c) {
            Some(self.color)
        } else {
            grid[r][c]
        }
    }

    /// `grid` with the first `n` blocks written onto it.
    pub open spec fn stamped(self, grid: Cells, n: int) -> Cells {
        Seq::new(
            GRID_HEIGHT as nat,
            |r: int| Seq::new(GRID_WIDTH as nat, |c: int| self.stamped_cell(grid, n, r, c)),
        )
    }

    /// No two blocks of the list share an offset.
    pub open spec fn distinct(self) -> bool {
        forall|i: int, j: int|
            0 <= i < j < self.blocks.len() ==> #[trigger] self.blocks[i]
                != #[trigger] self.blocks[j]
    }

    /// A quarter turn of one offset about the pivot, where the result fits in
    /// `i8`.
    pub open spec fn turn(b: Vec2) -> Vec2 {
        Vec2 { x: (-b.y) as i8, y: b.x }
    }

    /// Every offset can be turned: none has the row offset `i8::MIN`, whose
    /// negation does not fit.
    pub open spec fn turnable(self) -> bool {
        forall|i: int| 0 <= i < self.blocks.len() ==> (#[trigger] self.blocks[i]).y > i8::MIN
    }

    /// The piece after a quarter turn: unchanged where it cannot be turned,
    /// else with every offset turned about the pivot.
    pub open spec fn rotated(self) -> Piece {
        if self.does_rotate {
            Piece { blocks: self.blocks.map_values(|b: Vec2| Self::turn(b)), ..self }
        } else {
            self
        }
    }

    /// The piece can be played: it has a block, no two blocks share an offset,
    /// and every block lies within reach of the pivot.
    pub open spec fn sound(self) -> bool {
        &&& self.blocks.len() >= 1
        &&& self.distinct()
        &&& forall|i: int|
            0 <= i < self.blocks.len() ==> {
                &&& -REACH <= (#[trigger] self.blocks[i]).x <= REACH
                &&& -REACH <= self.blocks[i].y <= REACH
            }
    }

    /// The piece moved by `dx` columns and `dy` rows, where the new position
    /// fits in `i8`.
    pub open spec fn moved(self, dx: int, dy: int) -> Piece {
        Piece { pos: Vec2 { x: (self.pos.x + dx) as i8, y: (self.pos.y + dy) as i8 }, ..self }
    }
}

impl Default for Tetromino {
    /// A five-block cross in red, at the spawn position, that can be turned.
    fn default() -> (piece: Tetromino)
        ensures
            piece@ == (Piece {
                blocks: seq![
                    Vec2::at(0, 0),
                    Vec2::at(-1, -1),
                    Vec2::at(-1, 1),
                    Vec2::at(1, -1),
                    Vec2::at(1, 1),
                ],
                does_rotate: true,
                pos: spawn(),
                color: Color::Red,
            }),
    {
        let blocks = vec![
            Vec2::new(0, 0),
            Vec2::new(-1, -1),
            Vec2::new(-1, 1),
            Vec2::new(1, -1),
            Vec2::new(1, 1),
        ];
        assert(blocks@ =~= seq![
            Vec2::at(0, 0),
            Vec2::at(-1, -1),
            Vec2::at(-1, 1),
            Vec2::at(1, -1),
            Vec2::at(1, 1),
        ]);
        Tetromino { blocks, does_rotate: true, pos: Vec2 { x: 5, y: 1 }, color: Color::Red }
    }
}

impl Clone for Tetromino {
    fn clone(&self) -> (copy: Tetromino)
        ensures
            copy@ == self@,
    {
        let blocks = self.blocks.clone();
        assert(blocks@ =~= self.blocks@);
        Tetromino { blocks, does_rotate: self.does_rotate, pos: self.pos, color: self.color }
    }
}

impl Tetromino {
    /// Writes the piece's colour into the cells of its blocks, in list order,
    /// and stops at the first block that lies outside the playfield or on a
    /// cell that is already occupied, by the playfield or by an earlier block.
    /// The blocks before that one stay written.
    pub fn stamp_onto(&self, grid: &mut Grid) -> (done: Result<(), Collision>)
        ensures
            done == self@.stamp_outcome(cells(*old(grid))),
            cells(*final(grid)) == self@.stamped(
                cells(*old(grid)),
                self@.written(cells(*old(grid))),
            ),
    {
        let mut i: usize = 0;
        proof {
            let start = cells(*grid);
            assert forall|r: int| 0 <= r < GRID_HEIGHT implies #[trigger] start[r]
                =~= self@.stamped(start, 0)[r] by {
                assert forall|c: int| 0 <= c < GRID_WIDTH implies start[r][c] == self@.stamped(
                    start,
                    0,
                )[r][c] by {
                    assert(!self@.covers(0, r, c));
                }
            }
            assert(start =~= self@.stamped(start, 0));
        }
        while i < self.blocks.len()
            invariant
                i <= self.blocks.len(),
                cells(*grid) == self@.stamped(cells(*old(grid)), i as int),
                self@.written_from(cells(*old(grid)), i as int) == self@.written(
                    cells(*old(grid)),
                ),
            decreases self.blocks.len() - i,
        {
            let x: i16 = self.pos.x as i16 + self.blocks[i].x as i16;
            let y: i16 = self.pos.y as i16 + self.blocks[i].y as i16;
            if x < 0 || y < 0 || x >= GRID_WIDTH as i16 || y >= GRID_HEIGHT as i16 {
                assert(!self@.inside(i as int));
                return Err(Collision::OutOfBound);
            }
            assert(self@.inside(i as int));
            let ghost start = cells(*old(grid));
            assert(grid[y as int][x as int] == cells(*grid)[y as int][x as int]);
            assert(cells(*grid)[y as int][x as int] == self@.stamped_cell(
                start,
                i as int,
                y as int,
                x as int,
            ));
            if grid[y as usize][x as usize].is_some() {
                assert(!self@.free(start, i as int));
                return Err(Collision::Occupied);
            }
            assert(self@.free(start, i as int));
            let ghost before = *grid;
            grid[y as usize][x as usize] = Some(self.color);
            proof {
                let piece = self@;
                let after = piece.stamped(start, i + 1);
                assert forall|r: int| 0 <= r < GRID_HEIGHT implies #[trigger] cells(*grid)[r]
                    =~= after[r] by {
                    assert forall|c: int| 0 <= c < GRID_WIDTH implies cells(*grid)[r][c]
                        == after[r][c] by {
                        assert(cells(before)[r][c] == piece.stamped_cell(start, i as int, r, c));
                        if r == y && c == x {
                            assert(piece.row(i as int) == r && piece.col(i as int) == c);
                        } else {
                            assert(grid[r][c] == before[r][c]);
                            if piece.covers(i + 1, r, c) {
                                let k = choose|k: int|
                                    0 <= k < i + 1 && #[trigger] piece.row(k) == r && piece.col(k)
                                        == c;
                                assert(k < i);
                            }
                        }
                    }
                }
                assert(cells(*grid) =~= after);
            }
            i += 1;
        }
        Ok(())
    }

    /// Turns the piece a quarter turn about its pivot: every offset `(x, y)`
    /// becomes `(-y, x)`. A piece that cannot be turned stays as it is.
    pub fn rotate(&mut self)
        requires
            old(self).does_rotate ==> old(self)@.turnable(),
        ensures
            final(self)@ == old(self)@.rotated(),
            !old(self).does_rotate ==> final(self)@ == old(self)@,
    {
        if !self.does_rotate {
            return;
        }
        let mut i: usize = 0;
        while i < self.blocks.len()
            invariant
                i <= self.blocks.len(),
                self.blocks.len() == old(self).blocks.len(),
                self.does_rotate == old(self).does_rotate,
                self.pos == old(self).pos,
                self.color == old(self).color,
                old(self)@.turnable(),
                forall|j: int|
                    0 <= j < i ==> self.blocks[j] == Piece::turn(#[trigger] old(self).blocks[j]),
                forall|j: int|
                    i <= j < self.blocks.len() ==> self.blocks[j] == #[trigger] old(self).blocks[j],
            decreases self.blocks.len() - i,
        {
            let b = self.blocks[i];
            assert(b == old(self)@.blocks[i as int]);
            self.blocks[i] = Vec2 { x: -b.y, y: b.x };
            i += 1;
        }
        assert(self@.blocks =~= old(self)@.rotated().blocks);
    }

    /// Moves the piece down by one row if it fits there, and leaves it where
    /// it is if it does not.
    pub fn try_move_down(&mut self, grid: &Grid) -> (done: Result<(), ()>)
        requires
            old(self).pos.y < i8::MAX,
        ensures
            done is Ok <==> old(self)@.moved(0, 1).fits(cells(*grid)),
            done is Ok ==> final(self)@ == old(self)@.moved(0, 1),
            done is Err ==> final(self)@ == old(self)@,
    {
        self.pos.y += 1;
        if self.collide(grid).is_some() {
            self.pos.y -= 1;
            Err(())
        } else {
            Ok(())
        }
    }

    /// Whether the piece can be played: it has a block, no two blocks share
    /// an offset, and every block lies within reach of the pivot.
    pub fn is_sound(&self) -> (sound: bool)
        ensures
            sound == self@.sound(),
    {
        if self.blocks.len() == 0 {
            return false;
        }
        let mut i: usize = 0;
        while i < self.blocks.len()
            invariant
                i <= self.blocks.len(),
                forall|a: int, b: int|
                    0 <= a < b < i ==> #[trigger] self@.blocks[a] != #[trigger] self@.blocks[b],
                forall|a: int|
                    0 <= a < i ==> {
                        &&& -REACH <= (#[trigger] self@.blocks[a]).x <= REACH
                        &&& -REACH <= self@.blocks[a].y <= REACH
                    },
            decreases self.blocks.len() - i,
        {
            let b = self.blocks[i];
            if b.x < -REACH || b.x > REACH || b.y < -REACH || b.y > REACH {
                assert(!(-REACH <= self@.blocks[i as int].x <= REACH && -REACH
                    <= self@.blocks[i as int].y <= REACH));
                return false;
            }
            let mut j: usize = 0;
            while j < i
                invariant
                    j <= i < self.blocks.len(),
                    b == self@.blocks[i as int],
                    forall|a: int| 0 <= a < j ==> #[trigger] self@.blocks[a] != b,
                decreases i - j,
            {
                let a = self.blocks[j];
                if a.x == b.x && a.y == b.y {
                    assert(self@.blocks[j as int] == self@.blocks[i as int]);
                    return false;
                }
                j += 1;
            }
            i += 1;
        }
        true
    }

    /// Tests the piece against `grid`, block by block in list order, and
    /// reports what the first offending block runs into: the edge of the
    /// playfield or an occupied cell. `None` means that the piece can be
    /// where it is.
    pub fn collide(&self, grid: &Grid) -> (found: Option<Collision>)
        ensures
            found is None <==> self@.fits(cells(*grid)),
            forall|i: int|
                self@.first_hit(cells(*grid), i) ==> found == self@.hit(cells(*grid), i),
    {
        let mut i: usize = 0;
        while i < self.blocks.len()
            invariant
                i <= self.blocks.len(),
                forall|j: int| 0 <= j < i ==> (#[trigger] self@.hit(cells(*grid), j)) is None,
            decreases self.blocks.len() - i,
        {
            let x: i16 = self.pos.x as i16 + self.blocks[i].x as i16;
            let y: i16 = self.pos.y as i16 + self.blocks[i].y as i16;
            if x < 0 || y < 0 || x >= GRID_WIDTH as i16 || y >= GRID_HEIGHT as i16 {
                assert(self@.hit(cells(*grid), i as int) == Some(Collision::OutOfBound));
                return Some(Collision::OutOfBound);
            }
            if grid[y as usize][x as usize].is_some() {
                assert(self@.hit(cells(*grid), i as int) == Some(Collision::Occupied));
                return Some(Collision::Occupied);
            }
            assert(self@.hit(cells(*grid), i as int) is None);
            i += 1;
        }
        None
    }
}

/// Four quarter turns bring every block offset back to where it was. The
/// offsets must not hold `i8::MIN`, whose negation a turn cannot store.
pub proof fn lemma_four_turns(piece: Piece)
    requires
        forall|i: int|
            0 <= i < piece.blocks.len() ==> {
                &&& (#[trigger] piece.blocks[i]).x > i8::MIN
                &&& piece.blocks[i].y > i8::MIN
            },
    ensures
        piece.rotated().rotated().rotated().rotated() == piece,
{
    let once = piece.rotated();
    let twice = once.rotated();
    let thrice = twice.rotated();
    let back = thrice.rotated();
    if piece.does_rotate {
        assert forall|i: int| 0 <= i < piece.blocks.len() implies back.blocks[i]
            == piece.blocks[i] by {
            let b = piece.blocks[i];
            assert(once.blocks[i] == Piece::turn(b));
            assert(twice.blocks[i] == Piece::turn(once.blocks[i]));
            assert(thrice.blocks[i] == Piece::turn(twice.blocks[i]));
            assert(back.blocks[i] == Piece::turn(thrice.blocks[i]));
        }
        assert(back.blocks =~= piece.blocks);
    }
}

/// A piece that is not made to turn is the same piece after a turn.
pub proof fn lemma_fixed_piece_stays(piece: Piece)
    requires
        !piece.does_rotate,
    ensures
        piece.rotated() == piece,
{
}

/// A piece that fits, and whose blocks all differ, is stamped whole: what
/// the collision test lets pass, stamping does not refuse.
pub proof fn lemma_fitting_piece_stamps(piece: Piece, grid: Cells)
    requires
        piece.fits(grid),
        piece.distinct(),
    ensures
        piece.written(grid) == piece.blocks.len(),
{
    lemma_written_from(piece, grid, 0);
}

proof fn lemma_written_from(piece: Piece, grid: Cells, i: int)
    requires
        piece.fits(grid),
        piece.distinct(),
        0 <= i <= piece.blocks.len(),
    ensures
        piece.written_from(grid, i) == piece.blocks.len(),
    decreases piece.blocks.len() - i,
{
    if i < piece.blocks.len() {
        assert(piece.hit(grid, i) is None);
        if piece.covers(i, piece.row(i), piece.col(i)) {
            let j = choose|j: int|
                0 <= j < i && #[trigger] piece.row(j) == piece.row(i) && piece.col(j)
                    == piece.col(i);
            assert(piece.blocks[j] == piece.blocks[i]);
        }
        lemma_written_from(piece, grid, i + 1);
    }
}

/// A sound piece stays sound through a turn, and can be turned.
pub proof fn lemma_sound_turns(piece: Piece)
    requires
        piece.sound(),
    ensures
        piece.turnable(),
        piece.rotated().sound(),
{
    let turned = piece.rotated();
    if piece.does_rotate {
        assert forall|i: int, j: int|
            0 <= i < j < turned.blocks.len() implies #[trigger] turned.blocks[i]
            != #[trigger] turned.blocks[j] by {
            assert(piece.blocks[i] != piece.blocks[j]);
            assert(turned.blocks[i] == Piece::turn(piece.blocks[i]));
            assert(turned.blocks[j] == Piece::turn(piece.blocks[j]));
        }
        assert forall|i: int| 0 <= i < turned.blocks.len() implies {
            &&& -REACH <= (#[trigger] turned.blocks[i]).x <= REACH
            &&& -REACH <= turned.blocks[i].y <= REACH
        } by {
            assert(turned.blocks[i] == Piece::turn(piece.blocks[i]));
        }
    }
}

/// A sound piece that fits stands with its pivot within reach of the
/// playfield.
pub proof fn lemma_fitting_piece_is_near(piece: Piece, grid: Cells)
    requires
        piece.sound(),
        piece.fits(grid),
    ensures
        -REACH <= piece.pos.x < GRID_WIDTH + REACH,
        -REACH <= piece.pos.y < GRID_HEIGHT + REACH,
{
    assert(piece.hit(grid, 0) is None);
    assert(piece.inside(0));
    let b = piece.blocks[0];
    assert(-REACH <= b.x <= REACH && -REACH <= b.y <= REACH);
}

} // verus!
