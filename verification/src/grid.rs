//! The playfield: a fixed matrix of cells, with line detection and line
//! clearing.

use vstd::prelude::*;

verus! {

/// The number of columns of the playfield.
pub const GRID_WIDTH: usize = 10;

/// The number of rows of the playfield.
pub const GRID_HEIGHT: usize = 20;

/// The identity that a piece leaves in the cells it locks into.
#[derive(Copy, Clone, Debug, PartialEq, Eq, Structural)]
pub enum Color {
    Red,
    Blue,
    Green,
    Cyan,
    Yellow,
    Magenta,
    White,
}

/// One row of the playfield, leftmost cell first.
pub type Row = [Option<Color>; GRID_WIDTH];

/// The playfield, topmost row first. A cell is empty or holds the colour of
/// the piece that locked there.
pub type Grid = [Row; GRID_HEIGHT];

/// The mathematical value of a playfield: its rows from the top, each a
/// sequence of cells from the left.
pub type Cells = Seq<Seq<Option<Color>>>;

/// The cells of `grid`.
pub open spec fn cells(grid: Grid) -> Cells {
    Seq::new(GRID_HEIGHT as nat, |r: int| grid[r]@)
}

/// `rows` has the playfield's height, and each row its width.
pub open spec fn well_shaped(rows: Cells) -> bool {
    &&& rows.len() == GRID_HEIGHT
    &&& forall|r: int| 0 <= r < GRID_HEIGHT ==> (#[trigger] rows[r]).len() == GRID_WIDTH
}

/// Every cell of `row` is occupied.
pub open spec fn row_full(row: Seq<Option<Color>>) -> bool {
    forall|c: int| 0 <= c < GRID_WIDTH ==> (#[trigger] row[c]) is Some
}

/// The cells of a playfield always have the playfield's height and width.
pub proof fn lemma_cells_well_shaped(grid: Grid)
    ensures
        well_shaped(cells(grid)),
{
}

/// A playfield with no occupied cell.
pub fn empty_grid() -> (grid: Grid)
    ensures
        forall|r: int, c: int|
            0 <= r < GRID_HEIGHT && 0 <= c < GRID_WIDTH ==> (#[trigger] cells(grid)[r][c]) is None,
        no_full_row(cells(grid)),
{
    let grid: Grid = [[None; GRID_WIDTH]; GRID_HEIGHT];
    assert forall|r: int| 0 <= r < GRID_HEIGHT implies !row_full(#[trigger] cells(grid)[r]) by {
        assert(cells(grid)[r][0] is None);
    }
    grid
}

/// Whether every cell of row `row` is occupied.
pub fn is_line_full(grid: &Grid, row: usize) -> (full: bool)
    requires
        row < GRID_HEIGHT,
    ensures
        full == row_full(cells(*grid)[row as int]),
{
    let mut c: usize = 0;
    while c < GRID_WIDTH
        invariant
            row < GRID_HEIGHT,
            c <= GRID_WIDTH,
            forall|k: int| 0 <= k < c ==> (#[trigger] cells(*grid)[row as int][k]) is Some,
        decreases GRID_WIDTH - c,
    {
        if grid[row][c].is_none() {
            assert(cells(*grid)[row as int][c as int] is None);
            return false;
        }
        c += 1;
    }
    true
}

/// `f` is the topmost full row of `rows`.
pub open spec fn is_first_full(rows: Cells, f: int) -> bool {
    &&& 0 <= f < rows.len()
    &&& row_full(rows[f])
    &&& forall|r: int| 0 <= r < f ==> !row_full(#[trigger] rows[r])
}

/// No row of `rows` is full.
pub open spec fn no_full_row(rows: Cells) -> bool {
    forall|r: int| 0 <= r < rows.len() ==> !row_full(#[trigger] rows[r])
}

/// `rows` after row `f` is overwritten from above: every row from 1 to `f`
/// takes what the row above it held; the top row and the rows below `f` stay.
pub open spec fn shifted(rows: Cells, f: int) -> Cells {
    Seq::new(rows.len(), |r: int| if 1 <= r <= f { rows[r - 1] } else { rows[r] })
}

/// The number of full rows in `rows`.
pub open spec fn full_rows(rows: Cells) -> nat {
    rows.filter(|row: Seq<Option<Color>>| row_full(row)).len()
}

/// The rows of `rows` that are not full, in their order.
pub open spec fn kept_rows(rows: Cells) -> Cells {
    rows.filter(|row: Seq<Option<Color>>| !row_full(row))
}

/// `rows` with every full row removed: the rows that are not full keep their
/// order at the bottom, and the top row is repeated above them once for each
/// row removed.
pub open spec fn compacted(rows: Cells) -> Cells {
    Seq::new(full_rows(rows), |r: int| rows[0]) + kept_rows(rows)
}

/// The topmost full row of the playfield, if any row is full.
pub fn first_full_line(grid: &Grid) -> (found: Option<usize>)
    ensures
        match found {
            Some(f) => is_first_full(cells(*grid), f as int),
            None => no_full_row(cells(*grid)),
        },
{
    let mut r: usize = 0;
    while r < GRID_HEIGHT
        invariant
            r <= GRID_HEIGHT,
            forall|k: int| 0 <= k < r ==> !row_full(#[trigger] cells(*grid)[k]),
        decreases GRID_HEIGHT - r,
    {
        if is_line_full(grid, r) {
            return Some(r);
        }
        r += 1;
    }
    None
}

/// Removes the topmost full row, if there is one, by moving the rows above it
/// down by one. The top row itself is never overwritten.
fn clear_one_line(grid: &mut Grid) -> (cleared: bool)
    ensures
        cleared == !no_full_row(cells(*old(grid))),
        !cleared ==> *final(grid) == *old(grid),
        forall|f: int|
            is_first_full(cells(*old(grid)), f) ==> cells(*final(grid)) == shifted(
                cells(*old(grid)),
                f,
            ),
{
    let Some(first) = first_full_line(grid) else {
        return false;
    };
    let mut i: usize = first;
    while i >= 1
        invariant
            i <= first < GRID_HEIGHT,
            forall|r: int| 0 <= r <= i ==> grid@[r] == old(grid)@[r],
            forall|r: int| i < r <= first ==> grid@[r] == old(grid)@[r - 1],
            forall|r: int| first < r < GRID_HEIGHT ==> grid@[r] == old(grid)@[r],
        decreases i,
    {
        grid[i] = grid[i - 1];
        i -= 1;
    }
    assert(cells(*grid) =~= shifted(cells(*old(grid)), first as int));
    true
}

/// How many rows of the playfield are full.
pub fn count_full_lines(grid: &Grid) -> (count: u8)
    ensures
        count == full_rows(cells(*grid)),
{
    let ghost full = |row: Seq<Option<Color>>| row_full(row);
    let ghost rows = cells(*grid);
    let mut count: u8 = 0;
    let mut r: usize = 0;
    proof {
        reveal(Seq::filter);
        assert(rows.take(0) =~= Seq::<Seq<Option<Color>>>::empty());
    }
    while r < GRID_HEIGHT
        invariant
            r <= GRID_HEIGHT,
            rows == cells(*grid),
            full == |row: Seq<Option<Color>>| row_full(row),
            count == rows.take(r as int).filter(full).len(),
            count <= r,
        decreases GRID_HEIGHT - r,
    {
        proof {
            reveal(Seq::filter);
            assert(rows.take(r + 1).drop_last() =~= rows.take(r as int));
            assert(rows.take(r + 1).last() == rows[r as int]);
        }
        if is_line_full(grid, r) {
            count += 1;
        }
        r += 1;
    }
    assert(rows.take(GRID_HEIGHT as int) =~= rows);
    count
}

/// Filtering a one-row sequence keeps the row or drops it.
proof fn lemma_filter_one(row: Seq<Option<Color>>, pred: spec_fn(Seq<Option<Color>>) -> bool)
    ensures
        seq![row].filter(pred) == if pred(row) {
            seq![row]
        } else {
            Seq::<Seq<Option<Color>>>::empty()
        },
{
    reveal_with_fuel(Seq::filter, 2);
    assert(seq![row].drop_last() =~= Seq::<Seq<Option<Color>>>::empty());
    assert(Seq::<Seq<Option<Color>>>::empty().push(row) =~= seq![row]);
}

/// Where no row is full, every row is kept and none is counted.
proof fn lemma_no_full_row(rows: Cells)
    requires
        no_full_row(rows),
    ensures
        kept_rows(rows) == rows,
        full_rows(rows) == 0,
    decreases rows.len(),
{
    reveal(Seq::filter);
    if rows.len() > 0 {
        let rest = rows.drop_last();
        assert(no_full_row(rest)) by {
            assert forall|r: int| 0 <= r < rest.len() implies !row_full(#[trigger] rest[r]) by {
                assert(rest[r] == rows[r]);
            }
        }
        lemma_no_full_row(rest);
        assert(!row_full(rows[rows.len() - 1]));
        assert(rest.push(rows.last()) =~= rows);
    } else {
        assert(kept_rows(rows) =~= rows);
    }
}

/// Overwriting the topmost full row from above removes one full row and
/// leaves the result of removing all of them unchanged.
proof fn lemma_shifted(rows: Cells, f: int)
    requires
        is_first_full(rows, f),
        !row_full(rows[0]),
    ensures
        full_rows(shifted(rows, f)) + 1 == full_rows(rows),
        compacted(shifted(rows, f)) == compacted(rows),
        !row_full(shifted(rows, f)[0]),
{
    let full = |row: Seq<Option<Color>>| row_full(row);
    let kept = |row: Seq<Option<Color>>| !row_full(row);
    let top = seq![rows[0]];
    let above = rows.subrange(0, f);
    let hit = seq![rows[f]];
    let below = rows.subrange(f + 1, rows.len() as int);
    let after = shifted(rows, f);
    assert(rows =~= above + hit + below);
    assert(after =~= top + above + below);
    assert(no_full_row(above)) by {
        assert forall|r: int| 0 <= r < above.len() implies !row_full(#[trigger] above[r]) by {
            assert(above[r] == rows[r]);
        }
    }
    lemma_no_full_row(above);
    lemma_filter_one(rows[0], full);
    lemma_filter_one(rows[0], kept);
    lemma_filter_one(rows[f], full);
    lemma_filter_one(rows[f], kept);
    Seq::filter_distributes_over_add(above, hit, full);
    Seq::filter_distributes_over_add(above + hit, below, full);
    Seq::filter_distributes_over_add(above, hit, kept);
    Seq::filter_distributes_over_add(above + hit, below, kept);
    Seq::filter_distributes_over_add(top, above, full);
    Seq::filter_distributes_over_add(top + above, below, full);
    Seq::filter_distributes_over_add(top, above, kept);
    Seq::filter_distributes_over_add(top + above, below, kept);
    assert(kept_rows(rows) =~= above + kept_rows(below));
    assert(kept_rows(after) =~= top + above + kept_rows(below));
    assert(full_rows(rows) == full_rows(below) + 1);
    assert(full_rows(after) == full_rows(below));
    assert(after[0] == rows[0]);
    assert(compacted(after) =~= compacted(rows));
}

/// A sequence with a full row has a topmost full row.
proof fn lemma_first_full_exists(rows: Cells, f: int)
    requires
        0 <= f < rows.len(),
        row_full(rows[f]),
    ensures
        exists|first: int| is_first_full(rows, first),
    decreases f,
{
    if exists|r: int| 0 <= r < f && row_full(#[trigger] rows[r]) {
        let r = choose|r: int| 0 <= r < f && row_full(#[trigger] rows[r]);
        lemma_first_full_exists(rows, r);
    } else {
        assert(is_first_full(rows, f));
    }
}

/// Removing the full rows of a playfield whose top row is not full keeps the
/// number of rows and leaves no full row, and changes nothing exactly where
/// no row was full.
pub proof fn lemma_compacted(rows: Cells)
    requires
        rows.len() >= 1,
        !row_full(rows[0]),
    ensures
        compacted(rows).len() == rows.len(),
        no_full_row(compacted(rows)),
        full_rows(rows) == 0 <==> no_full_row(rows),
        compacted(rows) == rows <==> no_full_row(rows),
    decreases full_rows(rows),
{
    if no_full_row(rows) {
        lemma_no_full_row(rows);
        assert(compacted(rows) =~= rows);
    } else {
        let f = choose|f: int| 0 <= f < rows.len() && row_full(#[trigger] rows[f]);
        lemma_first_full_exists(rows, f);
        let first = choose|first: int| is_first_full(rows, first);
        lemma_shifted(rows, first);
        let after = shifted(rows, first);
        lemma_compacted(after);
        if compacted(rows) == rows {
            assert(row_full(compacted(rows)[f]));
        }
    }
}

/// Removes every full row, topmost first, each by moving the rows above it
/// down by one, and returns how many were removed.
///
/// The rows that were not full keep their order. The top row is never
/// overwritten, so it is left in place once more for each row removed: with
/// an empty top row, the space that the removed rows leave is empty. A full top
/// row has nothing above it to take its place, so such a playfield is not
/// accepted.
pub fn clear_lines(grid: &mut Grid) -> (count: u8)
    requires
        !row_full(cells(*old(grid))[0]),
    ensures
        count == full_rows(cells(*old(grid))),
        cells(*final(grid)) == compacted(cells(*old(grid))),
        no_full_row(cells(*final(grid))),
        count == 0 <==> no_full_row(cells(*old(grid))),
        count == 0 ==> *final(grid) == *old(grid),
{
    let mut count: u8 = 0;
    proof {
        cells(*old(grid)).lemma_filter_len(|row: Seq<Option<Color>>| row_full(row));
    }
    loop
        invariant
            !row_full(cells(*grid)[0]),
            count + full_rows(cells(*grid)) == full_rows(cells(*old(grid))),
            full_rows(cells(*old(grid))) <= GRID_HEIGHT,
            compacted(cells(*grid)) == compacted(cells(*old(grid))),
            count == 0 ==> *grid == *old(grid),
        ensures
            no_full_row(cells(*grid)),
            count + full_rows(cells(*grid)) == full_rows(cells(*old(grid))),
            compacted(cells(*grid)) == compacted(cells(*old(grid))),
            count == 0 ==> *grid == *old(grid),
        decreases full_rows(cells(*grid)),
    {
        let ghost before = cells(*grid);
        if !clear_one_line(grid) {
            break;
        }
        proof {
            let f = choose|f: int| 0 <= f < before.len() && row_full(#[trigger] before[f]);
            lemma_first_full_exists(before, f);
            let first = choose|first: int| is_first_full(before, first);
            lemma_shifted(before, first);
        }
        count += 1;
    }
    proof {
        lemma_no_full_row(cells(*grid));
        assert(compacted(cells(*grid)) =~= cells(*grid));
        if count == 0 {
            assert(no_full_row(cells(*old(grid))));
        } else {
            if no_full_row(cells(*old(grid))) {
                lemma_no_full_row(cells(*old(grid)));
            }
        }
    }
    count
}

} // verus!
