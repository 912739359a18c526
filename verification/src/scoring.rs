//! What cleared rows are worth, and how the level follows them.

use vstd::prelude::*;

verus! {

/// How a piece came to rest, which decides what its lines are worth.
#[derive(Copy, Clone, Debug, PartialEq, Eq, Structural)]
pub enum DropKind {
    /// By gravity or a soft drop: the lines count once.
    Normal,
    /// By a hard drop: the lines count one and a half times.
    Hard,
}

/// The points for clearing `rows` rows at once on level 1 with a normal drop.
/// More than four rows at once earn nothing.
pub open spec fn row_points(rows: nat) -> nat {
    if rows == 1 {
        100
    } else if rows == 2 {
        300
    } else if rows == 3 {
        500
    } else if rows == 4 {
        800
    } else {
        0
    }
}

/// The points for clearing `rows` rows at once on `level`: the points of the
/// table times the level, and half as much again for a hard drop.
pub open spec fn line_points(rows: nat, level: u64, kind: DropKind) -> nat {
    match kind {
        DropKind::Normal => (row_points(rows) * level) as nat,
        DropKind::Hard => (row_points(rows) * level * 3 / 2) as nat,
    }
}

/// The level after `total` rows have been cleared in all: a tenth of the
/// rows, but never below the level reached before.
pub open spec fn level_after(level: u64, total: nat) -> nat {
    if total / 10 > level {
        total / 10
    } else {
        level as nat
    }
}

/// The points that `rows` rows cleared at once earn on `level`, if they are
/// at most `room`.
pub fn points_within(rows: u8, level: u64, kind: DropKind, room: u64) -> (points: Option<u64>)
    ensures
        points is Some <==> line_points(rows as nat, level, kind) <= room,
        points matches Some(p) ==> p == line_points(rows as nat, level, kind),
{
    let base: u128 = if rows == 1 {
        100
    } else if rows == 2 {
        300
    } else if rows == 3 {
        500
    } else if rows == 4 {
        800
    } else {
        0
    };
    assert(base * level <= 800 * 0xffff_ffff_ffff_ffff) by (nonlinear_arith)
        requires
            base <= 800,
            level <= 0xffff_ffff_ffff_ffff,
    ;
    let scaled: u128 = base * (level as u128);
    let points: u128 = match kind {
        DropKind::Normal => scaled,
        DropKind::Hard => scaled * 3 / 2,
    };
    if points <= room as u128 {
        Some(points as u64)
    } else {
        None
    }
}

/// The points that `rows` rows cleared at once earn on `level`.
pub fn points_for(rows: u8, level: u64, kind: DropKind) -> (points: u64)
    requires
        line_points(rows as nat, level, kind) <= u64::MAX,
    ensures
        points == line_points(rows as nat, level, kind),
{
    points_within(rows, level, kind, u64::MAX).unwrap()
}

/// The level once `total` rows have been cleared in all, coming from
/// `level`.
pub fn next_level(level: u64, total: u64) -> (next: u64)
    ensures
        next == level_after(level, total as nat),
{
    if total / 10 > level {
        total / 10
    } else {
        level
    }
}

} // verus!
