//! The state machine of a game: what one tick does with the player's intent
//! and the time that has passed, and what locking a piece earns.

use vstd::prelude::*;
use crate::bag::{
    active,
    active_mut,
    canonical_pieces,
    freshly_filled,
    lemma_canonical_piece_fits,
    lemma_fresh_bag_is_sound,
    lock_active,
    new_bag,
    pieces,
    Bag,
};
use crate::grid::{
    cells,
    clear_lines,
    compacted,
    count_full_lines,
    empty_grid,
    full_rows,
    is_line_full,
    row_full,
    Cells,
    Grid,
    GRID_HEIGHT,
    GRID_WIDTH,
};
use crate::input::Intent;
use crate::leaderboard::{lemma_first_named, Entry, EntryError, LeaderBoard};
use crate::scoring::{line_points, level_after, next_level, points_for, points_within, DropKind};
use crate::tetromino::{
    lemma_fitting_piece_is_near,
    lemma_fitting_piece_stamps,
    lemma_sound_turns,
    Piece,
    Tetromino,
};

verus! {

/// What a tick ended with.
#[derive(Copy, Clone, Debug, PartialEq, Eq, Structural)]
pub enum GameEvent {
    /// The piece that came into play has no room: the game has ended.
    GameOver,
    /// The player asked to leave.
    Quit,
    /// The game goes on.
    Tick,
}

/// What a tick comes to, before it is carried out. `since` is the time
/// since the piece last fell, as the tick leaves it.
pub enum Step {
    /// The player leaves; nothing changes.
    Quit,
    /// The piece in play becomes `piece`, and the game goes on.
    Move { piece: Piece, since: int },
    /// `piece` is locked.
    Lock { piece: Piece, kind: DropKind, since: int },
}

/// Everything a game in progress holds.
pub struct GameContext {
    pub level: u64,
    pub score: u64,
    pub username: String,
    pub total_lines_cleared: u64,
    pub grid: Grid,
    pub bag: Bag,
    pub leaderboard: LeaderBoard,
}

/// The piece as the player's intent would have it: a column to the left or
/// to the right, or turned. The other intents leave the piece as it is.
pub open spec fn tentative(piece: Piece, intent: Option<Intent>) -> Piece {
    match intent {
        Some(Intent::MoveLeft) => piece.moved(-1, 0),
        Some(Intent::MoveRight) => piece.moved(1, 0),
        Some(Intent::RotateClockwise) => piece.rotated(),
        _ => piece,
    }
}

/// The piece after a wall kick: a column to the left if it fits there, else a
/// column to the right if it fits there, else nothing.
pub open spec fn kicked(piece: Piece, grid: Cells) -> Option<Piece> {
    if piece.moved(-1, 0).fits(grid) {
        Some(piece.moved(-1, 0))
    } else if piece.moved(1, 0).fits(grid) {
        Some(piece.moved(1, 0))
    } else {
        None
    }
}

/// The piece after it has fallen as far as it fits.
pub open spec fn landed(piece: Piece, grid: Cells) -> Piece
    decreases i8::MAX - piece.pos.y,
{
    if piece.pos.y < i8::MAX && piece.moved(0, 1).fits(grid) {
        landed(piece.moved(0, 1), grid)
    } else {
        piece
    }
}

impl GameContext {
    /// A game at its start, for the player `username`: level 1, no score, an
    /// empty playfield and a freshly filled bag. The player gets an entry on
    /// `leaderboard` unless the board has one under that name.
    pub fn new(username: String, leaderboard: LeaderBoard) -> (game: GameContext)
        ensures
            game.level == 1,
            game.score == 0,
            game.total_lines_cleared == 0,
            game.username == username,
            forall|r: int, c: int|
                0 <= r < GRID_HEIGHT && 0 <= c < GRID_WIDTH ==> (#[trigger] cells(
                    game.grid,
                )[r][c]) is None,
            freshly_filled(game.bag@),
            game.playable(),
            game.leaderboard.entrys@ == if leaderboard.position(username@)
                < leaderboard.entrys@.len() {
                leaderboard.entrys@
            } else {
                leaderboard.entrys@.push(Entry { level: 1, score: 0, username })
            },
    {
        let mut game = GameContext {
            level: 1,
            score: 0,
            username,
            total_lines_cleared: 0,
            grid: empty_grid(),
            bag: new_bag(),
            leaderboard,
        };
        proof {
            lemma_fresh_bag_is_sound(game.bag@);
            let piece = game.active();
            let k = choose|k: int|
                0 <= k < canonical_pieces().len() && canonical_pieces()[k] == piece;
            lemma_canonical_piece_fits(cells(game.grid), k);
        }
        let missing = game.leaderboard.get_entry(game.username.as_str()).is_none();
        proof {
            lemma_first_named(leaderboard.entrys@, username@, 0);
            assert(game.leaderboard.entrys@ =~= leaderboard.entrys@);
        }
        if missing {
            let entry = Entry::new(&game);
            game.leaderboard.add_entry(entry);
        }
        game
    }

    /// Offers the game's score and level to the board under the player's
    /// name: the player's entry takes them if the score is above its own.
    /// Fails if the board has no entry under that name.
    pub fn record(&mut self) -> (done: Result<(), EntryError>)
        ensures
            done is Ok <==> old(self).leaderboard.position(old(self).username@)
                < old(self).leaderboard.entrys@.len(),
            final(self).leaderboard.entrys@ == old(self).leaderboard.updated(
                old(self).username@,
                old(self).score,
                old(self).level,
            ),
            final(self).level == old(self).level,
            final(self).score == old(self).score,
            final(self).username == old(self).username,
            final(self).total_lines_cleared == old(self).total_lines_cleared,
            final(self).grid == old(self).grid,
            final(self).bag == old(self).bag,
    {
        self.leaderboard.update_entry(self.username.as_str(), self.score, self.level)
    }

    /// The playfield as it is shown: a copy with the piece in play stamped
    /// onto it. The game's own playfield is left alone.
    pub fn snapshot(&self) -> (shown: Grid)
        requires
            self.bag@.len() >= 1,
            self.active().fits(cells(self.grid)),
            self.active().distinct(),
        ensures
            cells(shown) == self.with_piece(self.active()),
    {
        let mut shown = self.grid;
        proof {
            lemma_fitting_piece_stamps(self.active(), cells(self.grid));
        }
        let _ = active(&self.bag).stamp_onto(&mut shown);
        shown
    }

    /// Whether the game can go on: the bag holds between one and seven
    /// pieces, every piece in it can be played, and the piece in play has room
    /// where it stands.
    pub fn is_playable(&self) -> (playable: bool)
        ensures
            playable == self.playable(),
    {
        if self.bag.len() == 0 || self.bag.len() > 7 {
            return false;
        }
        let mut i: usize = 0;
        while i < self.bag.len()
            invariant
                i <= self.bag.len(),
                forall|k: int| 0 <= k < i ==> (#[trigger] self.bag@[k])@.sound(),
            decreases self.bag.len() - i,
        {
            if !self.bag[i].is_sound() {
                return false;
            }
            i += 1;
        }
        active(&self.bag).collide(&self.grid).is_none()
    }

    /// Whether locking `piece` has a result: see [`GameContext::can_lock`].
    pub fn lock_allowed(&self, piece: &Tetromino, kind: DropKind) -> (allowed: bool)
        requires
            piece@.fits(cells(self.grid)),
            piece@.distinct(),
        ensures
            allowed == self.can_lock(piece@, kind),
    {
        let mut stamped = self.grid;
        proof {
            lemma_fitting_piece_stamps(piece@, cells(self.grid));
        }
        let _ = piece.stamp_onto(&mut stamped);
        if is_line_full(&stamped, 0) {
            return false;
        }
        let rows = count_full_lines(&stamped);
        if rows as u64 > u64::MAX - self.total_lines_cleared {
            return false;
        }
        match points_within(rows, self.level, kind, u64::MAX - self.score) {
            Some(_) => true,
            None => false,
        }
    }

    /// The piece that a tick would lock, with the kind of its drop, or `None`
    /// if the tick would lock none.
    fn pending_lock(
        &self,
        intent: Option<Intent>,
        elapsed: u128,
        since: u128,
        delay: u128,
    ) -> (pending: Option<(Tetromino, DropKind)>)
        requires
            self.playable(),
        ensures
            match self.step(intent, elapsed, since, delay) {
                Step::Lock { piece, kind, .. } => pending matches Some((locking, how))
                    && locking@ == piece && how == kind,
                _ => pending is None,
            },
            pending matches Some((locking, _)) ==> locking@.sound() && locking@.fits(
                cells(self.grid),
            ),
    {
        let ghost grid = cells(self.grid);
        let mut next_tetromino = active(&self.bag).clone();
        proof {
            lemma_fitting_piece_is_near(self.active(), grid);
            lemma_sound_turns(self.active());
        }
        match intent {
            Some(Intent::Quit) => {
                return None;
            },
            Some(Intent::MoveLeft) => {
                next_tetromino.pos.x -= 1;
            },
            Some(Intent::MoveRight) => {
                next_tetromino.pos.x += 1;
            },
            Some(Intent::RotateClockwise) => {
                next_tetromino.rotate();
            },
            Some(Intent::SoftDrop) => {
                drop_down(&mut next_tetromino, &self.grid);
                return Some((next_tetromino, DropKind::Normal));
            },
            Some(Intent::HardDrop) => {
                drop_down(&mut next_tetromino, &self.grid);
                return Some((next_tetromino, DropKind::Hard));
            },
            None => {},
        }
        assert(next_tetromino@ == tentative(self.active(), intent));
        if next_tetromino.collide(&self.grid).is_some() {
            return None;
        }
        if !gravity_due(elapsed, since, delay) {
            return None;
        }
        proof {
            lemma_fitting_piece_is_near(next_tetromino@, grid);
        }
        if next_tetromino.try_move_down(&self.grid).is_ok() {
            return None;
        }
        Some((active(&self.bag).clone(), DropKind::Normal))
    }

    /// The piece in play.
    pub open spec fn active(self) -> Piece {
        self.bag@.last()@
    }

    /// The bag holds between one and seven pieces, and every piece in it can
    /// be played.
    pub open spec fn well_formed(self) -> bool {
        &&& 1 <= self.bag@.len() <= 7
        &&& forall|i: int| 0 <= i < self.bag@.len() ==> (#[trigger] self.bag@[i])@.sound()
    }

    /// The game can go on: it is well formed, and the piece in play has room
    /// where it stands.
    pub open spec fn playable(self) -> bool {
        &&& self.well_formed()
        &&& self.active().fits(cells(self.grid))
    }

    /// `after` is this game with `piece` in play in place of the piece that
    /// was.
    pub open spec fn moves_into(self, piece: Piece, after: GameContext) -> bool {
        &&& pieces(after.bag@) == pieces(self.bag@).drop_last().push(piece)
        &&& after.grid == self.grid
        &&& after.level == self.level
        &&& after.score == self.score
        &&& after.total_lines_cleared == self.total_lines_cleared
        &&& after.username == self.username
        &&& after.leaderboard == self.leaderboard
    }

    /// What a tick comes to, given the player's intent, the time `elapsed`
    /// since the tick before, the time `since` the piece last fell, as that
    /// tick left it, and the time `delay` after which the piece falls again.
    ///
    /// To quit ends the tick at once. A drop lets the piece fall as far as it
    /// fits and locks it there. Otherwise the piece is moved or turned as
    /// asked. If it then has no room, a wall kick is tried, and the piece stays
    /// as it was where none helps; gravity is passed over for this tick, and
    /// its time is not counted. If the piece has room, the time of the tick is
    /// counted; once `delay` is reached, the count starts anew and the piece
    /// falls by a row, or, where it cannot, the piece as it was before the
    /// tick is locked.
    pub open spec fn step(
        self,
        intent: Option<Intent>,
        elapsed: u128,
        since: u128,
        delay: u128,
    ) -> Step {
        let grid = cells(self.grid);
        let next = tentative(self.active(), intent);
        match intent {
            Some(Intent::Quit) => Step::Quit,
            Some(Intent::SoftDrop) => Step::Lock {
                piece: landed(self.active(), grid),
                kind: DropKind::Normal,
                since: since as int,
            },
            Some(Intent::HardDrop) => Step::Lock {
                piece: landed(self.active(), grid),
                kind: DropKind::Hard,
                since: since as int,
            },
            _ => if !next.fits(grid) {
                match kicked(next, grid) {
                    Some(piece) => Step::Move { piece, since: since as int },
                    None => Step::Move { piece: self.active(), since: since as int },
                }
            } else if since + elapsed < delay {
                Step::Move { piece: next, since: since + elapsed }
            } else if next.moved(0, 1).fits(grid) {
                Step::Move { piece: next.moved(0, 1), since: 0 }
            } else {
                Step::Lock { piece: self.active(), kind: DropKind::Normal, since: 0 }
            },
        }
    }

    /// The playfield with `piece` stamped whole onto it.
    pub open spec fn with_piece(self, piece: Piece) -> Cells {
        piece.stamped(cells(self.grid), piece.blocks.len() as int)
    }

    /// Locking `piece` has a result: the top row is not full once the piece
    /// is stamped, so that the full rows can be cleared, and the score and the
    /// count of cleared rows stay within `u64`.
    pub open spec fn can_lock(self, piece: Piece, kind: DropKind) -> bool {
        &&& !row_full(self.with_piece(piece)[0])
        &&& self.score + line_points(full_rows(self.with_piece(piece)), self.level, kind)
            <= u64::MAX
        &&& self.total_lines_cleared + full_rows(self.with_piece(piece)) <= u64::MAX
    }

    /// `after` and `event` are what locking `piece` makes of this game: the
    /// piece is stamped and leaves the bag, which is filled anew if that
    /// empties it; the full rows are cleared and paid for; the level follows
    /// the rows cleared in all; and the game is over if the piece that comes
    /// into play has no room.
    pub open spec fn locks_into(
        self,
        piece: Piece,
        kind: DropKind,
        after: GameContext,
        event: GameEvent,
    ) -> bool {
        let rows = full_rows(self.with_piece(piece));
        &&& cells(after.grid) == compacted(self.with_piece(piece))
        &&& after.score == self.score + line_points(rows, self.level, kind)
        &&& after.total_lines_cleared == self.total_lines_cleared + rows
        &&& after.level == level_after(self.level, after.total_lines_cleared as nat)
        &&& after.username == self.username
        &&& after.leaderboard == self.leaderboard
        &&& if self.bag@.len() == 1 {
            freshly_filled(after.bag@) && after.bag@.len() == 7
        } else {
            pieces(after.bag@) == pieces(self.bag@).drop_last()
        }
        &&& event == if after.active().fits(cells(after.grid)) {
            GameEvent::Tick
        } else {
            GameEvent::GameOver
        }
    }
}

/// Locks the piece in play: stamps it onto the playfield, takes it out of the
/// bag and refills the bag if that empties it, clears the full rows, adds
/// their points to the score and their number to the rows cleared in all,
/// raises the level to a tenth of those rows if that is more, and reports
/// whether the piece that comes into play has room.
pub fn place_down(game_context: &mut GameContext, kind: DropKind) -> (event: GameEvent)
    requires
        old(game_context).bag@.len() >= 1,
        old(game_context).active().fits(cells(old(game_context).grid)),
        old(game_context).active().distinct(),
        old(game_context).can_lock(old(game_context).active(), kind),
    ensures
        old(game_context).locks_into(
            old(game_context).active(),
            kind,
            *final(game_context),
            event,
        ),
{
    proof {
        lemma_fitting_piece_stamps(game_context.active(), cells(game_context.grid));
    }
    let piece = lock_active(&mut game_context.bag);
    let stamped = piece.stamp_onto(&mut game_context.grid);
    assert(stamped is Ok);
    if game_context.bag.is_empty() {
        game_context.bag = new_bag();
    } else {
        assert(pieces(game_context.bag@) =~= pieces(old(game_context).bag@).drop_last());
    }
    let lines = clear_lines(&mut game_context.grid);
    let points = points_for(lines, game_context.level, kind);
    game_context.score += points;
    game_context.total_lines_cleared += lines as u64;
    game_context.level = next_level(game_context.level, game_context.total_lines_cleared);
    if active(&game_context.bag).collide(&game_context.grid).is_some() {
        GameEvent::GameOver
    } else {
        GameEvent::Tick
    }
}

/// Lets `piece` fall as far as it fits.
fn drop_down(piece: &mut Tetromino, grid: &Grid)
    requires
        old(piece)@.sound(),
        old(piece)@.fits(cells(*grid)),
    ensures
        final(piece)@ == landed(old(piece)@, cells(*grid)),
        final(piece)@.sound(),
        final(piece)@.fits(cells(*grid)),
{
    loop
        invariant
            piece@.sound(),
            piece@.fits(cells(*grid)),
            landed(piece@, cells(*grid)) == landed(old(piece)@, cells(*grid)),
        ensures
            piece@.sound(),
            piece@.fits(cells(*grid)),
            piece@ == landed(old(piece)@, cells(*grid)),
        decreases i8::MAX - piece.pos.y,
    {
        proof {
            lemma_fitting_piece_is_near(piece@, cells(*grid));
        }
        if piece.try_move_down(grid).is_err() {
            break;
        }
    }
}

/// Lets `next_tetromino` fall as far as it fits, puts it in play in place
/// of the piece that was, and locks it there.
pub fn hard_drop(
    next_tetromino: &mut Tetromino,
    game_context: &mut GameContext,
    kind: DropKind,
) -> (event: GameEvent)
    requires
        old(game_context).bag@.len() >= 1,
        old(next_tetromino)@.sound(),
        old(next_tetromino)@.fits(cells(old(game_context).grid)),
        old(game_context).can_lock(
            landed(old(next_tetromino)@, cells(old(game_context).grid)),
            kind,
        ),
    ensures
        final(next_tetromino)@ == landed(old(next_tetromino)@, cells(old(game_context).grid)),
        old(game_context).locks_into(final(next_tetromino)@, kind, *final(game_context), event),
{
    drop_down(next_tetromino, &game_context.grid);
    *active_mut(&mut game_context.bag) = next_tetromino.clone();
    assert(pieces(game_context.bag@).drop_last() =~= pieces(
        old(game_context).bag@,
    ).drop_last());
    place_down(game_context, kind)
}

/// Whether the time since the piece last fell, with the time of this tick
/// counted in, has reached the delay.
pub fn gravity_due(elapsed: u128, since: u128, delay: u128) -> (due: bool)
    ensures
        due == (since + elapsed >= delay),
{
    since >= delay || elapsed >= delay - since
}

/// One tick of the game: applies the player's intent to the piece in play,
/// tries a wall kick where the piece then has no room, counts the time of
/// the tick and lets the piece fall once `delay` has passed since it last
/// fell, and locks it where it has landed.
///
/// `elapsed` is the time since the tick before, `time_since_last_move` the
/// time since the piece last fell, which the tick brings up to date, and
/// `delay` the time after which the piece falls again, all in one unit. See
/// [`GameContext::step`] for what the tick comes to.
pub fn update(
    game_context: &mut GameContext,
    intent: Option<Intent>,
    elapsed: u128,
    time_since_last_move: &mut u128,
    delay: u128,
) -> (event: GameEvent)
    requires
        old(game_context).playable(),
        match old(game_context).step(intent, elapsed, *old(time_since_last_move), delay) {
            Step::Lock { piece, kind, .. } => old(game_context).can_lock(piece, kind),
            _ => true,
        },
    ensures
        match old(game_context).step(intent, elapsed, *old(time_since_last_move), delay) {
            Step::Quit => {
                &&& event == GameEvent::Quit
                &&& *final(game_context) == *old(game_context)
                &&& *final(time_since_last_move) == *old(time_since_last_move)
            },
            Step::Move { piece, since } => {
                &&& event == GameEvent::Tick
                &&& old(game_context).moves_into(piece, *final(game_context))
                &&& *final(time_since_last_move) == since
            },
            Step::Lock { piece, kind, since } => {
                &&& old(game_context).locks_into(piece, kind, *final(game_context), event)
                &&& *final(time_since_last_move) == since
            },
        },
        final(game_context).well_formed(),
        event != GameEvent::GameOver ==> final(game_context).playable(),
        final(game_context).score >= old(game_context).score,
        final(game_context).level >= old(game_context).level,
        final(game_context).total_lines_cleared >= old(game_context).total_lines_cleared,
{
    let ghost grid = cells(game_context.grid);
    let ghost was = game_context.active();
    let mut next_tetromino = active(&game_context.bag).clone();
    proof {
        lemma_fitting_piece_is_near(was, grid);
        lemma_sound_turns(was);
    }
    match intent {
        Some(Intent::Quit) => {
            return GameEvent::Quit;
        },
        Some(Intent::MoveLeft) => {
            next_tetromino.pos.x -= 1;
        },
        Some(Intent::MoveRight) => {
            next_tetromino.pos.x += 1;
        },
        Some(Intent::RotateClockwise) => {
            next_tetromino.rotate();
        },
        Some(Intent::SoftDrop) => {
            let event = hard_drop(&mut next_tetromino, game_context, DropKind::Normal);
            proof {
                lemma_locked_game(
                    *old(game_context),
                    next_tetromino@,
                    DropKind::Normal,
                    *game_context,
                    event,
                );
            }
            return event;
        },
        Some(Intent::HardDrop) => {
            let event = hard_drop(&mut next_tetromino, game_context, DropKind::Hard);
            proof {
                lemma_locked_game(
                    *old(game_context),
                    next_tetromino@,
                    DropKind::Hard,
                    *game_context,
                    event,
                );
            }
            return event;
        },
        None => {},
    }
    if next_tetromino.collide(&game_context.grid).is_some() {
        wall_kick(game_context, &next_tetromino);
        return GameEvent::Tick;
    }
    if !gravity_due(elapsed, *time_since_last_move, delay) {
        *time_since_last_move += elapsed;
    } else {
        *time_since_last_move = 0;
        proof {
            lemma_fitting_piece_is_near(next_tetromino@, grid);
        }
        if next_tetromino.try_move_down(&game_context.grid).is_err() {
            let event = place_down(game_context, DropKind::Normal);
            proof {
                lemma_locked_game(
                    *old(game_context),
                    was,
                    DropKind::Normal,
                    *game_context,
                    event,
                );
            }
            return event;
        }
    }
    put_in_play(game_context, next_tetromino);
    GameEvent::Tick
}

/// The columns by which a piece that has no room is moved to find room.
pub const WALL_KICK_OFFSETS: [i8; 2] = [-1, 1];

/// Tries the wall kicks on `next_tetromino` in their order and puts the first
/// kicked piece that fits in play. Where none fits, the piece in play stays.
fn wall_kick(game_context: &mut GameContext, next_tetromino: &Tetromino)
    requires
        old(game_context).well_formed(),
        old(game_context).active().fits(cells(old(game_context).grid)),
        next_tetromino@.sound(),
        i8::MIN < next_tetromino.pos.x < i8::MAX,
    ensures
        old(game_context).moves_into(
            match kicked(next_tetromino@, cells(old(game_context).grid)) {
                Some(piece) => piece,
                None => old(game_context).active(),
            },
            *final(game_context),
        ),
        final(game_context).playable(),
{
    let mut k: usize = 0;
    while k < 2
        invariant
            k <= 2,
            *game_context == *old(game_context),
            game_context.well_formed(),
            game_context.active().fits(cells(game_context.grid)),
            next_tetromino@.sound(),
            i8::MIN < next_tetromino.pos.x < i8::MAX,
            k >= 1 ==> !next_tetromino@.moved(-1, 0).fits(cells(game_context.grid)),
            k >= 2 ==> !next_tetromino@.moved(1, 0).fits(cells(game_context.grid)),
        decreases 2 - k,
    {
        let mut kicked_tetromino = next_tetromino.clone();
        kicked_tetromino.pos.x += WALL_KICK_OFFSETS[k];
        if kicked_tetromino.collide(&game_context.grid).is_none() {
            put_in_play(game_context, kicked_tetromino);
            return;
        }
        k += 1;
    }
    assert(pieces(game_context.bag@) =~= pieces(game_context.bag@).drop_last().push(
        game_context.active(),
    ));
}

/// Puts `piece` in play in place of the piece that was.
fn put_in_play(game_context: &mut GameContext, piece: Tetromino)
    requires
        old(game_context).well_formed(),
        piece@.sound(),
        piece@.fits(cells(old(game_context).grid)),
    ensures
        old(game_context).moves_into(piece@, *final(game_context)),
        final(game_context).playable(),
{
    *active_mut(&mut game_context.bag) = piece;
    proof {
        lemma_moved_game(*old(game_context), piece@, *game_context);
    }
}

/// One tick of the game, for any game and any input: does what [`update`]
/// does and returns its event, or does nothing and returns `None` where the
/// game is not playable or where the tick would lock a piece that cannot be
/// locked.
pub fn try_update(
    game_context: &mut GameContext,
    intent: Option<Intent>,
    elapsed: u128,
    time_since_last_move: &mut u128,
    delay: u128,
) -> (event: Option<GameEvent>)
    ensures
        event is Some <==> {
            &&& old(game_context).playable()
            &&& match old(game_context).step(
                intent,
                elapsed,
                *old(time_since_last_move),
                delay,
            ) {
                Step::Lock { piece, kind, .. } => old(game_context).can_lock(piece, kind),
                _ => true,
            }
        },
        event is None ==> {
            &&& *final(game_context) == *old(game_context)
            &&& *final(time_since_last_move) == *old(time_since_last_move)
        },
        event matches Some(e) ==> match old(game_context).step(
            intent,
            elapsed,
            *old(time_since_last_move),
            delay,
        ) {
            Step::Quit => {
                &&& e == GameEvent::Quit
                &&& *final(game_context) == *old(game_context)
                &&& *final(time_since_last_move) == *old(time_since_last_move)
            },
            Step::Move { piece, since } => {
                &&& e == GameEvent::Tick
                &&& old(game_context).moves_into(piece, *final(game_context))
                &&& *final(time_since_last_move) == since
            },
            Step::Lock { piece, kind, since } => {
                &&& old(game_context).locks_into(piece, kind, *final(game_context), e)
                &&& *final(time_since_last_move) == since
            },
        },
        event is Some ==> {
            &&& final(game_context).well_formed()
            &&& event != Some(GameEvent::GameOver) ==> final(game_context).playable()
            &&& final(game_context).score >= old(game_context).score
            &&& final(game_context).level >= old(game_context).level
            &&& final(game_context).total_lines_cleared >= old(game_context).total_lines_cleared
        },
{
    if !game_context.is_playable() {
        return None;
    }
    match game_context.pending_lock(intent, elapsed, *time_since_last_move, delay) {
        Some((piece, kind)) => {
            if !game_context.lock_allowed(&piece, kind) {
                return None;
            }
        },
        None => {},
    }
    Some(update(game_context, intent, elapsed, time_since_last_move, delay))
}

/// A playable game stays playable when a sound piece that fits comes into
/// play in place of the piece that was.
proof fn lemma_moved_game(before: GameContext, piece: Piece, after: GameContext)
    requires
        before.well_formed(),
        piece.sound(),
        piece.fits(cells(before.grid)),
        after.bag@ == before.bag@.drop_last().push(after.bag@.last()),
        after.bag@.last()@ == piece,
        after.grid == before.grid,
    ensures
        pieces(after.bag@) == pieces(before.bag@).drop_last().push(piece),
        after.playable(),
{
    assert(pieces(after.bag@) =~= pieces(before.bag@).drop_last().push(piece));
    assert forall|i: int| 0 <= i < after.bag@.len() implies (#[trigger] after.bag@[i])@.sound()
        by {
        if i < after.bag@.len() - 1 {
            assert(after.bag@[i] == before.bag@[i]);
        }
    }
}

/// A well-formed game is well formed after a piece is locked, never loses
/// score, level or cleared rows by it, and is playable unless it is over.
proof fn lemma_locked_game(
    before: GameContext,
    piece: Piece,
    kind: DropKind,
    after: GameContext,
    event: GameEvent,
)
    requires
        before.well_formed(),
        before.locks_into(piece, kind, after, event),
    ensures
        after.well_formed(),
        event != GameEvent::GameOver ==> after.playable(),
        after.score >= before.score,
        after.level >= before.level,
        after.total_lines_cleared >= before.total_lines_cleared,
{
    if before.bag@.len() == 1 {
        lemma_fresh_bag_is_sound(after.bag@);
    } else {
        assert(pieces(after.bag@).len() == after.bag@.len());
        assert(pieces(before.bag@).len() == before.bag@.len());
        assert forall|i: int|
            0 <= i < after.bag@.len() implies (#[trigger] after.bag@[i])@.sound() by {
            assert(pieces(after.bag@)[i] == pieces(before.bag@).drop_last()[i]);
            assert(pieces(after.bag@)[i] == after.bag@[i]@);
            assert(pieces(before.bag@)[i] == before.bag@[i]@);
        }
    }
}

} // verus!
