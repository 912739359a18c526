use tetris::game::{
    gravity_due, hard_drop, place_down, try_update, update, GameContext, GameEvent,
};
use tetris::grid::{empty_grid, Color, Grid, GRID_HEIGHT, GRID_WIDTH};
use tetris::input::Intent;
use tetris::leaderboard::{Entry, EntryError, LeaderBoard};
use tetris::scoring::DropKind;
use tetris::tetromino::Tetromino;
use tetris::vec2::Vec2;

fn piece(blocks: &[(i8, i8)], x: i8, y: i8, color: Color) -> Tetromino {
    Tetromino {
        blocks: blocks.iter().map(|&(bx, by)| Vec2::new(bx, by)).collect(),
        does_rotate: true,
        pos: Vec2::new(x, y),
        color,
    }
}

fn bar(x: i8, y: i8) -> Tetromino {
    piece(&[(-1, 0), (0, 0), (1, 0), (2, 0)], x, y, Color::Red)
}

fn tee(x: i8, y: i8) -> Tetromino {
    piece(&[(0, 0), (1, 0), (-1, 0), (0, 1)], x, y, Color::Yellow)
}

fn square(x: i8, y: i8) -> Tetromino {
    let mut t = piece(&[(0, 0), (1, 0), (0, 1), (1, 1)], x, y, Color::Blue);
    t.does_rotate = false;
    t
}

fn game(grid: Grid, bag: Vec<Tetromino>) -> GameContext {
    GameContext {
        level: 1,
        score: 0,
        username: "ann".to_string(),
        total_lines_cleared: 0,
        grid,
        bag,
        leaderboard: LeaderBoard { entrys: Vec::new() },
    }
}

fn fill_row_but(grid: &mut Grid, row: usize, gaps: &[usize], color: Color) {
    for col in 0..GRID_WIDTH {
        if !gaps.contains(&col) {
            grid[row][col] = Some(color);
        }
    }
}

fn offsets(t: &Tetromino) -> Vec<(i8, i8)> {
    t.blocks.iter().map(|b| (b.x, b.y)).collect()
}

fn last(g: &GameContext) -> &Tetromino {
    g.bag.last().expect("the bag holds a piece")
}

#[test]
fn a_new_game_starts_on_level_one_with_an_empty_grid_and_a_full_bag() {
    let g = GameContext::new("ann".to_string(), LeaderBoard { entrys: Vec::new() });
    assert_eq!(g.level, 1);
    assert_eq!(g.score, 0);
    assert_eq!(g.total_lines_cleared, 0);
    assert_eq!(g.username, "ann");
    assert_eq!(g.grid, empty_grid());
    assert_eq!(g.bag.len(), 7);
    assert!(g.is_playable());
}

#[test]
fn a_new_game_gives_a_new_player_an_entry() {
    let g = GameContext::new("ann".to_string(), LeaderBoard { entrys: Vec::new() });
    assert_eq!(g.leaderboard.entrys.len(), 1);
    assert_eq!(g.leaderboard.entrys[0].username, "ann");
    assert_eq!(g.leaderboard.entrys[0].score, 0);
    assert_eq!(g.leaderboard.entrys[0].level, 1);
}

#[test]
fn a_new_game_keeps_the_entry_of_a_known_player() {
    let known = LeaderBoard {
        entrys: vec![
            Entry { level: 2, score: 50, username: "bob".to_string() },
            Entry { level: 7, score: 9000, username: "ann".to_string() },
        ],
    };
    let g = GameContext::new("ann".to_string(), known);
    assert_eq!(g.leaderboard.entrys.len(), 2);
    assert_eq!(g.leaderboard.entrys[1].username, "ann");
    assert_eq!(g.leaderboard.entrys[1].score, 9000);
    assert_eq!(g.leaderboard.entrys[1].level, 7);
    assert_eq!(g.score, 0);
    assert_eq!(g.level, 1);
}

#[test]
fn record_raises_the_entry_only_for_a_higher_score() {
    let known = LeaderBoard {
        entrys: vec![Entry { level: 7, score: 9000, username: "ann".to_string() }],
    };
    let mut g = GameContext::new("ann".to_string(), known);
    g.score = 8999;
    g.level = 9;
    assert_eq!(g.record(), Ok(()));
    assert_eq!(g.leaderboard.entrys[0].score, 9000);
    assert_eq!(g.leaderboard.entrys[0].level, 7);
    g.score = 9001;
    g.level = 3;
    assert_eq!(g.record(), Ok(()));
    assert_eq!(g.leaderboard.entrys[0].score, 9001);
    assert_eq!(g.leaderboard.entrys[0].level, 3);
    assert_eq!(g.score, 9001);
}

#[test]
fn record_fails_without_an_entry_for_the_player() {
    let mut g = game(empty_grid(), vec![bar(5, 1)]);
    g.score = 10;
    assert_eq!(g.record(), Err(EntryError::EntryNotFount));
    assert!(g.leaderboard.entrys.is_empty());
}

#[test]
fn quit_ends_the_tick_and_changes_nothing() {
    let mut g = game(empty_grid(), vec![tee(5, 1), bar(5, 3)]);
    let mut since = 99u128;
    assert_eq!(update(&mut g, Some(Intent::Quit), 0, &mut since, 10), GameEvent::Quit);
    assert_eq!(since, 99);
    assert_eq!(g.grid, empty_grid());
    assert_eq!(g.bag.len(), 2);
    assert_eq!(last(&g).pos, Vec2::new(5, 3));
    assert_eq!(g.score, 0);
}

#[test]
fn a_tick_without_intent_before_the_delay_leaves_the_piece() {
    let mut g = game(empty_grid(), vec![bar(5, 3)]);
    let mut since = 9u128;
    assert_eq!(update(&mut g, None, 0, &mut since, 10), GameEvent::Tick);
    assert_eq!(last(&g).pos, Vec2::new(5, 3));
    assert_eq!(since, 9);
}

#[test]
fn gravity_moves_the_piece_one_row_once_the_delay_is_reached() {
    let mut g = game(empty_grid(), vec![bar(5, 3)]);
    let mut since = 10u128;
    assert_eq!(update(&mut g, None, 0, &mut since, 10), GameEvent::Tick);
    assert_eq!(last(&g).pos, Vec2::new(5, 4));
    assert_eq!(since, 0);
    let mut later = 25u128;
    assert_eq!(update(&mut g, None, 0, &mut later, 10), GameEvent::Tick);
    assert_eq!(last(&g).pos, Vec2::new(5, 5));
    assert_eq!(later, 0);
    assert_eq!(g.grid, empty_grid());
}

#[test]
fn the_time_of_a_tick_is_counted_until_the_delay_is_reached() {
    let mut g = game(empty_grid(), vec![bar(5, 3)]);
    let mut since = 0u128;
    assert_eq!(update(&mut g, None, 4, &mut since, 10), GameEvent::Tick);
    assert_eq!((since, last(&g).pos), (4, Vec2::new(5, 3)));
    assert_eq!(update(&mut g, None, 5, &mut since, 10), GameEvent::Tick);
    assert_eq!((since, last(&g).pos), (9, Vec2::new(5, 3)));
    assert_eq!(update(&mut g, None, 1, &mut since, 10), GameEvent::Tick);
    assert_eq!((since, last(&g).pos), (0, Vec2::new(5, 4)));
    assert_eq!(update(&mut g, None, 25, &mut since, 10), GameEvent::Tick);
    assert_eq!((since, last(&g).pos), (0, Vec2::new(5, 5)));
    assert_eq!(update(&mut g, None, 0, &mut since, 0), GameEvent::Tick);
    assert_eq!((since, last(&g).pos), (0, Vec2::new(5, 6)));
}

#[test]
fn the_count_of_time_does_not_leave_its_type() {
    let mut g = game(empty_grid(), vec![bar(5, 3)]);
    let mut since = u128::MAX - 1;
    assert_eq!(update(&mut g, None, u128::MAX, &mut since, u128::MAX), GameEvent::Tick);
    assert_eq!((since, last(&g).pos), (0, Vec2::new(5, 4)));
    let mut short = u128::MAX - 2;
    assert_eq!(update(&mut g, None, 1, &mut short, u128::MAX), GameEvent::Tick);
    assert_eq!((short, last(&g).pos), (u128::MAX - 1, Vec2::new(5, 4)));
}

#[test]
fn the_time_of_a_kicked_tick_and_of_a_drop_is_not_counted() {
    let mut g = game(empty_grid(), vec![tee(5, 1), bar(1, 3)]);
    let mut since = 3u128;
    assert_eq!(update(&mut g, Some(Intent::MoveLeft), 100, &mut since, 10), GameEvent::Tick);
    assert_eq!((since, last(&g).pos), (3, Vec2::new(1, 3)));
    assert_eq!(update(&mut g, Some(Intent::Quit), 100, &mut since, 10), GameEvent::Quit);
    assert_eq!(since, 3);
    assert_eq!(update(&mut g, Some(Intent::HardDrop), 100, &mut since, 10), GameEvent::Tick);
    assert_eq!(since, 3);
    assert_eq!(g.bag.len(), 1);
}

#[test]
fn moves_shift_the_piece_by_one_column() {
    let mut g = game(empty_grid(), vec![bar(5, 3)]);
    let mut since = 0u128;
    assert_eq!(update(&mut g, Some(Intent::MoveLeft), 0, &mut since, 10), GameEvent::Tick);
    assert_eq!(last(&g).pos, Vec2::new(4, 3));
    assert_eq!(update(&mut g, Some(Intent::MoveRight), 0, &mut since, 10), GameEvent::Tick);
    assert_eq!(update(&mut g, Some(Intent::MoveRight), 0, &mut since, 10), GameEvent::Tick);
    assert_eq!(last(&g).pos, Vec2::new(6, 3));
    assert_eq!(since, 0);
}

#[test]
fn a_move_and_gravity_act_in_one_tick() {
    let mut g = game(empty_grid(), vec![bar(5, 3)]);
    let mut since = 10u128;
    assert_eq!(update(&mut g, Some(Intent::MoveLeft), 0, &mut since, 10), GameEvent::Tick);
    assert_eq!(last(&g).pos, Vec2::new(4, 4));
    assert_eq!(since, 0);
}

#[test]
fn rotate_turns_the_piece_in_play() {
    let mut g = game(empty_grid(), vec![bar(5, 3)]);
    let mut since = 0u128;
    assert_eq!(update(&mut g, Some(Intent::RotateClockwise), 0, &mut since, 10), GameEvent::Tick);
    assert_eq!(offsets(last(&g)), vec![(0, -1), (0, 0), (0, 1), (0, 2)]);
    assert_eq!(last(&g).pos, Vec2::new(5, 3));
}

#[test]
fn rotate_leaves_the_square_as_it_is() {
    let mut g = game(empty_grid(), vec![square(5, 3)]);
    let mut since = 0u128;
    assert_eq!(update(&mut g, Some(Intent::RotateClockwise), 0, &mut since, 10), GameEvent::Tick);
    assert_eq!(offsets(last(&g)), vec![(0, 0), (1, 0), (0, 1), (1, 1)]);
}

#[test]
fn a_move_into_the_wall_is_kicked_back_and_gravity_is_passed_over() {
    let mut g = game(empty_grid(), vec![bar(1, 3)]);
    let mut since = 50u128;
    assert_eq!(update(&mut g, Some(Intent::MoveLeft), 0, &mut since, 10), GameEvent::Tick);
    assert_eq!(last(&g).pos, Vec2::new(1, 3));
    assert_eq!(since, 50);
    let mut right = game(empty_grid(), vec![bar(7, 3)]);
    assert_eq!(update(&mut right, Some(Intent::MoveRight), 0, &mut since, 10), GameEvent::Tick);
    assert_eq!(last(&right).pos, Vec2::new(7, 3));
    assert_eq!(since, 50);
}

#[test]
fn a_turn_into_the_wall_is_kicked_one_column_off_it() {
    let mut upright = bar(0, 5);
    upright.rotate();
    upright.rotate();
    upright.rotate();
    assert_eq!(offsets(&upright), vec![(0, 1), (0, 0), (0, -1), (0, -2)]);
    let mut g = game(empty_grid(), vec![upright]);
    let mut since = 50u128;
    assert_eq!(update(&mut g, Some(Intent::RotateClockwise), 0, &mut since, 10), GameEvent::Tick);
    assert_eq!(offsets(last(&g)), vec![(-1, 0), (0, 0), (1, 0), (2, 0)]);
    assert_eq!(last(&g).pos, Vec2::new(1, 5));
    assert_eq!(since, 50);
}

#[test]
fn the_left_kick_is_tried_before_the_right_one() {
    let mut grid = empty_grid();
    grid[5][5] = Some(Color::White);
    let mut g = game(grid, vec![piece(&[(0, 0)], 4, 5, Color::Red)]);
    let mut since = 0u128;
    assert_eq!(update(&mut g, Some(Intent::MoveRight), 0, &mut since, 10), GameEvent::Tick);
    assert_eq!(last(&g).pos, Vec2::new(4, 5));
    let turned = piece(&[(0, 0), (0, 1)], 5, 5, Color::Red);
    let mut blocked = empty_grid();
    blocked[5][4] = Some(Color::White);
    let mut h = game(blocked, vec![turned]);
    assert_eq!(update(&mut h, Some(Intent::RotateClockwise), 0, &mut since, 10), GameEvent::Tick);
    assert_eq!(offsets(last(&h)), vec![(0, 0), (-1, 0)]);
    assert_eq!(last(&h).pos, Vec2::new(6, 5));
}

#[test]
fn a_move_that_no_kick_saves_is_dropped() {
    let mut grid = empty_grid();
    grid[4][3] = Some(Color::White);
    grid[4][4] = Some(Color::White);
    grid[4][6] = Some(Color::White);
    let upright = piece(&[(0, 0), (0, 1)], 5, 4, Color::Red);
    let mut g = game(grid, vec![upright]);
    let mut since = 50u128;
    assert_eq!(update(&mut g, Some(Intent::RotateClockwise), 0, &mut since, 10), GameEvent::Tick);
    assert_eq!(offsets(last(&g)), vec![(0, 0), (0, 1)]);
    assert_eq!(last(&g).pos, Vec2::new(5, 4));
    assert_eq!(since, 50);
    assert_eq!(g.grid, grid);
}

#[test]
fn a_bar_that_completes_the_bottom_row_earns_one_line() {
    let mut grid = empty_grid();
    fill_row_but(&mut grid, 19, &[4, 5, 6, 7], Color::Green);
    let mut g = game(grid, vec![tee(5, 1), bar(5, 19)]);
    g.level = 3;
    g.score = 40;
    let mut since = 10u128;
    assert_eq!(update(&mut g, None, 0, &mut since, 10), GameEvent::Tick);
    assert_eq!(g.score, 40 + 100 * 3);
    assert_eq!(g.total_lines_cleared, 1);
    assert_eq!(g.level, 3);
    assert_eq!(g.grid, empty_grid());
    assert_eq!(g.bag.len(), 1);
    assert_eq!(last(&g).color, Color::Yellow);
    assert_eq!(since, 0);
}

#[test]
fn a_bar_locked_on_the_bottom_of_an_empty_grid_clears_nothing() {
    let mut g = game(empty_grid(), vec![tee(5, 1), bar(5, 19)]);
    let mut since = 10u128;
    assert_eq!(update(&mut g, None, 0, &mut since, 10), GameEvent::Tick);
    assert_eq!(g.score, 0);
    assert_eq!(g.total_lines_cleared, 0);
    let mut expected = empty_grid();
    for col in 4..8 {
        expected[19][col] = Some(Color::Red);
    }
    assert_eq!(g.grid, expected);
    assert_eq!(g.bag.len(), 1);
}

#[test]
fn a_landed_piece_is_not_locked_before_the_delay() {
    let mut g = game(empty_grid(), vec![tee(5, 1), bar(5, 19)]);
    let mut since = 9u128;
    assert_eq!(update(&mut g, None, 0, &mut since, 10), GameEvent::Tick);
    assert_eq!(g.grid, empty_grid());
    assert_eq!(g.bag.len(), 2);
    assert_eq!(since, 9);
}

#[test]
fn the_piece_is_locked_as_it_stood_before_the_tick() {
    let mut g = game(empty_grid(), vec![tee(5, 1), bar(5, 19)]);
    let mut since = 10u128;
    assert_eq!(update(&mut g, Some(Intent::MoveLeft), 0, &mut since, 10), GameEvent::Tick);
    let mut expected = empty_grid();
    for col in 4..8 {
        expected[19][col] = Some(Color::Red);
    }
    assert_eq!(g.grid, expected);
    assert_eq!(g.bag.len(), 1);
}

#[test]
fn a_hard_drop_lands_the_piece_and_pays_half_as_much_again() {
    let mut grid = empty_grid();
    fill_row_but(&mut grid, 19, &[4, 5, 6, 7], Color::Green);
    let mut g = game(grid, vec![tee(5, 1), bar(5, 2)]);
    g.level = 2;
    let mut since = 3u128;
    assert_eq!(update(&mut g, Some(Intent::HardDrop), 0, &mut since, 10), GameEvent::Tick);
    assert_eq!(g.score, 300);
    assert_eq!(g.total_lines_cleared, 1);
    assert_eq!(g.grid, empty_grid());
    assert_eq!(g.bag.len(), 1);
    assert_eq!(since, 3);
}

#[test]
fn a_soft_drop_lands_the_piece_and_pays_once() {
    let mut grid = empty_grid();
    fill_row_but(&mut grid, 19, &[4, 5, 6, 7], Color::Green);
    let mut g = game(grid, vec![tee(5, 1), bar(5, 2)]);
    g.level = 2;
    let mut since = 3u128;
    assert_eq!(update(&mut g, Some(Intent::SoftDrop), 0, &mut since, 10), GameEvent::Tick);
    assert_eq!(g.score, 200);
    assert_eq!(g.total_lines_cleared, 1);
    assert_eq!(g.grid, empty_grid());
    assert_eq!(since, 3);
}

#[test]
fn a_hard_drop_stops_on_the_stack() {
    let mut grid = empty_grid();
    grid[12][5] = Some(Color::White);
    let mut g = game(grid, vec![tee(5, 1), bar(5, 2)]);
    let mut since = 0u128;
    assert_eq!(update(&mut g, Some(Intent::HardDrop), 0, &mut since, 10), GameEvent::Tick);
    let mut expected = empty_grid();
    expected[12][5] = Some(Color::White);
    for col in 4..8 {
        expected[11][col] = Some(Color::Red);
    }
    assert_eq!(g.grid, expected);
    assert_eq!(g.score, 0);
}

#[test]
fn four_rows_at_once_pay_eight_hundred_a_level() {
    let mut grid = empty_grid();
    for row in 16..20 {
        fill_row_but(&mut grid, row, &[9], Color::Cyan);
    }
    let mut upright = bar(9, 17);
    upright.rotate();
    let mut g = game(grid, vec![tee(5, 1), upright]);
    g.level = 5;
    let mut since = 10u128;
    assert_eq!(update(&mut g, None, 0, &mut since, 10), GameEvent::Tick);
    assert_eq!(g.score, 4000);
    assert_eq!(g.total_lines_cleared, 4);
    assert_eq!(g.grid, empty_grid());
}

#[test]
fn the_level_rises_with_the_twentieth_row_and_never_falls() {
    let mut grid = empty_grid();
    fill_row_but(&mut grid, 19, &[4, 5, 6, 7], Color::Green);
    let mut g = game(grid, vec![tee(5, 1), bar(5, 18), bar(5, 19)]);
    g.total_lines_cleared = 19;
    let mut since = 10u128;
    assert_eq!(update(&mut g, None, 0, &mut since, 10), GameEvent::Tick);
    assert_eq!(g.total_lines_cleared, 20);
    assert_eq!(g.level, 2);
    assert_eq!(g.score, 100);
    let mut hold = game(empty_grid(), vec![tee(5, 1), bar(5, 19)]);
    hold.level = 4;
    hold.total_lines_cleared = 20;
    let mut again = 10u128;
    assert_eq!(update(&mut hold, None, 0, &mut again, 10), GameEvent::Tick);
    assert_eq!(hold.total_lines_cleared, 20);
    assert_eq!(hold.level, 4);
}

#[test]
fn crossing_from_nine_to_ten_rows_keeps_level_one() {
    let mut grid = empty_grid();
    fill_row_but(&mut grid, 19, &[4, 5, 6, 7], Color::Green);
    let mut g = game(grid, vec![tee(5, 1), bar(5, 19)]);
    g.total_lines_cleared = 9;
    let mut since = 10u128;
    assert_eq!(update(&mut g, None, 0, &mut since, 10), GameEvent::Tick);
    assert_eq!(g.total_lines_cleared, 10);
    assert_eq!(g.level, 1);
}

#[test]
fn a_hard_drop_onto_a_full_stack_ends_the_game() {
    let mut grid = empty_grid();
    for row in 3..GRID_HEIGHT {
        fill_row_but(&mut grid, row, &[0], Color::Magenta);
    }
    let mut g = game(grid, vec![square(5, 1), bar(5, 1)]);
    let mut since = 0u128;
    assert_eq!(update(&mut g, Some(Intent::HardDrop), 0, &mut since, 10), GameEvent::GameOver);
    assert_eq!(g.grid[2][4], Some(Color::Red));
    assert_eq!(g.grid[2][7], Some(Color::Red));
    assert_eq!(g.bag.len(), 1);
    assert_eq!(g.score, 0);
    assert!(!g.is_playable());
}

#[test]
fn the_bag_is_refilled_when_its_last_piece_is_locked() {
    let mut g = game(empty_grid(), vec![bar(5, 19)]);
    let mut since = 10u128;
    assert_eq!(update(&mut g, None, 0, &mut since, 10), GameEvent::Tick);
    assert_eq!(g.bag.len(), 7);
    let mut colors: Vec<Color> = g.bag.iter().map(|t| t.color).collect();
    colors.sort_by_key(|c| format!("{:?}", c));
    assert_eq!(
        colors,
        vec![
            Color::Blue,
            Color::Cyan,
            Color::Green,
            Color::Magenta,
            Color::Red,
            Color::White,
            Color::Yellow
        ]
    );
    assert!(g.is_playable());
}

#[test]
fn place_down_locks_the_piece_in_play() {
    let mut grid = empty_grid();
    fill_row_but(&mut grid, 19, &[4, 5, 6, 7], Color::Green);
    fill_row_but(&mut grid, 18, &[0], Color::Blue);
    let mut g = game(grid, vec![tee(5, 1), bar(5, 19)]);
    g.level = 2;
    assert_eq!(place_down(&mut g, DropKind::Hard), GameEvent::Tick);
    assert_eq!(g.score, 300);
    assert_eq!(g.total_lines_cleared, 1);
    let mut expected = empty_grid();
    fill_row_but(&mut expected, 19, &[0], Color::Blue);
    assert_eq!(g.grid, expected);
    assert_eq!(g.bag.len(), 1);
}

#[test]
fn hard_drop_lands_the_given_piece_and_locks_it() {
    let mut g = game(empty_grid(), vec![tee(5, 1), bar(5, 2)]);
    let mut next = bar(3, 2);
    assert_eq!(hard_drop(&mut next, &mut g, DropKind::Normal), GameEvent::Tick);
    assert_eq!(next.pos, Vec2::new(3, 19));
    let mut expected = empty_grid();
    for col in 2..6 {
        expected[19][col] = Some(Color::Red);
    }
    assert_eq!(g.grid, expected);
    assert_eq!(g.bag.len(), 1);
}

#[test]
fn snapshot_shows_the_piece_in_play_and_leaves_the_grid() {
    let mut grid = empty_grid();
    grid[19][0] = Some(Color::White);
    let g = game(grid, vec![tee(5, 1), bar(5, 7)]);
    let shown = g.snapshot();
    let mut expected = grid;
    for col in 4..8 {
        expected[7][col] = Some(Color::Red);
    }
    assert_eq!(shown, expected);
    assert_eq!(g.grid, grid);
}

#[test]
fn is_playable_wants_a_sound_piece_with_room() {
    assert!(game(empty_grid(), vec![bar(5, 1)]).is_playable());
    assert!(!game(empty_grid(), vec![]).is_playable());
    assert!(!game(empty_grid(), vec![bar(0, 1)]).is_playable());
    assert!(!game(empty_grid(), vec![piece(&[], 5, 1, Color::Red)]).is_playable());
    assert!(!game(empty_grid(), vec![piece(&[(0, 0), (0, 0)], 5, 1, Color::Red)]).is_playable());
    assert!(!game(empty_grid(), vec![piece(&[(120, 0)], -118, 1, Color::Red)]).is_playable());
    assert!(!game(empty_grid(), vec![piece(&[], 5, 1, Color::Red), bar(5, 1)]).is_playable());
    assert!(game(empty_grid(), vec![bar(5, 1); 7]).is_playable());
    assert!(!game(empty_grid(), vec![bar(5, 1); 8]).is_playable());
    let mut grid = empty_grid();
    grid[1][5] = Some(Color::Blue);
    assert!(!game(grid, vec![bar(5, 1)]).is_playable());
}

#[test]
fn try_update_does_what_update_does() {
    let mut g = game(empty_grid(), vec![bar(5, 3)]);
    let mut since = 10u128;
    assert_eq!(try_update(&mut g, Some(Intent::MoveLeft), 0, &mut since, 10), Some(GameEvent::Tick));
    assert_eq!(last(&g).pos, Vec2::new(4, 4));
    assert_eq!(since, 0);
    assert_eq!(try_update(&mut g, Some(Intent::Quit), 0, &mut since, 10), Some(GameEvent::Quit));
    assert_eq!(try_update(&mut g, Some(Intent::HardDrop), 0, &mut since, 10), Some(GameEvent::Tick));
    assert_eq!(g.bag.len(), 7);
}

#[test]
fn try_update_refuses_a_game_that_cannot_go_on() {
    let mut empty = game(empty_grid(), vec![]);
    let mut since = 10u128;
    assert_eq!(try_update(&mut empty, None, 0, &mut since, 10), None);
    assert_eq!(try_update(&mut empty, Some(Intent::Quit), 0, &mut since, 10), None);
    assert_eq!(since, 10);
    let mut stuck = game(empty_grid(), vec![bar(0, 1)]);
    assert_eq!(try_update(&mut stuck, None, 0, &mut since, 10), None);
    assert_eq!(last(&stuck).pos, Vec2::new(0, 1));
}

#[test]
fn try_update_refuses_a_lock_that_fills_the_top_row() {
    let mut grid = empty_grid();
    fill_row_but(&mut grid, 0, &[4, 5, 6, 7], Color::Green);
    fill_row_but(&mut grid, 1, &[0], Color::Green);
    let mut g = game(grid, vec![tee(5, 5), bar(5, 0)]);
    let mut since = 10u128;
    assert_eq!(try_update(&mut g, None, 0, &mut since, 10), None);
    assert_eq!(try_update(&mut g, Some(Intent::HardDrop), 0, &mut since, 10), None);
    assert_eq!(g.grid, grid);
    assert_eq!(g.bag.len(), 2);
    assert_eq!(since, 10);
    assert_eq!(try_update(&mut g, None, 0, &mut since, 11), Some(GameEvent::Tick));
    assert_eq!(try_update(&mut g, Some(Intent::Quit), 0, &mut since, 10), Some(GameEvent::Quit));
}

#[test]
fn try_update_refuses_a_lock_whose_points_do_not_fit() {
    let mut grid = empty_grid();
    fill_row_but(&mut grid, 19, &[4, 5, 6, 7], Color::Green);
    let mut g = game(grid, vec![tee(5, 1), bar(5, 19)]);
    g.score = u64::MAX - 99;
    let mut since = 10u128;
    assert_eq!(try_update(&mut g, None, 0, &mut since, 10), None);
    assert_eq!(g.score, u64::MAX - 99);
    assert_eq!(g.grid, grid);
    g.score = u64::MAX - 100;
    assert_eq!(try_update(&mut g, None, 0, &mut since, 10), Some(GameEvent::Tick));
    assert_eq!(g.score, u64::MAX);
    assert_eq!(since, 0);
    let mut h = game(grid, vec![tee(5, 1), bar(5, 19)]);
    h.total_lines_cleared = u64::MAX;
    let mut due = 10u128;
    assert_eq!(try_update(&mut h, None, 0, &mut due, 10), None);
    assert_eq!(h.grid, grid);
    h.total_lines_cleared = u64::MAX - 1;
    assert_eq!(try_update(&mut h, None, 0, &mut due, 10), Some(GameEvent::Tick));
    assert_eq!(h.total_lines_cleared, u64::MAX);
}

#[test]
fn score_level_and_rows_never_fall_over_a_game() {
    let mut g = GameContext::new("ann".to_string(), LeaderBoard { entrys: Vec::new() });
    let intents = [
        Some(Intent::MoveLeft),
        None,
        Some(Intent::RotateClockwise),
        Some(Intent::HardDrop),
        Some(Intent::MoveRight),
        Some(Intent::SoftDrop),
        None,
    ];
    let mut since = 0u128;
    let mut ticks = 0usize;
    loop {
        let (score, level, rows) = (g.score, g.level, g.total_lines_cleared);
        match try_update(&mut g, intents[ticks % intents.len()], 4, &mut since, 10) {
            Some(GameEvent::Tick) => assert!(g.is_playable()),
            Some(GameEvent::GameOver) => break,
            other => panic!("the game ended with {:?}", other),
        }
        assert!(g.score >= score && g.level >= level && g.total_lines_cleared >= rows);
        assert!(!g.bag.is_empty() && g.bag.len() <= 7);
        ticks += 1;
        assert!(ticks < 100_000);
    }
    assert!(!g.is_playable());
}

#[test]
fn gravity_is_due_once_the_counted_time_reaches_the_delay() {
    assert!(gravity_due(0, 10, 10));
    assert!(gravity_due(4, 6, 10));
    assert!(gravity_due(10, 0, 10));
    assert!(!gravity_due(3, 6, 10));
    assert!(!gravity_due(0, 9, 10));
    assert!(gravity_due(0, 0, 0));
    assert!(!gravity_due(0, 0, 1));
    assert!(gravity_due(u128::MAX, u128::MAX, u128::MAX));
    assert!(gravity_due(1, u128::MAX - 1, u128::MAX));
    assert!(!gravity_due(1, u128::MAX - 2, u128::MAX));
}

#[test]
fn lock_allowed_tells_whether_a_lock_has_a_result() {
    let mut grid = empty_grid();
    fill_row_but(&mut grid, 19, &[4, 5, 6, 7], Color::Green);
    let mut g = game(grid, vec![bar(5, 19)]);
    assert!(g.lock_allowed(&bar(5, 19), DropKind::Normal));
    assert!(g.lock_allowed(&bar(5, 19), DropKind::Hard));
    g.score = u64::MAX - 149;
    assert!(g.lock_allowed(&bar(5, 19), DropKind::Normal));
    assert!(!g.lock_allowed(&bar(5, 19), DropKind::Hard));
    assert!(g.lock_allowed(&bar(5, 18), DropKind::Hard));
    let mut top = empty_grid();
    fill_row_but(&mut top, 0, &[4, 5, 6, 7], Color::Green);
    let h = game(top, vec![bar(5, 0)]);
    assert!(!h.lock_allowed(&bar(5, 0), DropKind::Normal));
    assert!(h.lock_allowed(&bar(5, 1), DropKind::Normal));
    assert_eq!(h.grid, top);
}
