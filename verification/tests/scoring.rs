use tetris::scoring::{next_level, points_for, points_within, DropKind};

#[test]
fn a_normal_drop_pays_the_table_times_the_level() {
    assert_eq!(points_for(1, 1, DropKind::Normal), 100);
    assert_eq!(points_for(2, 1, DropKind::Normal), 300);
    assert_eq!(points_for(3, 1, DropKind::Normal), 500);
    assert_eq!(points_for(4, 1, DropKind::Normal), 800);
    assert_eq!(points_for(1, 3, DropKind::Normal), 300);
    assert_eq!(points_for(4, 7, DropKind::Normal), 5600);
}

#[test]
fn a_hard_drop_pays_half_as_much_again() {
    assert_eq!(points_for(1, 1, DropKind::Hard), 150);
    assert_eq!(points_for(2, 1, DropKind::Hard), 450);
    assert_eq!(points_for(3, 1, DropKind::Hard), 750);
    assert_eq!(points_for(4, 1, DropKind::Hard), 1200);
    assert_eq!(points_for(4, 2, DropKind::Hard), 2400);
    assert_eq!(points_for(1, 9, DropKind::Hard), 1350);
}

#[test]
fn no_rows_and_more_than_four_rows_pay_nothing() {
    assert_eq!(points_for(0, 5, DropKind::Normal), 0);
    assert_eq!(points_for(0, 5, DropKind::Hard), 0);
    assert_eq!(points_for(5, 5, DropKind::Normal), 0);
    assert_eq!(points_for(20, 5, DropKind::Hard), 0);
    assert_eq!(points_for(255, u64::MAX, DropKind::Hard), 0);
}

#[test]
fn level_zero_pays_nothing() {
    assert_eq!(points_for(4, 0, DropKind::Normal), 0);
    assert_eq!(points_for(4, 0, DropKind::Hard), 0);
}

#[test]
fn points_within_gives_the_points_that_fit() {
    assert_eq!(points_within(1, 2, DropKind::Normal, 200), Some(200));
    assert_eq!(points_within(1, 2, DropKind::Normal, 199), None);
    assert_eq!(points_within(4, 1, DropKind::Hard, 1200), Some(1200));
    assert_eq!(points_within(4, 1, DropKind::Hard, 1199), None);
    assert_eq!(points_within(0, 1, DropKind::Hard, 0), Some(0));
}

#[test]
fn points_within_refuses_what_does_not_fit_in_the_counter() {
    let level = u64::MAX / 100;
    assert_eq!(points_within(1, level, DropKind::Normal, u64::MAX), Some(level * 100));
    assert_eq!(points_within(1, level + 1, DropKind::Normal, u64::MAX), None);
    assert_eq!(points_within(1, level, DropKind::Hard, u64::MAX), None);
    assert_eq!(points_within(4, u64::MAX, DropKind::Hard, u64::MAX), None);
    let hard = u64::MAX / 150;
    assert_eq!(points_within(1, hard, DropKind::Hard, u64::MAX), Some(hard * 150));
}

#[test]
fn the_level_is_a_tenth_of_the_rows_but_never_falls() {
    assert_eq!(next_level(1, 0), 1);
    assert_eq!(next_level(1, 9), 1);
    assert_eq!(next_level(1, 10), 1);
    assert_eq!(next_level(1, 19), 1);
    assert_eq!(next_level(1, 20), 2);
    assert_eq!(next_level(2, 20), 2);
    assert_eq!(next_level(2, 29), 2);
    assert_eq!(next_level(5, 20), 5);
    assert_eq!(next_level(0, 10), 1);
    assert_eq!(next_level(3, 1000), 100);
}
