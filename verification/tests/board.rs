use snake_tty::board::{wrap, Board};
use snake_tty::dice::Dice;
use snake_tty::geometry::Vector2;

fn board(width: u32, height: u32) -> Board {
    Board::new(width, height).unwrap()
}

#[test]
fn vector_equality_is_component_wise() {
    assert_eq!(Vector2::new(3, -4), Vector2 { x: 3, y: -4 });
    assert_ne!(Vector2::new(3, -4), Vector2::new(-4, 3));
    assert!(Vector2::new(1, 2).same(&Vector2::new(1, 2)));
    assert!(!Vector2::new(1, 2).same(&Vector2::new(1, 3)));
    let first = Vector2::new(7, 8);
    let mut copy = first;
    copy.x = 0;
    assert_eq!(first.x, 7);
    assert_eq!(copy.x, 0);
}

#[test]
fn board_refuses_degenerate_sides() {
    assert!(Board::new(0, 10).is_none());
    assert!(Board::new(10, 0).is_none());
    assert!(Board::new(0, 0).is_none());
    assert!(Board::new(1, 1).is_some());
}

#[test]
fn board_refuses_sides_beyond_i32() {
    assert!(Board::new(i32::MAX as u32, 1).is_some());
    assert!(Board::new(i32::MAX as u32 + 1, 1).is_none());
    assert!(Board::new(1, u32::MAX).is_none());
}

#[test]
fn board_keeps_its_size() {
    let b = board(10, 7);
    assert_eq!(b.width(), 10);
    assert_eq!(b.height(), 7);
    assert_eq!(b.cells(), 70);
    let large = board(i32::MAX as u32, i32::MAX as u32);
    assert_eq!(large.cells(), 4611686014132420609);
}

#[test]
fn board_contains_exactly_its_cells() {
    let b = board(10, 7);
    assert!(b.contains(Vector2::new(0, 0)));
    assert!(b.contains(Vector2::new(9, 6)));
    assert!(!b.contains(Vector2::new(10, 6)));
    assert!(!b.contains(Vector2::new(9, 7)));
    assert!(!b.contains(Vector2::new(-1, 0)));
    assert!(!b.contains(Vector2::new(0, -1)));
}

#[test]
fn wrap_gives_exact_values() {
    assert_eq!(wrap(0, 10), 0);
    assert_eq!(wrap(9, 10), 9);
    assert_eq!(wrap(10, 10), 0);
    assert_eq!(wrap(-1, 10), 9);
    assert_eq!(wrap(-10, 10), 0);
    assert_eq!(wrap(-11, 10), 9);
    assert_eq!(wrap(25, 10), 5);
    assert_eq!(wrap(5, 1), 0);
    assert_eq!(wrap(-5, 1), 0);
    assert_eq!(wrap(i64::MIN, 10), 2);
    assert_eq!(wrap(i64::MAX, 10), 7);
    assert_eq!(wrap(-1, i32::MAX), i32::MAX - 1);
}

#[test]
fn wrap_is_in_range_for_every_coordinate() {
    for n in 1..12 {
        for v in -40i64..40 {
            let r = wrap(v, n);
            assert!(0 <= r && r < n);
            assert_eq!((v - r as i64).rem_euclid(n as i64), 0);
        }
    }
}

#[test]
fn step_is_on_the_board_for_every_head_and_direction() {
    let b = board(10, 7);
    let directions = [(1, 0), (-1, 0), (0, 1), (0, -1), (0, 0)];
    for x in 0..10 {
        for y in 0..7 {
            for (dx, dy) in directions {
                let to = b.step(Vector2::new(x, y), Vector2::new(dx, dy));
                assert!(0 <= to.x && to.x < 10);
                assert!(0 <= to.y && to.y < 7);
            }
        }
    }
    let far = b.step(Vector2::new(i32::MAX, i32::MIN), Vector2::new(i32::MAX, i32::MIN));
    assert!(b.contains(far));
}

#[test]
fn step_wraps_at_every_edge() {
    let b = board(10, 10);
    assert_eq!(b.step(Vector2::new(9, 5), Vector2::new(1, 0)), Vector2::new(0, 5));
    assert_eq!(b.step(Vector2::new(0, 5), Vector2::new(-1, 0)), Vector2::new(9, 5));
    assert_eq!(b.step(Vector2::new(5, 9), Vector2::new(0, 1)), Vector2::new(5, 0));
    assert_eq!(b.step(Vector2::new(5, 0), Vector2::new(0, -1)), Vector2::new(5, 9));
    assert_eq!(b.step(Vector2::new(5, 5), Vector2::new(1, 0)), Vector2::new(6, 5));
    assert_eq!(b.step(Vector2::new(5, 5), Vector2::new(0, 0)), Vector2::new(5, 5));
}

#[test]
fn retrace_undoes_a_step() {
    let b = board(10, 10);
    assert_eq!(b.retrace(Vector2::new(6, 5), Vector2::new(1, 0)), Vector2::new(5, 5));
    assert_eq!(b.retrace(Vector2::new(0, 5), Vector2::new(1, 0)), Vector2::new(9, 5));
    assert_eq!(b.retrace(Vector2::new(5, 9), Vector2::new(0, -1)), Vector2::new(5, 0));
    let directions = [(1, 0), (-1, 0), (0, 1), (0, -1), (0, 0)];
    for x in 0..10 {
        for y in 0..10 {
            for (dx, dy) in directions {
                let from = Vector2::new(x, y);
                let by = Vector2::new(dx, dy);
                assert_eq!(b.retrace(b.step(from, by), by), from);
            }
        }
    }
}

#[test]
fn random_cell_is_on_the_board() {
    let b = board(4, 3);
    let mut dice = Dice::seeded(11);
    let mut seen = [[false; 4]; 3];
    for _ in 0..2000 {
        let cell = b.random_cell(&mut dice);
        assert!(b.contains(cell));
        seen[cell.y as usize][cell.x as usize] = true;
    }
    for row in seen {
        for cell in row {
            assert!(cell);
        }
    }
}

#[test]
fn draw_is_below_its_bound() {
    let mut dice = Dice::seeded(3);
    for _ in 0..200 {
        assert_eq!(dice.below(1), 0);
    }
    for bound in 1..50u32 {
        for _ in 0..50 {
            assert!(dice.below(bound) < bound);
        }
    }
    assert!(dice.below(u32::MAX) < u32::MAX);
}

#[test]
fn single_cell_board_draws_its_cell() {
    let b = board(1, 1);
    let mut dice = Dice::seeded(5);
    for _ in 0..100 {
        assert_eq!(b.random_cell(&mut dice), Vector2::new(0, 0));
    }
}

#[test]
fn same_seed_repeats_the_draws() {
    let mut first = Dice::seeded(2024);
    let mut second = Dice::seeded(2024);
    for _ in 0..100 {
        assert_eq!(first.below(1000), second.below(1000));
    }
}
