use snake_tty::board::Board;
use snake_tty::dice::Dice;
use snake_tty::entity::{Entity, FOOD_BLOCK, SNAKE_BLOCK};
use snake_tty::geometry::Vector2;
use snake_tty::input::Heading;
use snake_tty::snake::{advance, bites, first_vacant, grow, occupies, respawn, trail};

fn segment(x: i32, y: i32, dx: i32, dy: i32) -> Entity {
    Entity::new(Vector2::new(x, y), Vector2::new(dx, dy), SNAKE_BLOCK)
}

fn line(cells: &[(i32, i32)]) -> Vec<Entity> {
    cells.iter().map(|&(x, y)| segment(x, y, 1, 0)).collect()
}

#[test]
fn entity_holds_what_it_was_made_of() {
    let e = Entity::new(Vector2::new(2, 3), Vector2::new(0, 1), FOOD_BLOCK);
    assert_eq!(e.position, Vector2::new(2, 3));
    assert_eq!(e.direction, Vector2::new(0, 1));
    assert_eq!(e.glyph, '●');
    assert_eq!(SNAKE_BLOCK, '■');
    assert_eq!(e, e.clone());
}

#[test]
fn trail_hands_each_segment_its_predecessor() {
    for length in 1..=12usize {
        let mut snake: Vec<Entity> = Vec::new();
        for i in 0..length {
            let i = i as i32;
            snake.push(Entity::new(
                Vector2::new(20 - i, 3 + i),
                Vector2::new(i % 2, 1 - i % 2),
                if i == 0 { '@' } else { SNAKE_BLOCK },
            ));
        }
        let before = snake.clone();
        trail(&mut snake);
        assert_eq!(snake.len(), length);
        assert_eq!(snake[0], before[0]);
        for i in 1..length {
            assert_eq!(snake[i].position, before[i - 1].position);
            assert_eq!(snake[i].direction, before[i - 1].direction);
            assert_eq!(snake[i].glyph, before[i].glyph);
        }
    }
}

#[test]
fn trail_leaves_an_empty_snake_empty() {
    let mut snake: Vec<Entity> = Vec::new();
    trail(&mut snake);
    assert!(snake.is_empty());
}

#[test]
fn trail_copies_and_does_not_swap() {
    let mut snake = vec![segment(5, 5, 0, -1), segment(5, 6, 0, -1), segment(4, 6, 1, 0)];
    trail(&mut snake);
    assert_eq!(
        snake,
        vec![segment(5, 5, 0, -1), segment(5, 5, 0, -1), segment(5, 6, 0, -1)]
    );
}

#[test]
fn advance_moves_the_head_and_the_body_follows() {
    let board = Board::new(10, 10).unwrap();
    let mut snake = vec![segment(5, 5, 1, 0), segment(4, 5, 1, 0), segment(3, 5, 1, 0)];
    advance(&board, &mut snake, None);
    assert_eq!(snake, vec![segment(6, 5, 1, 0), segment(5, 5, 1, 0), segment(4, 5, 1, 0)]);
    advance(&board, &mut snake, Some(Heading::Up));
    assert_eq!(snake, vec![segment(6, 4, 0, -1), segment(6, 5, 1, 0), segment(5, 5, 1, 0)]);
    advance(&board, &mut snake, Some(Heading::Down));
    assert_eq!(snake, vec![segment(6, 3, 0, -1), segment(6, 4, 0, -1), segment(6, 5, 1, 0)]);
}

#[test]
fn advance_wraps_the_head() {
    let board = Board::new(10, 10).unwrap();
    let mut snake = vec![segment(9, 5, 1, 0), segment(8, 5, 1, 0)];
    advance(&board, &mut snake, None);
    assert_eq!(snake, vec![segment(0, 5, 1, 0), segment(9, 5, 1, 0)]);
    let mut snake = vec![segment(3, 0, 1, 0)];
    advance(&board, &mut snake, Some(Heading::Up));
    assert_eq!(snake, vec![segment(3, 9, 0, -1)]);
}

#[test]
fn a_single_segment_never_bites() {
    assert!(!bites(&[]));
    assert!(!bites(&line(&[(3, 3)])));
    let board = Board::new(1, 1).unwrap();
    let mut snake = line(&[(0, 0)]);
    advance(&board, &mut snake, None);
    assert!(!bites(&snake));
}

#[test]
fn bite_is_the_head_on_a_later_segment() {
    assert!(!bites(&line(&[(3, 3), (2, 3), (1, 3)])));
    assert!(bites(&line(&[(3, 3), (2, 3), (3, 3)])));
    assert!(bites(&line(&[(3, 3), (3, 3)])));
    assert!(bites(&line(&[(3, 3), (2, 3), (1, 3), (1, 4), (3, 3), (9, 9)])));
    assert!(!bites(&line(&[(3, 3), (2, 3), (2, 3), (2, 3)])));
}

#[test]
fn occupies_looks_at_every_segment() {
    let snake = line(&[(3, 3), (2, 3), (1, 3)]);
    assert!(occupies(&snake, Vector2::new(3, 3)));
    assert!(occupies(&snake, Vector2::new(1, 3)));
    assert!(!occupies(&snake, Vector2::new(0, 3)));
    assert!(!occupies(&snake, Vector2::new(3, 2)));
    assert!(!occupies(&[], Vector2::new(0, 0)));
}

#[test]
fn grow_appends_behind_the_tail() {
    let board = Board::new(10, 10).unwrap();
    let mut snake = vec![segment(6, 5, 1, 0)];
    grow(&board, &mut snake);
    assert_eq!(snake, vec![segment(6, 5, 1, 0), segment(5, 5, 1, 0)]);
    let mut snake = vec![segment(6, 5, 1, 0), segment(6, 6, 0, -1)];
    grow(&board, &mut snake);
    assert_eq!(snake.len(), 3);
    assert_eq!(snake[2], segment(6, 7, 0, -1));
    let mut snake = vec![Entity::new(Vector2::new(2, 2), Vector2::new(-1, 0), '@')];
    grow(&board, &mut snake);
    assert_eq!(snake[1], segment(3, 2, -1, 0));
}

#[test]
fn grow_wraps_to_the_cell_the_tail_left() {
    let board = Board::new(10, 10).unwrap();
    let mut snake = vec![segment(0, 5, 1, 0)];
    grow(&board, &mut snake);
    assert_eq!(snake[1], segment(9, 5, 1, 0));
    let mut snake = vec![segment(4, 9, 0, 1)];
    snake.push(segment(4, 0, 0, 1));
    snake.swap(0, 1);
    grow(&board, &mut snake);
    assert_eq!(snake[2], segment(4, 8, 0, 1));
    let mut snake = vec![segment(4, 9, 0, -1)];
    grow(&board, &mut snake);
    assert_eq!(snake[1], segment(4, 0, 0, -1));
}

#[test]
fn first_vacant_reads_row_by_row() {
    let board = Board::new(3, 2).unwrap();
    assert_eq!(first_vacant(&board, &[]), Some(Vector2::new(0, 0)));
    assert_eq!(first_vacant(&board, &line(&[(0, 0)])), Some(Vector2::new(1, 0)));
    assert_eq!(
        first_vacant(&board, &line(&[(1, 0), (0, 0), (2, 0)])),
        Some(Vector2::new(0, 1))
    );
    assert_eq!(
        first_vacant(&board, &line(&[(0, 0), (1, 0), (2, 0), (0, 1), (1, 1)])),
        Some(Vector2::new(2, 1))
    );
    assert_eq!(
        first_vacant(&board, &line(&[(0, 0), (1, 0), (2, 0), (0, 1), (1, 1), (2, 1)])),
        None
    );
    assert_eq!(first_vacant(&board, &line(&[(5, 5), (-1, 0)])), Some(Vector2::new(0, 0)));
}

#[test]
fn respawn_never_lands_on_the_snake() {
    let board = Board::new(6, 4).unwrap();
    let snake = line(&[(3, 1), (2, 1), (1, 1), (1, 2), (2, 2), (3, 2), (4, 2)]);
    let mut dice = Dice::seeded(99);
    for _ in 0..1000 {
        let site = respawn(&board, &snake, &mut dice).unwrap();
        assert!(board.contains(site));
        assert!(!occupies(&snake, site));
    }
}

#[test]
fn respawn_finds_the_last_free_cell() {
    let board = Board::new(3, 3).unwrap();
    let snake = line(&[(0, 0), (1, 0), (2, 0), (0, 1), (2, 1), (0, 2), (1, 2), (2, 2)]);
    let mut dice = Dice::seeded(1);
    for _ in 0..200 {
        assert_eq!(respawn(&board, &snake, &mut dice), Some(Vector2::new(1, 1)));
    }
}

#[test]
fn respawn_finds_nothing_on_a_covered_board() {
    let board = Board::new(2, 2).unwrap();
    let snake = line(&[(0, 0), (1, 0), (0, 1), (1, 1)]);
    let mut dice = Dice::seeded(1);
    assert_eq!(respawn(&board, &snake, &mut dice), None);
    let single = Board::new(1, 1).unwrap();
    assert_eq!(respawn(&single, &line(&[(0, 0)]), &mut dice), None);
    assert_eq!(respawn(&single, &[], &mut dice), Some(Vector2::new(0, 0)));
}

#[test]
fn respawn_reaches_every_free_cell() {
    let board = Board::new(3, 2).unwrap();
    let snake = line(&[(0, 0), (1, 1)]);
    let mut dice = Dice::seeded(8);
    let mut seen = [[false; 3]; 2];
    for _ in 0..2000 {
        let site = respawn(&board, &snake, &mut dice).unwrap();
        seen[site.y as usize][site.x as usize] = true;
    }
    assert_eq!(seen, [[false, true, true], [true, false, true]]);
}
