//! The snake as a sequence of segments, head first: how it trails, moves,
//! bites, grows, and which cells it leaves free.

use vstd::prelude::*;
use vstd::arithmetic::div_mod::{lemma_fundamental_div_mod, lemma_mod_bound};
use vstd::set_lib::{lemma_int_range, set_int_range};
use crate::board::{lemma_step_inside_is_plain, lemma_stepped_inside, Board};
use crate::dice::Dice;
use crate::entity::{Entity, SNAKE_BLOCK};
use crate::geometry::Vector2;
use crate::input::{steer, steered, Heading};

verus! {

/// How often a place for the food is drawn before the board is searched.
pub const DRAWS: u32 = 64;

/// The body after it has followed the head: each segment behind the head
/// holds the place and the step of the one in front of it, and the head is
/// as it was.
pub open spec fn trailed(snake: Seq<Entity>) -> Seq<Entity> {
    Seq::new(
        snake.len(),
        |i: int|
            if i == 0 {
                snake[i]
            } else {
                Entity {
                    position: snake[i - 1].position,
                    direction: snake[i - 1].direction,
                    glyph: snake[i].glyph,
                }
            },
    )
}

/// The snake after one move: the body has followed, and the head, turned
/// as the guard allows, has gone one step with wrap-around.
pub open spec fn moved(board: Board, snake: Seq<Entity>, turn: Option<Heading>) -> Seq<Entity>
    recommends
        snake.len() > 0,
{
    let heading = steered(snake[0].direction, turn);
    trailed(snake).update(
        0,
        Entity {
            position: board.stepped(snake[0].position, heading),
            direction: heading,
            glyph: snake[0].glyph,
        },
    )
}

/// Whether some segment stands on `cell`.
pub open spec fn occupied(snake: Seq<Entity>, cell: Vector2) -> bool {
    exists|i: int| 0 <= i < snake.len() && (#[trigger] snake[i]).position == cell
}

/// Whether the head stands on a segment of its own body.
pub open spec fn bitten(snake: Seq<Entity>) -> bool {
    exists|i: int| 1 <= i < snake.len() && (#[trigger] snake[i]).position == snake[0].position
}

/// The segment that a meal adds: on the cell that the tail has just left,
/// with the tail's step.
pub open spec fn sprout(board: Board, snake: Seq<Entity>) -> Entity
    recommends
        snake.len() > 0,
{
    Entity {
        position: board.retraced(snake.last().position, snake.last().direction),
        direction: snake.last().direction,
        glyph: SNAKE_BLOCK,
    }
}

/// The snake after a meal.
pub open spec fn grown(board: Board, snake: Seq<Entity>) -> Seq<Entity>
    recommends
        snake.len() > 0,
{
    snake.push(sprout(board, snake))
}

/// Whether the snake leaves a cell of the board free.
pub open spec fn has_vacancy(board: Board, snake: Seq<Entity>) -> bool {
    exists|cell: Vector2| #[trigger] board.contains(cell) && !occupied(snake, cell)
}

/// Whether `first` comes before `second` when the board is read row by row.
pub open spec fn precedes(first: Vector2, second: Vector2) -> bool {
    first.y < second.y || (first.y == second.y && first.x < second.x)
}

/// Among more numbers than a sequence is long, one is not in the sequence.
proof fn lemma_spare_number(pool: Set<int>, taken: Seq<int>)
    requires
        pool.finite(),
        taken.len() < pool.len(),
    ensures
        exists|k: int| pool.contains(k) && !taken.contains(k),
    decreases taken.len(),
{
    if taken.len() == 0 {
        assert(pool.contains(pool.choose()));
    } else {
        let rest = taken.drop_last();
        let fewer = pool.remove(taken.last());
        lemma_spare_number(fewer, rest);
        let k: int = choose|k: int| fewer.contains(k) && !rest.contains(k);
        assert(!taken.contains(k)) by {
            if taken.contains(k) {
                let i: int = choose|i: int| 0 <= i < taken.len() && taken[i] == k;
                assert(rest[i] == k);
            }
        }
    }
}

/// A snake with fewer segments than the board has cells leaves a cell
/// free, however it lies.
pub proof fn lemma_short_snake_leaves_room(board: Board, snake: Seq<Entity>)
    requires
        board.valid(),
        snake.len() < board.area(),
    ensures
        has_vacancy(board, snake),
{
    let w: int = board.width() as int;
    let h: int = board.height() as int;
    let taken = Seq::new(snake.len(), |i: int| snake[i].position.y * w + snake[i].position.x);
    lemma_int_range(0, w * h);
    lemma_spare_number(set_int_range(0, w * h), taken);
    let k: int = choose|k: int| set_int_range(0, w * h).contains(k) && !taken.contains(k);
    lemma_fundamental_div_mod(k, w);
    lemma_mod_bound(k, w);
    assert(0 <= k / w < h) by (nonlinear_arith)
        requires
            0 <= k < w * h,
            0 < w,
            k == w * (k / w) + k % w,
            0 <= k % w < w,
    ;
    let cell = Vector2 { x: (k % w) as i32, y: (k / w) as i32 };
    assert(board.contains(cell));
    assert(!occupied(snake, cell)) by {
        if occupied(snake, cell) {
            let i: int = choose|i: int|
                0 <= i < snake.len() && (#[trigger] snake[i]).position == cell;
            assert(taken[i] == (k / w) * w + k % w);
            assert((k / w) * w == w * (k / w)) by (nonlinear_arith);
            assert(taken.contains(k));
        }
    }
}

/// The segment of a meal stands one step behind the tail, at the tail's
/// place less the tail's step, wherever that is a cell of the board; at an
/// edge it stands on the cell across it.
pub proof fn lemma_sprout_behind_tail(board: Board, snake: Seq<Entity>)
    requires
        board.valid(),
        snake.len() > 0,
    ensures
        board.contains(sprout(board, snake).position),
        sprout(board, snake).direction == snake.last().direction,
        0 <= snake.last().position.x - snake.last().direction.x < board.width() ==> sprout(
            board,
            snake,
        ).position.x == snake.last().position.x - snake.last().direction.x,
        0 <= snake.last().position.y - snake.last().direction.y < board.height() ==> sprout(
            board,
            snake,
        ).position.y == snake.last().position.y - snake.last().direction.y,
{
    lemma_stepped_inside(board, snake.last().position, snake.last().direction);
    lemma_step_inside_is_plain(board, snake.last().position, snake.last().direction);
}

/// Body propagation: from the tail forwards, each segment takes the place
/// and the step of the one before it.
pub fn trail(snake: &mut Vec<Entity>)
    ensures
        final(snake)@ == trailed(old(snake)@),
        final(snake)@.len() == old(snake)@.len(),
        forall|i: int|
            1 <= i < old(snake)@.len() ==> (#[trigger] final(snake)@[i]).position == old(
                snake,
            )@[i - 1].position && final(snake)@[i].direction == old(snake)@[i - 1].direction
                && final(snake)@[i].glyph == old(snake)@[i].glyph,
        old(snake)@.len() > 0 ==> final(snake)@[0] == old(snake)@[0],
{
    let ghost before = snake@;
    let mut index: usize = snake.len();
    while index > 1
        invariant
            index <= snake@.len(),
            snake@.len() == before.len(),
            forall|i: int| 0 <= i < index ==> snake@[i] == before[i],
            forall|i: int| index <= i < snake@.len() ==> snake@[i] == trailed(before)[i],
        decreases index,
    {
        index -= 1;
        let ahead = snake[index - 1];
        snake[index].position = ahead.position;
        snake[index].direction = ahead.direction;
    }
    assert(snake@ =~= trailed(before));
}

/// One move of the whole snake.
pub fn advance(board: &Board, snake: &mut Vec<Entity>, turn: Option<Heading>)
    requires
        old(snake)@.len() > 0,
    ensures
        final(snake)@ == moved(*board, old(snake)@, turn),
{
    trail(snake);
    let heading = steer(snake[0].direction, turn);
    snake[0].direction = heading;
    snake[0].position = board.step(snake[0].position, heading);
    assert(snake@ =~= moved(*board, old(snake)@, turn));
}

/// Whether some segment stands on `cell`.
pub fn occupies(snake: &[Entity], cell: Vector2) -> (found: bool)
    ensures
        found == occupied(snake@, cell),
{
    let mut index: usize = 0;
    while index < snake.len()
        invariant
            index <= snake@.len(),
            forall|i: int| 0 <= i < index ==> (#[trigger] snake@[i]).position != cell,
        decreases snake@.len() - index,
    {
        if snake[index].position == cell {
            return true;
        }
        index += 1;
    }
    false
}

/// Self-collision: whether the head stands on a segment of the body. A
/// snake of one segment never bites itself.
pub fn bites(snake: &[Entity]) -> (hit: bool)
    ensures
        hit == bitten(snake@),
        snake@.len() <= 1 ==> !hit,
{
    let mut index: usize = 1;
    while index < snake.len()
        invariant
            1 <= index,
            forall|i: int| 1 <= i < index && i < snake@.len() ==> (#[trigger] snake@[i]).position
                != snake@[0].position,
        decreases snake@.len() - index,
    {
        if snake[index].position == snake[0].position {
            return true;
        }
        index += 1;
    }
    false
}

/// Appends the segment of a meal behind the tail.
pub fn grow(board: &Board, snake: &mut Vec<Entity>)
    requires
        old(snake)@.len() > 0,
    ensures
        final(snake)@ == grown(*board, old(snake)@),
{
    let tail = snake[snake.len() - 1];
    snake.push(
        Entity {
            position: board.retrace(tail.position, tail.direction),
            direction: tail.direction,
            glyph: SNAKE_BLOCK,
        },
    );
}

/// The first free cell, reading the board row by row; none where the snake
/// covers the board.
pub fn first_vacant(board: &Board, snake: &[Entity]) -> (found: Option<Vector2>)
    ensures
        found is Some <==> has_vacancy(*board, snake@),
        found matches Some(cell) ==> board.contains(cell) && !occupied(snake@, cell) && forall|
            other: Vector2,
        |
            #[trigger] board.contains(other) && precedes(other, cell) ==> occupied(snake@, other),
{
    let width: i32 = board.width();
    let height: i32 = board.height();
    let mut y: i32 = 0;
    while y < height
        invariant
            0 <= y <= height,
            0 < width,
            width == board.width(),
            height == board.height(),
            forall|other: Vector2| #[trigger]
                board.contains(other) && other.y < y ==> occupied(snake@, other),
        decreases height - y,
    {
        let mut x: i32 = 0;
        while x < width
            invariant
                0 <= x <= width,
                0 <= y < height,
                width == board.width(),
                height == board.height(),
                forall|other: Vector2| #[trigger]
                    board.contains(other) && precedes(other, Vector2 { x, y }) ==> occupied(
                        snake@,
                        other,
                    ),
            decreases width - x,
        {
            let cell = Vector2 { x, y };
            if !occupies(snake, cell) {
                assert(board.contains(cell));
                return Some(cell);
            }
            x += 1;
        }
        y += 1;
    }
    None
}

/// A free cell for the food: drawn from the whole board and drawn again
/// while the snake stands on it, then, after `DRAWS` draws, the first free
/// cell of the board. None where the snake leaves no cell free.
pub fn respawn(board: &Board, snake: &[Entity], dice: &mut Dice) -> (site: Option<Vector2>)
    ensures
        site is Some <==> has_vacancy(*board, snake@),
        site matches Some(cell) ==> board.contains(cell) && !occupied(snake@, cell),
{
    let mut drawn: u32 = 0;
    while drawn < DRAWS
        invariant
            drawn <= DRAWS,
        decreases DRAWS - drawn,
    {
        let cell = board.random_cell(dice);
        if !occupies(snake, cell) {
            return Some(cell);
        }
        drawn += 1;
    }
    first_vacant(board, snake)
}

} // verus!
