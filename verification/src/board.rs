//! The wrap-around domain in which the snake moves.

use vstd::prelude::*;
use vstd::arithmetic::div_mod::lemma_fundamental_div_mod_converse;
use crate::dice::Dice;
use crate::geometry::Vector2;

verus! {

/// A grid of `width` columns and `height` rows, both at least one, whose
/// opposite edges are joined.
#[derive(Clone, Copy, Debug, PartialEq, Eq)]
pub struct Board {
    width: i32,
    height: i32,
}

/// The representative of `v` in `0..n`: the remainder that is never
/// negative.
pub open spec fn wrapped(v: int, n: int) -> int {
    v % n
}

/// Brings any coordinate into `0..n`, entering from the opposite edge.
pub fn wrap(v: i64, n: i32) -> (r: i32)
    requires
        n > 0,
    ensures
        r == wrapped(v as int, n as int),
        0 <= r < n,
{
    let m: i64 = n as i64;
    if v >= 0 {
        (v % m) as i32
    } else {
        // -(v + 1) is not negative; its remainder counts back from n - 1.
        let back: i64 = (-(v + 1)) % m;
        let r: i64 = m - 1 - back;
        proof {
            let q: int = (-(v + 1)) as int / m as int;
            assert(-(v + 1) == m * q + back) by {
                vstd::arithmetic::div_mod::lemma_fundamental_div_mod(-(v + 1) as int, m as int);
            }
            assert(v == (-q - 1) * m + r) by (nonlinear_arith)
                requires
                    -(v + 1) == m * q + back,
                    r == m - 1 - back,
            ;
            lemma_fundamental_div_mod_converse(v as int, m as int, -q - 1, r as int);
        }
        r as i32
    }
}

/// Wrap-around leaves every coordinate on the board.
pub proof fn lemma_wrapped_inside(v: int, n: int)
    requires
        n > 0,
    ensures
        0 <= wrapped(v, n) < n,
{
    vstd::arithmetic::div_mod::lemma_mod_bound(v, n);
}

/// Wherever the head stands and whichever way it steps, wrap-around
/// leaves it on the board; so does a step backwards.
pub proof fn lemma_stepped_inside(board: Board, from: Vector2, by: Vector2)
    requires
        board.valid(),
    ensures
        board.contains(board.stepped(from, by)),
        board.contains(board.retraced(from, by)),
{
    lemma_wrapped_inside(from.x + by.x, board.width() as int);
    lemma_wrapped_inside(from.y + by.y, board.height() as int);
    lemma_wrapped_inside(from.x - by.x, board.width() as int);
    lemma_wrapped_inside(from.y - by.y, board.height() as int);
}

/// A step that does not leave the board by an edge is plain addition, and
/// a step backwards that does not leave it is plain subtraction.
pub proof fn lemma_step_inside_is_plain(board: Board, from: Vector2, by: Vector2)
    requires
        board.valid(),
    ensures
        0 <= from.x + by.x < board.width() ==> board.stepped(from, by).x == from.x + by.x,
        0 <= from.y + by.y < board.height() ==> board.stepped(from, by).y == from.y + by.y,
        0 <= from.x - by.x < board.width() ==> board.retraced(from, by).x == from.x - by.x,
        0 <= from.y - by.y < board.height() ==> board.retraced(from, by).y == from.y - by.y,
{
    let w: int = board.width() as int;
    let h: int = board.height() as int;
    if 0 <= from.x + by.x < w {
        vstd::arithmetic::div_mod::lemma_small_mod((from.x + by.x) as nat, w as nat);
    }
    if 0 <= from.y + by.y < h {
        vstd::arithmetic::div_mod::lemma_small_mod((from.y + by.y) as nat, h as nat);
    }
    if 0 <= from.x - by.x < w {
        vstd::arithmetic::div_mod::lemma_small_mod((from.x - by.x) as nat, w as nat);
    }
    if 0 <= from.y - by.y < h {
        vstd::arithmetic::div_mod::lemma_small_mod((from.y - by.y) as nat, h as nat);
    }
}

impl Board {
    #[verifier::type_invariant]
    spec fn positive(self) -> bool {
        self.width > 0 && self.height > 0
    }

    /// The number of columns.
    pub closed spec fn spec_width(&self) -> i32 {
        self.width
    }

    /// The number of rows.
    pub closed spec fn spec_height(&self) -> i32 {
        self.height
    }

    /// What every board that `new` hands out satisfies.
    pub open spec fn valid(&self) -> bool {
        self.width() > 0 && self.height() > 0
    }

    /// Whether `cell` is a cell of the board.
    pub open spec fn spec_contains(&self, cell: Vector2) -> bool {
        0 <= cell.x < self.width() && 0 <= cell.y < self.height()
    }

    /// Where one step `by` from `from` ends, on a board whose edges are
    /// joined.
    pub open spec fn stepped(&self, from: Vector2, by: Vector2) -> Vector2 {
        Vector2 {
            x: wrapped(from.x + by.x, self.width() as int) as i32,
            y: wrapped(from.y + by.y, self.height() as int) as i32,
        }
    }

    /// The cell one step against `by` from `from`: the one that a segment
    /// left when it came to `from` by `by`.
    pub open spec fn retraced(&self, from: Vector2, by: Vector2) -> Vector2 {
        Vector2 {
            x: wrapped(from.x - by.x, self.width() as int) as i32,
            y: wrapped(from.y - by.y, self.height() as int) as i32,
        }
    }

    /// The number of cells.
    pub open spec fn area(&self) -> int {
        self.width() * self.height()
    }

    /// A board of the given size; none where a side is zero or too long to
    /// be counted in an `i32`.
    pub fn new(width: u32, height: u32) -> (made: Option<Board>)
        ensures
            made is Some <==> 1 <= width <= i32::MAX && 1 <= height <= i32::MAX,
            made matches Some(b) ==> b.width() == width && b.height() == height && b.valid(),
    {
        if width == 0 || height == 0 || width > i32::MAX as u32 || height > i32::MAX as u32 {
            None
        } else {
            Some(Board { width: width as i32, height: height as i32 })
        }
    }

    /// The number of columns.
    #[verifier::when_used_as_spec(spec_width)]
    pub fn width(&self) -> (w: i32)
        ensures
            w == self.width(),
            w > 0,
    {
        proof {
            use_type_invariant(self);
        }
        self.width
    }

    /// The number of rows.
    #[verifier::when_used_as_spec(spec_height)]
    pub fn height(&self) -> (h: i32)
        ensures
            h == self.height(),
            h > 0,
    {
        proof {
            use_type_invariant(self);
        }
        self.height
    }

    /// Whether `cell` is a cell of the board.
    #[verifier::when_used_as_spec(spec_contains)]
    pub fn contains(&self, cell: Vector2) -> (inside: bool)
        ensures
            inside == self.contains(cell),
    {
        0 <= cell.x && cell.x < self.width && 0 <= cell.y && cell.y < self.height
    }

    /// The number of cells.
    pub fn cells(&self) -> (count: u64)
        ensures
            count == self.area(),
            count > 0,
    {
        proof {
            use_type_invariant(self);
            assert(0 < self.width * self.height <= 0x7fff_ffff * 0x7fff_ffff) by (nonlinear_arith)
                requires
                    0 < self.width <= 0x7fff_ffff,
                    0 < self.height <= 0x7fff_ffff,
            ;
        }
        self.width as u64 * self.height as u64
    }

    /// Moves one step, leaving by an edge to enter by the opposite one.
    pub fn step(&self, from: Vector2, by: Vector2) -> (to: Vector2)
        ensures
            to == self.stepped(from, by),
            self.contains(to),
    {
        proof {
            use_type_invariant(self);
        }
        Vector2 {
            x: wrap(from.x as i64 + by.x as i64, self.width),
            y: wrap(from.y as i64 + by.y as i64, self.height),
        }
    }

    /// Moves one step backwards, with the same wrap-around.
    pub fn retrace(&self, from: Vector2, by: Vector2) -> (to: Vector2)
        ensures
            to == self.retraced(from, by),
            self.contains(to),
    {
        proof {
            use_type_invariant(self);
        }
        Vector2 {
            x: wrap(from.x as i64 - by.x as i64, self.width),
            y: wrap(from.y as i64 - by.y as i64, self.height),
        }
    }

    /// A cell of the board, drawn column first.
    pub fn random_cell(&self, dice: &mut Dice) -> (cell: Vector2)
        ensures
            self.contains(cell),
    {
        proof {
            use_type_invariant(self);
        }
        let x: u32 = dice.below(self.width as u32);
        let y: u32 = dice.below(self.height as u32);
        Vector2 { x: x as i32, y: y as i32 }
    }
}

} // verus!
