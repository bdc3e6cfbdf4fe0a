//! The playing field: positions on a fixed rectangular grid of cells, and the
//! directions a snake can move in.

use vstd::prelude::*;

verus! {

/// Number of cells along the horizontal axis.
pub const GRID_WIDTH: i32 = 30;
/// Number of cells along the vertical axis.
pub const GRID_HEIGHT: i32 = 20;

/// A cell of the grid, addressed by column `x` and row `y`.
#[derive(Clone, Copy, PartialEq, Eq, Structural, Debug)]
pub struct Pos {
    pub x: i32,
    pub y: i32,
}

/// The way the snake is headed. `Idle` is the pre-game state before the first
/// directional input; the snake does not move while idle.
#[derive(Clone, Copy, PartialEq, Eq, Structural, Debug)]
pub enum Direction {
    Up,
    Down,
    Left,
    Right,
    Idle,
}

/// A position lies on the grid.
pub open spec fn in_grid(p: Pos) -> bool {
    0 <= p.x < GRID_WIDTH && 0 <= p.y < GRID_HEIGHT
}

/// Runtime check that a position lies on the grid.
pub fn pos_in_grid(p: Pos) -> (r: bool)
    ensures
        r == in_grid(p),
{
    0 <= p.x && p.x < GRID_WIDTH && 0 <= p.y && p.y < GRID_HEIGHT
}

/// Two directions are exact reverses of one another. `Idle` is opposite to
/// nothing.
pub open spec fn opposite(a: Direction, b: Direction) -> bool {
    ||| (a is Right && b is Left)
    ||| (a is Left && b is Right)
    ||| (a is Up && b is Down)
    ||| (a is Down && b is Up)
}

/// Runtime check that two directions are exact reverses.
pub fn is_opposite(a: Direction, b: Direction) -> (r: bool)
    ensures
        r == opposite(a, b),
{
    match (a, b) {
        (Direction::Right, Direction::Left) => true,
        (Direction::Left, Direction::Right) => true,
        (Direction::Up, Direction::Down) => true,
        (Direction::Down, Direction::Up) => true,
        _ => false,
    }
}

/// The neighbouring cell one step from `p` in direction `d`; `p` itself when
/// idle. Rows grow downward, so `Up` decreases `y`.
pub open spec fn step(p: Pos, d: Direction) -> Pos {
    match d {
        Direction::Right => Pos { x: (p.x + 1) as i32, y: p.y },
        Direction::Left => Pos { x: (p.x - 1) as i32, y: p.y },
        Direction::Up => Pos { x: p.x, y: (p.y - 1) as i32 },
        Direction::Down => Pos { x: p.x, y: (p.y + 1) as i32 },
        Direction::Idle => p,
    }
}

/// Computes the neighbouring cell one step from `p` in direction `d`. The
/// position must lie on the grid so that the coordinates cannot overflow; the
/// result may lie one cell outside it.
pub fn step_pos(p: Pos, d: Direction) -> (r: Pos)
    requires
        in_grid(p),
    ensures
        r == step(p, d),
{
    match d {
        Direction::Right => Pos { x: p.x + 1, y: p.y },
        Direction::Left => Pos { x: p.x - 1, y: p.y },
        Direction::Up => Pos { x: p.x, y: p.y - 1 },
        Direction::Down => Pos { x: p.x, y: p.y + 1 },
        Direction::Idle => p,
    }
}

/// The row-major index of a grid cell; injective on the grid.
pub open spec fn cell_index(p: Pos) -> int {
    p.y * (GRID_WIDTH as int) + p.x
}

/// A sequence of pairwise distinct positions that all lie on the grid is no
/// longer than the number of grid cells.
pub proof fn lemma_grid_capacity(s: Seq<Pos>)
    requires
        s.no_duplicates(),
        forall|i: int| 0 <= i < s.len() ==> in_grid(#[trigger] s[i]),
    ensures
        s.len() <= (GRID_WIDTH as int) * (GRID_HEIGHT as int),
{
    let cells = (GRID_WIDTH as int) * (GRID_HEIGHT as int);
    let t = s.map_values(|p: Pos| cell_index(p));
    assert forall|i: int, j: int| 0 <= i < j < t.len() implies t[i] != t[j] by {
        let a = s[i];
        let b = s[j];
        assert(in_grid(a) && in_grid(b) && a != b);
        if cell_index(a) == cell_index(b) {
            assert((a.y - b.y) * (GRID_WIDTH as int) == b.x - a.x) by (nonlinear_arith)
                requires
                    cell_index(a) == cell_index(b),
            ;
            assert(a.y == b.y) by (nonlinear_arith)
                requires
                    (a.y - b.y) * (GRID_WIDTH as int) == b.x - a.x,
                    0 <= a.x < GRID_WIDTH,
                    0 <= b.x < GRID_WIDTH,
            ;
            assert(a.x == b.x);
            assert(false);
        }
    }
    assert(t.no_duplicates());
    t.unique_seq_to_set();
    assert forall|v: int| t.to_set().contains(v) implies vstd::set_lib::set_int_range(
        0,
        cells,
    ).contains(v) by {
        let i = choose|i: int| 0 <= i < t.len() && t[i] == v;
        assert(v == cell_index(s[i]));
        assert(in_grid(s[i]));
        assert(0 <= cell_index(s[i]) < cells) by (nonlinear_arith)
            requires
                0 <= s[i].x < GRID_WIDTH,
                0 <= s[i].y < GRID_HEIGHT,
                cell_index(s[i]) == s[i].y * (GRID_WIDTH as int) + s[i].x,
                cells == (GRID_WIDTH as int) * (GRID_HEIGHT as int),
        ;
    }
    vstd::set_lib::lemma_int_range(0, cells);
    vstd::set_lib::lemma_len_subset(t.to_set(), vstd::set_lib::set_int_range(0, cells));
}

} // verus!
