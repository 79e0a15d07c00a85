use vstd::prelude::*;

use crate::hashing::Vertex;
use crate::search::{is_edge, is_walk, GraphSearch};

verus! {

/// The number of moves between two cells when only horizontal and vertical moves are made.
pub open spec fn manhattan(a: Vertex, b: Vertex) -> int {
    let dx = a.0 - b.0;
    let dy = a.1 - b.1;
    (if dx >= 0 { dx } else { -dx }) + (if dy >= 0 { dy } else { -dy })
}

/// The distance between two coordinates.
fn coordinate_gap(a: i64, b: i64) -> (r: u64)
    ensures
        r == (if a >= b { a - b } else { b - a }),
{
    if a >= b {
        (a as i128 - b as i128) as u64
    } else {
        (b as i128 - a as i128) as u64
    }
}

/// The Manhattan distance, saturated at the largest cost.
fn manhattan_cost(a: Vertex, b: Vertex) -> (r: u64)
    ensures
        r == (if manhattan(a, b) > u64::MAX { u64::MAX as int } else { manhattan(a, b) }),
{
    coordinate_gap(a.0, b.0).saturating_add(coordinate_gap(a.1, b.1))
}

/// Moves to a horizontal or vertical neighbour, each of cost one, that `allowed` admits.
pub open spec fn unit_moves(v: Vertex, allowed: spec_fn(Vertex) -> bool) -> Seq<(Vertex, u64)> {
    let (x, y) = v;
    let s0 = Seq::<(Vertex, u64)>::empty();
    let s1 = if x > i64::MIN && allowed(((x - 1) as i64, y)) { s0.push((((x - 1) as i64, y), 1u64)) } else { s0 };
    let s2 = if x < i64::MAX && allowed(((x + 1) as i64, y)) { s1.push((((x + 1) as i64, y), 1u64)) } else { s1 };
    let s3 = if y > i64::MIN && allowed((x, (y - 1) as i64)) { s2.push(((x, (y - 1) as i64), 1u64)) } else { s2 };
    if y < i64::MAX && allowed((x, (y + 1) as i64)) { s3.push(((x, (y + 1) as i64), 1u64)) } else { s3 }
}

/// Each move that `unit_moves` offers goes to a cell at Manhattan distance one.
pub proof fn lemma_unit_moves_adjacent(v: Vertex, allowed: spec_fn(Vertex) -> bool, i: int)
    requires
        0 <= i < unit_moves(v, allowed).len(),
    ensures
        manhattan(v, unit_moves(v, allowed)[i].0) == 1,
{
}

/// On an open grid, no walk is shorter than the Manhattan distance between its ends: a
/// walk of `n` vertices from `a` to `b` has `n - 1 >= manhattan(a, b)`. So the path that
/// a search returns on such a grid takes at least that many moves.
pub proof fn lemma_grid_walk_at_least_manhattan(g: &Grid, p: Seq<Vertex>)
    requires
        p.len() > 0,
        is_walk(g, p),
    ensures
        p.len() - 1 >= manhattan(p[0], p.last()),
    decreases p.len(),
{
    if p.len() > 1 {
        let q = p.drop_last();
        assert forall|i: int| 0 <= i < q.len() - 1 implies #[trigger] is_edge(g, q[i], q[i + 1]) by {
            assert(is_edge(g, p[i], p[i + 1]));
        }
        lemma_grid_walk_at_least_manhattan(g, q);
        let m = p.len() - 2;
        assert(is_edge(g, p[m], p[m + 1]));
        let k = choose|k: int| 0 <= k < g.spec_neighbours(p[m]).len()
            && (#[trigger] g.spec_neighbours(p[m])[k]).0 == p[m + 1];
        lemma_unit_moves_adjacent(p[m], |c: Vertex| g.spec_cell(c), k);
        assert(q.last() == p[m]);
    }
}

/// An open square grid: every cell with both coordinates in `0..=size` can be entered.
pub struct Grid {
    pub size: i64,
}

impl Grid {
    /// The cells that a move may enter.
    pub open spec fn spec_cell(&self, c: Vertex) -> bool {
        0 <= c.0 <= self.size && 0 <= c.1 <= self.size
    }

    /// A grid whose coordinates run from zero to `size`.
    pub fn new(size: u32) -> (r: Grid)
        ensures
            r.size == size,
    {
        Grid { size: size as i64 }
    }

    fn cell(&self, c: Vertex) -> (r: bool)
        ensures
            r == self.spec_cell(c),
    {
        0 <= c.0 && c.0 <= self.size && 0 <= c.1 && c.1 <= self.size
    }
}

impl GraphSearch for Grid {
    open spec fn spec_neighbours(&self, v: Vertex) -> Seq<(Vertex, u64)> {
        unit_moves(v, |c: Vertex| self.spec_cell(c))
    }

    open spec fn spec_heuristic(&self, from: Vertex, to: Vertex) -> u64 {
        if manhattan(from, to) > u64::MAX { u64::MAX } else { manhattan(from, to) as u64 }
    }

    open spec fn spec_max_iterations(&self) -> usize {
        usize::MAX
    }

    fn heuristic(&self, start: Vertex, goal: Vertex) -> (r: u64) {
        manhattan_cost(start, goal)
    }

    fn neighbours(&self, origin: Vertex, neighbours: &mut Vec<(Vertex, u64)>) {
        let (x, y) = origin;
        let ghost s0 = old(neighbours)@;
        if x > i64::MIN && self.cell((x - 1, y)) {
            neighbours.push(((x - 1, y), 1));
        }
        if x < i64::MAX && self.cell((x + 1, y)) {
            neighbours.push(((x + 1, y), 1));
        }
        if y > i64::MIN && self.cell((x, y - 1)) {
            neighbours.push(((x, y - 1), 1));
        }
        if y < i64::MAX && self.cell((x, y + 1)) {
            neighbours.push(((x, y + 1), 1));
        }
        assert(neighbours@ =~= s0 + self.spec_neighbours(origin));
    }

    fn max_iterations(&self) -> (r: usize) {
        usize::MAX
    }
}

/// A maze read from a bitmap: a `width` by `height` field of cells, each open or walled,
/// stored row after row. A cell missing from the storage counts as walled.
pub struct Maze {
    width: u32,
    height: u32,
    cells: Vec<bool>,
}

impl Maze {
    /// The width of the field.
    pub closed spec fn spec_width(&self) -> int {
        self.width as int
    }

    /// The height of the field.
    pub closed spec fn spec_height(&self) -> int {
        self.height as int
    }

    /// The stored cells, row after row.
    pub closed spec fn spec_cells(&self) -> Seq<bool> {
        self.cells@
    }

    /// The cell at column `x` and row `y` lies in the field and is open.
    pub open spec fn spec_is_open(&self, x: int, y: int) -> bool {
        &&& 0 <= x < self.spec_width()
        &&& 0 <= y < self.spec_height()
        &&& y * self.spec_width() + x < self.spec_cells().len()
        &&& self.spec_cells()[y * self.spec_width() + x]
    }

    /// A maze of the given size over cells stored row after row.
    pub fn new(width: u32, height: u32, cells: Vec<bool>) -> (r: Maze)
        ensures
            r.spec_width() == width,
            r.spec_height() == height,
            r.spec_cells() == cells@,
    {
        Maze { width, height, cells }
    }

    /// Whether the cell at column `x` and row `y` can be entered.
    pub fn is_open(&self, x: u32, y: u32) -> (r: bool)
        ensures
            r == self.spec_is_open(x as int, y as int),
    {
        if x >= self.width || y >= self.height {
            return false;
        }
        proof {
            assert((y as int) * (self.width as int) <= (u32::MAX as int) * (u32::MAX as int)) by (nonlinear_arith)
                requires
                    y <= u32::MAX,
                    self.width <= u32::MAX,
            ;
        }
        let i: u64 = y as u64 * self.width as u64 + x as u64;
        if i < self.cells.len() as u64 {
            self.cells[i as usize]
        } else {
            false
        }
    }

    fn cell(&self, c: Vertex) -> (r: bool)
        ensures
            r == self.spec_is_open(c.0 as int, c.1 as int),
    {
        if 0 <= c.0 && c.0 <= u32::MAX as i64 && 0 <= c.1 && c.1 <= u32::MAX as i64 {
            self.is_open(c.0 as u32, c.1 as u32)
        } else {
            false
        }
    }
}

impl GraphSearch for Maze {
    open spec fn spec_neighbours(&self, v: Vertex) -> Seq<(Vertex, u64)> {
        unit_moves(v, |c: Vertex| self.spec_is_open(c.0 as int, c.1 as int))
    }

    open spec fn spec_heuristic(&self, from: Vertex, to: Vertex) -> u64 {
        if manhattan(from, to) > u64::MAX { u64::MAX } else { manhattan(from, to) as u64 }
    }

    open spec fn spec_max_iterations(&self) -> usize {
        usize::MAX
    }

    fn heuristic(&self, start: Vertex, goal: Vertex) -> (r: u64) {
        manhattan_cost(start, goal)
    }

    fn neighbours(&self, origin: Vertex, neighbours: &mut Vec<(Vertex, u64)>) {
        let (x, y) = origin;
        let ghost s0 = old(neighbours)@;
        if x > i64::MIN && self.cell((x - 1, y)) {
            neighbours.push(((x - 1, y), 1));
        }
        if x < i64::MAX && self.cell((x + 1, y)) {
            neighbours.push(((x + 1, y), 1));
        }
        if y > i64::MIN && self.cell((x, y - 1)) {
            neighbours.push(((x, y - 1), 1));
        }
        if y < i64::MAX && self.cell((x, y + 1)) {
            neighbours.push(((x, y + 1), 1));
        }
        assert(neighbours@ =~= s0 + self.spec_neighbours(origin));
    }

    fn max_iterations(&self) -> (r: usize) {
        usize::MAX
    }
}

} // verus!
