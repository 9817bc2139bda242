use vstd::prelude::*;
use crate::topology::{neighbors, neighbors_upto, keeps, window_cell, inside, adjacent, lemma_neighbors_upto_sound};
use crate::engine::{Cell, is_grid, is_live, count_live, next_grid, live_neighbors};

verus! {

/// How many of the columns `c - 1`, `c`, `c + 1` lie in `0..n`, for `c` in `0..n`.
pub open spec fn span(c: int, n: int) -> int {
    (if c > 0 { 1int } else { 0int }) + 1 + (if c + 1 < n { 1int } else { 0int })
}

/// A cell has as many neighbours as its window has cells on the grid, less itself.
pub proof fn lemma_neighbor_count(x: int, y: int, width: int, height: int)
    requires
        0 <= x < width,
        0 <= y < height,
    ensures
        neighbors(x, y, width, height).len() == span(x, width) * span(y, height) - 1,
{
    reveal_with_fuel(neighbors_upto, 10);
    let sx = span(x, width);
    let sy = span(y, height);
    assert(sx * sy == if sx == 1 { sy } else if sx == 2 { 2 * sy } else { 3 * sy }) by (nonlinear_arith)
        requires 1 <= sx <= 3;
}

/// The corner `(0, 0)` of a grid at least two cells wide and high has exactly 3 neighbours.
pub proof fn lemma_corner_has_three(width: int, height: int)
    requires
        width >= 2,
        height >= 2,
    ensures
        neighbors(0, 0, width, height).len() == 3,
{
    lemma_neighbor_count(0, 0, width, height);
    let (sx, sy) = (span(0, width), span(0, height));
    assert(sx * sy == 4) by (nonlinear_arith)
        requires sx == 2 && sy == 2;
}

/// A cell on the border of a grid at least two cells wide and high, but not in a corner,
/// has exactly 5 neighbours.
pub proof fn lemma_edge_has_five(x: int, y: int, width: int, height: int)
    requires
        width >= 2,
        height >= 2,
        0 <= x < width,
        0 <= y < height,
        x == 0 || x == width - 1 || y == 0 || y == height - 1,
        !((x == 0 || x == width - 1) && (y == 0 || y == height - 1)),
    ensures
        neighbors(x, y, width, height).len() == 5,
{
    lemma_neighbor_count(x, y, width, height);
    let sx = span(x, width);
    let sy = span(y, height);
    assert(sx * sy == 6) by (nonlinear_arith)
        requires (sx == 2 && sy == 3) || (sx == 3 && sy == 2);
}

/// A cell off the border has exactly 8 neighbours.
pub proof fn lemma_interior_has_eight(x: int, y: int, width: int, height: int)
    requires
        0 < x < width - 1,
        0 < y < height - 1,
    ensures
        neighbors(x, y, width, height).len() == 8,
{
    lemma_neighbor_count(x, y, width, height);
}

/// The single cell of a `1 × 1` grid has no neighbours.
pub proof fn lemma_single_cell_has_none()
    ensures
        neighbors(0, 0, 1, 1).len() == 0,
{
    lemma_neighbor_count(0, 0, 1, 1);
    let s1 = span(0, 1);
    assert(s1 * s1 == 1) by (nonlinear_arith)
        requires s1 == 1;
}

/// No cell is its own neighbour, and every neighbour lies on the grid next to the cell.
pub proof fn lemma_no_self_neighbor(x: int, y: int, width: int, height: int)
    ensures
        !neighbors(x, y, width, height).contains((x, y)),
        forall|p: (int, int)| #[trigger] neighbors(x, y, width, height).contains(p)
            ==> inside(p, width, height) && adjacent(p, (x, y)),
{
    lemma_neighbors_upto_sound(x, y, width, height, 9);
}

proof fn lemma_neighbors_upto_complete(x: int, y: int, width: int, height: int, k: nat, j: int)
    requires
        0 <= j < k,
        keeps(x, y, width, height, j),
    ensures
        neighbors_upto(x, y, width, height, k).contains(window_cell(x, y, j)),
    decreases k,
{
    let prev = neighbors_upto(x, y, width, height, (k - 1) as nat);
    if j == k - 1 {
        assert(neighbors_upto(x, y, width, height, k).last() == window_cell(x, y, j));
    } else {
        lemma_neighbors_upto_complete(x, y, width, height, (k - 1) as nat, j);
        if keeps(x, y, width, height, k - 1) {
            let i = choose|i: int| 0 <= i < prev.len() && prev[i] == window_cell(x, y, j);
            assert(prev.push(window_cell(x, y, k - 1))[i] == window_cell(x, y, j));
        }
    }
}

/// Every cell of the grid next to `(x, y)` is one of its neighbours.
pub proof fn lemma_neighbors_complete(x: int, y: int, width: int, height: int, p: (int, int))
    requires
        inside(p, width, height),
        adjacent(p, (x, y)),
    ensures
        neighbors(x, y, width, height).contains(p),
{
    let j = 3 * (p.0 - x + 1) + (p.1 - y + 1);
    assert(j / 3 == p.0 - x + 1 && j % 3 == p.1 - y + 1 && j != 4);
    lemma_neighbors_upto_complete(x, y, width, height, 9, j);
}

/// Adjacency on the grid is symmetric: `b` is a neighbour of `a` exactly when `a` is one of `b`.
pub proof fn lemma_neighbors_symmetric(a: (int, int), b: (int, int), width: int, height: int)
    requires
        inside(a, width, height),
        inside(b, width, height),
    ensures
        neighbors(a.0, a.1, width, height).contains(b) <==> neighbors(b.0, b.1, width, height).contains(a),
{
    lemma_no_self_neighbor(a.0, a.1, width, height);
    lemma_no_self_neighbor(b.0, b.1, width, height);
    if adjacent(a, b) {
        lemma_neighbors_complete(a.0, a.1, width, height, b);
        lemma_neighbors_complete(b.0, b.1, width, height, a);
    }
}

/// The step is a function of the grid before it: equal grids of equal dimensions have
/// equal successors.
pub proof fn lemma_step_deterministic(g1: Seq<Seq<Cell>>, g2: Seq<Seq<Cell>>, width: int, height: int)
    requires
        g1 == g2,
    ensures
        next_grid(g1, width, height) == next_grid(g2, width, height),
{
}

/// A live cell with no live neighbour is dead in the next generation.
pub proof fn lemma_underpopulation(g: Seq<Seq<Cell>>, width: int, height: int, x: int, y: int)
    requires
        is_grid(g, width, height),
        0 <= x < width,
        0 <= y < height,
        g[x][y] == Cell::Live,
        live_neighbors(g, x, y, width, height) == 0,
    ensures
        next_grid(g, width, height)[x][y] == Cell::Dead,
{
}

/// A live cell with 4 or more live neighbours is dead in the next generation.
pub proof fn lemma_overpopulation(g: Seq<Seq<Cell>>, width: int, height: int, x: int, y: int)
    requires
        is_grid(g, width, height),
        0 <= x < width,
        0 <= y < height,
        g[x][y] == Cell::Live,
        live_neighbors(g, x, y, width, height) >= 4,
    ensures
        next_grid(g, width, height)[x][y] == Cell::Dead,
{
}

/// A dead cell with exactly 3 live neighbours is live in the next generation.
pub proof fn lemma_birth(g: Seq<Seq<Cell>>, width: int, height: int, x: int, y: int)
    requires
        is_grid(g, width, height),
        0 <= x < width,
        0 <= y < height,
        g[x][y] == Cell::Dead,
        live_neighbors(g, x, y, width, height) == 3,
    ensures
        next_grid(g, width, height)[x][y] == Cell::Live,
{
}

/// How many of the first `k` cells of the window around `(x, y)` are live neighbours.
pub open spec fn window_live(g: Seq<Seq<Cell>>, x: int, y: int, width: int, height: int, k: nat) -> nat
    decreases k,
{
    if k == 0 {
        0
    } else {
        window_live(g, x, y, width, height, (k - 1) as nat) + if keeps(x, y, width, height, k - 1)
            && is_live(g, window_cell(x, y, k - 1)) {
            1nat
        } else {
            0nat
        }
    }
}

/// Counting the live neighbours is counting the live cells of the window that are kept.
pub proof fn lemma_window_live(g: Seq<Seq<Cell>>, x: int, y: int, width: int, height: int, k: nat)
    ensures
        count_live(g, neighbors_upto(x, y, width, height, k)) == window_live(g, x, y, width, height, k),
    decreases k,
{
    if k > 0 {
        lemma_window_live(g, x, y, width, height, (k - 1) as nat);
        let prev = neighbors_upto(x, y, width, height, (k - 1) as nat);
        if keeps(x, y, width, height, k - 1) {
            assert(prev.push(window_cell(x, y, k - 1)).drop_last() =~= prev);
        }
    }
}

/// Whether `p` is one of the four cells of the 2×2 block whose lowest corner is `(bx, by)`.
pub open spec fn in_block(p: (int, int), bx: int, by: int) -> bool {
    bx <= p.0 <= bx + 1 && by <= p.1 <= by + 1
}

/// A grid whose live cells are exactly the 2×2 block at `(bx, by)`.
pub open spec fn is_block_grid(g: Seq<Seq<Cell>>, width: int, height: int, bx: int, by: int) -> bool {
    &&& is_grid(g, width, height)
    &&& 0 <= bx && bx + 1 < width
    &&& 0 <= by && by + 1 < height
    &&& forall|x: int, y: int|
        0 <= x < width && 0 <= y < height ==> (#[trigger] g[x][y] == Cell::Live) == in_block((x, y), bx, by)
}

/// The grid after `n` steps from `g`.
pub open spec fn generations(g: Seq<Seq<Cell>>, width: int, height: int, n: nat) -> Seq<Seq<Cell>>
    decreases n,
{
    if n == 0 {
        g
    } else {
        next_grid(generations(g, width, height, (n - 1) as nat), width, height)
    }
}

proof fn lemma_block_cell(g: Seq<Seq<Cell>>, width: int, height: int, bx: int, by: int, x: int, y: int)
    requires
        is_block_grid(g, width, height, bx, by),
        0 <= x < width,
        0 <= y < height,
    ensures
        in_block((x, y), bx, by) ==> live_neighbors(g, x, y, width, height) == 3,
        !in_block((x, y), bx, by) ==> live_neighbors(g, x, y, width, height) <= 2,
{
    lemma_window_live(g, x, y, width, height, 9);
    reveal_with_fuel(window_live, 10);
    assert forall|k: int| 0 <= k < 9 && keeps(x, y, width, height, k) implies
        is_live(g, #[trigger] window_cell(x, y, k)) == in_block(window_cell(x, y, k), bx, by) by {
        let p = window_cell(x, y, k);
        assert(g[p.0][p.1] == Cell::Live <==> in_block(p, bx, by));
    }
}

/// A 2×2 block of live cells alone on a grid is a still life: one step leaves it as it is.
pub proof fn lemma_block_still(g: Seq<Seq<Cell>>, width: int, height: int, bx: int, by: int)
    requires
        is_block_grid(g, width, height, bx, by),
    ensures
        next_grid(g, width, height) == g,
{
    assert forall|x: int| 0 <= x < width implies #[trigger] next_grid(g, width, height)[x] =~= g[x] by {
        assert forall|y: int| 0 <= y < height implies next_grid(g, width, height)[x][y] == #[trigger] g[x][y] by {
            lemma_block_cell(g, width, height, bx, by, x, y);
        }
    }
    assert(next_grid(g, width, height) =~= g);
}

/// A 2×2 block of live cells alone on a grid stays as it is after any number of steps.
pub proof fn lemma_block_stays(g: Seq<Seq<Cell>>, width: int, height: int, bx: int, by: int, n: nat)
    requires
        is_block_grid(g, width, height, bx, by),
    ensures
        generations(g, width, height, n) == g,
    decreases n,
{
    if n > 0 {
        lemma_block_stays(g, width, height, bx, by, (n - 1) as nat);
        lemma_block_still(g, width, height, bx, by);
    }
}

} // verus!
