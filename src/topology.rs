use vstd::prelude::*;

verus! {

/// A coordinate of the grid: column `x`, row `y`.
#[derive(Clone, Copy, Debug, PartialEq, Eq, Structural)]
pub struct CellPosition {
    pub x: usize,
    pub y: usize,
}

impl View for CellPosition {
    type V = (int, int);

    open spec fn view(&self) -> (int, int) {
        (self.x as int, self.y as int)
    }
}

/// The coordinates that a sequence of positions holds.
pub open spec fn coords(s: Seq<CellPosition>) -> Seq<(int, int)> {
    s.map_values(|p: CellPosition| p@)
}

/// Whether `p` lies on a grid of `width` columns and `height` rows.
pub open spec fn inside(p: (int, int), width: int, height: int) -> bool {
    0 <= p.0 < width && 0 <= p.1 < height
}

/// The `k`-th cell of the 3×3 window centred on `(x, y)`, for `k` in `0..9`:
/// offsets `(-1, -1), (-1, 0), (-1, 1), (0, -1), (0, 0), ..., (1, 1)` in that order.
pub open spec fn window_cell(x: int, y: int, k: int) -> (int, int) {
    (x + k / 3 - 1, y + k % 3 - 1)
}

/// Whether the `k`-th cell of the window around `(x, y)` is a neighbour of `(x, y)`:
/// it is not the centre and it lies on the grid.
pub open spec fn keeps(x: int, y: int, width: int, height: int, k: int) -> bool {
    k != 4 && inside(window_cell(x, y, k), width, height)
}

/// The neighbours of `(x, y)` among the first `k` cells of its window, in window order.
pub open spec fn neighbors_upto(x: int, y: int, width: int, height: int, k: nat) -> Seq<(int, int)>
    decreases k,
{
    if k == 0 {
        Seq::empty()
    } else {
        let prev = neighbors_upto(x, y, width, height, (k - 1) as nat);
        if keeps(x, y, width, height, k - 1) {
            prev.push(window_cell(x, y, k - 1))
        } else {
            prev
        }
    }
}

/// The bounded Moore neighbourhood of `(x, y)`: every cell of the 3×3 window around it,
/// but the centre, that lies on the grid, in window order. There is no wraparound.
pub open spec fn neighbors(x: int, y: int, width: int, height: int) -> Seq<(int, int)> {
    neighbors_upto(x, y, width, height, 9)
}

/// Whether `a` and `b` are distinct cells at most one step apart in each direction.
pub open spec fn adjacent(a: (int, int), b: (int, int)) -> bool {
    a != b && -1 <= a.0 - b.0 <= 1 && -1 <= a.1 - b.1 <= 1
}

/// Every neighbour lies on the grid and is adjacent to the centre, and there are at most `k`.
pub proof fn lemma_neighbors_upto_sound(x: int, y: int, width: int, height: int, k: nat)
    requires
        k <= 9,
    ensures
        neighbors_upto(x, y, width, height, k).len() <= k,
        forall|i: int|
            0 <= i < neighbors_upto(x, y, width, height, k).len() ==> {
                let p = #[trigger] neighbors_upto(x, y, width, height, k)[i];
                inside(p, width, height) && adjacent(p, (x, y))
            },
    decreases k,
{
    if k > 0 {
        lemma_neighbors_upto_sound(x, y, width, height, (k - 1) as nat);
        let kk = k - 1;
        assert(0 <= kk / 3 <= 2 && 0 <= kk % 3 <= 2 && (kk == 4 || kk / 3 != 1 || kk % 3 != 1));
    }
}

/// `c + d - 1` when it lies in `0..bound`.
pub(crate) fn shifted(c: usize, d: usize, bound: usize) -> (r: Option<usize>)
    requires
        c < bound,
        d <= 2,
    ensures
        match r {
            Some(v) => v == c + d - 1 && v < bound,
            None => !(0 <= c + d - 1 < bound),
        },
{
    if d == 0 {
        if c > 0 {
            Some(c - 1)
        } else {
            None
        }
    } else if d == 1 {
        Some(c)
    } else if c + 1 < bound {
        Some(c + 1)
    } else {
        None
    }
}

} // verus!
