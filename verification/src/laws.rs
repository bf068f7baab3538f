//! Board-level laws, each proved once and for all from the specification
//! functions that the board's contracts are stated over.

use vstd::prelude::*;

use crate::board::glider_covers;
use crate::board::Board;
use vstd::arithmetic::div_mod::lemma_mod_bound;

verus! {

/// The neighbour count of any in-range cell is a value in `[0, 8]`.
pub proof fn live_neighbor_count_in_range(b: Board, x: int, y: int)
    requires
        b.wf(),
        0 <= x < b.width,
        0 <= y < b.height,
    ensures
        0 <= b.live_neighbors(x, y) <= 8,
{
}

/// The neighbour count of a cell never includes the cell's own state: two
/// boards that agree everywhere except possibly at `(x, y)` itself give
/// `(x, y)` the same neighbour count.
pub proof fn live_neighbors_ignore_own_cell(a: Board, b: Board, x: int, y: int)
    requires
        a.wf(),
        b.wf(),
        a.width == b.width,
        a.height == b.height,
        0 <= x < a.width,
        0 <= y < a.height,
        forall|i: int, j: int|
            0 <= i < a.width && 0 <= j < a.height && !(i == x && j == y) ==> a.cell(i, j)
                == b.cell(i, j),
    ensures
        a.live_neighbors(x, y) == b.live_neighbors(x, y),
{
    assert forall|dx: int, dy: int| -1 <= dx <= 1 && -1 <= dy <= 1 implies a.neighbor_contrib(
        x,
        y,
        dx,
        dy,
    ) == b.neighbor_contrib(x, y, dx, dy) by {
        lemma_mod_bound(x + dx, a.width as int);
        lemma_mod_bound(y + dy, a.height as int);
    }
}

/// Underpopulation: a live cell with fewer than two live neighbours is dead
/// in the next generation.
pub proof fn underpopulation(b: Board, x: int, y: int)
    requires
        b.wf(),
        0 <= x < b.width,
        0 <= y < b.height,
        b.cell(x, y),
        b.live_neighbors(x, y) < 2,
    ensures
        !b.next_state(x, y),
{
}

/// Survival: a live cell with exactly two or three live neighbours is alive
/// in the next generation.
pub proof fn survival(b: Board, x: int, y: int)
    requires
        b.wf(),
        0 <= x < b.width,
        0 <= y < b.height,
        b.cell(x, y),
        b.live_neighbors(x, y) == 2 || b.live_neighbors(x, y) == 3,
    ensures
        b.next_state(x, y),
{
}

/// Overpopulation: a live cell with four or more live neighbours is dead in
/// the next generation.
pub proof fn overpopulation(b: Board, x: int, y: int)
    requires
        b.wf(),
        0 <= x < b.width,
        0 <= y < b.height,
        b.cell(x, y),
        b.live_neighbors(x, y) >= 4,
    ensures
        !b.next_state(x, y),
{
}

/// Reproduction: a dead cell with exactly three live neighbours is alive in
/// the next generation.
pub proof fn reproduction(b: Board, x: int, y: int)
    requires
        b.wf(),
        0 <= x < b.width,
        0 <= y < b.height,
        !b.cell(x, y),
        b.live_neighbors(x, y) == 3,
    ensures
        b.next_state(x, y),
{
}

/// Seeding is idempotent: inserting a glider twice at the same anchor leaves
/// exactly the alive-set that one insertion leaves. `once` relates to `base`
/// and `twice` to `once` precisely as `add_glider`'s contract relates the
/// board after the call to the board before it.
pub proof fn add_glider_idempotent(base: Board, once: Board, twice: Board, x: int, y: int)
    requires
        base.wf(),
        once.wf(),
        twice.wf(),
        once.width == base.width,
        once.height == base.height,
        twice.width == once.width,
        twice.height == once.height,
        forall|a: int, b: int|
            0 <= a < once.width && 0 <= b < once.height ==> once.cell(a, b) == (base.cell(a, b)
                || glider_covers(once.width as int, once.height as int, x, y, a, b)),
        forall|a: int, b: int|
            0 <= a < twice.width && 0 <= b < twice.height ==> twice.cell(a, b) == (once.cell(a, b)
                || glider_covers(twice.width as int, twice.height as int, x, y, a, b)),
    ensures
        forall|a: int, b: int|
            0 <= a < twice.width && 0 <= b < twice.height ==> twice.cell(a, b) == once.cell(a, b),
{
}

/// Wraparound seeding: a glider anchored anywhere, in particular near an
/// edge, puts its five cells at the wrapped coordinates, all of them in
/// range. `seeded` relates to `base` as `add_glider`'s contract relates the
/// board after the call to the board before it.
pub proof fn add_glider_cells_alive(base: Board, seeded: Board, x: int, y: int)
    requires
        base.wf(),
        seeded.wf(),
        seeded.width == base.width,
        seeded.height == base.height,
        0 <= x,
        0 <= y,
        forall|a: int, b: int|
            0 <= a < seeded.width && 0 <= b < seeded.height ==> seeded.cell(a, b) == (base.cell(
                a,
                b,
            ) || glider_covers(seeded.width as int, seeded.height as int, x, y, a, b)),
    ensures
        seeded.cell((x + 1) % (seeded.width as int), y % (seeded.height as int)),
        seeded.cell((x + 2) % (seeded.width as int), (y + 1) % (seeded.height as int)),
        seeded.cell(x % (seeded.width as int), (y + 2) % (seeded.height as int)),
        seeded.cell((x + 1) % (seeded.width as int), (y + 2) % (seeded.height as int)),
        seeded.cell((x + 2) % (seeded.width as int), (y + 2) % (seeded.height as int)),
{
    let w = seeded.width as int;
    let h = seeded.height as int;
    lemma_mod_bound(x, w);
    lemma_mod_bound(x + 1, w);
    lemma_mod_bound(x + 2, w);
    lemma_mod_bound(y, h);
    lemma_mod_bound(y + 1, h);
    lemma_mod_bound(y + 2, h);
}

} // verus!
