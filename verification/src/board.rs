//! The board model: grid storage, neighbour counting, the life/death rule,
//! generation advancement, and pattern seeding.

use vstd::prelude::*;

use rand::Rng;
use vstd::arithmetic::div_mod::lemma_add_mod_noop;
use vstd::arithmetic::div_mod::lemma_mod_add_multiples_vanish;
use vstd::arithmetic::div_mod::lemma_mod_self_0;
use vstd::arithmetic::div_mod::lemma_small_mod;

verus! {

/// Where a glider anchored at `(x, y)` puts its five live cells on a
/// `w` by `h` toroidal grid: column `i`, row `j` is covered exactly when it
/// is one of the five anchor offsets, each coordinate wrapped modulo the
/// grid dimensions.
pub open spec fn glider_covers(w: int, h: int, x: int, y: int, i: int, j: int) -> bool {
    ||| (i == (x + 1) % w && j == y % h)
    ||| (i == (x + 2) % w && j == (y + 1) % h)
    ||| (i == x % w && j == (y + 2) % h)
    ||| (i == (x + 1) % w && j == (y + 2) % h)
    ||| (i == (x + 2) % w && j == (y + 2) % h)
}

/// Whether every anchor in the sequence lies in `[0, w) x [0, h)`.
pub open spec fn anchors_in_range(anchors: Seq<(int, int)>, w: int, h: int) -> bool {
    forall|k: int|
        0 <= k < anchors.len() ==> 0 <= (#[trigger] anchors[k]).0 < w && 0 <= anchors[k].1 < h
}

/// Whether a glider anchored at one of `anchors` covers `(i, j)` on a
/// `w` by `h` toroidal grid.
pub open spec fn any_glider_covers(
    w: int,
    h: int,
    anchors: Seq<(int, int)>,
    i: int,
    j: int,
) -> bool {
    exists|k: int|
        0 <= k < anchors.len() && #[trigger] glider_covers(w, h, anchors[k].0, anchors[k].1, i, j)
}

/// Whether `result` is `base` with one glider inserted at each anchor of
/// `anchors`: the anchors are in range, and a cell is alive in `result`
/// exactly when it was alive in `base` or some anchored glider covers it.
pub open spec fn seeded_from(base: Board, result: Board, anchors: Seq<(int, int)>) -> bool {
    &&& anchors_in_range(anchors, base.width as int, base.height as int)
    &&& forall|a: int, b: int|
        0 <= a < base.width && 0 <= b < base.height ==> #[trigger] result.cell(a, b) == (base.cell(
            a,
            b,
        ) || any_glider_covers(base.width as int, base.height as int, anchors, a, b))
}

/// Whether `result` is `base` with `n` gliders inserted at some sequence of
/// in-range anchors.
pub open spec fn gliders_seeded(base: Board, result: Board, n: int) -> bool {
    exists|anchors: Seq<(int, int)>| anchors.len() == n && #[trigger] seeded_from(
        base,
        result,
        anchors,
    )
}

/// Whether the board's live cells are exactly the cells of the gliders at
/// the given in-range anchors, over an otherwise all-dead grid.
pub open spec fn covers_board(board: Board, anchors: Seq<(int, int)>) -> bool {
    &&& anchors_in_range(anchors, board.width as int, board.height as int)
    &&& forall|a: int, b: int|
        0 <= a < board.width && 0 <= b < board.height ==> #[trigger] board.cell(a, b)
            == any_glider_covers(board.width as int, board.height as int, anchors, a, b)
}

/// Whether the board holds exactly `n` gliders at some in-range anchors and
/// nothing else.
pub open spec fn only_gliders(board: Board, n: int) -> bool {
    exists|anchors: Seq<(int, int)>| anchors.len() == n && #[trigger] covers_board(board, anchors)
}

/// Appending one anchor extends the covered cells by exactly the glider at
/// that anchor.
proof fn lemma_any_glider_covers_push(
    w: int,
    h: int,
    anchors: Seq<(int, int)>,
    anchor: (int, int),
    i: int,
    j: int,
)
    ensures
        any_glider_covers(w, h, anchors.push(anchor), i, j) == (any_glider_covers(
            w,
            h,
            anchors,
            i,
            j,
        ) || glider_covers(w, h, anchor.0, anchor.1, i, j)),
{
    let s = anchors.push(anchor);
    assert(s[anchors.len() as int] == anchor);
    if any_glider_covers(w, h, s, i, j) {
        let k = choose|k: int|
            0 <= k < s.len() && #[trigger] glider_covers(w, h, s[k].0, s[k].1, i, j);
        if k < anchors.len() {
            assert(s[k] == anchors[k]);
            assert(glider_covers(w, h, anchors[k].0, anchors[k].1, i, j));
        }
    }
    if any_glider_covers(w, h, anchors, i, j) {
        let k = choose|k: int|
            0 <= k < anchors.len() && #[trigger] glider_covers(w, h, anchors[k].0, anchors[k].1, i, j);
        assert(s[k] == anchors[k]);
        assert(glider_covers(w, h, s[k].0, s[k].1, i, j));
    }
    if glider_covers(w, h, anchor.0, anchor.1, i, j) {
        assert(glider_covers(w, h, s[anchors.len() as int].0, s[anchors.len() as int].1, i, j));
    }
}

/// Relies on `rand::Rng::gen_range` over `0..bound`: it rejects only an
/// empty range and otherwise returns a uniformly drawn value of the range,
/// so every value that comes back is below `bound`. Nothing more is assumed
/// of the draw; `rand::thread_rng` can still fail environmentally if the
/// operating system's entropy source does, which no precondition can rule
/// out.
#[verifier::external_body]
fn random_below(bound: usize) -> (r: usize)
    requires
        0 < bound,
    ensures
        r < bound,
{
    rand::thread_rng().gen_range(0..bound)
}

/// A Game-of-Life board: `height` rows of `width` alive/dead cells.
///
/// Coordinates are `(x, y)` with `x` the column (0 = left) and `y` the row
/// (0 = top). All mutation helpers wrap their coordinates modulo
/// `width`/`height` (toroidal grid); reads are strict and demand in-range
/// coordinates.
pub struct Board {
    pub cells: Vec<Vec<bool>>,
    pub width: usize,
    pub height: usize,
}

impl Board {
    /// The board's invariant: positive dimensions, `height` rows, and every
    /// row of length `width`.
    pub open spec fn wf(self) -> bool {
        &&& 0 < self.width
        &&& 0 < self.height
        &&& self.cells@.len() == self.height
        &&& forall|j: int|
            0 <= j < self.cells@.len() ==> (#[trigger] self.cells@[j])@.len() == self.width
    }

    /// The state of the cell in column `x` of row `y`.
    pub open spec fn cell(self, x: int, y: int) -> bool {
        self.cells@[y]@[x]
    }

    /// What one neighbour offset `(dx, dy)` contributes to the neighbour
    /// count of `(x, y)`: the offset coordinates wrap modulo the dimensions,
    /// the offset is skipped when it lands on `(x, y)` itself, and it counts
    /// one exactly when the cell it lands on is alive. On a grid of width or
    /// height below three, distinct offsets can land on the same physical
    /// cell; each offset still counts on its own.
    pub open spec fn neighbor_contrib(self, x: int, y: int, dx: int, dy: int) -> int {
        let nx = (x + dx) % (self.width as int);
        let ny = (y + dy) % (self.height as int);
        if nx == x && ny == y {
            0
        } else if self.cell(nx, ny) {
            1
        } else {
            0
        }
    }

    /// The live-neighbour count of `(x, y)`: the sum over the eight offsets
    /// around the cell.
    pub open spec fn live_neighbors(self, x: int, y: int) -> int {
        self.neighbor_contrib(x, y, -1, -1) + self.neighbor_contrib(x, y, 0, -1)
            + self.neighbor_contrib(x, y, 1, -1) + self.neighbor_contrib(x, y, -1, 0)
            + self.neighbor_contrib(x, y, 1, 0) + self.neighbor_contrib(x, y, -1, 1)
            + self.neighbor_contrib(x, y, 0, 1) + self.neighbor_contrib(x, y, 1, 1)
    }

    /// The classic rule, decided against this board's generation: a live
    /// cell survives on two or three live neighbours, a dead cell comes
    /// alive on exactly three, and every other cell is dead next generation.
    pub open spec fn next_state(self, x: int, y: int) -> bool {
        if self.cell(x, y) {
            self.live_neighbors(x, y) == 2 || self.live_neighbors(x, y) == 3
        } else {
            self.live_neighbors(x, y) == 3
        }
    }

    /// Constructs an all-dead board of the given dimensions.
    pub fn empty(width: usize, height: usize) -> (board: Board)
        requires
            0 < width,
            0 < height,
        ensures
            board.wf(),
            board.width == width,
            board.height == height,
            forall|x: int, y: int| 0 <= x < width && 0 <= y < height ==> !board.cell(x, y),
    {
        let mut cells: Vec<Vec<bool>> = Vec::new();
        let mut j: usize = 0;
        while j < height
            invariant
                j <= height,
                cells@.len() == j,
                forall|b: int| 0 <= b < j ==> (#[trigger] cells@[b])@.len() == width,
                forall|a: int, b: int|
                    0 <= a < width && 0 <= b < j ==> !(#[trigger] cells@[b]@[a]),
            decreases height - j,
        {
            let mut row: Vec<bool> = Vec::new();
            let mut i: usize = 0;
            while i < width
                invariant
                    i <= width,
                    row@.len() == i,
                    forall|a: int| 0 <= a < i ==> !(#[trigger] row@[a]),
                decreases width - i,
            {
                row.push(false);
                i += 1;
            }
            cells.push(row);
            j += 1;
        }
        Board::new(cells, width, height)
    }

    /// Wraps the given grid in a board. The grid must already be rectangular
    /// with the stated dimensions.
    pub fn new(cells: Vec<Vec<bool>>, width: usize, height: usize) -> (board: Board)
        requires
            0 < width,
            0 < height,
            cells@.len() == height,
            forall|j: int| 0 <= j < cells@.len() ==> (#[trigger] cells@[j])@.len() == width,
        ensures
            board.wf(),
            board.width == width,
            board.height == height,
            board.cells == cells,
    {
        Board { cells, width, height }
    }

    /// The number of columns.
    pub fn width(&self) -> (w: usize)
        ensures
            w == self.width,
    {
        self.width
    }

    /// The number of rows.
    pub fn height(&self) -> (h: usize)
        ensures
            h == self.height,
    {
        self.height
    }

    /// Reads the cell in column `i` of row `j`. Reads are strict: the
    /// coordinates must already be in range, nothing is wrapped.
    pub fn is_alive(&self, i: usize, j: usize) -> (alive: bool)
        requires
            self.wf(),
            i < self.width,
            j < self.height,
        ensures
            alive == self.cell(i as int, j as int),
    {
        self.cells[j][i]
    }

    /// The rows of the grid, top to bottom, each row left to right, for
    /// consumers that materialize a full-grid snapshot.
    pub fn rows(&self) -> (rows: &Vec<Vec<bool>>)
        ensures
            rows@ == self.cells@,
    {
        &self.cells
    }

    /// Marks the cell at `(x, y)` alive. Writes wrap: both coordinates are
    /// reduced modulo the dimensions first, so any coordinate is accepted.
    pub fn set_alive(&mut self, x: usize, y: usize)
        requires
            old(self).wf(),
        ensures
            final(self).wf(),
            final(self).width == old(self).width,
            final(self).height == old(self).height,
            forall|a: int, b: int|
                0 <= a < final(self).width && 0 <= b < final(self).height ==> final(self).cell(
                    a,
                    b,
                ) == (old(self).cell(a, b) || (a == (x as int) % (final(self).width as int) && b == (
                y as int) % (final(self).height as int))),
    {
        let i = x % self.width;
        let j = y % self.height;
        self.cells[j][i] = true;
    }

    /// Inserts the fixed five-cell glider pattern anchored at `(x, y)`, every
    /// coordinate wrapped modulo the dimensions before being written. The
    /// bounds on `x` and `y` only keep the offset arithmetic within `usize`.
    pub fn add_glider(&mut self, x: usize, y: usize)
        requires
            old(self).wf(),
            x + 2 <= usize::MAX,
            y + 2 <= usize::MAX,
        ensures
            final(self).wf(),
            final(self).width == old(self).width,
            final(self).height == old(self).height,
            forall|a: int, b: int|
                0 <= a < final(self).width && 0 <= b < final(self).height ==> final(self).cell(
                    a,
                    b,
                ) == (old(self).cell(a, b) || glider_covers(
                    final(self).width as int,
                    final(self).height as int,
                    x as int,
                    y as int,
                    a,
                    b,
                )),
    {
        self.set_alive(1 + x, y);
        self.set_alive(2 + x, 1 + y);
        self.set_alive(x, 2 + y);
        self.set_alive(1 + x, 2 + y);
        self.set_alive(2 + x, 2 + y);
    }

    /// Scatters `count` gliders at uniformly random anchors. The anchors are
    /// opaque to the caller, so the contract quantifies over them: some
    /// in-range anchor sequence of length `count` accounts exactly for the
    /// live cells afterwards, and no live cell is ever cleared.
    pub fn add_gliders(&mut self, count: i32)
        requires
            old(self).wf(),
            old(self).width < usize::MAX,
            old(self).height < usize::MAX,
        ensures
            final(self).wf(),
            final(self).width == old(self).width,
            final(self).height == old(self).height,
            gliders_seeded(*old(self), *final(self), (if count > 0 { count as int } else { 0 })),
            forall|a: int, b: int|
                0 <= a < final(self).width && 0 <= b < final(self).height && old(self).cell(a, b)
                    ==> final(self).cell(a, b),
    {
        let ghost mut anchors: Seq<(int, int)> = Seq::empty();
        let mut k: i32 = 0;
        while k < count
            invariant
                self.wf(),
                self.width == old(self).width,
                self.height == old(self).height,
                self.width < usize::MAX,
                self.height < usize::MAX,
                0 <= k,
                count > 0 ==> k <= count,
                count <= 0 ==> k == 0,
                anchors.len() == k,
                seeded_from(*old(self), *self, anchors),
            decreases count - k,
        {
            let x = random_below(self.width);
            let y = random_below(self.height);
            let ghost prev = *self;
            let ghost prev_anchors = anchors;
            self.add_glider(x, y);
            proof {
                anchors = prev_anchors.push((x as int, y as int));
                let w = self.width as int;
                let h = self.height as int;
                assert forall|t: int|
                    0 <= t < anchors.len() implies 0 <= (#[trigger] anchors[t]).0 < w && 0 <= anchors[t].1
                    < h by {
                    if t < prev_anchors.len() {
                        assert(anchors[t] == prev_anchors[t]);
                    } else {
                        assert(anchors[t] == (x as int, y as int));
                    }
                }
                assert forall|a: int, b: int|
                    0 <= a < w && 0 <= b < h implies #[trigger] self.cell(a, b) == (old(self).cell(
                    a,
                    b,
                ) || any_glider_covers(w, h, anchors, a, b)) by {
                    lemma_any_glider_covers_push(w, h, prev_anchors, (x as int, y as int), a, b);
                }
            }
            k += 1;
        }
        proof {
            assert(gliders_seeded(*old(self), *self, (if count > 0 { count as int } else { 0 })));
        }
    }

    /// An empty board of the given dimensions seeded with ten random
    /// gliders: whatever anchors the draw picked, the live cells are exactly
    /// the cells of ten gliders at some in-range anchors, and nothing else.
    pub fn with_gliders(width: usize, height: usize) -> (board: Board)
        requires
            0 < width < usize::MAX,
            0 < height < usize::MAX,
        ensures
            board.wf(),
            board.width == width,
            board.height == height,
            only_gliders(board, 10),
    {
        let mut board = Board::empty(width, height);
        let ghost base = board;
        board.add_gliders(10);
        proof {
            let w = width as int;
            let h = height as int;
            let anchors = choose|anchors: Seq<(int, int)>|
                anchors.len() == 10 && #[trigger] seeded_from(base, board, anchors);
            assert forall|a: int, b: int|
                0 <= a < w && 0 <= b < h implies #[trigger] board.cell(a, b) == any_glider_covers(
                w,
                h,
                anchors,
                a,
                b,
            ) by {
                assert(!base.cell(a, b));
            }
            assert(covers_board(board, anchors));
            assert(only_gliders(board, 10));
        }
        board
    }

    /// An empty board of the given dimensions with a single glider anchored
    /// at the origin.
    pub fn with_glider(width: usize, height: usize) -> (board: Board)
        requires
            0 < width,
            0 < height,
        ensures
            board.wf(),
            board.width == width,
            board.height == height,
            forall|a: int, b: int|
                0 <= a < width && 0 <= b < height ==> board.cell(a, b) == glider_covers(
                    width as int,
                    height as int,
                    0,
                    0,
                    a,
                    b,
                ),
    {
        let mut board = Board::empty(width, height);
        board.add_glider(0, 0);
        board
    }

    /// A board of the given dimensions where the cell at `(x, y)` is alive
    /// exactly when `x + y` is even.
    pub fn checkered(width: usize, height: usize) -> (board: Board)
        requires
            0 < width,
            0 < height,
        ensures
            board.wf(),
            board.width == width,
            board.height == height,
            forall|x: int, y: int|
                0 <= x < width && 0 <= y < height ==> board.cell(x, y) == ((x + y) % 2 == 0),
    {
        let mut cells: Vec<Vec<bool>> = Vec::new();
        let mut j: usize = 0;
        while j < height
            invariant
                j <= height,
                cells@.len() == j,
                forall|b: int| 0 <= b < j ==> (#[trigger] cells@[b])@.len() == width,
                forall|a: int, b: int|
                    0 <= a < width && 0 <= b < j ==> (#[trigger] cells@[b]@[a]) == ((a + b) % 2
                        == 0),
            decreases height - j,
        {
            let mut row: Vec<bool> = Vec::new();
            let mut i: usize = 0;
            while i < width
                invariant
                    i <= width,
                    row@.len() == i,
                    forall|a: int| 0 <= a < i ==> (#[trigger] row@[a]) == ((a + j) % 2 == 0),
                decreases width - i,
            {
                proof {
                    lemma_add_mod_noop(i as int, j as int, 2);
                }
                row.push(i % 2 == j % 2);
                i += 1;
            }
            cells.push(row);
            j += 1;
        }
        Board::new(cells, width, height)
    }

    /// Moves the coordinate `v` one step by `d` on a cyclic axis of length
    /// `m`: the result is `(v + d) mod m` with the remainder taken
    /// non-negative, so stepping off either end wraps to the opposite one.
    fn wrap_offset(v: usize, d: i32, m: usize) -> (r: usize)
        requires
            0 < m,
            v < m,
            -1 <= d <= 1,
        ensures
            r < m,
            r == (v + d) % (m as int),
    {
        proof {
            lemma_mod_add_multiples_vanish(v as int + d, m as int);
            lemma_mod_self_0(m as int);
            if 0 <= v + d < m {
                lemma_small_mod((v + d) as nat, m as nat);
            }
            if v + d == -1 {
                lemma_small_mod((m - 1) as nat, m as nat);
            }
        }
        if d < 0 {
            if v == 0 {
                m - 1
            } else {
                v - 1
            }
        } else if d > 0 {
            if v + 1 == m {
                0
            } else {
                v + 1
            }
        } else {
            v
        }
    }

    /// What the offset `(dx, dy)` contributes to the neighbour count of
    /// `(x, y)`: one for a live cell at the wrapped offset coordinates, zero
    /// for a dead one or for an offset that lands back on `(x, y)`.
    fn neighbor_contrib_at(&self, x: usize, y: usize, dx: i32, dy: i32) -> (r: i32)
        requires
            self.wf(),
            x < self.width,
            y < self.height,
            -1 <= dx <= 1,
            -1 <= dy <= 1,
        ensures
            r == self.neighbor_contrib(x as int, y as int, dx as int, dy as int),
            0 <= r <= 1,
    {
        let nx = Self::wrap_offset(x, dx, self.width);
        let ny = Self::wrap_offset(y, dy, self.height);
        if nx == x && ny == y {
            0
        } else if self.cells[ny][nx] {
            1
        } else {
            0
        }
    }

    /// Counts the live cells among the eight neighbour offsets of `(x, y)`,
    /// wrapping around the edges and never counting the cell itself.
    pub fn count_live_neighbours(&self, x: usize, y: usize) -> (count: i32)
        requires
            self.wf(),
            x < self.width,
            y < self.height,
        ensures
            count == self.live_neighbors(x as int, y as int),
            0 <= count <= 8,
    {
        let mut count: i32 = 0;
        count += self.neighbor_contrib_at(x, y, -1, -1);
        count += self.neighbor_contrib_at(x, y, 0, -1);
        count += self.neighbor_contrib_at(x, y, 1, -1);
        count += self.neighbor_contrib_at(x, y, -1, 0);
        count += self.neighbor_contrib_at(x, y, 1, 0);
        count += self.neighbor_contrib_at(x, y, -1, 1);
        count += self.neighbor_contrib_at(x, y, 0, 1);
        count += self.neighbor_contrib_at(x, y, 1, 1);
        count
    }

    /// Decides the next generation's state of the cell at `(x, y)` from this
    /// board's generation.
    fn next_cell_state(&self, x: usize, y: usize) -> (alive: bool)
        requires
            self.wf(),
            x < self.width,
            y < self.height,
        ensures
            alive == self.next_state(x as int, y as int),
    {
        let alive = self.cells[y][x];
        let count = self.count_live_neighbours(x, y);

        if alive && (count == 2 || count == 3) {
            return true;
        }
        if !alive && count == 3 {
            return true;
        }
        false
    }

    /// Computes the next generation as a fresh board of the same dimensions.
    /// Every cell is decided by the rule against this board's grid alone, so
    /// no cell ever observes a partially updated generation.
    pub fn update(&self) -> (next: Board)
        requires
            self.wf(),
        ensures
            next.wf(),
            next.width == self.width,
            next.height == self.height,
            forall|x: int, y: int|
                0 <= x < self.width && 0 <= y < self.height ==> next.cell(x, y)
                    == self.next_state(x, y),
    {
        let mut cells: Vec<Vec<bool>> = Vec::new();
        let mut j: usize = 0;
        while j < self.height
            invariant
                self.wf(),
                j <= self.height,
                cells@.len() == j,
                forall|b: int| 0 <= b < j ==> (#[trigger] cells@[b])@.len() == self.width,
                forall|a: int, b: int|
                    0 <= a < self.width && 0 <= b < j ==> (#[trigger] cells@[b]@[a])
                        == self.next_state(a, b),
            decreases self.height - j,
        {
            let mut row: Vec<bool> = Vec::new();
            let mut i: usize = 0;
            while i < self.width
                invariant
                    self.wf(),
                    j < self.height,
                    i <= self.width,
                    row@.len() == i,
                    forall|a: int|
                        0 <= a < i ==> (#[trigger] row@[a]) == self.next_state(a, j as int),
                decreases self.width - i,
            {
                row.push(self.next_cell_state(i, j));
                i += 1;
            }
            cells.push(row);
            j += 1;
        }
        Board::new(cells, self.width, self.height)
    }

    /// Whether the board has no rows at all.
    pub fn is_empty(&self) -> (empty: bool)
        ensures
            empty == (self.cells@.len() == 0),
    {
        self.cells.is_empty()
    }
}

} // verus!
