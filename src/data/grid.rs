use super::cell::{life_rule, Cell, Status};
use rayon::prelude::ParallelIterator;
use rayon::prelude::IndexedParallelIterator;
use rayon::prelude::IntoParallelRefMutIterator;
use vstd::arithmetic::div_mod::lemma_fundamental_div_mod_converse;
use vstd::prelude::*;

verus! {

/// Grids of at least this many cells compute a generation in parallel.
pub const PAR_THRESHOLD_AREA: usize = 250_000;

/// A position in the row-major flattening of a grid.
#[derive(Debug, PartialEq, Eq, Structural, Clone, Copy)]
pub struct GridIdx(pub usize);

/// One generation of a toroidal grid, stored row-major in a flat vector.
///
/// A second vector of the same length receives the next generation while it
/// is computed, and the two swap roles afterwards. `neighbours` holds, for
/// every cell, the flat positions of its eight toroidal neighbours; it
/// depends on the dimensions alone and is built once.
#[derive(Debug)]
pub struct Grid {
    cells: Vec<Cell>,
    scratchpad_cells: Vec<Cell>,
    width: usize,
    height: usize,
    area: usize,
    neighbours: Vec<[GridIdx; 8]>,
}

/// A (row, column) position in a grid.
#[derive(PartialEq, Eq, Structural, Debug, PartialOrd, Ord, Clone, Copy)]
pub struct Coord {
    pub i: usize,
    pub j: usize,
}

/// Row step towards the `d`-th neighbour, in the order N, NE, E, SE, S, SW, W, NW.
pub open spec fn row_step(d: int) -> int {
    if d == 0 || d == 1 || d == 7 {
        -1
    } else if d == 3 || d == 4 || d == 5 {
        1
    } else {
        0
    }
}

/// Column step towards the `d`-th neighbour, in the order N, NE, E, SE, S, SW, W, NW.
pub open spec fn col_step(d: int) -> int {
    if d == 1 || d == 2 || d == 3 {
        1
    } else if d == 5 || d == 6 || d == 7 {
        -1
    } else {
        0
    }
}

/// Row-major position of (i, j) in a grid `width` cells wide.
pub open spec fn flat_index(width: int, i: int, j: int) -> int {
    i * width + j
}

/// Flat position of the `d`-th neighbour of (i, j) on a torus of the given
/// size: stepping off one edge comes back in at the opposite one.
pub open spec fn neighbour_index(width: int, height: int, i: int, j: int, d: int) -> int {
    flat_index(width, (i + row_step(d)) % height, (j + col_step(d)) % width)
}

/// The eight neighbour positions of (i, j), in the order N, NE, E, SE, S, SW, W, NW.
pub open spec fn neighbour_indices(width: int, height: int, i: int, j: int) -> Seq<int> {
    Seq::new(8, |d: int| neighbour_index(width, height, i, j, d))
}

/// How many of the cells at the given positions are alive.
pub open spec fn count_alive(cells: Seq<Cell>, positions: Seq<int>) -> int
    decreases positions.len(),
{
    if positions.len() == 0 {
        0
    } else {
        count_alive(cells, positions.drop_last()) + if cells[positions.last()].0
            == Status::Alive {
            1int
        } else {
            0int
        }
    }
}

/// How many of the eight toroidal neighbours of (i, j) are alive.
pub open spec fn live_neighbours(width: int, height: int, cells: Seq<Cell>, i: int, j: int) -> int {
    count_alive(cells, neighbour_indices(width, height, i, j))
}

/// The generation that follows `cells` on a `width` by `height` torus: every
/// cell takes the life rule applied to its own state and to its live
/// neighbours in `cells`.
pub open spec fn next_generation(width: int, height: int, cells: Seq<Cell>) -> Seq<Cell> {
    Seq::new(
        (width * height) as nat,
        |k: int| Cell(life_rule(cells[k].0, live_neighbours(width, height, cells, k / width, k % width))),
    )
}

/// The flat positions that a cache entry lists.
pub open spec fn positions_of(entry: Seq<GridIdx>) -> Seq<int> {
    entry.map_values(|g: GridIdx| g.0 as int)
}

/// `neighbours` lists, for each cell of a `width` by `height` grid, the flat
/// positions of its eight toroidal neighbours.
pub open spec fn is_neighbour_cache(width: int, height: int, neighbours: Seq<[GridIdx; 8]>) -> bool {
    &&& neighbours.len() == width * height
    &&& forall|k: int|
        0 <= k < width * height ==> positions_of((#[trigger] neighbours[k])@) == neighbour_indices(
            width,
            height,
            k / width,
            k % width,
        )
}

/// Wrapping one step off either end of `[0, n)` lands at the other end.
proof fn lemma_wrap(x: int, n: int)
    requires
        n > 0,
        -1 <= x <= n,
    ensures
        x % n == if x == -1 {
            n - 1
        } else if x == n {
            0
        } else {
            x
        },
{
    if x == -1 {
        lemma_fundamental_div_mod_converse(x, n, -1, n - 1);
    } else if x == n {
        lemma_fundamental_div_mod_converse(x, n, 1, 0);
    } else {
        lemma_fundamental_div_mod_converse(x, n, 0, x);
    }
}

/// A row-major position splits back into its row and column, and lies inside
/// the grid.
pub proof fn lemma_flat_index_round_trip(width: int, height: int, i: int, j: int)
    requires
        0 <= i < height,
        0 <= j < width,
    ensures
        flat_index(width, i, j) / width == i,
        flat_index(width, i, j) % width == j,
        0 <= flat_index(width, i, j) < width * height,
{
    lemma_fundamental_div_mod_converse(i * width + j, width, i, j);
    assert(i * width + j < width * height) by (nonlinear_arith)
        requires
            0 <= i < height,
            0 <= j < width,
    ;
}

/// Every neighbour of a cell inside the grid is inside the grid too.
proof fn lemma_neighbour_in_grid(width: int, height: int, i: int, j: int, d: int)
    requires
        0 <= i < height,
        0 <= j < width,
    ensures
        0 <= neighbour_index(width, height, i, j, d) < width * height,
{
    let ni = (i + row_step(d)) % height;
    let nj = (j + col_step(d)) % width;
    lemma_wrap(i + row_step(d), height);
    lemma_wrap(j + col_step(d), width);
    lemma_flat_index_round_trip(width, height, ni, nj);
}

/// The flat positions of the eight toroidal neighbours of `coord` on a grid
/// whose last row is `max_i` and last column is `max_j`, in the order N, NE,
/// E, SE, S, SW, W, NW.
pub fn neighbour_coords(max_i: usize, max_j: usize, coord: &Coord) -> (r: [GridIdx; 8])
    requires
        (max_i + 1) * (max_j + 1) <= usize::MAX,
        coord.i <= max_i,
        coord.j <= max_j,
    ensures
        forall|d: int|
            0 <= d < 8 ==> (#[trigger] r@[d]).0 as int == neighbour_index(
                max_j + 1,
                max_i + 1,
                coord.i as int,
                coord.j as int,
                d,
            ),
{
    assert(max_j + 1 <= (max_i + 1) * (max_j + 1)) by (nonlinear_arith);
    let width = max_j + 1;
    let height: Ghost<int> = Ghost(max_i + 1);
    assert(width * height@ <= usize::MAX) by (nonlinear_arith)
        requires
            (max_i + 1) * (max_j + 1) <= usize::MAX,
            width == max_j + 1,
            height@ == max_i + 1,
    ;
    let i = coord.i;
    let j = coord.j;
    let i_up = if i == 0 {
        max_i
    } else {
        i - 1
    };
    let i_down = if i == max_i {
        0
    } else {
        i + 1
    };
    let j_left = if j == 0 {
        max_j
    } else {
        j - 1
    };
    let j_right = if j == max_j {
        0
    } else {
        j + 1
    };
    proof {
        lemma_wrap(i - 1, height@);
        lemma_wrap(i as int, height@);
        lemma_wrap(i + 1, height@);
        lemma_wrap(j - 1, width as int);
        lemma_wrap(j as int, width as int);
        lemma_wrap(j + 1, width as int);
        lemma_flat_index_round_trip(width as int, height@, i_up as int, j as int);
        lemma_flat_index_round_trip(width as int, height@, i_up as int, j_right as int);
        lemma_flat_index_round_trip(width as int, height@, i_up as int, j_left as int);
        lemma_flat_index_round_trip(width as int, height@, i as int, j_right as int);
        lemma_flat_index_round_trip(width as int, height@, i as int, j_left as int);
        lemma_flat_index_round_trip(width as int, height@, i_down as int, j as int);
        lemma_flat_index_round_trip(width as int, height@, i_down as int, j_right as int);
        lemma_flat_index_round_trip(width as int, height@, i_down as int, j_left as int);
    }
    let r = [
        GridIdx(i_up * width + j),
        GridIdx(i_up * width + j_right),
        GridIdx(i * width + j_right),
        GridIdx(i_down * width + j_right),
        GridIdx(i_down * width + j),
        GridIdx(i_down * width + j_left),
        GridIdx(i * width + j_left),
        GridIdx(i_up * width + j_left),
    ];
    proof {
        let w = width as int;
        let h = height@;
        assert(r@[0].0 == neighbour_index(w, h, i as int, j as int, 0));
        assert(r@[1].0 == neighbour_index(w, h, i as int, j as int, 1));
        assert(r@[2].0 == neighbour_index(w, h, i as int, j as int, 2));
        assert(r@[3].0 == neighbour_index(w, h, i as int, j as int, 3));
        assert(r@[4].0 == neighbour_index(w, h, i as int, j as int, 4));
        assert(r@[5].0 == neighbour_index(w, h, i as int, j as int, 5));
        assert(r@[6].0 == neighbour_index(w, h, i as int, j as int, 6));
        assert(r@[7].0 == neighbour_index(w, h, i as int, j as int, 7));
    }
    r
}

/// A coordinate inside the grid has a flat position, and that position
/// maps back to the same coordinate; a coordinate past the last row or the
/// last column has none.
pub proof fn lemma_grid_idx_round_trip(width: int, height: int, coord: Coord)
    requires
        width * height <= usize::MAX,
    ensures
        coord.i < height && coord.j < width ==> (grid_idx_of(width, height, coord) matches Some(idx)
            && coord_of(width, height, idx) == Some(coord)),
        coord.i >= height || coord.j >= width ==> grid_idx_of(width, height, coord) is None,
{
    if coord.i < height && coord.j < width {
        lemma_flat_index_round_trip(width, height, coord.i as int, coord.j as int);
    }
}

/// Every position in a neighbour cache lies inside the grid.
proof fn lemma_cache_in_grid(width: int, height: int, neighbours: Seq<[GridIdx; 8]>, k: int)
    requires
        0 <= width,
        0 <= height,
        is_neighbour_cache(width, height, neighbours),
        0 <= k < width * height,
    ensures
        forall|d: int| 0 <= d < 8 ==> (#[trigger] neighbours[k]@[d]).0 < width * height,
{
    assert(width > 0 && height > 0) by (nonlinear_arith)
        requires
            0 <= k < width * height,
            0 <= width,
            0 <= height,
    ;
    let i = k / width;
    let j = k % width;
    assert(0 <= i < height && 0 <= j < width) by (nonlinear_arith)
        requires
            0 <= k < width * height,
            width > 0,
            height > 0,
            i == k / width,
            j == k % width,
    ;
    assert forall|d: int| 0 <= d < 8 implies (#[trigger] neighbours[k]@[d]).0 < width * height by {
        lemma_neighbour_in_grid(width, height, i, j, d);
        assert(positions_of(neighbours[k]@)[d] == neighbour_indices(width, height, i, j)[d]);
    }
}

/// Builds the neighbour cache of a `width` by `height` grid.
fn neighbours(width: usize, height: usize) -> (v: Vec<[GridIdx; 8]>)
    requires
        width * height <= usize::MAX,
    ensures
        is_neighbour_cache(width as int, height as int, v@),
{
    let mut v: Vec<[GridIdx; 8]> = Vec::with_capacity(width * height);
    let mut i: usize = 0;
    while i < height
        invariant
            width * height <= usize::MAX,
            i <= height,
            v@.len() == i * width,
            forall|k: int|
                0 <= k < v@.len() ==> positions_of((#[trigger] v@[k])@) == neighbour_indices(
                    width as int,
                    height as int,
                    k / width as int,
                    k % width as int,
                ),
        decreases height - i,
    {
        let mut j: usize = 0;
        while j < width
            invariant
                width * height <= usize::MAX,
                i < height,
                j <= width,
                v@.len() == i * width + j,
                forall|k: int|
                    0 <= k < v@.len() ==> positions_of((#[trigger] v@[k])@) == neighbour_indices(
                        width as int,
                        height as int,
                        k / width as int,
                        k % width as int,
                    ),
            decreases width - j,
        {
            assert(height * width <= usize::MAX) by (nonlinear_arith)
                requires
                    width * height <= usize::MAX,
            ;
            let entry = neighbour_coords(height - 1, width - 1, &Coord { i, j });
            proof {
                lemma_flat_index_round_trip(width as int, height as int, i as int, j as int);
                assert(positions_of(entry@) =~= neighbour_indices(
                    width as int,
                    height as int,
                    i as int,
                    j as int,
                ));
            }
            v.push(entry);
            j += 1;
        }
        assert(i * width + width == (i + 1) * width) by (nonlinear_arith);
        i += 1;
    }
    assert(height * width == width * height) by (nonlinear_arith);
    v
}

/// The status that cell `k` takes in the next generation, counting its live
/// neighbours at the positions that `neighbours[k]` lists.
fn next_status_at(cells: &Vec<Cell>, neighbours: &Vec<[GridIdx; 8]>, k: usize) -> (r: Status)
    requires
        k < cells@.len(),
        k < neighbours@.len(),
        forall|d: int| 0 <= d < 8 ==> (#[trigger] neighbours@[k as int]@[d]).0 < cells@.len(),
    ensures
        r == life_rule(cells@[k as int].0, count_alive(cells@, positions_of(neighbours@[k as int]@))),
{
    let entry = &neighbours[k];
    let ghost positions = positions_of(entry@);
    let mut alives: usize = 0;
    let mut d: usize = 0;
    while d < 8
        invariant
            d <= 8,
            alives <= d,
            positions == positions_of(entry@),
            forall|e: int| 0 <= e < 8 ==> (#[trigger] entry@[e]).0 < cells@.len(),
            alives == count_alive(cells@, positions.take(d as int)),
        decreases 8 - d,
    {
        let GridIdx(idx) = entry[d];
        assert(positions.take(d + 1).drop_last() =~= positions.take(d as int));
        if cells[idx].0 == Status::Alive {
            alives += 1;
        }
        d += 1;
    }
    assert(positions.take(8) =~= positions);
    cells[k].next_status(alives)
}

/// Writes into `target` the status that cell `k` takes in the next generation.
fn step_cell(cells: &Vec<Cell>, neighbours: &Vec<[GridIdx; 8]>, k: usize, target: &mut Cell)
    requires
        k < cells@.len(),
        k < neighbours@.len(),
        forall|d: int| 0 <= d < 8 ==> (#[trigger] neighbours@[k as int]@[d]).0 < cells@.len(),
    ensures
        *final(target) == Cell(
            life_rule(cells@[k as int].0, count_alive(cells@, positions_of(neighbours@[k as int]@))),
        ),
{
    target.update(next_status_at(cells, neighbours, k));
}

/// Relies on rayon's `par_iter_mut().enumerate().for_each`: the operation runs
/// once on every element of `next`, handed that element's index, and the call
/// returns after all of them have run.
#[verifier::external_body]
fn fill_next_parallel(cells: &Vec<Cell>, neighbours: &Vec<[GridIdx; 8]>, next: &mut Vec<Cell>)
    requires
        old(next)@.len() == cells@.len(),
        neighbours@.len() == cells@.len(),
        forall|k: int, d: int|
            0 <= k < cells@.len() && 0 <= d < 8 ==> (#[trigger] neighbours@[k]@[d]).0
                < cells@.len(),
    ensures
        final(next)@.len() == old(next)@.len(),
        forall|k: int|
            0 <= k < cells@.len() ==> #[trigger] final(next)@[k] == Cell(
                life_rule(cells@[k].0, count_alive(cells@, positions_of(neighbours@[k]@))),
            ),
{
    next.par_iter_mut().enumerate().for_each(|(k, target)| step_cell(cells, neighbours, k, target));
}

/// Relies on rand::random (thread_rng().gen()) for a bool: any value may come back.
#[verifier::external_body]
fn random_bool() -> bool {
    rand::random::<bool>()
}

/// The coordinate that `to_grid_idx` maps to a flat position, if it lies
/// inside a `width` by `height` grid.
pub open spec fn grid_idx_of(width: int, height: int, coord: Coord) -> Option<GridIdx> {
    if coord.i < height && coord.j < width {
        Some(GridIdx((coord.i * width + coord.j) as usize))
    } else {
        None
    }
}

/// The coordinate of a flat position, if it lies inside a `width` by
/// `height` grid.
pub open spec fn coord_of(width: int, height: int, idx: GridIdx) -> Option<Coord> {
    if idx.0 < width * height {
        Some(Coord { i: (idx.0 as int / width) as usize, j: (idx.0 as int % width) as usize })
    } else {
        None
    }
}

impl Grid {
    /// Number of columns.
    pub closed spec fn spec_width(&self) -> nat {
        self.width as nat
    }

    /// Number of rows.
    pub closed spec fn spec_height(&self) -> nat {
        self.height as nat
    }

    /// The current generation, row-major.
    pub closed spec fn generation(&self) -> Seq<Cell> {
        self.cells@
    }

    /// Both buffers hold one cell per position, the stored area is the
    /// product of the dimensions, and the neighbour cache matches them.
    pub closed spec fn wf(&self) -> bool {
        &&& self.area == self.width * self.height
        &&& self.cells@.len() == self.area
        &&& self.scratchpad_cells@.len() == self.area
        &&& is_neighbour_cache(self.width as int, self.height as int, self.neighbours@)
    }

    /// A `width` by `height` grid whose generation is `cells`, row-major;
    /// `None` when `cells` does not hold exactly `width * height` cells.
    pub fn from_cells(width: usize, height: usize, cells: Vec<Cell>) -> (r: Option<Self>)
        ensures
            r is Some <==> cells@.len() == width * height,
            r matches Some(g) ==> {
                &&& g.wf()
                &&& g.spec_width() == width
                &&& g.spec_height() == height
                &&& g.generation() == cells@
            },
    {
        let len = cells.len();
        let area = match width.checked_mul(height) {
            Some(area) => area,
            None => {
                return None;
            },
        };
        if area != len {
            return None;
        }
        let neighbours = neighbours(width, height);
        let scratchpad_cells = cells.clone();
        Some(Grid { cells, scratchpad_cells, width, height, area, neighbours })
    }

    /// A `width` by `height` grid whose cells are each alive or dead at random.
    pub fn new(width: usize, height: usize) -> (g: Self)
        requires
            width * height <= usize::MAX,
        ensures
            g.wf(),
            g.spec_width() == width,
            g.spec_height() == height,
            g.generation().len() == width * height,
    {
        let area = width * height;
        let mut cells: Vec<Cell> = Vec::with_capacity(area);
        let mut k: usize = 0;
        while k < area
            invariant
                k <= area,
                cells@.len() == k,
            decreases area - k,
        {
            let status = if random_bool() {
                Status::Alive
            } else {
                Status::Dead
            };
            cells.push(Cell(status));
            k += 1;
        }
        Self::from_cells(width, height, cells).unwrap()
    }

    /// The cell at a flat position, if the position lies inside the grid.
    pub fn get_idx(&self, idx: &GridIdx) -> (r: Option<&Cell>)
        requires
            self.wf(),
        ensures
            r is Some <==> idx.0 < self.spec_width() * self.spec_height(),
            r matches Some(c) ==> *c == self.generation()[idx.0 as int],
    {
        let GridIdx(k) = *idx;
        if k < self.cells.len() {
            Some(&self.cells[k])
        } else {
            None
        }
    }

    /// The flat position of a coordinate, if it lies inside the grid.
    pub fn to_grid_idx(&self, coord: &Coord) -> (r: Option<GridIdx>)
        requires
            self.wf(),
        ensures
            r == grid_idx_of(self.spec_width() as int, self.spec_height() as int, *coord),
    {
        let Coord { i, j } = *coord;
        if i < self.height && j < self.width {
            proof {
                lemma_flat_index_round_trip(self.width as int, self.height as int, i as int, j as int);
            }
            Some(GridIdx(i * self.width + j))
        } else {
            None
        }
    }

    /// The coordinate of a flat position, if it lies inside the grid: the
    /// inverse of `to_grid_idx`.
    pub fn to_coord(&self, idx: &GridIdx) -> (r: Option<Coord>)
        requires
            self.wf(),
        ensures
            r == coord_of(self.spec_width() as int, self.spec_height() as int, *idx),
    {
        let GridIdx(k) = *idx;
        if k < self.area {
            Some(Coord { i: k / self.width, j: k % self.width })
        } else {
            None
        }
    }

    /// The cells as rows of references, top row first.
    pub fn cells(&self) -> (rows: Vec<Vec<&Cell>>)
        requires
            self.wf(),
        ensures
            rows@.len() == self.spec_height(),
            forall|i: int| 0 <= i < self.spec_height() ==> (#[trigger] rows@[i])@.len() == self.spec_width(),
            forall|i: int, j: int|
                0 <= i < self.spec_height() && 0 <= j < self.spec_width() ==> *(
                #[trigger] rows@[i]@[j]) == self.generation()[i * self.spec_width() + j],
    {
        let mut rows: Vec<Vec<&Cell>> = Vec::with_capacity(self.height);
        let mut k: usize = 0;
        let mut i: usize = 0;
        while i < self.height
            invariant
                self.wf(),
                i <= self.height,
                k == i * self.width,
                rows@.len() == i,
                forall|a: int| 0 <= a < i ==> (#[trigger] rows@[a])@.len() == self.width,
                forall|a: int, b: int|
                    0 <= a < i && 0 <= b < self.width ==> *(#[trigger] rows@[a]@[b])
                        == self.cells@[a * self.width + b],
            decreases self.height - i,
        {
            let mut columns: Vec<&Cell> = Vec::with_capacity(self.width);
            let mut j: usize = 0;
            while j < self.width
                invariant
                    self.wf(),
                    i < self.height,
                    j <= self.width,
                    k == i * self.width + j,
                    columns@.len() == j,
                    forall|b: int| 0 <= b < j ==> *(#[trigger] columns@[b]) == self.cells@[i * self.width + b],
                decreases self.width - j,
            {
                proof {
                    lemma_flat_index_round_trip(self.width as int, self.height as int, i as int, j as int);
                }
                columns.push(&self.cells[k]);
                k += 1;
                j += 1;
            }
            rows.push(columns);
            assert(i * self.width + self.width == (i + 1) * self.width) by (nonlinear_arith);
            i += 1;
        }
        rows
    }

    /// Number of rows.
    pub fn height(&self) -> (r: usize)
        ensures
            r == self.spec_height(),
    {
        self.height
    }

    /// Number of columns.
    pub fn width(&self) -> (r: usize)
        ensures
            r == self.spec_width(),
    {
        self.width
    }

    /// Number of cells.
    pub fn area(&self) -> (r: usize)
        requires
            self.wf(),
        ensures
            r == self.spec_width() * self.spec_height(),
    {
        self.area
    }

    /// Computes the next generation one cell after another, into the scratch
    /// buffer, then swaps the buffers.
    pub fn advance_sequential(&mut self)
        requires
            old(self).wf(),
        ensures
            final(self).wf(),
            final(self).spec_width() == old(self).spec_width(),
            final(self).spec_height() == old(self).spec_height(),
            final(self).generation() == next_generation(
                old(self).spec_width() as int,
                old(self).spec_height() as int,
                old(self).generation(),
            ),
    {
        let ghost w = self.width as int;
        let ghost h = self.height as int;
        let ghost next = next_generation(w, h, self.cells@);
        let mut k: usize = 0;
        while k < self.area
            invariant
                self.cells == old(self).cells,
                self.neighbours == old(self).neighbours,
                self.width == old(self).width,
                self.height == old(self).height,
                self.area == old(self).area,
                old(self).wf(),
                w == self.width,
                h == self.height,
                next == next_generation(w, h, self.cells@),
                k <= self.area,
                self.scratchpad_cells@.len() == self.area,
                forall|m: int| 0 <= m < k ==> #[trigger] self.scratchpad_cells@[m] == next[m],
            decreases self.area - k,
        {
            proof {
                lemma_cache_in_grid(w, h, self.neighbours@, k as int);
            }
            let status = next_status_at(&self.cells, &self.neighbours, k);
            self.scratchpad_cells.set(k, Cell(status));
            k += 1;
        }
        assert(self.scratchpad_cells@ =~= next);
        std::mem::swap(&mut self.cells, &mut self.scratchpad_cells);
    }

    /// Computes the next generation with the cells spread over rayon's
    /// workers, into the scratch buffer, then swaps the buffers.
    pub fn advance_parallel(&mut self)
        requires
            old(self).wf(),
        ensures
            final(self).wf(),
            final(self).spec_width() == old(self).spec_width(),
            final(self).spec_height() == old(self).spec_height(),
            final(self).generation() == next_generation(
                old(self).spec_width() as int,
                old(self).spec_height() as int,
                old(self).generation(),
            ),
    {
        let ghost w = self.width as int;
        let ghost h = self.height as int;
        proof {
            assert forall|k: int, d: int|
                0 <= k < self.cells@.len() && 0 <= d < 8 implies (
                #[trigger] self.neighbours@[k]@[d]).0 < self.cells@.len() by {
                lemma_cache_in_grid(w, h, self.neighbours@, k);
            }
        }
        fill_next_parallel(&self.cells, &self.neighbours, &mut self.scratchpad_cells);
        assert(self.scratchpad_cells@ =~= next_generation(w, h, self.cells@));
        std::mem::swap(&mut self.cells, &mut self.scratchpad_cells);
    }

    /// Replaces the generation with the next one: in parallel on grids of at
    /// least `PAR_THRESHOLD_AREA` cells, one cell after another below that,
    /// with the same result either way.
    pub fn advance(&mut self)
        requires
            old(self).wf(),
        ensures
            final(self).wf(),
            final(self).spec_width() == old(self).spec_width(),
            final(self).spec_height() == old(self).spec_height(),
            final(self).generation() == next_generation(
                old(self).spec_width() as int,
                old(self).spec_height() as int,
                old(self).generation(),
            ),
    {
        if self.area >= PAR_THRESHOLD_AREA {
            self.advance_parallel();
        } else {
            self.advance_sequential();
        }
    }
} // impl Grid

} // verus!
