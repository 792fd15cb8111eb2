//! The executable grid: a rectangular field of [`Cell`]s with fixed
//! dimensions, toroidal neighbor counting and double-buffered generational
//! advance. Its behavior is stated over the model in [`crate::rules`].

use vstd::prelude::*;
use vstd::string::StringExecFns;

use crate::rules::cell_char;
use crate::rules::cell_weight;
use crate::rules::dead_grid;
use crate::rules::grid_wf;
use crate::rules::lemma_neighbor_count_decomposition;
use crate::rules::lemma_step_cell;
use crate::rules::neighbor_count;
use crate::rules::next_state;
use crate::rules::render;
use crate::rules::render_rows;
use crate::rules::step;

verus! {

/// The state of one grid cell.
#[derive(Copy, Clone, Debug)]
pub enum Cell {
    Dead,
    Live,
}

impl DeepView for Cell {
    type V = bool;

    open spec fn deep_view(&self) -> bool {
        self is Live
    }
}

impl Cell {
    /// The cell's contribution to a neighbor count: 1 for a live cell,
    /// 0 for a dead one.
    pub fn n(self) -> (r: u8)
        ensures
            r == if self is Live { 1int } else { 0int },
    {
        match self {
            Cell::Dead => 0,
            Cell::Live => 1,
        }
    }
}

/// The one recoverable error: a requested grid dimension below 3.
#[derive(Copy, Clone, Debug, PartialEq, Eq, Structural)]
pub enum ValidationError {
    InvalidDimensions,
}

impl ValidationError {
    /// A human-readable description of the error.
    pub fn message(&self) -> (s: &'static str)
        ensures
            s@ == "the world cannot be smaller than 3x3"@,
    {
        "the world cannot be smaller than 3x3"
    }
}

/// A rectangular toroidal grid of cells. Rows are indexed by `y` in
/// `[0, height)`, columns by `x` in `[0, width)`; the dimensions never
/// change after construction.
#[derive(Clone)]
pub struct World {
    pub cells: Vec<Vec<Cell>>,
    pub width: usize,
    pub height: usize,
}

impl View for World {
    type V = Seq<Seq<bool>>;

    open spec fn view(&self) -> Seq<Seq<bool>> {
        self.cells.deep_view()
    }
}

impl World {
    /// The grid is well-formed: its dimension fields match the cell storage
    /// and both are at least 3.
    pub open spec fn wf(self) -> bool {
        &&& grid_wf(self@)
        &&& self@.len() == self.height
        &&& self@[0].len() == self.width
    }

    /// Builds an all-dead grid of the requested dimensions, or rejects
    /// dimensions below 3 in either axis.
    pub fn new(width: usize, height: usize) -> (r: Result<World, ValidationError>)
        ensures
            r is Ok <==> (width >= 3 && height >= 3),
            r matches Ok(w) ==> {
                &&& w.wf()
                &&& w.width == width
                &&& w.height == height
                &&& w@ == dead_grid(width as nat, height as nat)
            },
            r matches Err(e) ==> e is InvalidDimensions,
    {
        if width < 3 || height < 3 {
            return Err(ValidationError::InvalidDimensions);
        }
        let mut cells: Vec<Vec<Cell>> = Vec::new();
        while cells.len() < height
            invariant
                cells@.len() <= height,
                forall|y: int| 0 <= y < cells@.len() ==> (#[trigger] cells@[y])@.len() == width,
                forall|y: int, x: int|
                    0 <= y < cells@.len() && 0 <= x < width ==> !((#[trigger] cells@[y]@[x]) is Live),
            decreases height - cells@.len(),
        {
            let mut row: Vec<Cell> = Vec::new();
            while row.len() < width
                invariant
                    row@.len() <= width,
                    forall|x: int| 0 <= x < row@.len() ==> !((#[trigger] row@[x]) is Live),
                decreases width - row@.len(),
            {
                row.push(Cell::Dead);
            }
            cells.push(row);
        }
        let world = World { cells, width, height };
        assert(world@ =~~= dead_grid(width as nat, height as nat));
        Ok(world)
    }

    /// Writes one cell. Only the cell at column `x`, row `y` changes.
    pub fn set(&mut self, x: usize, y: usize, value: Cell)
        requires
            old(self).wf(),
            x < old(self).width,
            y < old(self).height,
        ensures
            final(self).wf(),
            final(self).width == old(self).width,
            final(self).height == old(self).height,
            final(self)@ == old(self)@.update(
                y as int,
                old(self)@[y as int].update(x as int, value is Live),
            ),
    {
        proof {
            assert(self.cells@.len() == self@.len());
            assert(self.cells@[y as int]@.len() == self@[y as int].len());
        }
        self.cells[y][x] = value;
        assert(self@ =~~= old(self)@.update(
            y as int,
            old(self)@[y as int].update(x as int, value is Live),
        ));
    }

    /// Reads one cell.
    pub fn get(&self, x: usize, y: usize) -> (c: Cell)
        requires
            self.wf(),
            x < self.width,
            y < self.height,
        ensures
            (c is Live) == self@[y as int][x as int],
    {
        proof {
            assert(self.cells@.len() == self@.len());
            assert(self.cells@[y as int]@.len() == self@[y as int].len());
            assert(((self.cells@[y as int]@[x as int]) is Live) == self@[y as int][x as int]);
        }
        self.cells[y][x]
    }

    /// The weight the cell at column `x`, row `y` adds to a neighbor
    /// count: 1 if live, 0 if dead.
    fn weight(&self, x: usize, y: usize) -> (w: u8)
        requires
            self.wf(),
            x < self.width,
            y < self.height,
        ensures
            w == cell_weight(self@, x as int, y as int),
    {
        proof {
            assert(self.cells@.len() == self@.len());
            assert(self.cells@[y as int]@.len() == self@[y as int].len());
            assert(((self.cells@[y as int]@[x as int]) is Live) == self@[y as int][x as int]);
        }
        self.cells[y][x].n()
    }

    /// Sums the live cells among the eight toroidal neighbors of the cell
    /// at column `x`, row `y`.
    #[verifier::rlimit(50)]
    pub fn count_neighbors(&self, x: usize, y: usize) -> (count: u8)
        requires
            self.wf(),
            x < self.width,
            y < self.height,
        ensures
            count == neighbor_count(self@, x as int, y as int),
            count <= 8,
    {
        let top = if y == 0 { self.height - 1 } else { y - 1 };
        let bottom = if y == self.height - 1 { 0 } else { y + 1 };
        let left = if x == 0 { self.width - 1 } else { x - 1 };
        let right = if x == self.width - 1 { 0 } else { x + 1 };
        let count = self.weight(left, top) + self.weight(x, top) + self.weight(right, top)
            + self.weight(left, y) + self.weight(right, y) + self.weight(left, bottom)
            + self.weight(x, bottom) + self.weight(right, bottom);
        proof {
            lemma_neighbor_count_decomposition(
                self@,
                x as int,
                y as int,
                left as int,
                right as int,
                top as int,
                bottom as int,
            );
        }
        count
    }

    /// Computes the next generation in two phases. Phase one evaluates the
    /// rule table for every cell against the unmodified current grid,
    /// writing the results into `tmp`; phase two copies `tmp` back over the
    /// current grid. Every cell's neighbor count is therefore computed
    /// purely from the prior generation, and whatever `tmp` held before the
    /// call is fully overwritten and plays no role in the result.
    ///
    /// A live cell with fewer than two live neighbors dies (underpopulation).
    /// A live cell with two or three live neighbors lives on.
    /// A live cell with more than three live neighbors dies (overpopulation).
    /// A dead cell with exactly three live neighbors becomes live (reproduction).
    pub fn advance(&mut self, tmp: &mut World)
        requires
            old(self).wf(),
            old(tmp).wf(),
            old(tmp).width == old(self).width,
            old(tmp).height == old(self).height,
        ensures
            final(self).wf(),
            final(tmp).wf(),
            final(self).width == old(self).width,
            final(self).height == old(self).height,
            final(tmp).width == old(tmp).width,
            final(tmp).height == old(tmp).height,
            final(self)@ == step(old(self)@),
            final(tmp)@ == step(old(self)@),
    {
        let ghost g0 = self@;
        let mut y: usize = 0;
        while y < self.height
            invariant
                self.wf(),
                self@ == g0,
                self.width == g0[0].len(),
                self.height == g0.len(),
                tmp.wf(),
                tmp.width == self.width,
                tmp.height == self.height,
                y <= self.height,
                forall|yy: int, xx: int|
                    0 <= yy < y && 0 <= xx < g0[0].len() ==> (#[trigger] tmp@[yy][xx]) == step(
                        g0,
                    )[yy][xx],
            decreases self.height - y,
        {
            let mut x: usize = 0;
            while x < self.width
                invariant
                    self.wf(),
                    self@ == g0,
                    self.width == g0[0].len(),
                    self.height == g0.len(),
                    tmp.wf(),
                    tmp.width == self.width,
                    tmp.height == self.height,
                    y < self.height,
                    x <= self.width,
                    forall|yy: int, xx: int|
                        0 <= yy < y && 0 <= xx < g0[0].len() ==> (#[trigger] tmp@[yy][xx]) == step(
                            g0,
                        )[yy][xx],
                    forall|xx: int|
                        0 <= xx < x ==> (#[trigger] tmp@[y as int][xx]) == step(g0)[y as int][xx],
                decreases self.width - x,
            {
                let neighbors = self.count_neighbors(x, y);
                let cell = self.get(x, y);
                let new_cell = match cell {
                    Cell::Live => if neighbors == 2 || neighbors == 3 {
                        Cell::Live
                    } else {
                        Cell::Dead
                    },
                    Cell::Dead => if neighbors == 3 {
                        Cell::Live
                    } else {
                        Cell::Dead
                    },
                };
                proof {
                    lemma_step_cell(g0, x as int, y as int);
                    assert((new_cell is Live) == next_state(
                        g0[y as int][x as int],
                        neighbor_count(g0, x as int, y as int),
                    ));
                }
                tmp.set(x, y, new_cell);
                x = x + 1;
            }
            y = y + 1;
        }
        proof {
            assert(tmp@ =~~= step(g0));
        }
        let mut y: usize = 0;
        while y < self.height
            invariant
                self.wf(),
                self.width == g0[0].len(),
                self.height == g0.len(),
                self@.len() == g0.len(),
                tmp.wf(),
                tmp.width == self.width,
                tmp.height == self.height,
                tmp@ == step(g0),
                y <= self.height,
                forall|yy: int, xx: int|
                    0 <= yy < y && 0 <= xx < g0[0].len() ==> (#[trigger] self@[yy][xx]) == step(
                        g0,
                    )[yy][xx],
            decreases self.height - y,
        {
            let mut x: usize = 0;
            while x < self.width
                invariant
                    self.wf(),
                    self.width == g0[0].len(),
                    self.height == g0.len(),
                    tmp.wf(),
                    tmp.width == self.width,
                    tmp.height == self.height,
                    tmp@ == step(g0),
                    y < self.height,
                    x <= self.width,
                    forall|yy: int, xx: int|
                        0 <= yy < y && 0 <= xx < g0[0].len() ==> (#[trigger] self@[yy][xx]) == step(
                            g0,
                        )[yy][xx],
                    forall|xx: int|
                        0 <= xx < x ==> (#[trigger] self@[y as int][xx]) == step(g0)[y as int][xx],
                decreases self.width - x,
            {
                let v = tmp.get(x, y);
                self.set(x, y, v);
                x = x + 1;
            }
            y = y + 1;
        }
        proof {
            assert(self@ =~~= step(g0));
        }
    }

    /// Renders the grid: one line per row, top row first, one symbol per
    /// cell (`'O'` live, `'.'` dead), a newline after every row. The output
    /// is a function of the current grid contents alone.
    pub fn as_string(&self) -> (s: String)
        requires
            self.wf(),
        ensures
            s@ == render(self@),
    {
        let mut s = String::new();
        let mut y: usize = 0;
        while y < self.height
            invariant
                self.wf(),
                y <= self.height,
                s@ == render_rows(self@, y as int),
            decreases self.height - y,
        {
            proof {
                assert(self@[y as int].take(0).map_values(|alive: bool| cell_char(alive))
                    =~= Seq::<char>::empty());
                assert(s@ =~= render_rows(self@, y as int) + self@[y as int].take(0).map_values(
                    |alive: bool| cell_char(alive),
                ));
            }
            let mut x: usize = 0;
            while x < self.width
                invariant
                    self.wf(),
                    y < self.height,
                    x <= self.width,
                    s@ == render_rows(self@, y as int) + self@[y as int].take(x as int).map_values(
                        |alive: bool| cell_char(alive),
                    ),
                decreases self.width - x,
            {
                let symbol = match self.get(x, y) {
                    Cell::Dead => ".",
                    Cell::Live => "O",
                };
                s.append(symbol);
                proof {
                    reveal_strlit(".");
                    reveal_strlit("O");
                    assert(s@ =~= render_rows(self@, y as int) + self@[y as int].take(
                        x as int + 1,
                    ).map_values(|alive: bool| cell_char(alive)));
                }
                x = x + 1;
            }
            s.append("\n");
            proof {
                reveal_strlit("\n");
                assert(self@[y as int].take(self.width as int) =~= self@[y as int]);
                assert(s@ =~= render_rows(self@, y as int + 1));
            }
            y = y + 1;
        }
        s
    }
}

} // verus!
