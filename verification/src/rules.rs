//! The mathematical model of the game: a generation is a `Seq<Seq<bool>>`
//! (one inner sequence per row, `true` for a live cell), and one synchronous
//! update is the spec function [`step`].

use vstd::prelude::*;

verus! {

/// A well-formed generation: at least 3 rows, every row the same length,
/// and at least 3 columns. Three is the smallest extent on which the
/// toroidal neighborhood of a cell never counts the cell itself.
pub open spec fn grid_wf(g: Seq<Seq<bool>>) -> bool {
    &&& g.len() >= 3
    &&& g[0].len() >= 3
    &&& forall|y: int| 0 <= y < g.len() ==> #[trigger] g[y].len() == g[0].len()
}

/// The all-dead grid of the given dimensions.
pub open spec fn dead_grid(width: nat, height: nat) -> Seq<Seq<bool>> {
    Seq::new(height, |y: int| Seq::new(width, |x: int| false))
}

/// Every cell of `g` is dead.
pub open spec fn all_dead(g: Seq<Seq<bool>>) -> bool {
    forall|y: int, x: int|
        0 <= y < g.len() && 0 <= x < g[y].len() ==> !(#[trigger] g[y][x])
}

/// Toroidal predecessor of index `i` on an axis of extent `n`.
pub open spec fn wrap_dec(i: int, n: int) -> int {
    if i == 0 {
        n - 1
    } else {
        i - 1
    }
}

/// Toroidal successor of index `i` on an axis of extent `n`.
pub open spec fn wrap_inc(i: int, n: int) -> int {
    if i == n - 1 {
        0
    } else {
        i + 1
    }
}

/// Contribution of the cell at column `x`, row `y` to a neighbor count.
pub open spec fn cell_weight(g: Seq<Seq<bool>>, x: int, y: int) -> nat {
    if g[y][x] {
        1
    } else {
        0
    }
}

/// The number of live cells among the eight toroidal neighbors of the cell
/// at column `x`, row `y`: the row above row 0 is the last row, the column
/// left of column 0 is the last column, and symmetrically at the far edges.
pub open spec fn neighbor_count(g: Seq<Seq<bool>>, x: int, y: int) -> nat {
    let w = g[0].len() as int;
    let h = g.len() as int;
    let l = wrap_dec(x, w);
    let r = wrap_inc(x, w);
    let t = wrap_dec(y, h);
    let b = wrap_inc(y, h);
    cell_weight(g, l, t) + cell_weight(g, x, t) + cell_weight(g, r, t) + cell_weight(g, l, y) + cell_weight(g, r, y)
        + cell_weight(g, l, b) + cell_weight(g, x, b) + cell_weight(g, r, b)
}

/// The classic rule table. A live cell survives with two or three live
/// neighbors and dies otherwise (underpopulation below two, overpopulation
/// above three); a dead cell becomes live with exactly three live neighbors
/// and stays dead otherwise.
pub open spec fn next_state(alive: bool, neighbors: nat) -> bool {
    if alive {
        neighbors == 2 || neighbors == 3
    } else {
        neighbors == 3
    }
}

/// One synchronous generation: every cell of the result is the rule table
/// applied to the corresponding cell of `g` and its neighbor count in `g`.
pub open spec fn step(g: Seq<Seq<bool>>) -> Seq<Seq<bool>> {
    Seq::new(
        g.len(),
        |y: int| Seq::new(g[0].len(), |x: int| next_state(g[y][x], neighbor_count(g, x, y))),
    )
}

/// `n` synchronous generations, applied to `g` in order.
pub open spec fn steps(g: Seq<Seq<bool>>, n: nat) -> Seq<Seq<bool>>
    decreases n,
{
    if n == 0 {
        g
    } else {
        step(steps(g, (n - 1) as nat))
    }
}

/// The symbol for one cell: `'O'` for a live cell, `'.'` for a dead one.
pub open spec fn cell_char(alive: bool) -> char {
    if alive {
        'O'
    } else {
        '.'
    }
}

/// One rendered row: one symbol per cell, closed by a newline.
pub open spec fn render_row(row: Seq<bool>) -> Seq<char> {
    row.map_values(|alive: bool| cell_char(alive)).push('\n')
}

/// The first `n` rows of a grid's rendering, in row-major order.
pub open spec fn render_rows(g: Seq<Seq<bool>>, n: int) -> Seq<char>
    decreases n,
{
    if n <= 0 {
        Seq::empty()
    } else {
        render_rows(g, n - 1) + render_row(g[n - 1])
    }
}

/// The textual rendering of a grid: the rows in order, each as one symbol
/// per cell followed by a newline.
pub open spec fn render(g: Seq<Seq<bool>>) -> Seq<char> {
    render_rows(g, g.len() as int)
}

/// A neighbor count is the sum of the weights of the eight wrapped
/// neighbor positions.
pub proof fn lemma_neighbor_count_decomposition(
    g: Seq<Seq<bool>>,
    x: int,
    y: int,
    l: int,
    r: int,
    t: int,
    b: int,
)
    requires
        l == wrap_dec(x, g[0].len() as int),
        r == wrap_inc(x, g[0].len() as int),
        t == wrap_dec(y, g.len() as int),
        b == wrap_inc(y, g.len() as int),
    ensures
        neighbor_count(g, x, y) == cell_weight(g, l, t) + cell_weight(g, x, t) + cell_weight(
            g,
            r,
            t,
        ) + cell_weight(g, l, y) + cell_weight(g, r, y) + cell_weight(g, l, b) + cell_weight(
            g,
            x,
            b,
        ) + cell_weight(g, r, b),
{
}

/// One cell of a generation, read off the definition of [`step`].
pub proof fn lemma_step_cell(g: Seq<Seq<bool>>, x: int, y: int)
    requires
        0 <= y < g.len(),
        0 <= x < g[0].len(),
    ensures
        step(g).len() == g.len(),
        step(g)[y].len() == g[0].len(),
        step(g)[y][x] == next_state(g[y][x], neighbor_count(g, x, y)),
{
}

/// The all-dead grid is a fixed point of one generation: every neighbor
/// count is zero, so the rule table leaves every cell dead.
pub proof fn lemma_step_of_dead_is_dead(g: Seq<Seq<bool>>)
    requires
        grid_wf(g),
        all_dead(g),
    ensures
        step(g) == g,
{
    assert forall|y: int, x: int|
        0 <= y < g.len() && 0 <= x < g[0].len() implies !step(g)[y][x] by {
        let w = g[0].len() as int;
        let h = g.len() as int;
        assert(0 <= wrap_dec(x, w) < w && 0 <= wrap_inc(x, w) < w);
        assert(0 <= wrap_dec(y, h) < h && 0 <= wrap_inc(y, h) < h);
        assert(neighbor_count(g, x, y) == 0);
    }
    assert(step(g) =~~= g);
}

/// An all-dead grid stays all dead under any number of generations: it is
/// a stable fixed point of the update.
pub proof fn lemma_dead_grid_is_fixed_point(g: Seq<Seq<bool>>, n: nat)
    requires
        grid_wf(g),
        all_dead(g),
    ensures
        steps(g, n) == g,
    decreases n,
{
    if n > 0 {
        lemma_dead_grid_is_fixed_point(g, (n - 1) as nat);
        lemma_step_of_dead_is_dead(g);
    }
}

/// Rendering is a function of the grid contents alone: any two renderings
/// of the same grid are identical, so rendering twice without a mutation
/// in between yields the same text both times.
pub proof fn lemma_render_deterministic(g: Seq<Seq<bool>>, s1: Seq<char>, s2: Seq<char>)
    requires
        s1 == render(g),
        s2 == render(g),
    ensures
        s1 == s2,
{
}

/// A freshly built all-dead grid is well-formed and all dead; with
/// [`lemma_dead_grid_is_fixed_point`] it stays all dead under any number
/// of generations.
pub proof fn lemma_dead_grid_all_dead(width: nat, height: nat)
    requires
        width >= 3,
        height >= 3,
    ensures
        grid_wf(dead_grid(width, height)),
        all_dead(dead_grid(width, height)),
        dead_grid(width, height).len() == height,
        dead_grid(width, height)[0].len() == width,
{
}

} // verus!
