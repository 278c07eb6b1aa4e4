//! The drawing surface: a square grid of on/off cells, owned by the render
//! task and mutated only by applying pixel and clear commands.

use vstd::prelude::*;

verus! {

/// Width and height of the square drawing grid.
pub const GRID_SIZE: usize = 48;

/// A `GRID_SIZE` x `GRID_SIZE` grid of boolean cells.
pub struct Canvas {
    cells: Vec<Vec<bool>>,
}

/// Both coordinates name a cell of the grid.
pub open spec fn coords_in_range(x: u8, y: u8) -> bool {
    (x as int) < GRID_SIZE && (y as int) < GRID_SIZE
}

/// Every cell of the grid is off.
pub open spec fn all_cells_off(g: Seq<Seq<bool>>) -> bool {
    forall|y: int, x: int|
        0 <= y < g.len() && 0 <= x < g[y].len() ==> !g[y][x]
}

/// The grid is square with the fixed side length.
pub open spec fn wf_grid(g: Seq<Seq<bool>>) -> bool {
    &&& g.len() == GRID_SIZE
    &&& forall|y: int| 0 <= y < GRID_SIZE ==> (#[trigger] g[y]).len() == GRID_SIZE
}

/// The one well-formed grid with every cell off.
pub open spec fn cleared_grid() -> Seq<Seq<bool>> {
    Seq::new(GRID_SIZE as nat, |y: int| Seq::new(GRID_SIZE as nat, |x: int| false))
}

/// The grid with the single cell `(x, y)` set to `state`.
pub open spec fn grid_with_cell(g: Seq<Seq<bool>>, x: u8, y: u8, state: bool) -> Seq<Seq<bool>> {
    g.update(y as int, g[y as int].update(x as int, state))
}

impl View for Canvas {
    type V = Seq<Seq<bool>>;

    closed spec fn view(&self) -> Seq<Seq<bool>> {
        Seq::new(self.cells@.len(), |y: int| self.cells@[y]@)
    }
}

impl Canvas {
    /// The grid is square with the fixed side length.
    pub open spec fn wf(&self) -> bool {
        wf_grid(self@)
    }

    /// Create a fully cleared grid.
    pub fn new() -> (c: Canvas)
        ensures
            c.wf(),
            all_cells_off(c@),
            c@ == cleared_grid(),
    {
        let mut cells: Vec<Vec<bool>> = Vec::new();
        let mut y: usize = 0;
        while y < GRID_SIZE
            invariant
                y <= GRID_SIZE,
                cells@.len() == y,
                forall|j: int| 0 <= j < y ==> (#[trigger] cells@[j])@.len() == GRID_SIZE,
                forall|j: int, i: int|
                    0 <= j < y && 0 <= i < GRID_SIZE ==> !cells@[j]@[i],
            decreases GRID_SIZE - y,
        {
            let mut row: Vec<bool> = Vec::new();
            let mut x: usize = 0;
            while x < GRID_SIZE
                invariant
                    x <= GRID_SIZE,
                    row@.len() == x,
                    forall|i: int| 0 <= i < x ==> !row@[i],
                decreases GRID_SIZE - x,
            {
                row.push(false);
                x = x + 1;
            }
            cells.push(row);
            y = y + 1;
        }
        let c = Canvas { cells };
        proof {
            assert(c@ =~~= cleared_grid());
        }
        c
    }

    /// Read one cell.
    pub fn get(&self, x: u8, y: u8) -> (b: bool)
        requires
            self.wf(),
            coords_in_range(x, y),
        ensures
            b == self@[y as int][x as int],
    {
        proof {
            assert(self@.len() == self.cells@.len());
            assert(self@[y as int] == self.cells@[y as int]@);
        }
        self.cells[y as usize][x as usize]
    }

    /// Set or clear one cell, bounds-checked: an out-of-range coordinate is
    /// rejected and leaves the grid unchanged. Returns whether the write was
    /// applied.
    pub fn set(&mut self, x: u8, y: u8, state: bool) -> (applied: bool)
        requires
            old(self).wf(),
        ensures
            final(self).wf(),
            applied == coords_in_range(x, y),
            coords_in_range(x, y) ==> final(self)@ == grid_with_cell(old(self)@, x, y, state),
            !coords_in_range(x, y) ==> final(self)@ == old(self)@,
    {
        if (x as usize) < GRID_SIZE && (y as usize) < GRID_SIZE {
            proof {
                assert(self@.len() == self.cells@.len());
                assert(self@[y as int] == self.cells@[y as int]@);
            }
            self.cells[y as usize][x as usize] = state;
            proof {
                assert(self@ =~= old(self)@.update(
                    y as int,
                    old(self)@[y as int].update(x as int, state),
                ));
            }
            true
        } else {
            false
        }
    }

    /// Reset every cell to off, whatever the prior state.
    pub fn clear(&mut self)
        requires
            old(self).wf(),
        ensures
            final(self).wf(),
            all_cells_off(final(self)@),
            final(self)@ == cleared_grid(),
    {
        let mut y: usize = 0;
        while y < GRID_SIZE
            invariant
                y <= GRID_SIZE,
                self.wf(),
                forall|j: int, i: int|
                    0 <= j < y && 0 <= i < GRID_SIZE ==> !self@[j][i],
            decreases GRID_SIZE - y,
        {
            let mut x: usize = 0;
            while x < GRID_SIZE
                invariant
                    x <= GRID_SIZE,
                    y < GRID_SIZE,
                    self.wf(),
                    forall|j: int, i: int|
                        0 <= j < y && 0 <= i < GRID_SIZE ==> !self@[j][i],
                    forall|i: int| 0 <= i < x ==> !self@[y as int][i],
                decreases GRID_SIZE - x,
            {
                proof {
                    assert(self@.len() == self.cells@.len());
                    assert(self@[y as int] == self.cells@[y as int]@);
                }
                let ghost prev = self@;
                self.cells[y][x] = false;
                proof {
                    assert(self@ =~= prev.update(y as int, prev[y as int].update(x as int, false)));
                }
                x = x + 1;
            }
            y = y + 1;
        }
        proof {
            assert(self@ =~~= cleared_grid());
        }
    }
}

/// Applying a pixel command with in-range coordinates to any well-formed
/// grid, a cleared one included, turns exactly the addressed cell to the
/// commanded state and leaves every other cell unchanged.
pub proof fn lemma_pixel_updates_one_cell(g: Seq<Seq<bool>>, x: u8, y: u8, state: bool)
    requires
        wf_grid(g),
        coords_in_range(x, y),
    ensures
        wf_grid(grid_with_cell(g, x, y, state)),
        grid_with_cell(g, x, y, state)[y as int][x as int] == state,
        forall|j: int, i: int|
            0 <= j < GRID_SIZE && 0 <= i < GRID_SIZE && !(j == y as int && i == x as int)
                ==> grid_with_cell(g, x, y, state)[j][i] == g[j][i],
{
}

/// A full-canvas clear is idempotent: there is exactly one well-formed grid
/// with every cell off, so clearing an already-clear grid changes nothing.
pub proof fn lemma_clear_idempotent(g1: Seq<Seq<bool>>, g2: Seq<Seq<bool>>)
    requires
        wf_grid(g1),
        all_cells_off(g1),
        wf_grid(g2),
        all_cells_off(g2),
    ensures
        g1 =~~= g2,
{
}

/// Cell `(x, y)` exists in the grid and is on.
pub open spec fn cell_on(g: Seq<Seq<bool>>, x: int, y: int) -> bool {
    0 <= y < g.len() && 0 <= x < g[y].len() && g[y][x]
}

/// `(min_x, max_x, min_y, max_y)` is the tight bounding box of the on-cells:
/// every on-cell lies inside it and each of its four edges touches one.
pub open spec fn is_bounding_box(g: Seq<Seq<bool>>, min_x: int, max_x: int, min_y: int, max_y: int) -> bool {
    &&& forall|y: int, x: int| cell_on(g, x, y) ==> min_x <= x <= max_x && min_y <= y <= max_y
    &&& exists|y: int| cell_on(g, min_x, y)
    &&& exists|y: int| cell_on(g, max_x, y)
    &&& exists|x: int| cell_on(g, x, min_y)
    &&& exists|x: int| cell_on(g, x, max_y)
}

/// Scan order of the row-major sweep: cell `(i, j)` has already been visited
/// when the sweep stands at row `y`, column `x`.
spec fn visited(y: int, x: int, j: int, i: int) -> bool {
    j < y || (j == y && i < x)
}

/// Find the tight bounding box `(min_x, max_x, min_y, max_y)` of the on-cells
/// of the grid, or `None` when every cell is off.
pub fn find_bounding_box(canvas: &Canvas) -> (r: Option<(usize, usize, usize, usize)>)
    requires
        canvas.wf(),
    ensures
        (r is None) <==> all_cells_off(canvas@),
        r matches Some(b) ==> is_bounding_box(canvas@, b.0 as int, b.1 as int, b.2 as int, b.3 as int),
{
    let ghost g = canvas@;
    let mut min_x: usize = GRID_SIZE;
    let mut max_x: usize = 0;
    let mut min_y: usize = GRID_SIZE;
    let mut max_y: usize = 0;
    let mut found = false;

    let mut y: usize = 0;
    while y < GRID_SIZE
        invariant
            canvas.wf(),
            g == canvas@,
            y <= GRID_SIZE,
            found <==> exists|j: int, i: int| visited(y as int, 0, j, i) && cell_on(g, i, j),
            forall|j: int, i: int|
                visited(y as int, 0, j, i) && cell_on(g, i, j)
                    ==> min_x <= i <= max_x && min_y <= j <= max_y,
            found ==> exists|j: int, i: int| cell_on(g, i, j) && i == min_x,
            found ==> exists|j: int, i: int| cell_on(g, i, j) && i == max_x,
            found ==> exists|j: int, i: int| cell_on(g, i, j) && j == min_y,
            found ==> exists|j: int, i: int| cell_on(g, i, j) && j == max_y,
        decreases GRID_SIZE - y,
    {
        let mut x: usize = 0;
        while x < GRID_SIZE
            invariant
                canvas.wf(),
                g == canvas@,
                y < GRID_SIZE,
                x <= GRID_SIZE,
                found <==> exists|j: int, i: int| visited(y as int, x as int, j, i) && cell_on(g, i, j),
                forall|j: int, i: int|
                    visited(y as int, x as int, j, i) && cell_on(g, i, j)
                        ==> min_x <= i <= max_x && min_y <= j <= max_y,
                found ==> exists|j: int, i: int| cell_on(g, i, j) && i == min_x,
                found ==> exists|j: int, i: int| cell_on(g, i, j) && i == max_x,
                found ==> exists|j: int, i: int| cell_on(g, i, j) && j == min_y,
                found ==> exists|j: int, i: int| cell_on(g, i, j) && j == max_y,
            decreases GRID_SIZE - x,
        {
            if canvas.get(x as u8, y as u8) {
                assert(cell_on(g, x as int, y as int));
                if !found {
                    min_x = x;
                    max_x = x;
                    min_y = y;
                    max_y = y;
                    found = true;
                } else {
                    if x < min_x {
                        min_x = x;
                    }
                    if x > max_x {
                        max_x = x;
                    }
                    if y < min_y {
                        min_y = y;
                    }
                    if y > max_y {
                        max_y = y;
                    }
                }
            }
            x = x + 1;
        }
        y = y + 1;
    }

    if found {
        assert(forall|j: int, i: int| cell_on(g, i, j) ==> visited(GRID_SIZE as int, 0, j, i));
        Some((min_x, max_x, min_y, max_y))
    } else {
        assert forall|j: int, i: int| 0 <= j < g.len() && 0 <= i < g[j].len() implies !g[j][i] by {
            if g[j][i] {
                assert(cell_on(g, i, j));
                assert(visited(GRID_SIZE as int, 0, j, i));
            }
        }
        None
    }
}

} // verus!
