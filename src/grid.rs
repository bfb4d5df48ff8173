//! The tile grid: a fixed-size rectangle of integer tile codes.
use vstd::prelude::*;

verus! {

/// Default number of columns of a level.
pub const MAP_WIDTH: usize = 20;

/// Default number of rows of a level.
pub const MAP_HEIGHT: usize = 20;

/// Largest number of columns or rows a grid may have, so that every cell
/// index and every marker position stays well inside machine integers.
pub const MAX_SIDE: usize = 4096;

/// Tile code of an empty, walkable cell.
pub const EMPTY_TILE: i32 = 0;

/// Tile code written on the outer ring of a fresh grid.
pub const BORDER_TILE: i32 = 1;

/// A coordinate outside the grid.
#[derive(Debug, Clone, Copy, PartialEq, Eq, Structural)]
pub enum GridError {
    OutOfBounds,
}

/// A rectangle of tile codes, stored row by row in one vector.
#[derive(Debug)]
pub struct Grid {
    width: usize,
    height: usize,
    cells: Vec<i32>,
}

/// Whether a cell lies on the outer ring of a `w` by `h` rectangle.
pub open spec fn on_border(w: int, h: int, x: int, y: int) -> bool {
    x == 0 || y == 0 || x == w - 1 || y == h - 1
}

/// The rows of a fresh `w` by `h` grid.
pub open spec fn fresh_rows(w: int, h: int) -> Seq<Seq<i32>> {
    Seq::new(h as nat, |y: int| Seq::new(w as nat, |x: int|
        if on_border(w, h, x, y) { BORDER_TILE } else { EMPTY_TILE }))
}

/// Whether `rows` is a non-empty rectangle of allowed size.
pub open spec fn is_rectangle(rows: Seq<Seq<i32>>) -> bool {
    &&& 0 < rows.len() <= MAX_SIDE
    &&& 0 < rows[0].len() <= MAX_SIDE
    &&& forall|y: int| 0 <= y < rows.len() ==> #[trigger] rows[y].len() == rows[0].len()
}

/// Cell `(x, y)` of a row-major layout with `w` columns sits at `y * w + x`;
/// distinct cells have distinct slots, all below `w * h`.
proof fn lemma_slot(w: int, h: int, x: int, y: int)
    requires
        0 <= x < w,
        0 <= y < h,
    ensures
        0 <= y * w + x < w * h,
        y * w <= y * w + x < (y + 1) * w,
        w <= MAX_SIDE && h <= MAX_SIDE ==> w * h <= MAX_SIDE * MAX_SIDE,
{
    if w <= MAX_SIDE && h <= MAX_SIDE {
        assert(w * h <= MAX_SIDE * MAX_SIDE) by (nonlinear_arith)
            requires 0 <= w <= MAX_SIDE, 0 <= h <= MAX_SIDE;
    }
    assert(0 <= y * w) by (nonlinear_arith)
        requires 0 <= y, 0 <= w;
    assert((y + 1) * w <= h * w) by (nonlinear_arith)
        requires y + 1 <= h, 0 <= w;
    assert((y + 1) * w == y * w + w) by (nonlinear_arith);
    assert(h * w == w * h) by (nonlinear_arith);
}

proof fn lemma_slot_unique(w: int, h: int, x1: int, y1: int, x2: int, y2: int)
    requires
        0 <= x1 < w,
        0 <= y1 < h,
        0 <= x2 < w,
        0 <= y2 < h,
        y1 * w + x1 == y2 * w + x2,
    ensures
        x1 == x2,
        y1 == y2,
{
    lemma_slot(w, h, x1, y1);
    lemma_slot(w, h, x2, y2);
    if y1 < y2 {
        assert((y1 + 1) * w <= y2 * w) by (nonlinear_arith)
            requires y1 + 1 <= y2, 0 <= w;
    } else if y2 < y1 {
        assert((y2 + 1) * w <= y1 * w) by (nonlinear_arith)
            requires y2 + 1 <= y1, 0 <= w;
    }
}

impl Grid {
    /// The grid's shape is consistent and within the size limit.
    pub closed spec fn wf(&self) -> bool {
        &&& 0 < self.width <= MAX_SIDE
        &&& 0 < self.height <= MAX_SIDE
        &&& self.cells@.len() == self.width * self.height
    }

    pub closed spec fn spec_width(&self) -> nat {
        self.width as nat
    }

    pub closed spec fn spec_height(&self) -> nat {
        self.height as nat
    }

    pub open spec fn in_bounds(&self, x: int, y: int) -> bool {
        0 <= x < self.spec_width() && 0 <= y < self.spec_height()
    }

    /// The tile code at column `x`, row `y`.
    pub closed spec fn cell(&self, x: int, y: int) -> i32 {
        self.cells@[y * self.width + x]
    }

    /// The grid as a sequence of rows, row `y` holding columns `0..width`.
    pub closed spec fn view(&self) -> Seq<Seq<i32>> {
        Seq::new(self.height as nat, |y: int| Seq::new(self.width as nat, |x: int| self.cell(x, y)))
    }

    pub proof fn lemma_view_shape(&self)
        requires
            self.wf(),
        ensures
            self@.len() == self.spec_height(),
            forall|y: int| 0 <= y < self.spec_height() ==> #[trigger] self@[y].len() == self.spec_width(),
            is_rectangle(self@),
            self@[0].len() == self.spec_width(),
            0 < self.spec_width() <= MAX_SIDE,
            0 < self.spec_height() <= MAX_SIDE,
    {
    }

    /// A `width` by `height` grid whose outer ring holds the border tile and
    /// whose interior is empty.
    pub fn new(width: usize, height: usize) -> (g: Grid)
        requires
            0 < width <= MAX_SIDE,
            0 < height <= MAX_SIDE,
        ensures
            g.wf(),
            g.spec_width() == width,
            g.spec_height() == height,
            g@ == fresh_rows(width as int, height as int),
    {
        let mut cells: Vec<i32> = Vec::new();
        let mut y: usize = 0;
        while y < height
            invariant
                0 < width <= MAX_SIDE,
                0 < height <= MAX_SIDE,
                y <= height,
                cells@.len() == y * width,
                forall|i: int| 0 <= i < cells@.len() ==> #[trigger] cells@[i]
                    == (if on_border(width as int, height as int, i % width as int, i / width as int) { BORDER_TILE } else { EMPTY_TILE }),
            decreases height - y,
        {
            let mut x: usize = 0;
            while x < width
                invariant
                    0 < width <= MAX_SIDE,
                    0 < height <= MAX_SIDE,
                    y < height,
                    x <= width,
                    cells@.len() == y * width + x,
                    forall|i: int| 0 <= i < cells@.len() ==> #[trigger] cells@[i]
                        == (if on_border(width as int, height as int, i % width as int, i / width as int) { BORDER_TILE } else { EMPTY_TILE }),
                decreases width - x,
            {
                proof {
                    lemma_slot(width as int, height as int, x as int, y as int);
                    vstd::arithmetic::div_mod::lemma_fundamental_div_mod_converse(
                        (y * width + x) as int, width as int, y as int, x as int);
                }
                let t: i32 = if x == 0 || y == 0 || x == width - 1 || y == height - 1 {
                    BORDER_TILE
                } else {
                    EMPTY_TILE
                };
                cells.push(t);
                x = x + 1;
            }
            y = y + 1;
            proof {
                assert((y - 1) * width + width == y * width) by (nonlinear_arith);
            }
        }
        proof {
            assert(height * width == width * height) by (nonlinear_arith);
        }
        let g = Grid { width, height, cells };
        proof {
            assert forall|y: int, x: int| 0 <= y < height && 0 <= x < width implies
                g.cell(x, y) == (if on_border(width as int, height as int, x, y) { BORDER_TILE } else { EMPTY_TILE }) by {
                lemma_slot(width as int, height as int, x, y);
                vstd::arithmetic::div_mod::lemma_fundamental_div_mod_converse(
                    y * width + x, width as int, y, x);
            }
            assert(g@ =~~= fresh_rows(width as int, height as int));
        }
        g
    }

    pub fn width(&self) -> (r: usize)
        ensures
            r == self.spec_width(),
    {
        self.width
    }

    pub fn height(&self) -> (r: usize)
        ensures
            r == self.spec_height(),
    {
        self.height
    }

    /// The tile code at `(x, y)`, or a bounds error.
    pub fn get(&self, x: usize, y: usize) -> (r: Result<i32, GridError>)
        requires
            self.wf(),
        ensures
            self.in_bounds(x as int, y as int) ==> r == Ok::<i32, GridError>(self@[y as int][x as int]),
            !self.in_bounds(x as int, y as int) ==> r == Err::<i32, GridError>(GridError::OutOfBounds),
    {
        if x < self.width && y < self.height {
            proof {
                lemma_slot(self.width as int, self.height as int, x as int, y as int);
            }
            Ok(self.cells[y * self.width + x])
        } else {
            Err(GridError::OutOfBounds)
        }
    }

    /// Writes `tile` at `(x, y)`; out of bounds, the grid is left as it was
    /// and a bounds error is returned.
    pub fn set(&mut self, x: usize, y: usize, tile: i32) -> (r: Result<(), GridError>)
        requires
            old(self).wf(),
        ensures
            final(self).wf(),
            final(self).spec_width() == old(self).spec_width(),
            final(self).spec_height() == old(self).spec_height(),
            old(self).in_bounds(x as int, y as int) ==> r == Ok::<(), GridError>(())
                && final(self)@ == old(self)@.update(y as int, old(self)@[y as int].update(x as int, tile)),
            !old(self).in_bounds(x as int, y as int) ==> r == Err::<(), GridError>(GridError::OutOfBounds)
                && final(self)@ == old(self)@,
    {
        if x < self.width && y < self.height {
            proof {
                lemma_slot(self.width as int, self.height as int, x as int, y as int);
            }
            let ghost before = *self;
            let i = y * self.width + x;
            self.cells.set(i, tile);
            proof {
                let w = self.width as int;
                let h = self.height as int;
                assert forall|yy: int, xx: int| 0 <= yy < h && 0 <= xx < w implies
                    #[trigger] self.cell(xx, yy) == (if xx == x && yy == y { tile } else { before.cell(xx, yy) }) by {
                    lemma_slot(w, h, xx, yy);
                    if yy * w + xx == i {
                        lemma_slot_unique(w, h, xx, yy, x as int, y as int);
                    }
                }
                assert(self@ =~~= before@.update(y as int, before@[y as int].update(x as int, tile)));
            }
            Ok(())
        } else {
            Err(GridError::OutOfBounds)
        }
    }

    /// Empties the cell at `(x, y)`: the same as setting it to the empty tile.
    pub fn clear(&mut self, x: usize, y: usize) -> (r: Result<(), GridError>)
        requires
            old(self).wf(),
        ensures
            final(self).wf(),
            final(self).spec_width() == old(self).spec_width(),
            final(self).spec_height() == old(self).spec_height(),
            old(self).in_bounds(x as int, y as int) ==> r == Ok::<(), GridError>(())
                && final(self)@ == old(self)@.update(y as int, old(self)@[y as int].update(x as int, EMPTY_TILE)),
            !old(self).in_bounds(x as int, y as int) ==> r == Err::<(), GridError>(GridError::OutOfBounds)
                && final(self)@ == old(self)@,
    {
        self.set(x, y, EMPTY_TILE)
    }
}


impl Grid {
    /// The grid as one vector per row.
    pub fn to_rows(&self) -> (r: Vec<Vec<i32>>)
        requires
            self.wf(),
        ensures
            r.deep_view() == self@,
    {
        let mut r: Vec<Vec<i32>> = Vec::new();
        let mut y: usize = 0;
        while y < self.height
            invariant
                self.wf(),
                y <= self.height,
                r.deep_view() == self@.subrange(0, y as int),
            decreases self.height - y,
        {
            let mut row: Vec<i32> = Vec::new();
            let mut x: usize = 0;
            while x < self.width
                invariant
                    self.wf(),
                    y < self.height,
                    x <= self.width,
                    row@ == self@[y as int].subrange(0, x as int),
                decreases self.width - x,
            {
                proof {
                    lemma_slot(self.width as int, self.height as int, x as int, y as int);
                }
                row.push(self.cells[y * self.width + x]);
                x = x + 1;
                assert(row@ =~= self@[y as int].subrange(0, x as int));
            }
            assert(row@ =~= self@[y as int]);
            assert(row.deep_view() =~= row@);
            let ghost prev = r.deep_view();
            r.push(row);
            assert(r.deep_view() =~= prev.push(self@[y as int]));
            y = y + 1;
            assert(r.deep_view() =~= self@.subrange(0, y as int));
        }
        assert(r.deep_view() =~= self@);
        r
    }

    /// The grid whose rows are `rows`, or `None` unless `rows` is a non-empty
    /// rectangle of allowed size.
    pub fn from_rows(rows: &Vec<Vec<i32>>) -> (r: Option<Grid>)
        ensures
            r.is_some() <==> is_rectangle(rows.deep_view()),
            r matches Some(g) ==> g.wf() && g@ == rows.deep_view(),
    {
        let height = rows.len();
        if height == 0 || height > MAX_SIDE {
            return None;
        }
        let width = rows[0].len();
        if width == 0 || width > MAX_SIDE {
            return None;
        }
        let ghost rv = rows.deep_view();
        let mut cells: Vec<i32> = Vec::new();
        let mut y: usize = 0;
        while y < height
            invariant
                height == rows@.len(),
                rv == rows.deep_view(),
                0 < height <= MAX_SIDE,
                0 < width <= MAX_SIDE,
                width == rv[0].len(),
                y <= height,
                cells@.len() == y * width,
                forall|j: int| 0 <= j < y ==> #[trigger] rv[j].len() == width,
                forall|yy: int, xx: int| 0 <= yy < y && 0 <= xx < width ==>
                    cells@[yy * width + xx] == #[trigger] rv[yy][xx],
            decreases height - y,
        {
            let row = &rows[y];
            if row.len() != width {
                assert(rv[y as int].len() != rv[0].len());
                return None;
            }
            let mut x: usize = 0;
            while x < width
                invariant
                    height == rows@.len(),
                    rv == rows.deep_view(),
                    0 < height <= MAX_SIDE,
                    0 < width <= MAX_SIDE,
                    y < height,
                    row@ == rv[y as int],
                    row@.len() == width,
                    x <= width,
                    cells@.len() == y * width + x,
                    forall|yy: int, xx: int| 0 <= yy < y && 0 <= xx < width ==>
                        cells@[yy * width + xx] == #[trigger] rv[yy][xx],
                    forall|xx: int| 0 <= xx < x ==> cells@[y * width + xx] == #[trigger] rv[y as int][xx],
                decreases width - x,
            {
                proof {
                    lemma_slot(width as int, height as int, x as int, y as int);
                }
                cells.push(row[x]);
                x = x + 1;
                proof {
                    assert forall|yy: int, xx: int| 0 <= yy < y && 0 <= xx < width implies
                        cells@[yy * width + xx] == #[trigger] rv[yy][xx] by {
                        lemma_slot(width as int, height as int, xx, yy);
                        assert(yy * width + xx < y * width) by (nonlinear_arith)
                            requires 0 <= yy < y, 0 <= xx < width;
                    }
                }
            }
            proof {
                assert forall|yy: int, xx: int| 0 <= yy < y + 1 && 0 <= xx < width implies
                    cells@[yy * width + xx] == #[trigger] rv[yy][xx] by {
                    if yy == y {
                    }
                }
                assert(y * width + width == (y + 1) * width) by (nonlinear_arith);
            }
            y = y + 1;
        }
        proof {
            assert(height * width == width * height) by (nonlinear_arith);
        }
        let g = Grid { width, height, cells };
        proof {
            assert(g@ =~~= rv);
        }
        Some(g)
    }
}

/// Writing `t` at an in-bounds cell and reading that cell back gives `t`;
/// every other cell keeps its value.
pub proof fn lemma_get_after_set(g: &Grid, x: int, y: int, t: i32)
    requires
        g.wf(),
        g.in_bounds(x, y),
    ensures
        g@.update(y, g@[y].update(x, t))[y][x] == t,
        forall|x2: int, y2: int| g.in_bounds(x2, y2) && (x2 != x || y2 != y) ==>
            #[trigger] g@.update(y, g@[y].update(x, t))[y2][x2] == g@[y2][x2],
{
    g.lemma_view_shape();
}

/// A fresh grid has the border tile all along its outer ring and the empty
/// tile everywhere inside.
pub proof fn lemma_fresh_border(w: int, h: int)
    requires
        0 < w,
        0 < h,
    ensures
        forall|x: int| 0 <= x < w ==> fresh_rows(w, h)[0][x] == BORDER_TILE && fresh_rows(w, h)[h - 1][x] == BORDER_TILE,
        forall|y: int| 0 <= y < h ==> fresh_rows(w, h)[y][0] == BORDER_TILE && fresh_rows(w, h)[y][w - 1] == BORDER_TILE,
        forall|x: int, y: int| 0 < x < w - 1 && 0 < y < h - 1 ==> #[trigger] fresh_rows(w, h)[y][x] == EMPTY_TILE,
{
}

} // verus!
