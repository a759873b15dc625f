//! A rectangular field of cells stored column by column in one flat vector.
//!
//! Cell `(x, y)` lives at position `x * height + y`, so that the cells of one
//! column are contiguous.  The mathematical view of a grid is a sequence of
//! columns, each a sequence of `height` cells: `g@[x][y]` is the value of
//! cell `(x, y)`, exactly as `f[x][y]` indexes a nested array.
use vstd::prelude::*;

verus! {

/// Position of cell `(x, y)` in the flat storage of a grid of height `ny`.
pub open spec fn flat_index(x: int, y: int, ny: int) -> int {
    x * ny + y
}

/// Positions of cells inside an `nx` by `ny` grid fall inside the storage.
pub proof fn lemma_flat_index_bounds(x: int, y: int, nx: int, ny: int)
    requires
        0 <= x < nx,
        0 <= y < ny,
    ensures
        0 <= flat_index(x, y, ny),
        flat_index(x, y, ny) < nx * ny,
{
    assert(0 <= x * ny) by (nonlinear_arith)
        requires
            0 <= x,
            0 <= ny,
    ;
    assert((x + 1) * ny <= nx * ny) by (nonlinear_arith)
        requires
            x + 1 <= nx,
            0 <= ny,
    ;
    assert((x + 1) * ny == x * ny + ny) by (nonlinear_arith);
}

/// Two cells of a grid share a storage position only if they are the same cell.
pub proof fn lemma_flat_index_injective(x1: int, y1: int, x2: int, y2: int, ny: int)
    requires
        0 <= y1 < ny,
        0 <= y2 < ny,
        flat_index(x1, y1, ny) == flat_index(x2, y2, ny),
    ensures
        x1 == x2,
        y1 == y2,
{
    if x1 < x2 {
        assert(x1 * ny + ny <= x2 * ny) by (nonlinear_arith)
            requires
                x1 + 1 <= x2,
                0 <= ny,
        ;
    } else if x2 < x1 {
        assert(x2 * ny + ny <= x1 * ny) by (nonlinear_arith)
            requires
                x2 + 1 <= x1,
                0 <= ny,
        ;
    }
}

/// A pair of components `(x, y)`, such as a velocity.
#[derive(Copy, Debug)]
pub struct P<T>(pub T, pub T);

impl<T: Copy> Clone for P<T> {
    fn clone(&self) -> (r: Self)
        ensures
            r == *self,
    {
        *self
    }
}

/// A field of `width * height` cells of type `T`.
pub struct Grid<T> {
    nx: usize,
    ny: usize,
    cells: Vec<T>,
}

impl<T> Grid<T> {
    #[verifier::type_invariant]
    spec fn storage_fits(&self) -> bool {
        self.cells.len() == self.nx * self.ny
    }

    /// Number of columns (the extent along x).
    pub closed spec fn width(&self) -> nat {
        self.nx as nat
    }

    /// Number of cells in a column (the extent along y).
    pub closed spec fn height(&self) -> nat {
        self.ny as nat
    }

    /// The stored value of cell `(x, y)`.
    closed spec fn cell(&self, x: int, y: int) -> T {
        self.cells@[flat_index(x, y, self.ny as int)]
    }

    /// The columns of the grid.
    pub closed spec fn columns(&self) -> Seq<Seq<T>> {
        Seq::new(self.nx as nat, |x: int| Seq::new(self.ny as nat, |y: int| self.cell(x, y)))
    }

    /// The view has `width` columns.
    pub broadcast proof fn lemma_view_width(&self)
        ensures
            #[trigger] self.columns().len() == self.width(),
    {
    }

    /// Every column of the view has `height` cells.
    pub broadcast proof fn lemma_view_height(&self, x: int)
        requires
            0 <= x < self.width(),
        ensures
            #[trigger] self.columns()[x].len() == self.height(),
    {
    }
}

impl<T> View for Grid<T> {
    type V = Seq<Seq<T>>;

    open spec fn view(&self) -> Seq<Seq<T>> {
        self.columns()
    }
}

/// Whether `s` is a sequence of `nx` columns of `ny` cells each.
pub open spec fn has_shape<T>(s: Seq<Seq<T>>, nx: nat, ny: nat) -> bool {
    &&& s.len() == nx
    &&& forall|x: int| 0 <= x < nx ==> #[trigger] s[x].len() == ny
}

/// The view of a grid whose every cell holds `v`.
pub open spec fn filled_view<T>(nx: nat, ny: nat, v: T) -> Seq<Seq<T>> {
    Seq::new(nx, |x: int| Seq::new(ny, |y: int| v))
}

pub broadcast group group_grid_shape {
    Grid::lemma_view_width,
    Grid::lemma_view_height,
}

impl<T: Copy> Grid<T> {
    /// A grid of `nx` columns of `ny` cells, every cell holding `fill`.
    pub fn new(nx: usize, ny: usize, fill: T) -> (g: Grid<T>)
        requires
            nx * ny <= usize::MAX,
        ensures
            g.width() == nx,
            g.height() == ny,
            g@ == filled_view(nx as nat, ny as nat, fill),
    {
        let n: usize = nx * ny;
        let mut cells: Vec<T> = Vec::with_capacity(n);
        let mut i: usize = 0;
        while i < n
            invariant
                i <= n,
                cells.len() == i,
                forall|k: int| 0 <= k < i ==> cells@[k] == fill,
            decreases n - i,
        {
            cells.push(fill);
            i = i + 1;
        }
        let g = Grid { nx, ny, cells };
        assert forall|x: int, y: int| 0 <= x < nx && 0 <= y < ny implies g.cell(x, y) == fill by {
            lemma_flat_index_bounds(x, y, nx as int, ny as int);
        }
        assert(g@ =~~= filled_view(nx as nat, ny as nat, fill));
        g
    }

    /// Number of columns.
    pub fn width_exec(&self) -> (w: usize)
        ensures
            w == self.width(),
    {
        self.nx
    }

    /// Number of cells per column.
    pub fn height_exec(&self) -> (h: usize)
        ensures
            h == self.height(),
    {
        self.ny
    }

    /// The value of cell `(x, y)`.
    pub fn get(&self, x: usize, y: usize) -> (v: T)
        requires
            x < self.width(),
            y < self.height(),
        ensures
            v == self@[x as int][y as int],
    {
        proof {
            use_type_invariant(self);
            lemma_flat_index_bounds(x as int, y as int, self.nx as int, self.ny as int);
        }
        self.cells[x * self.ny + y]
    }

    /// The four cells around the point `(x0 + tx, y0 + ty)` with `0 <= tx, ty < 1`,
    /// which bilinear interpolation blends: `(f[x0][y0], f[x0][y0 + 1],
    /// f[x0 + 1][y0], f[x0 + 1][y0 + 1])`.
    pub fn cell_corners(&self, x0: usize, y0: usize) -> (c: (T, T, T, T))
        requires
            x0 + 1 < self.width(),
            y0 + 1 < self.height(),
        ensures
            c.0 == self@[x0 as int][y0 as int],
            c.1 == self@[x0 as int][y0 + 1],
            c.2 == self@[x0 + 1][y0 as int],
            c.3 == self@[x0 + 1][y0 + 1],
    {
        (self.get(x0, y0), self.get(x0, y0 + 1), self.get(x0 + 1, y0), self.get(x0 + 1, y0 + 1))
    }

    /// Overwrite cell `(x, y)` with `v`, leaving every other cell as it was.
    pub fn set(&mut self, x: usize, y: usize, v: T)
        requires
            x < old(self).width(),
            y < old(self).height(),
        ensures
            final(self).width() == old(self).width(),
            final(self).height() == old(self).height(),
            final(self)@ == old(self)@.update(x as int, old(self)@[x as int].update(y as int, v)),
        no_unwind
    {
        proof {
            use_type_invariant(&*self);
            lemma_flat_index_bounds(x as int, y as int, self.nx as int, self.ny as int);
        }
        let ghost pre = *self;
        let i = x * self.ny + y;
        self.cells[i] = v;
        proof {
            let nx = self.nx as int;
            let ny = self.ny as int;
            assert forall|a: int, b: int| 0 <= a < nx && 0 <= b < ny implies #[trigger] self.cell(a, b)
                == (if a == x && b == y { v } else { pre.cell(a, b) }) by {
                lemma_flat_index_bounds(a, b, nx, ny);
                if flat_index(a, b, ny) == i {
                    lemma_flat_index_injective(a, b, x as int, y as int, ny);
                }
            }
            assert(self@ =~~= pre@.update(x as int, pre@[x as int].update(y as int, v)));
        }
    }

    /// Make this grid a copy of `src`, which has the same dimensions.
    pub fn copy_from(&mut self, src: &Grid<T>)
        requires
            old(self).width() == src.width(),
            old(self).height() == src.height(),
        ensures
            final(self).width() == src.width(),
            final(self).height() == src.height(),
            final(self)@ == src@,
        no_unwind
    {
        proof {
            use_type_invariant(&*self);
            use_type_invariant(src);
        }
        let n = self.cells.len();
        let mut i: usize = 0;
        while i < n
            invariant
                i <= n,
                n == self.cells.len(),
                n == src.cells.len(),
                n == self.nx * self.ny,
                self.nx == src.nx,
                self.ny == src.ny,
                forall|k: int| 0 <= k < i ==> self.cells@[k] == src.cells@[k],
            decreases n - i,
        {
            let v = src.cells[i];
            self.cells[i] = v;
            i = i + 1;
        }
        assert(self.cells@ =~= src.cells@);
        assert(self@ =~~= src@);
    }
}

/// Whether cell `(x, y)` lies in the rectangle `[x_lo, x_hi) x [y_lo, y_hi)`.
pub open spec fn in_rect(x: int, y: int, x_lo: int, x_hi: int, y_lo: int, y_hi: int) -> bool {
    x_lo <= x < x_hi && y_lo <= y < y_hi
}

/// `new` is `old` with every cell `(x, y)` for which `chosen(x, y)` holds replaced by a
/// value that `f` may return for `(x, y, old value)`, and every other cell kept.
pub open spec fn updated_where<T, F: Fn(usize, usize, T) -> T>(
    old: Seq<Seq<T>>,
    new: Seq<Seq<T>>,
    f: F,
    chosen: spec_fn(int, int) -> bool,
) -> bool {
    &&& new.len() == old.len()
    &&& forall|x: int| 0 <= x < old.len() ==> #[trigger] new[x].len() == old[x].len()
    &&& forall|x: int, y: int|
        0 <= x < old.len() && 0 <= y < old[x].len() ==> if chosen(x, y) {
            f.ensures((x as usize, y as usize, old[x][y]), #[trigger] new[x][y])
        } else {
            new[x][y] == old[x][y]
        }
}

impl<T: Copy> Grid<T> {
    /// Replace each cell `(x, y)` of the rectangle `[x_lo, x_hi) x [y_lo, y_hi)` by
    /// `f(x, y, old value)`, column by column; cells outside the rectangle are kept.
    pub fn update_rect<F: Fn(usize, usize, T) -> T>(
        &mut self,
        x_lo: usize,
        x_hi: usize,
        y_lo: usize,
        y_hi: usize,
        f: &F,
    )
        requires
            x_hi <= old(self).width(),
            y_hi <= old(self).height(),
            forall|x: usize, y: usize, v: T| #[trigger] f.requires((x, y, v)),
        ensures
            final(self).width() == old(self).width(),
            final(self).height() == old(self).height(),
            updated_where(
                old(self)@,
                final(self)@,
                *f,
                |x: int, y: int| in_rect(x, y, x_lo as int, x_hi as int, y_lo as int, y_hi as int),
            ),
    {
        broadcast use group_grid_shape;

        let ghost start = self@;
        let ghost nx = self.width();
        let ghost ny = self.height();
        let mut x = x_lo;
        while x < x_hi
            invariant
                x_hi <= nx,
                y_hi <= ny,
                self.width() == nx,
                self.height() == ny,
                start.len() == nx,
                forall|i: int| 0 <= i < nx ==> #[trigger] start[i].len() == ny,
                forall|a: usize, b: usize, v: T| #[trigger] f.requires((a, b, v)),
                x_lo <= x,
                x <= x_hi || x == x_lo,
                forall|a: int, b: int|
                    0 <= a < nx && 0 <= b < ny ==> if x_lo <= a < x && y_lo <= b < y_hi {
                        f.ensures((a as usize, b as usize, start[a][b]), #[trigger] self@[a][b])
                    } else {
                        self@[a][b] == start[a][b]
                    },
            decreases x_hi - x,
        {
            let mut y = y_lo;
            while y < y_hi
                invariant
                    x_lo <= x < x_hi,
                    x_hi <= nx,
                    y_hi <= ny,
                    self.width() == nx,
                    self.height() == ny,
                    start.len() == nx,
                    forall|i: int| 0 <= i < nx ==> #[trigger] start[i].len() == ny,
                    forall|a: usize, b: usize, v: T| #[trigger] f.requires((a, b, v)),
                    y_lo <= y,
                    y <= y_hi || y == y_lo,
                    forall|a: int, b: int|
                        0 <= a < nx && 0 <= b < ny ==> if (x_lo <= a < x && y_lo <= b < y_hi)
                            || (a == x && y_lo <= b < y) {
                            f.ensures(
                                (a as usize, b as usize, start[a][b]),
                                #[trigger] self@[a][b],
                            )
                        } else {
                            self@[a][b] == start[a][b]
                        },
                decreases y_hi - y,
            {
                let ghost before = self@;
                let cur = self.get(x, y);
                let v = f(x, y, cur);
                self.set(x, y, v);
                proof {
                    assert forall|a: int, b: int| 0 <= a < nx && 0 <= b < ny implies #[trigger] self@[a][b]
                        == (if a == x && b == y { v } else { before[a][b] }) by {}
                }
                y = y + 1;
            }
            x = x + 1;
        }
    }
}

impl<T: Copy> Clone for Grid<T> {
    /// A grid of the same dimensions holding the same cells.
    fn clone(&self) -> (g: Self)
        ensures
            g.width() == self.width(),
            g.height() == self.height(),
            g@ == self@,
    {
        proof {
            use_type_invariant(self);
        }
        let n = self.cells.len();
        let mut cells: Vec<T> = Vec::with_capacity(n);
        let mut i: usize = 0;
        while i < n
            invariant
                i <= n,
                n == self.cells.len(),
                cells.len() == i,
                forall|k: int| 0 <= k < i ==> cells@[k] == self.cells@[k],
            decreases n - i,
        {
            cells.push(self.cells[i]);
            i = i + 1;
        }
        assert(cells@ =~= self.cells@);
        let g = Grid { nx: self.nx, ny: self.ny, cells };
        assert(g@ =~~= self@);
        g
    }
}

} // verus!
