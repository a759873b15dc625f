//! The parts of a grid that the simulation treats differently: the interior,
//! the two boundary rows without their ends, the two boundary columns without
//! their ends, and the four corners.  Every update of the solver visits one
//! or several of these regions.
use vstd::prelude::*;

use crate::grid::{has_shape, in_rect, updated_where, Grid};

verus! {

broadcast use crate::grid::group_grid_shape;

/// Where a cell lies relative to the boundary of the grid.
#[derive(Clone, Copy, Debug, PartialEq, Eq, Structural)]
pub enum CellKind {
    /// Not on the boundary.
    Interior,
    /// On the bottom or top row, but not in a corner.
    RowEdge,
    /// On the left or right column, but not in a corner.
    ColumnEdge,
    /// One of the four corners.
    Corner,
}

/// A set of cells that an update visits.
#[derive(Clone, Copy, Debug, PartialEq, Eq, Structural)]
pub enum Region {
    /// Every cell.
    All,
    /// The cells of kind `Interior`.
    Interior,
    /// The cells of kind `RowEdge`.
    RowEdges,
    /// The cells of kind `ColumnEdge`.
    ColumnEdges,
    /// The cells of kind `Corner`.
    Corners,
}

/// The kind of cell `(x, y)` of an `nx` by `ny` grid.
pub open spec fn spec_cell_kind(nx: int, ny: int, x: int, y: int) -> CellKind {
    let on_column = x == 0 || x == nx - 1;
    let on_row = y == 0 || y == ny - 1;
    if on_column && on_row {
        CellKind::Corner
    } else if on_row {
        CellKind::RowEdge
    } else if on_column {
        CellKind::ColumnEdge
    } else {
        CellKind::Interior
    }
}

/// Whether cell `(x, y)` of an `nx` by `ny` grid belongs to region `r`.
pub open spec fn in_region(r: Region, nx: int, ny: int, x: int, y: int) -> bool {
    &&& 0 <= x < nx
    &&& 0 <= y < ny
    &&& match r {
        Region::All => true,
        Region::Interior => spec_cell_kind(nx, ny, x, y) == CellKind::Interior,
        Region::RowEdges => spec_cell_kind(nx, ny, x, y) == CellKind::RowEdge,
        Region::ColumnEdges => spec_cell_kind(nx, ny, x, y) == CellKind::ColumnEdge,
        Region::Corners => spec_cell_kind(nx, ny, x, y) == CellKind::Corner,
    }
}

/// The region made of the cells of kind `k`.
pub open spec fn region_of_kind(k: CellKind) -> Region {
    match k {
        CellKind::Interior => Region::Interior,
        CellKind::RowEdge => Region::RowEdges,
        CellKind::ColumnEdge => Region::ColumnEdges,
        CellKind::Corner => Region::Corners,
    }
}

/// The kind of cell `(x, y)` of an `nx` by `ny` grid.
pub fn cell_kind(nx: usize, ny: usize, x: usize, y: usize) -> (k: CellKind)
    requires
        x < nx,
        y < ny,
    ensures
        k == spec_cell_kind(nx as int, ny as int, x as int, y as int),
        (k == CellKind::Corner) == ((x == 0 || x == nx - 1) && (y == 0 || y == ny - 1)),
        (k == CellKind::RowEdge) == ((y == 0 || y == ny - 1) && !(x == 0 || x == nx - 1)),
        (k == CellKind::ColumnEdge) == ((x == 0 || x == nx - 1) && !(y == 0 || y == ny - 1)),
        (k == CellKind::Interior) == (0 < x < nx - 1 && 0 < y < ny - 1),
{
    let on_column = x == 0 || x == nx - 1;
    let on_row = y == 0 || y == ny - 1;
    if on_column && on_row {
        CellKind::Corner
    } else if on_row {
        CellKind::RowEdge
    } else if on_column {
        CellKind::ColumnEdge
    } else {
        CellKind::Interior
    }
}

/// The interior, the boundary rows, the boundary columns and the corners split
/// the grid: each cell belongs to exactly one of them, the one of its kind.
pub proof fn lemma_regions_partition(nx: int, ny: int, x: int, y: int)
    requires
        0 <= x < nx,
        0 <= y < ny,
    ensures
        in_region(region_of_kind(spec_cell_kind(nx, ny, x, y)), nx, ny, x, y),
        in_region(Region::All, nx, ny, x, y),
        forall|k: CellKind|
            #![trigger region_of_kind(k)]
            in_region(region_of_kind(k), nx, ny, x, y) ==> k == spec_cell_kind(nx, ny, x, y),
{
}

/// An update of the interior leaves every boundary cell as it was.
pub proof fn lemma_interior_update_keeps_boundary<T, F: Fn(usize, usize, T) -> T>(
    s0: Seq<Seq<T>>,
    s1: Seq<Seq<T>>,
    f: F,
    nx: int,
    ny: int,
)
    requires
        has_shape(s0, nx as nat, ny as nat),
        updated_where(s0, s1, f, |x: int, y: int| in_region(Region::Interior, nx, ny, x, y)),
    ensures
        forall|x: int, y: int|
            0 <= x < nx && 0 <= y < ny && (x == 0 || x == nx - 1 || y == 0 || y == ny - 1)
                ==> #[trigger] s1[x][y] == s0[x][y],
{
    assert forall|x: int, y: int|
        0 <= x < nx && 0 <= y < ny && (x == 0 || x == nx - 1 || y == 0 || y == ny - 1) implies
        #[trigger] s1[x][y] == s0[x][y] by {
        assert(s0[x].len() == ny);
    }
}

/// Updating the interior, then the boundary rows, then the boundary columns
/// leaves the four corners as they were.
pub proof fn lemma_corners_untouched<
    T,
    F1: Fn(usize, usize, T) -> T,
    F2: Fn(usize, usize, T) -> T,
    F3: Fn(usize, usize, T) -> T,
>(
    s0: Seq<Seq<T>>,
    s1: Seq<Seq<T>>,
    s2: Seq<Seq<T>>,
    s3: Seq<Seq<T>>,
    f1: F1,
    f2: F2,
    f3: F3,
    nx: int,
    ny: int,
)
    requires
        has_shape(s0, nx as nat, ny as nat),
        updated_where(s0, s1, f1, |x: int, y: int| in_region(Region::Interior, nx, ny, x, y)),
        updated_where(s1, s2, f2, |x: int, y: int| in_region(Region::RowEdges, nx, ny, x, y)),
        updated_where(s2, s3, f3, |x: int, y: int| in_region(Region::ColumnEdges, nx, ny, x, y)),
    ensures
        forall|x: int, y: int|
            in_region(Region::Corners, nx, ny, x, y) ==> #[trigger] s3[x][y] == s0[x][y],
{
    assert forall|x: int, y: int| in_region(Region::Corners, nx, ny, x, y) implies #[trigger] s3[x][y]
        == s0[x][y] by {
        assert(s0[x].len() == ny);
        assert(s1[x].len() == ny);
        assert(s2[x].len() == ny);
        assert(s1[x][y] == s0[x][y]);
        assert(s2[x][y] == s1[x][y]);
    }
}

/// The regions in terms of coordinates: the interior is `[1, nx - 1) x [1, ny - 1)`,
/// the boundary rows are rows 0 and `ny - 1` without their end cells, the boundary
/// columns are columns 0 and `nx - 1` without their end cells, and the corners are
/// the four cells where a boundary row meets a boundary column.
pub proof fn lemma_region_cells(nx: int, ny: int, x: int, y: int)
    requires
        nx >= 2,
        ny >= 2,
        0 <= x < nx,
        0 <= y < ny,
    ensures
        in_region(Region::All, nx, ny, x, y),
        in_region(Region::Interior, nx, ny, x, y) <==> (1 <= x < nx - 1 && 1 <= y < ny - 1),
        in_region(Region::RowEdges, nx, ny, x, y) <==> (1 <= x < nx - 1 && (y == 0 || y == ny
            - 1)),
        in_region(Region::ColumnEdges, nx, ny, x, y) <==> ((x == 0 || x == nx - 1) && 1 <= y
            < ny - 1),
        in_region(Region::Corners, nx, ny, x, y) <==> ((x == 0 || x == nx - 1) && (y == 0 || y
            == ny - 1)),
        !in_region(Region::All, nx, ny, -1, y) && !in_region(Region::All, nx, ny, nx, y),
        !in_region(Region::All, nx, ny, x, -1) && !in_region(Region::All, nx, ny, x, ny),
{
}

/// Two successive updates of disjoint sets of cells by the same function amount
/// to one update of their union.
proof fn lemma_compose_updates<T, F: Fn(usize, usize, T) -> T>(
    s0: Seq<Seq<T>>,
    s1: Seq<Seq<T>>,
    s2: Seq<Seq<T>>,
    f: F,
    c1: spec_fn(int, int) -> bool,
    c2: spec_fn(int, int) -> bool,
)
    requires
        updated_where(s0, s1, f, c1),
        updated_where(s1, s2, f, c2),
        forall|x: int, y: int| !(#[trigger] c1(x, y) && c2(x, y)),
    ensures
        updated_where(s0, s2, f, |x: int, y: int| c1(x, y) || c2(x, y)),
{
    assert forall|x: int, y: int| 0 <= x < s0.len() && 0 <= y < s0[x].len() implies (if c1(x, y)
        || c2(x, y) {
        f.ensures((x as usize, y as usize, s0[x][y]), #[trigger] s2[x][y])
    } else {
        s2[x][y] == s0[x][y]
    }) by {
        assert(s1[x].len() == s0[x].len());
        if c1(x, y) {
            assert(!c2(x, y));
            assert(s2[x][y] == s1[x][y]);
        } else if c2(x, y) {
            assert(s1[x][y] == s0[x][y]);
        } else {
            assert(s1[x][y] == s0[x][y]);
        }
    }
}

/// An update whose chosen cells are described by two equivalent predicates.
proof fn lemma_update_same_cells<T, F: Fn(usize, usize, T) -> T>(
    s0: Seq<Seq<T>>,
    s1: Seq<Seq<T>>,
    f: F,
    c1: spec_fn(int, int) -> bool,
    c2: spec_fn(int, int) -> bool,
)
    requires
        updated_where(s0, s1, f, c1),
        forall|x: int, y: int|
            0 <= x < s0.len() && 0 <= y < s0[x].len() ==> (#[trigger] c1(x, y) == c2(x, y)),
    ensures
        updated_where(s0, s1, f, c2),
{
    assert forall|x: int, y: int| 0 <= x < s0.len() && 0 <= y < s0[x].len() implies (if c2(x, y) {
        f.ensures((x as usize, y as usize, s0[x][y]), #[trigger] s1[x][y])
    } else {
        s1[x][y] == s0[x][y]
    }) by {
        assert(c1(x, y) == c2(x, y));
    }
}

/// Replace each cell `(x, y)` of region `r` by `f(x, y, old value)`; every other cell keeps
/// its value.  The interior is visited column by column; a boundary region is visited one
/// row or column at a time.
pub fn update_region<T: Copy, F: Fn(usize, usize, T) -> T>(g: &mut Grid<T>, r: Region, f: &F)
    requires
        old(g).width() >= 2,
        old(g).height() >= 2,
        forall|x: usize, y: usize, v: T| #[trigger] f.requires((x, y, v)),
    ensures
        final(g).width() == old(g).width(),
        final(g).height() == old(g).height(),
        updated_where(
            old(g)@,
            final(g)@,
            *f,
            |x: int, y: int| in_region(r, old(g).width() as int, old(g).height() as int, x, y),
        ),
{
    let ghost s0 = g@;
    let nx = g.width_exec();
    let ny = g.height_exec();
    let ghost target = |x: int, y: int| in_region(r, nx as int, ny as int, x, y);
    match r {
        Region::All => {
            g.update_rect(0, nx, 0, ny, f);
            proof {
                lemma_update_same_cells(
                    s0,
                    g@,
                    *f,
                    |x: int, y: int| in_rect(x, y, 0, nx as int, 0, ny as int),
                    target,
                );
            }
        },
        Region::Interior => {
            g.update_rect(1, nx - 1, 1, ny - 1, f);
            proof {
                lemma_update_same_cells(
                    s0,
                    g@,
                    *f,
                    |x: int, y: int| in_rect(x, y, 1, nx - 1, 1, ny - 1),
                    target,
                );
            }
        },
        Region::RowEdges => {
            let ghost c1 = |x: int, y: int| in_rect(x, y, 1, nx - 1, 0, 1);
            let ghost c2 = |x: int, y: int| in_rect(x, y, 1, nx - 1, ny - 1, ny as int);
            g.update_rect(1, nx - 1, 0, 1, f);
            let ghost s1 = g@;
            g.update_rect(1, nx - 1, ny - 1, ny, f);
            proof {
                lemma_compose_updates(s0, s1, g@, *f, c1, c2);
                lemma_update_same_cells(
                    s0,
                    g@,
                    *f,
                    |x: int, y: int| c1(x, y) || c2(x, y),
                    target,
                );
            }
        },
        Region::ColumnEdges => {
            let ghost c1 = |x: int, y: int| in_rect(x, y, 0, 1, 1, ny - 1);
            let ghost c2 = |x: int, y: int| in_rect(x, y, nx - 1, nx as int, 1, ny - 1);
            g.update_rect(0, 1, 1, ny - 1, f);
            let ghost s1 = g@;
            g.update_rect(nx - 1, nx, 1, ny - 1, f);
            proof {
                lemma_compose_updates(s0, s1, g@, *f, c1, c2);
                lemma_update_same_cells(
                    s0,
                    g@,
                    *f,
                    |x: int, y: int| c1(x, y) || c2(x, y),
                    target,
                );
            }
        },
        Region::Corners => {
            let ghost c1 = |x: int, y: int| in_rect(x, y, 0, 1, 0, 1);
            let ghost c2 = |x: int, y: int| in_rect(x, y, 0, 1, ny - 1, ny as int);
            let ghost c3 = |x: int, y: int| in_rect(x, y, nx - 1, nx as int, 0, 1);
            let ghost c4 = |x: int, y: int| in_rect(x, y, nx - 1, nx as int, ny - 1, ny as int);
            let ghost c12 = |x: int, y: int| c1(x, y) || c2(x, y);
            let ghost c123 = |x: int, y: int| c12(x, y) || c3(x, y);
            g.update_rect(0, 1, 0, 1, f);
            let ghost s1 = g@;
            g.update_rect(0, 1, ny - 1, ny, f);
            let ghost s2 = g@;
            g.update_rect(nx - 1, nx, 0, 1, f);
            let ghost s3 = g@;
            g.update_rect(nx - 1, nx, ny - 1, ny, f);
            proof {
                lemma_compose_updates(s0, s1, s2, *f, c1, c2);
                lemma_compose_updates(s0, s2, s3, *f, c12, c3);
                lemma_compose_updates(s0, s3, g@, *f, c123, c4);
                lemma_update_same_cells(
                    s0,
                    g@,
                    *f,
                    |x: int, y: int| c123(x, y) || c4(x, y),
                    target,
                );
            }
        },
    }
}

} // verus!
