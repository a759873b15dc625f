//! Which neighbouring cells each finite-difference formula of the solver reads.
//!
//! The formulas themselves are real-valued; what is decided here is the
//! discrete part: the cells they combine, chosen from the position of a cell,
//! from the direction of the flow, or from the side of the flame front on
//! which a cell lies.
use vstd::prelude::*;

use crate::region::{spec_cell_kind, CellKind};

verus! {

/// The pair `(ahead, behind)` of adjacent indices for the upwind one-sided
/// difference `f[ahead] - f[behind]` at index `i`: with a positive wind the
/// cell and the one before it, otherwise the one after it and the cell.
pub open spec fn spec_upwind_pair(i: int, wind_positive: bool) -> (int, int) {
    if wind_positive {
        (i, i - 1)
    } else {
        (i + 1, i)
    }
}

/// The upwind pair at index `i`; `i` has a neighbour on both sides.
pub fn upwind_pair(i: usize, n: usize, wind_positive: bool) -> (pair: (usize, usize))
    requires
        1 <= i,
        i + 1 < n,
    ensures
        (pair.0 as int, pair.1 as int) == spec_upwind_pair(i as int, wind_positive),
        pair.1 < pair.0 < n,
        pair.0 == pair.1 + 1,
        wind_positive ==> pair == (i, (i - 1) as usize),
        !wind_positive ==> pair == ((i + 1) as usize, i),
{
    if wind_positive {
        (i, i - 1)
    } else {
        (i + 1, i)
    }
}

/// The upwind difference at any index `i` is taken against the wind: with a
/// positive wind it is `f[i] - f[i - 1]`, otherwise `f[i + 1] - f[i]`, whatever `i` is.
pub proof fn lemma_upwind_pair_against_wind(i: int)
    ensures
        spec_upwind_pair(i, true) == (i, i - 1),
        spec_upwind_pair(i, false) == (i + 1, i),
        spec_upwind_pair(i, true).0 == i,
        spec_upwind_pair(i, false).1 == i,
{
}

/// The two terms of the centred difference `f[i + 1] - f[i - 1]` along an axis of
/// length `n`, where a neighbour beyond the edge contributes nothing.
pub open spec fn spec_centred_terms(n: int, i: int) -> (Option<int>, Option<int>) {
    (if i + 1 < n { Some(i + 1) } else { None }, if i > 0 { Some(i - 1) } else { None })
}

/// Indices added (`.0`) and subtracted (`.1`) by the centred difference at `i`.
pub fn centred_terms(n: usize, i: usize) -> (t: (Option<usize>, Option<usize>))
    requires
        i < n,
    ensures
        t.0 == (if i + 1 < n { Some((i + 1) as usize) } else { None::<usize> }),
        t.1 == (if i > 0 { Some((i - 1) as usize) } else { None::<usize> }),
{
    let plus = if i + 1 < n {
        Some(i + 1)
    } else {
        None
    };
    let minus = if i > 0 {
        Some(i - 1)
    } else {
        None
    };
    (plus, minus)
}

/// One Jacobi update of the pressure at a cell.
#[derive(Clone, Copy, Debug)]
pub enum JacobiStencil {
    /// `p'[x][y] = (p[east] + p[west] + p[north] + p[south]) / 4 - div[x][y]`.
    Interior {
        east: (usize, usize),
        west: (usize, usize),
        north: (usize, usize),
        south: (usize, usize),
    },
    /// `p'[x][y] = (p[a] + p[b]) / 4 - div[x][y]`, with `a` and `b` the two neighbours
    /// along the boundary line of the cell.
    Edge { a: (usize, usize), b: (usize, usize) },
    /// `p'[x][y] = (p[along_row] + p[along_column]) / 2`.
    Corner { along_row: (usize, usize), along_column: (usize, usize) },
}

/// The Jacobi update of cell `(x, y)` of an `nx` by `ny` grid.
pub open spec fn spec_jacobi_stencil(nx: int, ny: int, x: int, y: int) -> JacobiStencil {
    match spec_cell_kind(nx, ny, x, y) {
        CellKind::Interior => JacobiStencil::Interior {
            east: ((x + 1) as usize, y as usize),
            west: ((x - 1) as usize, y as usize),
            north: (x as usize, (y + 1) as usize),
            south: (x as usize, (y - 1) as usize),
        },
        CellKind::RowEdge => JacobiStencil::Edge {
            a: ((x + 1) as usize, y as usize),
            b: ((x - 1) as usize, y as usize),
        },
        CellKind::ColumnEdge => JacobiStencil::Edge {
            a: (x as usize, (y + 1) as usize),
            b: (x as usize, (y - 1) as usize),
        },
        CellKind::Corner => JacobiStencil::Corner {
            along_row: ((if x == 0 { 1 } else { nx - 2 }) as usize, y as usize),
            along_column: (x as usize, (if y == 0 { 1 } else { ny - 2 }) as usize),
        },
    }
}

/// Whether `c` is a cell of an `nx` by `ny` grid other than `(x, y)`.
pub open spec fn other_cell(c: (usize, usize), nx: int, ny: int, x: int, y: int) -> bool {
    &&& c.0 < nx
    &&& c.1 < ny
    &&& (c.0 != x || c.1 != y)
}

/// The Jacobi update of cell `(x, y)`.
pub fn jacobi_stencil(nx: usize, ny: usize, x: usize, y: usize) -> (s: JacobiStencil)
    requires
        nx >= 2,
        ny >= 2,
        x < nx,
        y < ny,
    ensures
        s == spec_jacobi_stencil(nx as int, ny as int, x as int, y as int),
        1 <= x < nx - 1 && 1 <= y < ny - 1 ==> s == (JacobiStencil::Interior {
            east: ((x + 1) as usize, y),
            west: ((x - 1) as usize, y),
            north: (x, (y + 1) as usize),
            south: (x, (y - 1) as usize),
        }),
{
    let on_column = x == 0 || x == nx - 1;
    let on_row = y == 0 || y == ny - 1;
    if on_column && on_row {
        let rx = if x == 0 {
            1
        } else {
            nx - 2
        };
        let cy = if y == 0 {
            1
        } else {
            ny - 2
        };
        JacobiStencil::Corner { along_row: (rx, y), along_column: (x, cy) }
    } else if on_row {
        JacobiStencil::Edge { a: (x + 1, y), b: (x - 1, y) }
    } else if on_column {
        JacobiStencil::Edge { a: (x, y + 1), b: (x, y - 1) }
    } else {
        JacobiStencil::Interior {
            east: (x + 1, y),
            west: (x - 1, y),
            north: (x, y + 1),
            south: (x, y - 1),
        }
    }
}

/// Every cell that a Jacobi update reads lies in the grid and differs from the
/// updated cell, and the updates of the boundary keep the normal derivative of the
/// pressure at zero: an edge cell reads only its two neighbours on the same
/// boundary line, and a corner reads one neighbour on its row and one on its column.
pub proof fn lemma_jacobi_reads_neighbours(nx: usize, ny: usize, x: usize, y: usize)
    requires
        nx >= 2,
        ny >= 2,
        x < nx,
        y < ny,
    ensures
        match spec_jacobi_stencil(nx as int, ny as int, x as int, y as int) {
            JacobiStencil::Interior { east, west, north, south } => {
                &&& other_cell(east, nx as int, ny as int, x as int, y as int)
                &&& other_cell(west, nx as int, ny as int, x as int, y as int)
                &&& other_cell(north, nx as int, ny as int, x as int, y as int)
                &&& other_cell(south, nx as int, ny as int, x as int, y as int)
            },
            JacobiStencil::Edge { a, b } => {
                &&& other_cell(a, nx as int, ny as int, x as int, y as int)
                &&& other_cell(b, nx as int, ny as int, x as int, y as int)
                &&& a != b
                &&& if y == 0 || y == ny - 1 {
                    a.1 == y && b.1 == y
                } else {
                    a.0 == x && b.0 == x
                }
            },
            JacobiStencil::Corner { along_row, along_column } => {
                &&& other_cell(along_row, nx as int, ny as int, x as int, y as int)
                &&& other_cell(along_column, nx as int, ny as int, x as int, y as int)
                &&& along_row.1 == y
                &&& along_column.0 == x
            },
        },
{
}

/// The Jacobi update of an interior cell reads exactly its four adjacent cells,
/// that of a cell of the bottom or top row its left and right neighbours, that of
/// a cell of the left or right column its lower and upper neighbours, and that of
/// a corner the cell next to it along its row and the one next to it along its column.
pub proof fn lemma_jacobi_stencil_cells(nx: usize, ny: usize, x: usize, y: usize)
    requires
        nx >= 2,
        ny >= 2,
        x < nx,
        y < ny,
    ensures
        1 <= x < nx - 1 && 1 <= y < ny - 1 ==> spec_jacobi_stencil(
            nx as int,
            ny as int,
            x as int,
            y as int,
        ) == (JacobiStencil::Interior {
            east: ((x + 1) as usize, y),
            west: ((x - 1) as usize, y),
            north: (x, (y + 1) as usize),
            south: (x, (y - 1) as usize),
        }),
        1 <= x < nx - 1 && (y == 0 || y == ny - 1) ==> spec_jacobi_stencil(
            nx as int,
            ny as int,
            x as int,
            y as int,
        ) == (JacobiStencil::Edge { a: ((x + 1) as usize, y), b: ((x - 1) as usize, y) }),
        (x == 0 || x == nx - 1) && 1 <= y < ny - 1 ==> spec_jacobi_stencil(
            nx as int,
            ny as int,
            x as int,
            y as int,
        ) == (JacobiStencil::Edge { a: (x, (y + 1) as usize), b: (x, (y - 1) as usize) }),
        x == 0 && y == 0 ==> spec_jacobi_stencil(nx as int, ny as int, x as int, y as int)
            == (JacobiStencil::Corner { along_row: (1, 0), along_column: (0, 1) }),
        x == 0 && y == ny - 1 ==> spec_jacobi_stencil(nx as int, ny as int, x as int, y as int)
            == (JacobiStencil::Corner {
            along_row: (1, y),
            along_column: (0, (ny - 2) as usize),
        }),
        x == nx - 1 && y == 0 ==> spec_jacobi_stencil(nx as int, ny as int, x as int, y as int)
            == (JacobiStencil::Corner {
            along_row: ((nx - 2) as usize, 0),
            along_column: (x, 1),
        }),
        x == nx - 1 && y == ny - 1 ==> spec_jacobi_stencil(
            nx as int,
            ny as int,
            x as int,
            y as int,
        ) == (JacobiStencil::Corner {
            along_row: ((nx - 2) as usize, y),
            along_column: (x, (ny - 2) as usize),
        }),
{
}

/// The side of the flame front on which a value of the level set lies: positive
/// inside the fuel, negative in the hot gas, and neither on the front itself (or
/// where the value is not a number).
#[derive(Clone, Copy, Debug, PartialEq, Eq, Structural)]
pub enum Sign {
    Positive,
    Negative,
    Zero,
}

/// 1 when `s` is `target`, else 0.
pub open spec fn indicator(s: Sign, target: Sign) -> int {
    if s == target {
        1
    } else {
        0
    }
}

/// How many of the four neighbours lie strictly on side `target`.
pub open spec fn count_sign(n: [Sign; 4], target: Sign) -> int {
    indicator(n[0], target) + indicator(n[1], target) + indicator(n[2], target) + indicator(
        n[3],
        target,
    )
}

/// The signed number of neighbours across the flame front from a cell: for a
/// fuel cell the number of neighbours in the hot gas, otherwise minus the number
/// of neighbours in the fuel.
pub open spec fn spec_crossing_count(centre: Sign, neighbours: [Sign; 4]) -> int {
    if centre == Sign::Positive {
        count_sign(neighbours, Sign::Negative)
    } else {
        -count_sign(neighbours, Sign::Positive)
    }
}

/// 1 when `s` is `target`, else 0.
fn indicator_exec(s: Sign, target: Sign) -> (r: i32)
    ensures
        r == indicator(s, target),
{
    if s == target {
        1
    } else {
        0
    }
}

/// The signed number of neighbours across the flame front, which weights the
/// pressure jump in the divergence of a cell.
pub fn crossing_count(centre: Sign, neighbours: [Sign; 4]) -> (c: i32)
    ensures
        c == spec_crossing_count(centre, neighbours),
        -4 <= c <= 4,
        centre == Sign::Positive ==> c == (if neighbours[0] == Sign::Negative { 1int } else { 0 })
            + (if neighbours[1] == Sign::Negative { 1int } else { 0 }) + (if neighbours[2]
            == Sign::Negative { 1int } else { 0 }) + (if neighbours[3] == Sign::Negative {
            1int
        } else {
            0
        }),
        centre != Sign::Positive ==> -c == (if neighbours[0] == Sign::Positive { 1int } else { 0 })
            + (if neighbours[1] == Sign::Positive { 1int } else { 0 }) + (if neighbours[2]
            == Sign::Positive { 1int } else { 0 }) + (if neighbours[3] == Sign::Positive {
            1int
        } else {
            0
        }),
{
    if centre == Sign::Positive {
        indicator_exec(neighbours[0], Sign::Negative) + indicator_exec(
            neighbours[1],
            Sign::Negative,
        ) + indicator_exec(neighbours[2], Sign::Negative) + indicator_exec(
            neighbours[3],
            Sign::Negative,
        )
    } else {
        -indicator_exec(neighbours[0], Sign::Positive) - indicator_exec(
            neighbours[1],
            Sign::Positive,
        ) - indicator_exec(neighbours[2], Sign::Positive) - indicator_exec(
            neighbours[3],
            Sign::Positive,
        )
    }
}

/// The count of a fuel cell is never negative and that of any other cell never
/// positive; it is zero exactly when no neighbour lies across the front.
pub proof fn lemma_crossing_count_sign(centre: Sign, neighbours: [Sign; 4])
    ensures
        centre == Sign::Positive ==> spec_crossing_count(centre, neighbours) >= 0,
        centre != Sign::Positive ==> spec_crossing_count(centre, neighbours) <= 0,
        (spec_crossing_count(centre, neighbours) == 0) == (forall|i: int|
            0 <= i < 4 ==> #[trigger] neighbours[i] != (if centre == Sign::Positive {
                Sign::Negative
            } else {
                Sign::Positive
            })),
{
    let other = if centre == Sign::Positive {
        Sign::Negative
    } else {
        Sign::Positive
    };
    if count_sign(neighbours, other) == 0 {
        assert forall|i: int| 0 <= i < 4 implies #[trigger] neighbours[i] != other by {
            assert(i == 0 || i == 1 || i == 2 || i == 3);
        }
    } else {
        if neighbours[0] == other {
            assert(neighbours[0] == other);
        } else if neighbours[1] == other {
            assert(neighbours[1] == other);
        } else if neighbours[2] == other {
            assert(neighbours[2] == other);
        } else {
            assert(neighbours[3] == other);
        }
    }
}

/// Each neighbour across the flame front counts exactly once: moving one
/// neighbour of a fuel cell into the hot gas raises its count by one, and moving
/// one neighbour of any other cell into the fuel lowers its count by one, all
/// other neighbours being unchanged; with no neighbour across, the count is zero.
pub proof fn lemma_crossing_count_each_neighbour_once(
    centre: Sign,
    before: [Sign; 4],
    after: [Sign; 4],
    i: int,
)
    requires
        0 <= i < 4,
        forall|j: int| 0 <= j < 4 && j != i ==> before[j] == after[j],
    ensures
        centre == Sign::Positive && before[i] != Sign::Negative && after[i] == Sign::Negative
            ==> spec_crossing_count(centre, after) == spec_crossing_count(centre, before) + 1,
        centre != Sign::Positive && before[i] != Sign::Positive && after[i] == Sign::Positive
            ==> spec_crossing_count(centre, after) == spec_crossing_count(centre, before) - 1,
        centre == Sign::Positive && (before[i] == Sign::Negative) == (after[i] == Sign::Negative)
            ==> spec_crossing_count(centre, after) == spec_crossing_count(centre, before),
        centre != Sign::Positive && (before[i] == Sign::Positive) == (after[i] == Sign::Positive)
            ==> spec_crossing_count(centre, after) == spec_crossing_count(centre, before),
        centre == Sign::Positive && (forall|j: int| 0 <= j < 4 ==> before[j] != Sign::Negative)
            ==> spec_crossing_count(centre, before) == 0,
        centre != Sign::Positive && (forall|j: int| 0 <= j < 4 ==> before[j] != Sign::Positive)
            ==> spec_crossing_count(centre, before) == 0,
{
    assert(i == 0 || i == 1 || i == 2 || i == 3);
    if centre == Sign::Positive && (forall|j: int| 0 <= j < 4 ==> before[j] != Sign::Negative) {
        assert(before[0] != Sign::Negative && before[1] != Sign::Negative);
        assert(before[2] != Sign::Negative && before[3] != Sign::Negative);
    }
    if centre != Sign::Positive && (forall|j: int| 0 <= j < 4 ==> before[j] != Sign::Positive) {
        assert(before[0] != Sign::Positive && before[1] != Sign::Positive);
        assert(before[2] != Sign::Positive && before[3] != Sign::Positive);
    }
    assert(i != 0 ==> before[0] == after[0]);
    assert(i != 1 ==> before[1] == after[1]);
    assert(i != 2 ==> before[2] == after[2]);
    assert(i != 3 ==> before[3] == after[3]);
}

/// Where the semi-Lagrangian backtrace takes the velocity at a point.
#[derive(Clone, Copy, Debug, PartialEq, Eq, Structural)]
pub enum VelocitySource {
    /// Interpolated from the velocity field.
    Field,
    /// The ghost velocity of the hot gas, extrapolated into the fuel.
    GhostFluid,
}

/// A trace that starts in the hot gas and reaches the fuel takes the ghost
/// velocity there; a trace that starts in the fuel, or stays in the gas, takes
/// the velocity field.
pub open spec fn spec_velocity_source(starts_in_fuel: bool, point_in_fuel: bool) -> VelocitySource {
    if !starts_in_fuel && point_in_fuel {
        VelocitySource::GhostFluid
    } else {
        VelocitySource::Field
    }
}

/// The source of the velocity at a point of the backtrace.
pub fn velocity_source(starts_in_fuel: bool, point_in_fuel: bool) -> (s: VelocitySource)
    ensures
        s == spec_velocity_source(starts_in_fuel, point_in_fuel),
        (s == VelocitySource::GhostFluid) == (!starts_in_fuel && point_in_fuel),
{
    if starts_in_fuel {
        VelocitySource::Field
    } else if point_in_fuel {
        VelocitySource::GhostFluid
    } else {
        VelocitySource::Field
    }
}

} // verus!
