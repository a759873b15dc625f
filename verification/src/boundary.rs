//! The boundary and initial conditions of the velocity, level-set and
//! temperature fields.
//!
//! Both are generic in the value type: the values written (an inflow speed, a
//! zero, the level-set value of the fuel) are given by the caller, while which
//! cells and which components receive them is decided and proved here.
use vstd::prelude::*;

use crate::grid::{Grid, P};

verus! {

broadcast use crate::grid::group_grid_shape;

/// Number of rows at the bottom of the domain that make up the fuel inlet.
pub const INLET_ROWS: usize = 10;

/// The velocity of cell `(x, y)` of an `nx` by `ny` field after the boundary
/// conditions are applied to the value `v`: the vertical component is `inflow`
/// on the bottom row and `zero` on the top row, the horizontal component is
/// `zero` on the left and right columns, and everything else is kept.
pub open spec fn spec_boundary_velocity<T>(
    nx: int,
    ny: int,
    x: int,
    y: int,
    v: P<T>,
    inflow: T,
    zero: T,
) -> P<T> {
    P(
        if x == 0 || x == nx - 1 {
            zero
        } else {
            v.0
        },
        if y == ny - 1 {
            zero
        } else if y == 0 {
            inflow
        } else {
            v.1
        },
    )
}

/// `new` is the field `old` of `nx` by `ny` velocities with the boundary conditions applied.
pub open spec fn boundary_applied<T>(
    old: Seq<Seq<P<T>>>,
    new: Seq<Seq<P<T>>>,
    nx: int,
    ny: int,
    inflow: T,
    zero: T,
) -> bool {
    &&& new.len() == nx
    &&& forall|x: int| 0 <= x < nx ==> #[trigger] new[x].len() == ny
    &&& forall|x: int, y: int|
        0 <= x < nx && 0 <= y < ny ==> #[trigger] new[x][y] == spec_boundary_velocity(
            nx,
            ny,
            x,
            y,
            old[x][y],
            inflow,
            zero,
        )
}

/// Impose the boundary conditions on the velocity field `u`: fuel enters at
/// speed `inflow` through the bottom row, nothing crosses the top row, and the
/// left and right walls stop the horizontal flow.
pub fn apply_boundary_conditions<T: Copy>(u: &mut Grid<P<T>>, inflow: T, zero: T)
    requires
        old(u).width() >= 1,
        old(u).height() >= 1,
    ensures
        final(u).width() == old(u).width(),
        final(u).height() == old(u).height(),
        boundary_applied(
            old(u)@,
            final(u)@,
            old(u).width() as int,
            old(u).height() as int,
            inflow,
            zero,
        ),
{
    let ghost s0 = u@;
    let nx = u.width_exec();
    let ny = u.height_exec();
    let set_inflow = |x: usize, y: usize, v: P<T>| -> (r: P<T>)
        ensures
            r == P(v.0, inflow),
        { P(v.0, inflow) };
    let stop_vertical = |x: usize, y: usize, v: P<T>| -> (r: P<T>)
        ensures
            r == P(v.0, zero),
        { P(v.0, zero) };
    let stop_horizontal = |x: usize, y: usize, v: P<T>| -> (r: P<T>)
        ensures
            r == P(zero, v.1),
        { P(zero, v.1) };
    u.update_rect(0, nx, 0, 1, &set_inflow);
    let ghost s1 = u@;
    u.update_rect(0, nx, ny - 1, ny, &stop_vertical);
    let ghost s2 = u@;
    u.update_rect(0, 1, 0, ny, &stop_horizontal);
    let ghost s3 = u@;
    u.update_rect(nx - 1, nx, 0, ny, &stop_horizontal);
    proof {
        assert forall|x: int, y: int| 0 <= x < nx && 0 <= y < ny implies #[trigger] u@[x][y]
            == spec_boundary_velocity(nx as int, ny as int, x, y, s0[x][y], inflow, zero) by {
            assert(s1[x].len() == ny);
            assert(s2[x].len() == ny);
            assert(s3[x].len() == ny);
        }
    }
}

/// The level set of cell row `y` after the inlet is laid out: `fuel` in the
/// inlet rows, `gas` above them.
pub open spec fn spec_inlet_level<T>(y: int, fuel: T, gas: T) -> T {
    if y < INLET_ROWS {
        fuel
    } else {
        gas
    }
}

/// Lay out the fuel inlet along the bottom of the domain.  In the first
/// `INLET_ROWS` rows the level set becomes `fuel`, the temperature `inlet_temp`
/// and the velocity `jet` on the bottom row and `still` on the others; above
/// them the level set becomes `gas` and temperature and velocity are kept.
pub fn init_fuel_inlet<T: Copy>(
    phi: &mut Grid<T>,
    temp: &mut Grid<T>,
    u: &mut Grid<P<T>>,
    fuel: T,
    gas: T,
    inlet_temp: T,
    jet: P<T>,
    still: P<T>,
)
    requires
        old(temp).width() == old(phi).width(),
        old(temp).height() == old(phi).height(),
        old(u).width() == old(phi).width(),
        old(u).height() == old(phi).height(),
    ensures
        final(phi).width() == old(phi).width() && final(phi).height() == old(phi).height(),
        final(temp).width() == old(phi).width() && final(temp).height() == old(phi).height(),
        final(u).width() == old(phi).width() && final(u).height() == old(phi).height(),
        forall|x: int, y: int|
            0 <= x < old(phi).width() && 0 <= y < old(phi).height() ==> {
                &&& #[trigger] final(phi)@[x][y] == spec_inlet_level(y, fuel, gas)
                &&& final(phi)@[x][y] == (if y < INLET_ROWS {
                    fuel
                } else {
                    gas
                })
                &&& final(temp)@[x][y] == (if y < INLET_ROWS {
                    inlet_temp
                } else {
                    old(temp)@[x][y]
                })
                &&& final(u)@[x][y] == (if y == 0 {
                    jet
                } else if y < INLET_ROWS {
                    still
                } else {
                    old(u)@[x][y]
                })
            },
{
    let ghost phi0 = phi@;
    let ghost temp0 = temp@;
    let ghost u0 = u@;
    let nx = phi.width_exec();
    let ny = phi.height_exec();
    let rows = if ny < INLET_ROWS {
        ny
    } else {
        INLET_ROWS
    };
    let level = |x: usize, y: usize, v: T| -> (r: T)
        ensures
            r == spec_inlet_level(y as int, fuel, gas),
        {
            if y < INLET_ROWS {
                fuel
            } else {
                gas
            }
        };
    let heat = |x: usize, y: usize, v: T| -> (r: T)
        ensures
            r == inlet_temp,
        { inlet_temp };
    let blow = |x: usize, y: usize, v: P<T>| -> (r: P<T>)
        ensures
            r == jet,
        { jet };
    let rest = |x: usize, y: usize, v: P<T>| -> (r: P<T>)
        ensures
            r == still,
        { still };
    phi.update_rect(0, nx, 0, ny, &level);
    temp.update_rect(0, nx, 0, rows, &heat);
    if ny > 0 {
        u.update_rect(0, nx, 0, 1, &blow);
    }
    let ghost u1 = u@;
    u.update_rect(0, nx, 1, rows, &rest);
    proof {
        assert forall|x: int, y: int| 0 <= x < nx && 0 <= y < ny implies #[trigger] u@[x][y] == (
        if y == 0 {
            jet
        } else if y < INLET_ROWS {
            still
        } else {
            u0[x][y]
        }) by {
            assert(u1[x].len() == ny);
        }
        assert forall|x: int, y: int| 0 <= x < nx && 0 <= y < ny implies #[trigger] phi@[x][y]
            == spec_inlet_level(y, fuel, gas) by {
        }
        assert forall|x: int, y: int| 0 <= x < nx && 0 <= y < ny implies #[trigger] temp@[x][y]
            == (if y < INLET_ROWS {
            inlet_temp
        } else {
            temp0[x][y]
        }) by {
        }
    }
}

/// The inlet is exactly the bottom `INLET_ROWS` rows: every row below them holds
/// the fuel level and every row from `INLET_ROWS` upwards the gas level.
pub proof fn lemma_inlet_rows<T>(fuel: T, gas: T)
    ensures
        INLET_ROWS == 10,
        forall|y: int| 0 <= y < INLET_ROWS ==> #[trigger] spec_inlet_level(y, fuel, gas) == fuel,
        forall|y: int| y >= INLET_ROWS ==> #[trigger] spec_inlet_level(y, fuel, gas) == gas,
{
}

/// What the boundary conditions impose on each side: the vertical speed is
/// `zero` on the top row and `inflow` on the bottom row below it, the horizontal
/// speed is `zero` on the left and right columns, and any component that no
/// condition names keeps its value.
pub proof fn lemma_boundary_sides<T>(nx: int, ny: int, x: int, y: int, v: P<T>, inflow: T, zero: T)
    requires
        0 <= x < nx,
        0 <= y < ny,
    ensures
        ({
            let r = spec_boundary_velocity(nx, ny, x, y, v, inflow, zero);
            &&& (x == 0 || x == nx - 1) ==> r.0 == zero
            &&& !(x == 0 || x == nx - 1) ==> r.0 == v.0
            &&& y == ny - 1 ==> r.1 == zero
            &&& y == 0 && ny > 1 ==> r.1 == inflow
            &&& 0 < y < ny - 1 ==> r.1 == v.1
        }),
{
}

/// Applying the boundary conditions a second time changes nothing.
pub proof fn lemma_boundary_conditions_idempotent<T>(
    s0: Seq<Seq<P<T>>>,
    s1: Seq<Seq<P<T>>>,
    s2: Seq<Seq<P<T>>>,
    nx: int,
    ny: int,
    inflow: T,
    zero: T,
)
    requires
        boundary_applied(s0, s1, nx, ny, inflow, zero),
        boundary_applied(s1, s2, nx, ny, inflow, zero),
    ensures
        s2 == s1,
{
    assert forall|x: int| 0 <= x < nx implies #[trigger] s2[x] =~= s1[x] by {
        assert forall|y: int| 0 <= y < ny implies #[trigger] s2[x][y] == s1[x][y] by {
            assert(s2[x][y] == spec_boundary_velocity(nx, ny, x, y, s1[x][y], inflow, zero));
            assert(s1[x][y] == spec_boundary_velocity(nx, ny, x, y, s0[x][y], inflow, zero));
        }
    }
    assert(s2 =~= s1);
}

} // verus!
