//! What the simulation reports about its fields: which field, under which
//! title, which cells of it a downsampled printout shows, and how long the
//! checks for invalid values have taken.
use vstd::prelude::*;

verus! {

/// A field of the simulation that can be printed.
#[derive(Clone, Copy, Debug, PartialEq, Eq, Structural)]
pub enum Field {
    /// The velocity.
    U,
    /// The pressure.
    P,
    /// The divergence of the velocity.
    DivU,
    /// The level set of the flame front.
    Phi,
    /// The temperature.
    Temp,
    /// The reaction time.
    Rt,
    /// The smoke density.
    Dns,
}

impl Field {
    /// The title under which the field is printed.
    pub fn label(&self) -> (s: &'static str)
        ensures
            s@ == (match *self {
                Field::U => "Velocity (ux, uy)"@,
                Field::P => "Hot Gas Pressure"@,
                Field::DivU => "Divergence of Hot Gas Pressure"@,
                Field::Phi => "Level Set"@,
                Field::Temp => "Temperature"@,
                Field::Rt => "Reaction Parameter"@,
                Field::Dns => "Smoke Density"@,
            }),
    {
        match self {
            Field::U => "Velocity (ux, uy)",
            Field::P => "Hot Gas Pressure",
            Field::DivU => "Divergence of Hot Gas Pressure",
            Field::Phi => "Level Set",
            Field::Temp => "Temperature",
            Field::Rt => "Reaction Parameter",
            Field::Dns => "Smoke Density",
        }
    }
}

/// The printout shows about this many cells along each axis.
pub const SAMPLES_PER_AXIS: usize = 30;

/// The stride along an axis of `n` cells: one cell in `n / 30`, and every cell
/// when the axis is shorter than that.
pub open spec fn spec_stride(n: int) -> int {
    if n / (SAMPLES_PER_AXIS as int) >= 1 {
        n / (SAMPLES_PER_AXIS as int)
    } else {
        1
    }
}

/// The stride along an axis of `n` cells is `n / 30` when the axis holds at least
/// 30 cells, and 1 otherwise; it never exceeds the axis, nor is it zero.
pub proof fn lemma_stride(n: int)
    requires
        n >= 0,
    ensures
        n >= 30 ==> spec_stride(n) == n / 30,
        n < 30 ==> spec_stride(n) == 1,
        spec_stride(n) >= 1,
        n >= 1 ==> spec_stride(n) <= n,
        n >= 30 ==> spec_stride(n) * 30 <= n < (spec_stride(n) + 1) * 30,
{
}

/// The strides of the printout of an `nx` by `ny` field, along x and along y.
pub fn print_strides(nx: usize, ny: usize) -> (s: (usize, usize))
    ensures
        s.0 == spec_stride(nx as int),
        s.1 == spec_stride(ny as int),
        s.0 >= 1,
        s.1 >= 1,
        nx >= 30 ==> s.0 == nx / 30,
        nx < 30 ==> s.0 == 1,
        ny >= 30 ==> s.1 == ny / 30,
        ny < 30 ==> s.1 == 1,
{
    let sx = nx / SAMPLES_PER_AXIS;
    let sy = ny / SAMPLES_PER_AXIS;
    (if sx >= 1 {
        sx
    } else {
        1
    }, if sy >= 1 {
        sy
    } else {
        1
    })
}

/// The indices `top, top - stride, top - 2 * stride, ...` down to zero.
pub open spec fn descending_samples(top: int, stride: int) -> Seq<int>
    decreases (if top >= 0 { top + 1 } else { 0 }),
    when stride >= 1
{
    if top < 0 {
        Seq::empty()
    } else {
        seq![top].add(descending_samples(top - stride, stride))
    }
}

/// The indices `start, start + stride, start + 2 * stride, ...` below `n`.
pub open spec fn ascending_samples(start: int, n: int, stride: int) -> Seq<int>
    decreases (if start < n { n - start } else { 0 }),
    when stride >= 1
{
    if start >= n {
        Seq::empty()
    } else {
        seq![start].add(ascending_samples(start + stride, n, stride))
    }
}

/// The rows of the printout, from the top row of the field downwards: row
/// `ny - 1`, then every `stride`-th row below it.
pub fn sampled_rows(ny: usize, stride: usize) -> (rows: Vec<usize>)
    requires
        stride >= 1,
    ensures
        rows@.len() == descending_samples(ny - 1, stride as int).len(),
        forall|i: int|
            0 <= i < rows@.len() ==> #[trigger] rows@[i] as int == descending_samples(
                ny - 1,
                stride as int,
            )[i],
{
    let mut rows: Vec<usize> = Vec::new();
    let mut next: usize = ny;
    while next > 0
        invariant
            stride >= 1,
            next <= ny,
            rows@.map_values(|r: usize| r as int) + descending_samples(next - 1, stride as int)
                == descending_samples(ny - 1, stride as int),
        decreases next,
    {
        let ghost before = rows@.map_values(|r: usize| r as int);
        rows.push(next - 1);
        let ghost tail = descending_samples(next - 1 - stride, stride as int);
        let ghost rest_next: int = if next > stride {
            next - 1 - stride
        } else {
            -1
        };
        proof {
            assert(rows@.map_values(|r: usize| r as int) =~= before.push(next - 1));
            if next <= stride {
                assert(descending_samples(next - 1 - stride, stride as int) =~= Seq::<int>::empty());
            }
            assert(before.push(next - 1) + descending_samples(rest_next, stride as int) =~= before
                + descending_samples(next - 1, stride as int));
        }
        if next > stride {
            next = next - stride;
        } else {
            next = 0;
        }
    }
    proof {
        assert(descending_samples(-1, stride as int) =~= Seq::<int>::empty());
        assert(rows@.map_values(|r: usize| r as int) =~= descending_samples(ny - 1, stride as int));
        assert forall|i: int| 0 <= i < rows@.len() implies #[trigger] rows@[i] as int
            == descending_samples(ny - 1, stride as int)[i] by {
            assert(rows@.map_values(|r: usize| r as int)[i] == rows@[i] as int);
        }
    }
    rows
}

/// The columns of the printout, from the left column rightwards: column 0,
/// then every `stride`-th column.
pub fn sampled_columns(nx: usize, stride: usize) -> (cols: Vec<usize>)
    requires
        stride >= 1,
    ensures
        cols@.len() == ascending_samples(0, nx as int, stride as int).len(),
        forall|i: int|
            0 <= i < cols@.len() ==> #[trigger] cols@[i] as int == ascending_samples(
                0,
                nx as int,
                stride as int,
            )[i],
{
    let mut cols: Vec<usize> = Vec::new();
    let mut next: usize = 0;
    while next < nx
        invariant
            stride >= 1,
            cols@.map_values(|c: usize| c as int) + ascending_samples(
                next as int,
                nx as int,
                stride as int,
            ) == ascending_samples(0, nx as int, stride as int),
        decreases nx - next,
    {
        let ghost before = cols@.map_values(|c: usize| c as int);
        cols.push(next);
        proof {
            assert(cols@.map_values(|c: usize| c as int) =~= before.push(next as int));
            if nx - next <= stride {
                assert(ascending_samples(next + stride, nx as int, stride as int)
                    =~= Seq::<int>::empty());
            }
        }
        if nx - next > stride {
            next = next + stride;
        } else {
            proof {
                assert(before.push(next as int) + ascending_samples(
                    next + stride,
                    nx as int,
                    stride as int,
                ) =~= before + ascending_samples(next as int, nx as int, stride as int));
            }
            next = nx;
        }
    }
    proof {
        assert(cols@.map_values(|c: usize| c as int) =~= ascending_samples(
            0,
            nx as int,
            stride as int,
        ));
        assert forall|i: int| 0 <= i < cols@.len() implies #[trigger] cols@[i] as int
            == ascending_samples(0, nx as int, stride as int)[i] by {
            assert(cols@.map_values(|c: usize| c as int)[i] == cols@[i] as int);
        }
    }
    cols
}

/// The rows of a printout start at `top`, lie between 0 and `top`, follow one
/// another `stride` apart, and reach down to within one stride of row 0.
pub proof fn lemma_descending_samples(top: int, stride: int)
    requires
        stride >= 1,
    ensures
        ({
            let s = descending_samples(top, stride);
            &&& top >= 0 <==> s.len() > 0
            &&& s.len() > 0 ==> s[0] == top && s.last() < stride
            &&& forall|i: int| 0 <= i < s.len() ==> 0 <= #[trigger] s[i] <= top
            &&& forall|i: int| 0 <= i < s.len() - 1 ==> #[trigger] s[i + 1] == s[i] - stride
        }),
    decreases (if top >= 0 { top + 1 } else { 0 }),
{
    if top >= 0 {
        lemma_descending_samples(top - stride, stride);
        let s = descending_samples(top, stride);
        let t = descending_samples(top - stride, stride);
        assert(s =~= seq![top] + t);
        assert forall|i: int| 0 <= i < s.len() implies 0 <= #[trigger] s[i] <= top by {
            if i > 0 {
                assert(s[i] == t[i - 1]);
            }
        }
        assert forall|i: int| 0 <= i < s.len() - 1 implies #[trigger] s[i + 1] == s[i] - stride by {
            assert(s[i + 1] == t[i]);
            if i > 0 {
                assert(s[i] == t[i - 1]);
                assert(t[(i - 1) + 1] == t[i - 1] - stride);
            } else {
                assert(t.len() > 0);
            }
        }
    }
}

/// The columns of a printout start at `start`, lie between `start` and `n`,
/// follow one another `stride` apart, and reach to within one stride of `n`.
pub proof fn lemma_ascending_samples(start: int, n: int, stride: int)
    requires
        stride >= 1,
    ensures
        ({
            let s = ascending_samples(start, n, stride);
            &&& start < n <==> s.len() > 0
            &&& s.len() > 0 ==> s[0] == start && s.last() + stride >= n
            &&& forall|i: int| 0 <= i < s.len() ==> start <= #[trigger] s[i] < n
            &&& forall|i: int| 0 <= i < s.len() - 1 ==> #[trigger] s[i + 1] == s[i] + stride
        }),
    decreases (if start < n { n - start } else { 0 }),
{
    if start < n {
        lemma_ascending_samples(start + stride, n, stride);
        let s = ascending_samples(start, n, stride);
        let t = ascending_samples(start + stride, n, stride);
        assert(s =~= seq![start] + t);
        assert forall|i: int| 0 <= i < s.len() implies start <= #[trigger] s[i] < n by {
            if i > 0 {
                assert(s[i] == t[i - 1]);
            }
        }
        assert forall|i: int| 0 <= i < s.len() - 1 implies #[trigger] s[i + 1] == s[i] + stride by {
            assert(s[i + 1] == t[i]);
            if i > 0 {
                assert(s[i] == t[i - 1]);
                assert(t[(i - 1) + 1] == t[i - 1] + stride);
            } else {
                assert(t.len() > 0);
            }
        }
    }
}

/// Time spent checking for invalid values, in milliseconds, after one more
/// check that ran from `start_ms` to `end_ms`.
pub fn add_elapsed_ms(total_ms: u128, start_ms: u128, end_ms: u128) -> (t: u128)
    requires
        start_ms <= end_ms,
        total_ms + (end_ms - start_ms) <= u128::MAX,
    ensures
        t == total_ms + (end_ms - start_ms),
{
    total_ms + (end_ms - start_ms)
}

} // verus!
