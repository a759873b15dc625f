# fire_in_rust

A two-dimensional thin-flame fire simulation: a level set separates fuel
from hot gas, and the velocity field is advanced by buoyancy, vorticity
confinement, semi-Lagrangian advection and a pressure projection solved by
Jacobi iteration.

`src/` is the verified library. It holds the discrete part of the solver,
generic in the value type of the fields:

- `grid` — the flat column-major field storage, its view as columns of
  cells, and region updates by a caller-supplied function;
- `region` — interior, boundary rows, boundary columns and corners, and the
  proof that they split the grid;
- `stencil` — the neighbours read by each finite-difference formula
  (upwind pairs, centred terms, Jacobi stencils, front-crossing counts, the
  choice of ghost velocity);
- `boundary` — velocity boundary conditions and the fuel inlet;
- `solver` — the stopping rule of the pressure solve;
- `diagnostics` — field titles, the downsampled printout layout, timing;
- `cli` — the number of steps named on the command line.

`app/` is the program: the `f32` formulas of each step, which run on the
verified grids, the parallel NaN scan and the console output.
