//! Verified core of a two-dimensional thin-flame fire simulation.
//!
//! The simulation advances a level set that separates fuel from hot gas and a
//! velocity field driven by buoyancy, vorticity confinement and a pressure
//! projection.  This crate holds what of it is discrete: the grids that store
//! the fields, the regions and stencils that every finite-difference update
//! visits and reads, the boundary and inlet conditions, the stopping rule of
//! the pressure solve, the layout of printed fields and the command line.
//! The grids and the conditions are generic in the value type, so that the
//! real-valued formulas can run on them while which cells they touch is proved
//! here.

pub mod grid;
pub mod region;
pub mod stencil;
pub mod boundary;
pub mod solver;
pub mod diagnostics;
pub mod cli;
