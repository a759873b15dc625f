use fire_in_rust::stencil::{
    centred_terms, crossing_count, jacobi_stencil, upwind_pair, velocity_source, JacobiStencil,
    Sign, VelocitySource,
};

#[test]
fn upwind_follows_the_wind() {
    assert_eq!(upwind_pair(3, 10, true), (3, 2));
    assert_eq!(upwind_pair(3, 10, false), (4, 3));
    assert_eq!(upwind_pair(1, 3, true), (1, 0));
    assert_eq!(upwind_pair(1, 3, false), (2, 1));
}

#[test]
fn centred_terms_drop_outside_neighbours() {
    assert_eq!(centred_terms(5, 0), (Some(1), None));
    assert_eq!(centred_terms(5, 2), (Some(3), Some(1)));
    assert_eq!(centred_terms(5, 4), (None, Some(3)));
}

#[test]
fn jacobi_interior_reads_four_neighbours() {
    match jacobi_stencil(6, 5, 2, 3) {
        JacobiStencil::Interior { east, west, north, south } => {
            assert_eq!((east, west, north, south), ((3, 3), (1, 3), (2, 4), (2, 2)));
        }
        other => panic!("unexpected stencil {other:?}"),
    }
}

#[test]
fn jacobi_edges_read_along_the_boundary() {
    match jacobi_stencil(6, 5, 2, 0) {
        JacobiStencil::Edge { a, b } => assert_eq!((a, b), ((3, 0), (1, 0))),
        other => panic!("unexpected stencil {other:?}"),
    }
    match jacobi_stencil(6, 5, 2, 4) {
        JacobiStencil::Edge { a, b } => assert_eq!((a, b), ((3, 4), (1, 4))),
        other => panic!("unexpected stencil {other:?}"),
    }
    match jacobi_stencil(6, 5, 5, 2) {
        JacobiStencil::Edge { a, b } => assert_eq!((a, b), ((5, 3), (5, 1))),
        other => panic!("unexpected stencil {other:?}"),
    }
}

#[test]
fn jacobi_corners_average_two_neighbours() {
    let expect = [
        ((0, 0), (1, 0), (0, 1)),
        ((0, 4), (1, 4), (0, 3)),
        ((5, 0), (4, 0), (5, 1)),
        ((5, 4), (4, 4), (5, 3)),
    ];
    for (cell, row, col) in expect {
        match jacobi_stencil(6, 5, cell.0, cell.1) {
            JacobiStencil::Corner { along_row, along_column } => {
                assert_eq!((along_row, along_column), (row, col));
            }
            other => panic!("unexpected stencil {other:?}"),
        }
    }
}

#[test]
fn jacobi_corners_of_smallest_grid() {
    match jacobi_stencil(2, 2, 1, 1) {
        JacobiStencil::Corner { along_row, along_column } => {
            assert_eq!((along_row, along_column), ((0, 1), (1, 0)));
        }
        other => panic!("unexpected stencil {other:?}"),
    }
}

#[test]
fn crossing_count_from_fuel_counts_gas_neighbours() {
    assert_eq!(crossing_count(Sign::Positive, [Sign::Negative, Sign::Zero, Sign::Negative, Sign::Positive]), 2);
    assert_eq!(crossing_count(Sign::Positive, [Sign::Negative, Sign::Negative, Sign::Negative, Sign::Negative]), 4);
    assert_eq!(crossing_count(Sign::Positive, [Sign::Positive, Sign::Zero, Sign::Positive, Sign::Zero]), 0);
}

#[test]
fn crossing_count_from_gas_counts_fuel_neighbours_negatively() {
    assert_eq!(crossing_count(Sign::Negative, [Sign::Positive, Sign::Zero, Sign::Negative, Sign::Positive]), -2);
    assert_eq!(crossing_count(Sign::Zero, [Sign::Positive, Sign::Positive, Sign::Positive, Sign::Positive]), -4);
    assert_eq!(crossing_count(Sign::Negative, [Sign::Negative, Sign::Zero, Sign::Negative, Sign::Negative]), 0);
}

#[test]
fn ghost_velocity_only_when_gas_trace_enters_fuel() {
    assert_eq!(velocity_source(false, true), VelocitySource::GhostFluid);
    assert_eq!(velocity_source(false, false), VelocitySource::Field);
    assert_eq!(velocity_source(true, true), VelocitySource::Field);
    assert_eq!(velocity_source(true, false), VelocitySource::Field);
}
