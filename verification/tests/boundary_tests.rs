use fire_in_rust::boundary::{apply_boundary_conditions, init_fuel_inlet, INLET_ROWS};
use fire_in_rust::grid::{Grid, P};

fn velocities(nx: usize, ny: usize) -> Grid<P<i32>> {
    let mut u = Grid::new(nx, ny, P(0, 0));
    for x in 0..nx {
        for y in 0..ny {
            u.set(x, y, P(10 + x as i32, 20 + y as i32));
        }
    }
    u
}

#[test]
fn boundary_conditions_set_walls_and_inflow() {
    let mut u = velocities(4, 5);
    apply_boundary_conditions(&mut u, 15, 0);
    // bottom row: vertical inflow, side corners lose horizontal speed
    assert_eq!((u.get(0, 0).0, u.get(0, 0).1), (0, 15));
    assert_eq!((u.get(2, 0).0, u.get(2, 0).1), (12, 15));
    // top row: no vertical flow
    assert_eq!((u.get(1, 4).0, u.get(1, 4).1), (11, 0));
    assert_eq!((u.get(3, 4).0, u.get(3, 4).1), (0, 0));
    // side walls: no horizontal flow
    assert_eq!((u.get(0, 2).0, u.get(0, 2).1), (0, 22));
    assert_eq!((u.get(3, 2).0, u.get(3, 2).1), (0, 22));
    // interior untouched
    assert_eq!((u.get(1, 2).0, u.get(1, 2).1), (11, 22));
    assert_eq!((u.get(2, 3).0, u.get(2, 3).1), (12, 23));
}

#[test]
fn boundary_conditions_are_idempotent() {
    let mut once = velocities(5, 6);
    apply_boundary_conditions(&mut once, 3, 0);
    let mut twice = once.clone();
    apply_boundary_conditions(&mut twice, 3, 0);
    for x in 0..5 {
        for y in 0..6 {
            let (a, b) = (once.get(x, y), twice.get(x, y));
            assert_eq!((a.0, a.1), (b.0, b.1));
        }
    }
}

#[test]
fn single_row_field_ends_with_zero_vertical() {
    let mut u = velocities(3, 1);
    apply_boundary_conditions(&mut u, 15, 0);
    assert_eq!((u.get(1, 0).0, u.get(1, 0).1), (11, 0));
}

#[test]
fn fuel_inlet_layout() {
    let (nx, ny) = (3, 14);
    let mut phi = Grid::new(nx, ny, 1i32);
    let mut temp = Grid::new(nx, ny, 300i32);
    let mut u = Grid::new(nx, ny, P(7i32, 7i32));
    init_fuel_inlet(&mut phi, &mut temp, &mut u, 5, -5, 310, P(0, 15), P(0, 0));
    assert_eq!(INLET_ROWS, 10);
    for x in 0..nx {
        for y in 0..ny {
            let v = u.get(x, y);
            if y < 10 {
                assert_eq!(phi.get(x, y), 5);
                assert_eq!(temp.get(x, y), 310);
                assert_eq!((v.0, v.1), if y == 0 { (0, 15) } else { (0, 0) });
            } else {
                assert_eq!(phi.get(x, y), -5);
                assert_eq!(temp.get(x, y), 300);
                assert_eq!((v.0, v.1), (7, 7));
            }
        }
    }
}

#[test]
fn fuel_inlet_on_short_domain() {
    let mut phi = Grid::new(2, 4, 1i32);
    let mut temp = Grid::new(2, 4, 300i32);
    let mut u = Grid::new(2, 4, P(7i32, 7i32));
    init_fuel_inlet(&mut phi, &mut temp, &mut u, 5, -5, 310, P(0, 15), P(0, 0));
    for x in 0..2 {
        for y in 0..4 {
            assert_eq!(phi.get(x, y), 5);
            assert_eq!(temp.get(x, y), 310);
        }
    }
}
