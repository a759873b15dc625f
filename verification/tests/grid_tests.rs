use fire_in_rust::grid::{Grid, P};
use fire_in_rust::region::{cell_kind, update_region, CellKind, Region};

fn numbered(nx: usize, ny: usize) -> Grid<i64> {
    let mut g = Grid::new(nx, ny, 0i64);
    for x in 0..nx {
        for y in 0..ny {
            g.set(x, y, (x * 100 + y) as i64);
        }
    }
    g
}

#[test]
fn new_grid_is_filled() {
    let g = Grid::new(3, 4, 7u8);
    assert_eq!(g.width_exec(), 3);
    assert_eq!(g.height_exec(), 4);
    for x in 0..3 {
        for y in 0..4 {
            assert_eq!(g.get(x, y), 7);
        }
    }
}

#[test]
fn empty_grid_has_no_cells() {
    let g = Grid::new(0, 5, 1u8);
    assert_eq!(g.width_exec(), 0);
    assert_eq!(g.height_exec(), 5);
}

#[test]
fn read_gives_back_write_and_keeps_others() {
    let mut g = numbered(4, 3);
    g.set(2, 1, -5);
    assert_eq!(g.get(2, 1), -5);
    assert_eq!(g.get(1, 2), 102);
    assert_eq!(g.get(2, 0), 200);
    assert_eq!(g.get(3, 1), 301);
}

#[test]
fn copy_from_makes_equal_grid() {
    let src = numbered(3, 3);
    let mut dst = Grid::new(3, 3, 0i64);
    dst.copy_from(&src);
    for x in 0..3 {
        for y in 0..3 {
            assert_eq!(dst.get(x, y), src.get(x, y));
        }
    }
}

#[test]
fn clone_keeps_cells() {
    let g = numbered(2, 5);
    let h = g.clone();
    assert_eq!(h.width_exec(), 2);
    assert_eq!(h.height_exec(), 5);
    assert_eq!(h.get(1, 4), 104);
}

#[test]
fn cell_corners_of_bilinear_sample() {
    let g = numbered(4, 4);
    assert_eq!(g.cell_corners(1, 2), (102, 103, 202, 203));
    assert_eq!(g.cell_corners(2, 2), (202, 203, 302, 303));
}

#[test]
fn update_rect_touches_only_rectangle() {
    let mut g = numbered(5, 5);
    g.update_rect(1, 3, 2, 4, &|_x: usize, _y: usize, v: i64| v + 1000);
    for x in 0..5 {
        for y in 0..5 {
            let base = (x * 100 + y) as i64;
            let inside = (1..3).contains(&x) && (2..4).contains(&y);
            assert_eq!(g.get(x, y), if inside { base + 1000 } else { base });
        }
    }
}

#[test]
fn cell_kinds_of_small_grid() {
    assert_eq!(cell_kind(5, 4, 0, 0), CellKind::Corner);
    assert_eq!(cell_kind(5, 4, 4, 3), CellKind::Corner);
    assert_eq!(cell_kind(5, 4, 2, 0), CellKind::RowEdge);
    assert_eq!(cell_kind(5, 4, 2, 3), CellKind::RowEdge);
    assert_eq!(cell_kind(5, 4, 0, 1), CellKind::ColumnEdge);
    assert_eq!(cell_kind(5, 4, 4, 2), CellKind::ColumnEdge);
    assert_eq!(cell_kind(5, 4, 2, 2), CellKind::Interior);
}

fn marks(region: Region, nx: usize, ny: usize) -> Grid<u8> {
    let mut g = Grid::new(nx, ny, 0u8);
    update_region(&mut g, region, &|_x: usize, _y: usize, v: u8| v + 1);
    g
}

#[test]
fn regions_split_the_grid() {
    let (nx, ny) = (6, 5);
    let parts = [Region::Interior, Region::RowEdges, Region::ColumnEdges, Region::Corners];
    let grids: Vec<Grid<u8>> = parts.iter().map(|r| marks(*r, nx, ny)).collect();
    for x in 0..nx {
        for y in 0..ny {
            let total: u8 = grids.iter().map(|g| g.get(x, y)).sum();
            assert_eq!(total, 1, "cell ({x}, {y}) must be in exactly one region");
            let kind = cell_kind(nx, ny, x, y);
            let expected = match kind {
                CellKind::Interior => 0,
                CellKind::RowEdge => 1,
                CellKind::ColumnEdge => 2,
                CellKind::Corner => 3,
            };
            assert_eq!(grids[expected].get(x, y), 1);
        }
    }
    let all = marks(Region::All, nx, ny);
    for x in 0..nx {
        for y in 0..ny {
            assert_eq!(all.get(x, y), 1);
        }
    }
}

#[test]
fn interior_update_keeps_boundary() {
    let mut g = numbered(4, 4);
    update_region(&mut g, Region::Interior, &|_x: usize, _y: usize, _v: i64| -1);
    assert_eq!(g.get(1, 1), -1);
    assert_eq!(g.get(2, 2), -1);
    assert_eq!(g.get(0, 2), 2);
    assert_eq!(g.get(3, 3), 303);
    assert_eq!(g.get(1, 0), 100);
}

#[test]
fn corners_of_two_by_two_grid() {
    let g = marks(Region::Corners, 2, 2);
    for x in 0..2 {
        for y in 0..2 {
            assert_eq!(g.get(x, y), 1);
        }
    }
    let e = marks(Region::RowEdges, 2, 2);
    assert_eq!(e.get(0, 0) + e.get(1, 1), 0);
}

#[test]
fn pairs_copy_components() {
    let p = P(1i32, -2i32);
    let q = p.clone();
    assert_eq!((q.0, q.1), (1, -2));
}

#[test]
fn divergence_regions_leave_corners() {
    let mut g = Grid::new(5, 4, 0i64);
    update_region(&mut g, Region::Interior, &|_x: usize, _y: usize, _v: i64| 1);
    update_region(&mut g, Region::RowEdges, &|_x: usize, _y: usize, _v: i64| 2);
    update_region(&mut g, Region::ColumnEdges, &|_x: usize, _y: usize, _v: i64| 3);
    for (x, y) in [(0, 0), (0, 3), (4, 0), (4, 3)] {
        assert_eq!(g.get(x, y), 0);
    }
    assert_eq!(g.get(2, 2), 1);
    assert_eq!(g.get(2, 0), 2);
    assert_eq!(g.get(0, 2), 3);
}
