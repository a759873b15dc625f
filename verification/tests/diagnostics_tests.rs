use fire_in_rust::diagnostics::{
    add_elapsed_ms, print_strides, sampled_columns, sampled_rows, Field,
};

#[test]
fn labels_of_fields() {
    assert_eq!(Field::U.label(), "Velocity (ux, uy)");
    assert_eq!(Field::P.label(), "Hot Gas Pressure");
    assert_eq!(Field::DivU.label(), "Divergence of Hot Gas Pressure");
    assert_eq!(Field::Phi.label(), "Level Set");
    assert_eq!(Field::Temp.label(), "Temperature");
    assert_eq!(Field::Rt.label(), "Reaction Parameter");
    assert_eq!(Field::Dns.label(), "Smoke Density");
}

#[test]
fn strides_of_default_domain() {
    assert_eq!(print_strides(240, 320), (8, 10));
    assert_eq!(print_strides(10, 29), (1, 1));
    assert_eq!(print_strides(30, 59), (1, 1));
    assert_eq!(print_strides(60, 0), (2, 1));
}

#[test]
fn rows_run_from_top_down() {
    assert_eq!(sampled_rows(10, 3), vec![9, 6, 3, 0]);
    assert_eq!(sampled_rows(9, 3), vec![8, 5, 2]);
    assert_eq!(sampled_rows(4, 1), vec![3, 2, 1, 0]);
    assert_eq!(sampled_rows(0, 2), Vec::<usize>::new());
}

#[test]
fn columns_run_from_left() {
    assert_eq!(sampled_columns(10, 3), vec![0, 3, 6, 9]);
    assert_eq!(sampled_columns(9, 3), vec![0, 3, 6]);
    assert_eq!(sampled_columns(1, 5), vec![0]);
    assert_eq!(sampled_columns(0, 1), Vec::<usize>::new());
}

#[test]
fn default_domain_sampling_matches_step_by() {
    let (sx, sy) = print_strides(240, 320);
    let rows: Vec<usize> = (0..320).rev().step_by(sy).collect();
    let cols: Vec<usize> = (0..240).step_by(sx).collect();
    assert_eq!(sampled_rows(320, sy), rows);
    assert_eq!(sampled_columns(240, sx), cols);
}

#[test]
fn elapsed_time_accumulates() {
    assert_eq!(add_elapsed_ms(0, 100, 130), 30);
    assert_eq!(add_elapsed_ms(30, 500, 500), 30);
    assert_eq!(add_elapsed_ms(30, 7, 19), 42);
}
