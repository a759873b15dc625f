use fire_in_rust::solver::{JacobiSchedule, MAX_JACOBI_SWEEPS};

#[test]
fn stops_at_first_converged_sweep() {
    let mut s = JacobiSchedule::new();
    assert!(s.wants_sweep());
    assert!(s.record_sweep(false));
    assert!(s.record_sweep(false));
    assert!(!s.record_sweep(true));
    assert!(!s.wants_sweep());
    assert_eq!(s.sweeps(), 3);
}

#[test]
fn stops_after_budget() {
    let mut s = JacobiSchedule::new();
    let mut n = 0u32;
    while s.wants_sweep() {
        s.record_sweep(false);
        n += 1;
    }
    assert_eq!(n, MAX_JACOBI_SWEEPS);
    assert_eq!(n, 5000);
    assert_eq!(s.sweeps(), 5000);
}

#[test]
fn converged_first_sweep_is_the_only_one() {
    let mut s = JacobiSchedule::new();
    assert!(!s.record_sweep(true));
    assert_eq!(s.sweeps(), 1);
}
