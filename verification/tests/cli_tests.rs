use fire_in_rust::cli::{steps_from_arg, DEFAULT_STEPS};

#[test]
fn number_argument_is_read() {
    assert_eq!(steps_from_arg(Some("250")), 250);
    assert_eq!(steps_from_arg(Some("0")), 0);
    assert_eq!(steps_from_arg(Some("+7")), 7);
    assert_eq!(steps_from_arg(Some("007")), 7);
}

#[test]
fn missing_argument_gives_default() {
    assert_eq!(steps_from_arg(None), 100);
    assert_eq!(DEFAULT_STEPS, 100);
}

#[test]
fn invalid_argument_gives_default() {
    assert_eq!(steps_from_arg(Some("")), 100);
    assert_eq!(steps_from_arg(Some("abc")), 100);
    assert_eq!(steps_from_arg(Some("-3")), 100);
    assert_eq!(steps_from_arg(Some("+")), 100);
    assert_eq!(steps_from_arg(Some(" 5")), 100);
    assert_eq!(steps_from_arg(Some("5x")), 100);
    assert_eq!(steps_from_arg(Some("1_000")), 100);
}

#[test]
fn too_large_argument_gives_default() {
    assert_eq!(steps_from_arg(Some("999999999999999999999999999999")), 100);
}
