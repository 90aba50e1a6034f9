use abagames_util::math::{between, wrap_dec, wrap_dec_by, wrap_inc, wrap_inc_by};

#[test]
fn test_wrap_inc() {
    assert_eq!(wrap_inc(1, 2), 0);
    assert_eq!(wrap_inc(1, 3), 2);
    assert_eq!(wrap_inc(0, 3), 1);
}

#[test]
fn test_wrap_inc_by() {
    assert_eq!(wrap_inc_by(1, 2, 2), 1);
    assert_eq!(wrap_inc_by(1, 3, 2), 0);
    assert_eq!(wrap_inc_by(1, 4, 2), 3);
}

#[test]
fn test_wrap_dec() {
    assert_eq!(wrap_dec(1, 2), 0);
    assert_eq!(wrap_dec(1, 3), 0);
    assert_eq!(wrap_dec(0, 3), 2);
}

#[test]
fn test_wrap_dec_by() {
    assert_eq!(wrap_dec_by(1, 2, 2), 1);
    assert_eq!(wrap_dec_by(1, 3, 2), 2);
    assert_eq!(wrap_dec_by(1, 4, 2), 3);
}

#[test]
fn test_between() {
    assert!(between(1, 2, 3));
    assert!(between(2, 2, 2));
    assert!(!between(3, 2, 3));
    assert!(!between(1, 4, 3));
}
