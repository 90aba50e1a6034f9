use abagames_util::slice::{fan_indices, fan_indices_with, loop_indices, loop_indices_with};

#[test]
fn test_loop_indices_closes_the_loop() {
    assert_eq!(loop_indices(4), vec![0, 1, 2, 3, 0]);
    assert_eq!(loop_indices(1), vec![0, 0]);
    assert_eq!(loop_indices(0), vec![0]);
}

#[test]
fn test_loop_indices_with_closes_the_loop() {
    assert_eq!(loop_indices_with(&[5, 6, 7]), vec![5, 6, 7, 5]);
    assert_eq!(loop_indices_with(&[9]), vec![9, 9]);
}

#[test]
fn test_fan_indices_triangulates() {
    assert_eq!(fan_indices(5), vec![0, 1, 2, 0, 2, 3, 0, 3, 4]);
    assert_eq!(fan_indices(3), vec![0, 1, 2]);
    assert_eq!(fan_indices(2), Vec::<u16>::new());
    assert_eq!(fan_indices(1), Vec::<u16>::new());
}

#[test]
fn test_fan_indices_with_triangulates() {
    assert_eq!(fan_indices_with(&[10, 11, 12, 13]), vec![10, 11, 12, 10, 12, 13]);
    assert_eq!(fan_indices_with(&[4, 5, 6]), vec![4, 5, 6]);
    assert_eq!(fan_indices_with(&[8]), Vec::<u16>::new());
}
