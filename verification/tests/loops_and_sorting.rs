use rust_cov::samples::loops::{
    loop_func, sum, sum_do_while, sum_for_in, sum_for_of, sum_for_range, sum_while,
};
use rust_cov::samples::sorting::func_sort;

#[test]
fn test_sum_exact() {
    assert_eq!(sum(0), 0);
    assert_eq!(sum(-4), 0);
    assert_eq!(sum(1), 1);
    assert_eq!(sum(5), 15);
    assert_eq!(sum(100), 5050);
}

#[test]
fn test_sum_while_exact() {
    assert_eq!(sum_while(0), 0);
    assert_eq!(sum_while(-4), 0);
    assert_eq!(sum_while(5), 15);
}

#[test]
fn test_sum_do_while_exact() {
    assert_eq!(sum_do_while(5), 15);
    assert_eq!(sum_do_while(1), 1);
    // A non-positive start is added exactly once before the check.
    assert_eq!(sum_do_while(0), 0);
    assert_eq!(sum_do_while(-3), -3);
}

#[test]
fn test_sum_slices() {
    assert_eq!(sum_for_in(&[]), 0);
    assert_eq!(sum_for_in(&[1, 2, 3]), 6);
    assert_eq!(sum_for_in(&[-1, 1, -1]), -1);
    assert_eq!(sum_for_of(&[4, 4]), 8);
}

#[test]
fn test_sum_for_range_exact() {
    assert_eq!(sum_for_range(0), 0);
    assert_eq!(sum_for_range(1), 0);
    assert_eq!(sum_for_range(4), 6);
}

#[test]
fn test_loop_func_dispatch() {
    assert_eq!(loop_func("sum", 5), Some(15));
    assert_eq!(loop_func("sumWhile", 5), Some(15));
    assert_eq!(loop_func("sumDoWhile", 5), Some(15));
    assert_eq!(loop_func("sumForRange", 5), Some(10));
    assert_eq!(loop_func("nothing", 5), None);
    // The slice-summing entry points take an array, not a number: a
    // numeric dispatcher cannot route to them.
    assert_eq!(loop_func("sumForIn", 5), None);
    assert_eq!(loop_func("sumForOf", 5), None);
}

#[test]
fn test_sort_basic() {
    assert_eq!(func_sort(vec![3, 2, 1]), vec![1, 2, 3]);
}

#[test]
fn test_sort_empty() {
    assert_eq!(func_sort(vec![]), vec![]);
}

#[test]
fn test_sort_double() {
    assert_eq!(func_sort(vec![1, 2, 2, 3, 3]), vec![1, 2, 2, 3, 3]);
}

#[test]
fn test_sort_multiple() {
    assert_eq!(func_sort(vec![5, 5, 5, 8, 6, 9, 10]), vec![5, 5, 5, 6, 8, 9, 10]);
}

#[test]
fn test_sort_negatives() {
    assert_eq!(func_sort(vec![0, -3, 7, -3, 2]), vec![-3, -3, 0, 2, 7]);
}
