use rust_cov::category::{Category, ChildSlot, CovError};
use rust_cov::coverage::Coverage;
use rust_cov::report::CategoryCount;
use rust_cov::span::Span;

fn sp(a: usize, b: usize, c: usize, d: usize) -> Span {
    Span::new(a, b, c, d)
}

#[test]
fn test_ids_dense_per_category() {
    let mut cov = Coverage::new();
    assert_eq!(cov.register(Category::Statement, sp(1, 0, 1, 5), None), 1);
    assert_eq!(cov.register(Category::Statement, sp(2, 0, 2, 5), None), 2);
    // A different category counts from 1 on its own.
    assert_eq!(cov.register(Category::Branch, sp(3, 0, 3, 5), None), 1);
    assert_eq!(cov.register(Category::Statement, sp(4, 0, 4, 5), None), 3);
    assert_eq!(cov.total(Category::Statement), 3);
    assert_eq!(cov.total(Category::Branch), 1);
    assert_eq!(cov.total(Category::Function), 0);
    // Identifier order is registration order: the spans come back by id.
    assert_eq!(cov.point_span(Category::Statement, 1), Some(sp(1, 0, 1, 5)));
    assert_eq!(cov.point_span(Category::Statement, 2), Some(sp(2, 0, 2, 5)));
    assert_eq!(cov.point_span(Category::Statement, 3), Some(sp(4, 0, 4, 5)));
    assert_eq!(cov.point_span(Category::Statement, 4), None);
    assert_eq!(cov.point_span(Category::Statement, 0), None);
}

#[test]
fn test_mark_then_query() {
    let mut cov = Coverage::new();
    let id = cov.register(Category::Function, sp(1, 0, 3, 1), Some("f".to_string()));
    assert!(!cov.is_hit(Category::Function, id));
    assert_eq!(cov.mark_hit(Category::Function, id), Ok(()));
    assert!(cov.is_hit(Category::Function, id));
    // Marking twice is idempotent.
    assert_eq!(cov.mark_hit(Category::Function, id), Ok(()));
    assert!(cov.is_hit(Category::Function, id));
    assert_eq!(cov.hit_total(Category::Function), 1);
}

#[test]
fn test_never_marked_is_not_hit() {
    let mut cov = Coverage::new();
    let a = cov.register(Category::Loop, sp(1, 0, 4, 1), None);
    let b = cov.register(Category::Loop, sp(5, 0, 9, 1), None);
    assert_eq!(cov.mark_hit(Category::Loop, a), Ok(()));
    assert!(!cov.is_hit(Category::Loop, b));
    assert_eq!(cov.hit_total(Category::Loop), 1);
}

#[test]
fn test_mark_unknown_point_changes_nothing() {
    let mut cov = Coverage::new();
    let id = cov.register(Category::Statement, sp(1, 0, 1, 9), None);
    assert_eq!(cov.mark_hit(Category::Statement, id), Ok(()));
    // Unknown id in a known category, and any id in an empty category.
    assert_eq!(cov.mark_hit(Category::Statement, 2), Err(CovError::UnknownPoint));
    assert_eq!(cov.mark_hit(Category::Statement, 0), Err(CovError::UnknownPoint));
    assert_eq!(cov.mark_hit(Category::Branch, 1), Err(CovError::UnknownPoint));
    // The registry and every hit set are as before.
    assert_eq!(cov.total(Category::Statement), 1);
    assert!(cov.is_hit(Category::Statement, 1));
    assert_eq!(cov.hit_total(Category::Statement), 1);
    assert_eq!(cov.hit_total(Category::Branch), 0);
}

#[test]
fn test_percent_undefined_for_zero_discovered() {
    let row = CategoryCount { category: Category::Macro, discovered: 0, hit: 0 };
    assert_eq!(row.percent_hundredths(), None);
}

#[test]
fn test_percent_exact_values() {
    let half = CategoryCount { category: Category::Branch, discovered: 2, hit: 1 };
    assert_eq!(half.percent_hundredths(), Some(5000));
    let full = CategoryCount { category: Category::Branch, discovered: 4, hit: 4 };
    assert_eq!(full.percent_hundredths(), Some(10000));
    let none_hit = CategoryCount { category: Category::Branch, discovered: 9, hit: 0 };
    assert_eq!(none_hit.percent_hundredths(), Some(0));
    let third = CategoryCount { category: Category::Branch, discovered: 3, hit: 1 };
    assert_eq!(third.percent_hundredths(), Some(3333));
}

#[test]
fn test_percent_matches_float_formula() {
    for discovered in 1usize..40 {
        for hit in 0..=discovered {
            let row = CategoryCount { category: Category::Loop, discovered, hit };
            let hundredths = row.percent_hundredths().unwrap();
            let exact = 100.0 * (hit as f64) / (discovered as f64);
            assert!((hundredths as f64 / 100.0 - exact).abs() < 0.01);
        }
    }
}

#[test]
fn test_add_functions_count_as_discovered_and_hit() {
    let mut cov = Coverage::new();
    let f = cov.add_function(sp(1, 0, 3, 1), "f".to_string());
    let s = cov.add_statement(sp(2, 4, 2, 12));
    let b = cov.add_branch(sp(2, 7, 2, 12));
    assert_eq!((f, s, b), (1, 1, 1));
    assert!(cov.is_hit(Category::Function, 1));
    assert!(cov.is_hit(Category::Statement, 1));
    assert!(cov.is_hit(Category::Branch, 1));
    assert_eq!(cov.point_label(Category::Function, 1), Some("f".to_string()));
    assert_eq!(cov.point_label(Category::Statement, 1), None);
}

#[test]
fn test_register_child_derived_keys() {
    let mut cov = Coverage::new();
    let id = cov.register(Category::BinaryConditional, sp(4, 4, 4, 20), None);
    assert_eq!(id, 1);
    assert_eq!(cov.register_child(id, ChildSlot::Left, sp(4, 4, 4, 10)), Ok(()));
    assert_eq!(cov.register_child(id, ChildSlot::Right, sp(4, 14, 4, 20)), Ok(()));
    // Left operand of point 1 sits under key 2*1-1 = 1, right under 2.
    assert_eq!(cov.child_span(1), Some(sp(4, 4, 4, 10)));
    assert_eq!(cov.child_span(2), Some(sp(4, 14, 4, 20)));
    assert_eq!(cov.child_span(0), None);
    assert_eq!(cov.child_span(3), None);
    // The child spans consume no top-level identifier.
    assert_eq!(cov.total(Category::BinaryConditional), 1);
    assert_eq!(
        cov.register_child(2, ChildSlot::Left, sp(9, 0, 9, 1)),
        Err(CovError::UnknownPoint)
    );
}

#[test]
fn test_arm_count_keyed_by_match_id() {
    let mut cov = Coverage::new();
    let first = cov.register(Category::Match, sp(1, 0, 9, 1), None);
    let second = cov.register(Category::Match, sp(11, 0, 19, 1), None);
    // Two matches with the same number of arms do not collide: each
    // count is stored under its own point's identifier.
    assert_eq!(cov.record_arm_count(first, 4), Ok(()));
    assert_eq!(cov.record_arm_count(second, 4), Ok(()));
    assert_eq!(cov.arm_count(first), Some(4));
    assert_eq!(cov.arm_count(second), Some(4));
    assert_eq!(cov.arm_count(3), None);
    assert_eq!(cov.record_arm_count(3, 2), Err(CovError::UnknownPoint));
}

#[test]
fn test_if_extent_keyed_by_branch_id() {
    let mut cov = Coverage::new();
    let id = cov.register(Category::Branch, sp(2, 7, 2, 12), None);
    assert_eq!(cov.record_if_extent(id, sp(2, 4, 6, 5)), Ok(()));
    assert_eq!(cov.if_extent(id), Some(sp(2, 4, 6, 5)));
    assert_eq!(cov.if_extent(2), None);
    assert_eq!(cov.record_if_extent(2, sp(1, 0, 1, 1)), Err(CovError::UnknownPoint));
}

#[test]
fn test_execute_path() {
    let mut cov = Coverage::new();
    // Nothing registered: a short array is a no-op, a longer one is a
    // usage error.
    assert_eq!(cov.execute_path(&[5]), Ok(()));
    assert_eq!(cov.execute_path(&[3, 1]), Err(CovError::UnknownPoint));
    cov.add_statement(sp(1, 0, 1, 9));
    let mut cov2 = Coverage::new();
    cov2.register(Category::Statement, sp(1, 0, 1, 9), None);
    cov2.register(Category::Branch, sp(1, 3, 1, 8), None);
    assert_eq!(cov2.execute_path(&[3, 1]), Ok(()));
    assert!(cov2.is_hit(Category::Statement, 1));
    assert!(cov2.is_hit(Category::Branch, 1));
    let mut cov3 = Coverage::new();
    cov3.register(Category::Statement, sp(1, 0, 1, 9), None);
    cov3.register(Category::Branch, sp(1, 3, 1, 8), None);
    assert_eq!(cov3.execute_path(&[7]), Ok(()));
    assert!(!cov3.is_hit(Category::Statement, 1));
}

#[test]
fn test_report_rows_and_mark_all() {
    let mut cov = Coverage::new();
    cov.register(Category::Function, sp(1, 0, 9, 1), Some("f".to_string()));
    cov.register(Category::Statement, sp(2, 0, 2, 9), None);
    cov.register(Category::Statement, sp(3, 0, 3, 9), None);
    let before = cov.report();
    assert_eq!(before.rows.len(), 7);
    assert_eq!(before.rows[0].category, Category::Function);
    assert_eq!(before.rows[1].category, Category::Statement);
    assert_eq!((before.rows[0].discovered, before.rows[0].hit), (1, 0));
    assert_eq!((before.rows[1].discovered, before.rows[1].hit), (2, 0));
    // A category that discovered nothing reports an undefined
    // percentage, not 0 and not 100.
    assert_eq!(before.rows[6].percent_hundredths(), None);
    cov.mark_all_hit();
    let after = cov.report();
    assert_eq!((after.rows[0].discovered, after.rows[0].hit), (1, 1));
    assert_eq!((after.rows[1].discovered, after.rows[1].hit), (2, 2));
    assert_eq!(after.rows[0].percent_hundredths(), Some(10000));
    assert_eq!(after.rows[1].percent_hundredths(), Some(10000));
    assert_eq!(after.rows[6].percent_hundredths(), None);
}

#[test]
fn test_span_text_format() {
    assert_eq!(sp(2, 7, 2, 12).text(), "2:7-2:12");
    assert_eq!(sp(123, 0, 4567, 89).text(), "123:0-4567:89");
    assert_eq!(sp(0, 0, 0, 0).text(), "0:0-0:0");
    assert_eq!(sp(10, 100, 1000, 10000).text(), "10:100-1000:10000");
}

#[test]
fn test_merge_reports_by_summation() {
    let mut cov1 = Coverage::new();
    cov1.register(Category::Function, sp(1, 0, 3, 1), None);
    cov1.add_statement(sp(2, 4, 2, 9));
    let mut cov2 = Coverage::new();
    cov2.add_statement(sp(1, 0, 1, 7));
    cov2.add_statement(sp(2, 0, 2, 7));
    let merged = cov1.report().merge(&cov2.report());
    assert_eq!(merged.rows.len(), 7);
    assert_eq!(merged.rows[0].category, Category::Function);
    assert_eq!((merged.rows[0].discovered, merged.rows[0].hit), (1, 0));
    assert_eq!(merged.rows[1].category, Category::Statement);
    assert_eq!((merged.rows[1].discovered, merged.rows[1].hit), (3, 3));
    assert_eq!(merged.rows[2].discovered, 0);
}
