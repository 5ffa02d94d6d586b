use rust_cov::category::Category;
use rust_cov::coverage::Coverage;
use rust_cov::span::Span;
use rust_cov::tree::{list_is_wf, node_is_wf, LoopKind, Node};
use rust_cov::walker::walk_file;

fn sp(a: usize, b: usize, c: usize, d: usize) -> Span {
    Span::new(a, b, c, d)
}

fn stmt(line: usize) -> Node {
    Node::Statement { span: sp(line, 8, line, 20), children: vec![] }
}

/// A function whose body is a single two-way conditional, one statement
/// in each arm.
fn one_conditional_function() -> Vec<Node> {
    let inner_if = Node::If {
        span: sp(2, 4, 6, 5),
        cond_span: sp(2, 7, 2, 12),
        cond: vec![],
        then_branch: vec![stmt(3)],
        else_branch: Some(vec![stmt(5)]),
    };
    let body_stmt = Node::Statement { span: sp(2, 4, 6, 5), children: vec![inner_if] };
    vec![Node::Function {
        span: sp(1, 0, 7, 1),
        name: "choose_one".to_string(),
        body: vec![body_stmt],
    }]
}

#[test]
fn test_scenario_single_conditional() {
    let cov = walk_file(&one_conditional_function());
    assert_eq!(cov.total(Category::Function), 1);
    // The if-statement itself, plus one statement in each arm.
    assert_eq!(cov.total(Category::Statement), 3);
    // The conditional node is exactly one Branch point, not one per arm.
    assert_eq!(cov.total(Category::Branch), 1);
    assert_eq!(cov.point_label(Category::Function, 1), Some("choose_one".to_string()));
    assert_eq!(cov.point_span(Category::Branch, 1), Some(sp(2, 7, 2, 12)));
    // The full extent of the if sits in the extent table under the same
    // identifier as the Branch point.
    assert_eq!(cov.if_extent(1), Some(sp(2, 4, 6, 5)));
}

#[test]
fn test_scenario_binary_conditional_is_shallow() {
    // `x < 0 && x < 0`: one point with two child spans, and no
    // Branch/Statement points from descending into the operands.
    let expr = Node::BinaryCond {
        span: sp(4, 4, 4, 20),
        left: sp(4, 4, 4, 10),
        right: sp(4, 14, 4, 20),
    };
    let cov = walk_file(&vec![expr]);
    assert_eq!(cov.total(Category::BinaryConditional), 1);
    assert_eq!(cov.total(Category::Branch), 0);
    assert_eq!(cov.total(Category::Statement), 0);
    assert_eq!(cov.child_span(1), Some(sp(4, 4, 4, 10)));
    assert_eq!(cov.child_span(2), Some(sp(4, 14, 4, 20)));
}

#[test]
fn test_scenario_chained_conditional_two_branches() {
    // if / else if / else: two Branch points, not three.
    let chained = Node::If {
        span: sp(1, 0, 9, 1),
        cond_span: sp(1, 3, 1, 8),
        cond: vec![],
        then_branch: vec![stmt(2)],
        else_branch: Some(vec![Node::If {
            span: sp(3, 7, 9, 1),
            cond_span: sp(3, 10, 3, 15),
            cond: vec![],
            then_branch: vec![stmt(4)],
            else_branch: Some(vec![stmt(6)]),
        }]),
    };
    let cov = walk_file(&vec![chained]);
    assert_eq!(cov.total(Category::Branch), 2);
    assert_eq!(cov.point_span(Category::Branch, 1), Some(sp(1, 3, 1, 8)));
    assert_eq!(cov.point_span(Category::Branch, 2), Some(sp(3, 10, 3, 15)));
    assert_eq!(cov.if_extent(1), Some(sp(1, 0, 9, 1)));
    assert_eq!(cov.if_extent(2), Some(sp(3, 7, 9, 1)));
}

#[test]
fn test_scenario_match_with_four_arms() {
    // A multi-arm match over a two-line scrutinee: one Match point with
    // arm count 4 recorded, retrievable through the point's identifier.
    let m = Node::Match {
        span: sp(1, 0, 8, 1),
        arm_count: 4,
        scrutinee: vec![Node::Statement { span: sp(1, 6, 2, 10), children: vec![] }],
        arms: vec![stmt(3), stmt(4), stmt(5), stmt(6)],
    };
    let cov = walk_file(&vec![m]);
    assert_eq!(cov.total(Category::Match), 1);
    assert_eq!(cov.arm_count(1), Some(4));
    assert_eq!(cov.point_span(Category::Match, 1), Some(sp(1, 0, 8, 1)));
}

#[test]
fn test_walk_twice_identical_reports() {
    let cov1 = walk_file(&one_conditional_function());
    let cov2 = walk_file(&one_conditional_function());
    assert_eq!(cov1.report(), cov2.report());
    for c in [
        Category::Function,
        Category::Statement,
        Category::Branch,
        Category::Match,
        Category::Loop,
        Category::Macro,
        Category::BinaryConditional,
    ] {
        assert_eq!(cov1.total(c), cov2.total(c));
        for id in 1..=cov1.total(c) {
            assert_eq!(cov1.point_span(c, id), cov2.point_span(c, id));
            assert_eq!(cov1.point_label(c, id), cov2.point_label(c, id));
        }
    }
}

#[test]
fn test_walk_discovers_without_exercising() {
    let cov = walk_file(&one_conditional_function());
    for c in [Category::Function, Category::Statement, Category::Branch] {
        for id in 1..=cov.total(c) {
            assert!(!cov.is_hit(c, id));
        }
        assert_eq!(cov.hit_total(c), 0);
    }
    let report = cov.report();
    assert_eq!(report.rows[0].percent_hundredths(), Some(0));
}

#[test]
fn test_walk_then_mark_all_reports_full_coverage() {
    let mut cov = walk_file(&one_conditional_function());
    cov.mark_all_hit();
    let report = cov.report();
    for row in &report.rows {
        if row.discovered > 0 {
            assert_eq!(row.percent_hundredths(), Some(10000));
        } else {
            assert_eq!(row.percent_hundredths(), None);
        }
    }
}

#[test]
fn test_preorder_sibling_order() {
    // Two functions: points are assigned left to right, parents before
    // their children.
    let tree = vec![
        Node::Function {
            span: sp(1, 0, 3, 1),
            name: "first".to_string(),
            body: vec![stmt(2)],
        },
        Node::Function {
            span: sp(5, 0, 7, 1),
            name: "second".to_string(),
            body: vec![stmt(6)],
        },
    ];
    let cov = walk_file(&tree);
    assert_eq!(cov.total(Category::Function), 2);
    assert_eq!(cov.point_label(Category::Function, 1), Some("first".to_string()));
    assert_eq!(cov.point_label(Category::Function, 2), Some("second".to_string()));
    assert_eq!(cov.point_span(Category::Statement, 1), Some(sp(2, 8, 2, 20)));
    assert_eq!(cov.point_span(Category::Statement, 2), Some(sp(6, 8, 6, 20)));
}

#[test]
fn test_loops_and_macros() {
    let tree = vec![
        Node::Loop { kind: LoopKind::Counted, span: sp(1, 0, 3, 1), body: vec![stmt(2)] },
        Node::Loop { kind: LoopKind::Conditioned, span: sp(4, 0, 6, 1), body: vec![stmt(5)] },
        Node::Loop { kind: LoopKind::PostChecked, span: sp(7, 0, 9, 1), body: vec![stmt(8)] },
        Node::MacroCall { span: sp(10, 0, 10, 18) },
        Node::MacroCall { span: sp(11, 4, 11, 22) },
    ];
    let cov = walk_file(&tree);
    assert_eq!(cov.total(Category::Loop), 3);
    assert_eq!(cov.total(Category::Macro), 2);
    assert_eq!(cov.total(Category::Statement), 3);
    assert_eq!(cov.point_span(Category::Macro, 2), Some(sp(11, 4, 11, 22)));
}

#[test]
fn test_unrecognized_nodes_are_skipped_but_walked_through() {
    let tree = vec![Node::Other { children: vec![stmt(1), stmt(2)] }];
    let cov = walk_file(&tree);
    assert_eq!(cov.total(Category::Statement), 2);
    let report = cov.report();
    let total: usize = report.rows.iter().map(|r| r.discovered).sum();
    assert_eq!(total, 2);
}

#[test]
fn test_empty_tree_reports_all_undefined() {
    let cov = walk_file(&vec![]);
    let report = cov.report();
    for row in &report.rows {
        assert_eq!(row.discovered, 0);
        assert_eq!(row.hit, 0);
        assert_eq!(row.percent_hundredths(), None);
    }
}

#[test]
fn test_wf_check_rejects_backwards_span() {
    let good = Node::MacroCall { span: sp(3, 0, 3, 10) };
    let bad = Node::MacroCall { span: sp(3, 10, 3, 0) };
    assert!(node_is_wf(&good));
    assert!(!node_is_wf(&bad));
    assert!(list_is_wf(&vec![]));
    let nested_bad = Node::Function {
        span: sp(1, 0, 5, 1),
        name: "broken".to_string(),
        body: vec![Node::Statement { span: sp(4, 9, 2, 0), children: vec![] }],
    };
    assert!(!list_is_wf(&vec![nested_bad]));
}
