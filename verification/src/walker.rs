use vstd::prelude::*;

use crate::category::{Category, ChildSlot};
use crate::coverage::{lemma_reg_preserves_hits, Coverage, CoverageView, PointV};
use crate::report::spec_row;
use crate::tree::{list_wf, node_wf, Node};

verus! {

/// What walking one node does to the registry: the node's own
/// registration, then its children in source order. This is the whole
/// policy of the walk; the executable walker is proved to produce
/// exactly this, so the registry contents are a function of the tree
/// alone.
pub open spec fn walk_node_spec(v: CoverageView, n: Node) -> CoverageView
    decreases n,
{
    match n {
        Node::Function { span, name, body } => walk_list_spec(
            v.reg(Category::Function, span, Some(name@)),
            body@,
        ),
        Node::Statement { span, children } => walk_list_spec(
            v.reg(Category::Statement, span, None),
            children@,
        ),
        Node::If { span, cond_span, cond, then_branch, else_branch } => {
            let id = (v.discovered(Category::Branch) + 1) as int;
            let v1 = v.reg(Category::Branch, cond_span, None).set_extent(id, span);
            let v2 = walk_list_spec(v1, cond@);
            let v3 = walk_list_spec(v2, then_branch@);
            match else_branch {
                Some(l) => walk_list_spec(v3, l@),
                None => v3,
            }
        },
        Node::Match { span, arm_count, scrutinee, arms } => {
            let id = (v.discovered(Category::Match) + 1) as int;
            let v1 = v.reg(Category::Match, span, None).set_arm_count(id, arm_count);
            walk_list_spec(walk_list_spec(v1, scrutinee@), arms@)
        },
        Node::Loop { kind, span, body } => walk_list_spec(v.reg(Category::Loop, span, None), body@),
        Node::MacroCall { span } => v.reg(Category::Macro, span, None),
        Node::BinaryCond { span, left, right } => {
            let id = (v.discovered(Category::BinaryConditional) + 1) as int;
            v.reg(Category::BinaryConditional, span, None).set_operand(
                id,
                ChildSlot::Left,
                left,
            ).set_operand(id, ChildSlot::Right, right)
        },
        Node::Other { children } => walk_list_spec(v, children@),
    }
}

/// Walking a list of sibling nodes left to right.
pub open spec fn walk_list_spec(v: CoverageView, l: Seq<Node>) -> CoverageView
    decreases l,
{
    if l.len() == 0 {
        v
    } else {
        walk_list_spec(walk_node_spec(v, l[0]), l.subrange(1, l.len() as int))
    }
}

/// Walk one node in deterministic pre-order: the node's point is
/// registered before any of its descendants, and siblings are walked
/// left to right. Malformed spans are the upstream parser's fault and
/// are excluded by the precondition; on every well-formed tree the walk
/// succeeds and never fails on any node shape.
pub fn walk_node(cov: &mut Coverage, n: &Node)
    requires
        node_wf(*n),
    ensures
        final(cov)@ == walk_node_spec(old(cov)@, *n),
    decreases *n,
{
    match n {
        Node::Function { span, name, body } => {
            let _ = cov.register(Category::Function, *span, Some(name.clone()));
            walk_list(cov, body);
        },
        Node::Statement { span, children } => {
            let _ = cov.register(Category::Statement, *span, None);
            walk_list(cov, children);
        },
        Node::If { span, cond_span, cond, then_branch, else_branch } => {
            let id = cov.register(Category::Branch, *cond_span, None);
            let _ = cov.record_if_extent(id, *span);
            walk_list(cov, cond);
            walk_list(cov, then_branch);
            match else_branch {
                Some(l) => walk_list(cov, l),
                None => {},
            }
        },
        Node::Match { span, arm_count, scrutinee, arms } => {
            let id = cov.register(Category::Match, *span, None);
            let _ = cov.record_arm_count(id, *arm_count);
            walk_list(cov, scrutinee);
            walk_list(cov, arms);
        },
        Node::Loop { kind, span, body } => {
            let _ = cov.register(Category::Loop, *span, None);
            walk_list(cov, body);
        },
        Node::MacroCall { span } => {
            let _ = cov.register(Category::Macro, *span, None);
        },
        Node::BinaryCond { span, left, right } => {
            let id = cov.register(Category::BinaryConditional, *span, None);
            let _ = cov.register_child(id, ChildSlot::Left, *left);
            let _ = cov.register_child(id, ChildSlot::Right, *right);
        },
        Node::Other { children } => {
            walk_list(cov, children);
        },
    }
}

/// Walk sibling nodes left to right.
pub fn walk_list(cov: &mut Coverage, l: &Vec<Node>)
    requires
        list_wf(l@),
    ensures
        final(cov)@ == walk_list_spec(old(cov)@, l@),
    decreases l@,
{
    let ghost v0 = cov@;
    proof {
        assert(l@.subrange(0, l@.len() as int) =~= l@);
    }
    let mut i: usize = 0;
    while i < l.len()
        invariant
            list_wf(l@),
            i <= l@.len(),
            walk_list_spec(cov@, l@.subrange(i as int, l@.len() as int)) == walk_list_spec(
                v0,
                l@,
            ),
        decreases l@.len() - i,
    {
        let ghost rest = l@.subrange(i as int, l@.len() as int);
        walk_node(cov, &l[i]);
        proof {
            assert(rest[0] == l@[i as int]);
            assert(rest.subrange(1, rest.len() as int) =~= l@.subrange(
                i + 1,
                l@.len() as int,
            ));
        }
        i = i + 1;
    }
    proof {
        assert(l@.subrange(l@.len() as int, l@.len() as int) =~= Seq::<Node>::empty());
    }
}

/// `b` keeps every point of `a` in place: everything `a` registered,
/// `b` still holds unchanged under the same identifier.
pub open spec fn extends(a: Seq<PointV>, b: Seq<PointV>) -> bool {
    a.len() <= b.len() && forall|j: int| 0 <= j < a.len() ==> a[j] == b[j]
}

/// Walking only appends. Every identifier assigned before some part of
/// the walk still names the very same point afterwards: identifiers are
/// stable for the run and never recycled, and together with the dense
/// 1-based assignment this pins them to exactly
/// `1..=discovered_count`, in visitation order.
pub proof fn lemma_walk_node_extends(v: CoverageView, n: Node, c: Category)
    ensures
        extends(v.points(c), walk_node_spec(v, n).points(c)),
    decreases n,
{
    match n {
        Node::Function { span, name, body } => {
            lemma_walk_list_extends(v.reg(Category::Function, span, Some(name@)), body@, c);
        },
        Node::Statement { span, children } => {
            lemma_walk_list_extends(v.reg(Category::Statement, span, None), children@, c);
        },
        Node::If { span, cond_span, cond, then_branch, else_branch } => {
            let id = (v.discovered(Category::Branch) + 1) as int;
            let v1 = v.reg(Category::Branch, cond_span, None).set_extent(id, span);
            let v2 = walk_list_spec(v1, cond@);
            let v3 = walk_list_spec(v2, then_branch@);
            lemma_walk_list_extends(v1, cond@, c);
            lemma_walk_list_extends(v2, then_branch@, c);
            match else_branch {
                Some(l) => {
                    lemma_walk_list_extends(v3, l@, c);
                },
                None => {},
            }
        },
        Node::Match { span, arm_count, scrutinee, arms } => {
            let id = (v.discovered(Category::Match) + 1) as int;
            let v1 = v.reg(Category::Match, span, None).set_arm_count(id, arm_count);
            let v2 = walk_list_spec(v1, scrutinee@);
            lemma_walk_list_extends(v1, scrutinee@, c);
            lemma_walk_list_extends(v2, arms@, c);
        },
        Node::Loop { kind, span, body } => {
            lemma_walk_list_extends(v.reg(Category::Loop, span, None), body@, c);
        },
        Node::MacroCall { span } => {},
        Node::BinaryCond { span, left, right } => {},
        Node::Other { children } => {
            lemma_walk_list_extends(v, children@, c);
        },
    }
}

pub proof fn lemma_walk_list_extends(v: CoverageView, l: Seq<Node>, c: Category)
    ensures
        extends(v.points(c), walk_list_spec(v, l).points(c)),
    decreases l,
{
    if l.len() > 0 {
        lemma_walk_node_extends(v, l[0], c);
        lemma_walk_list_extends(walk_node_spec(v, l[0]), l.subrange(1, l.len() as int), c);
    }
}

/// Discovery is not exercise: a walk changes no hit state at all. A
/// point that reported hit before reports hit after, and everything
/// the walk registers starts unhit.
pub proof fn lemma_walk_node_preserves_hits(v: CoverageView, n: Node, c: Category, id: int)
    ensures
        walk_node_spec(v, n).is_hit(c, id) == v.is_hit(c, id),
    decreases n,
{
    match n {
        Node::Function { span, name, body } => {
            let v1 = v.reg(Category::Function, span, Some(name@));
            lemma_reg_preserves_hits(v, Category::Function, span, Some(name@), c, id);
            lemma_walk_list_preserves_hits(v1, body@, c, id);
        },
        Node::Statement { span, children } => {
            let v1 = v.reg(Category::Statement, span, None);
            lemma_reg_preserves_hits(v, Category::Statement, span, None, c, id);
            lemma_walk_list_preserves_hits(v1, children@, c, id);
        },
        Node::If { span, cond_span, cond, then_branch, else_branch } => {
            let bid = (v.discovered(Category::Branch) + 1) as int;
            let v1 = v.reg(Category::Branch, cond_span, None).set_extent(bid, span);
            let v2 = walk_list_spec(v1, cond@);
            let v3 = walk_list_spec(v2, then_branch@);
            lemma_reg_preserves_hits(v, Category::Branch, cond_span, None, c, id);
            lemma_walk_list_preserves_hits(v1, cond@, c, id);
            lemma_walk_list_preserves_hits(v2, then_branch@, c, id);
            match else_branch {
                Some(l) => {
                    lemma_walk_list_preserves_hits(v3, l@, c, id);
                },
                None => {},
            }
        },
        Node::Match { span, arm_count, scrutinee, arms } => {
            let mid = (v.discovered(Category::Match) + 1) as int;
            let v1 = v.reg(Category::Match, span, None).set_arm_count(mid, arm_count);
            let v2 = walk_list_spec(v1, scrutinee@);
            lemma_reg_preserves_hits(v, Category::Match, span, None, c, id);
            lemma_walk_list_preserves_hits(v1, scrutinee@, c, id);
            lemma_walk_list_preserves_hits(v2, arms@, c, id);
        },
        Node::Loop { kind, span, body } => {
            let v1 = v.reg(Category::Loop, span, None);
            lemma_reg_preserves_hits(v, Category::Loop, span, None, c, id);
            lemma_walk_list_preserves_hits(v1, body@, c, id);
        },
        Node::MacroCall { span } => {
            lemma_reg_preserves_hits(v, Category::Macro, span, None, c, id);
        },
        Node::BinaryCond { span, left, right } => {
            lemma_reg_preserves_hits(v, Category::BinaryConditional, span, None, c, id);
        },
        Node::Other { children } => {
            lemma_walk_list_preserves_hits(v, children@, c, id);
        },
    }
}

pub proof fn lemma_walk_list_preserves_hits(v: CoverageView, l: Seq<Node>, c: Category, id: int)
    ensures
        walk_list_spec(v, l).is_hit(c, id) == v.is_hit(c, id),
    decreases l,
{
    if l.len() > 0 {
        lemma_walk_node_preserves_hits(v, l[0], c, id);
        lemma_walk_list_preserves_hits(walk_node_spec(v, l[0]), l.subrange(1, l.len() as int), c, id);
    }
}

/// How many points of category `c` the node and its descendants
/// contribute: one for the node's own kind, plus its children —
/// except that a short-circuit pair contributes nothing below itself,
/// since the walk does not descend into its operands.
pub open spec fn count_points(n: Node, c: Category) -> nat
    decreases n,
{
    match n {
        Node::Function { span, name, body } => (if c == Category::Function {
            1nat
        } else {
            0nat
        }) + count_list(body@, c),
        Node::Statement { span, children } => (if c == Category::Statement {
            1nat
        } else {
            0nat
        }) + count_list(children@, c),
        Node::If { span, cond_span, cond, then_branch, else_branch } => (if c == Category::Branch {
            1nat
        } else {
            0nat
        }) + count_list(cond@, c) + count_list(then_branch@, c) + (match else_branch {
            Some(l) => count_list(l@, c),
            None => 0nat,
        }),
        Node::Match { span, arm_count, scrutinee, arms } => (if c == Category::Match {
            1nat
        } else {
            0nat
        }) + count_list(scrutinee@, c) + count_list(arms@, c),
        Node::Loop { kind, span, body } => (if c == Category::Loop {
            1nat
        } else {
            0nat
        }) + count_list(body@, c),
        Node::MacroCall { span } => if c == Category::Macro {
            1nat
        } else {
            0nat
        },
        Node::BinaryCond { span, left, right } => if c == Category::BinaryConditional {
            1nat
        } else {
            0nat
        },
        Node::Other { children } => count_list(children@, c),
    }
}

pub open spec fn count_list(l: Seq<Node>, c: Category) -> nat
    decreases l,
{
    if l.len() == 0 {
        0
    } else {
        count_points(l[0], c) + count_list(l.subrange(1, l.len() as int), c)
    }
}

/// What a walk discovers is determined by the tree's shape: for every
/// category, the discovered count grows by exactly the number of nodes
/// of that kind in the subtree walked.
pub proof fn lemma_walk_node_count(v: CoverageView, n: Node, c: Category)
    ensures
        walk_node_spec(v, n).discovered(c) == v.discovered(c) + count_points(n, c),
    decreases n,
{
    match n {
        Node::Function { span, name, body } => {
            lemma_walk_list_count(v.reg(Category::Function, span, Some(name@)), body@, c);
        },
        Node::Statement { span, children } => {
            lemma_walk_list_count(v.reg(Category::Statement, span, None), children@, c);
        },
        Node::If { span, cond_span, cond, then_branch, else_branch } => {
            let id = (v.discovered(Category::Branch) + 1) as int;
            let v1 = v.reg(Category::Branch, cond_span, None).set_extent(id, span);
            let v2 = walk_list_spec(v1, cond@);
            let v3 = walk_list_spec(v2, then_branch@);
            lemma_walk_list_count(v1, cond@, c);
            lemma_walk_list_count(v2, then_branch@, c);
            match else_branch {
                Some(l) => {
                    lemma_walk_list_count(v3, l@, c);
                },
                None => {},
            }
        },
        Node::Match { span, arm_count, scrutinee, arms } => {
            let id = (v.discovered(Category::Match) + 1) as int;
            let v1 = v.reg(Category::Match, span, None).set_arm_count(id, arm_count);
            let v2 = walk_list_spec(v1, scrutinee@);
            lemma_walk_list_count(v1, scrutinee@, c);
            lemma_walk_list_count(v2, arms@, c);
        },
        Node::Loop { kind, span, body } => {
            lemma_walk_list_count(v.reg(Category::Loop, span, None), body@, c);
        },
        Node::MacroCall { span } => {},
        Node::BinaryCond { span, left, right } => {},
        Node::Other { children } => {
            lemma_walk_list_count(v, children@, c);
        },
    }
}

pub proof fn lemma_walk_list_count(v: CoverageView, l: Seq<Node>, c: Category)
    ensures
        walk_list_spec(v, l).discovered(c) == v.discovered(c) + count_list(l, c),
    decreases l,
{
    if l.len() > 0 {
        lemma_walk_node_count(v, l[0], c);
        lemma_walk_list_count(walk_node_spec(v, l[0]), l.subrange(1, l.len() as int), c);
    }
}

/// After a walk over a fresh registry no point whatsoever is hit: the
/// walk discovers, something else must exercise.
pub proof fn lemma_fresh_walk_unhit(items: Seq<Node>, c: Category, id: int)
    ensures
        !walk_list_spec(CoverageView::empty(), items).is_hit(c, id),
{
    lemma_walk_list_preserves_hits(CoverageView::empty(), items, c, id);
}

/// Walking the same tree twice, each time over a fresh registry, yields
/// the same registry contents and therefore identical reports: the walk
/// depends on the tree alone.
pub proof fn lemma_walk_deterministic(items: Seq<Node>, v1: CoverageView, v2: CoverageView)
    requires
        v1 == walk_list_spec(CoverageView::empty(), items),
        v2 == walk_list_spec(CoverageView::empty(), items),
    ensures
        v1 == v2,
        forall|c: Category| spec_row(v1, c) == spec_row(v2, c),
{
}

/// One full analysis run: walk a file's top-level nodes in source order
/// over a fresh registry. The result is pinned to the tree alone, so
/// two runs over the same tree cannot differ.
pub fn walk_file(items: &Vec<Node>) -> (cov: Coverage)
    requires
        list_wf(items@),
    ensures
        cov@ == walk_list_spec(CoverageView::empty(), items@),
{
    let mut cov = Coverage::new();
    walk_list(&mut cov, items);
    cov
}

} // verus!
