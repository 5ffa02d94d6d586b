use vstd::prelude::*;

use crate::span::Span;

verus! {

/// The three loop shapes the node vocabulary distinguishes. All of them
/// register one Loop point; the kind is carried for the report reader.
#[derive(Clone, Copy, PartialEq, Eq, Structural, Debug)]
pub enum LoopKind {
    /// A counted loop (`for`).
    Counted,
    /// A loop whose condition is checked before each pass (`while`).
    Conditioned,
    /// A loop whose exit is checked after each pass (do-while style).
    PostChecked,
}

/// A syntax-tree node, in the fixed vocabulary the walker classifies.
/// The external parser (or a test) builds this tree; every node carries
/// the source span the parser reported for it. A construct the
/// vocabulary does not recognize appears as `Other`, which registers
/// nothing itself but is still walked through.
pub enum Node {
    /// A function or subroutine definition: its full span (signature
    /// through body), its name, and the statement-level nodes of its
    /// body in source order.
    Function { span: Span, name: String, body: Vec<Node> },
    /// A statement; `children` holds the nodes of its sub-expressions
    /// and sub-statements in source order.
    Statement { span: Span, children: Vec<Node> },
    /// A two-way conditional: the span of the whole construct, the span
    /// of the tested condition, the nodes inside the condition, the
    /// nodes of the true branch, and the false branch if there is one.
    /// A chained `else if` appears as a false branch holding another
    /// `If` node.
    If {
        span: Span,
        cond_span: Span,
        cond: Vec<Node>,
        then_branch: Vec<Node>,
        else_branch: Option<Vec<Node>>,
    },
    /// A multi-arm conditional: the span of the whole construct, its
    /// number of arms, the nodes inside the scrutinee expression, and
    /// the nodes of the arms in source order.
    Match { span: Span, arm_count: usize, scrutinee: Vec<Node>, arms: Vec<Node> },
    /// A loop construct: the span of the whole loop and its body.
    Loop { kind: LoopKind, span: Span, body: Vec<Node> },
    /// A macro invocation, in statement or expression position.
    MacroCall { span: Span },
    /// A short-circuit boolean expression (`&&` or `||`): its own span
    /// and the spans of its two operands. The walker records the
    /// operand spans but does not descend into the operands.
    BinaryCond { span: Span, left: Span, right: Span },
    /// An unrecognized construct: skipped silently, children walked.
    Other { children: Vec<Node> },
}

/// A well-formed node: every span it carries is non-degenerate, all the
/// way down. A tree that fails this is a malformed output of the
/// upstream parser and is not walked.
pub open spec fn node_wf(n: Node) -> bool
    decreases n,
{
    match n {
        Node::Function { span, name, body } => span.wf() && list_wf(body@),
        Node::Statement { span, children } => span.wf() && list_wf(children@),
        Node::If { span, cond_span, cond, then_branch, else_branch } => {
            span.wf() && cond_span.wf() && list_wf(cond@) && list_wf(then_branch@) && (match else_branch {
                Some(l) => list_wf(l@),
                None => true,
            })
        },
        Node::Match { span, arm_count, scrutinee, arms } => {
            span.wf() && list_wf(scrutinee@) && list_wf(arms@)
        },
        Node::Loop { kind, span, body } => span.wf() && list_wf(body@),
        Node::MacroCall { span } => span.wf(),
        Node::BinaryCond { span, left, right } => span.wf() && left.wf() && right.wf(),
        Node::Other { children } => list_wf(children@),
    }
}

pub open spec fn list_wf(l: Seq<Node>) -> bool
    decreases l,
{
    forall|i: int| 0 <= i < l.len() ==> node_wf(#[trigger] l[i])
}

/// Decide `node_wf` at run time, for trees of unknown provenance.
pub fn node_is_wf(n: &Node) -> (b: bool)
    ensures
        b == node_wf(*n),
    decreases *n,
{
    match n {
        Node::Function { span, name, body } => span.is_wf() && list_is_wf(body),
        Node::Statement { span, children } => span.is_wf() && list_is_wf(children),
        Node::If { span, cond_span, cond, then_branch, else_branch } => {
            span.is_wf() && cond_span.is_wf() && list_is_wf(cond) && list_is_wf(then_branch) && (
            match else_branch {
                Some(l) => list_is_wf(l),
                None => true,
            })
        },
        Node::Match { span, arm_count, scrutinee, arms } => {
            span.is_wf() && list_is_wf(scrutinee) && list_is_wf(arms)
        },
        Node::Loop { kind, span, body } => span.is_wf() && list_is_wf(body),
        Node::MacroCall { span } => span.is_wf(),
        Node::BinaryCond { span, left, right } => span.is_wf() && left.is_wf() && right.is_wf(),
        Node::Other { children } => list_is_wf(children),
    }
}

/// Decide `list_wf` at run time.
pub fn list_is_wf(l: &Vec<Node>) -> (b: bool)
    ensures
        b == list_wf(l@),
    decreases l@,
{
    let mut i: usize = 0;
    while i < l.len()
        invariant
            i <= l@.len(),
            forall|j: int| 0 <= j < i ==> node_wf(#[trigger] l@[j]),
        decreases l@.len() - i,
    {
        if !node_is_wf(&l[i]) {
            return false;
        }
        i = i + 1;
    }
    true
}

} // verus!
