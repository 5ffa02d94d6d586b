use vstd::prelude::*;

verus! {

/// The closed set of coverage-point kinds. Identifiers are scoped per
/// category: each category counts its own points from 1 upward.
#[derive(Clone, Copy, PartialEq, Eq, Structural, Debug)]
pub enum Category {
    /// A function or subroutine definition, labeled with its name.
    Function,
    /// A statement-level node, including statements nested in blocks,
    /// loop bodies and branch arms.
    Statement,
    /// A two-way or chained conditional; the point spans the tested
    /// condition, one point per conditional node, not per arm.
    Branch,
    /// A multi-arm conditional (pattern match / switch), spanning the
    /// whole construct.
    Match,
    /// A loop construct, spanning the whole loop.
    Loop,
    /// A macro invocation, in statement or expression position.
    Macro,
    /// A short-circuit `&&`/`||` expression with its two operand spans.
    BinaryConditional,
}

/// The recoverable failure of this crate: hit-marking named a point that
/// was never registered. The offending mark is rejected and nothing else
/// changes.
#[derive(Clone, Copy, PartialEq, Eq, Structural, Debug)]
pub enum CovError {
    UnknownPoint,
}

/// Which operand of a short-circuit boolean expression a child span
/// belongs to.
#[derive(Clone, Copy, PartialEq, Eq, Structural, Debug)]
pub enum ChildSlot {
    Left,
    Right,
}

} // verus!
