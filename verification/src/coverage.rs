use vstd::prelude::*;

use crate::category::{Category, ChildSlot, CovError};
use crate::span::Span;

verus! {

/// One registered coverage point. Every point has a span; the remaining
/// fields are the optional per-category payload: a label (a function's
/// name), the two operand spans of a short-circuit boolean expression,
/// the full extent of an `if` construct, and the arm count of a
/// multi-arm match.
pub struct Point {
    pub span: Span,
    pub label: Option<String>,
    pub hit: bool,
    pub left_operand: Option<Span>,
    pub right_operand: Option<Span>,
    pub extent: Option<Span>,
    pub arm_count: Option<usize>,
}

/// The mathematical image of a `Point`: the label becomes a character
/// sequence, everything else is plain data already.
#[verifier::ext_equal]
pub ghost struct PointV {
    pub span: Span,
    pub label: Option<Seq<char>>,
    pub hit: bool,
    pub left_operand: Option<Span>,
    pub right_operand: Option<Span>,
    pub extent: Option<Span>,
    pub arm_count: Option<usize>,
}

pub open spec fn opt_str_view(s: Option<String>) -> Option<Seq<char>> {
    match s {
        Some(t) => Some(t@),
        None => None,
    }
}

impl View for Point {
    type V = PointV;

    open spec fn view(&self) -> PointV {
        PointV {
            span: self.span,
            label: opt_str_view(self.label),
            hit: self.hit,
            left_operand: self.left_operand,
            right_operand: self.right_operand,
            extent: self.extent,
            arm_count: self.arm_count,
        }
    }
}

pub open spec fn seq_view(s: Seq<Point>) -> Seq<PointV> {
    s.map_values(|p: Point| p@)
}

/// How many of the points in `s` are marked hit.
pub open spec fn count_hits(s: Seq<PointV>) -> nat
    decreases s.len(),
{
    if s.len() == 0 {
        0
    } else {
        count_hits(s.drop_last()) + (if s.last().hit {
            1nat
        } else {
            0nat
        })
    }
}

/// The registry, hit recorder and report source of one analysis run:
/// per category, the points in registration order, so that the point
/// with identifier `id` sits at position `id - 1`.
pub struct Coverage {
    func_points: Vec<Point>,
    stmt_points: Vec<Point>,
    branch_points: Vec<Point>,
    match_points: Vec<Point>,
    loop_points: Vec<Point>,
    macro_points: Vec<Point>,
    bin_points: Vec<Point>,
}

/// The mathematical content of a `Coverage`: one point sequence per
/// category. Identifier `id` of a category names index `id - 1` of its
/// sequence, so identifiers are dense and 1-based by construction.
#[verifier::ext_equal]
pub ghost struct CoverageView {
    pub func_points: Seq<PointV>,
    pub stmt_points: Seq<PointV>,
    pub branch_points: Seq<PointV>,
    pub match_points: Seq<PointV>,
    pub loop_points: Seq<PointV>,
    pub macro_points: Seq<PointV>,
    pub bin_points: Seq<PointV>,
}

impl CoverageView {
    pub open spec fn empty() -> CoverageView {
        CoverageView {
            func_points: Seq::empty(),
            stmt_points: Seq::empty(),
            branch_points: Seq::empty(),
            match_points: Seq::empty(),
            loop_points: Seq::empty(),
            macro_points: Seq::empty(),
            bin_points: Seq::empty(),
        }
    }

    pub open spec fn points(self, c: Category) -> Seq<PointV> {
        match c {
            Category::Function => self.func_points,
            Category::Statement => self.stmt_points,
            Category::Branch => self.branch_points,
            Category::Match => self.match_points,
            Category::Loop => self.loop_points,
            Category::Macro => self.macro_points,
            Category::BinaryConditional => self.bin_points,
        }
    }

    pub open spec fn with_points(self, c: Category, s: Seq<PointV>) -> CoverageView {
        match c {
            Category::Function => CoverageView { func_points: s, ..self },
            Category::Statement => CoverageView { stmt_points: s, ..self },
            Category::Branch => CoverageView { branch_points: s, ..self },
            Category::Match => CoverageView { match_points: s, ..self },
            Category::Loop => CoverageView { loop_points: s, ..self },
            Category::Macro => CoverageView { macro_points: s, ..self },
            Category::BinaryConditional => CoverageView { bin_points: s, ..self },
        }
    }

    /// How many points the category holds.
    pub open spec fn discovered(self, c: Category) -> nat {
        self.points(c).len()
    }

    /// The identifiers of a category are exactly `1..=discovered(c)`.
    pub open spec fn is_registered(self, c: Category, id: int) -> bool {
        1 <= id <= self.discovered(c)
    }

    pub open spec fn point_at(self, c: Category, id: int) -> PointV
        recommends
            self.is_registered(c, id),
    {
        self.points(c)[id - 1]
    }

    pub open spec fn is_hit(self, c: Category, id: int) -> bool {
        self.is_registered(c, id) && self.point_at(c, id).hit
    }

    pub open spec fn hit_count(self, c: Category) -> nat {
        count_hits(self.points(c))
    }

    /// Registration appends a fresh, not-yet-hit point, so the new point
    /// gets identifier `discovered(c) + 1`.
    pub open spec fn reg(self, c: Category, span: Span, label: Option<Seq<char>>) -> CoverageView {
        self.with_points(
            c,
            self.points(c).push(
                PointV {
                    span,
                    label,
                    hit: false,
                    left_operand: None,
                    right_operand: None,
                    extent: None,
                    arm_count: None,
                },
            ),
        )
    }

    /// Marking flips one hit flag and touches nothing else; marking an
    /// unregistered identifier changes nothing.
    pub open spec fn mark(self, c: Category, id: int) -> CoverageView {
        if self.is_registered(c, id) {
            self.with_points(
                c,
                self.points(c).update(id - 1, PointV { hit: true, ..self.point_at(c, id) }),
            )
        } else {
            self
        }
    }

    pub open spec fn set_operand(self, id: int, slot: ChildSlot, span: Span) -> CoverageView {
        let p = self.point_at(Category::BinaryConditional, id);
        let q = match slot {
            ChildSlot::Left => PointV { left_operand: Some(span), ..p },
            ChildSlot::Right => PointV { right_operand: Some(span), ..p },
        };
        self.with_points(
            Category::BinaryConditional,
            self.points(Category::BinaryConditional).update(id - 1, q),
        )
    }

    pub open spec fn set_extent(self, id: int, span: Span) -> CoverageView {
        self.with_points(
            Category::Branch,
            self.points(Category::Branch).update(
                id - 1,
                PointV { extent: Some(span), ..self.point_at(Category::Branch, id) },
            ),
        )
    }

    pub open spec fn set_arm_count(self, id: int, arms: usize) -> CoverageView {
        self.with_points(
            Category::Match,
            self.points(Category::Match).update(
                id - 1,
                PointV { arm_count: Some(arms), ..self.point_at(Category::Match, id) },
            ),
        )
    }

    /// The derived key under which a short-circuit operand span is
    /// addressed: the left operand of point `id` is `2*id - 1`, the
    /// right one `2*id`.
    pub open spec fn child_key(parent_id: int, slot: ChildSlot) -> int {
        match slot {
            ChildSlot::Left => 2 * parent_id - 1,
            ChildSlot::Right => 2 * parent_id,
        }
    }

    /// Looking an operand span up by its derived key: odd keys decode to
    /// the left operand of point `(key + 1) / 2`, even keys to the right
    /// operand of point `key / 2`.
    pub open spec fn child_span_at(self, key: int) -> Option<Span> {
        if key < 1 {
            None
        } else {
            let id = key / 2 + key % 2;
            if self.is_registered(Category::BinaryConditional, id) {
                if key % 2 == 1 {
                    self.point_at(Category::BinaryConditional, id).left_operand
                } else {
                    self.point_at(Category::BinaryConditional, id).right_operand
                }
            } else {
                None
            }
        }
    }

    pub open spec fn span_of(self, c: Category, id: int) -> Option<Span> {
        if self.is_registered(c, id) {
            Some(self.point_at(c, id).span)
        } else {
            None
        }
    }

    pub open spec fn label_of(self, c: Category, id: int) -> Option<Seq<char>> {
        if self.is_registered(c, id) {
            self.point_at(c, id).label
        } else {
            None
        }
    }

    pub open spec fn arm_count_of(self, id: int) -> Option<usize> {
        if self.is_registered(Category::Match, id) {
            self.point_at(Category::Match, id).arm_count
        } else {
            None
        }
    }

    pub open spec fn extent_of(self, id: int) -> Option<Span> {
        if self.is_registered(Category::Branch, id) {
            self.point_at(Category::Branch, id).extent
        } else {
            None
        }
    }
}

impl View for Coverage {
    type V = CoverageView;

    closed spec fn view(&self) -> CoverageView {
        CoverageView {
            func_points: seq_view(self.func_points@),
            stmt_points: seq_view(self.stmt_points@),
            branch_points: seq_view(self.branch_points@),
            match_points: seq_view(self.match_points@),
            loop_points: seq_view(self.loop_points@),
            macro_points: seq_view(self.macro_points@),
            bin_points: seq_view(self.bin_points@),
        }
    }
}

proof fn lemma_seq_view_push(s: Seq<Point>, p: Point)
    ensures
        seq_view(s.push(p)) == seq_view(s).push(p@),
{
    assert(seq_view(s.push(p)) =~= seq_view(s).push(p@));
}

proof fn lemma_seq_view_update(s: Seq<Point>, i: int, p: Point)
    requires
        0 <= i < s.len(),
    ensures
        seq_view(s.update(i, p)) == seq_view(s).update(i, p@),
{
    assert(seq_view(s.update(i, p)) =~= seq_view(s).update(i, p@));
}

impl Coverage {
    /// A fresh run: nothing discovered, nothing hit.
    pub fn new() -> (c: Coverage)
        ensures
            c@ == CoverageView::empty(),
    {
        let c = Coverage {
            func_points: Vec::new(),
            stmt_points: Vec::new(),
            branch_points: Vec::new(),
            match_points: Vec::new(),
            loop_points: Vec::new(),
            macro_points: Vec::new(),
            bin_points: Vec::new(),
        };
        proof {
            assert(c@ =~= CoverageView::empty());
        }
        c
    }

    spec fn table(self, c: Category) -> Vec<Point> {
        match c {
            Category::Function => self.func_points,
            Category::Statement => self.stmt_points,
            Category::Branch => self.branch_points,
            Category::Match => self.match_points,
            Category::Loop => self.loop_points,
            Category::Macro => self.macro_points,
            Category::BinaryConditional => self.bin_points,
        }
    }

    fn points_ref(&self, c: Category) -> (v: &Vec<Point>)
        ensures
            *v == self.table(c),
    {
        match c {
            Category::Function => &self.func_points,
            Category::Statement => &self.stmt_points,
            Category::Branch => &self.branch_points,
            Category::Match => &self.match_points,
            Category::Loop => &self.loop_points,
            Category::Macro => &self.macro_points,
            Category::BinaryConditional => &self.bin_points,
        }
    }

    fn points_mut(&mut self, c: Category) -> (v: &mut Vec<Point>)
        ensures
            *v == old(self).table(c),
            final(self)@ == old(self)@.with_points(c, seq_view(final(v)@)),
            final(self)@.points(c) == seq_view(final(v)@),
    {
        match c {
            Category::Function => &mut self.func_points,
            Category::Statement => &mut self.stmt_points,
            Category::Branch => &mut self.branch_points,
            Category::Match => &mut self.match_points,
            Category::Loop => &mut self.loop_points,
            Category::Macro => &mut self.macro_points,
            Category::BinaryConditional => &mut self.bin_points,
        }
    }

    /// How many points the category holds; the identifiers in use are
    /// exactly `1..=total(c)`.
    pub fn total(&self, c: Category) -> (n: usize)
        ensures
            n == self@.discovered(c),
    {
        self.points_ref(c).len()
    }

    /// Register a new point of category `c` with the given span and
    /// optional label. The identifier comes back: one past the previous
    /// total, so identifiers within a category are dense, 1-based and
    /// strictly increasing in registration order, never recycled.
    pub fn register(&mut self, c: Category, span: Span, label: Option<String>) -> (id: usize)
        requires
            span.wf(),
        ensures
            final(self)@ == old(self)@.reg(c, span, opt_str_view(label)),
            id == old(self)@.discovered(c) + 1,
    {
        let ghost lv = opt_str_view(label);
        let p = Point {
            span,
            label,
            hit: false,
            left_operand: None,
            right_operand: None,
            extent: None,
            arm_count: None,
        };
        let tab = self.points_mut(c);
        proof {
            lemma_seq_view_push(tab@, p);
        }
        tab.push(p);
        let id = tab.len();
        proof {
            assert(self@ =~= old(self)@.reg(c, span, lv));
        }
        id
    }

    /// Record that the point `(c, id)` was exercised. Rejected with
    /// `UnknownPoint` when no such point was ever registered; in that
    /// case nothing changes, no hit state of any point is touched.
    pub fn mark_hit(&mut self, c: Category, id: usize) -> (r: Result<(), CovError>)
        ensures
            final(self)@ == old(self)@.mark(c, id as int),
            old(self)@.is_registered(c, id as int) ==> r == Ok::<(), CovError>(()),
            !old(self)@.is_registered(c, id as int) ==> r == Err::<(), CovError>(
                CovError::UnknownPoint,
            ),
    {
        let n = self.points_ref(c).len();
        if 1 <= id && id <= n {
            let tab = self.points_mut(c);
            let ghost t0 = tab@;
            let q = &mut tab[id - 1];
            q.hit = true;
            proof {
                lemma_seq_view_update(t0, id - 1, Point { hit: true, ..t0[id - 1] });
                assert(self@ =~= old(self)@.mark(c, id as int));
            }
            Ok(())
        } else {
            Err(CovError::UnknownPoint)
        }
    }

    /// Whether the point `(c, id)` has been marked hit; false for a
    /// registered point that was never marked, and false for an
    /// identifier that is not registered at all.
    pub fn is_hit(&self, c: Category, id: usize) -> (r: bool)
        ensures
            r == self@.is_hit(c, id as int),
    {
        let tab = self.points_ref(c);
        if 1 <= id && id <= tab.len() {
            tab[id - 1].hit
        } else {
            false
        }
    }

    /// The span of point `(c, id)`, if it is registered.
    pub fn point_span(&self, c: Category, id: usize) -> (r: Option<Span>)
        ensures
            r == self@.span_of(c, id as int),
    {
        let tab = self.points_ref(c);
        if 1 <= id && id <= tab.len() {
            Some(tab[id - 1].span)
        } else {
            None
        }
    }

    /// The label of point `(c, id)`, if it is registered and has one.
    pub fn point_label(&self, c: Category, id: usize) -> (r: Option<String>)
        ensures
            opt_str_view(r) == self@.label_of(c, id as int),
    {
        let tab = self.points_ref(c);
        if 1 <= id && id <= tab.len() {
            match &tab[id - 1].label {
                Some(s) => Some(s.clone()),
                None => None,
            }
        } else {
            None
        }
    }

    /// Attach one operand span to the short-circuit point `parent_id`.
    /// The span is addressed by the derived key `2*parent_id - 1` (left)
    /// or `2*parent_id` (right); it is informational only and consumes
    /// no top-level identifier. Rejected with `UnknownPoint` when no
    /// such point exists.
    pub fn register_child(&mut self, parent_id: usize, slot: ChildSlot, span: Span) -> (r: Result<
        (),
        CovError,
    >)
        requires
            span.wf(),
        ensures
            old(self)@.is_registered(Category::BinaryConditional, parent_id as int) ==> (r == Ok::<
                (),
                CovError,
            >(()) && final(self)@ == old(self)@.set_operand(parent_id as int, slot, span)),
            !old(self)@.is_registered(Category::BinaryConditional, parent_id as int) ==> (r
                == Err::<(), CovError>(CovError::UnknownPoint) && final(self)@ == old(self)@),
    {
        let n = self.points_ref(Category::BinaryConditional).len();
        if 1 <= parent_id && parent_id <= n {
            let tab = self.points_mut(Category::BinaryConditional);
            let ghost t0 = tab@;
            let q = &mut tab[parent_id - 1];
            match slot {
                ChildSlot::Left => {
                    q.left_operand = Some(span);
                },
                ChildSlot::Right => {
                    q.right_operand = Some(span);
                },
            }
            proof {
                let q2 = match slot {
                    ChildSlot::Left => Point {
                        left_operand: Some(span),
                        ..t0[parent_id - 1]
                    },
                    ChildSlot::Right => Point {
                        right_operand: Some(span),
                        ..t0[parent_id - 1]
                    },
                };
                lemma_seq_view_update(t0, parent_id - 1, q2);
                assert(self@ =~= old(self)@.set_operand(parent_id as int, slot, span));
            }
            Ok(())
        } else {
            Err(CovError::UnknownPoint)
        }
    }

    /// Record the arm count of the multi-arm match point `match_id`,
    /// keyed by that point's own identifier. Rejected with
    /// `UnknownPoint` when no such point exists.
    pub fn record_arm_count(&mut self, match_id: usize, arms: usize) -> (r: Result<(), CovError>)
        ensures
            old(self)@.is_registered(Category::Match, match_id as int) ==> (r == Ok::<
                (),
                CovError,
            >(()) && final(self)@ == old(self)@.set_arm_count(match_id as int, arms)),
            !old(self)@.is_registered(Category::Match, match_id as int) ==> (r == Err::<
                (),
                CovError,
            >(CovError::UnknownPoint) && final(self)@ == old(self)@),
    {
        let n = self.points_ref(Category::Match).len();
        if 1 <= match_id && match_id <= n {
            let tab = self.points_mut(Category::Match);
            let ghost t0 = tab@;
            let q = &mut tab[match_id - 1];
            q.arm_count = Some(arms);
            proof {
                lemma_seq_view_update(
                    t0,
                    match_id - 1,
                    Point { arm_count: Some(arms), ..t0[match_id - 1] },
                );
                assert(self@ =~= old(self)@.set_arm_count(match_id as int, arms));
            }
            Ok(())
        } else {
            Err(CovError::UnknownPoint)
        }
    }

    /// Record the full extent of the `if` construct whose Branch point
    /// is `branch_id`: condition through the close of the false branch,
    /// or of the true branch when there is none. Keyed by the same
    /// identifier as the Branch point. Rejected with `UnknownPoint`
    /// when no such point exists.
    pub fn record_if_extent(&mut self, branch_id: usize, span: Span) -> (r: Result<(), CovError>)
        requires
            span.wf(),
        ensures
            old(self)@.is_registered(Category::Branch, branch_id as int) ==> (r == Ok::<
                (),
                CovError,
            >(()) && final(self)@ == old(self)@.set_extent(branch_id as int, span)),
            !old(self)@.is_registered(Category::Branch, branch_id as int) ==> (r == Err::<
                (),
                CovError,
            >(CovError::UnknownPoint) && final(self)@ == old(self)@),
    {
        let n = self.points_ref(Category::Branch).len();
        if 1 <= branch_id && branch_id <= n {
            let tab = self.points_mut(Category::Branch);
            let ghost t0 = tab@;
            let q = &mut tab[branch_id - 1];
            q.extent = Some(span);
            proof {
                lemma_seq_view_update(
                    t0,
                    branch_id - 1,
                    Point { extent: Some(span), ..t0[branch_id - 1] },
                );
                assert(self@ =~= old(self)@.set_extent(branch_id as int, span));
            }
            Ok(())
        } else {
            Err(CovError::UnknownPoint)
        }
    }

    /// Look an operand span up by its derived key, as the report listing
    /// addresses it: key `2*id - 1` is the left operand of point `id`,
    /// key `2*id` the right one.
    pub fn child_span(&self, key: usize) -> (r: Option<Span>)
        ensures
            r == self@.child_span_at(key as int),
    {
        if key < 1 {
            None
        } else {
            let id = key / 2 + key % 2;
            let tab = self.points_ref(Category::BinaryConditional);
            if 1 <= id && id <= tab.len() {
                if key % 2 == 1 {
                    tab[id - 1].left_operand
                } else {
                    tab[id - 1].right_operand
                }
            } else {
                None
            }
        }
    }

    /// The recorded arm count of match point `match_id`, if any.
    pub fn arm_count(&self, match_id: usize) -> (r: Option<usize>)
        ensures
            r == self@.arm_count_of(match_id as int),
    {
        let tab = self.points_ref(Category::Match);
        if 1 <= match_id && match_id <= tab.len() {
            tab[match_id - 1].arm_count
        } else {
            None
        }
    }

    /// The recorded full extent of the `if` whose Branch point is
    /// `branch_id`, if any.
    pub fn if_extent(&self, branch_id: usize) -> (r: Option<Span>)
        ensures
            r == self@.extent_of(branch_id as int),
    {
        let tab = self.points_ref(Category::Branch);
        if 1 <= branch_id && branch_id <= tab.len() {
            tab[branch_id - 1].extent
        } else {
            None
        }
    }

    /// How many points of the category have been marked hit.
    pub fn hit_total(&self, c: Category) -> (n: usize)
        ensures
            n == self@.hit_count(c),
    {
        let tab = self.points_ref(c);
        let ghost sv = seq_view(tab@);
        let mut n: usize = 0;
        let mut i: usize = 0;
        while i < tab.len()
            invariant
                i <= tab.len(),
                sv == seq_view(tab@),
                n == count_hits(sv.take(i as int)),
                n <= i,
            decreases tab.len() - i,
        {
            proof {
                assert(sv.take(i + 1).drop_last() =~= sv.take(i as int));
                assert(sv.take(i + 1).last() == tab@[i as int]@);
            }
            if tab[i].hit {
                n = n + 1;
            }
            i = i + 1;
        }
        proof {
            assert(sv.take(tab@.len() as int) =~= sv);
        }
        n
    }

    /// Register a Function point for a definition spanning `span`,
    /// labeled with the function's name, and mark it hit at once.
    /// This is for wiring that wants every discovered point counted as
    /// exercised at once, such as a front end without instrumentation. Callers that keep discovery and
    /// exercise apart use `register` and `mark_hit` instead.
    pub fn add_function(&mut self, span: Span, name: String) -> (id: usize)
        requires
            span.wf(),
        ensures
            final(self)@ == old(self)@.reg(Category::Function, span, Some(name@)).mark(
                Category::Function,
                (old(self)@.discovered(Category::Function) + 1) as int,
            ),
            id == old(self)@.discovered(Category::Function) + 1,
    {
        let id = self.register(Category::Function, span, Some(name));
        let _ = self.mark_hit(Category::Function, id);
        id
    }

    /// Register a Statement point and mark it hit at once; see
    /// `add_function` for the discovered-equals-exercised coupling.
    pub fn add_statement(&mut self, span: Span) -> (id: usize)
        requires
            span.wf(),
        ensures
            final(self)@ == old(self)@.reg(Category::Statement, span, None).mark(
                Category::Statement,
                (old(self)@.discovered(Category::Statement) + 1) as int,
            ),
            id == old(self)@.discovered(Category::Statement) + 1,
    {
        let id = self.register(Category::Statement, span, None);
        let _ = self.mark_hit(Category::Statement, id);
        id
    }

    /// Register a Branch point spanning a tested condition and mark it
    /// hit at once; see `add_function` for the coupling.
    pub fn add_branch(&mut self, span: Span) -> (id: usize)
        requires
            span.wf(),
        ensures
            final(self)@ == old(self)@.reg(Category::Branch, span, None).mark(
                Category::Branch,
                (old(self)@.discovered(Category::Branch) + 1) as int,
            ),
            id == old(self)@.discovered(Category::Branch) + 1,
    {
        let id = self.register(Category::Branch, span, None);
        let _ = self.mark_hit(Category::Branch, id);
        id
    }

    /// The stub standing in for real instrumentation while sorting an
    /// array: an array with more than one element exercises the first
    /// comparison statement and the first comparison branch, so this
    /// marks Statement 1 and Branch 1. Rejected with `UnknownPoint`,
    /// changing nothing, when either of those points was never
    /// registered; an array of at most one element also changes nothing
    /// and succeeds.
    pub fn execute_path(&mut self, array: &[i32]) -> (r: Result<(), CovError>)
        ensures
            array@.len() <= 1 ==> final(self)@ == old(self)@ && r == Ok::<(), CovError>(()),
            array@.len() > 1 && old(self)@.is_registered(Category::Statement, 1) && old(
                self,
            )@.is_registered(Category::Branch, 1) ==> final(self)@ == old(self)@.mark(
                Category::Statement,
                1,
            ).mark(Category::Branch, 1) && r == Ok::<(), CovError>(()),
            array@.len() > 1 && !(old(self)@.is_registered(Category::Statement, 1) && old(
                self,
            )@.is_registered(Category::Branch, 1)) ==> final(self)@ == old(self)@ && r == Err::<
                (),
                CovError,
            >(CovError::UnknownPoint),
    {
        if array.len() > 1 {
            if self.total(Category::Statement) >= 1 && self.total(Category::Branch) >= 1 {
                let _ = self.mark_hit(Category::Statement, 1);
                let _ = self.mark_hit(Category::Branch, 1);
                Ok(())
            } else {
                Err(CovError::UnknownPoint)
            }
        } else {
            Ok(())
        }
    }
}

/// A point with its hit flag raised; everything else kept.
pub open spec fn mark_pv(p: PointV) -> PointV {
    PointV { hit: true, ..p }
}

/// Every point of every category marked hit: the configuration a
/// front end without instrumentation runs in, where discovery is
/// taken for exercise.
pub open spec fn mark_all_seq(s: Seq<PointV>) -> Seq<PointV> {
    s.map_values(|p: PointV| mark_pv(p))
}

impl CoverageView {
    pub open spec fn mark_all(self) -> CoverageView {
        CoverageView {
            func_points: mark_all_seq(self.func_points),
            stmt_points: mark_all_seq(self.stmt_points),
            branch_points: mark_all_seq(self.branch_points),
            match_points: mark_all_seq(self.match_points),
            loop_points: mark_all_seq(self.loop_points),
            macro_points: mark_all_seq(self.macro_points),
            bin_points: mark_all_seq(self.bin_points),
        }
    }
}

fn mark_all_table(tab: &mut Vec<Point>)
    ensures
        seq_view(final(tab)@) == mark_all_seq(seq_view(old(tab)@)),
{
    let ghost t0 = tab@;
    let mut i: usize = 0;
    while i < tab.len()
        invariant
            i <= t0.len(),
            tab@.len() == t0.len(),
            forall|j: int| 0 <= j < i ==> (#[trigger] tab@[j])@ == mark_pv(t0[j]@),
            forall|j: int| i <= j < t0.len() ==> tab@[j] == t0[j],
        decreases t0.len() - i,
    {
        let q = &mut tab[i];
        q.hit = true;
        i = i + 1;
    }
    proof {
        assert(seq_view(tab@) =~= mark_all_seq(seq_view(t0)));
    }
}

impl Coverage {
    /// Mark every registered point of every category hit: the stand-in
    /// for real instrumentation, counting everything the walk
    /// discovered as exercised.
    pub fn mark_all_hit(&mut self)
        ensures
            final(self)@ == old(self)@.mark_all(),
    {
        mark_all_table(&mut self.func_points);
        mark_all_table(&mut self.stmt_points);
        mark_all_table(&mut self.branch_points);
        mark_all_table(&mut self.match_points);
        mark_all_table(&mut self.loop_points);
        mark_all_table(&mut self.macro_points);
        mark_all_table(&mut self.bin_points);
        proof {
            assert(self@ =~= old(self)@.mark_all());
        }
    }
}

/// After `mark_all`, every category's hit count equals its discovered
/// count, so every defined percentage is exactly 100%.
pub proof fn lemma_mark_all_counts(v: CoverageView, c: Category)
    ensures
        v.mark_all().discovered(c) == v.discovered(c),
        v.mark_all().hit_count(c) == v.discovered(c),
{
    lemma_count_hits_all_hit(v.mark_all().points(c));
}

/// The derived child keys address exactly the operand they were
/// registered under: looking up `child_key(id, slot)` yields the
/// operand span of point `id` on that side.
pub proof fn lemma_child_key_roundtrip(v: CoverageView, id: int, slot: ChildSlot)
    requires
        v.is_registered(Category::BinaryConditional, id),
    ensures
        v.child_span_at(CoverageView::child_key(id, slot)) == (match slot {
            ChildSlot::Left => v.point_at(Category::BinaryConditional, id).left_operand,
            ChildSlot::Right => v.point_at(Category::BinaryConditional, id).right_operand,
        }),
{
    match slot {
        ChildSlot::Left => {
            assert((2 * id - 1) / 2 + (2 * id - 1) % 2 == id);
        },
        ChildSlot::Right => {
            assert((2 * id) / 2 + (2 * id) % 2 == id);
        },
    }
}

/// Hit counts never exceed discovered counts.
pub proof fn lemma_count_hits_le_len(s: Seq<PointV>)
    ensures
        count_hits(s) <= s.len(),
    decreases s.len(),
{
    if s.len() > 0 {
        lemma_count_hits_le_len(s.drop_last());
    }
}

/// A sequence of points that are all hit counts fully.
pub proof fn lemma_count_hits_all_hit(s: Seq<PointV>)
    requires
        forall|i: int| 0 <= i < s.len() ==> (#[trigger] s[i]).hit,
    ensures
        count_hits(s) == s.len(),
    decreases s.len(),
{
    if s.len() > 0 {
        lemma_count_hits_all_hit(s.drop_last());
    }
}

/// Identifiers assigned within a category are exactly the dense range
/// `1..=discovered`: no gaps, none recycled, and registration order is
/// identifier order.
pub proof fn lemma_ids_dense(
    v: CoverageView,
    c: Category,
    id: int,
    span: Span,
    label: Option<Seq<char>>,
)
    ensures
        v.is_registered(c, id) <==> 1 <= id <= v.discovered(c),
        v.reg(c, span, label).discovered(c) == v.discovered(c) + 1,
        v.reg(c, span, label).is_registered(c, (v.discovered(c) + 1) as int),
{
}

/// Marking a registered point makes exactly that point report hit;
/// every other (category, identifier) pair keeps its previous state.
pub proof fn lemma_mark_then_query(v: CoverageView, c: Category, id: int, c2: Category, id2: int)
    requires
        v.is_registered(c, id),
    ensures
        v.mark(c, id).is_hit(c, id),
        c2 != c || id2 != id ==> v.mark(c, id).is_hit(c2, id2) == v.is_hit(c2, id2),
{
}

/// Discovery is not exercise: registering a point changes no hit state.
/// The fresh point itself starts unhit, and every pair that reported
/// hit before reports exactly the same afterwards.
pub proof fn lemma_reg_preserves_hits(
    v: CoverageView,
    c: Category,
    span: Span,
    label: Option<Seq<char>>,
    c2: Category,
    id2: int,
)
    ensures
        v.reg(c, span, label).is_hit(c2, id2) == v.is_hit(c2, id2),
{
    let w = v.reg(c, span, label);
    if c2 == c && id2 == v.discovered(c) + 1 {
        assert(!w.point_at(c2, id2).hit);
    }
}

} // verus!
