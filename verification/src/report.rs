use vstd::prelude::*;

use crate::category::Category;
use crate::coverage::{lemma_count_hits_le_len, Coverage, CoverageView};

verus! {

/// One report row: how many points a category discovered and how many
/// of them were exercised.
#[derive(Clone, Copy, PartialEq, Eq, Structural, Debug)]
pub struct CategoryCount {
    pub category: Category,
    pub discovered: usize,
    pub hit: usize,
}

/// A report: the seven categories in their fixed order, each with its
/// discovered and hit counts. Per-point detail (spans, labels, operand
/// spans, extents, arm counts) is read from the `Coverage` itself, in
/// identifier order, through its accessors.
#[derive(PartialEq, Eq, Debug)]
pub struct Report {
    pub rows: Vec<CategoryCount>,
}

/// The percentage `100 * hit / discovered` in hundredths of a percent,
/// truncated; undefined (`None`) when nothing was discovered.
pub open spec fn spec_percent(discovered: int, hit: int) -> Option<u64> {
    if discovered == 0 {
        None
    } else {
        Some((10000 * hit / discovered) as u64)
    }
}

pub open spec fn spec_row(v: CoverageView, c: Category) -> CategoryCount {
    CategoryCount {
        category: c,
        discovered: v.discovered(c) as usize,
        hit: v.hit_count(c) as usize,
    }
}

/// The fixed order in which the report lists the categories.
pub open spec fn category_order() -> Seq<Category> {
    seq![
        Category::Function,
        Category::Statement,
        Category::Branch,
        Category::Match,
        Category::Loop,
        Category::Macro,
        Category::BinaryConditional,
    ]
}

impl CategoryCount {
    /// Percentage exercised, in hundredths of a percent: `None` when the
    /// category discovered nothing — 0 of 0 is undefined, it is neither
    /// 0% nor 100% — and otherwise exactly `100 * hit / discovered`,
    /// truncated to hundredths.
    pub fn percent_hundredths(&self) -> (r: Option<u64>)
        requires
            self.hit <= self.discovered,
        ensures
            r == spec_percent(self.discovered as int, self.hit as int),
    {
        if self.discovered == 0 {
            None
        } else {
            let num: u128 = 10000u128 * (self.hit as u128);
            let p = num / (self.discovered as u128);
            proof {
                let d = self.discovered as int;
                let h = self.hit as int;
                vstd::arithmetic::div_mod::lemma_div_is_ordered(10000 * h, 10000 * d, d);
                vstd::arithmetic::div_mod::lemma_div_multiples_vanish(10000, d);
                assert(d * 10000 == 10000 * d);
                assert(10000 * h / d <= 10000);
            }
            Some(p as u64)
        }
    }
}

impl Report {
    /// Merge the reports of two independent runs by categorical
    /// summation. Identifiers are scoped per run, so the sums are the
    /// only sensible join; the counts must fit the machine word.
    pub fn merge(&self, other: &Report) -> (r: Report)
        requires
            self.rows@.len() == other.rows@.len(),
            forall|i: int|
                0 <= i < self.rows@.len() ==> (#[trigger] self.rows@[i]).category
                    == other.rows@[i].category,
            forall|i: int|
                0 <= i < self.rows@.len() ==> (#[trigger] self.rows@[i]).discovered
                    + other.rows@[i].discovered <= usize::MAX && self.rows@[i].hit
                    + other.rows@[i].hit <= usize::MAX,
        ensures
            r.rows@.len() == self.rows@.len(),
            forall|i: int|
                0 <= i < r.rows@.len() ==> (#[trigger] r.rows@[i]) == (CategoryCount {
                    category: self.rows@[i].category,
                    discovered: (self.rows@[i].discovered + other.rows@[i].discovered) as usize,
                    hit: (self.rows@[i].hit + other.rows@[i].hit) as usize,
                }),
    {
        let mut rows: Vec<CategoryCount> = Vec::new();
        let mut i: usize = 0;
        while i < self.rows.len()
            invariant
                i <= self.rows@.len(),
                self.rows@.len() == other.rows@.len(),
                rows@.len() == i,
                forall|j: int|
                    0 <= j < i ==> (#[trigger] self.rows@[j]).discovered + other.rows@[j].discovered
                        <= usize::MAX && self.rows@[j].hit + other.rows@[j].hit <= usize::MAX,
                forall|j: int|
                    0 <= j < i ==> (#[trigger] rows@[j]) == (CategoryCount {
                        category: self.rows@[j].category,
                        discovered: (self.rows@[j].discovered
                            + other.rows@[j].discovered) as usize,
                        hit: (self.rows@[j].hit + other.rows@[j].hit) as usize,
                    }),
                forall|j: int|
                    0 <= j < self.rows@.len() ==> (#[trigger] self.rows@[j]).discovered
                        + other.rows@[j].discovered <= usize::MAX && self.rows@[j].hit
                        + other.rows@[j].hit <= usize::MAX,
            decreases self.rows@.len() - i,
        {
            let a = self.rows[i];
            let b = other.rows[i];
            rows.push(
                CategoryCount {
                    category: a.category,
                    discovered: a.discovered + b.discovered,
                    hit: a.hit + b.hit,
                },
            );
            i = i + 1;
        }
        Report { rows }
    }
}

impl Coverage {
    /// The aggregate of the run: for each category, its discovered and
    /// hit counts, categories in their fixed order. A pure read: the
    /// registry and the hit state are left untouched.
    pub fn report(&self) -> (r: Report)
        ensures
            r.rows@.len() == category_order().len(),
            forall|i: int|
                0 <= i < category_order().len() ==> r.rows@[i] == spec_row(
                    self@,
                    category_order()[i],
                ),
            forall|i: int| 0 <= i < r.rows@.len() ==> (#[trigger] r.rows@[i]).hit
                <= r.rows@[i].discovered,
    {
        let mut rows: Vec<CategoryCount> = Vec::new();
        rows.push(self.count_row(Category::Function));
        rows.push(self.count_row(Category::Statement));
        rows.push(self.count_row(Category::Branch));
        rows.push(self.count_row(Category::Match));
        rows.push(self.count_row(Category::Loop));
        rows.push(self.count_row(Category::Macro));
        rows.push(self.count_row(Category::BinaryConditional));
        Report { rows }
    }

    fn count_row(&self, c: Category) -> (r: CategoryCount)
        ensures
            r == spec_row(self@, c),
            r.hit <= r.discovered,
    {
        proof {
            lemma_count_hits_le_len(self@.points(c));
        }
        CategoryCount { category: c, discovered: self.total(c), hit: self.hit_total(c) }
    }
}

} // verus!
