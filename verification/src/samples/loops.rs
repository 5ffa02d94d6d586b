use vstd::prelude::*;

use crate::samples::branches::str_eq;

verus! {

/// `1 + 2 + ... + n`, and 0 when `n` is not positive.
pub open spec fn sum_upto(n: int) -> int
    decreases n,
{
    if n <= 0 {
        0
    } else {
        n + sum_upto(n - 1)
    }
}

pub proof fn lemma_sum_upto_nonneg(n: int)
    ensures
        sum_upto(n) >= 0,
        n >= 1 ==> sum_upto(n) >= n,
    decreases n,
{
    if n > 0 {
        lemma_sum_upto_nonneg(n - 1);
    }
}

pub proof fn lemma_sum_upto_monotonic(i: int, j: int)
    ensures
        i <= j ==> sum_upto(i) <= sum_upto(j),
    decreases j,
{
    if j > 0 && i < j {
        lemma_sum_upto_monotonic(i, j - 1);
        lemma_sum_upto_nonneg(j);
    }
}

/// Counted summation upward: `1 + ... + x`, 0 when `x` is not positive.
pub fn sum(x: i32) -> (r: i32)
    requires
        sum_upto(x as int) <= i32::MAX,
    ensures
        r == sum_upto(x as int),
{
    if x <= 0 {
        return 0;
    }
    let mut s: i32 = 0;
    let mut i: i32 = 0;
    while i < x
        invariant
            0 <= i <= x,
            s == sum_upto(i as int),
            sum_upto(x as int) <= i32::MAX,
        decreases x - i,
    {
        proof {
            lemma_sum_upto_monotonic(i + 1, x as int);
            lemma_sum_upto_nonneg(i as int);
        }
        i = i + 1;
        s = s + i;
    }
    s
}

/// Conditioned summation downward: adds `x, x-1, ..., 1` while the
/// counter stays positive.
pub fn sum_while(x: i32) -> (r: i32)
    requires
        sum_upto(x as int) <= i32::MAX,
    ensures
        r == sum_upto(x as int),
{
    let ghost x0 = x as int;
    let mut x = x;
    let mut s: i32 = 0;
    while x > 0
        invariant
            x <= x0 || x0 <= 0,
            x0 <= 0 ==> x == x0 && s == 0,
            x0 > 0 ==> 0 <= x && s == sum_upto(x0) - sum_upto(x as int),
            sum_upto(x0) <= i32::MAX,
        decreases x,
    {
        proof {
            lemma_sum_upto_monotonic(x as int, x0);
            lemma_sum_upto_nonneg(x - 1);
        }
        s = s + x;
        x = x - 1;
    }
    s
}

/// Post-checked summation: adds once, then keeps going while the
/// counter stays positive; a non-positive start is added exactly once.
pub fn sum_do_while(x: i32) -> (r: i32)
    requires
        x > i32::MIN,
        sum_upto(x as int) <= i32::MAX,
    ensures
        x >= 1 ==> r == sum_upto(x as int),
        x < 1 ==> r == x,
{
    let ghost x0 = x as int;
    let mut x = x;
    let mut s: i32 = 0;
    s = s + x;
    x = x - 1;
    while x > 0
        invariant
            x0 > i32::MIN,
            sum_upto(x0) <= i32::MAX,
            x0 >= 1 ==> 0 <= x <= x0 && s == sum_upto(x0) - sum_upto(x as int),
            x0 < 1 ==> x == x0 - 1 && s == x0,
        decreases x,
    {
        proof {
            lemma_sum_upto_monotonic(x as int, x0);
            lemma_sum_upto_nonneg(x - 1);
        }
        s = s + x;
        x = x - 1;
    }
    s
}

/// The sum of a sequence, accumulated left to right.
pub open spec fn seq_sum(s: Seq<i32>) -> int
    decreases s.len(),
{
    if s.len() == 0 {
        0
    } else {
        seq_sum(s.drop_last()) + s.last()
    }
}

/// Every prefix sum stays representable; exactly the runs on which the
/// left-to-right accumulation cannot overflow.
pub open spec fn prefix_sums_fit(s: Seq<i32>) -> bool {
    forall|k: int| 0 <= k <= s.len() ==> i32::MIN <= #[trigger] seq_sum(s.take(k)) <= i32::MAX
}

/// Summation over a slice, element by element.
pub fn sum_for_in(obj: &[i32]) -> (r: i32)
    requires
        prefix_sums_fit(obj@),
    ensures
        r == seq_sum(obj@),
{
    let mut s: i32 = 0;
    let mut i: usize = 0;
    proof {
        assert(obj@.take(0) =~= Seq::<i32>::empty());
    }
    while i < obj.len()
        invariant
            i <= obj@.len(),
            prefix_sums_fit(obj@),
            s == seq_sum(obj@.take(i as int)),
        decreases obj@.len() - i,
    {
        proof {
            assert(obj@.take(i + 1).drop_last() =~= obj@.take(i as int));
            assert(obj@.take(i + 1).last() == obj@[i as int]);
            assert(seq_sum(obj@.take(i + 1)) == s + obj@[i as int]);
            assert(i32::MIN <= seq_sum(obj@.take(i + 1)) <= i32::MAX);
        }
        s = s + obj[i];
        i = i + 1;
    }
    proof {
        assert(obj@.take(obj@.len() as int) =~= obj@);
    }
    s
}

/// The same summation, as iteration over the values.
pub fn sum_for_of(array: &[i32]) -> (r: i32)
    requires
        prefix_sums_fit(array@),
    ensures
        r == seq_sum(array@),
{
    sum_for_in(array)
}

/// Counted summation over the half-open range `0..x`:
/// `0 + 1 + ... + (x-1)`.
pub fn sum_for_range(x: i32) -> (r: i32)
    requires
        sum_upto(x as int - 1) <= i32::MAX,
    ensures
        r == sum_upto(x as int - 1),
{
    let mut s: i32 = 0;
    let mut i: i32 = 0;
    if x <= 0 {
        return 0;
    }
    while i < x
        invariant
            0 <= i <= x,
            s == sum_upto(i - 1),
            sum_upto(x as int - 1) <= i32::MAX,
        decreases x - i,
    {
        proof {
            lemma_sum_upto_monotonic(i as int, x as int - 1);
            lemma_sum_upto_nonneg(i - 1);
        }
        s = s + i;
        i = i + 1;
    }
    s
}

/// What `loop_func` returns for each name it dispatches. The two
/// slice-summing entry points take an array rather than a number, so a
/// numeric dispatcher cannot route to them and they fall to the
/// unknown-name answer.
pub open spec fn spec_loop_func(fname: Seq<char>, arg: i32) -> Option<i32> {
    if fname == "sum"@ || fname == "sumWhile"@ {
        Some(sum_upto(arg as int) as i32)
    } else if fname == "sumDoWhile"@ {
        Some(
            (if arg >= 1 {
                sum_upto(arg as int)
            } else {
                arg as int
            }) as i32,
        )
    } else if fname == "sumForRange"@ {
        Some(sum_upto(arg as int - 1) as i32)
    } else {
        None
    }
}

/// Dispatch a summation loop by name; `None` for a name the table does
/// not know.
pub fn loop_func(fname: &str, arg: i32) -> (r: Option<i32>)
    requires
        (fname@ == "sum"@ || fname@ == "sumWhile"@) ==> sum_upto(arg as int) <= i32::MAX,
        fname@ == "sumDoWhile"@ ==> arg > i32::MIN && sum_upto(arg as int) <= i32::MAX,
        fname@ == "sumForRange"@ ==> sum_upto(arg as int - 1) <= i32::MAX,
    ensures
        r == spec_loop_func(fname@, arg),
{
    if str_eq(fname, "sum") {
        Some(sum(arg))
    } else if str_eq(fname, "sumWhile") {
        Some(sum_while(arg))
    } else if str_eq(fname, "sumDoWhile") {
        proof {
            lemma_sum_upto_nonneg(arg as int);
        }
        Some(sum_do_while(arg))
    } else if str_eq(fname, "sumForRange") {
        Some(sum_for_range(arg))
    } else {
        None
    }
}

} // verus!
