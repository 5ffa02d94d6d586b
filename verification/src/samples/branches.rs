use vstd::prelude::*;

verus! {

/// String equality over the character sequences.
pub fn str_eq(a: &str, b: &str) -> (r: bool)
    ensures
        r == (a@ == b@),
{
    let x = a.to_owned();
    let y = b.to_owned();
    x == y
}

/// The larger of `a` and `b`, picked by a two-way conditional chain.
pub fn func_if(a: i32, b: i32) -> (r: i32)
    ensures
        r == (if a > b {
            a
        } else {
            b
        }),
{
    if a > b {
        a
    } else if a == b {
        b
    } else {
        b
    }
}

pub open spec fn spec_difficult_if(a: i32, b: i32, c: i32) -> i32 {
    if a > b {
        if a > c {
            a
        } else {
            c
        }
    } else if a == b && a == c {
        0
    } else {
        if b > c {
            b
        } else {
            c
        }
    }
}

/// Nested and chained conditionals: the maximum of the three numbers,
/// except that three equal numbers give 0.
pub fn func_difficult_if(a: i32, b: i32, c: i32) -> (r: i32)
    ensures
        r == spec_difficult_if(a, b, c),
{
    if a > b {
        if a > c {
            a
        } else {
            c
        }
    } else if a == b && a == c {
        0
    } else {
        if b > c {
            b
        } else {
            c
        }
    }
}

pub open spec fn abs_spec(x: int) -> int {
    if x >= 0 {
        x
    } else {
        -x
    }
}

/// The absolute value of `b`; the first argument is accepted and
/// ignored, as the fixture's shape demands.
pub fn func_func(a: i32, b: i32) -> (r: i32)
    requires
        b != i32::MIN,
    ensures
        r == abs_spec(b as int),
{
    if b >= 0 {
        b
    } else {
        -b
    }
}

/// A short-circuit chain: whether `a >= b` and `c` both hold.
pub fn func_binary_op(a: i32, b: i32, c: bool) -> (r: bool)
    ensures
        r == (a >= b && c),
{
    let ans: bool;
    if a > b || a == b {
        ans = true;
    } else {
        ans = false;
    }
    ans && c
}

/// The value inside the option, or 0.
pub fn func_if_let(optional_value: Option<i32>) -> (r: i32)
    ensures
        r == (match optional_value {
            Some(value) => value,
            None => 0,
        }),
{
    if let Some(value) = optional_value {
        value
    } else {
        0
    }
}

/// What `function_branch` and `func_branch` return: dispatch by name.
/// "cond" reports the sign of the argument after a chain of boolean
/// no-ops, "abs" and "shortAbs" both compute the absolute value, any
/// other name is unknown.
pub open spec fn spec_function_branch(fname: Seq<char>, arg: i32) -> Option<i32> {
    if fname == "cond"@ {
        Some(
            if arg >= 0 {
                0i32
            } else {
                1i32
            },
        )
    } else if fname == "abs"@ || fname == "shortAbs"@ {
        Some(abs_spec(arg as int) as i32)
    } else {
        None
    }
}

/// Dispatch a tiny branching workload by name; `None` for a name the
/// table does not know.
pub fn function_branch(fname: &str, arg: i32) -> (r: Option<i32>)
    requires
        (fname@ == "abs"@ || fname@ == "shortAbs"@) ==> arg != i32::MIN,
    ensures
        r == spec_function_branch(fname@, arg),
{
    if str_eq(fname, "cond") {
        let mut b = arg < 0;
        b = b && b;
        b = b || b;
        b = !b;
        b = if b {
            b
        } else {
            b
        };
        Some(
            if b {
                0
            } else {
                1
            },
        )
    } else if str_eq(fname, "abs") {
        if arg >= 0 {
            Some(arg)
        } else {
            Some(-arg)
        }
    } else if str_eq(fname, "shortAbs") {
        Some(
            if arg >= 0 {
                arg
            } else {
                -arg
            },
        )
    } else {
        None
    }
}

/// The table-dispatch variant of the same workload: same names, same
/// results.
pub fn func_branch(fname: &str, arg: i32) -> (r: Option<i32>)
    requires
        (fname@ == "abs"@ || fname@ == "shortAbs"@) ==> arg != i32::MIN,
    ensures
        r == spec_function_branch(fname@, arg),
{
    function_branch(fname, arg)
}

} // verus!
