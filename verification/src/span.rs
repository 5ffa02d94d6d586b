use vstd::prelude::*;

verus! {

/// A source-text range: start position through end position, where a
/// position is a line and a column as the parser reports them.
#[derive(Clone, Copy, PartialEq, Eq, Structural, Debug)]
pub struct Span {
    pub start_line: usize,
    pub start_col: usize,
    pub end_line: usize,
    pub end_col: usize,
}

impl Span {
    /// Non-degenerate: the start is at or before the end in document order.
    /// Zero-width spans (start equal to end) are allowed.
    pub open spec fn wf(self) -> bool {
        self.start_line < self.end_line || (self.start_line == self.end_line
            && self.start_col <= self.end_col)
    }

    pub fn new(start_line: usize, start_col: usize, end_line: usize, end_col: usize) -> (s: Span)
        ensures
            s == (Span { start_line, start_col, end_line, end_col }),
    {
        Span { start_line, start_col, end_line, end_col }
    }

    /// Decide `wf` at run time, for trees of unknown provenance.
    pub fn is_wf(&self) -> (b: bool)
        ensures
            b == self.wf(),
    {
        self.start_line < self.end_line || (self.start_line == self.end_line && self.start_col
            <= self.end_col)
    }

    /// The span written out as `startLine:startCol-endLine:endCol`.
    pub fn text(&self) -> (r: String)
        ensures
            r@ == span_text_spec(*self),
    {
        let mut out = String::new();
        push_decimal(&mut out, self.start_line);
        out.append(":");
        push_decimal(&mut out, self.start_col);
        out.append("-");
        push_decimal(&mut out, self.end_line);
        out.append(":");
        push_decimal(&mut out, self.end_col);
        proof {
            reveal_strlit(":");
            reveal_strlit("-");
            assert(":"@ =~= seq![':']);
            assert("-"@ =~= seq!['-']);
            assert(out@ =~= span_text_spec(*self));
        }
        out
    }
}

/// The decimal digit characters.
pub open spec fn digit_char(d: int) -> char {
    if d == 0 {
        '0'
    } else if d == 1 {
        '1'
    } else if d == 2 {
        '2'
    } else if d == 3 {
        '3'
    } else if d == 4 {
        '4'
    } else if d == 5 {
        '5'
    } else if d == 6 {
        '6'
    } else if d == 7 {
        '7'
    } else if d == 8 {
        '8'
    } else {
        '9'
    }
}

/// The decimal digits of `n`, most significant first, no leading zero
/// except for 0 itself.
pub open spec fn dec_digits(n: int) -> Seq<char>
    recommends
        n >= 0,
    decreases n,
{
    if n < 10 {
        seq![digit_char(n)]
    } else {
        dec_digits(n / 10).push(digit_char(n % 10))
    }
}

/// A span rendered as `startLine:startCol-endLine:endCol`.
pub open spec fn span_text_spec(s: Span) -> Seq<char> {
    dec_digits(s.start_line as int) + seq![':'] + dec_digits(s.start_col as int) + seq!['-']
        + dec_digits(s.end_line as int) + seq![':'] + dec_digits(s.end_col as int)
}

fn digit_str(d: usize) -> (r: &'static str)
    requires
        d < 10,
    ensures
        r@ == seq![digit_char(d as int)],
{
    let s: &'static str = if d == 0 {
        "0"
    } else if d == 1 {
        "1"
    } else if d == 2 {
        "2"
    } else if d == 3 {
        "3"
    } else if d == 4 {
        "4"
    } else if d == 5 {
        "5"
    } else if d == 6 {
        "6"
    } else if d == 7 {
        "7"
    } else if d == 8 {
        "8"
    } else {
        "9"
    };
    proof {
        reveal_strlit("0");
        reveal_strlit("1");
        reveal_strlit("2");
        reveal_strlit("3");
        reveal_strlit("4");
        reveal_strlit("5");
        reveal_strlit("6");
        reveal_strlit("7");
        reveal_strlit("8");
        reveal_strlit("9");
        assert(s@ =~= seq![digit_char(d as int)]);
    }
    s
}

/// Append the decimal digits of `n` to `out`.
fn push_decimal(out: &mut String, n: usize)
    ensures
        final(out)@ == old(out)@ + dec_digits(n as int),
    decreases n,
{
    if n >= 10 {
        push_decimal(out, n / 10);
    }
    out.append(digit_str(n % 10));
    proof {
        if n >= 10 {
            assert(dec_digits(n as int) =~= dec_digits(n as int / 10) + seq![
                digit_char(n as int % 10),
            ]);
            assert(out@ =~= old(out)@ + dec_digits(n as int));
        } else {
            assert(out@ =~= old(out)@ + dec_digits(n as int));
        }
    }
}

} // verus!
