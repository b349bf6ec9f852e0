//! A textual rendering of a matrix: `Matrix(row=R, col=C, {a b, c d})`,
//! cells of a row separated by spaces and rows by commas.

use vstd::prelude::*;

use crate::matrix::Matrix;

verus! {

/// The decimal digit character for `d` in `0 ..= 9`.
pub open spec fn digit_char(d: int) -> char {
    if d == 0 {
        '0'
    } else if d == 1 {
        '1'
    } else if d == 2 {
        '2'
    } else if d == 3 {
        '3'
    } else if d == 4 {
        '4'
    } else if d == 5 {
        '5'
    } else if d == 6 {
        '6'
    } else if d == 7 {
        '7'
    } else if d == 8 {
        '8'
    } else {
        '9'
    }
}

/// The decimal digits of `n`, most significant first, with no leading zero
/// (a lone `0` for zero).
pub open spec fn dec_digits(n: nat) -> Seq<char>
    decreases n,
{
    if n < 10 {
        seq![digit_char(n as int)]
    } else {
        dec_digits(n / 10).push(digit_char((n % 10) as int))
    }
}

/// The decimal text of an integer: a minus sign for negatives, then digits.
pub open spec fn dec_int(v: int) -> Seq<char> {
    if v < 0 {
        seq!['-'] + dec_digits((-v) as nat)
    } else {
        dec_digits(v as nat)
    }
}

/// The first `j` cells of row `i`, separated by single spaces.
pub open spec fn row_text_prefix(m: Matrix, i: int, j: int) -> Seq<char>
    decreases j,
{
    if j <= 0 {
        Seq::empty()
    } else if j == 1 {
        dec_int(m.cell(i, 0) as int)
    } else {
        row_text_prefix(m, i, j - 1) + " "@ + dec_int(m.cell(i, j - 1) as int)
    }
}

/// The first `i` rows, each rendered by `row_text_prefix` over the full
/// width, separated by `", "`.
pub open spec fn rows_text_prefix(m: Matrix, i: int) -> Seq<char>
    decreases i,
{
    if i <= 0 {
        Seq::empty()
    } else if i == 1 {
        row_text_prefix(m, 0, m.spec_col())
    } else {
        rows_text_prefix(m, i - 1) + ", "@ + row_text_prefix(m, i - 1, m.spec_col())
    }
}

/// Everything before the cell listing.
pub open spec fn describe_head(m: Matrix) -> Seq<char> {
    "Matrix(row="@ + dec_digits(m.spec_row() as nat) + ", col="@ + dec_digits(m.spec_col() as nat)
        + ", {"@
}

/// The full rendering of `m`.
pub open spec fn describe_spec(m: Matrix) -> Seq<char> {
    describe_head(m) + rows_text_prefix(m, m.spec_row()) + "})"@
}

/// Relies on the decimal `Display` of `usize`: most significant digit
/// first, no sign, no leading zero.
#[verifier::external_body]
fn usize_to_decimal(n: usize) -> (s: String)
    ensures
        s@ == dec_digits(n as nat),
{
    format!("{}", n)
}

/// Relies on the decimal `Display` of `i64`: a minus sign for negatives,
/// then the digits, most significant first, with no leading zero.
#[verifier::external_body]
fn i64_to_decimal(v: i64) -> (s: String)
    ensures
        s@ == dec_int(v as int),
{
    format!("{}", v)
}

/// Relies on String::push_str: appends exactly the given characters.
#[verifier::external_body]
fn append(s: &mut String, t: &str)
    ensures
        final(s)@ == old(s)@ + t@,
{
    s.push_str(t)
}

impl Matrix {
    /// Renders the matrix as `Matrix(row=R, col=C, {..})`, the cells of a
    /// row separated by spaces and the rows by commas.
    pub fn describe(&self) -> (s: String)
        requires
            self.wf(),
        ensures
            s@ == describe_spec(*self),
    {
        let mut s = String::new();
        append(&mut s, "Matrix(row=");
        let rn = usize_to_decimal(self.row);
        append(&mut s, rn.as_str());
        append(&mut s, ", col=");
        let cn = usize_to_decimal(self.col);
        append(&mut s, cn.as_str());
        append(&mut s, ", {");
        assert(s@ =~= describe_head(*self));
        let mut i: usize = 0;
        while i < self.row
            invariant
                self.wf(),
                i <= self.spec_row(),
                s@ == describe_head(*self) + rows_text_prefix(*self, i as int),
            decreases self.spec_row() - i,
        {
            if i > 0 {
                append(&mut s, ", ");
            }
            let mut j: usize = 0;
            while j < self.col
                invariant
                    self.wf(),
                    i < self.spec_row(),
                    j <= self.spec_col(),
                    s@ == describe_head(*self) + rows_text_prefix(*self, i as int) + (if i > 0 {
                        ", "@
                    } else {
                        Seq::<char>::empty()
                    }) + row_text_prefix(*self, i as int, j as int),
                decreases self.spec_col() - j,
            {
                if j > 0 {
                    append(&mut s, " ");
                }
                let v = self.get(i, j);
                let vt = i64_to_decimal(v);
                append(&mut s, vt.as_str());
                assert(s@ =~= describe_head(*self) + rows_text_prefix(*self, i as int) + (if i > 0 {
                    ", "@
                } else {
                    Seq::<char>::empty()
                }) + row_text_prefix(*self, i as int, j as int + 1));
                j = j + 1;
            }
            assert(s@ =~= describe_head(*self) + rows_text_prefix(*self, i as int + 1));
            i = i + 1;
        }
        append(&mut s, "})");
        assert(s@ =~= describe_spec(*self));
        s
    }
}

} // verus!
