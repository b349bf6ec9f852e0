//! Owned numeric vectors and the checked dot-product primitive.

use vstd::prelude::*;

verus! {

/// An owned sequence of 64-bit integers; the operand of a dot product.
pub struct Vector {
    pub data: Vec<i64>,
}

impl View for Vector {
    type V = Seq<i64>;

    open spec fn view(&self) -> Seq<i64> {
        self.data@
    }
}

impl Vector {
    pub fn new(data: Vec<i64>) -> (v: Vector)
        ensures
            v@ == data@,
    {
        Vector { data }
    }

    pub fn len(&self) -> (n: usize)
        ensures
            n == self@.len(),
    {
        self.data.len()
    }
}

/// Why a dot product can fail.
#[derive(Clone, Copy, Debug, PartialEq, Eq, Structural)]
pub enum DotError {
    /// The two operands have different lengths.
    LengthMismatch,
    /// A product or a partial sum left the `i64` range.
    Overflow,
}

/// The dot product of the first `n` elements of `x` and `y`.
pub open spec fn dot_prefix(x: Seq<i64>, y: Seq<i64>, n: int) -> int
    decreases n,
{
    if n <= 0 {
        0
    } else {
        dot_prefix(x, y, n - 1) + x[n - 1] * y[n - 1]
    }
}

/// The full dot product of two equal-length sequences.
pub open spec fn dot_full(x: Seq<i64>, y: Seq<i64>) -> int {
    dot_prefix(x, y, x.len() as int)
}

/// The left-to-right checked evaluation of the dot product stays within
/// `i64`: every elementwise product and every partial sum is in range.
pub open spec fn dot_fits(x: Seq<i64>, y: Seq<i64>) -> bool {
    &&& forall|k: int| 0 <= k < x.len() ==> i64::MIN <= #[trigger] (x[k] * y[k]) <= i64::MAX
    &&& forall|k: int| 0 <= k <= x.len() ==> i64::MIN <= #[trigger] dot_prefix(x, y, k) <= i64::MAX
}

/// A dot product against a unit sequence — one at position `i`, zero
/// elsewhere — selects `y[i]`: the prefix sum is `0` until the prefix
/// covers position `i` and `y[i]` from then on. Every elementwise product
/// and every partial sum is itself `0` or `y[i]`, so such a dot product
/// always stays in range.
pub proof fn lemma_dot_unit(x: Seq<i64>, y: Seq<i64>, i: int, n: int)
    requires
        x.len() == y.len(),
        0 <= i < x.len(),
        0 <= n <= x.len(),
        forall|k: int| 0 <= k < x.len() ==> #[trigger] x[k] == if k == i {
            1i64
        } else {
            0i64
        },
    ensures
        dot_prefix(x, y, n) == if n > i {
            y[i] as int
        } else {
            0
        },
        forall|k: int| 0 <= k < n ==> #[trigger] (x[k] * y[k]) == if k == i {
            y[i] as int
        } else {
            0
        },
    decreases n,
{
    if n > 0 {
        lemma_dot_unit(x, y, i, n - 1);
        assert(x[n - 1] * y[n - 1] == if n - 1 == i {
            y[n - 1] as int
        } else {
            0
        }) by (nonlinear_arith)
            requires
                x[n - 1] == if n - 1 == i {
                    1i64
                } else {
                    0i64
                },
        ;
    }
}

/// Computes the dot product of two vectors with checked `i64` arithmetic.
///
/// Fails with `LengthMismatch` when the operands differ in length, and with
/// `Overflow` when some product or partial sum leaves the `i64` range;
/// otherwise returns exactly the mathematical dot product.
pub fn dot_product(a: Vector, b: Vector) -> (r: Result<i64, DotError>)
    ensures
        a@.len() != b@.len() ==> r == Err::<i64, DotError>(DotError::LengthMismatch),
        a@.len() == b@.len() && dot_fits(a@, b@) ==> r == Ok::<i64, DotError>(
            (dot_full(a@, b@)) as i64,
        ),
        a@.len() == b@.len() && !dot_fits(a@, b@) ==> r == Err::<i64, DotError>(
            DotError::Overflow,
        ),
{
    let n = a.data.len();
    if n != b.data.len() {
        return Err(DotError::LengthMismatch);
    }
    let mut acc: i64 = 0;
    let mut k: usize = 0;
    while k < n
        invariant
            a@.len() == n,
            b@.len() == n,
            k <= n,
            acc == dot_prefix(a@, b@, k as int),
            forall|t: int| 0 <= t < k ==> i64::MIN <= #[trigger] (a@[t] * b@[t]) <= i64::MAX,
            forall|t: int| 0 <= t <= k ==> i64::MIN <= #[trigger] dot_prefix(a@, b@, t)
                <= i64::MAX,
        decreases n - k,
    {
        let p = match a.data[k].checked_mul(b.data[k]) {
            Some(p) => p,
            None => {
                return Err(DotError::Overflow);
            },
        };
        acc = match acc.checked_add(p) {
            Some(s) => s,
            None => {
                assert(dot_prefix(a@, b@, k as int + 1) == acc + a@[k as int] * b@[k as int]);
                return Err(DotError::Overflow);
            },
        };
        k = k + 1;
    }
    Ok(acc)
}

} // verus!
