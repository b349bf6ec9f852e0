//! The parallel matrix-multiplication engine: task decomposition, worker
//! computation, round-robin dispatch over per-worker queues, and collection
//! of per-task outcomes through single-use completion handles.

use vstd::prelude::*;

use crate::matrix::{
    col_seq, lemma_flat_index_decompose, lemma_flat_index_in_range, lemma_flat_index_unique,
    row_seq, Matrix,
};
use crate::vector::{dot_fits, dot_full, dot_prefix, dot_product, lemma_dot_unit, DotError, Vector};

verus! {

/// Why a whole multiplication can fail.
#[derive(Clone, Copy, Debug, PartialEq, Eq, Structural)]
pub enum MultiplyError {
    /// The operands' inner dimensions disagree; no task was dispatched.
    DimensionMismatch,
    /// A worker's task queue was closed when a task was offered.
    WorkerUnavailable,
    /// A completion handle's sender was dropped without an outcome, or an
    /// outcome addressed no cell of the output.
    TaskAborted,
    /// A worker's dot product failed; the failure is propagated.
    DotProductFailure(DotError),
}

/// One unit of work: the row and column whose dot product fills the output
/// cell at flat index `idx`.
pub struct MsgInput {
    pub idx: usize,
    pub row: Vector,
    pub col: Vector,
}

impl MsgInput {
    pub fn new(idx: usize, row: Vector, col: Vector) -> (t: MsgInput)
        ensures
            t.idx == idx,
            t.row@ == row@,
            t.col@ == col@,
    {
        MsgInput { idx, row, col }
    }
}

/// The computed value for the output cell at flat index `idx`.
#[derive(Clone, Copy)]
pub struct MsgOutput {
    pub idx: usize,
    pub val: i64,
}

/// What one task's completion handle carries: the computed cell, or the
/// failure of its dot product.
pub type Outcome = Result<MsgOutput, DotError>;

/// A task paired with the sending half of its single-use completion handle.
pub struct Msg {
    pub input: MsgInput,
    pub sender: oneshot::Sender<Outcome>,
}

impl Msg {
    pub fn new(input: MsgInput, sender: oneshot::Sender<Outcome>) -> (m: Msg)
        ensures
            m.input == input,
            m.sender == sender,
    {
        Msg { input, sender }
    }
}

#[verifier::external_type_specification]
#[verifier::external_body]
#[verifier::reject_recursive_types(T)]
pub struct ExOneshotSender<T>(oneshot::Sender<T>);

#[verifier::external_type_specification]
#[verifier::external_body]
#[verifier::reject_recursive_types(T)]
pub struct ExOneshotReceiver<T>(oneshot::Receiver<T>);

#[verifier::external_type_specification]
#[verifier::external_body]
#[verifier::reject_recursive_types(T)]
pub struct ExMpscSender<T>(std::sync::mpsc::Sender<T>);

#[verifier::external_type_specification]
#[verifier::external_body]
#[verifier::reject_recursive_types(T)]
pub struct ExMpscReceiver<T>(std::sync::mpsc::Receiver<T>);

/// Relies on oneshot::channel: a fresh single-use channel whose sending half
/// delivers at most one message to its receiving half.
#[verifier::external_body]
fn new_completion() -> (oneshot::Sender<Outcome>, oneshot::Receiver<Outcome>) {
    oneshot::channel()
}

/// Relies on oneshot::Sender::send: consumes the handle and delivers the
/// message, or hands the message back when the receiver is already gone.
#[verifier::external_body]
fn send_outcome(tx: oneshot::Sender<Outcome>, out: Outcome) -> (r: Result<(), Outcome>)
    ensures
        r matches Err(back) ==> back == out,
{
    match tx.send(out) {
        Ok(()) => Ok(()),
        Err(e) => Err(e.into_inner()),
    }
}

/// Relies on oneshot::Receiver::recv: blocks until the single message
/// arrives; `None` when the sender was dropped without sending.
#[verifier::external_body]
fn recv_outcome(rx: oneshot::Receiver<Outcome>) -> (r: Option<Outcome>) {
    rx.recv().ok()
}

/// Relies on std::sync::mpsc::Sender::send: enqueues the message for the
/// queue's receiver, or hands it back when the receiver is already gone.
#[verifier::external_body]
fn send_task(tx: &std::sync::mpsc::Sender<Msg>, m: Msg) -> (r: Result<(), Msg>)
    ensures
        r matches Err(back) ==> back == m,
{
    match tx.send(m) {
        Ok(()) => Ok(()),
        Err(e) => Err(e.0),
    }
}

/// Relies on std::sync::mpsc::Receiver::recv: blocks until a message is
/// available; `None` once every sender is dropped and the queue is drained.
#[verifier::external_body]
fn recv_task(rx: &std::sync::mpsc::Receiver<Msg>) -> (r: Option<Msg>) {
    rx.recv().ok()
}

/// Row `i` of `a` as an independently owned copy.
pub fn extract_row(a: &Matrix, i: usize) -> (v: Vector)
    requires
        a.wf(),
        i < a.spec_row(),
    ensures
        v@ == row_seq(*a, i as int),
{
    let mut out: Vec<i64> = Vec::new();
    let mut k: usize = 0;
    while k < a.col
        invariant
            a.wf(),
            i < a.spec_row(),
            k <= a.spec_col(),
            out@.len() == k,
            forall|t: int| 0 <= t < k ==> out@[t] == a.cell(i as int, t),
        decreases a.spec_col() - k,
    {
        let x = a.get(i, k);
        out.push(x);
        k = k + 1;
    }
    assert(out@ =~= row_seq(*a, i as int));
    Vector::new(out)
}

/// Column `j` of `b` as an independently owned copy.
pub fn extract_col(b: &Matrix, j: usize) -> (v: Vector)
    requires
        b.wf(),
        j < b.spec_col(),
    ensures
        v@ == col_seq(*b, j as int),
{
    let mut out: Vec<i64> = Vec::new();
    let mut k: usize = 0;
    while k < b.row
        invariant
            b.wf(),
            j < b.spec_col(),
            k <= b.spec_row(),
            out@.len() == k,
            forall|t: int| 0 <= t < k ==> out@[t] == b.cell(t, j as int),
        decreases b.spec_row() - k,
    {
        let x = b.get(k, j);
        out.push(x);
        k = k + 1;
    }
    assert(out@ =~= col_seq(*b, j as int));
    Vector::new(out)
}

/// Builds the task for the output cell at flat index `idx`: row `idx / n`
/// of `a` and column `idx % n` of `b`, where `n` is the output's width.
pub fn make_task(a: &Matrix, b: &Matrix, idx: usize) -> (t: MsgInput)
    requires
        a.wf(),
        b.wf(),
        a.spec_col() == b.spec_row(),
        idx < a.spec_row() * b.spec_col(),
    ensures
        t.idx == idx,
        t.row@ == row_seq(*a, idx as int / b.spec_col()),
        t.col@ == col_seq(*b, idx as int % b.spec_col()),
        t.row@.len() == t.col@.len(),
{
    proof {
        if b.spec_col() == 0 {
            assert(a.spec_row() * 0 == 0) by (nonlinear_arith);
        }
        lemma_flat_index_decompose(idx as int, a.spec_row(), b.spec_col());
    }
    let i = idx / b.col;
    let j = idx % b.col;
    let row = extract_row(a, i);
    let col = extract_col(b, j);
    MsgInput::new(idx, row, col)
}

/// The one outcome a task can have, as a function of the task alone.
/// Which worker runs the task, and after which other tasks, cannot change
/// it — this is what makes the result independent of the pool size and of
/// the task-to-worker assignment.
pub open spec fn outcome_spec(input: MsgInput) -> Outcome {
    if input.row@.len() != input.col@.len() {
        Err(DotError::LengthMismatch)
    } else if !dot_fits(input.row@, input.col@) {
        Err(DotError::Overflow)
    } else {
        Ok(MsgOutput { idx: input.idx, val: (dot_full(input.row@, input.col@)) as i64 })
    }
}

/// Computes one task: the dot product of its row and column. On success the
/// outcome carries the task's own target index and exactly the mathematical
/// dot product; a dot-product failure is reported, not panicked.
pub fn perform_task(input: MsgInput) -> (r: Outcome)
    ensures
        r == outcome_spec(input),
{
    let MsgInput { idx, row, col } = input;
    match dot_product(row, col) {
        Ok(v) => Ok(MsgOutput { idx, val: v }),
        Err(e) => Err(e),
    }
}

/// The dot product of row `i` of `a` and column `j` of `b` stays in `i64`.
pub open spec fn cell_fits(a: Matrix, b: Matrix, i: int, j: int) -> bool {
    dot_fits(row_seq(a, i), col_seq(b, j))
}

/// Every cell of the product of `a` and `b` stays in `i64`.
pub open spec fn mul_fits(a: Matrix, b: Matrix) -> bool {
    forall|i: int, j: int|
        0 <= i < a.spec_row() && 0 <= j < b.spec_col() ==> #[trigger] cell_fits(a, b, i, j)
}

/// Cell `(i, j)` of the product: the sum over `k` of `a[i][k] * b[k][j]`,
/// exactly the naive triple-loop product.
pub open spec fn product_cell(a: Matrix, b: Matrix, i: int, j: int) -> int {
    dot_full(row_seq(a, i), col_seq(b, j))
}

/// The first `k` terms of the naive triple-loop sum for cell `(i, j)`:
/// `a[i][0] * b[0][j] + ... + a[i][k-1] * b[k-1][j]`, written directly
/// over the operands' cells.
pub open spec fn naive_cell_prefix(a: Matrix, b: Matrix, i: int, j: int, k: int) -> int
    decreases k,
{
    if k <= 0 {
        0
    } else {
        naive_cell_prefix(a, b, i, j, k - 1) + a.cell(i, k - 1) * b.cell(k - 1, j)
    }
}

/// Cell `(i, j)` as the naive triple loop computes it: the full inner sum.
pub open spec fn naive_cell(a: Matrix, b: Matrix, i: int, j: int) -> int {
    naive_cell_prefix(a, b, i, j, a.spec_col())
}

/// Each prefix of a cell's dot product is the matching prefix of the naive
/// triple-loop sum.
proof fn lemma_prefix_is_naive(a: Matrix, b: Matrix, i: int, j: int, k: int)
    requires
        a.spec_col() == b.spec_row(),
        0 <= k <= a.spec_col(),
    ensures
        dot_prefix(row_seq(a, i), col_seq(b, j), k) == naive_cell_prefix(a, b, i, j, k),
    decreases k,
{
    if k > 0 {
        lemma_prefix_is_naive(a, b, i, j, k - 1);
        assert(row_seq(a, i)[k - 1] == a.cell(i, k - 1));
        assert(col_seq(b, j)[k - 1] == b.cell(k - 1, j));
    }
}

/// The engine's per-cell formula is the naive triple-loop product: what a
/// task computes for cell `(i, j)` equals `a[i][0] * b[0][j] + ... +
/// a[i][K-1] * b[K-1][j]` for the shared inner dimension `K`.
pub proof fn lemma_product_is_naive(a: Matrix, b: Matrix, i: int, j: int)
    requires
        a.spec_col() == b.spec_row(),
    ensures
        product_cell(a, b, i, j) == naive_cell(a, b, i, j),
{
    lemma_prefix_is_naive(a, b, i, j, a.spec_col());
}

/// The whole product as one flat row-major buffer.
pub open spec fn product_seq(a: Matrix, b: Matrix) -> Seq<i64> {
    Seq::new(
        (a.spec_row() * b.spec_col()) as nat,
        |t: int| (product_cell(a, b, t / b.spec_col(), t % b.spec_col())) as i64,
    )
}

/// What `multiply` returns, as a function of its operands alone: the
/// dimension error on incompatible operands, the propagated overflow when
/// some cell's dot product leaves `i64`, and otherwise the product buffer.
pub open spec fn multiply_spec(a: Matrix, b: Matrix) -> Result<Seq<i64>, MultiplyError> {
    if a.spec_col() != b.spec_row() {
        Err(MultiplyError::DimensionMismatch)
    } else if !mul_fits(a, b) {
        Err(MultiplyError::DotProductFailure(DotError::Overflow))
    } else {
        Ok(product_seq(a, b))
    }
}

/// A multiplication result reduced to its flat buffer.
pub open spec fn result_view(r: Result<Matrix, MultiplyError>) -> Result<Seq<i64>, MultiplyError> {
    match r {
        Ok(m) => Ok(m.spec_data()),
        Err(e) => Err(e),
    }
}

/// Multiplies two matrices, one dot-product task per output cell, and
/// assembles each task's value at its own target index.
///
/// Returns `DimensionMismatch` exactly when the inner dimensions disagree,
/// the propagated dot-product failure when some cell overflows `i64`, and
/// otherwise the product matrix, equal cell by cell to the naive
/// triple-loop product.
pub fn multiply(a: &Matrix, b: &Matrix) -> (r: Result<Matrix, MultiplyError>)
    requires
        a.wf(),
        b.wf(),
        a.spec_col() == b.spec_row() ==> a.spec_row() * b.spec_col() <= usize::MAX,
    ensures
        result_view(r) == multiply_spec(*a, *b),
        (a.spec_col() != b.spec_row()) <==> r == Err::<Matrix, MultiplyError>(
            MultiplyError::DimensionMismatch,
        ),
        r matches Ok(m) ==> m.wf() && m.spec_row() == a.spec_row() && m.spec_col()
            == b.spec_col() && (forall|i: int, j: int|
            0 <= i < a.spec_row() && 0 <= j < b.spec_col() ==> #[trigger] m.cell(i, j) == (
            product_cell(*a, *b, i, j)) as i64),
{
    if a.col != b.row {
        return Err(MultiplyError::DimensionMismatch);
    }
    let n = a.row * b.col;
    let mut data: Vec<i64> = Vec::new();
    let mut idx: usize = 0;
    while idx < n
        invariant
            a.wf(),
            b.wf(),
            a.spec_col() == b.spec_row(),
            n == a.spec_row() * b.spec_col(),
            idx <= n,
            data@.len() == idx,
            forall|t: int|
                0 <= t < idx ==> #[trigger] cell_fits(*a, *b, t / b.spec_col(), t % b.spec_col()),
            forall|t: int|
                0 <= t < idx ==> #[trigger] data@[t] == (product_cell(
                    *a,
                    *b,
                    t / b.spec_col(),
                    t % b.spec_col(),
                )) as i64,
        decreases n - idx,
    {
        let input = make_task(a, b, idx);
        match perform_task(input) {
            Ok(out) => {
                data.push(out.val);
            },
            Err(e) => {
                proof {
                    if b.spec_col() == 0 {
                        assert(a.spec_row() * 0 == 0) by (nonlinear_arith);
                    }
                    lemma_flat_index_decompose(idx as int, a.spec_row(), b.spec_col());
                    assert(!cell_fits(*a, *b, idx as int / b.spec_col(), idx as int % b.spec_col()));
                    assert(!mul_fits(*a, *b));
                }
                return Err(MultiplyError::DotProductFailure(e));
            },
        }
        idx = idx + 1;
    }
    proof {
        assert forall|i: int, j: int|
            0 <= i < a.spec_row() && 0 <= j < b.spec_col() implies #[trigger] cell_fits(
            *a,
            *b,
            i,
            j,
        ) by {
            lemma_flat_index_in_range(i, j, a.spec_row(), b.spec_col());
            lemma_flat_index_decompose(i * b.spec_col() + j, a.spec_row(), b.spec_col());
            lemma_flat_index_unique(
                i,
                j,
                (i * b.spec_col() + j) / b.spec_col(),
                (i * b.spec_col() + j) % b.spec_col(),
                b.spec_col(),
            );
        }
        assert(mul_fits(*a, *b));
        assert(data@ =~= product_seq(*a, *b));
    }
    let m = Matrix::new(data, a.row, b.col);
    proof {
        assert forall|i: int, j: int|
            0 <= i < a.spec_row() && 0 <= j < b.spec_col() implies #[trigger] m.cell(i, j) == (
        product_cell(*a, *b, i, j)) as i64 by {
            lemma_flat_index_in_range(i, j, a.spec_row(), b.spec_col());
            lemma_flat_index_decompose(i * b.spec_col() + j, a.spec_row(), b.spec_col());
            lemma_flat_index_unique(
                i,
                j,
                (i * b.spec_col() + j) / b.spec_col(),
                (i * b.spec_col() + j) % b.spec_col(),
                b.spec_col(),
            );
        }
    }
    Ok(m)
}

/// A worker's task loop: receives tasks from its private queue until the
/// queue is closed and drained, computes each task's dot product, and
/// reports the outcome — value or failure — through that task's own
/// completion handle. A send whose receiver is already gone is dropped;
/// it is non-fatal to the worker.
///
/// `budget` bounds how many tasks the worker takes; one multiplication
/// dispatches `a.row * b.col` tasks in all, so that count — or anything
/// larger — never cuts a worker short. Returns how many tasks the worker
/// processed. What each outcome holds is `perform_task`'s contract; this
/// loop only moves messages.
pub fn worker_loop(rx: &std::sync::mpsc::Receiver<Msg>, budget: usize) -> (count: usize)
    ensures
        count <= budget,
{
    let mut count: usize = 0;
    while count < budget
        invariant
            count <= budget,
        decreases budget - count,
    {
        match recv_task(rx) {
            None => {
                return count;
            },
            Some(msg) => {
                let Msg { input, sender } = msg;
                let out = perform_task(input);
                let _ = send_outcome(sender, out);
                count = count + 1;
            },
        }
    }
    count
}

/// Decomposes the product of `a` and `b` into one task per output cell and
/// sends task `t` to worker `t mod P`, where `P` is the number of worker
/// queues; returns the tasks' completion handles in submission order. Task
/// `t` carries target index `t`, so the handle at position `t` belongs to
/// output cell `t` — every cell gets exactly one task and one handle.
///
/// Fails with `WorkerUnavailable` as soon as some worker's queue is closed.
pub fn dispatch(a: &Matrix, b: &Matrix, senders: &Vec<std::sync::mpsc::Sender<Msg>>) -> (r: Result<
    Vec<oneshot::Receiver<Outcome>>,
    MultiplyError,
>)
    requires
        a.wf(),
        b.wf(),
        a.spec_col() == b.spec_row(),
        senders@.len() >= 1,
        a.spec_row() * b.spec_col() <= usize::MAX,
    ensures
        r matches Ok(handles) ==> handles@.len() == a.spec_row() * b.spec_col(),
        r matches Err(e) ==> e == MultiplyError::WorkerUnavailable,
        a.spec_row() * b.spec_col() == 0 ==> r is Ok,
{
    let n = a.row * b.col;
    let mut handles: Vec<oneshot::Receiver<Outcome>> = Vec::new();
    let mut idx: usize = 0;
    while idx < n
        invariant
            a.wf(),
            b.wf(),
            a.spec_col() == b.spec_row(),
            senders@.len() >= 1,
            n == a.spec_row() * b.spec_col(),
            idx <= n,
            handles@.len() == idx,
        decreases n - idx,
    {
        let input = make_task(a, b, idx);
        let (tx, rx) = new_completion();
        let msg = Msg::new(input, tx);
        let w = idx % senders.len();
        match send_task(&senders[w], msg) {
            Ok(()) => {
                handles.push(rx);
            },
            Err(_) => {
                return Err(MultiplyError::WorkerUnavailable);
            },
        }
        idx = idx + 1;
    }
    Ok(handles)
}

/// Writes one outcome into its own slot of the result buffer: cell
/// `out.idx` takes `out.val` and no other cell changes. Reports `false`,
/// and leaves the buffer unchanged, when the index addresses no cell.
pub fn apply_outcome(data: &mut Vec<i64>, out: &MsgOutput) -> (ok: bool)
    ensures
        ok <==> (out.idx as int) < old(data)@.len(),
        ok ==> final(data)@ == old(data)@.update(out.idx as int, out.val),
        !ok ==> final(data)@ == old(data)@,
{
    if out.idx < data.len() {
        data.set(out.idx, out.val);
        true
    } else {
        false
    }
}

/// Awaits every completion handle in submission order and assembles the
/// result: each received value is written at the target index it carries,
/// never at the handle's position, so the result is right under any
/// completion interleaving. The first failure — a dropped handle
/// (`TaskAborted`) or a reported dot-product failure — is remembered and
/// returned after every remaining handle has been drained.
pub fn collect(handles: Vec<oneshot::Receiver<Outcome>>, row: usize, col: usize) -> (r: Result<
    Matrix,
    MultiplyError,
>)
    requires
        handles@.len() == row * col,
    ensures
        r matches Ok(m) ==> m.wf() && m.spec_row() == row && m.spec_col() == col,
        r matches Err(e) ==> e != MultiplyError::DimensionMismatch && e
            != MultiplyError::WorkerUnavailable,
        handles@.len() == 0 ==> r is Ok,
{
    let n = handles.len();
    let mut data: Vec<i64> = Vec::new();
    let mut k: usize = 0;
    while k < n
        invariant
            k <= n,
            data@.len() == k,
        decreases n - k,
    {
        data.push(0i64);
        k = k + 1;
    }
    let mut first_err: Option<MultiplyError> = None;
    let mut handles = handles;
    while handles.len() > 0
        invariant
            data@.len() == n,
            first_err matches Some(e) ==> e != MultiplyError::DimensionMismatch && e
                != MultiplyError::WorkerUnavailable,
            n == 0 ==> first_err is None && handles@.len() == 0,
        decreases handles@.len(),
    {
        let rx = handles.remove(0);
        let failure: Option<MultiplyError> = match recv_outcome(rx) {
            None => Some(MultiplyError::TaskAborted),
            Some(Ok(out)) => {
                if apply_outcome(&mut data, &out) {
                    None
                } else {
                    Some(MultiplyError::TaskAborted)
                }
            },
            Some(Err(e)) => Some(MultiplyError::DotProductFailure(e)),
        };
        if first_err.is_none() {
            first_err = failure;
        }
    }
    match first_err {
        Some(e) => Err(e),
        None => Ok(Matrix::new(data, row, col)),
    }
}

/// The whole engine over a given worker pool: checks the operands' inner
/// dimensions, dispatches one task per output cell round-robin over the
/// workers' queues, and collects every outcome into the product matrix.
///
/// Fails with `DimensionMismatch`, before any task is dispatched, exactly
/// when `a.col != b.row`. The workers behind the queues run `worker_loop`;
/// what each collected value holds is `perform_task`'s contract, carried
/// across the queues by the channels this function trusts.
pub fn multiply_with_pool(a: &Matrix, b: &Matrix, senders: &Vec<std::sync::mpsc::Sender<Msg>>) -> (r:
    Result<Matrix, MultiplyError>)
    requires
        a.wf(),
        b.wf(),
        senders@.len() >= 1,
        a.spec_col() == b.spec_row() ==> a.spec_row() * b.spec_col() <= usize::MAX,
    ensures
        (a.spec_col() != b.spec_row()) <==> r == Err::<Matrix, MultiplyError>(
            MultiplyError::DimensionMismatch,
        ),
        r matches Ok(m) ==> m.wf() && m.spec_row() == a.spec_row() && m.spec_col() == b.spec_col(),
        a.spec_col() == b.spec_row() && a.spec_row() * b.spec_col() == 0 ==> r is Ok,
{
    if a.col != b.row {
        return Err(MultiplyError::DimensionMismatch);
    }
    let handles = match dispatch(a, b, senders) {
        Ok(handles) => handles,
        Err(e) => {
            return Err(e);
        },
    };
    collect(handles, a.row, b.col)
}

/// Multiplying by the identity on the left returns the other operand
/// unchanged: for any well-formed `b` and the identity whose size matches
/// `b`'s row count, the product is exactly `b`'s buffer — every cell fits,
/// and no error can come out.
pub proof fn lemma_identity_multiply(id: Matrix, b: Matrix)
    requires
        id.is_identity(),
        b.wf(),
        id.spec_col() == b.spec_row(),
    ensures
        multiply_spec(id, b) == Ok::<Seq<i64>, MultiplyError>(b.spec_data()),
{
    let c = b.spec_col();
    assert forall|i: int, j: int| 0 <= i < id.spec_row() && 0 <= j < c implies #[trigger] cell_fits(
        id,
        b,
        i,
        j,
    ) && product_cell(id, b, i, j) == b.cell(i, j) as int by {
        let x = row_seq(id, i);
        let y = col_seq(b, j);
        assert forall|k: int| 0 <= k < x.len() implies #[trigger] x[k] == if k == i {
            1i64
        } else {
            0i64
        } by {
            assert(x[k] == id.cell(i, k));
        }
        lemma_dot_unit(x, y, i, x.len() as int);
        assert forall|k: int| 0 <= k <= x.len() implies i64::MIN <= #[trigger] dot_prefix(x, y, k)
            <= i64::MAX by {
            lemma_dot_unit(x, y, i, k);
        }
        assert(dot_fits(x, y));
        assert(dot_full(x, y) == y[i]);
        assert(y[i] == b.cell(i, j));
    }
    assert(mul_fits(id, b));
    assert forall|t: int| 0 <= t < id.spec_row() * c implies product_seq(id, b)[t]
        == b.spec_data()[t] by {
        lemma_flat_index_decompose(t, b.spec_row(), c);
        assert(cell_fits(id, b, t / c, t % c) && product_cell(id, b, t / c, t % c) == b.cell(
            t / c,
            t % c,
        ) as int);
    }
    assert(product_seq(id, b) =~= b.spec_data());
}

/// Two results of multiplying the same operands are the same: same success
/// or failure, the same error, and on success the same dimensions and the
/// same buffer. Calling `multiply` twice with the same inputs yields
/// identical outputs.
pub proof fn lemma_multiply_deterministic(
    a: Matrix,
    b: Matrix,
    r1: Result<Matrix, MultiplyError>,
    r2: Result<Matrix, MultiplyError>,
)
    requires
        result_view(r1) == multiply_spec(a, b),
        result_view(r2) == multiply_spec(a, b),
        r1 matches Ok(m) ==> m.spec_row() == a.spec_row() && m.spec_col() == b.spec_col(),
        r2 matches Ok(m) ==> m.spec_row() == a.spec_row() && m.spec_col() == b.spec_col(),
    ensures
        result_view(r1) == result_view(r2),
        r1 is Ok <==> r2 is Ok,
        r1 matches Ok(m1) ==> r2 matches Ok(m2) ==> m1.spec_data() == m2.spec_data()
            && m1.spec_row() == m2.spec_row() && m1.spec_col() == m2.spec_col(),
        r1 matches Err(e1) ==> r2 matches Err(e2) ==> e1 == e2,
{
    match (r1, r2) {
        (Ok(m1), Ok(m2)) => {
            assert(result_view(r1) == Ok::<Seq<i64>, MultiplyError>(m1.spec_data()));
            assert(result_view(r2) == Ok::<Seq<i64>, MultiplyError>(m2.spec_data()));
        },
        (Err(e1), Err(e2)) => {
            assert(result_view(r1) == Err::<Seq<i64>, MultiplyError>(e1));
            assert(result_view(r2) == Err::<Seq<i64>, MultiplyError>(e2));
        },
        (Ok(m1), Err(e2)) => {
            assert(result_view(r1) == Ok::<Seq<i64>, MultiplyError>(m1.spec_data()));
            assert(result_view(r2) == Err::<Seq<i64>, MultiplyError>(e2));
        },
        (Err(e1), Ok(m2)) => {
            assert(result_view(r1) == Err::<Seq<i64>, MultiplyError>(e1));
            assert(result_view(r2) == Ok::<Seq<i64>, MultiplyError>(m2.spec_data()));
        },
    }
}

/// Round-robin assignment always addresses a worker of the pool: for any
/// pool of `p >= 1` workers, task `idx` goes to worker `idx % p`, which
/// exists. No task is lost for any pool size, which is what lets the
/// result be the same whatever the pool size is.
pub proof fn lemma_round_robin_in_pool(idx: int, p: int)
    requires
        p >= 1,
        0 <= idx,
    ensures
        0 <= idx % p < p,
{
    assert(0 <= idx % p < p) by (nonlinear_arith)
        requires
            p >= 1,
            0 <= idx,
    ;
}

} // verus!
