use matrix_engine::engine::{
    collect, dispatch, make_task, multiply, multiply_with_pool, perform_task, worker_loop, Msg,
    MsgOutput, MultiplyError, Outcome,
};
use matrix_engine::matrix::Matrix;
use matrix_engine::vector::DotError;

/// Runs the whole engine without spawning: dispatches every task into the
/// worker queues, drains each queue in this thread, then collects.
fn run_with_pool(a: &Matrix, b: &Matrix, pool: usize) -> Result<Matrix, MultiplyError> {
    let mut senders = Vec::new();
    let mut queues = Vec::new();
    let mut k = 0;
    while k < pool {
        let (tx, rx) = std::sync::mpsc::channel::<Msg>();
        senders.push(tx);
        queues.push(rx);
        k += 1;
    }
    let handles = match dispatch(a, b, &senders) {
        Ok(handles) => handles,
        Err(e) => return Err(e),
    };
    drop(senders);
    let budget = a.row_count() * b.col_count();
    for rx in &queues {
        worker_loop(rx, budget);
    }
    collect(handles, a.row_count(), b.col_count())
}

#[test]
fn one_by_one_with_single_worker() {
    let a = Matrix::new(vec![5], 1, 1);
    let b = Matrix::new(vec![7], 1, 1);
    let c = run_with_pool(&a, &b, 1).unwrap();
    assert_eq!(c.row, 1);
    assert_eq!(c.col, 1);
    assert_eq!(c.data, vec![35]);
}

#[test]
fn pool_of_one_serializes_all_tasks() {
    let a = Matrix::new(vec![1, 2, 3, 4, 5, 6], 2, 3);
    let b = Matrix::new(vec![1, 2, 3, 4, 5, 6], 3, 2);
    let (tx, rx) = std::sync::mpsc::channel::<Msg>();
    let senders = vec![tx];
    let handles = dispatch(&a, &b, &senders).unwrap();
    drop(senders);
    let processed = worker_loop(&rx, 4);
    assert_eq!(processed, 4);
    let c = collect(handles, 2, 2).unwrap();
    assert_eq!(c.data, vec![22, 28, 49, 64]);
}

#[test]
fn result_is_independent_of_pool_size() {
    let a = Matrix::new(vec![2, -1, 0, 3, 7, 5, -4, 1, 6, 0, 2, -2], 3, 4);
    let b = Matrix::new(vec![1, 0, -2, 3, 5, -1, 4, 2], 4, 2);
    let reference = multiply(&a, &b).unwrap();
    let mut pool = 1;
    while pool <= 4 {
        let c = run_with_pool(&a, &b, pool).unwrap();
        assert_eq!(c.row, reference.row);
        assert_eq!(c.col, reference.col);
        assert_eq!(c.data, reference.data);
        pool += 1;
    }
}

#[test]
fn mismatch_dispatches_no_task() {
    let a = Matrix::new(vec![1, 2, 3, 4, 5, 6], 2, 3);
    let b = Matrix::new(vec![1, 2, 3, 4], 2, 2);
    let (tx, rx) = std::sync::mpsc::channel::<Msg>();
    let senders = vec![tx];
    let r = multiply_with_pool(&a, &b, &senders);
    assert_eq!(r, Err(MultiplyError::DimensionMismatch));
    drop(senders);
    let processed = worker_loop(&rx, usize::MAX);
    assert_eq!(processed, 0);
}

#[test]
fn closed_worker_queue_fails_dispatch() {
    let a = Matrix::new(vec![1, 2, 3, 4], 2, 2);
    let b = Matrix::new(vec![1, 0, 0, 1], 2, 2);
    let (tx, rx) = std::sync::mpsc::channel::<Msg>();
    drop(rx);
    let senders = vec![tx];
    assert_eq!(
        multiply_with_pool(&a, &b, &senders),
        Err(MultiplyError::WorkerUnavailable)
    );
}

#[test]
fn dropped_completion_handle_aborts() {
    let (tx, rx) = oneshot::channel::<Outcome>();
    drop(tx);
    let r = collect(vec![rx], 1, 1);
    assert_eq!(r, Err(MultiplyError::TaskAborted));
}

#[test]
fn reported_dot_failure_is_propagated() {
    let (tx, rx) = oneshot::channel::<Outcome>();
    tx.send(Err(DotError::Overflow)).unwrap();
    let r = collect(vec![rx], 1, 1);
    assert_eq!(r, Err(MultiplyError::DotProductFailure(DotError::Overflow)));
}

#[test]
fn collector_places_values_by_carried_index() {
    let mut handles = Vec::new();
    let mut senders = Vec::new();
    let mut k = 0;
    while k < 4 {
        let (tx, rx) = oneshot::channel::<Outcome>();
        senders.push(tx);
        handles.push(rx);
        k += 1;
    }
    // Completion order scrambled: handle positions 0..4 carry indices 3,1,2,0.
    let indices = [3usize, 1, 2, 0];
    let values = [30i64, 10, 20, 0];
    for (tx, (idx, val)) in senders
        .into_iter()
        .zip(indices.iter().zip(values.iter()))
    {
        tx.send(Ok(MsgOutput {
            idx: *idx,
            val: *val,
        }))
        .unwrap();
    }
    let c = collect(handles, 2, 2).unwrap();
    assert_eq!(c.data, vec![0, 10, 20, 30]);
}

#[test]
fn out_of_range_index_aborts() {
    let (tx, rx) = oneshot::channel::<Outcome>();
    tx.send(Ok(MsgOutput { idx: 5, val: 9 })).unwrap();
    let r = collect(vec![rx], 1, 1);
    assert_eq!(r, Err(MultiplyError::TaskAborted));
}

#[test]
fn worker_budget_limits_intake() {
    let a = Matrix::new(vec![1, 2, 3, 4], 2, 2);
    let b = Matrix::new(vec![1, 0, 0, 1], 2, 2);
    let (tx, rx) = std::sync::mpsc::channel::<Msg>();
    let senders = vec![tx];
    let handles = dispatch(&a, &b, &senders).unwrap();
    drop(senders);
    assert_eq!(worker_loop(&rx, 3), 3);
    assert_eq!(worker_loop(&rx, 10), 1);
    let c = collect(handles, 2, 2).unwrap();
    assert_eq!(c.data, vec![1, 2, 3, 4]);
}

#[test]
fn empty_output_succeeds_without_tasks() {
    let a = Matrix::new(vec![], 0, 3);
    let b = Matrix::new(vec![], 3, 0);
    let (tx, rx) = std::sync::mpsc::channel::<Msg>();
    let senders = vec![tx];
    let c = multiply_with_pool(&a, &b, &senders).unwrap();
    assert_eq!(c.row, 0);
    assert_eq!(c.col, 0);
    assert_eq!(c.data, vec![]);
    drop(senders);
    assert_eq!(worker_loop(&rx, usize::MAX), 0);
    let d = multiply(&a, &b).unwrap();
    assert_eq!(d.data, vec![]);
}

#[test]
fn task_construction_and_outcome() {
    let a = Matrix::new(vec![1, 2, 3, 4, 5, 6], 2, 3);
    let b = Matrix::new(vec![1, 2, 3, 4, 5, 6], 3, 2);
    // Flat index 2 is row 1, column 0 of the 2x2 output.
    let task = make_task(&a, &b, 2);
    assert_eq!(task.idx, 2);
    assert_eq!(task.row.data, vec![4, 5, 6]);
    assert_eq!(task.col.data, vec![1, 3, 5]);
    let out = perform_task(task).unwrap();
    assert_eq!(out.idx, 2);
    assert_eq!(out.val, 4 * 1 + 5 * 3 + 6 * 5);
}
