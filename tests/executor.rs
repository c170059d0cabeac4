use es_runtime::executor::{EsRuntimeWrapperInner, Job, RunState, Submission, WorkerStep};

fn take(rt: &mut EsRuntimeWrapperInner<u32, u32>) -> Option<u32> {
    match rt.next_step() {
        WorkerStep::Run(Job::Shared(j)) => Some(j),
        WorkerStep::Run(Job::Exclusive(j)) => Some(1000 + j),
        _ => None,
    }
}

#[test]
fn jobs_run_in_submission_order() {
    let mut rt: EsRuntimeWrapperInner<u32, u32> = EsRuntimeWrapperInner::new();
    for j in 0..5 {
        assert!(rt.do_in_es_runtime_thread(j).is_none());
    }
    assert!(matches!(rt.do_in_es_runtime_thread_sync(5, false), Submission::Queued));
    assert!(matches!(rt.do_in_es_runtime_thread_mut_sync(6, false), Submission::Queued));
    assert_eq!(rt.pending(), 7);
    let order: Vec<u32> = (0..7).map(|_| take(&mut rt).unwrap()).collect();
    assert_eq!(order, vec![0, 1, 2, 3, 4, 5, 1006]);
    assert!(matches!(rt.next_step(), WorkerStep::Idle));
}

#[test]
fn sync_submission_on_engine_thread_runs_inline() {
    let mut rt: EsRuntimeWrapperInner<u32, u32> = EsRuntimeWrapperInner::new();
    assert!(matches!(rt.do_in_es_runtime_thread_sync(9, true), Submission::RunInline(9)));
    assert!(matches!(rt.register_op(4, true), Submission::RunInline(4)));
    assert_eq!(rt.pending(), 0);
}

#[test]
fn register_op_is_an_exclusive_job() {
    let mut rt: EsRuntimeWrapperInner<u32, u32> = EsRuntimeWrapperInner::new();
    assert!(matches!(rt.register_op(4, false), Submission::Queued));
    assert!(matches!(rt.next_step(), WorkerStep::Run(Job::Exclusive(4))));
}

#[test]
fn shutdown_drains_then_exits_and_is_idempotent() {
    let mut rt: EsRuntimeWrapperInner<u32, u32> = EsRuntimeWrapperInner::new();
    rt.do_in_es_runtime_thread(1);
    assert!(matches!(rt.cleanup_sync(7, false), Submission::Queued));
    assert_eq!(rt.state(), RunState::Stopping);
    assert!(matches!(rt.cleanup_sync(8, false), Submission::Refused(8)));
    assert_eq!(rt.do_in_es_runtime_thread(2), Some(2));
    assert!(matches!(rt.do_in_es_runtime_thread_sync(3, false), Submission::Refused(3)));
    assert_eq!(take(&mut rt), Some(1));
    assert_eq!(take(&mut rt), Some(1007));
    assert!(matches!(rt.next_step(), WorkerStep::Exit));
    assert_eq!(rt.state(), RunState::Stopped);
    assert!(matches!(rt.cleanup_sync(9, false), Submission::Refused(9)));
}

#[test]
fn shutdown_from_engine_thread_runs_cleanup_inline() {
    let mut rt: EsRuntimeWrapperInner<u32, u32> = EsRuntimeWrapperInner::new();
    assert!(matches!(rt.cleanup_sync(7, true), Submission::RunInline(7)));
    assert_eq!(rt.pending(), 0);
    assert!(matches!(rt.next_step(), WorkerStep::Exit));
}
