use estado_transparente::collect::{
    acquired_count, collect_advance, collect_step, CollectAction, CollectEvent, CollectPhase,
    CollectState,
};
use estado_transparente::sources::{FetchTarget, JobStatus, Source, SourceUrl};

fn address(year: Option<i32>, url: &str) -> SourceUrl {
    SourceUrl { year, month: None, quarter: None, url: url.to_string(), description: String::new() }
}

fn some_source(requires_api_key: bool, urls: Vec<SourceUrl>) -> Source {
    Source {
        id: "dipres-ley".to_string(),
        name: "Ley de Presupuestos".to_string(),
        description: String::new(),
        provider: "DIPRES".to_string(),
        category: String::new(),
        format: "csv".to_string(),
        urls,
        api_url: None,
        requires_api_key,
        parser: String::new(),
        enabled: true,
    }
}

fn failed(message: &str) -> CollectEvent {
    CollectEvent::FetchFailed { message: message.to_string() }
}

#[test]
fn a_batch_opens_the_job_run_fetches_in_order_and_closes_it() {
    let source = some_source(false, vec![address(Some(2025), "u1"), address(None, "u2"), address(Some(2026), "u3")]);
    let (state, action) = collect_step(&source, false, CollectState::new(), CollectEvent::Begin, 9);
    assert_eq!(action, CollectAction::OpenJobRun { job_run_id: 9, source_id: "dipres-ley".to_string() });
    assert_eq!(state.phase, CollectPhase::OpeningJob);
    let (state, action) = collect_step(&source, false, state, CollectEvent::Written, 10);
    assert_eq!(action, CollectAction::Fetch { index: 0 });
    assert_eq!(
        state.target(0),
        Some(&FetchTarget { source_id: "dipres-ley-2025".to_string(), url: "u1".to_string() })
    );
    assert_eq!(state.target(3), None);
    let (state, action) = collect_step(&source, false, state, CollectEvent::Fetched, 11);
    assert_eq!(action, CollectAction::Fetch { index: 1 });
    let (state, action) = collect_step(&source, false, state, failed("timeout"), 12);
    assert_eq!(action, CollectAction::Fetch { index: 2 });
    let (state, action) = collect_step(&source, false, state, CollectEvent::Fetched, 13);
    assert_eq!(
        action,
        CollectAction::CloseJobRun {
            job_run_id: 9,
            status: JobStatus::Partial,
            error: Some("Some URLs failed".to_string())
        }
    );
    let (state, action) = collect_step(&source, false, state, CollectEvent::Written, 14);
    assert_eq!(action, CollectAction::Finish { status: JobStatus::Partial, collected: 2, failed: 1 });
    assert_eq!(state.phase, CollectPhase::Done);
    assert_eq!(state.fetched, vec![true, false, true]);
}

#[test]
fn a_batch_without_failures_is_closed_as_ok() {
    let source = some_source(false, vec![address(None, "u1")]);
    let (state, _) = collect_step(&source, false, CollectState::new(), CollectEvent::Begin, 1);
    let (state, _) = collect_step(&source, false, state, CollectEvent::Written, 1);
    let (_, action) = collect_step(&source, false, state, CollectEvent::Fetched, 1);
    assert_eq!(
        action,
        CollectAction::CloseJobRun { job_run_id: 1, status: JobStatus::Succeeded, error: None }
    );
    let empty = some_source(false, vec![]);
    let (state, _) = collect_step(&empty, false, CollectState::new(), CollectEvent::Begin, 2);
    let (_, action) = collect_step(&empty, false, state, CollectEvent::Written, 2);
    assert_eq!(
        action,
        CollectAction::CloseJobRun { job_run_id: 2, status: JobStatus::Succeeded, error: None }
    );
}

#[test]
fn a_run_whose_every_fetch_fails_closes_the_job_run_as_failed() {
    let source = some_source(false, vec![address(None, "u1")]);
    let (state, _) = collect_step(&source, false, CollectState::new(), CollectEvent::Begin, 1);
    let (state, _) = collect_step(&source, false, state, CollectEvent::Written, 1);
    let (state, action) = collect_step(&source, false, state, failed("HTTP 404"), 1);
    assert_eq!(
        action,
        CollectAction::CloseJobRun {
            job_run_id: 1,
            status: JobStatus::Failed,
            error: Some("HTTP 404".to_string())
        }
    );
    let (state, action) = collect_step(&source, false, state, CollectEvent::Written, 1);
    assert_eq!(action, CollectAction::Finish { status: JobStatus::Failed, collected: 0, failed: 1 });
    assert_eq!(state.last_error, "HTTP 404");
}

#[test]
fn a_dry_run_leaves_the_audit_trail_alone() {
    let source = some_source(false, vec![address(None, "u1"), address(None, "u2")]);
    let (state, action) = collect_step(&source, true, CollectState::new(), CollectEvent::Begin, 1);
    assert_eq!(action, CollectAction::Fetch { index: 0 });
    let (state, action) = collect_step(&source, true, state, CollectEvent::Fetched, 1);
    assert_eq!(action, CollectAction::Fetch { index: 1 });
    let (_, action) = collect_step(&source, true, state, CollectEvent::Fetched, 1);
    assert_eq!(action, CollectAction::Finish { status: JobStatus::Succeeded, collected: 2, failed: 0 });
}

#[test]
fn a_source_that_needs_a_key_is_skipped() {
    let source = some_source(true, vec![address(None, "u1")]);
    let (state, action) =
        collect_step(&source, false, CollectState::new(), CollectEvent::Begin, 1);
    assert_eq!(action, CollectAction::Skip);
    assert_eq!(state.phase, CollectPhase::Done);
    assert!(state.targets.is_empty());
}

#[test]
fn a_failure_of_the_audit_trail_ends_the_run() {
    let source = some_source(false, vec![address(None, "u1")]);
    let (state, _) = collect_step(&source, false, CollectState::new(), CollectEvent::Begin, 1);
    let (state, action) = collect_step(&source, false, state, CollectEvent::StoreFailed, 1);
    assert_eq!(action, CollectAction::Abort);
    assert_eq!(state.phase, CollectPhase::Failed);
    let (_, action) = collect_step(&source, false, CollectState::new(), CollectEvent::Fetched, 1);
    assert_eq!(action, CollectAction::Abort);
}

#[test]
fn the_job_run_gets_an_identifier_of_its_own() {
    let source = some_source(false, vec![]);
    match collect_advance(&source, false, CollectState::new(), CollectEvent::Begin) {
        (state, CollectAction::OpenJobRun { job_run_id, .. }) => {
            assert_eq!(state.job_run_id, job_run_id);
            assert_eq!(uuid::Uuid::from_u128(job_run_id).get_version_num(), 4);
        }
        other => panic!("unexpected {:?}", other.1),
    }
    assert_eq!(acquired_count(&vec![true, false, true, true]), 3);
    assert_eq!(acquired_count(&vec![]), 0);
}

#[test]
fn a_batch_whose_every_fetch_fails_is_failed_not_partial() {
    let source = some_source(false, vec![address(None, "u1"), address(None, "u2")]);
    let (state, _) = collect_step(&source, false, CollectState::new(), CollectEvent::Begin, 1);
    let (state, _) = collect_step(&source, false, state, CollectEvent::Written, 1);
    let (state, _) = collect_step(&source, false, state, failed("first"), 1);
    let (_, action) = collect_step(&source, false, state, failed("second"), 1);
    assert_eq!(
        action,
        CollectAction::CloseJobRun {
            job_run_id: 1,
            status: JobStatus::Failed,
            error: Some("second".to_string())
        }
    );
}
