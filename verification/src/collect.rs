//! The run of an acquisition over one source: the job run that audits it
//! is opened before the first fetch and closed after the last, with the
//! status that the fetches came to. The caller performs each action and
//! hands back what came of it.

use vstd::prelude::*;
use crate::ident::{fresh_id, Id};
use crate::sources::{
    batch_status, batch_status_of, fetch_targets, targets_of, FetchTarget, FetchTargetView,
    JobStatus, Source,
};

verus! {

/// Where the run over a source stands.
#[derive(Clone, Copy, Debug, PartialEq, Eq, Structural)]
pub enum CollectPhase {
    /// Nothing has been done.
    Start,
    /// The job run is being opened.
    OpeningJob,
    /// The document at `index` is being fetched.
    Fetching { index: usize },
    /// The job run is being closed.
    ClosingJob,
    /// The run is complete.
    Done,
    /// The audit trail failed.
    Failed,
}

/// The state of the run over a source.
pub struct CollectState {
    pub phase: CollectPhase,
    /// The documents of the source.
    pub targets: Vec<FetchTarget>,
    /// What the fetches so far came to, in order.
    pub fetched: Vec<bool>,
    /// The words of the last fetch that failed.
    pub last_error: String,
    pub job_run_id: Id,
}

pub struct CollectStateView {
    pub phase: CollectPhase,
    pub targets: Seq<FetchTargetView>,
    pub fetched: Seq<bool>,
    pub last_error: Seq<char>,
    pub job_run_id: Id,
}

impl CollectStateView {
    /// The documents and the fetches are as many as a machine can hold.
    pub open spec fn is_valid(self) -> bool {
        self.targets.len() <= usize::MAX && self.fetched.len() <= usize::MAX
    }
}

impl View for CollectState {
    type V = CollectStateView;

    open spec fn view(&self) -> CollectStateView {
        CollectStateView {
            phase: self.phase,
            targets: self.targets.deep_view(),
            fetched: self.fetched@,
            last_error: self.last_error@,
            job_run_id: self.job_run_id,
        }
    }
}

/// What came of the action that was asked last.
#[derive(Clone, Debug, PartialEq, Eq)]
pub enum CollectEvent {
    /// The run is to begin.
    Begin,
    /// The audit trail did what was asked.
    Written,
    /// A fetch ended with an artifact.
    Fetched,
    /// A fetch failed.
    FetchFailed { message: String },
    /// The audit trail failed.
    StoreFailed,
}

pub enum CollectEventView {
    Begin,
    Written,
    Fetched,
    FetchFailed { message: Seq<char> },
    StoreFailed,
}

impl View for CollectEvent {
    type V = CollectEventView;

    open spec fn view(&self) -> CollectEventView {
        match self {
            CollectEvent::Begin => CollectEventView::Begin,
            CollectEvent::Written => CollectEventView::Written,
            CollectEvent::Fetched => CollectEventView::Fetched,
            CollectEvent::FetchFailed { message } => CollectEventView::FetchFailed {
                message: message@,
            },
            CollectEvent::StoreFailed => CollectEventView::StoreFailed,
        }
    }
}

/// What the caller is to do next.
#[derive(Clone, Debug, PartialEq, Eq)]
pub enum CollectAction {
    /// Leave the source alone: it needs an API key.
    Skip,
    /// Open the job run of this source, as running.
    OpenJobRun { job_run_id: Id, source_id: String },
    /// Acquire the document at `index` of the targets.
    Fetch { index: usize },
    /// Close the job run.
    CloseJobRun { job_run_id: Id, status: JobStatus, error: Option<String> },
    /// Report the status and the counts: the run is complete.
    Finish { status: JobStatus, collected: usize, failed: usize },
    /// Give up: the audit trail failed.
    Abort,
}

pub enum CollectActionView {
    Skip,
    OpenJobRun { job_run_id: Id, source_id: Seq<char> },
    Fetch { index: usize },
    CloseJobRun { job_run_id: Id, status: JobStatus, error: Option<Seq<char>> },
    Finish { status: JobStatus, collected: usize, failed: usize },
    Abort,
}

impl View for CollectAction {
    type V = CollectActionView;

    open spec fn view(&self) -> CollectActionView {
        match self {
            CollectAction::Skip => CollectActionView::Skip,
            CollectAction::OpenJobRun { job_run_id, source_id } => CollectActionView::OpenJobRun {
                job_run_id: *job_run_id,
                source_id: source_id@,
            },
            CollectAction::Fetch { index } => CollectActionView::Fetch { index: *index },
            CollectAction::CloseJobRun { job_run_id, status, error } => CollectActionView::CloseJobRun {
                job_run_id: *job_run_id,
                status: *status,
                error: error.deep_view(),
            },
            CollectAction::Finish { status, collected, failed } => CollectActionView::Finish {
                status: *status,
                collected: *collected,
                failed: *failed,
            },
            CollectAction::Abort => CollectActionView::Abort,
        }
    }
}

/// The number of fetches that ended with an artifact.
pub open spec fn count_acquired(fetched: Seq<bool>) -> nat
    decreases fetched.len(),
{
    if fetched.len() == 0 {
        0
    } else if fetched.last() {
        count_acquired(fetched.drop_last()) + 1
    } else {
        count_acquired(fetched.drop_last())
    }
}

/// The words for a status that is no success: that some addresses
/// failed, or, where all did, what the last fetch failed of.
pub open spec fn closing_error(status: JobStatus, last_error: Seq<char>) -> Option<Seq<char>> {
    match status {
        JobStatus::Succeeded => None,
        JobStatus::Partial => Some("Some URLs failed"@),
        _ => Some(last_error),
    }
}

/// The end of the run: its status and its counts.
pub open spec fn finished(state: CollectStateView) -> (
    CollectStateView,
    CollectActionView,
) {
    (
        CollectStateView { phase: CollectPhase::Done, ..state },
        CollectActionView::Finish {
            status: batch_status_of(state.fetched),
            collected: count_acquired(state.fetched) as usize,
            failed: (state.fetched.len() - count_acquired(state.fetched)) as usize,
        },
    )
}

/// The next fetch, or the end of the fetches: the job run is closed, or
/// in a dry run, which opened none, the run ends.
pub open spec fn fetching(dry_run: bool, state: CollectStateView) -> (
    CollectStateView,
    CollectActionView,
) {
    if state.fetched.len() < state.targets.len() {
        (
            CollectStateView {
                phase: CollectPhase::Fetching { index: state.fetched.len() as usize },
                ..state
            },
            CollectActionView::Fetch { index: state.fetched.len() as usize },
        )
    } else if dry_run {
        finished(state)
    } else {
        (
            CollectStateView { phase: CollectPhase::ClosingJob, ..state },
            CollectActionView::CloseJobRun {
                job_run_id: state.job_run_id,
                status: batch_status_of(state.fetched),
                error: closing_error(batch_status_of(state.fetched), state.last_error),
            },
        )
    }
}

/// The end of a run whose audit trail failed.
pub open spec fn given_up(state: CollectStateView) -> (CollectStateView, CollectActionView) {
    (CollectStateView { phase: CollectPhase::Failed, ..state }, CollectActionView::Abort)
}

/// The next state and the action that follow an event. `fresh` is the
/// identifier that the job run gets.
///
/// A source that needs an API key is left alone. Every other source has
/// its job run opened first, unless the run is a dry one; then its
/// documents are fetched in order, whatever each fetch comes to; then the
/// job run is closed with the status of the fetches.
pub open spec fn collect_step_of(
    source: Source,
    dry_run: bool,
    state: CollectStateView,
    event: CollectEventView,
    fresh: Id,
) -> (CollectStateView, CollectActionView) {
    match (state.phase, event) {
        (CollectPhase::Start, CollectEventView::Begin) => if source.requires_api_key {
            (CollectStateView { phase: CollectPhase::Done, ..state }, CollectActionView::Skip)
        } else if dry_run {
            fetching(
                dry_run,
                CollectStateView { targets: targets_of(source), fetched: Seq::empty(), ..state },
            )
        } else {
            (
                CollectStateView {
                    phase: CollectPhase::OpeningJob,
                    targets: targets_of(source),
                    fetched: Seq::empty(),
                    job_run_id: fresh,
                    ..state
                },
                CollectActionView::OpenJobRun { job_run_id: fresh, source_id: source.id@ },
            )
        },
        (CollectPhase::OpeningJob, CollectEventView::Written) => fetching(dry_run, state),
        (CollectPhase::Fetching { index }, CollectEventView::Fetched) => if index
            == state.fetched.len() && index < state.targets.len() {
            fetching(dry_run, CollectStateView { fetched: state.fetched.push(true), ..state })
        } else {
            given_up(state)
        },
        (CollectPhase::Fetching { index }, CollectEventView::FetchFailed { message }) => if index
            == state.fetched.len() && index < state.targets.len() {
            fetching(
                dry_run,
                CollectStateView {
                    fetched: state.fetched.push(false),
                    last_error: message,
                    ..state
                },
            )
        } else {
            given_up(state)
        },
        (CollectPhase::ClosingJob, CollectEventView::Written) => finished(state),
        _ => given_up(state),
    }
}

/// Whether an action changes the audit trail.
pub open spec fn touches_store(action: CollectActionView) -> bool {
    action is OpenJobRun || action is CloseJobRun
}

impl CollectState {
    /// The state of a run before it begins.
    pub open spec fn initial() -> CollectStateView {
        CollectStateView {
            phase: CollectPhase::Start,
            targets: Seq::empty(),
            fetched: Seq::empty(),
            last_error: Seq::empty(),
            job_run_id: 0,
        }
    }

    /// The state of a run before it begins.
    pub fn new() -> (state: CollectState)
        ensures
            state@ == CollectState::initial(),
    {
        let state = CollectState {
            phase: CollectPhase::Start,
            targets: Vec::new(),
            fetched: Vec::new(),
            last_error: String::new(),
            job_run_id: 0,
        };
        assert(state.targets.deep_view() == Seq::<FetchTargetView>::empty());
        state
    }

    /// The document at `index`, if there is one.
    pub fn target(&self, index: usize) -> (t: Option<&FetchTarget>)
        ensures
            match t {
                Some(target) => index < self@.targets.len() && target@ == self@.targets[index as int],
                None => index >= self@.targets.len(),
            },
    {
        if index < self.targets.len() {
            Some(&self.targets[index])
        } else {
            None
        }
    }
}

/// Counts the fetches that ended with an artifact.
pub fn acquired_count(fetched: &Vec<bool>) -> (n: usize)
    ensures
        n == count_acquired(fetched@),
        n <= fetched.len(),
{
    let mut n: usize = 0;
    let mut i: usize = 0;
    assert(fetched@.take(0) == Seq::<bool>::empty());
    while i < fetched.len()
        invariant
            i <= fetched.len(),
            n <= i,
            n == count_acquired(fetched@.take(i as int)),
        decreases fetched.len() - i,
    {
        proof {
            let now = fetched@.take(i + 1);
            assert(now.drop_last() == fetched@.take(i as int));
            assert(now.last() == fetched@[i as int]);
        }
        if fetched[i] {
            n = n + 1;
        }
        i = i + 1;
    }
    assert(fetched@.take(fetched.len() as int) == fetched@);
    n
}

fn error_for(status: JobStatus, last_error: &String) -> (e: Option<String>)
    ensures
        e.deep_view() == closing_error(status, last_error@),
{
    match status {
        JobStatus::Succeeded => None,
        JobStatus::Partial => Some("Some URLs failed".to_owned()),
        _ => Some(last_error.clone()),
    }
}

fn finish(state: CollectState) -> (r: (CollectState, CollectAction))
    ensures
        (r.0@, r.1@) == finished(state@),
{
    let status = batch_status(&state.fetched);
    let collected = acquired_count(&state.fetched);
    let failed = state.fetched.len() - collected;
    (CollectState { phase: CollectPhase::Done, ..state }, CollectAction::Finish {
        status,
        collected,
        failed,
    })
}

fn fetch_next(dry_run: bool, state: CollectState) -> (r: (
    CollectState,
    CollectAction,
))
    ensures
        (r.0@, r.1@) == fetching(dry_run, state@),
{
    if state.fetched.len() < state.targets.len() {
        let index = state.fetched.len();
        (CollectState { phase: CollectPhase::Fetching { index }, ..state }, CollectAction::Fetch {
            index,
        })
    } else if dry_run {
        finish(state)
    } else {
        let status = batch_status(&state.fetched);
        let action = CollectAction::CloseJobRun {
            job_run_id: state.job_run_id,
            status,
            error: error_for(status, &state.last_error),
        };
        (CollectState { phase: CollectPhase::ClosingJob, ..state }, action)
    }
}

fn give_up(state: CollectState) -> (r: (CollectState, CollectAction))
    ensures
        (r.0@, r.1@) == given_up(state@),
{
    (CollectState { phase: CollectPhase::Failed, ..state }, CollectAction::Abort)
}

/// Takes one step of the run over a source, with the identifier that the
/// job run is to get.
pub fn collect_step(
    source: &Source,
    dry_run: bool,
    state: CollectState,
    event: CollectEvent,
    fresh: Id,
) -> (r: (CollectState, CollectAction))
    ensures
        (r.0@, r.1@) == collect_step_of(*source, dry_run, state@, event@, fresh),
{
    let phase = state.phase;
    match (phase, event) {
        (CollectPhase::Start, CollectEvent::Begin) => {
            if source.requires_api_key {
                (CollectState { phase: CollectPhase::Done, ..state }, CollectAction::Skip)
            } else if dry_run {
                let targets = fetch_targets(source);
                fetch_next(dry_run, CollectState { targets, fetched: Vec::new(), ..state })
            } else {
                (
                    CollectState {
                        phase: CollectPhase::OpeningJob,
                        targets: fetch_targets(source),
                        fetched: Vec::new(),
                        job_run_id: fresh,
                        ..state
                    },
                    CollectAction::OpenJobRun { job_run_id: fresh, source_id: source.id.clone() },
                )
            }
        },
        (CollectPhase::OpeningJob, CollectEvent::Written) => fetch_next(dry_run, state),
        (CollectPhase::Fetching { index }, CollectEvent::Fetched) => {
            if index == state.fetched.len() && index < state.targets.len() {
                let mut fetched = state.fetched;
                fetched.push(true);
                fetch_next(dry_run, CollectState { fetched, ..state })
            } else {
                give_up(state)
            }
        },
        (CollectPhase::Fetching { index }, CollectEvent::FetchFailed { message }) => {
            if index == state.fetched.len() && index < state.targets.len() {
                let mut fetched = state.fetched;
                fetched.push(false);
                fetch_next(
                    dry_run,
                    CollectState { fetched, last_error: message, ..state },
                )
            } else {
                give_up(state)
            }
        },
        (CollectPhase::ClosingJob, CollectEvent::Written) => finish(state),
        _ => give_up(state),
    }
}

/// Takes one step of the run over a source. The identifier of the job run
/// is drawn at random.
pub fn collect_advance(
    source: &Source,
    dry_run: bool,
    state: CollectState,
    event: CollectEvent,
) -> (r: (CollectState, CollectAction))
    ensures
        exists|fresh: Id|
            (r.0@, r.1@) == #[trigger] collect_step_of(*source, dry_run, state@, event@, fresh),
{
    let fresh = fresh_id();
    collect_step(source, dry_run, state, event, fresh)
}

/// The job run is opened before the first fetch: a run that is not dry
/// asks for no fetch before the audit trail has confirmed the opening.
pub proof fn lemma_job_run_opened_first(
    source: Source,
    state: CollectStateView,
    event: CollectEventView,
    fresh: Id,
)
    ensures
        ({
            let (next, action) = collect_step_of(source, false, state, event, fresh);
            &&& state.phase is Start ==> !(action is Fetch)
            &&& (state.phase is Start && action is OpenJobRun) ==> next.phase is OpeningJob
            &&& (state.phase is OpeningJob && action is Fetch) ==> event is Written
        }),
{
}

/// The job run is closed after the last fetch, with the status that the
/// fetches came to: every document has been fetched by then, in order.
pub proof fn lemma_job_run_closed_last(
    source: Source,
    dry_run: bool,
    state: CollectStateView,
    event: CollectEventView,
    fresh: Id,
)
    requires
        state.is_valid(),
    ensures
        ({
            let (next, action) = collect_step_of(source, dry_run, state, event, fresh);
            &&& action matches CollectActionView::CloseJobRun { status, job_run_id, .. } ==> {
                &&& next.fetched.len() >= next.targets.len()
                &&& status == batch_status_of(next.fetched)
                &&& job_run_id == next.job_run_id
                &&& !dry_run
            }
            &&& action matches CollectActionView::Fetch { index } ==> index == next.fetched.len()
                && index < next.targets.len()
        }),
{
}

/// A dry run asks nothing of the audit trail, and a source that needs an
/// API key is never fetched.
pub proof fn lemma_dry_or_keyed_source_untouched(
    source: Source,
    dry_run: bool,
    state: CollectStateView,
    event: CollectEventView,
    fresh: Id,
)
    ensures
        dry_run ==> !touches_store(collect_step_of(source, dry_run, state, event, fresh).1),
        source.requires_api_key ==> collect_step_of(
            source,
            dry_run,
            CollectState::initial(),
            CollectEventView::Begin,
            fresh,
        ).1 == CollectActionView::Skip,
{
}

} // verus!
