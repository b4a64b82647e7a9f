//! The store as a run sees it, and what a run leaves in it. The store
//! itself lies outside this library; this module states what the run asks
//! of it, and proves what the writes of a run come to against a store that
//! does as it is asked.

use vstd::prelude::*;
use crate::acquire::ParseStatus;
use crate::ident::Id;
use crate::identity::{agrees, stored_id, IdentityRow, IdentityView};
use crate::ingest::{
    entity_stage, run_step_of, RunActionView, RunEventView, RunRequestView, RunStateView,
};
use crate::model::FactView;

verus! {

/// A fact as the store holds it, with its provenance: the artifact that
/// it was read from. The location within the artifact is that of the
/// candidate.
pub struct FactRow {
    pub fact_id: Id,
    pub snapshot_id: Id,
    pub entity_id: Id,
    pub metric_id: Id,
    pub artifact_id: Id,
    pub fact: FactView,
}

/// What the store holds, as far as a run reads or writes it.
pub struct Ledger {
    /// The entities, by natural key.
    pub entities: Map<Seq<char>, IdentityRow>,
    /// The metrics, by natural key.
    pub metrics: Map<Seq<char>, IdentityRow>,
    /// The snapshots, in the order in which they were opened.
    pub snapshots: Seq<Id>,
    /// The facts, in the order in which they were written.
    pub facts: Seq<FactRow>,
    /// The parse status of the artifacts.
    pub status: Map<Id, ParseStatus>,
}

/// The row of a new identity.
pub open spec fn identity_row(id: Id, identity: IdentityView) -> IdentityRow {
    IdentityRow { id, display_name: identity.display_name, attribute: identity.attribute }
}

/// What comes of an action of a run in a store that does as it is asked:
/// the store afterwards, and the event that is handed back. Reading the
/// artifact and the job run are not the matter of this module: an action
/// that concerns them, or that ends the run, hands back nothing.
pub open spec fn performed(ledger: Ledger, state: RunStateView, action: RunActionView) -> (
    Ledger,
    Option<RunEventView>,
) {
    match action {
        RunActionView::OpenSnapshot { snapshot_id, .. } => (
            Ledger { snapshots: ledger.snapshots.push(snapshot_id), ..ledger },
            Some(RunEventView::Written),
        ),
        RunActionView::LookUpEntity { key } => (
            ledger,
            Some(RunEventView::Found(stored_id(ledger.entities, key))),
        ),
        RunActionView::InsertEntity { id, identity } => (
            Ledger {
                entities: ledger.entities.insert(identity.key, identity_row(id, identity)),
                ..ledger
            },
            Some(RunEventView::Written),
        ),
        RunActionView::LookUpMetric { key } => (
            ledger,
            Some(RunEventView::Found(stored_id(ledger.metrics, key))),
        ),
        RunActionView::InsertMetric { id, identity } => (
            Ledger {
                metrics: ledger.metrics.insert(identity.key, identity_row(id, identity)),
                ..ledger
            },
            Some(RunEventView::Written),
        ),
        RunActionView::WriteFact {
            fact_id,
            snapshot_id,
            entity_id,
            metric_id,
            artifact_id,
            index,
        } => (
            Ledger {
                facts: ledger.facts.push(
                    FactRow {
                        fact_id,
                        snapshot_id,
                        entity_id,
                        metric_id,
                        artifact_id,
                        fact: state.facts[index as int],
                    },
                ),
                ..ledger
            },
            Some(RunEventView::Written),
        ),
        RunActionView::MarkArtifact { artifact_id, status, .. } => (
            Ledger { status: ledger.status.insert(artifact_id, status), ..ledger },
            Some(RunEventView::Written),
        ),
        _ => (ledger, None),
    }
}

/// A run in the middle of its writes: the store, the state, and the
/// action that is to be performed next.
pub struct Progress {
    pub ledger: Ledger,
    pub state: RunStateView,
    pub action: RunActionView,
}

/// One turn: the action is performed, and the run takes its next step on
/// what is handed back, with `fresh` for a new row.
pub open spec fn turn(request: RunRequestView, p: Progress, fresh: Id) -> Progress {
    let (ledger, answer) = performed(p.ledger, p.state, p.action);
    match answer {
        Some(event) => {
            let (state, action) = run_step_of(request, p.state, event, fresh);
            Progress { ledger, state, action }
        },
        None => p,
    }
}

/// The turns that write one fact: those up to the step that follows the
/// writing of the fact, and at most five. `fresh` gives the identifier of
/// each turn.
pub open spec fn fact_turns(
    request: RunRequestView,
    p: Progress,
    fresh: spec_fn(nat) -> Id,
    from: nat,
    most: nat,
) -> Progress
    decreases most,
{
    if most == 0 {
        p
    } else if p.action is WriteFact {
        turn(request, p, fresh(from))
    } else {
        fact_turns(request, turn(request, p, fresh(from)), fresh, from + 1, (most - 1) as nat)
    }
}

/// The turns that write `count` facts. `fresh` gives the identifiers for
/// the turns of each fact.
pub open spec fn write_turns(
    request: RunRequestView,
    p: Progress,
    fresh: spec_fn(nat, nat) -> Id,
    count: nat,
) -> Progress
    decreases count,
{
    if count == 0 {
        p
    } else {
        let before = write_turns(request, p, fresh, (count - 1) as nat);
        fact_turns(request, before, |turn: nat| fresh((count - 1) as nat, turn), 0, 5)
    }
}

/// The run is about to deal with the candidate at `state.written`, or to
/// mark the artifact where none is left: its state and action are those
/// that the run comes to after a write was confirmed.
pub open spec fn at_candidate(request: RunRequestView, p: Progress) -> bool {
    exists|base: RunStateView, fresh: Id|
        #![trigger entity_stage(request, base, fresh)]
        {
            &&& (p.state, p.action) == entity_stage(request, base, fresh)
            &&& base.written == p.state.written
        }
}

/// The mappings of the run hold nothing that the store does not hold.
pub open spec fn in_step(p: Progress) -> bool {
    &&& agrees(p.state.entities, p.ledger.entities)
    &&& agrees(p.state.metrics, p.ledger.metrics)
}

/// The row that the store holds for the candidate of a run, once it is
/// written.
pub open spec fn written_row(request: RunRequestView, p: Progress, row: FactRow, fact: FactView) -> bool {
    &&& row.fact == fact
    &&& row.artifact_id == request.artifact_id
    &&& row.snapshot_id == p.state.snapshot_id
    &&& stored_id(p.ledger.entities, fact.entity_key) == Some(row.entity_id)
    &&& stored_id(p.ledger.metrics, fact.metric_key) == Some(row.metric_id)
}

/// The rows of `old` are rows of `new`, unchanged.
pub open spec fn keeps(old: Map<Seq<char>, IdentityRow>, new: Map<Seq<char>, IdentityRow>) -> bool {
    forall|key: Seq<char>| #[trigger]
        old.contains_key(key) ==> new.contains_key(key) && new[key] == old[key]
}

/// Writing one candidate: the store gains exactly one fact, that of the
/// candidate, bound to the artifact and the snapshot of the run and to the
/// rows of its entity and metric; the rows that the store held stay as
/// they were; and the run goes on to the next candidate.
pub proof fn lemma_fact_written(request: RunRequestView, p: Progress, fresh: spec_fn(nat) -> Id)
    requires
        !request.dry_run,
        p.state.is_valid(),
        at_candidate(request, p),
        in_step(p),
        p.state.written < p.state.facts.len(),
    ensures
        ({
            let q = fact_turns(request, p, fresh, 0, 5);
            &&& q.ledger.facts.len() == p.ledger.facts.len() + 1
            &&& q.ledger.facts.drop_last() == p.ledger.facts
            &&& written_row(request, q, q.ledger.facts.last(), p.state.facts[p.state.written as int])
            &&& keeps(p.ledger.entities, q.ledger.entities)
            &&& keeps(p.ledger.metrics, q.ledger.metrics)
            &&& q.ledger.snapshots == p.ledger.snapshots
            &&& q.ledger.status == p.ledger.status
            &&& q.state.written == p.state.written + 1
            &&& q.state.facts == p.state.facts
            &&& q.state.snapshot_id == p.state.snapshot_id
            &&& at_candidate(request, q)
            &&& in_step(q)
        }),
{
    reveal_with_fuel(fact_turns, 6);
    let q = fact_turns(request, p, fresh, 0, 5);
    let (base, id) = choose|base: RunStateView, id: Id|
        {
            &&& (p.state, p.action) == #[trigger] entity_stage(request, base, id)
            &&& base.written == p.state.written
        };
    let k = p.state.written as int;
    let fact = p.state.facts[k];
    assert(p.state.facts == base.facts);
    // the state that the confirmed write leaves is the base of the next candidate
    let after_one = turn(request, p, fresh(0));
    let after_two = turn(request, after_one, fresh(1));
    let after_three = turn(request, after_two, fresh(2));
    let after_four = turn(request, after_three, fresh(3));
    let last = if p.action is WriteFact {
        p
    } else if after_one.action is WriteFact {
        after_one
    } else if after_two.action is WriteFact {
        after_two
    } else if after_three.action is WriteFact {
        after_three
    } else {
        after_four
    };
    assert(last.action is WriteFact);
    let after = RunStateView { written: (last.state.written + 1) as usize, ..last.state };
    let turn_of_write: nat = if p.action is WriteFact {
        0
    } else if after_one.action is WriteFact {
        1
    } else if after_two.action is WriteFact {
        2
    } else if after_three.action is WriteFact {
        3
    } else {
        4
    };
    assert((q.state, q.action) == entity_stage(request, after, fresh(turn_of_write)));
}

/// Writing the candidates: after the turns of `count` candidates the
/// store holds `count` facts more, one for each candidate, in the order
/// of the candidates.
pub proof fn lemma_facts_written(
    request: RunRequestView,
    p: Progress,
    fresh: spec_fn(nat, nat) -> Id,
    count: nat,
)
    requires
        !request.dry_run,
        p.state.is_valid(),
        at_candidate(request, p),
        in_step(p),
        p.state.written + count <= p.state.facts.len(),
    ensures
        ({
            let q = write_turns(request, p, fresh, count);
            &&& q.ledger.facts.len() == p.ledger.facts.len() + count
            &&& q.ledger.facts.take(p.ledger.facts.len() as int) == p.ledger.facts
            &&& forall|i: int|
                0 <= i < count ==> written_row(
                    request,
                    q,
                    #[trigger] q.ledger.facts[p.ledger.facts.len() + i],
                    p.state.facts[p.state.written + i],
                )
            &&& keeps(p.ledger.entities, q.ledger.entities)
            &&& keeps(p.ledger.metrics, q.ledger.metrics)
            &&& q.ledger.snapshots == p.ledger.snapshots
            &&& q.ledger.status == p.ledger.status
            &&& q.state.written == p.state.written + count
            &&& q.state.facts == p.state.facts
            &&& q.state.snapshot_id == p.state.snapshot_id
            &&& at_candidate(request, q)
            &&& in_step(q)
        }),
    decreases count,
{
    if count == 0 {
        assert(p.ledger.facts.take(p.ledger.facts.len() as int) == p.ledger.facts);
    } else {
        let before = write_turns(request, p, fresh, (count - 1) as nat);
        lemma_facts_written(request, p, fresh, (count - 1) as nat);
        let stream = |turn: nat| fresh((count - 1) as nat, turn);
        lemma_fact_written(request, before, stream);
        let q = fact_turns(request, before, stream, 0, 5);
        assert(q == write_turns(request, p, fresh, count));
        let n = p.ledger.facts.len() as int;
        assert(q.ledger.facts.take(n) == before.ledger.facts.take(n));
        assert forall|i: int| 0 <= i < count implies written_row(
            request,
            q,
            #[trigger] q.ledger.facts[n + i],
            p.state.facts[p.state.written + i],
        ) by {
            if i < count - 1 {
                assert(q.ledger.facts[n + i] == before.ledger.facts[n + i]);
                assert(written_row(
                    request,
                    before,
                    before.ledger.facts[n + i],
                    p.state.facts[p.state.written + i],
                ));
            }
        }
    }
}

/// A run writes every candidate of its artifact, once and in order, and
/// marks the artifact as parsed afterwards. From the opening of the
/// snapshot on, a store that does as it is asked ends with one fact more
/// for each candidate, each bound to the artifact by its provenance and to
/// the snapshot of the run; with the rows that it held unchanged; and with
/// the artifact marked as parsed, which is the last of the writes.
pub proof fn lemma_run_writes_candidates(
    request: RunRequestView,
    ledger: Ledger,
    state: RunStateView,
    note: Seq<char>,
    first: Id,
    fresh: spec_fn(nat, nat) -> Id,
    last: Id,
)
    requires
        !request.dry_run,
        state.is_valid(),
        state.phase is OpeningSnapshot,
        state.written == 0,
        agrees(state.entities, ledger.entities),
        agrees(state.metrics, ledger.metrics),
    ensures
        ({
            let opening = Progress {
                ledger,
                state,
                action: RunActionView::OpenSnapshot { snapshot_id: state.snapshot_id, note },
            };
            let opened = turn(request, opening, first);
            let written = write_turns(request, opened, fresh, state.facts.len());
            let marked = turn(request, written, last);
            &&& opened.ledger.snapshots == ledger.snapshots.push(state.snapshot_id)
            &&& written.action == (RunActionView::MarkArtifact {
                artifact_id: request.artifact_id,
                status: ParseStatus::Parsed,
                error: None,
            })
            &&& marked.ledger.facts.len() == ledger.facts.len() + state.facts.len()
            &&& marked.ledger.facts.take(ledger.facts.len() as int) == ledger.facts
            &&& forall|i: int|
                0 <= i < state.facts.len() ==> written_row(
                    request,
                    marked,
                    #[trigger] marked.ledger.facts[ledger.facts.len() + i],
                    state.facts[i],
                )
            &&& keeps(ledger.entities, marked.ledger.entities)
            &&& keeps(ledger.metrics, marked.ledger.metrics)
            &&& marked.ledger.status == ledger.status.insert(
                request.artifact_id,
                ParseStatus::Parsed,
            )
            &&& marked.action is CloseJobRun
            &&& marked.action->CloseJobRun_facts_created == state.facts.len()
        }),
{
    let opening = Progress {
        ledger,
        state,
        action: RunActionView::OpenSnapshot { snapshot_id: state.snapshot_id, note },
    };
    let opened = turn(request, opening, first);
    assert((opened.state, opened.action) == entity_stage(request, state, first));
    lemma_facts_written(request, opened, fresh, state.facts.len());
    let written = write_turns(request, opened, fresh, state.facts.len());
    let (base, id) = choose|base: RunStateView, id: Id|
        {
            &&& (written.state, written.action) == #[trigger] entity_stage(request, base, id)
            &&& base.written == written.state.written
        };
    assert(base.facts == written.state.facts);
    let marked = turn(request, written, last);
    assert forall|i: int| 0 <= i < state.facts.len() implies written_row(
        request,
        marked,
        #[trigger] marked.ledger.facts[ledger.facts.len() + i],
        state.facts[i],
    ) by {
        assert(written_row(
            request,
            written,
            written.ledger.facts[opened.ledger.facts.len() + i],
            opened.state.facts[opened.state.written + i],
        ));
    }
}

} // verus!
