//! One parsing run over one artifact: whether it is due, how the artifact
//! is read, and the writes that follow, one at a time. The caller performs
//! each action against the store and hands back what came of it.

use vstd::prelude::*;
use vstd::string::StringExecFns;
use crate::acquire::ParseStatus;
use crate::detect::{detect_format, format_of, Format, NamedDialect};
use crate::generic_csv::{parse_csv, parse_csv_of, result_view};
use crate::ident::{fresh_id, id_text, id_text_of, Id};
use crate::identity::{
    answer_of, begin_of, begin_resolve, on_answer, on_inserted, Identity, IdentityCache,
    IdentityView, ResolveAction, ResolveActionView,
};
use crate::ley::{parse_dipres_ley_csv, parse_dipres_ley_csv_of};
use crate::model::{FactView, ParsedFact};
use crate::report::{OutcomeView, ParseError, ParseErrorView, ParseOutcome, RowWarning};
use crate::sources::JobStatus;
use crate::text::{decode_text, decoded, str_eq};
use crate::workbook::{parse_dipres_xls, parse_dipres_xls_of, Workbook, WorkbookView};

verus! {

/// The status that a name of the registry stands for.
pub open spec fn status_named(name: Seq<char>) -> Option<ParseStatus> {
    if name == "pending"@ {
        Some(ParseStatus::Pending)
    } else if name == "ok"@ {
        Some(ParseStatus::Parsed)
    } else if name == "failed"@ {
        Some(ParseStatus::Failed)
    } else {
        None
    }
}

/// Reads the status of an artifact from its name in the registry.
pub fn parse_status_named(name: &str) -> (r: Option<ParseStatus>)
    ensures
        r == status_named(name@),
{
    if str_eq(name, "pending") {
        Some(ParseStatus::Pending)
    } else if str_eq(name, "ok") {
        Some(ParseStatus::Parsed)
    } else if str_eq(name, "failed") {
        Some(ParseStatus::Failed)
    } else {
        None
    }
}

/// Whether an artifact is due for parsing: one that was parsed already is
/// left alone, unless the run is asked to check it again.
pub fn should_parse(status: ParseStatus, verify: bool) -> (b: bool)
    ensures
        b == (status != ParseStatus::Parsed || verify),
{
    status != ParseStatus::Parsed || verify
}

/// What was read of an artifact.
#[derive(Clone, Debug, PartialEq, Eq)]
pub enum ArtifactContent {
    /// The bytes of a delimited file.
    Bytes(Vec<u8>),
    /// The text of a delimited file.
    Text(String),
    /// The sheets of a workbook.
    Sheets(Workbook),
}

pub enum ArtifactContentView {
    Bytes(Seq<u8>),
    Text(Seq<char>),
    Sheets(WorkbookView),
}

impl View for ArtifactContent {
    type V = ArtifactContentView;

    open spec fn view(&self) -> ArtifactContentView {
        match self {
            ArtifactContent::Bytes(b) => ArtifactContentView::Bytes(b@),
            ArtifactContent::Text(s) => ArtifactContentView::Text(s@),
            ArtifactContent::Sheets(w) => ArtifactContentView::Sheets(w@),
        }
    }
}

/// Why a run yields nothing.
#[derive(Clone, Debug, PartialEq, Eq)]
pub enum IngestError {
    /// The artifact cannot be parsed.
    Parse(ParseError),
    /// The artifact parses, to no fact at all.
    NoFactsParsed,
    /// What was read is not what the format of the artifact asks for.
    ContentMismatch,
    /// The artifact could not be read.
    ReadFailed,
    /// The store failed.
    StoreFailed,
    /// What was handed back does not answer the action that was asked.
    Unexpected,
}

/// The view of the result of parsing an artifact.
pub open spec fn ingest_view(r: Result<ParseOutcome, IngestError>) -> Result<
    OutcomeView,
    IngestErrorView,
> {
    match r {
        Ok(o) => Ok(o@),
        Err(e) => Err(e@),
    }
}

/// A parse result as the result of a run: a parse without facts is an
/// error of the run.
pub open spec fn checked(r: Result<OutcomeView, ParseErrorView>) -> Result<OutcomeView, IngestErrorView> {
    match r {
        Ok(o) => if o.facts.len() == 0 {
            Err(IngestErrorView::NoFactsParsed)
        } else {
            Ok(o)
        },
        Err(e) => Err(IngestErrorView::Parse(e)),
    }
}

/// The outcome of parsing a text by its format. A workbook is no text.
pub open spec fn parse_text_of(format: Format, source_id: Seq<char>, text: Seq<char>) -> Result<
    OutcomeView,
    IngestErrorView,
> {
    match format {
        Format::Spreadsheet => Err(IngestErrorView::ContentMismatch),
        Format::NamedDialect(NamedDialect::DipresLey) => checked(
            parse_dipres_ley_csv_of(text, source_id),
        ),
        Format::GenericCsv => checked(parse_csv_of(text, source_id)),
    }
}

/// The outcome of parsing what was read of an artifact, by its format.
/// Bytes are read as UTF-8 text; bytes that are no such text count as not
/// read.
pub open spec fn parse_artifact_of(
    format: Format,
    source_id: Seq<char>,
    content: ArtifactContentView,
) -> Result<OutcomeView, IngestErrorView> {
    match content {
        ArtifactContentView::Sheets(w) => if format == Format::Spreadsheet {
            checked(parse_dipres_xls_of(w, source_id))
        } else {
            Err(IngestErrorView::ContentMismatch)
        },
        ArtifactContentView::Text(t) => parse_text_of(format, source_id, t),
        ArtifactContentView::Bytes(b) => match decoded(b) {
            Some(t) => parse_text_of(format, source_id, t),
            None => Err(IngestErrorView::ReadFailed),
        },
    }
}

fn check(r: Result<ParseOutcome, ParseError>) -> (c: Result<ParseOutcome, IngestError>)
    ensures
        ingest_view(c) == checked(result_view(r)),
{
    match r {
        Ok(o) => {
            if o.facts.len() == 0 {
                Err(IngestError::NoFactsParsed)
            } else {
                Ok(o)
            }
        },
        Err(e) => Err(IngestError::Parse(e)),
    }
}

/// Parses a text with the parser of its format.
pub fn parse_text(format: Format, source_id: &str, text: &str) -> (r: Result<
    ParseOutcome,
    IngestError,
>)
    ensures
        ingest_view(r) == parse_text_of(format, source_id@, text@),
{
    match format {
        Format::Spreadsheet => Err(IngestError::ContentMismatch),
        Format::NamedDialect(NamedDialect::DipresLey) => check(
            parse_dipres_ley_csv(text, source_id),
        ),
        Format::GenericCsv => check(parse_csv(text, source_id)),
    }
}

/// Parses what was read of an artifact with the parser of its format.
pub fn parse_artifact(format: Format, source_id: &str, content: &ArtifactContent) -> (r: Result<
    ParseOutcome,
    IngestError,
>)
    ensures
        ingest_view(r) == parse_artifact_of(format, source_id@, content@),
{
    match content {
        ArtifactContent::Sheets(w) => {
            if format == Format::Spreadsheet {
                check(parse_dipres_xls(w, source_id))
            } else {
                Err(IngestError::ContentMismatch)
            }
        },
        ArtifactContent::Text(t) => parse_text(format, source_id, t.as_str()),
        ArtifactContent::Bytes(b) => match decode_text(b.as_slice()) {
            Some(t) => parse_text(format, source_id, t),
            None => Err(IngestError::ReadFailed),
        },
    }
}

pub enum IngestErrorView {
    Parse(ParseErrorView),
    NoFactsParsed,
    ContentMismatch,
    ReadFailed,
    StoreFailed,
    Unexpected,
}

impl View for IngestError {
    type V = IngestErrorView;

    open spec fn view(&self) -> IngestErrorView {
        match self {
            IngestError::Parse(e) => IngestErrorView::Parse(e@),
            IngestError::NoFactsParsed => IngestErrorView::NoFactsParsed,
            IngestError::ContentMismatch => IngestErrorView::ContentMismatch,
            IngestError::ReadFailed => IngestErrorView::ReadFailed,
            IngestError::StoreFailed => IngestErrorView::StoreFailed,
            IngestError::Unexpected => IngestErrorView::Unexpected,
        }
    }
}

impl IngestErrorView {
    /// The words for this failure, where nothing else tells them.
    pub open spec fn message_of(self) -> Seq<char> {
        match self {
            IngestErrorView::Parse(e) => e.message_of(),
            IngestErrorView::NoFactsParsed => "No facts parsed from artifact"@,
            IngestErrorView::ContentMismatch => "Artifact content does not fit its format"@,
            IngestErrorView::ReadFailed => "Failed to read artifact file"@,
            IngestErrorView::StoreFailed => "Store failure"@,
            IngestErrorView::Unexpected => "Unexpected event"@,
        }
    }
}

impl IngestError {
    /// A copy of this failure.
    pub fn duplicate(&self) -> (r: IngestError)
        ensures
            r@ == self@,
    {
        match self {
            IngestError::Parse(e) => IngestError::Parse(e.duplicate()),
            IngestError::NoFactsParsed => IngestError::NoFactsParsed,
            IngestError::ContentMismatch => IngestError::ContentMismatch,
            IngestError::ReadFailed => IngestError::ReadFailed,
            IngestError::StoreFailed => IngestError::StoreFailed,
            IngestError::Unexpected => IngestError::Unexpected,
        }
    }

    /// The words for this failure.
    pub fn message(&self) -> (r: String)
        ensures
            r@ == self@.message_of(),
    {
        match self {
            IngestError::Parse(e) => e.message(),
            IngestError::NoFactsParsed => "No facts parsed from artifact".to_owned(),
            IngestError::ContentMismatch => "Artifact content does not fit its format".to_owned(),
            IngestError::ReadFailed => "Failed to read artifact file".to_owned(),
            IngestError::StoreFailed => "Store failure".to_owned(),
            IngestError::Unexpected => "Unexpected event".to_owned(),
        }
    }
}

/// What is asked of a run, and what the registry says of the artifact.
#[derive(Clone, Debug, PartialEq, Eq)]
pub struct RunRequest {
    pub artifact_id: Id,
    pub source_id: String,
    pub mime_type: String,
    pub storage_path: String,
    pub parse_status: ParseStatus,
    /// Leave the store as it is.
    pub dry_run: bool,
    /// Parse the artifact even if it was parsed already.
    pub verify: bool,
}

pub struct RunRequestView {
    pub artifact_id: Id,
    pub source_id: Seq<char>,
    pub mime_type: Seq<char>,
    pub storage_path: Seq<char>,
    pub parse_status: ParseStatus,
    pub dry_run: bool,
    pub verify: bool,
}

impl View for RunRequest {
    type V = RunRequestView;

    open spec fn view(&self) -> RunRequestView {
        RunRequestView {
            artifact_id: self.artifact_id,
            source_id: self.source_id@,
            mime_type: self.mime_type@,
            storage_path: self.storage_path@,
            parse_status: self.parse_status,
            dry_run: self.dry_run,
            verify: self.verify,
        }
    }
}

impl RunStateView {
    /// The candidates are as many as a machine can hold.
    pub open spec fn is_valid(self) -> bool {
        self.facts.len() <= usize::MAX
    }
}

impl RunRequestView {
    /// The format of the artifact.
    pub open spec fn format(self) -> Format {
        format_of(self.mime_type, self.storage_path, self.source_id)
    }
}

/// Where a run stands.
#[derive(Clone, Copy, Debug, PartialEq, Eq, Structural)]
pub enum Phase {
    /// Nothing has been done.
    Start,
    /// The job run is being opened.
    OpeningJob,
    /// The artifact is being read.
    Reading,
    /// The snapshot is being opened.
    OpeningSnapshot,
    /// The store is being asked for the entity of the next fact.
    EntityLookup,
    /// The entity of the next fact is being inserted.
    EntityInsert { id: Id },
    /// The store is being asked for the metric of the next fact.
    MetricLookup { entity_id: Id },
    /// The metric of the next fact is being inserted.
    MetricInsert { entity_id: Id, id: Id },
    /// The next fact is being written, with its provenance.
    FactInsert,
    /// The artifact is being marked as parsed.
    MarkingParsed,
    /// The job run is being closed after success.
    ClosingJob,
    /// The artifact is being marked as failed.
    MarkingFailed,
    /// The job run is being closed after failure.
    ClosingFailed,
    /// The run is complete.
    Done,
    /// The run failed.
    Failed,
}

impl Phase {
    /// Whether the phase belongs to the writes that stand or fall together:
    /// from the opening of the snapshot to the marking of the artifact as
    /// parsed.
    pub open spec fn is_in_transaction(self) -> bool {
        self is OpeningSnapshot || self is EntityLookup || self is EntityInsert
            || self is MetricLookup || self is MetricInsert || self is FactInsert
            || self is MarkingParsed
    }

    /// Whether the phase belongs to the writes that stand or fall together.
    pub fn in_transaction(&self) -> (b: bool)
        ensures
            b == self.is_in_transaction(),
    {
        match self {
            Phase::OpeningSnapshot
            | Phase::EntityLookup
            | Phase::EntityInsert { .. }
            | Phase::MetricLookup { .. }
            | Phase::MetricInsert { .. }
            | Phase::FactInsert
            | Phase::MarkingParsed => true,
            _ => false,
        }
    }
}

/// The state of a run.
pub struct RunState {
    pub phase: Phase,
    /// The fact candidates of the artifact, once it has been parsed.
    pub facts: Vec<ParsedFact>,
    /// The rows that the parse passed over.
    pub warnings: Vec<RowWarning>,
    /// The number of facts that have been written.
    pub written: usize,
    /// The entities that the run has resolved.
    pub entities: IdentityCache,
    /// The metrics that the run has resolved.
    pub metrics: IdentityCache,
    pub job_run_id: Id,
    pub snapshot_id: Id,
    /// Why the run is failing, with the words that are recorded for it.
    pub error: IngestError,
    pub message: String,
}

pub struct RunStateView {
    pub phase: Phase,
    pub facts: Seq<FactView>,
    pub warnings: Seq<RowWarning>,
    pub written: usize,
    pub entities: Map<Seq<char>, Id>,
    pub metrics: Map<Seq<char>, Id>,
    pub job_run_id: Id,
    pub snapshot_id: Id,
    pub error: IngestErrorView,
    pub message: Seq<char>,
}

impl View for RunState {
    type V = RunStateView;

    open spec fn view(&self) -> RunStateView {
        RunStateView {
            phase: self.phase,
            facts: self.facts.deep_view(),
            warnings: self.warnings@,
            written: self.written,
            entities: self.entities@,
            metrics: self.metrics@,
            job_run_id: self.job_run_id,
            snapshot_id: self.snapshot_id,
            error: self.error@,
            message: self.message@,
        }
    }
}

/// What came of the action that was asked last.
#[derive(Clone, Debug, PartialEq, Eq)]
pub enum RunEvent {
    /// The run is to begin.
    Begin,
    /// The artifact was read.
    Content(ArtifactContent),
    /// The artifact could not be read.
    ReadFailed { message: String },
    /// The store answered: the identifier of the row, if there is one.
    Found(Option<Id>),
    /// The store did what was asked.
    Written,
    /// The store failed.
    StoreFailed { message: String },
}

pub enum RunEventView {
    Begin,
    Content(ArtifactContentView),
    ReadFailed { message: Seq<char> },
    Found(Option<Id>),
    Written,
    StoreFailed { message: Seq<char> },
}

impl View for RunEvent {
    type V = RunEventView;

    open spec fn view(&self) -> RunEventView {
        match self {
            RunEvent::Begin => RunEventView::Begin,
            RunEvent::Content(c) => RunEventView::Content(c@),
            RunEvent::ReadFailed { message } => RunEventView::ReadFailed { message: message@ },
            RunEvent::Found(found) => RunEventView::Found(*found),
            RunEvent::Written => RunEventView::Written,
            RunEvent::StoreFailed { message } => RunEventView::StoreFailed { message: message@ },
        }
    }
}

/// What the caller is to do next.
#[derive(Clone, Debug, PartialEq, Eq)]
pub enum RunAction {
    /// Open the job run of this parse, as running.
    OpenJobRun { job_run_id: Id, source_id: String, artifact_id: Id },
    /// Read the artifact, as a workbook or as text.
    Read { storage_path: String, as_workbook: bool },
    /// Open the snapshot of this run.
    OpenSnapshot { snapshot_id: Id, note: String },
    /// Ask the store for the entity of the key.
    LookUpEntity { key: String },
    /// Insert the entity.
    InsertEntity { id: Id, identity: Identity },
    /// Ask the store for the metric of the key.
    LookUpMetric { key: String },
    /// Insert the metric.
    InsertMetric { id: Id, identity: Identity },
    /// Write the fact at `index` of the candidates, and with it its
    /// provenance: the artifact, and the location that the candidate names.
    WriteFact { fact_id: Id, snapshot_id: Id, entity_id: Id, metric_id: Id, artifact_id: Id, index: usize },
    /// Record the parse status of the artifact.
    MarkArtifact { artifact_id: Id, status: ParseStatus, error: Option<String> },
    /// Close the job run.
    CloseJobRun { job_run_id: Id, status: JobStatus, error: Option<String>, facts_created: usize },
    /// Nothing is to be done: the artifact was parsed already.
    Skip,
    /// Report the number of facts: the run is complete.
    Report { facts_created: usize },
    /// Give up.
    Abort { error: IngestError, message: String },
}

pub enum RunActionView {
    OpenJobRun { job_run_id: Id, source_id: Seq<char>, artifact_id: Id },
    Read { storage_path: Seq<char>, as_workbook: bool },
    OpenSnapshot { snapshot_id: Id, note: Seq<char> },
    LookUpEntity { key: Seq<char> },
    InsertEntity { id: Id, identity: IdentityView },
    LookUpMetric { key: Seq<char> },
    InsertMetric { id: Id, identity: IdentityView },
    WriteFact { fact_id: Id, snapshot_id: Id, entity_id: Id, metric_id: Id, artifact_id: Id, index: usize },
    MarkArtifact { artifact_id: Id, status: ParseStatus, error: Option<Seq<char>> },
    CloseJobRun { job_run_id: Id, status: JobStatus, error: Option<Seq<char>>, facts_created: usize },
    Skip,
    Report { facts_created: usize },
    Abort { error: IngestErrorView, message: Seq<char> },
}

impl View for RunAction {
    type V = RunActionView;

    open spec fn view(&self) -> RunActionView {
        match self {
            RunAction::OpenJobRun { job_run_id, source_id, artifact_id } => RunActionView::OpenJobRun {
                job_run_id: *job_run_id,
                source_id: source_id@,
                artifact_id: *artifact_id,
            },
            RunAction::Read { storage_path, as_workbook } => RunActionView::Read {
                storage_path: storage_path@,
                as_workbook: *as_workbook,
            },
            RunAction::OpenSnapshot { snapshot_id, note } => RunActionView::OpenSnapshot {
                snapshot_id: *snapshot_id,
                note: note@,
            },
            RunAction::LookUpEntity { key } => RunActionView::LookUpEntity { key: key@ },
            RunAction::InsertEntity { id, identity } => RunActionView::InsertEntity {
                id: *id,
                identity: identity@,
            },
            RunAction::LookUpMetric { key } => RunActionView::LookUpMetric { key: key@ },
            RunAction::InsertMetric { id, identity } => RunActionView::InsertMetric {
                id: *id,
                identity: identity@,
            },
            RunAction::WriteFact {
                fact_id,
                snapshot_id,
                entity_id,
                metric_id,
                artifact_id,
                index,
            } => RunActionView::WriteFact {
                fact_id: *fact_id,
                snapshot_id: *snapshot_id,
                entity_id: *entity_id,
                metric_id: *metric_id,
                artifact_id: *artifact_id,
                index: *index,
            },
            RunAction::MarkArtifact { artifact_id, status, error } => RunActionView::MarkArtifact {
                artifact_id: *artifact_id,
                status: *status,
                error: error.deep_view(),
            },
            RunAction::CloseJobRun {
                job_run_id,
                status,
                error,
                facts_created,
            } => RunActionView::CloseJobRun {
                job_run_id: *job_run_id,
                status: *status,
                error: error.deep_view(),
                facts_created: *facts_created,
            },
            RunAction::Skip => RunActionView::Skip,
            RunAction::Report { facts_created } => RunActionView::Report {
                facts_created: *facts_created,
            },
            RunAction::Abort { error, message } => RunActionView::Abort {
                error: error@,
                message: message@,
            },
        }
    }
}

/// The method that the provenance of every fact names.
pub const METHOD: &'static str = "csv_parser_v1";

/// The note of the snapshot of a run.
pub open spec fn snapshot_note_of(artifact_id: Id) -> Seq<char> {
    "Parser run for artifact "@ + id_text_of(artifact_id)
}

/// The entity that a fact belongs to.
pub open spec fn entity_of(fact: FactView) -> IdentityView {
    IdentityView {
        key: fact.entity_key,
        display_name: fact.entity_name,
        attribute: fact.entity_type,
    }
}

/// The metric that a fact measures.
pub open spec fn metric_of(fact: FactView) -> IdentityView {
    IdentityView {
        key: fact.metric_key,
        display_name: fact.metric_name,
        attribute: fact.metric_unit,
    }
}

/// The end of a run without a further write.
pub open spec fn aborted(state: RunStateView, error: IngestErrorView, message: Seq<char>) -> (
    RunStateView,
    RunActionView,
) {
    (
        RunStateView { phase: Phase::Failed, error, message, ..state },
        RunActionView::Abort { error, message },
    )
}

/// The failure of a run: a dry run ends at once; any other run first
/// records the failure with the artifact.
pub open spec fn failing(
    request: RunRequestView,
    state: RunStateView,
    error: IngestErrorView,
    message: Seq<char>,
) -> (RunStateView, RunActionView) {
    if request.dry_run {
        aborted(state, error, message)
    } else {
        (
            RunStateView { phase: Phase::MarkingFailed, error, message, ..state },
            RunActionView::MarkArtifact {
                artifact_id: request.artifact_id,
                status: ParseStatus::Failed,
                error: Some(message),
            },
        )
    }
}

/// The writing of the next fact, whose entity and metric are resolved.
pub open spec fn fact_stage(
    request: RunRequestView,
    state: RunStateView,
    entity_id: Id,
    metric_id: Id,
    fresh: Id,
) -> (RunStateView, RunActionView) {
    (
        RunStateView { phase: Phase::FactInsert, ..state },
        RunActionView::WriteFact {
            fact_id: fresh,
            snapshot_id: state.snapshot_id,
            entity_id,
            metric_id,
            artifact_id: request.artifact_id,
            index: state.written,
        },
    )
}

/// The resolution of the metric of the next fact, whose entity is
/// resolved.
pub open spec fn metric_stage(
    request: RunRequestView,
    state: RunStateView,
    entity_id: Id,
    fresh: Id,
) -> (RunStateView, RunActionView) {
    match begin_of(state.metrics, state.facts[state.written as int].metric_key) {
        ResolveActionView::Use { id } => fact_stage(request, state, entity_id, id, fresh),
        _ => (
            RunStateView { phase: Phase::MetricLookup { entity_id }, ..state },
            RunActionView::LookUpMetric { key: state.facts[state.written as int].metric_key },
        ),
    }
}

/// The next fact, or the end of the writes: once every fact is written
/// the artifact is marked as parsed.
pub open spec fn entity_stage(request: RunRequestView, state: RunStateView, fresh: Id) -> (
    RunStateView,
    RunActionView,
) {
    if state.written >= state.facts.len() {
        (
            RunStateView { phase: Phase::MarkingParsed, ..state },
            RunActionView::MarkArtifact {
                artifact_id: request.artifact_id,
                status: ParseStatus::Parsed,
                error: None,
            },
        )
    } else {
        match begin_of(state.entities, state.facts[state.written as int].entity_key) {
            ResolveActionView::Use { id } => metric_stage(request, state, id, fresh),
            _ => (
                RunStateView { phase: Phase::EntityLookup, ..state },
                RunActionView::LookUpEntity { key: state.facts[state.written as int].entity_key },
            ),
        }
    }
}

/// The reading of the artifact.
pub open spec fn reading(request: RunRequestView, state: RunStateView) -> (
    RunStateView,
    RunActionView,
) {
    (
        RunStateView { phase: Phase::Reading, ..state },
        RunActionView::Read {
            storage_path: request.storage_path,
            as_workbook: request.format() == Format::Spreadsheet,
        },
    )
}

/// The state with the identifier of an entity remembered.
pub open spec fn with_entity(state: RunStateView, id: Id) -> RunStateView {
    RunStateView {
        entities: state.entities.insert(state.facts[state.written as int].entity_key, id),
        ..state
    }
}

/// The state with the identifier of a metric remembered.
pub open spec fn with_metric(state: RunStateView, id: Id) -> RunStateView {
    RunStateView {
        metrics: state.metrics.insert(state.facts[state.written as int].metric_key, id),
        ..state
    }
}

/// The next state and the action that follow an event in a run that
/// writes. `fresh` is the identifier that a new row gets.
pub open spec fn live_step_of(
    request: RunRequestView,
    state: RunStateView,
    event: RunEventView,
    fresh: Id,
) -> (RunStateView, RunActionView) {
    match (state.phase, event) {
        (Phase::Start, RunEventView::Begin) => (
            RunStateView { phase: Phase::OpeningJob, job_run_id: fresh, ..state },
            RunActionView::OpenJobRun {
                job_run_id: fresh,
                source_id: request.source_id,
                artifact_id: request.artifact_id,
            },
        ),
        (Phase::OpeningJob, RunEventView::Written) => reading(request, state),
        (Phase::Reading, RunEventView::Content(content)) => match parse_artifact_of(
            request.format(),
            request.source_id,
            content,
        ) {
            Err(e) => failing(request, state, e, e.message_of()),
            Ok(outcome) => (
                RunStateView {
                    phase: Phase::OpeningSnapshot,
                    facts: outcome.facts,
                    warnings: outcome.warnings,
                    written: 0,
                    snapshot_id: fresh,
                    ..state
                },
                RunActionView::OpenSnapshot {
                    snapshot_id: fresh,
                    note: snapshot_note_of(request.artifact_id),
                },
            ),
        },
        (Phase::Reading, RunEventView::ReadFailed { message }) => failing(
            request,
            state,
            IngestErrorView::ReadFailed,
            message,
        ),
        (Phase::OpeningSnapshot, RunEventView::Written) => entity_stage(request, state, fresh),
        (Phase::EntityLookup, RunEventView::Found(found)) => if state.written < state.facts.len() {
            match answer_of(entity_of(state.facts[state.written as int]), found, fresh) {
                ResolveActionView::Insert { id, identity } => (
                    RunStateView { phase: Phase::EntityInsert { id }, ..state },
                    RunActionView::InsertEntity { id, identity },
                ),
                ResolveActionView::Use { id } => metric_stage(
                    request,
                    with_entity(state, id),
                    id,
                    fresh,
                ),
                ResolveActionView::LookUp { .. } => aborted(
                    state,
                    IngestErrorView::Unexpected,
                    IngestErrorView::Unexpected.message_of(),
                ),
            }
        } else {
            aborted(state, IngestErrorView::Unexpected, IngestErrorView::Unexpected.message_of())
        },
        (Phase::EntityInsert { id }, RunEventView::Written) => if state.written
            < state.facts.len() {
            metric_stage(request, with_entity(state, id), id, fresh)
        } else {
            aborted(state, IngestErrorView::Unexpected, IngestErrorView::Unexpected.message_of())
        },
        (Phase::MetricLookup { entity_id }, RunEventView::Found(found)) => if state.written
            < state.facts.len() {
            match answer_of(metric_of(state.facts[state.written as int]), found, fresh) {
                ResolveActionView::Insert { id, identity } => (
                    RunStateView { phase: Phase::MetricInsert { entity_id, id }, ..state },
                    RunActionView::InsertMetric { id, identity },
                ),
                ResolveActionView::Use { id } => fact_stage(
                    request,
                    with_metric(state, id),
                    entity_id,
                    id,
                    fresh,
                ),
                ResolveActionView::LookUp { .. } => aborted(
                    state,
                    IngestErrorView::Unexpected,
                    IngestErrorView::Unexpected.message_of(),
                ),
            }
        } else {
            aborted(state, IngestErrorView::Unexpected, IngestErrorView::Unexpected.message_of())
        },
        (Phase::MetricInsert { entity_id, id }, RunEventView::Written) => if state.written
            < state.facts.len() {
            fact_stage(request, with_metric(state, id), entity_id, id, fresh)
        } else {
            aborted(state, IngestErrorView::Unexpected, IngestErrorView::Unexpected.message_of())
        },
        (Phase::FactInsert, RunEventView::Written) => if state.written < state.facts.len() {
            entity_stage(
                request,
                RunStateView { written: (state.written + 1) as usize, ..state },
                fresh,
            )
        } else {
            aborted(state, IngestErrorView::Unexpected, IngestErrorView::Unexpected.message_of())
        },
        (Phase::MarkingParsed, RunEventView::Written) => (
            RunStateView { phase: Phase::ClosingJob, ..state },
            RunActionView::CloseJobRun {
                job_run_id: state.job_run_id,
                status: JobStatus::Succeeded,
                error: None,
                facts_created: state.written,
            },
        ),
        (Phase::ClosingJob, RunEventView::Written) => (
            RunStateView { phase: Phase::Done, ..state },
            RunActionView::Report { facts_created: state.written },
        ),
        (Phase::MarkingFailed, RunEventView::Written) => (
            RunStateView { phase: Phase::ClosingFailed, ..state },
            RunActionView::CloseJobRun {
                job_run_id: state.job_run_id,
                status: JobStatus::Failed,
                error: Some(state.message),
                facts_created: 0,
            },
        ),
        (Phase::ClosingFailed, RunEventView::Written) => aborted(
            state,
            state.error,
            state.message,
        ),
        (phase, RunEventView::StoreFailed { message }) => if phase is OpeningSnapshot
            || phase is EntityLookup || phase is EntityInsert || phase is MetricLookup
            || phase is MetricInsert || phase is FactInsert || phase is MarkingParsed {
            failing(request, state, IngestErrorView::StoreFailed, message)
        } else if phase is OpeningJob || phase is ClosingJob || phase is MarkingFailed
            || phase is ClosingFailed {
            aborted(state, IngestErrorView::StoreFailed, message)
        } else {
            aborted(state, IngestErrorView::Unexpected, IngestErrorView::Unexpected.message_of())
        },
        _ => aborted(state, IngestErrorView::Unexpected, IngestErrorView::Unexpected.message_of()),
    }
}

/// The next state and the action that follow an event in a dry run: the
/// artifact is read and parsed, and the number of its facts is reported.
pub open spec fn dry_step_of(
    request: RunRequestView,
    state: RunStateView,
    event: RunEventView,
) -> (RunStateView, RunActionView) {
    match (state.phase, event) {
        (Phase::Start, RunEventView::Begin) => reading(request, state),
        (Phase::Reading, RunEventView::Content(content)) => match parse_artifact_of(
            request.format(),
            request.source_id,
            content,
        ) {
            Err(e) => aborted(state, e, e.message_of()),
            Ok(outcome) => (
                RunStateView {
                    phase: Phase::Done,
                    facts: outcome.facts,
                    warnings: outcome.warnings,
                    ..state
                },
                RunActionView::Report { facts_created: outcome.facts.len() as usize },
            ),
        },
        (Phase::Reading, RunEventView::ReadFailed { message }) => aborted(
            state,
            IngestErrorView::ReadFailed,
            message,
        ),
        _ => aborted(state, IngestErrorView::Unexpected, IngestErrorView::Unexpected.message_of()),
    }
}

/// The next state and the action that follow an event. An artifact that
/// was parsed already is skipped, unless the run is asked to check it
/// again.
pub open spec fn run_step_of(
    request: RunRequestView,
    state: RunStateView,
    event: RunEventView,
    fresh: Id,
) -> (RunStateView, RunActionView) {
    if state.phase is Start && event is Begin && !(request.parse_status != ParseStatus::Parsed
        || request.verify) {
        (RunStateView { phase: Phase::Done, ..state }, RunActionView::Skip)
    } else if request.dry_run {
        dry_step_of(request, state, event)
    } else {
        live_step_of(request, state, event, fresh)
    }
}

/// Whether an action changes the store.
pub open spec fn is_write(action: RunActionView) -> bool {
    match action {
        RunActionView::OpenJobRun { .. }
        | RunActionView::OpenSnapshot { .. }
        | RunActionView::InsertEntity { .. }
        | RunActionView::InsertMetric { .. }
        | RunActionView::WriteFact { .. }
        | RunActionView::MarkArtifact { .. }
        | RunActionView::CloseJobRun { .. } => true,
        _ => false,
    }
}

impl RunState {
    /// The state of a run before it begins.
    pub open spec fn initial() -> RunStateView {
        RunStateView {
            phase: Phase::Start,
            facts: Seq::empty(),
            warnings: Seq::empty(),
            written: 0,
            entities: Map::empty(),
            metrics: Map::empty(),
            job_run_id: 0,
            snapshot_id: 0,
            error: IngestErrorView::Unexpected,
            message: Seq::empty(),
        }
    }

    /// The state of a run before it begins.
    pub fn new() -> (state: RunState)
        ensures
            state@ == RunState::initial(),
    {
        let state = RunState {
            phase: Phase::Start,
            facts: Vec::new(),
            warnings: Vec::new(),
            written: 0,
            entities: IdentityCache::new(),
            metrics: IdentityCache::new(),
            job_run_id: 0,
            snapshot_id: 0,
            error: IngestError::Unexpected,
            message: String::new(),
        };
        assert(state.facts.deep_view() == Seq::<FactView>::empty());
        state
    }

    /// The fact candidate at `index`, if there is one.
    pub fn fact(&self, index: usize) -> (f: Option<&ParsedFact>)
        ensures
            match f {
                Some(fact) => index < self@.facts.len() && fact@ == self@.facts[index as int],
                None => index >= self@.facts.len(),
            },
    {
        if index < self.facts.len() {
            Some(&self.facts[index])
        } else {
            None
        }
    }
}

fn abort(state: RunState, error: IngestError, message: String) -> (r: (RunState, RunAction))
    ensures
        (r.0@, r.1@) == aborted(state@, error@, message@),
{
    let copy = message.clone();
    let same = error.duplicate();
    (RunState { phase: Phase::Failed, error, message, ..state }, RunAction::Abort {
        error: same,
        message: copy,
    })
}

fn abort_unexpected(state: RunState) -> (r: (RunState, RunAction))
    ensures
        (r.0@, r.1@) == aborted(
            state@,
            IngestErrorView::Unexpected,
            IngestErrorView::Unexpected.message_of(),
        ),
{
    abort(state, IngestError::Unexpected, IngestError::Unexpected.message())
}

fn fail(request: &RunRequest, state: RunState, error: IngestError, message: String) -> (r: (
    RunState,
    RunAction,
))
    ensures
        (r.0@, r.1@) == failing(request@, state@, error@, message@),
{
    if request.dry_run {
        abort(state, error, message)
    } else {
        let copy = message.clone();
        (
            RunState { phase: Phase::MarkingFailed, error, message, ..state },
            RunAction::MarkArtifact {
                artifact_id: request.artifact_id,
                status: ParseStatus::Failed,
                error: Some(copy),
            },
        )
    }
}

fn read(request: &RunRequest, state: RunState) -> (r: (RunState, RunAction))
    ensures
        (r.0@, r.1@) == reading(request@, state@),
{
    let format = detect_format(
        request.mime_type.as_str(),
        request.storage_path.as_str(),
        request.source_id.as_str(),
    );
    (
        RunState { phase: Phase::Reading, ..state },
        RunAction::Read {
            storage_path: request.storage_path.clone(),
            as_workbook: format == Format::Spreadsheet,
        },
    )
}

fn fact_step(request: &RunRequest, state: RunState, entity_id: Id, metric_id: Id, fresh: Id) -> (r: (
    RunState,
    RunAction,
))
    ensures
        (r.0@, r.1@) == fact_stage(request@, state@, entity_id, metric_id, fresh),
{
    let action = RunAction::WriteFact {
        fact_id: fresh,
        snapshot_id: state.snapshot_id,
        entity_id,
        metric_id,
        artifact_id: request.artifact_id,
        index: state.written,
    };
    (RunState { phase: Phase::FactInsert, ..state }, action)
}

fn metric_step(request: &RunRequest, state: RunState, entity_id: Id, fresh: Id) -> (r: (
    RunState,
    RunAction,
))
    requires
        state.written < state.facts.len(),
    ensures
        (r.0@, r.1@) == metric_stage(request@, state@, entity_id, fresh),
{
    assert(state@.facts[state.written as int] == state.facts[state.written as int]@);
    match begin_resolve(&state.metrics, state.facts[state.written].metric_key.as_str()) {
        ResolveAction::Use { id } => fact_step(request, state, entity_id, id, fresh),
        _ => {
            let key = state.facts[state.written].metric_key.clone();
            (
                RunState { phase: Phase::MetricLookup { entity_id }, ..state },
                RunAction::LookUpMetric { key },
            )
        },
    }
}

fn entity_step(request: &RunRequest, state: RunState, fresh: Id) -> (r: (RunState, RunAction))
    ensures
        (r.0@, r.1@) == entity_stage(request@, state@, fresh),
{
    if state.written >= state.facts.len() {
        (
            RunState { phase: Phase::MarkingParsed, ..state },
            RunAction::MarkArtifact {
                artifact_id: request.artifact_id,
                status: ParseStatus::Parsed,
                error: None,
            },
        )
    } else {
        assert(state@.facts[state.written as int] == state.facts[state.written as int]@);
        match begin_resolve(&state.entities, state.facts[state.written].entity_key.as_str()) {
            ResolveAction::Use { id } => metric_step(request, state, id, fresh),
            _ => {
                let key = state.facts[state.written].entity_key.clone();
                (RunState { phase: Phase::EntityLookup, ..state }, RunAction::LookUpEntity { key })
            },
        }
    }
}

fn remember_entity(state: RunState, id: Id) -> (r: RunState)
    requires
        state.written < state.facts.len(),
    ensures
        r@ == with_entity(state@, id),
        r.written == state.written,
        r.facts == state.facts,
{
    assert(state@.facts[state.written as int] == state.facts[state.written as int]@);
    let key = state.facts[state.written].entity_key.clone();
    let mut entities = state.entities;
    let _ = on_inserted(&mut entities, key, id);
    RunState { entities, ..state }
}

fn remember_metric(state: RunState, id: Id) -> (r: RunState)
    requires
        state.written < state.facts.len(),
    ensures
        r@ == with_metric(state@, id),
        r.written == state.written,
        r.facts == state.facts,
{
    assert(state@.facts[state.written as int] == state.facts[state.written as int]@);
    let key = state.facts[state.written].metric_key.clone();
    let mut metrics = state.metrics;
    let _ = on_inserted(&mut metrics, key, id);
    RunState { metrics, ..state }
}

fn entity_identity(fact: &ParsedFact) -> (identity: Identity)
    ensures
        identity@ == entity_of(fact@),
{
    Identity {
        key: fact.entity_key.clone(),
        display_name: fact.entity_name.clone(),
        attribute: fact.entity_type.clone(),
    }
}

fn metric_identity(fact: &ParsedFact) -> (identity: Identity)
    ensures
        identity@ == metric_of(fact@),
{
    Identity {
        key: fact.metric_key.clone(),
        display_name: fact.metric_name.clone(),
        attribute: fact.metric_unit.clone(),
    }
}

fn parse_for(request: &RunRequest, content: &ArtifactContent) -> (r: Result<ParseOutcome, IngestError>)
    ensures
        ingest_view(r) == parse_artifact_of(request@.format(), request@.source_id, content@),
{
    let format = detect_format(
        request.mime_type.as_str(),
        request.storage_path.as_str(),
        request.source_id.as_str(),
    );
    parse_artifact(format, request.source_id.as_str(), content)
}

fn live_step(request: &RunRequest, state: RunState, event: RunEvent, fresh: Id) -> (r: (
    RunState,
    RunAction,
))
    ensures
        (r.0@, r.1@) == live_step_of(request@, state@, event@, fresh),
{
    let phase = state.phase;
    match (phase, event) {
        (Phase::Start, RunEvent::Begin) => (
            RunState { phase: Phase::OpeningJob, job_run_id: fresh, ..state },
            RunAction::OpenJobRun {
                job_run_id: fresh,
                source_id: request.source_id.clone(),
                artifact_id: request.artifact_id,
            },
        ),
        (Phase::OpeningJob, RunEvent::Written) => read(request, state),
        (Phase::Reading, RunEvent::Content(content)) => match parse_for(request, &content) {
            Err(e) => {
                let message = e.message();
                fail(request, state, e, message)
            },
            Ok(outcome) => {
                let mut note = "Parser run for artifact ".to_owned();
                let text = id_text(request.artifact_id);
                note.append(text.as_str());
                (
                    RunState {
                        phase: Phase::OpeningSnapshot,
                        facts: outcome.facts,
                        warnings: outcome.warnings,
                        written: 0,
                        snapshot_id: fresh,
                        ..state
                    },
                    RunAction::OpenSnapshot { snapshot_id: fresh, note },
                )
            },
        },
        (Phase::Reading, RunEvent::ReadFailed { message }) => fail(
            request,
            state,
            IngestError::ReadFailed,
            message,
        ),
        (Phase::OpeningSnapshot, RunEvent::Written) => entity_step(request, state, fresh),
        (Phase::EntityLookup, RunEvent::Found(found)) => {
            if state.written < state.facts.len() {
                assert(state@.facts[state.written as int] == state.facts[state.written as int]@);
                let identity = entity_identity(&state.facts[state.written]);
                let mut entities = state.entities;
                match on_answer(&mut entities, identity, found, fresh) {
                    ResolveAction::Insert { id, identity } => (
                        RunState { phase: Phase::EntityInsert { id }, entities, ..state },
                        RunAction::InsertEntity { id, identity },
                    ),
                    ResolveAction::Use { id } => metric_step(
                        request,
                        RunState { entities, ..state },
                        id,
                        fresh,
                    ),
                    ResolveAction::LookUp { .. } => abort_unexpected(RunState { entities, ..state }),
                }
            } else {
                abort_unexpected(state)
            }
        },
        (Phase::EntityInsert { id }, RunEvent::Written) => {
            if state.written < state.facts.len() {
                let state = remember_entity(state, id);
                metric_step(request, state, id, fresh)
            } else {
                abort_unexpected(state)
            }
        },
        (Phase::MetricLookup { entity_id }, RunEvent::Found(found)) => {
            if state.written < state.facts.len() {
                assert(state@.facts[state.written as int] == state.facts[state.written as int]@);
                let identity = metric_identity(&state.facts[state.written]);
                let mut metrics = state.metrics;
                match on_answer(&mut metrics, identity, found, fresh) {
                    ResolveAction::Insert { id, identity } => (
                        RunState { phase: Phase::MetricInsert { entity_id, id }, metrics, ..state },
                        RunAction::InsertMetric { id, identity },
                    ),
                    ResolveAction::Use { id } => fact_step(
                        request,
                        RunState { metrics, ..state },
                        entity_id,
                        id,
                        fresh,
                    ),
                    ResolveAction::LookUp { .. } => abort_unexpected(RunState { metrics, ..state }),
                }
            } else {
                abort_unexpected(state)
            }
        },
        (Phase::MetricInsert { entity_id, id }, RunEvent::Written) => {
            if state.written < state.facts.len() {
                let state = remember_metric(state, id);
                fact_step(request, state, entity_id, id, fresh)
            } else {
                abort_unexpected(state)
            }
        },
        (Phase::FactInsert, RunEvent::Written) => {
            if state.written < state.facts.len() {
                let written = state.written + 1;
                entity_step(request, RunState { written, ..state }, fresh)
            } else {
                abort_unexpected(state)
            }
        },
        (Phase::MarkingParsed, RunEvent::Written) => {
            let action = RunAction::CloseJobRun {
                job_run_id: state.job_run_id,
                status: JobStatus::Succeeded,
                error: None,
                facts_created: state.written,
            };
            (RunState { phase: Phase::ClosingJob, ..state }, action)
        },
        (Phase::ClosingJob, RunEvent::Written) => {
            let action = RunAction::Report { facts_created: state.written };
            (RunState { phase: Phase::Done, ..state }, action)
        },
        (Phase::MarkingFailed, RunEvent::Written) => {
            let action = RunAction::CloseJobRun {
                job_run_id: state.job_run_id,
                status: JobStatus::Failed,
                error: Some(state.message.clone()),
                facts_created: 0,
            };
            (RunState { phase: Phase::ClosingFailed, ..state }, action)
        },
        (Phase::ClosingFailed, RunEvent::Written) => {
            let error = state.error.duplicate();
            let message = state.message.clone();
            abort(state, error, message)
        },
        (phase, RunEvent::StoreFailed { message }) => {
            match phase {
                Phase::OpeningSnapshot
                | Phase::EntityLookup
                | Phase::EntityInsert { .. }
                | Phase::MetricLookup { .. }
                | Phase::MetricInsert { .. }
                | Phase::FactInsert
                | Phase::MarkingParsed => fail(request, state, IngestError::StoreFailed, message),
                Phase::OpeningJob
                | Phase::ClosingJob
                | Phase::MarkingFailed
                | Phase::ClosingFailed => abort(state, IngestError::StoreFailed, message),
                _ => abort_unexpected(state),
            }
        },
        _ => abort_unexpected(state),
    }
}

fn dry_step(request: &RunRequest, state: RunState, event: RunEvent) -> (r: (RunState, RunAction))
    ensures
        (r.0@, r.1@) == dry_step_of(request@, state@, event@),
{
    let phase = state.phase;
    match (phase, event) {
        (Phase::Start, RunEvent::Begin) => read(request, state),
        (Phase::Reading, RunEvent::Content(content)) => match parse_for(request, &content) {
            Err(e) => {
                let message = e.message();
                abort(state, e, message)
            },
            Ok(outcome) => {
                let facts_created = outcome.facts.len();
                (
                    RunState {
                        phase: Phase::Done,
                        facts: outcome.facts,
                        warnings: outcome.warnings,
                        ..state
                    },
                    RunAction::Report { facts_created },
                )
            },
        },
        (Phase::Reading, RunEvent::ReadFailed { message }) => abort(
            state,
            IngestError::ReadFailed,
            message,
        ),
        _ => abort_unexpected(state),
    }
}

/// Takes one step of a run, with the identifier that a new row is to get.
pub fn run_step(request: &RunRequest, state: RunState, event: RunEvent, fresh: Id) -> (r: (
    RunState,
    RunAction,
))
    ensures
        (r.0@, r.1@) == run_step_of(request@, state@, event@, fresh),
{
    let at_start = match (&state.phase, &event) {
        (Phase::Start, RunEvent::Begin) => true,
        _ => false,
    };
    if at_start && !should_parse(request.parse_status, request.verify) {
        (RunState { phase: Phase::Done, ..state }, RunAction::Skip)
    } else if request.dry_run {
        dry_step(request, state, event)
    } else {
        live_step(request, state, event, fresh)
    }
}

/// Takes one step of a run. The identifier of a new row is drawn at
/// random.
pub fn run_advance(request: &RunRequest, state: RunState, event: RunEvent) -> (r: (
    RunState,
    RunAction,
))
    ensures
        exists|fresh: Id| (r.0@, r.1@) == #[trigger] run_step_of(request@, state@, event@, fresh),
{
    let fresh = fresh_id();
    run_step(request, state, event, fresh)
}

/// Parsing is a function of what was read and of the source identifier:
/// two parses of the same content under the same format and identifier
/// give the same candidates with the same keys, values and locations, in
/// the same order, and the same warnings; or the same error.
pub proof fn lemma_parse_deterministic(
    format: Format,
    source_id: Seq<char>,
    content: ArtifactContentView,
    first: Result<ParseOutcome, IngestError>,
    second: Result<ParseOutcome, IngestError>,
)
    requires
        ingest_view(first) == parse_artifact_of(format, source_id, content),
        ingest_view(second) == parse_artifact_of(format, source_id, content),
    ensures
        ingest_view(first) == ingest_view(second),
        first is Ok ==> first->Ok_0.facts.deep_view() == second->Ok_0.facts.deep_view(),
{
}

/// A dry run never asks for a change of the store, whatever its state and
/// whatever is handed to it.
pub proof fn lemma_dry_run_never_writes(
    request: RunRequestView,
    state: RunStateView,
    event: RunEventView,
    fresh: Id,
)
    requires
        request.dry_run,
    ensures
        !is_write(run_step_of(request, state, event, fresh).1),
{
}

/// A dry run that parses its artifact reports the number of the fact
/// candidates, and ends.
pub proof fn lemma_dry_run_reports_count(
    request: RunRequestView,
    state: RunStateView,
    content: ArtifactContentView,
    fresh: Id,
)
    requires
        request.dry_run,
        state.phase is Reading,
        parse_artifact_of(request.format(), request.source_id, content) is Ok,
    ensures
        ({
            let outcome = parse_artifact_of(request.format(), request.source_id, content)->Ok_0;
            let (next, action) = run_step_of(request, state, RunEventView::Content(content), fresh);
            &&& action == (RunActionView::Report { facts_created: outcome.facts.len() as usize })
            &&& next.phase is Done
            &&& next.facts == outcome.facts
        }),
{
}

/// Facts are written in the order of the candidates: a write is always
/// that of the first candidate that has not been written, for the artifact
/// of the run; and the count of written facts grows by one when the store
/// confirms the write.
pub proof fn lemma_facts_written_in_order(
    request: RunRequestView,
    state: RunStateView,
    event: RunEventView,
    fresh: Id,
)
    requires
        state.is_valid(),
    ensures
        ({
            let (next, action) = run_step_of(request, state, event, fresh);
            &&& action matches RunActionView::WriteFact { index, artifact_id, snapshot_id, .. } ==> {
                &&& index == next.written
                &&& index < next.facts.len()
                &&& artifact_id == request.artifact_id
                &&& snapshot_id == next.snapshot_id
                &&& next.phase is FactInsert
                &&& next.facts == state.facts
            }
            &&& next.written == state.written || (state.phase is FactInsert && event is Written
                && next.written == state.written + 1) || (state.phase is Reading && next.written
                == 0)
        }),
{
}

/// The artifact is marked as parsed only after every candidate has been
/// written, and the job run is closed with the number of written facts.
pub proof fn lemma_marked_parsed_after_all_writes(
    request: RunRequestView,
    state: RunStateView,
    event: RunEventView,
    fresh: Id,
)
    ensures
        ({
            let (next, action) = run_step_of(request, state, event, fresh);
            &&& action matches RunActionView::MarkArtifact { status, artifact_id, .. } ==> {
                &&& artifact_id == request.artifact_id
                &&& status == ParseStatus::Parsed ==> next.written >= next.facts.len()
                &&& status != ParseStatus::Parsed ==> status == ParseStatus::Failed
            }
            &&& action matches RunActionView::CloseJobRun { status, facts_created, .. } ==> {
                &&& status == JobStatus::Succeeded ==> facts_created == state.written
                    && state.phase is MarkingParsed
                &&& status != JobStatus::Succeeded ==> status == JobStatus::Failed && facts_created
                    == 0
            }
        }),
{
}

/// An artifact that was parsed already is left alone: a run that is not
/// asked to check it again ends at once, without any action on the store.
pub proof fn lemma_parsed_artifact_skipped(request: RunRequestView, fresh: Id)
    requires
        request.parse_status == ParseStatus::Parsed,
        !request.verify,
    ensures
        run_step_of(request, RunState::initial(), RunEventView::Begin, fresh).1
            == RunActionView::Skip,
        run_step_of(request, RunState::initial(), RunEventView::Begin, fresh).0.phase is Done,
{
}

/// The snapshot, the identities, the facts and the mark of success are
/// asked for within one span of phases, so that a store can make them
/// stand or fall together: each of these writes leaves the run inside the
/// span, and a failure is recorded outside of it.
pub proof fn lemma_writes_within_transaction(
    request: RunRequestView,
    state: RunStateView,
    event: RunEventView,
    fresh: Id,
)
    ensures
        ({
            let (next, action) = run_step_of(request, state, event, fresh);
            &&& (action is OpenSnapshot || action is InsertEntity || action is InsertMetric
                || action is WriteFact || action is LookUpEntity || action is LookUpMetric)
                ==> next.phase.is_in_transaction()
            &&& action matches RunActionView::MarkArtifact { status, .. } ==> (status
                == ParseStatus::Parsed <==> next.phase.is_in_transaction())
            &&& action is CloseJobRun ==> !next.phase.is_in_transaction()
        }),
{
}

} // verus!
