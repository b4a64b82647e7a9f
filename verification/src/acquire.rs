//! Acquiring a document: the content digest that names its bytes, and the
//! decisions between the network call, the registry and the blob area.
//! The caller performs each action and hands back what came of it.

use vstd::prelude::*;
use vstd::string::StringExecFns;
use crate::ident::{fresh_id, hex_char, hex_digit, id_text, id_text_of, Id};
use crate::text::push_char;

verus! {

/// The SHA-256 digest of a sequence of bytes.
pub uninterp spec fn sha256_of(bytes: Seq<u8>) -> Seq<u8>;

/// Computes the SHA-256 digest of the bytes.
///
/// Trusted: `sha2::Sha256::digest` is a function of the bytes alone. The
/// contract names its result.
#[verifier::external_body]
pub(crate) fn sha256(bytes: &[u8]) -> (digest: Vec<u8>)
    ensures
        digest@ == sha256_of(bytes@),
{
    <sha2::Sha256 as sha2::Digest>::digest(bytes).to_vec()
}

/// Reads the clock.
///
/// Trusted: `chrono::Utc::now` returns the time of the call, of which
/// nothing is claimed; `timestamp_micros` counts its microseconds since
/// 1970.
#[verifier::external_body]
pub(crate) fn now_micros() -> (t: i64) {
    chrono::Utc::now().timestamp_micros()
}

/// The bytes in hexadecimal, two lower-case digits each.
pub open spec fn hex_of(bytes: Seq<u8>) -> Seq<char>
    decreases bytes.len(),
{
    if bytes.len() == 0 {
        Seq::empty()
    } else {
        hex_of(bytes.drop_last()).push(hex_digit(bytes.last() as int / 16)).push(
            hex_digit(bytes.last() as int % 16),
        )
    }
}

/// The content digest that a registry keeps for a digest of bytes.
pub open spec fn digest_text(digest: Seq<u8>) -> Seq<char> {
    "sha256:"@ + hex_of(digest)
}

/// The content digest of a document: `sha256:` and the hexadecimal digest
/// of its bytes.
pub open spec fn content_hash_of(bytes: Seq<u8>) -> Seq<char> {
    digest_text(sha256_of(bytes))
}

/// Writes a digest as the registry keeps it.
pub fn digest_string(digest: &[u8]) -> (s: String)
    ensures
        s@ == digest_text(digest@),
{
    let mut s = "sha256:".to_owned();
    let mut i: usize = 0;
    assert(digest@.take(0) == Seq::<u8>::empty());
    while i < digest.len()
        invariant
            i <= digest.len(),
            s@ == "sha256:"@ + hex_of(digest@.take(i as int)),
        decreases digest.len() - i,
    {
        let b = digest[i];
        proof {
            let now = digest@.take(i + 1);
            assert(now.drop_last() == digest@.take(i as int));
            assert(now.last() == b);
        }
        push_char(&mut s, hex_char(b / 16));
        push_char(&mut s, hex_char(b % 16));
        i = i + 1;
    }
    assert(digest@.take(digest.len() as int) == digest@);
    s
}

/// Computes the content digest of a document.
pub fn content_hash(bytes: &[u8]) -> (s: String)
    ensures
        s@ == content_hash_of(bytes@),
{
    let digest = sha256(bytes);
    digest_string(digest.as_slice())
}

/// The media type of a response: what its header says, or the type of
/// unknown bytes.
pub open spec fn mime_type_of(content_type: Option<Seq<char>>) -> Seq<char> {
    match content_type {
        Some(t) => t,
        None => "application/octet-stream"@,
    }
}

/// The name of the blob of an artifact.
pub open spec fn blob_name_of(artifact_id: Id) -> Seq<char> {
    id_text_of(artifact_id) + ".raw"@
}

/// The name of the blob of an artifact.
pub fn blob_name(artifact_id: Id) -> (s: String)
    ensures
        s@ == blob_name_of(artifact_id),
{
    let mut s = id_text(artifact_id);
    s.append(".raw");
    s
}

/// Whether an artifact has been parsed.
#[derive(Clone, Copy, Debug, PartialEq, Eq, Structural)]
pub enum ParseStatus {
    Pending,
    Parsed,
    Failed,
}

impl ParseStatus {
    /// The name of the status in the registry.
    pub open spec fn name_of(self) -> Seq<char> {
        match self {
            ParseStatus::Pending => "pending"@,
            ParseStatus::Parsed => "ok"@,
            ParseStatus::Failed => "failed"@,
        }
    }

    /// The name of the status in the registry.
    pub fn name(&self) -> (r: &'static str)
        ensures
            r@ == self.name_of(),
    {
        match self {
            ParseStatus::Pending => "pending",
            ParseStatus::Parsed => "ok",
            ParseStatus::Failed => "failed",
        }
    }
}

/// What the registry records of an artifact.
#[derive(Clone, Debug, PartialEq, Eq)]
pub struct ArtifactMeta {
    pub artifact_id: Id,
    pub source_id: String,
    pub url: String,
    /// Microseconds since 1970.
    pub captured_at: i64,
    pub content_hash: String,
    pub mime_type: String,
    pub size_bytes: usize,
    pub storage_kind: String,
    pub storage_path: String,
    pub parse_status: ParseStatus,
}

pub struct ArtifactMetaView {
    pub artifact_id: Id,
    pub source_id: Seq<char>,
    pub url: Seq<char>,
    pub captured_at: i64,
    pub content_hash: Seq<char>,
    pub mime_type: Seq<char>,
    pub size_bytes: usize,
    pub storage_kind: Seq<char>,
    pub storage_path: Seq<char>,
    pub parse_status: ParseStatus,
}

impl View for ArtifactMeta {
    type V = ArtifactMetaView;

    open spec fn view(&self) -> ArtifactMetaView {
        ArtifactMetaView {
            artifact_id: self.artifact_id,
            source_id: self.source_id@,
            url: self.url@,
            captured_at: self.captured_at,
            content_hash: self.content_hash@,
            mime_type: self.mime_type@,
            size_bytes: self.size_bytes,
            storage_kind: self.storage_kind@,
            storage_path: self.storage_path@,
            parse_status: self.parse_status,
        }
    }
}

/// What is asked of an acquisition.
#[derive(Clone, Debug, PartialEq, Eq)]
pub struct AcquireRequest {
    pub source_id: String,
    pub url: String,
    /// Register the document even if its bytes are known.
    pub force: bool,
    /// Leave the registry as it is.
    pub dry_run: bool,
    /// The time to wait before the request, in milliseconds.
    pub rate_limit_ms: u64,
}

pub struct AcquireRequestView {
    pub source_id: Seq<char>,
    pub url: Seq<char>,
    pub force: bool,
    pub dry_run: bool,
    pub rate_limit_ms: u64,
}

impl View for AcquireRequest {
    type V = AcquireRequestView;

    open spec fn view(&self) -> AcquireRequestView {
        AcquireRequestView {
            source_id: self.source_id@,
            url: self.url@,
            force: self.force,
            dry_run: self.dry_run,
            rate_limit_ms: self.rate_limit_ms,
        }
    }
}

/// Why an acquisition failed.
#[derive(Clone, Copy, Debug, PartialEq, Eq, Structural)]
pub enum AcquireError {
    /// The fetch failed, or the response was no success.
    Network,
    /// The blob area or the registry failed.
    Storage,
    /// What was handed back does not answer the action that was asked.
    Unexpected,
}

/// What is known of a document that was fetched.
#[derive(Clone, Debug, PartialEq, Eq)]
pub struct Candidate {
    pub content_hash: String,
    pub mime_type: String,
    pub size_bytes: usize,
}

pub struct CandidateView {
    pub content_hash: Seq<char>,
    pub mime_type: Seq<char>,
    pub size_bytes: usize,
}

impl View for Candidate {
    type V = CandidateView;

    open spec fn view(&self) -> CandidateView {
        CandidateView {
            content_hash: self.content_hash@,
            mime_type: self.mime_type@,
            size_bytes: self.size_bytes,
        }
    }
}

/// How far an acquisition has come.
#[derive(Clone, Debug, PartialEq, Eq)]
pub enum AcquireState {
    /// Nothing has been done.
    Start,
    /// The document is being fetched.
    Fetching,
    /// The registry is being asked for the digest.
    LookingUp(Candidate),
    /// The bytes are being written to the blob area.
    Storing { candidate: Candidate, artifact_id: Id, captured_at: i64 },
    /// The artifact is being registered.
    Registering { artifact_id: Id },
    /// The acquisition ended with this artifact.
    Done { artifact_id: Id },
    /// The acquisition failed.
    Failed(AcquireError),
}

pub enum AcquireStateView {
    Start,
    Fetching,
    LookingUp(CandidateView),
    Storing { candidate: CandidateView, artifact_id: Id, captured_at: i64 },
    Registering { artifact_id: Id },
    Done { artifact_id: Id },
    Failed(AcquireError),
}

impl View for AcquireState {
    type V = AcquireStateView;

    open spec fn view(&self) -> AcquireStateView {
        match self {
            AcquireState::Start => AcquireStateView::Start,
            AcquireState::Fetching => AcquireStateView::Fetching,
            AcquireState::LookingUp(c) => AcquireStateView::LookingUp(c@),
            AcquireState::Storing { candidate, artifact_id, captured_at } => AcquireStateView::Storing {
                candidate: candidate@,
                artifact_id: *artifact_id,
                captured_at: *captured_at,
            },
            AcquireState::Registering { artifact_id } => AcquireStateView::Registering {
                artifact_id: *artifact_id,
            },
            AcquireState::Done { artifact_id } => AcquireStateView::Done {
                artifact_id: *artifact_id,
            },
            AcquireState::Failed(e) => AcquireStateView::Failed(*e),
        }
    }
}

/// What came of the action that was asked last.
#[derive(Clone, Debug, PartialEq, Eq)]
pub enum AcquireEvent {
    /// The acquisition is to begin.
    Begin,
    /// The server answered.
    Response { success: bool, content_type: Option<String>, body: Vec<u8> },
    /// The fetch failed.
    NetworkFailed,
    /// The registry answered: the artifact with the digest, if any.
    Existing(Option<Id>),
    /// The blob was written at this location.
    BlobStored { location: String },
    /// The artifact was registered.
    Registered,
    /// The blob area or the registry failed.
    StorageFailed,
}

pub enum AcquireEventView {
    Begin,
    Response { success: bool, content_type: Option<Seq<char>>, body: Seq<u8> },
    NetworkFailed,
    Existing(Option<Id>),
    BlobStored { location: Seq<char> },
    Registered,
    StorageFailed,
}

impl View for AcquireEvent {
    type V = AcquireEventView;

    open spec fn view(&self) -> AcquireEventView {
        match self {
            AcquireEvent::Begin => AcquireEventView::Begin,
            AcquireEvent::Response { success, content_type, body } => AcquireEventView::Response {
                success: *success,
                content_type: content_type.deep_view(),
                body: body@,
            },
            AcquireEvent::NetworkFailed => AcquireEventView::NetworkFailed,
            AcquireEvent::Existing(id) => AcquireEventView::Existing(*id),
            AcquireEvent::BlobStored { location } => AcquireEventView::BlobStored {
                location: location@,
            },
            AcquireEvent::Registered => AcquireEventView::Registered,
            AcquireEvent::StorageFailed => AcquireEventView::StorageFailed,
        }
    }
}

/// What the caller is to do next.
#[derive(Clone, Debug, PartialEq, Eq)]
pub enum AcquireAction {
    /// Wait, then fetch the address.
    Fetch { wait_ms: u64, url: String },
    /// Ask the registry for the artifact with the digest.
    LookUpDigest { content_hash: String },
    /// Write the bytes to the blob area under the name.
    StoreBlob { artifact_id: Id, file_name: String },
    /// Register the artifact.
    Register(ArtifactMeta),
    /// Hand out the artifact: the acquisition is complete.
    Finish { artifact_id: Id },
    /// Give up.
    Abort(AcquireError),
}

pub enum AcquireActionView {
    Fetch { wait_ms: u64, url: Seq<char> },
    LookUpDigest { content_hash: Seq<char> },
    StoreBlob { artifact_id: Id, file_name: Seq<char> },
    Register(ArtifactMetaView),
    Finish { artifact_id: Id },
    Abort(AcquireError),
}

impl View for AcquireAction {
    type V = AcquireActionView;

    open spec fn view(&self) -> AcquireActionView {
        match self {
            AcquireAction::Fetch { wait_ms, url } => AcquireActionView::Fetch {
                wait_ms: *wait_ms,
                url: url@,
            },
            AcquireAction::LookUpDigest { content_hash } => AcquireActionView::LookUpDigest {
                content_hash: content_hash@,
            },
            AcquireAction::StoreBlob { artifact_id, file_name } => AcquireActionView::StoreBlob {
                artifact_id: *artifact_id,
                file_name: file_name@,
            },
            AcquireAction::Register(meta) => AcquireActionView::Register(meta@),
            AcquireAction::Finish { artifact_id } => AcquireActionView::Finish {
                artifact_id: *artifact_id,
            },
            AcquireAction::Abort(e) => AcquireActionView::Abort(*e),
        }
    }
}

/// The failure of an acquisition with `e`.
pub open spec fn failed_with(e: AcquireError) -> (AcquireStateView, AcquireActionView) {
    (AcquireStateView::Failed(e), AcquireActionView::Abort(e))
}

/// The storing of a candidate under a new identifier.
pub open spec fn storing(candidate: CandidateView, fresh: Id, now: i64) -> (
    AcquireStateView,
    AcquireActionView,
) {
    (
        AcquireStateView::Storing { candidate, artifact_id: fresh, captured_at: now },
        AcquireActionView::StoreBlob { artifact_id: fresh, file_name: blob_name_of(fresh) },
    )
}

/// The record of an artifact whose blob was written at `location`.
pub open spec fn meta_of(
    request: AcquireRequestView,
    candidate: CandidateView,
    artifact_id: Id,
    captured_at: i64,
    location: Seq<char>,
) -> ArtifactMetaView {
    ArtifactMetaView {
        artifact_id,
        source_id: request.source_id,
        url: request.url,
        captured_at,
        content_hash: candidate.content_hash,
        mime_type: candidate.mime_type,
        size_bytes: candidate.size_bytes,
        storage_kind: "fs"@,
        storage_path: location,
        parse_status: ParseStatus::Pending,
    }
}

/// The next state and the action that follow an event. `fresh` is the
/// identifier and `now` the capture time that a new artifact gets.
///
/// A response that is no success, and a failed fetch, end the acquisition
/// before anything is written. A document whose digest the registry knows
/// is not written again, unless the request forces it: the acquisition
/// ends with the known artifact. Otherwise the bytes are written first and
/// the artifact is registered after, as pending; a dry run stops short of
/// the registry.
pub open spec fn step_of(
    request: AcquireRequestView,
    state: AcquireStateView,
    event: AcquireEventView,
    fresh: Id,
    now: i64,
) -> (AcquireStateView, AcquireActionView) {
    match (state, event) {
        (AcquireStateView::Start, AcquireEventView::Begin) => (
            AcquireStateView::Fetching,
            AcquireActionView::Fetch { wait_ms: request.rate_limit_ms, url: request.url },
        ),
        (AcquireStateView::Fetching, AcquireEventView::Response { success, content_type, body }) => {
            let candidate = CandidateView {
                content_hash: content_hash_of(body),
                mime_type: mime_type_of(content_type),
                size_bytes: body.len() as usize,
            };
            if !success {
                failed_with(AcquireError::Network)
            } else if request.force {
                storing(candidate, fresh, now)
            } else {
                (
                    AcquireStateView::LookingUp(candidate),
                    AcquireActionView::LookUpDigest { content_hash: candidate.content_hash },
                )
            }
        },
        (AcquireStateView::Fetching, AcquireEventView::NetworkFailed) => failed_with(
            AcquireError::Network,
        ),
        (AcquireStateView::LookingUp(candidate), AcquireEventView::Existing(found)) => match found {
            Some(artifact_id) => (
                AcquireStateView::Done { artifact_id },
                AcquireActionView::Finish { artifact_id },
            ),
            None => storing(candidate, fresh, now),
        },
        (
            AcquireStateView::Storing { candidate, artifact_id, captured_at },
            AcquireEventView::BlobStored { location },
        ) => if request.dry_run {
            (AcquireStateView::Done { artifact_id }, AcquireActionView::Finish { artifact_id })
        } else {
            (
                AcquireStateView::Registering { artifact_id },
                AcquireActionView::Register(
                    meta_of(request, candidate, artifact_id, captured_at, location),
                ),
            )
        },
        (AcquireStateView::Registering { artifact_id }, AcquireEventView::Registered) => (
            AcquireStateView::Done { artifact_id },
            AcquireActionView::Finish { artifact_id },
        ),
        (AcquireStateView::LookingUp(_), AcquireEventView::StorageFailed) => failed_with(
            AcquireError::Storage,
        ),
        (AcquireStateView::Storing { .. }, AcquireEventView::StorageFailed) => failed_with(
            AcquireError::Storage,
        ),
        (AcquireStateView::Registering { .. }, AcquireEventView::StorageFailed) => failed_with(
            AcquireError::Storage,
        ),
        _ => failed_with(AcquireError::Unexpected),
    }
}

/// Whether the step from `state` on `event` gives an artifact a new
/// identifier.
pub open spec fn needs_fresh_id(
    request: AcquireRequestView,
    state: AcquireStateView,
    event: AcquireEventView,
) -> bool {
    match (state, event) {
        (AcquireStateView::Fetching, AcquireEventView::Response { success, .. }) => success
            && request.force,
        (AcquireStateView::LookingUp(_), AcquireEventView::Existing(found)) => found is None,
        _ => false,
    }
}

fn fail(e: AcquireError) -> (r: (AcquireState, AcquireAction))
    ensures
        (r.0@, r.1@) == failed_with(e),
{
    (AcquireState::Failed(e), AcquireAction::Abort(e))
}

fn store(candidate: Candidate, fresh: Id, now: i64) -> (r: (AcquireState, AcquireAction))
    ensures
        (r.0@, r.1@) == storing(candidate@, fresh, now),
{
    (
        AcquireState::Storing { candidate, artifact_id: fresh, captured_at: now },
        AcquireAction::StoreBlob { artifact_id: fresh, file_name: blob_name(fresh) },
    )
}

/// Takes one step of an acquisition, with the identifier and the capture
/// time that a new artifact is to get.
pub fn step(request: &AcquireRequest, state: AcquireState, event: AcquireEvent, fresh: Id, now: i64) -> (r:
    (AcquireState, AcquireAction))
    ensures
        (r.0@, r.1@) == step_of(request@, state@, event@, fresh, now),
{
    match (state, event) {
        (AcquireState::Start, AcquireEvent::Begin) => (
            AcquireState::Fetching,
            AcquireAction::Fetch { wait_ms: request.rate_limit_ms, url: request.url.clone() },
        ),
        (AcquireState::Fetching, AcquireEvent::Response { success, content_type, body }) => {
            if !success {
                fail(AcquireError::Network)
            } else {
                let candidate = Candidate {
                    content_hash: content_hash(body.as_slice()),
                    mime_type: match content_type {
                        Some(t) => t,
                        None => "application/octet-stream".to_owned(),
                    },
                    size_bytes: body.len(),
                };
                if request.force {
                    store(candidate, fresh, now)
                } else {
                    let content_hash = candidate.content_hash.clone();
                    (AcquireState::LookingUp(candidate), AcquireAction::LookUpDigest { content_hash })
                }
            }
        },
        (AcquireState::Fetching, AcquireEvent::NetworkFailed) => fail(AcquireError::Network),
        (AcquireState::LookingUp(candidate), AcquireEvent::Existing(found)) => match found {
            Some(artifact_id) => (
                AcquireState::Done { artifact_id },
                AcquireAction::Finish { artifact_id },
            ),
            None => store(candidate, fresh, now),
        },
        (
            AcquireState::Storing { candidate, artifact_id, captured_at },
            AcquireEvent::BlobStored { location },
        ) => {
            if request.dry_run {
                (AcquireState::Done { artifact_id }, AcquireAction::Finish { artifact_id })
            } else {
                let meta = ArtifactMeta {
                    artifact_id,
                    source_id: request.source_id.clone(),
                    url: request.url.clone(),
                    captured_at,
                    content_hash: candidate.content_hash,
                    mime_type: candidate.mime_type,
                    size_bytes: candidate.size_bytes,
                    storage_kind: "fs".to_owned(),
                    storage_path: location,
                    parse_status: ParseStatus::Pending,
                };
                (AcquireState::Registering { artifact_id }, AcquireAction::Register(meta))
            }
        },
        (AcquireState::Registering { artifact_id }, AcquireEvent::Registered) => (
            AcquireState::Done { artifact_id },
            AcquireAction::Finish { artifact_id },
        ),
        (AcquireState::LookingUp(_), AcquireEvent::StorageFailed) => fail(AcquireError::Storage),
        (AcquireState::Storing { .. }, AcquireEvent::StorageFailed) => fail(AcquireError::Storage),
        (AcquireState::Registering { .. }, AcquireEvent::StorageFailed) => fail(
            AcquireError::Storage,
        ),
        _ => fail(AcquireError::Unexpected),
    }
}

/// Takes one step of an acquisition. Where the step gives an artifact a
/// new identifier, that identifier is drawn at random and the capture time
/// is read from the clock.
pub fn advance(request: &AcquireRequest, state: AcquireState, event: AcquireEvent) -> (r: (
    AcquireState,
    AcquireAction,
))
    ensures
        exists|fresh: Id, now: i64| (r.0@, r.1@) == #[trigger] step_of(request@, state@, event@, fresh, now),
        !needs_fresh_id(request@, state@, event@) ==> forall|fresh: Id, now: i64|
            (r.0@, r.1@) == #[trigger] step_of(request@, state@, event@, fresh, now),
{
    let needs = match (&state, &event) {
        (AcquireState::Fetching, AcquireEvent::Response { success, .. }) => *success
            && request.force,
        (AcquireState::LookingUp(_), AcquireEvent::Existing(found)) => found.is_none(),
        _ => false,
    };
    if needs {
        let fresh = fresh_id();
        let now = now_micros();
        step(request, state, event, fresh, now)
    } else {
        step(request, state, event, 0, 0)
    }
}

/// What the registry answers when it is asked for a digest. A registry
/// is taken as the map from content digest to artifact.
pub open spec fn lookup(registry: Map<Seq<char>, Id>, content_hash: Seq<char>) -> Option<Id> {
    if registry.contains_key(content_hash) {
        Some(registry[content_hash])
    } else {
        None
    }
}

/// A document as a server hands it out.
pub struct Document {
    pub content_type: Option<Seq<char>>,
    pub body: Seq<u8>,
}

/// What comes of `action` where the fetch succeeds with `document` and
/// the blob area writes at `location`: the registry afterwards, and the
/// event that is handed back, if the acquisition goes on. The registry
/// holds one artifact for a digest, and refuses a second.
pub open spec fn performed(
    registry: Map<Seq<char>, Id>,
    action: AcquireActionView,
    document: Document,
    location: Seq<char>,
) -> (Map<Seq<char>, Id>, Option<AcquireEventView>) {
    match action {
        AcquireActionView::Fetch { .. } => (
            registry,
            Some(
                AcquireEventView::Response {
                    success: true,
                    content_type: document.content_type,
                    body: document.body,
                },
            ),
        ),
        AcquireActionView::LookUpDigest { content_hash } => (
            registry,
            Some(AcquireEventView::Existing(lookup(registry, content_hash))),
        ),
        AcquireActionView::StoreBlob { .. } => (
            registry,
            Some(AcquireEventView::BlobStored { location }),
        ),
        AcquireActionView::Register(meta) => if registry.contains_key(meta.content_hash) {
            (registry, Some(AcquireEventView::StorageFailed))
        } else {
            (
                registry.insert(meta.content_hash, meta.artifact_id),
                Some(AcquireEventView::Registered),
            )
        },
        AcquireActionView::Finish { .. } => (registry, None),
        AcquireActionView::Abort(_) => (registry, None),
    }
}

/// The registry and the state after at most `steps` steps of an
/// acquisition that goes on from `state` with `event`.
pub open spec fn run_from(
    registry: Map<Seq<char>, Id>,
    request: AcquireRequestView,
    state: AcquireStateView,
    event: AcquireEventView,
    document: Document,
    location: Seq<char>,
    fresh: Id,
    now: i64,
    steps: nat,
) -> (Map<Seq<char>, Id>, AcquireStateView)
    decreases steps,
{
    if steps == 0 {
        (registry, state)
    } else {
        let (next, action) = step_of(request, state, event, fresh, now);
        let (after, answer) = performed(registry, action, document, location);
        match answer {
            Some(e) => run_from(
                after,
                request,
                next,
                e,
                document,
                location,
                fresh,
                now,
                (steps - 1) as nat,
            ),
            None => (after, next),
        }
    }
}

/// The registry and the final state of a whole acquisition of `document`.
pub open spec fn acquisition_of(
    registry: Map<Seq<char>, Id>,
    request: AcquireRequestView,
    document: Document,
    location: Seq<char>,
    fresh: Id,
    now: i64,
) -> (Map<Seq<char>, Id>, AcquireStateView) {
    run_from(
        registry,
        request,
        AcquireStateView::Start,
        AcquireEventView::Begin,
        document,
        location,
        fresh,
        now,
        5,
    )
}

/// An acquisition that is neither forced nor a dry run ends with an
/// artifact, which the registry holds afterwards under the digest of the
/// document.
pub proof fn lemma_acquisition_registers(
    registry: Map<Seq<char>, Id>,
    request: AcquireRequestView,
    document: Document,
    location: Seq<char>,
    fresh: Id,
    now: i64,
)
    requires
        !request.force,
        !request.dry_run,
    ensures
        ({
            let (after, end) = acquisition_of(registry, request, document, location, fresh, now);
            &&& end is Done
            &&& lookup(after, content_hash_of(document.body)) == Some(end->Done_artifact_id)
            &&& registry.contains_key(content_hash_of(document.body)) ==> after == registry
        }),
{
    reveal_with_fuel(run_from, 6);
}

/// Acquiring the same bytes twice without force gives the same artifact
/// both times, and the second acquisition leaves the registry as the first
/// left it. The first acquisition is no dry run; the second may come from
/// another source and address.
pub proof fn lemma_acquisition_idempotent(
    registry: Map<Seq<char>, Id>,
    first: AcquireRequestView,
    second: AcquireRequestView,
    document: Document,
    again: Document,
    location: Seq<char>,
    location_again: Seq<char>,
    fresh: Id,
    fresh_again: Id,
    now: i64,
    later: i64,
)
    requires
        !first.force,
        !first.dry_run,
        !second.force,
        again.body == document.body,
    ensures
        ({
            let (after, end) = acquisition_of(registry, first, document, location, fresh, now);
            let (after_again, end_again) = acquisition_of(
                after,
                second,
                again,
                location_again,
                fresh_again,
                later,
            );
            &&& end is Done
            &&& end_again == end
            &&& after_again == after
        }),
{
    reveal_with_fuel(run_from, 6);
    lemma_acquisition_registers(registry, first, document, location, fresh, now);
}

/// A dry run leaves the registry as it is.
pub proof fn lemma_dry_run_keeps_registry(
    registry: Map<Seq<char>, Id>,
    request: AcquireRequestView,
    document: Document,
    location: Seq<char>,
    fresh: Id,
    now: i64,
)
    requires
        request.dry_run,
    ensures
        acquisition_of(registry, request, document, location, fresh, now).0 == registry,
{
    reveal_with_fuel(run_from, 6);
}

/// Nothing is registered before its bytes are written: the registry is
/// asked to register an artifact only when a blob has just been stored,
/// and the row names the place of that blob. A fetch that fails asks for
/// no write at all, and ends the acquisition.
pub proof fn lemma_blob_before_row(
    request: AcquireRequestView,
    state: AcquireStateView,
    event: AcquireEventView,
    fresh: Id,
    now: i64,
)
    ensures
        ({
            let (next, action) = step_of(request, state, event, fresh, now);
            &&& action matches AcquireActionView::Register(meta) ==> {
                &&& state is Storing
                &&& event matches AcquireEventView::BlobStored { location }
                &&& meta.storage_path == location
                &&& meta.artifact_id == state->Storing_artifact_id
                &&& meta.parse_status == ParseStatus::Pending
                &&& !request.dry_run
            }
            &&& (event is NetworkFailed || (event matches AcquireEventView::Response { success, .. }
                && !success)) ==> action is Abort && next is Failed
            &&& state is Failed ==> action is Abort && next is Failed
        }),
{
}

} // verus!
