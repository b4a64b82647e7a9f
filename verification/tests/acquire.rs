use estado_transparente::acquire::{
    advance, blob_name, content_hash, digest_string, step, AcquireAction, AcquireError,
    AcquireEvent, AcquireRequest, AcquireState, ArtifactMeta, Candidate, ParseStatus,
};
use estado_transparente::ident::{hex_digits, id_text};

fn request(force: bool, dry_run: bool) -> AcquireRequest {
    AcquireRequest {
        source_id: "dipres-2024".to_string(),
        url: "https://example.org/a.csv".to_string(),
        force,
        dry_run,
        rate_limit_ms: 250,
    }
}

fn response(body: &[u8]) -> AcquireEvent {
    AcquireEvent::Response {
        success: true,
        content_type: Some("text/csv".to_string()),
        body: body.to_vec(),
    }
}

const ABC: &str = "sha256:ba7816bf8f01cfea414140de5dae2223b00361a396177a9cb410ff61f20015ad";

#[test]
fn content_hash_of_known_bytes() {
    assert_eq!(
        content_hash(b""),
        "sha256:e3b0c44298fc1c149afbf4c8996fb92427ae41e4649b934ca495991b7852b855"
    );
    assert_eq!(content_hash(b"abc"), ABC);
    assert_ne!(content_hash(b"abd"), ABC);
    assert_eq!(content_hash(b"abc"), content_hash(b"abc"));
}

#[test]
fn digests_are_written_in_lower_case_hexadecimal() {
    assert_eq!(digest_string(&[]), "sha256:");
    assert_eq!(digest_string(&[0x00, 0x0f, 0xa0, 0xff, 0x5b]), "sha256:000fa0ff5b");
}

#[test]
fn identifiers_are_written_as_the_identifier_type_writes_them() {
    for id in [0u128, 1, u128::MAX, 0x0123456789abcdef_fedcba9876543210, 0xdeadbeef << 64] {
        assert_eq!(id_text(id), uuid::Uuid::from_u128(id).to_string());
        assert_eq!(blob_name(id), format!("{}.raw", uuid::Uuid::from_u128(id)));
    }
    assert_eq!(hex_digits(0xabc, 5), vec!['0', '0', 'a', 'b', 'c']);
    assert_eq!(hex_digits(0xabc, 2), vec!['b', 'c']);
    assert!(hex_digits(5, 0).is_empty());
}

#[test]
fn a_new_document_is_stored_then_registered() {
    let req = request(false, false);
    let (state, action) = step(&req, AcquireState::Start, AcquireEvent::Begin, 1, 10);
    assert_eq!(state, AcquireState::Fetching);
    assert_eq!(action, AcquireAction::Fetch { wait_ms: 250, url: req.url.clone() });

    let (state, action) = step(&req, state, response(b"abc"), 2, 20);
    let candidate = Candidate {
        content_hash: ABC.to_string(),
        mime_type: "text/csv".to_string(),
        size_bytes: 3,
    };
    assert_eq!(state, AcquireState::LookingUp(candidate.clone()));
    assert_eq!(action, AcquireAction::LookUpDigest { content_hash: ABC.to_string() });

    let (state, action) = step(&req, state, AcquireEvent::Existing(None), 7, 30);
    assert_eq!(
        state,
        AcquireState::Storing { candidate, artifact_id: 7, captured_at: 30 }
    );
    assert_eq!(
        action,
        AcquireAction::StoreBlob {
            artifact_id: 7,
            file_name: "00000000-0000-0000-0000-000000000007.raw".to_string()
        }
    );

    let stored = AcquireEvent::BlobStored { location: "/data/raw/x.raw".to_string() };
    let (state, action) = step(&req, state, stored, 8, 40);
    assert_eq!(state, AcquireState::Registering { artifact_id: 7 });
    assert_eq!(
        action,
        AcquireAction::Register(ArtifactMeta {
            artifact_id: 7,
            source_id: "dipres-2024".to_string(),
            url: "https://example.org/a.csv".to_string(),
            captured_at: 30,
            content_hash: ABC.to_string(),
            mime_type: "text/csv".to_string(),
            size_bytes: 3,
            storage_kind: "fs".to_string(),
            storage_path: "/data/raw/x.raw".to_string(),
            parse_status: ParseStatus::Pending,
        })
    );

    let (state, action) = step(&req, state, AcquireEvent::Registered, 9, 50);
    assert_eq!(state, AcquireState::Done { artifact_id: 7 });
    assert_eq!(action, AcquireAction::Finish { artifact_id: 7 });
}

#[test]
fn known_bytes_resolve_to_the_existing_artifact_without_a_write() {
    let req = request(false, false);
    let (state, _) = step(&req, AcquireState::Start, AcquireEvent::Begin, 1, 1);
    let (state, _) = step(&req, state, response(b"abc"), 2, 2);
    let (state, action) = step(&req, state, AcquireEvent::Existing(Some(42)), 3, 3);
    assert_eq!(state, AcquireState::Done { artifact_id: 42 });
    assert_eq!(action, AcquireAction::Finish { artifact_id: 42 });
}

#[test]
fn a_forced_acquisition_does_not_ask_the_registry() {
    let req = request(true, false);
    let (state, _) = step(&req, AcquireState::Start, AcquireEvent::Begin, 1, 1);
    let event = AcquireEvent::Response { success: true, content_type: None, body: vec![1, 2] };
    let (state, action) = step(&req, state, event, 5, 6);
    match (&state, &action) {
        (
            AcquireState::Storing { candidate, artifact_id: 5, captured_at: 6 },
            AcquireAction::StoreBlob { artifact_id: 5, .. },
        ) => assert_eq!(candidate.mime_type, "application/octet-stream"),
        other => panic!("unexpected {:?}", other),
    }
}

#[test]
fn a_dry_run_stops_short_of_the_registry() {
    let req = request(false, true);
    let (state, _) = step(&req, AcquireState::Start, AcquireEvent::Begin, 1, 1);
    let (state, _) = step(&req, state, response(b"x"), 2, 2);
    let (state, _) = step(&req, state, AcquireEvent::Existing(None), 3, 3);
    let stored = AcquireEvent::BlobStored { location: "p".to_string() };
    let (state, action) = step(&req, state, stored, 4, 4);
    assert_eq!(state, AcquireState::Done { artifact_id: 3 });
    assert_eq!(action, AcquireAction::Finish { artifact_id: 3 });
}

#[test]
fn failures_end_the_acquisition() {
    let req = request(false, false);
    let fetching = || step(&req, AcquireState::Start, AcquireEvent::Begin, 1, 1).0;
    let refused = AcquireEvent::Response { success: false, content_type: None, body: vec![] };
    let (state, action) = step(&req, fetching(), refused, 1, 1);
    assert_eq!(state, AcquireState::Failed(AcquireError::Network));
    assert_eq!(action, AcquireAction::Abort(AcquireError::Network));
    let (_, action) = step(&req, fetching(), AcquireEvent::NetworkFailed, 1, 1);
    assert_eq!(action, AcquireAction::Abort(AcquireError::Network));
    let (looking, _) = step(&req, fetching(), response(b"x"), 1, 1);
    let (_, action) = step(&req, looking.clone(), AcquireEvent::StorageFailed, 1, 1);
    assert_eq!(action, AcquireAction::Abort(AcquireError::Storage));
    let (storing, _) = step(&req, looking, AcquireEvent::Existing(None), 1, 1);
    let (_, action) = step(&req, storing.clone(), AcquireEvent::StorageFailed, 1, 1);
    assert_eq!(action, AcquireAction::Abort(AcquireError::Storage));
    let stored = AcquireEvent::BlobStored { location: "p".to_string() };
    let (registering, _) = step(&req, storing, stored, 1, 1);
    let (_, action) = step(&req, registering, AcquireEvent::StorageFailed, 1, 1);
    assert_eq!(action, AcquireAction::Abort(AcquireError::Storage));
    let (_, action) = step(&req, AcquireState::Start, AcquireEvent::Registered, 1, 1);
    assert_eq!(action, AcquireAction::Abort(AcquireError::Unexpected));
    let (_, action) = step(&req, AcquireState::Done { artifact_id: 1 }, AcquireEvent::Begin, 1, 1);
    assert_eq!(action, AcquireAction::Abort(AcquireError::Unexpected));
}

#[test]
fn advance_draws_an_identifier_of_its_own() {
    let req = request(false, false);
    let (state, action) = advance(&req, AcquireState::Start, AcquireEvent::Begin);
    assert_eq!(action, AcquireAction::Fetch { wait_ms: 250, url: req.url.clone() });
    let (state, _) = advance(&req, state, response(b"abc"));
    let (state, action) = advance(&req, state, AcquireEvent::Existing(None));
    match (state, action) {
        (
            AcquireState::Storing { artifact_id, .. },
            AcquireAction::StoreBlob { artifact_id: stored, file_name },
        ) => {
            assert_eq!(artifact_id, stored);
            assert_eq!(file_name, format!("{}.raw", uuid::Uuid::from_u128(artifact_id)));
            assert_eq!(uuid::Uuid::from_u128(artifact_id).get_version_num(), 4);
        }
        other => panic!("unexpected {:?}", other),
    }
    let (state, _) = advance(&req, AcquireState::Start, AcquireEvent::Begin);
    let (state, _) = advance(&req, state, response(b"abc"));
    let (_, action) = advance(&req, state, AcquireEvent::Existing(Some(9)));
    assert_eq!(action, AcquireAction::Finish { artifact_id: 9 });
    assert_eq!(ParseStatus::Pending.name(), "pending");
    assert_eq!(ParseStatus::Parsed.name(), "ok");
    assert_eq!(ParseStatus::Failed.name(), "failed");
}

#[test]
fn the_same_bytes_twice_give_the_same_artifact() {
    // a registry of one digest, kept by the test
    let mut registry: Vec<(String, u128)> = Vec::new();
    let mut acquire = |fresh: u128| -> u128 {
        let req = request(false, false);
        let (mut state, mut action) = step(&req, AcquireState::Start, AcquireEvent::Begin, fresh, 0);
        loop {
            let event = match &action {
                AcquireAction::Fetch { .. } => response(b"the same bytes"),
                AcquireAction::LookUpDigest { content_hash } => AcquireEvent::Existing(
                    registry.iter().find(|(h, _)| h == content_hash).map(|(_, id)| *id),
                ),
                AcquireAction::StoreBlob { .. } => AcquireEvent::BlobStored { location: "p".to_string() },
                AcquireAction::Register(meta) => {
                    registry.push((meta.content_hash.clone(), meta.artifact_id));
                    AcquireEvent::Registered
                }
                AcquireAction::Finish { artifact_id } => return *artifact_id,
                AcquireAction::Abort(e) => panic!("aborted: {:?}", e),
            };
            (state, action) = step(&req, state, event, fresh, 0);
        }
    };
    let first = acquire(100);
    let second = acquire(200);
    assert_eq!(first, 100);
    assert_eq!(second, 100);
    assert_eq!(registry.len(), 1);
}
