use estado_transparente::acquire::ParseStatus;
use estado_transparente::detect::{Format, NamedDialect};
use estado_transparente::identity::Identity;
use estado_transparente::ingest::{
    parse_artifact, parse_status_named, run_advance, run_step, should_parse, ArtifactContent,
    IngestError, Phase, RunAction, RunEvent, RunRequest, RunState, METHOD,
};
use estado_transparente::report::ParseError;
use estado_transparente::sources::JobStatus;
use estado_transparente::workbook::{Cell, Workbook};

const FOUR_ROWS: &str =
    "entidad,categoria,anio,monto\nMinisterio A,Personal,2024,100\nMinisterio A,Operaciones,2024,200\nMinisterio B,Personal,2024,300\nMinisterio C,Personal,2024,400\n";

fn run_request(dry_run: bool) -> RunRequest {
    RunRequest {
        artifact_id: 0xA,
        source_id: "demo-presupuesto".to_string(),
        mime_type: "text/csv".to_string(),
        storage_path: "/data/raw/a.raw".to_string(),
        parse_status: ParseStatus::Pending,
        dry_run,
        verify: false,
    }
}

fn content(text: &str) -> RunEvent {
    RunEvent::Content(ArtifactContent::Text(text.to_string()))
}

#[test]
fn an_artifact_is_due_unless_it_was_parsed() {
    assert!(should_parse(ParseStatus::Pending, false));
    assert!(should_parse(ParseStatus::Failed, false));
    assert!(!should_parse(ParseStatus::Parsed, false));
    assert!(should_parse(ParseStatus::Parsed, true));
    assert_eq!(parse_status_named("ok"), Some(ParseStatus::Parsed));
    assert_eq!(parse_status_named("pending"), Some(ParseStatus::Pending));
    assert_eq!(parse_status_named("failed"), Some(ParseStatus::Failed));
    assert_eq!(parse_status_named("OK"), None);
}

#[test]
fn an_artifact_is_parsed_by_its_format() {
    let text = ArtifactContent::Text(FOUR_ROWS.to_string());
    let out = parse_artifact(Format::GenericCsv, "demo", &text).unwrap();
    assert_eq!(out.facts.len(), 4);
    let err = parse_artifact(Format::NamedDialect(NamedDialect::DipresLey), "x-2026", &text).unwrap_err();
    assert_eq!(
        err,
        IngestError::Parse(ParseError::ColumnCountMismatch {
            expected: 9,
            headers: vec!["entidad,categoria,anio,monto".to_string()]
        })
    );
    assert_eq!(
        err.message(),
        "AMBIGUITY: Expected 9 columns, found 1. Headers: 'entidad,categoria,anio,monto'"
    );
    assert_eq!(parse_artifact(Format::Spreadsheet, "x", &text).unwrap_err(), IngestError::ContentMismatch);
    let sheets = ArtifactContent::Sheets(Workbook {
        sheet_names: vec!["S".to_string()],
        first_sheet: vec![
            vec![Cell::Text("Partida".to_string()), Cell::Text("Monto".to_string())],
            vec![Cell::Text("A".to_string()), Cell::Int(9)],
        ],
    });
    assert_eq!(parse_artifact(Format::Spreadsheet, "x-2024", &sheets).unwrap().facts.len(), 1);
    assert_eq!(parse_artifact(Format::GenericCsv, "x", &sheets).unwrap_err(), IngestError::ContentMismatch);
    let empty = ArtifactContent::Text("entidad,anio,monto\n".to_string());
    let err = parse_artifact(Format::GenericCsv, "x", &empty).unwrap_err();
    assert_eq!(err, IngestError::NoFactsParsed);
    assert_eq!(err.message(), "No facts parsed from artifact");
}

#[test]
fn a_dry_run_reports_four_facts_and_asks_for_no_write() {
    let req = run_request(true);
    let (state, action) = run_step(&req, RunState::new(), RunEvent::Begin, 1);
    assert_eq!(
        action,
        RunAction::Read { storage_path: "/data/raw/a.raw".to_string(), as_workbook: false }
    );
    assert_eq!(state.phase, Phase::Reading);
    let (state, action) = run_step(&req, state, content(FOUR_ROWS), 2);
    assert_eq!(action, RunAction::Report { facts_created: 4 });
    assert_eq!(state.phase, Phase::Done);
    assert_eq!(state.facts.len(), 4);
    assert_eq!(state.written, 0);
    let (_, action) = run_step(&req, state, RunEvent::Written, 3);
    assert!(matches!(action, RunAction::Abort { error: IngestError::Unexpected, .. }));
}

#[test]
fn a_dry_run_counts_the_rows_that_were_not_passed_over() {
    let req = run_request(true);
    let (state, _) = run_step(&req, RunState::new(), RunEvent::Begin, 1);
    let text = "entidad,anio,monto\nA,2024,1\nB,x,2\nC,2024,3\n";
    let (state, action) = run_step(&req, state, content(text), 2);
    assert_eq!(action, RunAction::Report { facts_created: 2 });
    assert_eq!(state.warnings.len(), 1);
}

#[test]
fn a_dry_run_that_fails_ends_without_a_write() {
    let req = run_request(true);
    let (state, _) = run_step(&req, RunState::new(), RunEvent::Begin, 1);
    let (state, action) = run_step(&req, state, content("entidad,anio,monto\n"), 2);
    assert_eq!(
        action,
        RunAction::Abort {
            error: IngestError::NoFactsParsed,
            message: "No facts parsed from artifact".to_string()
        }
    );
    assert_eq!(state.phase, Phase::Failed);
    let (state, _) = run_step(&req, RunState::new(), RunEvent::Begin, 1);
    let (_, action) = run_step(&req, state, RunEvent::ReadFailed { message: "gone".to_string() }, 2);
    assert_eq!(action, RunAction::Abort { error: IngestError::ReadFailed, message: "gone".to_string() });
}

#[test]
fn an_artifact_that_was_parsed_is_skipped() {
    let mut req = run_request(false);
    req.parse_status = ParseStatus::Parsed;
    let (state, action) = run_step(&req, RunState::new(), RunEvent::Begin, 1);
    assert_eq!(action, RunAction::Skip);
    assert_eq!(state.phase, Phase::Done);
    req.verify = true;
    let (_, action) = run_step(&req, RunState::new(), RunEvent::Begin, 1);
    assert!(matches!(action, RunAction::OpenJobRun { .. }));
}

#[test]
fn a_run_writes_the_facts_in_order_and_then_marks_the_artifact() {
    let req = run_request(false);
    let mut fresh: u128 = 100;
    let mut log: Vec<String> = Vec::new();
    let mut entities: Vec<(String, u128)> = vec![("ministerio_b".to_string(), 7)];
    let mut metrics: Vec<(String, u128)> = Vec::new();
    let (mut state, mut action) = run_step(&req, RunState::new(), RunEvent::Begin, fresh);
    let reported = loop {
        fresh += 1;
        let event = match &action {
            RunAction::OpenJobRun { job_run_id, source_id, artifact_id } => {
                log.push(format!("job {} {} {}", job_run_id, source_id, artifact_id));
                RunEvent::Written
            }
            RunAction::Read { .. } => content(FOUR_ROWS),
            RunAction::OpenSnapshot { snapshot_id, note } => {
                log.push(format!("snapshot {} {}", snapshot_id, note));
                RunEvent::Written
            }
            RunAction::LookUpEntity { key } => {
                RunEvent::Found(entities.iter().find(|e| &e.0 == key).map(|e| e.1))
            }
            RunAction::InsertEntity { id, identity } => {
                entities.push((identity.key.clone(), *id));
                log.push(format!("entity {} {} {}", id, identity.key, identity.display_name));
                RunEvent::Written
            }
            RunAction::LookUpMetric { key } => {
                RunEvent::Found(metrics.iter().find(|e| &e.0 == key).map(|e| e.1))
            }
            RunAction::InsertMetric { id, identity } => {
                metrics.push((identity.key.clone(), *id));
                log.push(format!("metric {} {} {}", id, identity.key, identity.attribute));
                RunEvent::Written
            }
            RunAction::WriteFact { fact_id, snapshot_id, entity_id, metric_id, artifact_id, index } => {
                let fact = state.fact(*index).unwrap();
                log.push(format!(
                    "fact {} s{} e{} m{} a{} {} {}",
                    fact_id, snapshot_id, entity_id, metric_id, artifact_id, fact.location, METHOD
                ));
                RunEvent::Written
            }
            RunAction::MarkArtifact { artifact_id, status, error } => {
                log.push(format!("mark {} {} {:?}", artifact_id, status.name(), error));
                RunEvent::Written
            }
            RunAction::CloseJobRun { job_run_id, status, error, facts_created } => {
                log.push(format!("close {} {} {:?} {}", job_run_id, status.name(), error, facts_created));
                RunEvent::Written
            }
            RunAction::Report { facts_created } => break *facts_created,
            other => panic!("unexpected {:?}", other),
        };
        (state, action) = run_step(&req, state, event, fresh);
    };
    assert_eq!(reported, 4);
    assert_eq!(state.phase, Phase::Done);
    assert_eq!(
        log,
        vec![
            "job 100 demo-presupuesto 10",
            "snapshot 102 Parser run for artifact 00000000-0000-0000-0000-00000000000a",
            "entity 104 ministerio_a Ministerio A",
            "metric 106 presupuesto_ejecutado CLP",
            "fact 107 s102 e104 m106 a10 csv:line=2 csv_parser_v1",
            "fact 108 s102 e104 m106 a10 csv:line=3 csv_parser_v1",
            "fact 110 s102 e7 m106 a10 csv:line=4 csv_parser_v1",
            "entity 112 ministerio_c Ministerio C",
            "fact 113 s102 e112 m106 a10 csv:line=5 csv_parser_v1",
            "mark 10 ok None",
            "close 100 ok None 4",
        ]
    );
}

#[test]
fn a_failure_is_recorded_with_the_artifact_and_the_job_run() {
    let req = run_request(false);
    let (state, _) = run_step(&req, RunState::new(), RunEvent::Begin, 1);
    let (state, _) = run_step(&req, state, RunEvent::Written, 2);
    let (state, action) = run_step(&req, state, content("entidad,anio,monto\n"), 3);
    assert_eq!(
        action,
        RunAction::MarkArtifact {
            artifact_id: 0xA,
            status: ParseStatus::Failed,
            error: Some("No facts parsed from artifact".to_string())
        }
    );
    let (state, action) = run_step(&req, state, RunEvent::Written, 4);
    assert_eq!(
        action,
        RunAction::CloseJobRun {
            job_run_id: 1,
            status: JobStatus::Failed,
            error: Some("No facts parsed from artifact".to_string()),
            facts_created: 0
        }
    );
    let (state, action) = run_step(&req, state, RunEvent::Written, 5);
    assert_eq!(
        action,
        RunAction::Abort {
            error: IngestError::NoFactsParsed,
            message: "No facts parsed from artifact".to_string()
        }
    );
    assert_eq!(state.phase, Phase::Failed);
}

#[test]
fn a_store_failure_in_the_middle_of_the_writes_fails_the_artifact() {
    let req = run_request(false);
    let (state, _) = run_step(&req, RunState::new(), RunEvent::Begin, 1);
    let (state, _) = run_step(&req, state, RunEvent::Written, 2);
    let (state, _) = run_step(&req, state, content(FOUR_ROWS), 3);
    let (state, action) = run_step(&req, state, RunEvent::Written, 4);
    assert_eq!(action, RunAction::LookUpEntity { key: "ministerio_a".to_string() });
    let (state, action) = run_step(&req, state, RunEvent::Found(None), 5);
    assert_eq!(
        action,
        RunAction::InsertEntity {
            id: 5,
            identity: Identity {
                key: "ministerio_a".to_string(),
                display_name: "Ministerio A".to_string(),
                attribute: "organismo".to_string()
            }
        }
    );
    let failed = RunEvent::StoreFailed { message: "connection lost".to_string() };
    let (state, action) = run_step(&req, state, failed, 6);
    assert_eq!(
        action,
        RunAction::MarkArtifact {
            artifact_id: 0xA,
            status: ParseStatus::Failed,
            error: Some("connection lost".to_string())
        }
    );
    assert_eq!(state.error, IngestError::StoreFailed);
    let failed = RunEvent::StoreFailed { message: "still lost".to_string() };
    let (_, action) = run_step(&req, state, failed, 7);
    assert_eq!(
        action,
        RunAction::Abort { error: IngestError::StoreFailed, message: "still lost".to_string() }
    );
}

#[test]
fn a_workbook_is_read_as_a_workbook() {
    let mut req = run_request(true);
    req.mime_type = "application/vnd.ms-excel".to_string();
    let (_, action) = run_advance(&req, RunState::new(), RunEvent::Begin);
    assert_eq!(
        action,
        RunAction::Read { storage_path: "/data/raw/a.raw".to_string(), as_workbook: true }
    );
    let live = run_request(false);
    match run_advance(&live, RunState::new(), RunEvent::Begin) {
        (state, RunAction::OpenJobRun { job_run_id, .. }) => {
            assert_eq!(state.job_run_id, job_run_id);
            assert_eq!(uuid::Uuid::from_u128(job_run_id).get_version_num(), 4);
        }
        other => panic!("unexpected {:?}", other.1),
    }
}

#[test]
fn a_candidate_is_handed_out_by_its_index() {
    let req = run_request(true);
    let (state, _) = run_step(&req, RunState::new(), RunEvent::Begin, 1);
    let (state, _) = run_step(&req, state, content(FOUR_ROWS), 2);
    assert_eq!(state.fact(3).map(|f| f.location.as_str()), Some("csv:line=5"));
    assert!(state.fact(4).is_none());
}

#[test]
fn bytes_are_read_as_text() {
    let bytes = ArtifactContent::Bytes(FOUR_ROWS.as_bytes().to_vec());
    let text = ArtifactContent::Text(FOUR_ROWS.to_string());
    assert_eq!(
        parse_artifact(Format::GenericCsv, "demo", &bytes),
        parse_artifact(Format::GenericCsv, "demo", &text)
    );
    let accented = "entidad,anio,monto\nEducación,2024,1\n";
    let out = parse_artifact(Format::GenericCsv, "x", &ArtifactContent::Bytes(accented.as_bytes().to_vec()));
    assert_eq!(out.unwrap().facts[0].entity_key, "educación");
    let latin1 = ArtifactContent::Bytes(b"entidad,anio,monto\nEducaci\xf3n,2024,1\n".to_vec());
    let err = parse_artifact(Format::GenericCsv, "x", &latin1).unwrap_err();
    assert_eq!(err, IngestError::ReadFailed);
    assert_eq!(err.message(), "Failed to read artifact file");
    assert_eq!(
        parse_artifact(Format::Spreadsheet, "x", &bytes).unwrap_err(),
        IngestError::ContentMismatch
    );
}

#[test]
fn parsing_twice_gives_the_same_candidates() {
    let bytes = ArtifactContent::Bytes(FOUR_ROWS.as_bytes().to_vec());
    let first = parse_artifact(Format::GenericCsv, "demo-presupuesto", &bytes).unwrap();
    for _ in 0..5 {
        let again = parse_artifact(Format::GenericCsv, "demo-presupuesto", &bytes).unwrap();
        assert_eq!(first, again);
    }
}
