use estado_transparente::ley::{
    aggregate_partidas, check_header, ley_facts, parse_dipres_ley_csv, partida_entity_key,
    read_amount, read_rows, strip_bom, DipresLeyRow,
};
use estado_transparente::model::{Amount, Dim, DimValue};
use estado_transparente::report::{ErrorKind, ParseError, RowIssue, RowWarning};

const LEY_HEADER: &str =
    "Partida;Capitulo;Programa;Subtitulo;Ítem;Asignacion;Denominacion;Monto Pesos;Monto Dolar\n";

fn ley(rows: &str) -> String {
    format!("{}{}", LEY_HEADER, rows)
}

fn row(code: &str, name: &str, amount: i64, line: u128) -> DipresLeyRow {
    DipresLeyRow {
        partida: code.to_string(),
        capitulo: String::new(),
        programa: String::new(),
        subtitulo: String::new(),
        item: String::new(),
        asignacion: String::new(),
        denominacion: name.to_string(),
        monto_pesos: amount,
        monto_dolar: 0,
        line_num: line,
    }
}

#[test]
fn header_faults_name_the_count_or_the_first_wrong_column() {
    let names = |text: &str| text.trim_end().split(';').map(|s| s.to_string()).collect::<Vec<_>>();
    assert_eq!(check_header(&names(LEY_HEADER)), None);
    let mut swapped = names(LEY_HEADER);
    swapped.swap(2, 5);
    assert_eq!(
        check_header(&swapped),
        Some(ParseError::ColumnNameMismatch {
            index: 2,
            expected: "Programa".to_string(),
            found: "Asignacion".to_string()
        })
    );
    let mut renamed = names(LEY_HEADER);
    renamed[4] = "Item".to_string();
    assert_eq!(
        check_header(&renamed),
        Some(ParseError::ColumnNameMismatch {
            index: 4,
            expected: "Ítem".to_string(),
            found: "Item".to_string()
        })
    );
    let mut short = names(LEY_HEADER);
    short.pop();
    let found = short.clone();
    assert_eq!(
        check_header(&short),
        Some(ParseError::ColumnCountMismatch { expected: 9, headers: found })
    );
    assert_eq!(
        check_header(&vec![]),
        Some(ParseError::ColumnCountMismatch { expected: 9, headers: vec![] })
    );
}

#[test]
fn reordered_headers_are_an_ambiguity() {
    let csv = "Capitulo;Partida;Programa;Subtitulo;Ítem;Asignacion;Denominacion;Monto Pesos;Monto Dolar\n01;01;01;21;00;000;X;1;0\n";
    let err = parse_dipres_ley_csv(csv, "dipres-ley-presupuestos-2026").unwrap_err();
    assert_eq!(
        err,
        ParseError::ColumnNameMismatch {
            index: 0,
            expected: "Partida".to_string(),
            found: "Capitulo".to_string()
        }
    );
    assert_eq!(err.kind(), ErrorKind::Ambiguity);
    assert!(err.is_ambiguity());
    assert_eq!(
        err.message(),
        "AMBIGUITY: Column 0 mismatch. Expected 'Partida', found 'Capitulo'"
    );
}

#[test]
fn error_variants_and_their_messages() {
    let good = ley("01;01;01;21;00;000;X;1;0\n");
    assert_eq!(parse_dipres_ley_csv(&good, "sin-año").unwrap_err(), ParseError::YearNotInSourceId);
    let err = parse_dipres_ley_csv("A;B\n1;2\n", "x-2026").unwrap_err();
    assert_eq!(
        err,
        ParseError::ColumnCountMismatch {
            expected: 9,
            headers: vec!["A".to_string(), "B".to_string()]
        }
    );
    assert_eq!(err.message(), "AMBIGUITY: Expected 9 columns, found 2. Headers: 'A', 'B'");
    let err = parse_dipres_ley_csv(LEY_HEADER, "x-2026").unwrap_err();
    assert_eq!(err, ParseError::NoValidRows);
    assert_eq!(err.message(), "AMBIGUITY: No valid rows parsed from CSV");
    let err = parse_dipres_ley_csv(&ley(";01;01;21;00;000;X;1;0\n"), "x-2026").unwrap_err();
    assert_eq!(err, ParseError::NoPartidas);
    assert_eq!(err.message(), "AMBIGUITY: No partidas found after aggregation");
    assert_eq!(ParseError::YearNotInSourceId.message(), "AMBIGUITY: Cannot extract year from source_id");
    assert_eq!(ParseError::HeaderUnreadable.message(), "Failed to read CSV headers");
    assert!(!ParseError::HeaderUnreadable.is_ambiguity());
    let empty = parse_dipres_ley_csv("", "x-2026").unwrap_err();
    assert_eq!(empty, ParseError::ColumnCountMismatch { expected: 9, headers: vec![] });
    assert_eq!(empty.message(), "AMBIGUITY: Expected 9 columns, found 0. Headers: ");
}

#[test]
fn rows_of_another_width_are_reported_and_left_out() {
    let csv = ley("01;01;01;21;00;000;A;10;0\n01;01;01;21;00;000;B;20\n01;01;01;21;00;000;C;30;0\n");
    let out = parse_dipres_ley_csv(&csv, "dipres-ley-presupuestos-2026").unwrap();
    assert_eq!(out.facts.len(), 1);
    assert_eq!(out.facts[0].value, Amount::Thousands(40));
    assert_eq!(out.facts[0].location, "dipres_ley_csv:partida=01:lines=2-4:rows=2");
    assert_eq!(out.warnings, vec![RowWarning { line: 3, issue: RowIssue::Unreadable }]);
}

#[test]
fn a_row_whose_primary_amount_is_no_integer_is_left_out() {
    let csv = ley("01;01;01;21;00;000;A;100;0\n01;01;01;22;00;000;B;abc;0\n");
    let out = parse_dipres_ley_csv(&csv, "dipres-ley-presupuestos-2026").unwrap();
    assert_eq!(out.facts.len(), 1);
    assert_eq!(out.facts[0].value, Amount::Thousands(100));
    assert_eq!(out.facts[0].location, "dipres_ley_csv:partida=01:lines=2-2:rows=1");
    assert_eq!(out.warnings, vec![RowWarning { line: 3, issue: RowIssue::InvalidAmount }]);

    let csv = ley("01;01;01;21;00;000;A;10;0\n01;01;01;21;00;000;B;1.5;x\n01;01;01;21;00;000;C;;\n01;01;01;21;00;000;D; 5 ;zz\n");
    let out = parse_dipres_ley_csv(&csv, "dipres-ley-presupuestos-2026").unwrap();
    assert_eq!(out.facts.len(), 1);
    assert_eq!(out.facts[0].value, Amount::Thousands(15));
    assert_eq!(out.facts[0].location, "dipres_ley_csv:partida=01:lines=2-5:rows=2");
    assert_eq!(
        out.warnings,
        vec![
            RowWarning { line: 3, issue: RowIssue::InvalidAmount },
            RowWarning { line: 4, issue: RowIssue::InvalidAmount },
        ]
    );
    let only_bad = ley("01;01;01;21;00;000;A;abc;0\n");
    assert_eq!(
        parse_dipres_ley_csv(&only_bad, "x-2026").unwrap_err(),
        ParseError::NoValidRows
    );
    assert_eq!(read_amount(" 42 "), Some(42));
    assert_eq!(read_amount(""), None);
    assert_eq!(read_amount("  "), None);
    assert_eq!(read_amount("-7"), Some(-7));
    assert_eq!(read_amount("1.5"), None);
    assert_eq!(read_amount("0x10"), None);
}

#[test]
fn lines_of_a_sum_are_lines_of_the_file() {
    let csv = ley("\n01;;;;;;A;1;0\n\n\n02;;;;;;B;2;0\n01;;;;;;C;3;0\n");
    let out = parse_dipres_ley_csv(&csv, "x-2026").unwrap();
    assert_eq!(out.facts[0].location, "dipres_ley_csv:partida=01:lines=3-7:rows=2");
    assert_eq!(out.facts[1].location, "dipres_ley_csv:partida=02:lines=6-6:rows=1");
    let with_mark = format!("\u{feff}{}", csv);
    let again = parse_dipres_ley_csv(&with_mark, "x-2026").unwrap();
    assert_eq!(again.facts[0].location, out.facts[0].location);
}

#[test]
fn facts_are_listed_by_entity_key_whatever_the_order_of_the_rows() {
    let a = ley("10;;;;;;DIEZ;1;0\n2;;;;;;DOS;2;0\n02;;;;;;CERO DOS;3;0\n1;;;;;;UNO;4;0\n");
    let b = ley("1;;;;;;UNO;4;0\n02;;;;;;CERO DOS;3;0\n2;;;;;;DOS;2;0\n10;;;;;;DIEZ;1;0\n");
    let fa = parse_dipres_ley_csv(&a, "x-2026").unwrap().facts;
    let fb = parse_dipres_ley_csv(&b, "x-2026").unwrap().facts;
    let keys = |facts: &Vec<estado_transparente::model::ParsedFact>| {
        facts.iter().map(|f| (f.entity_key.clone(), f.entity_name.clone())).collect::<Vec<_>>()
    };
    assert_eq!(keys(&fa), keys(&fb));
    assert_eq!(
        keys(&fa),
        vec![
            ("partida_01".to_string(), "UNO".to_string()),
            ("partida_02".to_string(), "CERO DOS".to_string()),
            ("partida_02".to_string(), "DOS".to_string()),
            ("partida_10".to_string(), "DIEZ".to_string()),
        ]
    );
    let values: Vec<Amount> = fa.iter().map(|f| f.value.clone()).collect();
    assert_eq!(
        values,
        vec![Amount::Thousands(4), Amount::Thousands(3), Amount::Thousands(2), Amount::Thousands(1)]
    );
}

#[test]
fn the_first_row_of_a_code_names_it() {
    let csv = ley("07;;;;;;;5;0\n07;;;;;;LATER;5;0\n08;;;;;;FIRST;1;0\n08;;;;;;SECOND;1;0\n");
    let facts = parse_dipres_ley_csv(&csv, "x-2030").unwrap().facts;
    assert_eq!(facts[0].entity_name, "Partida 07");
    assert_eq!(facts[1].entity_name, "FIRST");
    assert_eq!(facts[0].period_start.year, 2030);
    assert_eq!((facts[0].period_start.month, facts[0].period_start.day), (1, 1));
    assert_eq!((facts[0].period_end.month, facts[0].period_end.day), (12, 31));
    assert_eq!(
        facts[1].dims,
        vec![
            Dim { name: "partida_code".to_string(), value: DimValue::Text("08".to_string()) },
            Dim { name: "aggregated_rows".to_string(), value: DimValue::Count(2) },
            Dim {
                name: "source_file".to_string(),
                value: DimValue::Text("articles-397499_doc_csv.csv".to_string())
            },
        ]
    );
    assert_eq!(facts[0].metric_name, "Presupuesto de Ley");
    assert_eq!(facts[0].metric_unit, "CLP");
}

#[test]
fn sums_of_rows_handed_in() {
    let rows = vec![
        row("02", "B", 5, 2),
        row("", "none", 100, 3),
        row("01", "A", i64::MAX, 4),
        row("02", "B2", -7, 5),
        row("01", "A2", i64::MAX, 6),
    ];
    let aggs = aggregate_partidas(&rows);
    assert_eq!(aggs.len(), 2);
    assert_eq!(aggs[0].partida_code, "01");
    assert_eq!(aggs[0].total_monto, 2 * (i64::MAX as i128));
    assert_eq!((aggs[0].row_count, aggs[0].first_line, aggs[0].last_line), (2, 4, 6));
    assert_eq!(aggs[0].partida_name, "A");
    assert_eq!(aggs[1].partida_code, "02");
    assert_eq!(aggs[1].total_monto, -2);
    assert_eq!((aggs[1].row_count, aggs[1].first_line, aggs[1].last_line), (2, 2, 5));
    assert_eq!(aggs[1].entity_key, "partida_02");
    assert!(aggregate_partidas(&vec![]).is_empty());
}

#[test]
fn entity_keys_pad_short_codes() {
    assert_eq!(partida_entity_key("1"), "partida_01");
    assert_eq!(partida_entity_key("01"), "partida_01");
    assert_eq!(partida_entity_key("123"), "partida_123");
    assert_eq!(partida_entity_key(""), "partida_00");
    assert_eq!(partida_entity_key("ñ"), "partida_0ñ");
}

#[test]
fn byte_order_mark_is_dropped_once() {
    assert_eq!(strip_bom("\u{feff}abc"), "abc");
    assert_eq!(strip_bom("abc"), "abc");
    assert_eq!(strip_bom("\u{feff}\u{feff}x"), "\u{feff}x");
    assert_eq!(strip_bom(""), "");
}

#[test]
fn ley_facts_from_records_handed_in() {
    let content = "h\nr1\n\nr2\nr3\nr4\n";
    let headers: Vec<String> =
        LEY_HEADER.trim_end().split(';').map(|s| s.to_string()).collect();
    let record = |fields: [&str; 9]| Some(fields.iter().map(|s| s.to_string()).collect::<Vec<_>>());
    let records = vec![
        (Some(2), record(["03", "", "", "", "", "", " PODER ", "300", ""])),
        (Some(5), None),
        (Some(9), Some(vec!["03".to_string()])),
        (Some(12), record(["03", "", "", "", "", "", "OTRO", "abc", "1"])),
        (Some(15), record(["03", "", "", "", "", "", "MAS", "7", "x"])),
    ];
    let out = ley_facts(content, &headers, &records, "dipres-ley-presupuestos-2027").unwrap();
    assert_eq!(out.facts.len(), 1);
    assert_eq!(out.facts[0].entity_name, "PODER");
    assert_eq!(out.facts[0].value, Amount::Thousands(307));
    assert_eq!(out.facts[0].location, "dipres_ley_csv:partida=03:lines=2-7:rows=2");
    assert_eq!(
        out.warnings,
        vec![
            RowWarning { line: 4, issue: RowIssue::Unreadable },
            RowWarning { line: 5, issue: RowIssue::WrongFieldCount },
            RowWarning { line: 6, issue: RowIssue::InvalidAmount },
        ]
    );
    let (rows, warnings) = read_rows(content, &records);
    assert_eq!(rows.len(), 2);
    assert_eq!(warnings.len(), 3);
    assert_eq!(rows[1].monto_dolar, 0);
    assert_eq!(rows[1].line_num, 7);
    assert_eq!(
        ley_facts(content, &headers, &records, "sin").unwrap_err(),
        ParseError::YearNotInSourceId
    );
}
