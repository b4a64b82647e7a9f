use estado_transparente::model::{Amount, Dim, DimValue, ParsedFact};
use estado_transparente::report::{ParseError, RowIssue, RowWarning};
use estado_transparente::workbook::{
    find_column, get_cell, header_of, headers_of, low_32_bits, map_columns, parse_dipres_xls,
    read_cell_amount, read_entity, read_year, strip_separators, Cell, FloatCell, Workbook,
};

fn text(s: &str) -> Cell {
    Cell::Text(s.to_string())
}

fn float(value: f64) -> Cell {
    Cell::Float(FloatCell { whole: value as i64, numeral: format!("{}", value) })
}

fn book(rows: Vec<Vec<Cell>>) -> Workbook {
    Workbook { sheet_names: vec!["Hoja 1".to_string(), "Otra".to_string()], first_sheet: rows }
}

fn xls_facts(rows: Vec<Vec<Cell>>, source_id: &str) -> Vec<ParsedFact> {
    parse_dipres_xls(&book(rows), source_id).unwrap().facts
}

#[test]
fn find_column_takes_the_first_header_that_holds_a_word() {
    let headers: Vec<String> =
        ["Código", "  Nombre PARTIDA ", "Organismo", "Monto (M$)"].iter().map(|s| s.to_string()).collect();
    assert_eq!(
        find_column(&headers, &["partida", "organismo"]),
        Some((1, "  Nombre PARTIDA ".to_string()))
    );
    assert_eq!(find_column(&headers, &["organismo", "partida"]), Some((1, "  Nombre PARTIDA ".to_string())));
    assert_eq!(find_column(&headers, &["monto"]), Some((3, "Monto (M$)".to_string())));
    assert_eq!(find_column(&headers, &["año", "anio"]), None);
    assert_eq!(find_column(&headers, &[]), None);
    assert_eq!(find_column(&[], &["monto"]), None);
    assert_eq!(find_column(&headers, &[""]), Some((0, "Código".to_string())));
}

#[test]
fn headers_come_from_any_kind_of_cell() {
    let row = vec![
        text("  Partida "),
        Cell::Empty,
        Cell::Int(-12),
        float(2024.0),
        Cell::Other("true".to_string()),
    ];
    assert_eq!(headers_of(&row), vec!["Partida", "", "-12", "2024", "true"]);
    assert_eq!(header_of(&Cell::Int(0)), "0");
}

#[test]
fn columns_are_mapped_by_their_words() {
    let headers: Vec<String> =
        ["Servicio", "Año", "Subtitulo", "Ley_Inicial", "Total"].iter().map(|s| s.to_string()).collect();
    let mapping = map_columns(&headers);
    assert_eq!(mapping.entity_col, Some(0));
    assert_eq!(mapping.entity_name, "Servicio");
    assert_eq!(mapping.year_col, Some(1));
    assert_eq!(mapping.category_col, Some(2));
    assert_eq!(mapping.amount_col, Some(3));
    assert_eq!(mapping.amount_name, "Ley_Inicial");
    let none = map_columns(&vec!["x".to_string()]);
    assert_eq!((none.entity_col, none.year_col, none.amount_col, none.category_col), (None, None, None, None));
    assert_eq!(none.entity_name, "");
}

#[test]
fn a_sheet_with_a_year_column() {
    let rows = vec![
        vec![text("Partida"), text("Año"), text("Monto"), text("Item")],
        vec![text(" Ministerio de Salud "), float(2024.0), float(1500.5), text("Personal")],
        vec![text("Congreso"), Cell::Int(2024), Cell::Int(700), Cell::Empty],
        vec![text("Poder Judicial"), text(" 2025 "), text("1.250.000,00"), text("  ")],
    ];
    let facts = xls_facts(rows, "dipres-presupuesto");
    assert_eq!(facts.len(), 3);
    assert_eq!(facts[0].entity_name, "Ministerio de Salud");
    assert_eq!(facts[0].entity_key, "ministerio_de_salud");
    assert_eq!(facts[0].entity_type, "organismo");
    assert_eq!(facts[0].metric_key, "presupuesto_ley");
    assert_eq!(facts[0].value, Amount::Numeral("1500.5".to_string()));
    assert_eq!(facts[0].location, "xls:sheet='Hoja 1':row=2");
    assert_eq!(
        facts[0].dims,
        vec![Dim { name: "category".to_string(), value: DimValue::Text("Personal".to_string()) }]
    );
    assert_eq!(facts[1].value, Amount::Units(700));
    assert!(facts[1].dims.is_empty());
    assert_eq!(facts[2].period_start.year, 2025);
    assert_eq!(facts[2].value, Amount::Numeral("125000000".to_string()));
    assert_eq!(facts[2].location, "xls:sheet='Hoja 1':row=4");
    assert!(facts[2].dims.is_empty());
    assert_eq!((facts[2].period_end.month, facts[2].period_end.day), (12, 31));
}

#[test]
fn the_year_of_the_source_stands_in_for_a_year_column() {
    let rows = vec![
        vec![text("Organismo"), text("Presupuesto")],
        vec![text("A"), Cell::Int(5)],
    ];
    let facts = xls_facts(rows.clone(), "dipres-gasto-2023");
    assert_eq!(facts[0].period_start.year, 2023);
    assert_eq!(facts[0].metric_key, "gasto_ejecutado");
    assert_eq!(
        parse_dipres_xls(&book(rows), "dipres-gasto").unwrap_err(),
        ParseError::YearUndetermined
    );
}

#[test]
fn rows_are_passed_over_for_their_first_fault() {
    let rows = vec![
        vec![text("Partida"), text("Periodo"), text("Total")],
        vec![Cell::Int(5), Cell::Int(2024), Cell::Int(1)],
        vec![text("   "), Cell::Int(2024), Cell::Int(1)],
        vec![text("A"), Cell::Int(1999), Cell::Int(1)],
        vec![text("B"), Cell::Empty, Cell::Int(1)],
        vec![text("C"), text("x"), Cell::Int(1)],
        vec![text("D"), Cell::Int(2024), Cell::Empty],
        vec![text("E"), Cell::Int(2024), Cell::Int(0)],
        vec![text("F"), Cell::Int(2024), float(0.0)],
        vec![text("G"), Cell::Int(2024), text("abc")],
        vec![text("H"), Cell::Int(2024), text("0,00")],
        vec![text("I"), Cell::Int(2024), Cell::Other("#DIV/0!".to_string())],
        vec![text("J"), Cell::Int(2024)],
        vec![text("K"), float(2100.9), float(-3.25)],
        vec![text("L"), float(2101.0), float(1.0)],
    ];
    let out = parse_dipres_xls(&book(rows), "x").unwrap();
    assert_eq!(out.facts.len(), 1);
    assert_eq!(out.facts[0].entity_name, "K");
    assert_eq!(out.facts[0].period_start.year, 2100);
    assert_eq!(out.facts[0].value, Amount::Numeral("-3.25".to_string()));
    assert_eq!(out.facts[0].location, "xls:sheet='Hoja 1':row=14");
    let issues: Vec<(u128, RowIssue)> = out.warnings.iter().map(|w| (w.line, w.issue)).collect();
    assert_eq!(
        issues,
        vec![
            (2, RowIssue::NoEntity),
            (3, RowIssue::NoEntity),
            (4, RowIssue::YearOutOfRange),
            (5, RowIssue::YearOutOfRange),
            (6, RowIssue::YearOutOfRange),
            (7, RowIssue::NoAmount),
            (8, RowIssue::ZeroAmount),
            (9, RowIssue::ZeroAmount),
            (10, RowIssue::ZeroAmount),
            (11, RowIssue::ZeroAmount),
            (12, RowIssue::NoAmount),
            (13, RowIssue::NoAmount),
            (15, RowIssue::YearOutOfRange),
        ]
    );
    assert_eq!(out.warnings[0], RowWarning { line: 2, issue: RowIssue::NoEntity });
}

#[test]
fn workbook_errors() {
    let header = vec![text("Partida"), text("Año"), text("Monto")];
    let data = vec![text("A"), Cell::Int(2024), Cell::Int(1)];
    let no_sheets = Workbook { sheet_names: vec![], first_sheet: vec![header.clone(), data.clone()] };
    assert_eq!(parse_dipres_xls(&no_sheets, "x").unwrap_err(), ParseError::NoSheets);
    assert_eq!(parse_dipres_xls(&book(vec![header.clone()]), "x").unwrap_err(), ParseError::TooFewRows);
    assert_eq!(parse_dipres_xls(&book(vec![]), "x").unwrap_err(), ParseError::TooFewRows);
    let no_entity = vec![vec![text("Nombre"), text("Monto")], data.clone()];
    let err = parse_dipres_xls(&book(no_entity), "x-2024").unwrap_err();
    assert_eq!(err, ParseError::EntityColumnMissing);
    assert!(err.is_ambiguity());
    assert_eq!(err.message(), "AMBIGUITY: No entity column found");
    let no_amount = vec![vec![text("Partida"), text("Año")], data.clone()];
    let err = parse_dipres_xls(&book(no_amount), "x").unwrap_err();
    assert_eq!(err, ParseError::AmountColumnMissing);
    assert_eq!(err.message(), "AMBIGUITY: No amount column found");
    let no_facts = vec![header.clone(), vec![text("A"), Cell::Int(2024), Cell::Int(0)]];
    let err = parse_dipres_xls(&book(no_facts), "x").unwrap_err();
    assert_eq!(err, ParseError::NoFacts);
    assert!(!err.is_ambiguity());
    assert_eq!(ParseError::YearUndetermined.message(), "AMBIGUITY: No year column found and cannot extract year from source_id");
    assert_eq!(ParseError::NoSheets.message(), "XLS file has no sheets");
    assert_eq!(ParseError::TooFewRows.message(), "Sheet has insufficient rows (need header + data)");
    assert_eq!(ParseError::NoFacts.message(), "No facts parsed from XLS file");
}

#[test]
fn years_from_cells() {
    assert_eq!(read_year(Some(&float(2024.9))), 2024);
    assert_eq!(read_year(Some(&float(-0.5))), 0);
    assert_eq!(read_year(Some(&float(1e300))), i32::MAX);
    assert_eq!(read_year(Some(&float(-1e300))), i32::MIN);
    assert_eq!(read_year(Some(&float(f64::NAN))), 0);
    for value in [2024.9, -1e300, 1e300, 4294969320.0, f64::NAN, -2147483649.0] {
        assert_eq!(read_year(Some(&float(value))), value as i32);
    }
    for value in [0i64, 2024, -1, 4294969320, i64::MAX, i64::MIN, 2147483648, -2147483649] {
        assert_eq!(read_year(Some(&Cell::Int(value))), value as i32, "{value}");
        assert_eq!(low_32_bits(value), value as i32);
    }
    assert_eq!(read_year(Some(&text(" 2024 "))), 2024);
    assert_eq!(read_year(Some(&text("0x7E8"))), 0);
    assert_eq!(read_year(Some(&text("2024.0"))), 0);
    assert_eq!(read_year(Some(&Cell::Empty)), 0);
    assert_eq!(read_year(None), 0);
}

#[test]
fn amounts_from_cells() {
    assert_eq!(read_cell_amount(Some(&Cell::Int(-5))), Ok(Amount::Units(-5)));
    assert_eq!(read_cell_amount(Some(&Cell::Int(0))), Err(RowIssue::ZeroAmount));
    assert_eq!(read_cell_amount(Some(&float(f64::NAN))), Ok(Amount::Numeral("NaN".to_string())));
    assert_eq!(read_cell_amount(Some(&float(f64::INFINITY))), Ok(Amount::Numeral("inf".to_string())));
    assert_eq!(read_cell_amount(Some(&float(-0.0))), Err(RowIssue::ZeroAmount));
    assert_eq!(read_cell_amount(Some(&text(" 1,234.5 "))), Ok(Amount::Numeral("12345".to_string())));
    assert_eq!(read_cell_amount(Some(&text("1e3"))), Ok(Amount::Numeral("1e3".to_string())));
    assert_eq!(read_cell_amount(Some(&text(""))), Err(RowIssue::ZeroAmount));
    assert_eq!(read_cell_amount(Some(&text("..."))), Err(RowIssue::ZeroAmount));
    assert_eq!(read_cell_amount(Some(&Cell::Empty)), Err(RowIssue::NoAmount));
    assert_eq!(read_cell_amount(None), Err(RowIssue::NoAmount));
    let bad = Cell::Float(FloatCell { whole: 0, numeral: "x".to_string() });
    assert_eq!(read_cell_amount(Some(&bad)), Err(RowIssue::NoAmount));
    assert_eq!(strip_separators("1.250.000,50"), "125000050");
    assert_eq!(strip_separators(""), "");
}

#[test]
fn entities_and_cells() {
    let row = vec![text(" A "), Cell::Empty];
    assert_eq!(get_cell(&row, 0), Some(&row[0]));
    assert_eq!(get_cell(&row, 2), None);
    assert_eq!(read_entity(get_cell(&row, 0)), Some("A".to_string()));
    assert_eq!(read_entity(get_cell(&row, 1)), None);
    assert_eq!(read_entity(None), None);
    assert_eq!(read_entity(Some(&Cell::Int(3))), None);
}
