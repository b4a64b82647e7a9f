use estado_transparente::detect::is_dipres_ley_csv;
use estado_transparente::ley::parse_dipres_ley_csv;
use estado_transparente::model::{Amount, DimValue, ParsedFact};

const HEADER: &str =
    "Partida;Capitulo;Programa;Subtitulo;Ítem;Asignacion;Denominacion;Monto Pesos;Monto Dolar\n";

fn ley_facts_of(csv: &str, source_id: &str) -> Vec<ParsedFact> {
    parse_dipres_ley_csv(csv, source_id).unwrap().facts
}

fn ley_number(amount: &Amount) -> f64 {
    match amount {
        Amount::Units(n) => *n as f64,
        Amount::Thousands(n) => *n as f64 * 1000.0,
        Amount::Numeral(text) => text.parse().unwrap(),
    }
}

#[test]
fn test_dipres_ley_csv_basic() {
    let csv = "Partida;Capitulo;Programa;Subtitulo;Ítem;Asignacion;Denominacion;Monto Pesos;Monto Dolar\n\
               01;01;01;21;00;000;PRESIDENCIA DE LA REPÚBLICA;100000;0\n\
               01;01;01;22;00;000;BIENES Y SERVICIOS;50000;0\n";

    let facts = ley_facts_of(csv, "dipres-ley-presupuestos-2026");

    assert_eq!(facts.len(), 1);
    assert_eq!(facts[0].entity_key, "partida_01");
    assert_eq!(facts[0].metric_key, "presupuesto_ley");
    assert_eq!(ley_number(&facts[0].value), 150000.0 * 1000.0);
    assert_eq!(facts[0].period_start.year, 2026);
}

#[test]
fn test_dipres_ley_csv_multiple_partidas() {
    let csv = "Partida;Capitulo;Programa;Subtitulo;Ítem;Asignacion;Denominacion;Monto Pesos;Monto Dolar\n\
               01;01;01;21;00;000;PRESIDENCIA;100000;0\n\
               02;01;01;21;00;000;CONGRESO NACIONAL;200000;0\n\
               03;01;01;21;00;000;PODER JUDICIAL;300000;0\n";

    let facts = ley_facts_of(csv, "dipres-ley-presupuestos-2026");

    assert_eq!(facts.len(), 3);
    assert_eq!(facts[0].entity_key, "partida_01");
    assert_eq!(facts[1].entity_key, "partida_02");
    assert_eq!(facts[2].entity_key, "partida_03");
}

#[test]
fn test_dipres_ley_csv_aggregation() {
    let csv = "Partida;Capitulo;Programa;Subtitulo;Ítem;Asignacion;Denominacion;Monto Pesos;Monto Dolar\n\
               01;01;01;21;00;000;ITEM A;100000;0\n\
               01;01;02;22;00;000;ITEM B;200000;0\n\
               01;02;01;21;00;000;ITEM C;300000;0\n";

    let facts = ley_facts_of(csv, "dipres-ley-presupuestos-2026");

    assert_eq!(facts.len(), 1);
    assert_eq!(ley_number(&facts[0].value), 600000.0 * 1000.0);
    assert_eq!(facts[0].value, Amount::Thousands(600000));
    let rows = facts[0].dims.iter().find(|d| d.name == "aggregated_rows").unwrap();
    assert_eq!(rows.value, DimValue::Count(3));
}

#[test]
fn test_dipres_ley_csv_determinism() {
    let csv = "Partida;Capitulo;Programa;Subtitulo;Ítem;Asignacion;Denominacion;Monto Pesos;Monto Dolar\n\
               01;01;01;21;00;000;ITEM A;100000;0\n\
               02;01;01;21;00;000;ITEM B;200000;0\n";

    let result1 = ley_facts_of(csv, "dipres-ley-presupuestos-2026");
    let result2 = ley_facts_of(csv, "dipres-ley-presupuestos-2026");

    assert_eq!(result1.len(), result2.len());
    for (a, b) in result1.iter().zip(result2.iter()) {
        assert_eq!(a.entity_key, b.entity_key);
        assert_eq!(ley_number(&a.value), ley_number(&b.value));
        assert_eq!(a.location, b.location);
    }
}

#[test]
fn test_dipres_ley_csv_wrong_headers_fails() {
    let csv = "Wrong;Headers;Here;For;Testing;Invalid;Format;Columns;Data\n\
               01;01;01;21;00;000;ITEM;100000;0\n";

    let result = parse_dipres_ley_csv(csv, "dipres-ley-presupuestos-2026");
    assert!(result.is_err());
    assert!(result.unwrap_err().message().contains("AMBIGUITY"));
}

#[test]
fn test_dipres_ley_csv_wrong_column_count_fails() {
    let csv = "Partida;Capitulo;Programa;Subtitulo;Ítem;Asignacion;Denominacion;Monto Pesos\n\
               01;01;01;21;00;000;ITEM;100000\n";

    let result = parse_dipres_ley_csv(csv, "dipres-ley-presupuestos-2026");
    assert!(result.is_err());
    assert!(result.unwrap_err().message().contains("AMBIGUITY"));
}

#[test]
fn test_dipres_ley_csv_no_year_in_source_id_fails() {
    let csv = "Partida;Capitulo;Programa;Subtitulo;Ítem;Asignacion;Denominacion;Monto Pesos;Monto Dolar\n\
               01;01;01;21;00;000;ITEM;100000;0\n";

    let result = parse_dipres_ley_csv(csv, "dipres-ley-presupuestos");
    assert!(result.is_err());
    assert!(result.unwrap_err().message().contains("AMBIGUITY"));
}

#[test]
fn test_dipres_ley_csv_with_bom() {
    let csv = "\u{feff}Partida;Capitulo;Programa;Subtitulo;Ítem;Asignacion;Denominacion;Monto Pesos;Monto Dolar\n\
               01;01;01;21;00;000;TEST;100000;0\n";

    let facts = ley_facts_of(csv, "dipres-ley-presupuestos-2026");
    assert_eq!(facts.len(), 1);
}

#[test]
fn test_is_dipres_ley_csv() {
    assert!(is_dipres_ley_csv("dipres-ley-presupuestos-2026"));
    assert!(is_dipres_ley_csv("dipres-ley-presupuestos-2025"));
    assert!(!is_dipres_ley_csv("dipres-presupuesto-2026"));
    assert!(!is_dipres_ley_csv("demo-presupuesto"));
}

#[test]
fn ley_location_names_code_lines_and_rows() {
    let csv = format!(
        "{}{}{}{}",
        HEADER,
        "02;01;01;21;00;000;CONGRESO;5;0\n",
        "01;01;01;21;00;000;PRESIDENCIA;7;0\n",
        "02;01;01;22;00;000;OTRO;11;0\n"
    );
    let facts = ley_facts_of(&csv, "dipres-ley-presupuestos-2026");
    assert_eq!(facts.len(), 2);
    assert_eq!(facts[0].location, "dipres_ley_csv:partida=01:lines=3-3:rows=1");
    assert_eq!(facts[1].location, "dipres_ley_csv:partida=02:lines=2-4:rows=2");
    assert_eq!(facts[1].entity_name, "CONGRESO");
    assert_eq!(facts[1].value, Amount::Thousands(16));
    assert_eq!(facts[1].entity_type, "partida");
}
