//! The generic comma-delimited dialect: one fact per data row, columns
//! found by the spelling of their headers.

use vstd::prelude::*;
use crate::calendar::{year_period, year_period_of};
use crate::delimited::{
    delimited_header, delimited_records, line_in, read_header, read_records, taken_view,
    LineCursor, COMMA,
};
use vstd::utf8::encode_utf8;
use crate::keys::{
    display_name, generic_metric, generic_metric_of, natural_key, natural_key_of, Metric,
    MetricView,
};
use crate::model::{
    Amount, AmountView, CalendarDate, Dim, DimValue, DimValueView, DimView, FactView, ParsedFact,
};
use crate::numeral::{
    classify_numeral, decimal, field_integer, is_float_numeral, parse_field_i32, push_decimal,
    within, NumeralClass,
};
use crate::report::{
    OutcomeView, ParseError, ParseErrorView, ParseOutcome, RowIssue, RowWarning,
};
use crate::text::{str_eq, trimmed};

verus! {

/// What a column holds, by its header.
#[derive(Clone, Copy, Debug, PartialEq, Eq, Structural)]
pub enum Column {
    Entity,
    Category,
    Year,
    Amount,
    Other,
}

/// The column that a header names. Each column answers to three
/// spellings; any other header names a column that is not read.
pub open spec fn column_of(header: Seq<char>) -> Column {
    if header == "entity"@ || header == "entidad"@ || header == "organismo"@ {
        Column::Entity
    } else if header == "category"@ || header == "categoria"@ || header == "item"@ {
        Column::Category
    } else if header == "year"@ || header == "anio"@ || header == "periodo"@ {
        Column::Year
    } else if header == "amount"@ || header == "monto"@ || header == "valor"@ {
        Column::Amount
    } else {
        Column::Other
    }
}

/// The columns that the headers name, in order.
pub open spec fn columns_of(headers: Seq<Seq<char>>) -> Seq<Column> {
    headers.map_values(|h: Seq<char>| column_of(h))
}

/// What has been read of a row so far.
pub struct RowBinding {
    pub entity: Option<Seq<char>>,
    pub category: Option<Option<Seq<char>>>,
    pub year: Option<i32>,
    pub amount: Option<Seq<char>>,
}

/// A row whose columns were all read.
pub struct RowView {
    pub entity: Seq<char>,
    pub category: Option<Seq<char>>,
    pub year: i32,
    pub amount: Seq<char>,
}

/// The field of a row at `i`, if the row is that long.
pub open spec fn field_at(fields: Seq<Seq<char>>, i: int) -> Option<Seq<char>> {
    if 0 <= i < fields.len() {
        Some(fields[i])
    } else {
        None
    }
}

/// Reads one field into the column that its header names. A column may be
/// named once. Every column but the category needs a field; the category
/// of a missing or empty field is absent.
pub open spec fn bind_column(b: RowBinding, column: Column, field: Option<Seq<char>>) -> Result<
    RowBinding,
    RowIssue,
> {
    match column {
        Column::Entity => if b.entity is Some {
            Err(RowIssue::DuplicateColumn)
        } else {
            match field {
                None => Err(RowIssue::MissingValue),
                Some(f) => Ok(RowBinding { entity: Some(f), ..b }),
            }
        },
        Column::Category => if b.category is Some {
            Err(RowIssue::DuplicateColumn)
        } else {
            match field {
                None => Ok(RowBinding { category: Some(None), ..b }),
                Some(f) => if f.len() == 0 {
                    Ok(RowBinding { category: Some(None), ..b })
                } else {
                    Ok(RowBinding { category: Some(Some(f)), ..b })
                },
            }
        },
        Column::Year => if b.year is Some {
            Err(RowIssue::DuplicateColumn)
        } else {
            match field {
                None => Err(RowIssue::MissingValue),
                Some(f) => match within(field_integer(f), i32::MIN as int, i32::MAX as int) {
                    None => Err(RowIssue::InvalidYear),
                    Some(y) => Ok(RowBinding { year: Some(y as i32), ..b }),
                },
            }
        },
        Column::Amount => if b.amount is Some {
            Err(RowIssue::DuplicateColumn)
        } else {
            match field {
                None => Err(RowIssue::MissingValue),
                Some(f) => if is_float_numeral(f) {
                    Ok(RowBinding { amount: Some(f), ..b })
                } else {
                    Err(RowIssue::InvalidAmount)
                },
            }
        },
        Column::Other => match field {
            None => Err(RowIssue::MissingValue),
            Some(_) => Ok(b),
        },
    }
}

/// Reads the fields of a row into the columns, from left to right, up to
/// the first that fails.
pub open spec fn bind_columns(columns: Seq<Column>, fields: Seq<Seq<char>>) -> Result<
    RowBinding,
    RowIssue,
>
    decreases columns.len(),
{
    if columns.len() == 0 {
        Ok(RowBinding { entity: None, category: None, year: None, amount: None })
    } else {
        match bind_columns(columns.drop_last(), fields) {
            Err(issue) => Err(issue),
            Ok(b) => bind_column(b, columns.last(), field_at(fields, columns.len() - 1)),
        }
    }
}

/// The row that the fields make under the columns: every field read, and
/// entity, year and amount all present.
pub open spec fn bound_row(columns: Seq<Column>, fields: Seq<Seq<char>>) -> Result<
    RowView,
    RowIssue,
> {
    match bind_columns(columns, fields) {
        Err(issue) => Err(issue),
        Ok(b) => if b.entity is Some && b.year is Some && b.amount is Some {
            Ok(
                RowView {
                    entity: b.entity->0,
                    category: match b.category {
                        Some(c) => c,
                        None => None,
                    },
                    year: b.year->0,
                    amount: b.amount->0,
                },
            )
        } else {
            Err(RowIssue::MissingColumn)
        },
    }
}

/// The locator of the row at `line` of a generic delimited file.
pub open spec fn generic_location(line: nat) -> Seq<char> {
    "csv:line="@ + decimal(line)
}

/// The dimensions of a row: its category, where it has one.
pub open spec fn category_dims(category: Option<Seq<char>>) -> Seq<DimView> {
    match category {
        Some(c) => seq![DimView { name: "category"@, value: DimValueView::Text(c) }],
        None => seq![],
    }
}

/// The fact that a row at `line` states.
pub open spec fn generic_fact_of(
    row: RowView,
    line: nat,
    metric: MetricView,
    period: (CalendarDate, CalendarDate),
) -> FactView {
    FactView {
        entity_key: natural_key_of(trimmed(row.entity)),
        entity_name: trimmed(row.entity),
        entity_type: "organismo"@,
        metric_key: metric.key,
        metric_name: metric.name,
        metric_unit: metric.unit,
        period_start: period.0,
        period_end: period.1,
        value: AmountView::Numeral(row.amount),
        location: generic_location(line),
        dims: category_dims(row.category),
    }
}

/// What one record comes to.
pub enum RowResult {
    /// The record states a fact.
    Fact(FactView),
    /// The record is passed over.
    Skipped(RowIssue),
    /// The record stops the parse.
    Fatal(ParseErrorView),
}

/// What the record at `line` comes to: it is passed over where it cannot
/// be read or bound; it stops the parse where the calendar lacks its year.
pub open spec fn generic_row_result(
    columns: Seq<Column>,
    record: Option<Seq<Seq<char>>>,
    line: u128,
    metric: MetricView,
) -> RowResult {
    match record {
        None => RowResult::Skipped(RowIssue::Unreadable),
        Some(fields) => match bound_row(columns, fields) {
            Err(issue) => RowResult::Skipped(issue),
            Ok(row) => match year_period_of(row.year) {
                None => RowResult::Fatal(ParseErrorView::PeriodOutOfRange { line }),
                Some(period) => RowResult::Fact(generic_fact_of(row, line as nat, metric, period)),
            },
        },
    }
}

/// The outcome of the records of a text, taken in order. Each record is
/// located by the line of the text on which it stands. The first record
/// that stops the parse decides the error.
pub open spec fn generic_outcome_of(
    columns: Seq<Column>,
    content: Seq<char>,
    records: Seq<(Option<u64>, Option<Seq<Seq<char>>>)>,
    metric: MetricView,
) -> Result<OutcomeView, ParseErrorView>
    decreases records.len(),
{
    if records.len() == 0 {
        Ok(OutcomeView { facts: seq![], warnings: seq![] })
    } else {
        match generic_outcome_of(columns, content, records.drop_last(), metric) {
            Err(e) => Err(e),
            Ok(o) => {
                let line = line_in(content, records.last().0);
                match generic_row_result(columns, records.last().1, line, metric) {
                    RowResult::Fact(f) => Ok(
                        OutcomeView { facts: o.facts.push(f), warnings: o.warnings },
                    ),
                    RowResult::Skipped(issue) => Ok(
                        OutcomeView {
                            facts: o.facts,
                            warnings: o.warnings.push(RowWarning { line, issue }),
                        },
                    ),
                    RowResult::Fatal(e) => Err(e),
                }
            },
        }
    }
}

/// The view of a parse result.
pub open spec fn result_view(r: Result<ParseOutcome, ParseError>) -> Result<
    OutcomeView,
    ParseErrorView,
> {
    match r {
        Ok(o) => Ok(o@),
        Err(e) => Err(e@),
    }
}

/// The outcome of a generic delimited file with the given source
/// identifier.
pub open spec fn parse_csv_of(content: Seq<char>, source_id: Seq<char>) -> Result<
    OutcomeView,
    ParseErrorView,
> {
    match delimited_header(content, COMMA, true) {
        None => Err(ParseErrorView::HeaderUnreadable),
        Some(headers) => generic_outcome_of(
            columns_of(headers),
            content,
            delimited_records(content, COMMA, true, true),
            generic_metric_of(source_id),
        ),
    }
}

/// Names the column of a header.
pub fn classify_header(header: &str) -> (c: Column)
    ensures
        c == column_of(header@),
{
    if str_eq(header, "entity") || str_eq(header, "entidad") || str_eq(header, "organismo") {
        Column::Entity
    } else if str_eq(header, "category") || str_eq(header, "categoria") || str_eq(header, "item") {
        Column::Category
    } else if str_eq(header, "year") || str_eq(header, "anio") || str_eq(header, "periodo") {
        Column::Year
    } else if str_eq(header, "amount") || str_eq(header, "monto") || str_eq(header, "valor") {
        Column::Amount
    } else {
        Column::Other
    }
}

/// Names the columns of the headers.
pub fn classify_headers(headers: &Vec<String>) -> (columns: Vec<Column>)
    ensures
        columns@ == columns_of(headers.deep_view()),
{
    let mut columns: Vec<Column> = Vec::new();
    let mut i: usize = 0;
    while i < headers.len()
        invariant
            i <= headers.len(),
            columns@ == columns_of(headers.deep_view().take(i as int)),
        decreases headers.len() - i,
    {
        let c = classify_header(headers[i].as_str());
        columns.push(c);
        assert(headers.deep_view().take(i + 1) == headers.deep_view().take(i as int).push(
            headers[i as int]@,
        ));
        i = i + 1;
    }
    assert(headers.deep_view().take(headers.len() as int) == headers.deep_view());
    columns
}

/// A data row of the generic dialect.
#[derive(Clone, Debug, PartialEq, Eq)]
pub struct CsvRow {
    pub entity: String,
    pub category: Option<String>,
    pub year: i32,
    pub amount: String,
}

impl View for CsvRow {
    type V = RowView;

    open spec fn view(&self) -> RowView {
        RowView {
            entity: self.entity@,
            category: self.category.deep_view(),
            year: self.year,
            amount: self.amount@,
        }
    }
}

/// The view of a bound row or of the issue that stopped its binding.
pub open spec fn row_view(r: Result<CsvRow, RowIssue>) -> Result<RowView, RowIssue> {
    match r {
        Ok(row) => Ok(row@),
        Err(issue) => Err(issue),
    }
}

/// Binds the fields of one record to the columns.
pub fn bind_row(columns: &Vec<Column>, fields: &Vec<String>) -> (r: Result<CsvRow, RowIssue>)
    ensures
        row_view(r) == bound_row(columns@, fields.deep_view()),
{
    let ghost fv = fields.deep_view();
    let mut entity: Option<String> = None;
    let mut category: Option<Option<String>> = None;
    let mut year: Option<i32> = None;
    let mut amount: Option<String> = None;
    let mut i: usize = 0;
    while i < columns.len()
        invariant
            i <= columns.len(),
            fv == fields.deep_view(),
            bind_columns(columns@.take(i as int), fv) == Ok::<RowBinding, RowIssue>(
                RowBinding {
                    entity: entity.deep_view(),
                    category: category.deep_view(),
                    year,
                    amount: amount.deep_view(),
                },
            ),
        decreases columns.len() - i,
    {
        let ghost before = columns@.take(i as int);
        let ghost now = columns@.take(i + 1);
        assert(now.drop_last() == before);
        assert(now.last() == columns@[i as int]);
        assert(i < fields.len() ==> fv[i as int] == fields[i as int]@);
        proof {
            lemma_bind_prefix(columns@, fv, i + 1);
        }
        match columns[i] {
            Column::Entity => {
                if entity.is_some() {
                    return Err(RowIssue::DuplicateColumn);
                }
                if i >= fields.len() {
                    return Err(RowIssue::MissingValue);
                }
                entity = Some(fields[i].clone());
            },
            Column::Category => {
                if category.is_some() {
                    return Err(RowIssue::DuplicateColumn);
                }
                if i < fields.len() && fields[i].as_str().unicode_len() > 0 {
                    category = Some(Some(fields[i].clone()));
                } else {
                    category = Some(None);
                }
            },
            Column::Year => {
                if year.is_some() {
                    return Err(RowIssue::DuplicateColumn);
                }
                if i >= fields.len() {
                    return Err(RowIssue::MissingValue);
                }
                match parse_field_i32(fields[i].as_str()) {
                    None => {
                        return Err(RowIssue::InvalidYear);
                    },
                    Some(y) => {
                        year = Some(y);
                    },
                }
            },
            Column::Amount => {
                if amount.is_some() {
                    return Err(RowIssue::DuplicateColumn);
                }
                if i >= fields.len() {
                    return Err(RowIssue::MissingValue);
                }
                if classify_numeral(fields[i].as_str()) == NumeralClass::Invalid {
                    return Err(RowIssue::InvalidAmount);
                }
                amount = Some(fields[i].clone());
            },
            Column::Other => {
                if i >= fields.len() {
                    return Err(RowIssue::MissingValue);
                }
            },
        }
        i = i + 1;
    }
    assert(columns@.take(columns.len() as int) == columns@);
    match (entity, year, amount) {
        (Some(entity), Some(year), Some(amount)) => Ok(
            CsvRow {
                entity,
                category: match category {
                    Some(c) => c,
                    None => None,
                },
                year,
                amount,
            },
        ),
        _ => Err(RowIssue::MissingColumn),
    }
}

/// A binding that fails on a prefix of the columns fails on all of them,
/// with the same issue.
pub proof fn lemma_bind_prefix(columns: Seq<Column>, fields: Seq<Seq<char>>, k: int)
    requires
        0 <= k <= columns.len(),
    ensures
        bind_columns(columns.take(k), fields) matches Err(issue) ==> bind_columns(columns, fields)
            == Err::<RowBinding, RowIssue>(issue),
    decreases columns.len(),
{
    if k == columns.len() {
        assert(columns.take(k) == columns);
    } else {
        assert(columns.drop_last().take(k) == columns.take(k));
        lemma_bind_prefix(columns.drop_last(), fields, k);
    }
}

/// An outcome that fails on a prefix of the records fails on all of them,
/// with the same error.
pub proof fn lemma_outcome_prefix(
    columns: Seq<Column>,
    content: Seq<char>,
    records: Seq<(Option<u64>, Option<Seq<Seq<char>>>)>,
    metric: MetricView,
    k: int,
)
    requires
        0 <= k <= records.len(),
    ensures
        generic_outcome_of(columns, content, records.take(k), metric) matches Err(e)
            ==> generic_outcome_of(columns, content, records, metric) == Err::<
            OutcomeView,
            ParseErrorView,
        >(e),
    decreases records.len(),
{
    if k == records.len() {
        assert(records.take(k) == records);
    } else {
        assert(records.drop_last().take(k) == records.take(k));
        lemma_outcome_prefix(columns, content, records.drop_last(), metric, k);
    }
}

/// Builds the fact that a row states.
pub fn generic_fact(row: CsvRow, line: u128, metric: &Metric, period: (CalendarDate, CalendarDate)) -> (f:
    ParsedFact)
    ensures
        f@ == generic_fact_of(row@, line as nat, metric@, period),
{
    let entity_name = display_name(row.entity.as_str());
    let entity_key = natural_key(entity_name.as_str());
    let mut location = "csv:line=".to_owned();
    push_decimal(&mut location, line);
    let mut dims: Vec<Dim> = Vec::new();
    match row.category {
        Some(c) => {
            dims.push(Dim { name: "category".to_owned(), value: DimValue::Text(c) });
            assert(dims.deep_view() == category_dims(row.category.deep_view()));
        },
        None => {
            assert(dims.deep_view() == category_dims(row.category.deep_view()));
        },
    }
    ParsedFact {
        entity_key,
        entity_name,
        entity_type: "organismo".to_owned(),
        metric_key: metric.key.clone(),
        metric_name: metric.name.clone(),
        metric_unit: metric.unit.clone(),
        period_start: period.0,
        period_end: period.1,
        value: Amount::Numeral(row.amount),
        location,
        dims,
    }
}

/// Turns the records of a generic delimited file into fact candidates,
/// one per row that binds, in the order of the rows. `content` is the
/// text that the records were taken from: it gives each record its line.
pub fn generic_facts(
    content: &str,
    headers: &Vec<String>,
    records: &Vec<(Option<u64>, Option<Vec<String>>)>,
    source_id: &str,
) -> (r: Result<ParseOutcome, ParseError>)
    ensures
        result_view(r) == generic_outcome_of(
            columns_of(headers.deep_view()),
            content@,
            taken_view(records@),
            generic_metric_of(source_id@),
        ),
{
    let columns = classify_headers(headers);
    let metric = generic_metric(source_id);
    let ghost rv = taken_view(records@);
    let mut cursor = LineCursor::new();
    let mut facts: Vec<ParsedFact> = Vec::new();
    let mut warnings: Vec<RowWarning> = Vec::new();
    let mut k: usize = 0;
    assert(facts.deep_view() == Seq::<FactView>::empty());
    while k < records.len()
        invariant
            k <= records.len(),
            rv == taken_view(records@),
            cursor.counts(encode_utf8(content@)),
            columns@ == columns_of(headers.deep_view()),
            metric@ == generic_metric_of(source_id@),
            generic_outcome_of(columns@, content@, rv.take(k as int), metric@) == Ok::<
                OutcomeView,
                ParseErrorView,
            >(OutcomeView { facts: facts.deep_view(), warnings: warnings@ }),
        decreases records.len() - k,
    {
        let line: u128 = cursor.line_of(content, records[k].0);
        let ghost before = rv.take(k as int);
        let ghost now = rv.take(k + 1);
        let ghost old_facts = facts.deep_view();
        proof {
            assert(now.drop_last() == before);
            assert(now.last() == (records[k as int].0, records[k as int].1.deep_view()));
            lemma_outcome_prefix(columns@, content@, rv, metric@, k + 1);
        }
        match &records[k].1 {
            None => {
                warnings.push(RowWarning { line, issue: RowIssue::Unreadable });
            },
            Some(fields) => {
                match bind_row(&columns, fields) {
                    Err(issue) => {
                        warnings.push(RowWarning { line, issue });
                    },
                    Ok(row) => {
                        match year_period(row.year) {
                            None => {
                                return Err(ParseError::PeriodOutOfRange { line });
                            },
                            Some(period) => {
                                let fact = generic_fact(row, line, &metric, period);
                                facts.push(fact);
                                assert(facts.deep_view() == old_facts.push(fact@));
                            },
                        }
                    },
                }
            },
        }
        k = k + 1;
    }
    assert(rv.take(records.len() as int) == rv);
    Ok(ParseOutcome { facts, warnings })
}

/// Parses a generic comma-delimited artifact. Every data row that binds to
/// the columns yields one fact candidate, located by its line; rows that
/// do not bind are reported and passed over.
pub fn parse_csv(content: &str, source_id: &str) -> (r: Result<ParseOutcome, ParseError>)
    ensures
        result_view(r) == parse_csv_of(content@, source_id@),
{
    match read_header(content, COMMA, true) {
        None => Err(ParseError::HeaderUnreadable),
        Some(headers) => {
            let records = read_records(content, COMMA, true, true);
            generic_facts(content, &headers, &records, source_id)
        },
    }
}

/// Every record of a generic delimited file that parses is either a fact
/// or a warning: the number of the facts is the number of the rows that
/// were not passed over.
pub proof fn lemma_every_row_accounted(
    columns: Seq<Column>,
    content: Seq<char>,
    records: Seq<(Option<u64>, Option<Seq<Seq<char>>>)>,
    metric: MetricView,
)
    requires
        generic_outcome_of(columns, content, records, metric) is Ok,
    ensures
        ({
            let o = generic_outcome_of(columns, content, records, metric)->Ok_0;
            o.facts.len() + o.warnings.len() == records.len()
        }),
    decreases records.len(),
{
    if records.len() > 0 {
        lemma_every_row_accounted(columns, content, records.drop_last(), metric);
    }
}

/// Where no record is passed over, the fact of each record names the line
/// of the text on which that record stands.
pub proof fn lemma_locations_follow_lines(
    columns: Seq<Column>,
    content: Seq<char>,
    records: Seq<(Option<u64>, Option<Seq<Seq<char>>>)>,
    metric: MetricView,
)
    requires
        generic_outcome_of(columns, content, records, metric) is Ok,
        generic_outcome_of(columns, content, records, metric)->Ok_0.warnings.len() == 0,
    ensures
        ({
            let o = generic_outcome_of(columns, content, records, metric)->Ok_0;
            &&& o.facts.len() == records.len()
            &&& forall|i: int|
                0 <= i < records.len() ==> (#[trigger] o.facts[i]).location == generic_location(
                    line_in(content, records[i].0) as nat,
                )
        }),
    decreases records.len(),
{
    if records.len() > 0 {
        lemma_every_row_accounted(columns, content, records.drop_last(), metric);
        lemma_locations_follow_lines(columns, content, records.drop_last(), metric);
    }
}

} // verus!
