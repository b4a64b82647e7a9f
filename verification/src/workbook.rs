//! The budget workbook dialect: the first sheet of a workbook, with a
//! header row whose columns are found by the words in their names.

use vstd::prelude::*;
use vstd::pervasive::unreached;
use vstd::arithmetic::div_mod::lemma_mod_multiples_vanish;
use vstd::string::{StrSliceExecFns, StringExecFns};
use crate::calendar::year_period;
use crate::generic_csv::{category_dims, result_view};
use crate::keys::{
    natural_key, natural_key_of, source_year, source_year_of, workbook_metric, workbook_metric_of,
    Metric, MetricView, FIRST_YEAR, LAST_YEAR,
};
use crate::model::{Amount, AmountView, CalendarDate, Dim, DimValue, FactView, ParsedFact};
use crate::numeral::{
    classify_numeral, decimal, numeral_class, parse_i32, push_decimal, signed_decimal,
    signed_decimal_string, signed_numeral, within, NumeralClass,
};
use crate::report::{
    OutcomeView, ParseError, ParseErrorView, ParseOutcome, RowIssue, RowWarning,
};
use crate::text::{
    chars_contain, chars_of, is_infix, lowercase, push_char, str_trim, to_lowercase, trimmed,
};

verus! {

/// A number cell: the integer that its value truncates to, and its value
/// as a decimal numeral.
#[derive(Clone, Debug, PartialEq, Eq)]
pub struct FloatCell {
    /// The value without its fraction, held to the range of `i64`; 0
    /// where the value is no number.
    pub whole: i64,
    /// The shortest decimal numeral that reads back as the value.
    pub numeral: String,
}

/// What a cell of a sheet holds.
#[derive(Clone, Debug, PartialEq, Eq)]
pub enum Cell {
    /// Nothing.
    Empty,
    /// A text.
    Text(String),
    /// An integer.
    Int(i64),
    /// A number with a fraction.
    Float(FloatCell),
    /// A truth value, a date, a duration or an error, as it is shown.
    Other(String),
}

pub enum CellView {
    Empty,
    Text(Seq<char>),
    Int(i64),
    Float { whole: i64, numeral: Seq<char> },
    Other(Seq<char>),
}

impl View for Cell {
    type V = CellView;

    open spec fn view(&self) -> CellView {
        match self {
            Cell::Empty => CellView::Empty,
            Cell::Text(s) => CellView::Text(s@),
            Cell::Int(i) => CellView::Int(*i),
            Cell::Float(f) => CellView::Float { whole: f.whole, numeral: f.numeral@ },
            Cell::Other(s) => CellView::Other(s@),
        }
    }
}

impl DeepView for Cell {
    type V = CellView;

    open spec fn deep_view(&self) -> CellView {
        self@
    }
}

/// What has been read of a workbook: the names of its sheets, and the
/// rows of the first of them.
#[derive(Clone, Debug, PartialEq, Eq)]
pub struct Workbook {
    pub sheet_names: Vec<String>,
    pub first_sheet: Vec<Vec<Cell>>,
}

/// The words that name the entity column.
pub open spec fn entity_words() -> Seq<Seq<char>> {
    seq!["partida"@, "capitulo"@, "programa"@, "servicio"@, "organismo"@]
}

/// The words that name the year column.
pub open spec fn year_words() -> Seq<Seq<char>> {
    seq!["año"@, "anio"@, "periodo"@]
}

/// The words that name the amount column.
pub open spec fn amount_words() -> Seq<Seq<char>> {
    seq!["monto"@, "presupuesto"@, "ppto_inicial"@, "ley_inicial"@, "total"@]
}

/// The words that name the category column.
pub open spec fn category_words() -> Seq<Seq<char>> {
    seq!["subtitulo"@, "item"@, "asignacion"@, "categoria"@]
}

/// The header holds one of the words, whatever the case of its letters
/// and the whitespace around it.
pub open spec fn names_one_of(header: Seq<char>, words: Seq<Seq<char>>) -> bool {
    exists|j: int| 0 <= j < words.len() && is_infix(#[trigger] words[j], lowercase(trimmed(header)))
}

/// The first column from `from` on whose header holds one of the words.
pub open spec fn first_column_from(headers: Seq<Seq<char>>, words: Seq<Seq<char>>, from: int) -> Option<
    int,
>
    decreases headers.len() - from,
{
    if from < 0 || from >= headers.len() {
        None
    } else if names_one_of(headers[from], words) {
        Some(from)
    } else {
        first_column_from(headers, words, from + 1)
    }
}

/// The first column whose header holds one of the words.
pub open spec fn first_column(headers: Seq<Seq<char>>, words: Seq<Seq<char>>) -> Option<int> {
    first_column_from(headers, words, 0)
}

/// The texts of strings.
pub open spec fn texts_of(strings: Seq<String>) -> Seq<Seq<char>> {
    strings.map_values(|s: String| s@)
}

/// The texts of string slices.
pub open spec fn words_of(strs: Seq<&str>) -> Seq<Seq<char>> {
    strs.map_values(|s: &str| s@)
}

/// Whether the header holds one of the candidates.
fn header_names(header: &str, candidates: &[&str]) -> (b: bool)
    ensures
        b == names_one_of(header@, words_of(candidates@)),
{
    let trimmed_header = str_trim(header);
    let normalized = to_lowercase(trimmed_header.as_str());
    let text = chars_of(normalized.as_str());
    let ghost words = words_of(candidates@);
    let mut j: usize = 0;
    while j < candidates.len()
        invariant
            j <= candidates.len(),
            words == words_of(candidates@),
            text@ == lowercase(trimmed(header@)),
            forall|k: int| 0 <= k < j ==> !is_infix(#[trigger] words[k], text@),
        decreases candidates.len() - j,
    {
        let word = chars_of(candidates[j]);
        assert(words[j as int] == candidates@[j as int]@);
        if chars_contain(&text, &word) {
            return true;
        }
        j = j + 1;
    }
    false
}

/// Finds the first header that holds one of the candidate words, and
/// returns its index with the header as it is written.
pub fn find_column(headers: &[String], candidates: &[&str]) -> (r: Option<(usize, String)>)
    ensures
        match r {
            Some((i, name)) => first_column(texts_of(headers@), words_of(candidates@)) == Some(
                i as int,
            ) && i < headers.len() && name@ == headers@[i as int]@,
            None => first_column(texts_of(headers@), words_of(candidates@)) is None,
        },
{
    let ghost hv = texts_of(headers@);
    let ghost words = words_of(candidates@);
    let mut i: usize = 0;
    while i < headers.len()
        invariant
            i <= headers.len(),
            hv == texts_of(headers@),
            words == words_of(candidates@),
            first_column(hv, words) == first_column_from(hv, words, i as int),
        decreases headers.len() - i,
    {
        assert(hv[i as int] == headers@[i as int]@);
        if header_names(headers[i].as_str(), candidates) {
            return Some((i, headers[i].clone()));
        }
        i = i + 1;
    }
    None
}

/// The text of a cell of the header row: a text without the whitespace
/// around it, nothing for an empty cell, anything else as it is shown.
pub open spec fn header_text(cell: CellView) -> Seq<char> {
    match cell {
        CellView::Empty => Seq::empty(),
        CellView::Text(s) => trimmed(s),
        CellView::Int(i) => signed_decimal(i as int),
        CellView::Float { numeral, .. } => numeral,
        CellView::Other(shown) => shown,
    }
}

/// The headers that a row of cells gives.
pub open spec fn header_texts(row: Seq<CellView>) -> Seq<Seq<char>> {
    row.map_values(|cell: CellView| header_text(cell))
}

/// The header that a cell gives.
pub fn header_of(cell: &Cell) -> (h: String)
    ensures
        h@ == header_text(cell@),
{
    match cell {
        Cell::Empty => String::new(),
        Cell::Text(s) => str_trim(s.as_str()),
        Cell::Int(i) => signed_decimal_string(*i),
        Cell::Float(f) => f.numeral.clone(),
        Cell::Other(shown) => shown.clone(),
    }
}

/// The headers that a row of cells gives.
pub fn headers_of(row: &Vec<Cell>) -> (headers: Vec<String>)
    ensures
        texts_of(headers@) == header_texts(row.deep_view()),
{
    let mut headers: Vec<String> = Vec::new();
    let mut i: usize = 0;
    while i < row.len()
        invariant
            i <= row.len(),
            texts_of(headers@) == header_texts(row.deep_view().take(i as int)),
        decreases row.len() - i,
    {
        let ghost before = headers@;
        let h = header_of(&row[i]);
        headers.push(h);
        proof {
            assert(row.deep_view().take(i + 1) == row.deep_view().take(i as int).push(row[i as int]@));
            assert(texts_of(headers@) == texts_of(before).push(h@));
        }
        i = i + 1;
    }
    assert(row.deep_view().take(row.len() as int) == row.deep_view());
    headers
}

/// Where the columns of a sheet stand.
#[derive(Clone, Debug, PartialEq, Eq)]
pub struct DipresColumnMapping {
    pub entity_col: Option<usize>,
    pub entity_name: String,
    pub year_col: Option<usize>,
    pub year_name: String,
    pub amount_col: Option<usize>,
    pub amount_name: String,
    pub category_col: Option<usize>,
    pub category_name: String,
}

/// The index of a column as a machine integer.
pub open spec fn column_index(found: Option<int>) -> Option<usize> {
    match found {
        Some(i) => Some(i as usize),
        None => None,
    }
}

impl DipresColumnMapping {
    /// The mapping is the one that the headers give: each column is the
    /// first whose header holds one of its words, with that header as its
    /// name, or absent with an empty name.
    pub open spec fn is_mapping_of(&self, headers: Seq<Seq<char>>) -> bool {
        &&& self.entity_col == column_index(first_column(headers, entity_words()))
        &&& self.year_col == column_index(first_column(headers, year_words()))
        &&& self.amount_col == column_index(first_column(headers, amount_words()))
        &&& self.category_col == column_index(first_column(headers, category_words()))
        &&& self.entity_name@ == column_name(headers, first_column(headers, entity_words()))
        &&& self.year_name@ == column_name(headers, first_column(headers, year_words()))
        &&& self.amount_name@ == column_name(headers, first_column(headers, amount_words()))
        &&& self.category_name@ == column_name(headers, first_column(headers, category_words()))
    }
}

/// The header of a column that was found, nothing for one that was not.
pub open spec fn column_name(headers: Seq<Seq<char>>, found: Option<int>) -> Seq<char> {
    match found {
        Some(i) => headers[i],
        None => Seq::empty(),
    }
}

fn split_found(found: Option<(usize, String)>) -> (r: (Option<usize>, String))
    ensures
        match found {
            Some((i, name)) => r.0 == Some(i) && r.1@ == name@,
            None => r.0 is None && r.1@ == Seq::<char>::empty(),
        },
{
    match found {
        Some((i, name)) => (Some(i), name),
        None => (None, String::new()),
    }
}

/// Finds the columns of a sheet by its headers.
pub fn map_columns(headers: &Vec<String>) -> (mapping: DipresColumnMapping)
    ensures
        mapping.is_mapping_of(texts_of(headers@)),
{
    let entity_words: Vec<&str> = vec!["partida", "capitulo", "programa", "servicio", "organismo"];
    let year_words: Vec<&str> = vec!["año", "anio", "periodo"];
    let amount_words: Vec<&str> = vec![
        "monto",
        "presupuesto",
        "ppto_inicial",
        "ley_inicial",
        "total",
    ];
    let category_words: Vec<&str> = vec!["subtitulo", "item", "asignacion", "categoria"];
    assert(words_of(entity_words@) == self::entity_words());
    assert(words_of(year_words@) == self::year_words());
    assert(words_of(amount_words@) == self::amount_words());
    assert(words_of(category_words@) == self::category_words());
    let (entity_col, entity_name) = split_found(
        find_column(headers.as_slice(), entity_words.as_slice()),
    );
    let (year_col, year_name) = split_found(find_column(headers.as_slice(), year_words.as_slice()));
    let (amount_col, amount_name) = split_found(
        find_column(headers.as_slice(), amount_words.as_slice()),
    );
    let (category_col, category_name) = split_found(
        find_column(headers.as_slice(), category_words.as_slice()),
    );
    DipresColumnMapping {
        entity_col,
        entity_name,
        year_col,
        year_name,
        amount_col,
        amount_name,
        category_col,
        category_name,
    }
}

/// The columns that the rows of a sheet are read by.
#[derive(Clone, Copy, Debug, PartialEq, Eq, Structural)]
pub struct SheetColumns {
    pub entity: usize,
    pub amount: usize,
    pub year: Option<usize>,
    pub category: Option<usize>,
    /// The year of every row, where no column gives it.
    pub fixed_year: Option<i32>,
}

/// The columns that the headers and the source identifier give. The
/// entity and the amount need a column each; the year needs a column or a
/// year in the source identifier.
pub open spec fn sheet_columns_of(headers: Seq<Seq<char>>, source_id: Seq<char>) -> Result<
    SheetColumns,
    ParseErrorView,
> {
    let entity = first_column(headers, entity_words());
    let amount = first_column(headers, amount_words());
    let year = first_column(headers, year_words());
    let category = first_column(headers, category_words());
    if entity is None {
        Err(ParseErrorView::EntityColumnMissing)
    } else if amount is None {
        Err(ParseErrorView::AmountColumnMissing)
    } else if year is None && source_year_of(source_id) is None {
        Err(ParseErrorView::YearUndetermined)
    } else {
        Ok(
            SheetColumns {
                entity: entity->0 as usize,
                amount: amount->0 as usize,
                year: column_index(year),
                category: column_index(category),
                fixed_year: if year is None {
                    source_year_of(source_id)
                } else {
                    None
                },
            },
        )
    }
}

/// The view of the columns or of the reason why there are none.
pub open spec fn columns_view(r: Result<SheetColumns, ParseError>) -> Result<
    SheetColumns,
    ParseErrorView,
> {
    match r {
        Ok(c) => Ok(c),
        Err(e) => Err(e@),
    }
}

/// Chooses the columns that the rows are read by.
pub fn choose_columns(mapping: &DipresColumnMapping, source_id: &str) -> (r: Result<
    SheetColumns,
    ParseError,
>)
    ensures
        forall|headers: Seq<Seq<char>>| #[trigger]
            mapping.is_mapping_of(headers) ==> columns_view(r) == sheet_columns_of(
                headers,
                source_id@,
            ),
{
    let entity = match mapping.entity_col {
        Some(c) => c,
        None => {
            return Err(ParseError::EntityColumnMissing);
        },
    };
    let amount = match mapping.amount_col {
        Some(c) => c,
        None => {
            return Err(ParseError::AmountColumnMissing);
        },
    };
    let fixed_year = if mapping.year_col.is_none() {
        source_year(source_id)
    } else {
        None
    };
    if mapping.year_col.is_none() && fixed_year.is_none() {
        return Err(ParseError::YearUndetermined);
    }
    Ok(
        SheetColumns {
            entity,
            amount,
            year: mapping.year_col,
            category: mapping.category_col,
            fixed_year,
        },
    )
}

/// The cell of a row at a column, if the row is that wide.
pub open spec fn cell_at(row: Seq<CellView>, column: int) -> Option<CellView> {
    if 0 <= column < row.len() {
        Some(row[column])
    } else {
        None
    }
}

/// The entity that a cell names: its text without the whitespace around
/// it, where any is left.
pub open spec fn cell_entity(cell: Option<CellView>) -> Option<Seq<char>> {
    match cell {
        Some(CellView::Text(s)) => if trimmed(s).len() > 0 {
            Some(trimmed(s))
        } else {
            None
        },
        _ => None,
    }
}

/// `x` held to the range of `i32`.
pub open spec fn clamp_i32(x: int) -> i32 {
    if x < i32::MIN {
        i32::MIN
    } else if x > i32::MAX {
        i32::MAX
    } else {
        x as i32
    }
}

/// The integer of 32 bits that has the low 32 bits of `x`.
pub open spec fn wrap_i32(x: int) -> i32 {
    ((x + 0x8000_0000) % 0x1_0000_0000 - 0x8000_0000) as i32
}

/// The year that a cell of the year column states: a number without its
/// fraction, an integer by its low 32 bits, a text as the decimal integer
/// that it is; 0 for anything else.
pub open spec fn cell_year(cell: Option<CellView>) -> i32 {
    match cell {
        Some(CellView::Float { whole, .. }) => clamp_i32(whole as int),
        Some(CellView::Int(i)) => wrap_i32(i as int),
        Some(CellView::Text(s)) => match within(
            signed_numeral(trimmed(s), 10),
            i32::MIN as int,
            i32::MAX as int,
        ) {
            Some(y) => y as i32,
            None => 0,
        },
        _ => 0,
    }
}

/// The year of a row: what its year column states, or the fixed year
/// where there is no such column.
pub open spec fn row_year(columns: SheetColumns, row: Seq<CellView>) -> i32 {
    match columns.year {
        Some(c) => cell_year(cell_at(row, c as int)),
        None => match columns.fixed_year {
            Some(y) => y,
            None => 0,
        },
    }
}

/// `s` without the separators of thousands and of decimals.
pub open spec fn without_separators(s: Seq<char>) -> Seq<char> {
    s.filter(|c: char| c != ',' && c != '.')
}

/// The amount that a cell states, or why it states none. A text is read
/// without its separators; one that is no number counts as zero.
pub open spec fn cell_amount(cell: Option<CellView>) -> Result<AmountView, RowIssue> {
    match cell {
        Some(CellView::Float { numeral, .. }) => match numeral_class(numeral) {
            NumeralClass::Invalid => Err(RowIssue::NoAmount),
            NumeralClass::Zero => Err(RowIssue::ZeroAmount),
            NumeralClass::NonZero => Ok(AmountView::Numeral(numeral)),
        },
        Some(CellView::Int(i)) => if i == 0 {
            Err(RowIssue::ZeroAmount)
        } else {
            Ok(AmountView::Units(i as int))
        },
        Some(CellView::Text(s)) => if numeral_class(without_separators(trimmed(s)))
            == NumeralClass::NonZero {
            Ok(AmountView::Numeral(without_separators(trimmed(s))))
        } else {
            Err(RowIssue::ZeroAmount)
        },
        _ => Err(RowIssue::NoAmount),
    }
}

/// The category that a row states, if any.
pub open spec fn row_category(columns: SheetColumns, row: Seq<CellView>) -> Option<Seq<char>> {
    match columns.category {
        Some(c) => cell_entity(cell_at(row, c as int)),
        None => None,
    }
}

/// The locator of a row of a sheet.
pub open spec fn sheet_location(sheet: Seq<char>, number: nat) -> Seq<char> {
    "xls:sheet='"@ + sheet + "':row="@ + decimal(number)
}

/// The fact that a row states, or why it is passed over: for want of an
/// entity, for a year outside 2000 to 2100, or for want of an amount, in
/// that order.
pub open spec fn sheet_row_of(
    columns: SheetColumns,
    row: Seq<CellView>,
    number: nat,
    sheet: Seq<char>,
    metric: MetricView,
) -> Result<FactView, RowIssue> {
    match cell_entity(cell_at(row, columns.entity as int)) {
        None => Err(RowIssue::NoEntity),
        Some(entity) => if row_year(columns, row) < FIRST_YEAR || row_year(columns, row)
            > LAST_YEAR {
            Err(RowIssue::YearOutOfRange)
        } else {
            match cell_amount(cell_at(row, columns.amount as int)) {
                Err(issue) => Err(issue),
                Ok(amount) => Ok(
                    FactView {
                        entity_key: natural_key_of(entity),
                        entity_name: entity,
                        entity_type: "organismo"@,
                        metric_key: metric.key,
                        metric_name: metric.name,
                        metric_unit: metric.unit,
                        period_start: CalendarDate {
                            year: row_year(columns, row),
                            month: 1,
                            day: 1,
                        },
                        period_end: CalendarDate {
                            year: row_year(columns, row),
                            month: 12,
                            day: 31,
                        },
                        value: amount,
                        location: sheet_location(sheet, number),
                        dims: category_dims(row_category(columns, row)),
                    },
                ),
            }
        },
    }
}

/// The facts and warnings of the rows below the header, in order. The row
/// at index `k` has the number `k + 1`.
pub open spec fn sheet_outcome_of(
    columns: SheetColumns,
    rows: Seq<Seq<CellView>>,
    sheet: Seq<char>,
    metric: MetricView,
) -> OutcomeView
    decreases rows.len(),
{
    if rows.len() <= 1 {
        OutcomeView { facts: seq![], warnings: seq![] }
    } else {
        let rest = sheet_outcome_of(columns, rows.drop_last(), sheet, metric);
        match sheet_row_of(columns, rows.last(), rows.len(), sheet, metric) {
            Ok(fact) => OutcomeView { facts: rest.facts.push(fact), warnings: rest.warnings },
            Err(issue) => OutcomeView {
                facts: rest.facts,
                warnings: rest.warnings.push(RowWarning { line: rows.len() as u128, issue }),
            },
        }
    }
}

pub struct WorkbookView {
    pub sheet_names: Seq<Seq<char>>,
    pub first_sheet: Seq<Seq<CellView>>,
}

impl View for Workbook {
    type V = WorkbookView;

    open spec fn view(&self) -> WorkbookView {
        WorkbookView {
            sheet_names: texts_of(self.sheet_names@),
            first_sheet: self.first_sheet.deep_view(),
        }
    }
}

/// The outcome of a budget workbook with the given source identifier. A
/// workbook without a sheet, a first sheet without a row below its header,
/// columns that cannot be found, and rows none of which states a fact are
/// each an error.
pub open spec fn parse_dipres_xls_of(workbook: WorkbookView, source_id: Seq<char>) -> Result<
    OutcomeView,
    ParseErrorView,
> {
    if workbook.sheet_names.len() == 0 {
        Err(ParseErrorView::NoSheets)
    } else if workbook.first_sheet.len() < 2 {
        Err(ParseErrorView::TooFewRows)
    } else {
        match sheet_columns_of(header_texts(workbook.first_sheet[0]), source_id) {
            Err(e) => Err(e),
            Ok(columns) => {
                let outcome = sheet_outcome_of(
                    columns,
                    workbook.first_sheet,
                    workbook.sheet_names[0],
                    workbook_metric_of(source_id),
                );
                if outcome.facts.len() == 0 {
                    Err(ParseErrorView::NoFacts)
                } else {
                    Ok(outcome)
                }
            },
        }
    }
}

proof fn lemma_without_separators_push(s: Seq<char>, c: char)
    ensures
        without_separators(s.push(c)) == if c != ',' && c != '.' {
            without_separators(s).push(c)
        } else {
            without_separators(s)
        },
{
    let p = |c: char| c != ',' && c != '.';
    let t = s.push(c);
    assert(t.drop_last() == s);
    reveal(Seq::filter);
    assert(t.filter(p) == if p(t.last()) {
        t.drop_last().filter(p).push(t.last())
    } else {
        t.drop_last().filter(p)
    });
}

/// The text without commas and points.
pub fn strip_separators(text: &str) -> (r: String)
    ensures
        r@ == without_separators(text@),
{
    let v = chars_of(text);
    let mut r = String::new();
    let mut i: usize = 0;
    proof {
        reveal(Seq::filter);
        assert(without_separators(v@.take(0)) == Seq::<char>::empty());
    }
    while i < v.len()
        invariant
            i <= v.len(),
            r@ == without_separators(v@.take(i as int)),
        decreases v.len() - i,
    {
        let c = v[i];
        proof {
            lemma_without_separators_push(v@.take(i as int), c);
            assert(v@.take(i + 1) == v@.take(i as int).push(c));
        }
        if c != ',' && c != '.' {
            push_char(&mut r, c);
        }
        i = i + 1;
    }
    assert(v@.take(v.len() as int) == v@);
    r
}

/// The view of a cell that may be missing.
pub open spec fn cell_view(cell: Option<&Cell>) -> Option<CellView> {
    match cell {
        Some(c) => Some(c@),
        None => None,
    }
}

/// The cell of a row at a column.
pub fn get_cell(row: &Vec<Cell>, column: usize) -> (cell: Option<&Cell>)
    ensures
        cell_view(cell) == cell_at(row.deep_view(), column as int),
{
    if column < row.len() {
        Some(&row[column])
    } else {
        None
    }
}

/// The entity that a cell names.
pub fn read_entity(cell: Option<&Cell>) -> (r: Option<String>)
    ensures
        r.deep_view() == cell_entity(cell_view(cell)),
{
    match cell {
        Some(Cell::Text(s)) => {
            let t = str_trim(s.as_str());
            if t.as_str().unicode_len() > 0 {
                Some(t)
            } else {
                None
            }
        },
        _ => None,
    }
}

/// The low 32 bits of an integer, as an integer of 32 bits.
pub fn low_32_bits(i: i64) -> (r: i32)
    ensures
        r == wrap_i32(i as int),
{
    let shifted: i128 = i as i128 + 0x8000_0000_0000_0000 + 0x8000_0000;
    proof {
        lemma_mod_multiples_vanish(0x8000_0000, i as int + 0x8000_0000, 0x1_0000_0000);
        assert(0x1_0000_0000 * 0x8000_0000 == 0x8000_0000_0000_0000int);
    }
    let low: i128 = shifted % 0x1_0000_0000;
    (low - 0x8000_0000) as i32
}

/// The year that a cell of the year column states.
pub fn read_year(cell: Option<&Cell>) -> (y: i32)
    ensures
        y == cell_year(cell_view(cell)),
{
    match cell {
        Some(Cell::Float(f)) => {
            if f.whole < i32::MIN as i64 {
                i32::MIN
            } else if f.whole > i32::MAX as i64 {
                i32::MAX
            } else {
                f.whole as i32
            }
        },
        Some(Cell::Int(i)) => low_32_bits(*i),
        Some(Cell::Text(s)) => {
            let t = str_trim(s.as_str());
            match parse_i32(t.as_str()) {
                Some(y) => y,
                None => 0,
            }
        },
        _ => 0,
    }
}

/// The view of an amount or of the reason why there is none.
pub open spec fn amount_view(r: Result<Amount, RowIssue>) -> Result<AmountView, RowIssue> {
    match r {
        Ok(a) => Ok(a@),
        Err(issue) => Err(issue),
    }
}

/// The amount that a cell states.
pub fn read_cell_amount(cell: Option<&Cell>) -> (r: Result<Amount, RowIssue>)
    ensures
        amount_view(r) == cell_amount(cell_view(cell)),
{
    match cell {
        Some(Cell::Float(f)) => {
            match classify_numeral(f.numeral.as_str()) {
                NumeralClass::Invalid => Err(RowIssue::NoAmount),
                NumeralClass::Zero => Err(RowIssue::ZeroAmount),
                NumeralClass::NonZero => Ok(Amount::Numeral(f.numeral.clone())),
            }
        },
        Some(Cell::Int(i)) => {
            if *i == 0 {
                Err(RowIssue::ZeroAmount)
            } else {
                Ok(Amount::Units(*i))
            }
        },
        Some(Cell::Text(s)) => {
            let t = str_trim(s.as_str());
            let cleaned = strip_separators(t.as_str());
            match classify_numeral(cleaned.as_str()) {
                NumeralClass::NonZero => Ok(Amount::Numeral(cleaned)),
                _ => Err(RowIssue::ZeroAmount),
            }
        },
        _ => Err(RowIssue::NoAmount),
    }
}

/// The view of a fact or of the reason why there is none.
pub open spec fn fact_view(r: Result<ParsedFact, RowIssue>) -> Result<FactView, RowIssue> {
    match r {
        Ok(f) => Ok(f@),
        Err(issue) => Err(issue),
    }
}

/// Reads one row of a sheet.
pub fn read_sheet_row(
    columns: &SheetColumns,
    row: &Vec<Cell>,
    number: u128,
    sheet: &str,
    metric: &Metric,
) -> (r: Result<ParsedFact, RowIssue>)
    ensures
        fact_view(r) == sheet_row_of(*columns, row.deep_view(), number as nat, sheet@, metric@),
{
    let entity = match read_entity(get_cell(row, columns.entity)) {
        Some(e) => e,
        None => {
            return Err(RowIssue::NoEntity);
        },
    };
    let year = match columns.year {
        Some(c) => read_year(get_cell(row, c)),
        None => match columns.fixed_year {
            Some(y) => y,
            None => 0,
        },
    };
    if year < FIRST_YEAR || year > LAST_YEAR {
        return Err(RowIssue::YearOutOfRange);
    }
    let amount = match read_cell_amount(get_cell(row, columns.amount)) {
        Ok(a) => a,
        Err(issue) => {
            return Err(issue);
        },
    };
    let category = match columns.category {
        Some(c) => read_entity(get_cell(row, c)),
        None => None,
    };
    let period = match year_period(year) {
        Some(p) => p,
        None => unreached(),
    };
    let entity_key = natural_key(entity.as_str());
    let mut location = "xls:sheet='".to_owned();
    location.append(sheet);
    location.append("':row=");
    push_decimal(&mut location, number);
    let mut dims: Vec<Dim> = Vec::new();
    match category {
        Some(c) => {
            dims.push(Dim { name: "category".to_owned(), value: DimValue::Text(c) });
            assert(dims.deep_view() == category_dims(category.deep_view()));
        },
        None => {
            assert(dims.deep_view() == category_dims(category.deep_view()));
        },
    }
    Ok(
        ParsedFact {
            entity_key,
            entity_name: entity,
            entity_type: "organismo".to_owned(),
            metric_key: metric.key.clone(),
            metric_name: metric.name.clone(),
            metric_unit: metric.unit.clone(),
            period_start: period.0,
            period_end: period.1,
            value: amount,
            location,
            dims,
        },
    )
}

/// Parses the first sheet of a budget workbook. Every row below the
/// header that names an entity, a year from 2000 to 2100 and an amount
/// other than zero yields one fact candidate, located by sheet and row;
/// the other rows are reported and passed over.
pub fn parse_dipres_xls(workbook: &Workbook, source_id: &str) -> (r: Result<
    ParseOutcome,
    ParseError,
>)
    ensures
        result_view(r) == parse_dipres_xls_of(workbook@, source_id@),
{
    if workbook.sheet_names.len() == 0 {
        return Err(ParseError::NoSheets);
    }
    let rows = &workbook.first_sheet;
    if rows.len() < 2 {
        return Err(ParseError::TooFewRows);
    }
    let ghost rv = rows.deep_view();
    let headers = headers_of(&rows[0]);
    let mapping = map_columns(&headers);
    let columns = match choose_columns(&mapping, source_id) {
        Ok(c) => c,
        Err(e) => {
            return Err(e);
        },
    };
    let metric = workbook_metric(source_id);
    let sheet = workbook.sheet_names[0].as_str();
    let mut facts: Vec<ParsedFact> = Vec::new();
    let mut warnings: Vec<RowWarning> = Vec::new();
    let mut k: usize = 1;
    assert(facts.deep_view() == Seq::<FactView>::empty());
    while k < rows.len()
        invariant
            1 <= k <= rows.len(),
            rv == rows.deep_view(),
            sheet_outcome_of(columns, rv.take(k as int), sheet@, metric@) == (OutcomeView {
                facts: facts.deep_view(),
                warnings: warnings@,
            }),
        decreases rows.len() - k,
    {
        let number: u128 = k as u128 + 1;
        let ghost now = rv.take(k + 1);
        let ghost old_facts = facts.deep_view();
        proof {
            assert(now.drop_last() == rv.take(k as int));
            assert(now.last() == rows[k as int].deep_view());
        }
        match read_sheet_row(&columns, &rows[k], number, sheet, &metric) {
            Ok(fact) => {
                facts.push(fact);
                assert(facts.deep_view() == old_facts.push(fact@));
            },
            Err(issue) => {
                warnings.push(RowWarning { line: number, issue });
            },
        }
        k = k + 1;
    }
    assert(rv.take(rows.len() as int) == rv);
    if facts.len() == 0 {
        return Err(ParseError::NoFacts);
    }
    Ok(ParseOutcome { facts, warnings })
}

} // verus!
