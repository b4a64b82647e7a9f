//! The budget-law export: a semicolon-delimited dialect with nine fixed
//! columns, whose rows are summed by organizational code.

use vstd::prelude::*;
use vstd::pervasive::unreached;
use crate::calendar::year_period;
use crate::delimited::{
    delimited_header, delimited_records, line_in, read_header, read_records, taken_view,
    LineCursor, SEMICOLON,
};
use vstd::utf8::encode_utf8;
use crate::generic_csv::result_view;
use crate::keys::{budget_law_metric, budget_law_metric_view, source_year, source_year_of};
use crate::model::{
    Amount, AmountView, CalendarDate, Dim, DimValue, DimValueView, DimView, FactView, ParsedFact,
};
use crate::numeral::{decimal, parse_i64, push_decimal, signed_numeral, within};
use crate::order::{
    lemma_text_lt_irreflexive, lemma_text_lt_total, lemma_text_lt_transitive, str_lt, text_lt,
};
use crate::report::{
    copy_texts, ErrorKind, OutcomeView, ParseError, ParseErrorView, ParseOutcome, RowIssue, RowWarning,
};
use crate::text::{str_eq, str_trim, trimmed};
use vstd::string::{StrSliceExecFns, StringExecFns};

verus! {

/// The number of columns of the dialect.
pub const LEY_COLUMNS: usize = 9;

/// The headers of the dialect, in order.
pub open spec fn ley_headers() -> Seq<Seq<char>> {
    seq![
        "Partida"@,
        "Capitulo"@,
        "Programa"@,
        "Subtitulo"@,
        "Ítem"@,
        "Asignacion"@,
        "Denominacion"@,
        "Monto Pesos"@,
        "Monto Dolar"@,
    ]
}

/// The first index from `from` on at which `found` differs from
/// `expected`.
pub open spec fn mismatch_from(found: Seq<Seq<char>>, expected: Seq<Seq<char>>, from: int) -> Option<
    int,
>
    decreases expected.len() - from,
{
    if from < 0 || from >= expected.len() {
        None
    } else if found[from] != expected[from] {
        Some(from)
    } else {
        mismatch_from(found, expected, from + 1)
    }
}

/// What is wrong with a header, if anything: the count of its columns
/// first, then the first column that is not the expected one.
pub open spec fn header_fault(headers: Seq<Seq<char>>) -> Option<ParseErrorView> {
    if headers.len() != LEY_COLUMNS {
        Some(ParseErrorView::ColumnCountMismatch { expected: LEY_COLUMNS, headers })
    } else {
        match mismatch_from(headers, ley_headers(), 0) {
            Some(i) => Some(
                ParseErrorView::ColumnNameMismatch {
                    index: i as usize,
                    expected: ley_headers()[i],
                    found: headers[i],
                },
            ),
            None => None,
        }
    }
}

/// A header without fault is the expected one.
pub proof fn lemma_faultless_header(headers: Seq<Seq<char>>)
    requires
        header_fault(headers) is None,
    ensures
        headers == ley_headers(),
{
    let e = ley_headers();
    assert forall|i: int| 0 <= i < 9 implies headers[i] == e[i] by {
        lemma_no_mismatch(headers, e, 0, i);
    }
    assert(headers =~= e);
}

proof fn lemma_no_mismatch(found: Seq<Seq<char>>, expected: Seq<Seq<char>>, from: int, i: int)
    requires
        0 <= from <= i < expected.len(),
        mismatch_from(found, expected, from) is None,
    ensures
        found[i] == expected[i],
    decreases expected.len() - from,
{
    if from < i {
        lemma_no_mismatch(found, expected, from + 1, i);
    }
}

/// The expected header of the column at `i`.
fn expected_header(i: usize) -> (h: &'static str)
    requires
        i < LEY_COLUMNS,
    ensures
        h@ == ley_headers()[i as int],
{
    if i == 0 {
        "Partida"
    } else if i == 1 {
        "Capitulo"
    } else if i == 2 {
        "Programa"
    } else if i == 3 {
        "Subtitulo"
    } else if i == 4 {
        "Ítem"
    } else if i == 5 {
        "Asignacion"
    } else if i == 6 {
        "Denominacion"
    } else if i == 7 {
        "Monto Pesos"
    } else {
        "Monto Dolar"
    }
}

/// Holds a header against the nine expected columns.
pub fn check_header(headers: &Vec<String>) -> (r: Option<ParseError>)
    ensures
        r.deep_view() == header_fault(headers.deep_view()),
{
    if headers.len() != LEY_COLUMNS {
        return Some(
            ParseError::ColumnCountMismatch { expected: LEY_COLUMNS, headers: copy_texts(headers) },
        );
    }
    let ghost hv = headers.deep_view();
    let mut i: usize = 0;
    while i < LEY_COLUMNS
        invariant
            i <= LEY_COLUMNS == headers.len(),
            hv == headers.deep_view(),
            mismatch_from(hv, ley_headers(), 0) == mismatch_from(hv, ley_headers(), i as int),
        decreases LEY_COLUMNS - i,
    {
        assert(hv[i as int] == headers[i as int]@);
        if !str_eq(headers[i].as_str(), expected_header(i)) {
            return Some(
                ParseError::ColumnNameMismatch {
                    index: i,
                    expected: expected_header(i).to_owned(),
                    found: headers[i].clone(),
                },
            );
        }
        i = i + 1;
    }
    None
}

/// `s` without a byte-order mark at its start.
pub open spec fn without_bom(s: Seq<char>) -> Seq<char> {
    if s.len() > 0 && s[0] == '\u{feff}' {
        s.drop_first()
    } else {
        s
    }
}

/// Strips a leading byte-order mark.
pub fn strip_bom(content: &str) -> (r: &str)
    ensures
        r@ == without_bom(content@),
{
    let n = content.unicode_len();
    if n > 0 && content.get_char(0) == '\u{feff}' {
        content.substring_char(1, n)
    } else {
        content
    }
}

/// One row of the export.
#[derive(Clone, Debug, PartialEq, Eq)]
pub struct DipresLeyRow {
    pub partida: String,
    pub capitulo: String,
    pub programa: String,
    pub subtitulo: String,
    pub item: String,
    pub asignacion: String,
    pub denominacion: String,
    pub monto_pesos: i64,
    pub monto_dolar: i64,
    pub line_num: u128,
}

pub struct LeyRowView {
    pub partida: Seq<char>,
    pub capitulo: Seq<char>,
    pub programa: Seq<char>,
    pub subtitulo: Seq<char>,
    pub item: Seq<char>,
    pub asignacion: Seq<char>,
    pub denominacion: Seq<char>,
    pub monto_pesos: i64,
    pub monto_dolar: i64,
    pub line_num: u128,
}

impl View for DipresLeyRow {
    type V = LeyRowView;

    open spec fn view(&self) -> LeyRowView {
        LeyRowView {
            partida: self.partida@,
            capitulo: self.capitulo@,
            programa: self.programa@,
            subtitulo: self.subtitulo@,
            item: self.item@,
            asignacion: self.asignacion@,
            denominacion: self.denominacion@,
            monto_pesos: self.monto_pesos,
            monto_dolar: self.monto_dolar,
            line_num: self.line_num,
        }
    }
}

impl DeepView for DipresLeyRow {
    type V = LeyRowView;

    open spec fn deep_view(&self) -> LeyRowView {
        self@
    }
}

/// The primary amount that a field states: its decimal integer, without
/// the whitespace around it. A blank field states none.
pub open spec fn primary_amount(field: Seq<char>) -> Option<i64> {
    within(signed_numeral(trimmed(field), 10), i64::MIN as int, i64::MAX as int)
}

/// The secondary amount that a field states: its decimal integer, and
/// zero where it is blank or no integer.
pub open spec fn secondary_amount(field: Seq<char>) -> i64 {
    match primary_amount(field) {
        Some(v) => v,
        None => 0,
    }
}

/// Reads the primary amount of a field.
pub fn read_amount(field: &str) -> (r: Option<i64>)
    ensures
        r == primary_amount(field@),
{
    let cleaned = str_trim(field);
    parse_i64(cleaned.as_str())
}

/// The row that nine fields make at `line`.
pub open spec fn ley_row_of(fields: Seq<Seq<char>>, line: u128) -> LeyRowView {
    LeyRowView {
        partida: trimmed(fields[0]),
        capitulo: trimmed(fields[1]),
        programa: trimmed(fields[2]),
        subtitulo: trimmed(fields[3]),
        item: trimmed(fields[4]),
        asignacion: trimmed(fields[5]),
        denominacion: trimmed(fields[6]),
        monto_pesos: primary_amount(fields[7])->0,
        monto_dolar: secondary_amount(fields[8]),
        line_num: line,
    }
}

/// What is to be reported of a record, if anything: that it cannot be
/// read, that it has not nine fields, or that its primary amount is no
/// integer.
pub open spec fn record_issue(record: Option<Seq<Seq<char>>>) -> Option<RowIssue> {
    match record {
        None => Some(RowIssue::Unreadable),
        Some(fields) => if fields.len() != LEY_COLUMNS {
            Some(RowIssue::WrongFieldCount)
        } else if primary_amount(fields[7]) is None {
            Some(RowIssue::InvalidAmount)
        } else {
            None
        },
    }
}

/// The row of a record, if it yields one. A record of which something is
/// to be reported yields none: it is left out of every sum.
pub open spec fn record_row(record: Option<Seq<Seq<char>>>, line: u128) -> Option<LeyRowView> {
    match record {
        Some(fields) => if record_issue(record) is None {
            Some(ley_row_of(fields, line))
        } else {
            None
        },
        None => None,
    }
}

/// The rows that the records of a text yield, in order, each at the line
/// of the text on which its record stands.
pub open spec fn ley_rows_of(
    content: Seq<char>,
    records: Seq<(Option<u64>, Option<Seq<Seq<char>>>)>,
) -> Seq<LeyRowView>
    decreases records.len(),
{
    if records.len() == 0 {
        seq![]
    } else {
        let rest = ley_rows_of(content, records.drop_last());
        match record_row(records.last().1, line_in(content, records.last().0)) {
            Some(row) => rest.push(row),
            None => rest,
        }
    }
}

/// The warnings that the records of a text give rise to, in order.
pub open spec fn ley_warnings_of(
    content: Seq<char>,
    records: Seq<(Option<u64>, Option<Seq<Seq<char>>>)>,
) -> Seq<RowWarning>
    decreases records.len(),
{
    if records.len() == 0 {
        seq![]
    } else {
        let rest = ley_warnings_of(content, records.drop_last());
        match record_issue(records.last().1) {
            Some(issue) => rest.push(
                RowWarning { line: line_in(content, records.last().0), issue },
            ),
            None => rest,
        }
    }
}

/// Builds the row of nine fields, if their primary amount is an integer.
fn read_row(fields: &Vec<String>, line: u128) -> (r: Option<DipresLeyRow>)
    requires
        fields.len() == LEY_COLUMNS,
    ensures
        r.deep_view() == record_row(Some(fields.deep_view()), line),
{
    let ghost fv = fields.deep_view();
    assert(fv[0] == fields[0]@ && fv[1] == fields[1]@ && fv[2] == fields[2]@);
    assert(fv[3] == fields[3]@ && fv[4] == fields[4]@ && fv[5] == fields[5]@);
    assert(fv[6] == fields[6]@ && fv[7] == fields[7]@ && fv[8] == fields[8]@);
    let pesos = match read_amount(fields[7].as_str()) {
        Some(v) => v,
        None => {
            return None;
        },
    };
    let dolar = match read_amount(fields[8].as_str()) {
        Some(v) => v,
        None => 0,
    };
    Some(
        DipresLeyRow {
            partida: str_trim(fields[0].as_str()),
            capitulo: str_trim(fields[1].as_str()),
            programa: str_trim(fields[2].as_str()),
            subtitulo: str_trim(fields[3].as_str()),
            item: str_trim(fields[4].as_str()),
            asignacion: str_trim(fields[5].as_str()),
            denominacion: str_trim(fields[6].as_str()),
            monto_pesos: pesos,
            monto_dolar: dolar,
            line_num: line,
        },
    )
}

/// Reads the records of a text into rows, and lists what is to be
/// reported of them. `content` is the text that the records were taken
/// from: it gives each record its line.
pub fn read_rows(content: &str, records: &Vec<(Option<u64>, Option<Vec<String>>)>) -> (r: (
    Vec<DipresLeyRow>,
    Vec<RowWarning>,
))
    ensures
        r.0.deep_view() == ley_rows_of(content@, taken_view(records@)),
        r.1@ == ley_warnings_of(content@, taken_view(records@)),
{
    let ghost rv = taken_view(records@);
    let mut cursor = LineCursor::new();
    let mut rows: Vec<DipresLeyRow> = Vec::new();
    let mut warnings: Vec<RowWarning> = Vec::new();
    let mut k: usize = 0;
    assert(rows.deep_view() == Seq::<LeyRowView>::empty());
    while k < records.len()
        invariant
            k <= records.len(),
            rv == taken_view(records@),
            cursor.counts(encode_utf8(content@)),
            rows.deep_view() == ley_rows_of(content@, rv.take(k as int)),
            warnings@ == ley_warnings_of(content@, rv.take(k as int)),
        decreases records.len() - k,
    {
        let line: u128 = cursor.line_of(content, records[k].0);
        let ghost now = rv.take(k + 1);
        let ghost old_rows = rows.deep_view();
        proof {
            assert(now.drop_last() == rv.take(k as int));
            assert(now.last() == (records[k as int].0, records[k as int].1.deep_view()));
        }
        match &records[k].1 {
            None => {
                warnings.push(RowWarning { line, issue: RowIssue::Unreadable });
            },
            Some(fields) => {
                if fields.len() != LEY_COLUMNS {
                    warnings.push(RowWarning { line, issue: RowIssue::WrongFieldCount });
                } else {
                    match read_row(fields, line) {
                        None => {
                            warnings.push(RowWarning { line, issue: RowIssue::InvalidAmount });
                        },
                        Some(row) => {
                            rows.push(row);
                            assert(rows.deep_view() == old_rows.push(row@));
                        },
                    }
                }
            },
        }
        k = k + 1;
    }
    assert(rv.take(records.len() as int) == rv);
    (rows, warnings)
}

/// The sum of one organizational code.
#[derive(Clone, Debug, PartialEq, Eq)]
pub struct PartidaAggregate {
    pub partida_code: String,
    pub partida_name: String,
    pub entity_key: String,
    pub total_monto: i128,
    pub row_count: usize,
    pub first_line: u128,
    pub last_line: u128,
}

pub struct AggregateView {
    pub partida_code: Seq<char>,
    pub partida_name: Seq<char>,
    pub entity_key: Seq<char>,
    pub total_monto: int,
    pub row_count: nat,
    pub first_line: u128,
    pub last_line: u128,
}

impl View for PartidaAggregate {
    type V = AggregateView;

    open spec fn view(&self) -> AggregateView {
        AggregateView {
            partida_code: self.partida_code@,
            partida_name: self.partida_name@,
            entity_key: self.entity_key@,
            total_monto: self.total_monto as int,
            row_count: self.row_count as nat,
            first_line: self.first_line,
            last_line: self.last_line,
        }
    }
}

impl DeepView for PartidaAggregate {
    type V = AggregateView;

    open spec fn deep_view(&self) -> AggregateView {
        self@
    }
}

/// The natural key of the entity that a code stands for: the code after
/// `partida_`, with zeros before it where it is shorter than two
/// characters.
pub open spec fn partida_key(code: Seq<char>) -> Seq<char> {
    if code.len() >= 2 {
        "partida_"@ + code
    } else if code.len() == 1 {
        "partida_0"@ + code
    } else {
        "partida_00"@ + code
    }
}

/// The code `a` is listed before the code `b`: by their keys, and by the
/// codes themselves where the keys are the same.
pub open spec fn partida_before(a: Seq<char>, b: Seq<char>) -> bool {
    text_lt(partida_key(a), partida_key(b)) || (partida_key(a) == partida_key(b) && text_lt(a, b))
}

/// The number of rows with the code.
pub open spec fn count_of(rows: Seq<LeyRowView>, code: Seq<char>) -> nat
    decreases rows.len(),
{
    if rows.len() == 0 {
        0
    } else if rows.last().partida == code {
        count_of(rows.drop_last(), code) + 1
    } else {
        count_of(rows.drop_last(), code)
    }
}

/// The sum of the primary amounts of the rows with the code.
pub open spec fn total_of(rows: Seq<LeyRowView>, code: Seq<char>) -> int
    decreases rows.len(),
{
    if rows.len() == 0 {
        0
    } else if rows.last().partida == code {
        total_of(rows.drop_last(), code) + rows.last().monto_pesos
    } else {
        total_of(rows.drop_last(), code)
    }
}

/// The index of the first row with the code, or the number of rows where
/// none has it.
pub open spec fn first_index_of(rows: Seq<LeyRowView>, code: Seq<char>) -> int
    decreases rows.len(),
{
    if rows.len() == 0 {
        0
    } else if count_of(rows.drop_last(), code) > 0 {
        first_index_of(rows.drop_last(), code)
    } else if rows.last().partida == code {
        rows.len() - 1
    } else {
        rows.len() as int
    }
}

/// The index of the last row with the code, or -1 where none has it.
pub open spec fn last_index_of(rows: Seq<LeyRowView>, code: Seq<char>) -> int
    decreases rows.len(),
{
    if rows.len() == 0 {
        -1
    } else if rows.last().partida == code {
        rows.len() - 1
    } else {
        last_index_of(rows.drop_last(), code)
    }
}

/// The sum of the code over the rows: the total of the primary amounts,
/// the number of rows, the name that the first of them gives, and the
/// lines of the first and the last.
pub open spec fn aggregate_of(rows: Seq<LeyRowView>, code: Seq<char>) -> AggregateView {
    AggregateView {
        partida_code: code,
        partida_name: rows[first_index_of(rows, code)].denominacion,
        entity_key: partida_key(code),
        total_monto: total_of(rows, code),
        row_count: count_of(rows, code),
        first_line: rows[first_index_of(rows, code)].line_num,
        last_line: rows[last_index_of(rows, code)].line_num,
    }
}

/// One of the sums is that of `code`.
pub open spec fn has_code(aggs: Seq<AggregateView>, code: Seq<char>) -> bool {
    exists|i: int| 0 <= i < aggs.len() && (#[trigger] aggs[i]).partida_code == code
}

/// The sums are listed in order, without repetition.
pub open spec fn in_key_order(aggs: Seq<AggregateView>) -> bool {
    forall|i: int, j: int|
        0 <= i < j < aggs.len() ==> partida_before(
            (#[trigger] aggs[i]).partida_code,
            (#[trigger] aggs[j]).partida_code,
        )
}

/// `aggs` lists, in key order, the sum of every code that a row names.
/// Rows without a code belong to no sum.
pub open spec fn is_aggregation_of(aggs: Seq<AggregateView>, rows: Seq<LeyRowView>) -> bool {
    &&& in_key_order(aggs)
    &&& forall|i: int|
        0 <= i < aggs.len() ==> {
            &&& (#[trigger] aggs[i]).partida_code.len() > 0
            &&& count_of(rows, aggs[i].partida_code) > 0
            &&& aggs[i] == aggregate_of(rows, aggs[i].partida_code)
        }
    &&& forall|code: Seq<char>|
        code.len() > 0 && #[trigger] count_of(rows, code) > 0 ==> has_code(aggs, code)
}

pub proof fn lemma_partida_before_irreflexive(a: Seq<char>)
    ensures
        !partida_before(a, a),
{
    lemma_text_lt_irreflexive(a);
    lemma_text_lt_irreflexive(partida_key(a));
}

pub proof fn lemma_partida_before_transitive(a: Seq<char>, b: Seq<char>, c: Seq<char>)
    requires
        partida_before(a, b),
        partida_before(b, c),
    ensures
        partida_before(a, c),
{
    let ka = partida_key(a);
    let kb = partida_key(b);
    let kc = partida_key(c);
    if text_lt(ka, kb) && text_lt(kb, kc) {
        lemma_text_lt_transitive(ka, kb, kc);
    } else if ka == kb && kb == kc {
        lemma_text_lt_transitive(a, b, c);
    }
}

pub proof fn lemma_partida_before_total(a: Seq<char>, b: Seq<char>)
    ensures
        a == b || partida_before(a, b) || partida_before(b, a),
{
    lemma_text_lt_total(a, b);
    lemma_text_lt_total(partida_key(a), partida_key(b));
}

/// The count of a code is at most the number of rows, and bounds its
/// total.
pub proof fn lemma_total_bounds(rows: Seq<LeyRowView>, code: Seq<char>)
    ensures
        count_of(rows, code) <= rows.len(),
        -0x8000_0000_0000_0000 * count_of(rows, code) <= total_of(rows, code)
            <= 0x8000_0000_0000_0000 * count_of(rows, code),
    decreases rows.len(),
{
    if rows.len() > 0 {
        lemma_total_bounds(rows.drop_last(), code);
    }
}

/// The indices of the first and the last row of a code that occurs.
pub proof fn lemma_index_bounds(rows: Seq<LeyRowView>, code: Seq<char>)
    requires
        count_of(rows, code) > 0,
    ensures
        0 <= first_index_of(rows, code) <= last_index_of(rows, code) < rows.len(),
        rows[first_index_of(rows, code)].partida == code,
        rows[last_index_of(rows, code)].partida == code,
    decreases rows.len(),
{
    if rows.len() > 0 {
        if count_of(rows.drop_last(), code) > 0 {
            lemma_index_bounds(rows.drop_last(), code);
        }
    }
}

/// The rows name the same codes.
pub open spec fn same_codes(first: Seq<LeyRowView>, second: Seq<LeyRowView>) -> bool {
    forall|code: Seq<char>|
        #![trigger count_of(first, code)]
        #![trigger count_of(second, code)]
        code.len() > 0 ==> (count_of(first, code) > 0 <==> count_of(second, code) > 0)
}

/// The order of the sums does not depend on the order of the rows: two
/// lists of rows that name the same codes give the same codes, and so the
/// same entity keys, in the same order.
pub proof fn lemma_order_independent_of_rows(
    a: Seq<AggregateView>,
    first: Seq<LeyRowView>,
    b: Seq<AggregateView>,
    second: Seq<LeyRowView>,
)
    requires
        is_aggregation_of(a, first),
        is_aggregation_of(b, second),
        same_codes(first, second),
    ensures
        a.len() == b.len(),
        forall|i: int|
            0 <= i < a.len() ==> (#[trigger] a[i]).partida_code == b[i].partida_code && a[i].entity_key
                == b[i].entity_key,
{
    lemma_same_codes_up_to(a, first, b, second, if a.len() <= b.len() {
        a.len() as int
    } else {
        b.len() as int
    });
    if a.len() < b.len() {
        let code = b[a.len() as int].partida_code;
        assert(count_of(second, code) > 0);
        assert(has_code(a, code));
        let j = choose|j: int| 0 <= j < a.len() && (#[trigger] a[j]).partida_code == code;
        assert(a[j].partida_code == b[j].partida_code);
        assert(partida_before(b[j].partida_code, b[a.len() as int].partida_code));
        lemma_partida_before_irreflexive(code);
    } else if b.len() < a.len() {
        let code = a[b.len() as int].partida_code;
        assert(count_of(first, code) > 0);
        assert(has_code(b, code));
        let j = choose|j: int| 0 <= j < b.len() && (#[trigger] b[j]).partida_code == code;
        assert(a[j].partida_code == b[j].partida_code);
        assert(partida_before(a[j].partida_code, a[b.len() as int].partida_code));
        lemma_partida_before_irreflexive(code);
    }
}

/// Two lists of sums of the same rows are the same list.
pub proof fn lemma_aggregation_unique(
    a: Seq<AggregateView>,
    b: Seq<AggregateView>,
    rows: Seq<LeyRowView>,
)
    requires
        is_aggregation_of(a, rows),
        is_aggregation_of(b, rows),
    ensures
        a == b,
{
    lemma_order_independent_of_rows(a, rows, b, rows);
    assert(a =~= b);
}

proof fn lemma_same_codes_up_to(
    a: Seq<AggregateView>,
    first: Seq<LeyRowView>,
    b: Seq<AggregateView>,
    second: Seq<LeyRowView>,
    n: int,
)
    requires
        is_aggregation_of(a, first),
        is_aggregation_of(b, second),
        same_codes(first, second),
        0 <= n <= a.len(),
        n <= b.len(),
    ensures
        forall|i: int|
            0 <= i < n ==> (#[trigger] a[i]).partida_code == b[i].partida_code && a[i].entity_key
                == b[i].entity_key,
    decreases n,
{
    if n > 0 {
        lemma_same_codes_up_to(a, first, b, second, n - 1);
        let i = n - 1;
        let ca = a[i].partida_code;
        let cb = b[i].partida_code;
        // the code of a[i] stands in b at i or later, and the other way round
        assert(count_of(first, ca) > 0);
        assert(count_of(second, ca) > 0);
        assert(has_code(b, ca));
        let j = choose|j: int| 0 <= j < b.len() && (#[trigger] b[j]).partida_code == ca;
        if j < i {
            assert(a[j].partida_code == b[j].partida_code);
            assert(partida_before(a[j].partida_code, a[i].partida_code));
            lemma_partida_before_irreflexive(ca);
        }
        assert(count_of(second, cb) > 0);
        assert(count_of(first, cb) > 0);
        assert(has_code(a, cb));
        let l = choose|l: int| 0 <= l < a.len() && (#[trigger] a[l]).partida_code == cb;
        if l < i {
            assert(a[l].partida_code == b[l].partida_code);
            assert(partida_before(b[l].partida_code, b[i].partida_code));
            lemma_partida_before_irreflexive(cb);
        }
        if ca != cb {
            assert(j > i && l > i);
            assert(partida_before(b[i].partida_code, b[j].partida_code));
            assert(partida_before(a[i].partida_code, a[l].partida_code));
            lemma_partida_before_transitive(ca, cb, ca);
            lemma_partida_before_irreflexive(ca);
        }
        assert(a[i] == aggregate_of(first, ca));
        assert(b[i] == aggregate_of(second, cb));
    }
}

/// The natural key of the entity that a code stands for.
pub fn partida_entity_key(code: &str) -> (key: String)
    ensures
        key@ == partida_key(code@),
{
    let n = code.unicode_len();
    let mut key = if n >= 2 {
        "partida_".to_owned()
    } else if n == 1 {
        "partida_0".to_owned()
    } else {
        "partida_00".to_owned()
    };
    key.append(code);
    key
}

/// Whether a code with the key `key_a` is listed before one with `key_b`.
fn listed_before(key_a: &str, code_a: &str, key_b: &str, code_b: &str) -> (r: bool)
    requires
        key_a@ == partida_key(code_a@),
        key_b@ == partida_key(code_b@),
    ensures
        r == partida_before(code_a@, code_b@),
{
    if str_lt(key_a, key_b) {
        true
    } else if str_eq(key_a, key_b) {
        str_lt(code_a, code_b)
    } else {
        false
    }
}

/// Looks for the place of a code among the sums: where it stands, or
/// where it is to be put.
fn find_slot(aggs: &Vec<PartidaAggregate>, key: &str, code: &str) -> (r: (usize, bool))
    requires
        in_key_order(aggs.deep_view()),
        key@ == partida_key(code@),
        forall|i: int|
            0 <= i < aggs.len() ==> (#[trigger] aggs.deep_view()[i]).entity_key == partida_key(
                aggs.deep_view()[i].partida_code,
            ),
    ensures
        r.0 <= aggs.len(),
        r.1 ==> r.0 < aggs.len() && aggs[r.0 as int].partida_code@ == code@,
        !r.1 ==> !has_code(aggs.deep_view(), code@),
        !r.1 ==> forall|j: int|
            0 <= j < r.0 ==> partida_before((#[trigger] aggs[j]).partida_code@, code@),
        !r.1 ==> forall|j: int|
            r.0 <= j < aggs.len() ==> partida_before(code@, (#[trigger] aggs[j]).partida_code@),
{
    let ghost av = aggs.deep_view();
    let mut i: usize = 0;
    while i < aggs.len()
        invariant
            i <= aggs.len(),
            av == aggs.deep_view(),
            in_key_order(av),
            key@ == partida_key(code@),
            forall|k: int|
                0 <= k < aggs.len() ==> (#[trigger] av[k]).entity_key == partida_key(
                    av[k].partida_code,
                ),
            forall|j: int| 0 <= j < i ==> partida_before((#[trigger] aggs[j]).partida_code@, code@),
        decreases aggs.len() - i,
    {
        let agg = &aggs[i];
        assert(av[i as int] == agg@);
        if str_eq(agg.partida_code.as_str(), code) {
            return (i, true);
        }
        if listed_before(key, code, agg.entity_key.as_str(), agg.partida_code.as_str()) {
            proof {
                assert forall|j: int| i <= j < aggs.len() implies partida_before(
                    code@,
                    (#[trigger] aggs[j]).partida_code@,
                ) by {
                    if j > i {
                        assert(partida_before(av[i as int].partida_code, av[j].partida_code));
                        lemma_partida_before_transitive(
                            code@,
                            aggs[i as int].partida_code@,
                            aggs[j].partida_code@,
                        );
                    }
                }
                assert(!has_code(av, code@)) by {
                    if has_code(av, code@) {
                        let j = choose|j: int|
                            0 <= j < av.len() && (#[trigger] av[j]).partida_code == code@;
                        assert(av[j].partida_code == aggs[j].partida_code@);
                        lemma_partida_before_irreflexive(code@);
                    }
                }
            }
            return (i, false);
        }
        proof {
            lemma_partida_before_total(code@, agg.partida_code@);
        }
        i = i + 1;
    }
    proof {
        assert(!has_code(av, code@)) by {
            if has_code(av, code@) {
                let j = choose|j: int| 0 <= j < av.len() && (#[trigger] av[j]).partida_code == code@;
                assert(av[j].partida_code == aggs[j].partida_code@);
                lemma_partida_before_irreflexive(code@);
            }
        }
    }
    (i, false)
}

/// Sums the rows by organizational code. The sums are listed by entity
/// key; the name of a code is the one that its first row gives.
pub fn aggregate_partidas(rows: &Vec<DipresLeyRow>) -> (aggs: Vec<PartidaAggregate>)
    ensures
        is_aggregation_of(aggs.deep_view(), rows.deep_view()),
{
    let ghost rv = rows.deep_view();
    let mut aggs: Vec<PartidaAggregate> = Vec::new();
    let mut k: usize = 0;
    assert(rv.take(0) == Seq::<LeyRowView>::empty());
    while k < rows.len()
        invariant
            k <= rows.len(),
            rv == rows.deep_view(),
            is_aggregation_of(aggs.deep_view(), rv.take(k as int)),
        decreases rows.len() - k,
    {
        let row = &rows[k];
        let ghost before = rv.take(k as int);
        let ghost now = rv.take(k + 1);
        let ghost old_aggs = aggs.deep_view();
        let ghost code = row.partida@;
        proof {
            assert(now.drop_last() == before);
            assert(now.last() == row@);
            assert forall|c: Seq<char>| c != code implies #[trigger] count_of(now, c) == count_of(
                before,
                c,
            ) && (count_of(before, c) > 0 ==> aggregate_of(now, c) == aggregate_of(before, c)) by {
                if count_of(before, c) > 0 {
                    lemma_index_bounds(before, c);
                }
            }
        }
        if row.partida.as_str().unicode_len() > 0 {
            let key = partida_entity_key(row.partida.as_str());
            let (slot, found) = find_slot(&aggs, key.as_str(), row.partida.as_str());
            proof {
                lemma_total_bounds(now, code);
                assert(0x8000_0000_0000_0000 * count_of(now, code) <= 0x8000_0000_0000_0000
                    * 0xffff_ffff_ffff_ffff) by (nonlinear_arith)
                    requires
                        count_of(now, code) <= 0xffff_ffff_ffff_ffff,
                ;
            }
            if found {
                let mut agg = aggs.remove(slot);
                proof {
                    assert(agg@ == old_aggs[slot as int]);
                    lemma_index_bounds(before, code);
                    lemma_total_bounds(before, code);
                }
                agg.total_monto = agg.total_monto + row.monto_pesos as i128;
                agg.row_count = agg.row_count + 1;
                agg.last_line = row.line_num;
                assert(agg@ == aggregate_of(now, code));
                aggs.insert(slot, agg);
                proof {
                    let new_aggs = aggs.deep_view();
                    assert(new_aggs =~= old_aggs.update(slot as int, agg@));
                    assert forall|i: int| 0 <= i < new_aggs.len() implies {
                        &&& (#[trigger] new_aggs[i]).partida_code.len() > 0
                        &&& count_of(now, new_aggs[i].partida_code) > 0
                        &&& new_aggs[i] == aggregate_of(now, new_aggs[i].partida_code)
                    } by {
                        if i != slot {
                            assert(new_aggs[i] == old_aggs[i]);
                            if i < slot {
                                assert(partida_before(
                                    old_aggs[i].partida_code,
                                    old_aggs[slot as int].partida_code,
                                ));
                            } else {
                                assert(partida_before(
                                    old_aggs[slot as int].partida_code,
                                    old_aggs[i].partida_code,
                                ));
                            }
                            lemma_partida_before_irreflexive(code);
                        }
                    }
                    assert forall|c: Seq<char>|
                        c.len() > 0 && #[trigger] count_of(now, c) > 0 implies has_code(
                        new_aggs,
                        c,
                    ) by {
                        if c == code {
                            assert(new_aggs[slot as int].partida_code == c);
                        } else {
                            assert(has_code(old_aggs, c));
                            let j = choose|j: int|
                                0 <= j < old_aggs.len() && (#[trigger] old_aggs[j]).partida_code
                                    == c;
                            assert(new_aggs[j].partida_code == c);
                        }
                    }
                    assert(in_key_order(new_aggs)) by {
                        assert forall|i: int, j: int| 0 <= i < j < new_aggs.len() implies partida_before(
                            (#[trigger] new_aggs[i]).partida_code,
                            (#[trigger] new_aggs[j]).partida_code,
                        ) by {
                            assert(new_aggs[i].partida_code == old_aggs[i].partida_code);
                            assert(new_aggs[j].partida_code == old_aggs[j].partida_code);
                        }
                    }
                }
            } else {
                proof {
                    assert(count_of(before, code) == 0);
                    lemma_total_bounds(before, code);
                }
                let agg = PartidaAggregate {
                    partida_code: row.partida.clone(),
                    partida_name: row.denominacion.clone(),
                    entity_key: key,
                    total_monto: row.monto_pesos as i128,
                    row_count: 1,
                    first_line: row.line_num,
                    last_line: row.line_num,
                };
                assert(agg@ == aggregate_of(now, code));
                aggs.insert(slot, agg);
                proof {
                    let new_aggs = aggs.deep_view();
                    assert(new_aggs =~= old_aggs.insert(slot as int, agg@));
                    assert forall|i: int| 0 <= i < new_aggs.len() implies {
                        &&& (#[trigger] new_aggs[i]).partida_code.len() > 0
                        &&& count_of(now, new_aggs[i].partida_code) > 0
                        &&& new_aggs[i] == aggregate_of(now, new_aggs[i].partida_code)
                    } by {
                        if i < slot {
                            assert(new_aggs[i] == old_aggs[i]);
                            assert(has_code(old_aggs, old_aggs[i].partida_code));
                        } else if i > slot {
                            assert(new_aggs[i] == old_aggs[i - 1]);
                            assert(has_code(old_aggs, old_aggs[i - 1].partida_code));
                        }
                    }
                    assert forall|c: Seq<char>|
                        c.len() > 0 && #[trigger] count_of(now, c) > 0 implies has_code(
                        new_aggs,
                        c,
                    ) by {
                        if c == code {
                            assert(new_aggs[slot as int].partida_code == c);
                        } else {
                            assert(has_code(old_aggs, c));
                            let j = choose|j: int|
                                0 <= j < old_aggs.len() && (#[trigger] old_aggs[j]).partida_code
                                    == c;
                            if j < slot {
                                assert(new_aggs[j].partida_code == c);
                            } else {
                                assert(new_aggs[j + 1].partida_code == c);
                            }
                        }
                    }
                    assert(in_key_order(new_aggs)) by {
                        assert forall|i: int, j: int| 0 <= i < j < new_aggs.len() implies partida_before(
                            (#[trigger] new_aggs[i]).partida_code,
                            (#[trigger] new_aggs[j]).partida_code,
                        ) by {
                            let oi = if i < slot {
                                i
                            } else {
                                i - 1
                            };
                            let oj = if j < slot {
                                j
                            } else {
                                j - 1
                            };
                            if i != slot && j != slot {
                                assert(new_aggs[i] == old_aggs[oi]);
                                assert(new_aggs[j] == old_aggs[oj]);
                                assert(partida_before(
                                    old_aggs[oi].partida_code,
                                    old_aggs[oj].partida_code,
                                ));
                            } else if i == slot {
                                assert(new_aggs[j] == old_aggs[oj]);
                            } else {
                                assert(new_aggs[i] == old_aggs[oi]);
                            }
                        }
                    }
                }
            }
        } else {
            proof {
                let aggs_now = aggs.deep_view();
                assert forall|i: int| 0 <= i < aggs_now.len() implies {
                    &&& (#[trigger] aggs_now[i]).partida_code.len() > 0
                    &&& count_of(now, aggs_now[i].partida_code) > 0
                    &&& aggs_now[i] == aggregate_of(now, aggs_now[i].partida_code)
                } by {}
            }
        }
        k = k + 1;
    }
    assert(rv.take(rows.len() as int) == rv);
    aggs
}

/// The list of the sums of the rows.
pub open spec fn partida_aggregation(rows: Seq<LeyRowView>) -> Seq<AggregateView> {
    choose|aggs: Seq<AggregateView>| is_aggregation_of(aggs, rows)
}

/// The number of sums that are listed before a code.
pub open spec fn slot_of(aggs: Seq<AggregateView>, code: Seq<char>) -> int
    decreases aggs.len(),
{
    if aggs.len() == 0 {
        0
    } else if partida_before(aggs.last().partida_code, code) {
        aggs.len() as int
    } else {
        slot_of(aggs.drop_last(), code)
    }
}

proof fn lemma_slot_of(aggs: Seq<AggregateView>, code: Seq<char>)
    requires
        in_key_order(aggs),
        !has_code(aggs, code),
    ensures
        0 <= slot_of(aggs, code) <= aggs.len(),
        forall|j: int|
            0 <= j < slot_of(aggs, code) ==> partida_before((#[trigger] aggs[j]).partida_code, code),
        forall|j: int|
            slot_of(aggs, code) <= j < aggs.len() ==> partida_before(
                code,
                (#[trigger] aggs[j]).partida_code,
            ),
    decreases aggs.len(),
{
    if aggs.len() > 0 {
        let last = aggs.last().partida_code;
        let rest = aggs.drop_last();
        if partida_before(last, code) {
            assert forall|j: int| 0 <= j < aggs.len() implies partida_before(
                (#[trigger] aggs[j]).partida_code,
                code,
            ) by {
                if j < aggs.len() - 1 {
                    assert(partida_before(aggs[j].partida_code, aggs[aggs.len() - 1].partida_code));
                    lemma_partida_before_transitive(aggs[j].partida_code, last, code);
                }
            }
        } else {
            assert(in_key_order(rest)) by {
                assert forall|i: int, j: int| 0 <= i < j < rest.len() implies partida_before(
                    (#[trigger] rest[i]).partida_code,
                    (#[trigger] rest[j]).partida_code,
                ) by {
                    assert(partida_before(aggs[i].partida_code, aggs[j].partida_code));
                }
            }
            assert(!has_code(rest, code)) by {
                if has_code(rest, code) {
                    let j = choose|j: int|
                        0 <= j < rest.len() && (#[trigger] rest[j]).partida_code == code;
                    assert(aggs[j].partida_code == code);
                }
            }
            lemma_slot_of(rest, code);
            assert(aggs[aggs.len() - 1].partida_code == last);
            lemma_partida_before_total(code, last);
            assert forall|j: int| slot_of(aggs, code) <= j < aggs.len() implies partida_before(
                code,
                (#[trigger] aggs[j]).partida_code,
            ) by {
                if j < aggs.len() - 1 {
                    assert(aggs[j] == rest[j]);
                }
            }
            assert forall|j: int| 0 <= j < slot_of(aggs, code) implies partida_before(
                (#[trigger] aggs[j]).partida_code,
                code,
            ) by {
                assert(aggs[j] == rest[j]);
            }
        }
    }
}

/// The sums of the rows with one row more: the sum of the code of that
/// row is replaced or set in its place.
pub open spec fn extended(
    aggs: Seq<AggregateView>,
    rows: Seq<LeyRowView>,
    code: Seq<char>,
) -> Seq<AggregateView> {
    if code.len() == 0 {
        aggs
    } else if has_code(aggs, code) {
        aggs.update(
            choose|i: int| 0 <= i < aggs.len() && (#[trigger] aggs[i]).partida_code == code,
            aggregate_of(rows, code),
        )
    } else {
        aggs.insert(slot_of(aggs, code), aggregate_of(rows, code))
    }
}

proof fn lemma_extended(aggs: Seq<AggregateView>, rows: Seq<LeyRowView>)
    requires
        rows.len() > 0,
        is_aggregation_of(aggs, rows.drop_last()),
    ensures
        is_aggregation_of(extended(aggs, rows, rows.last().partida), rows),
{
    let before = rows.drop_last();
    let code = rows.last().partida;
    let new_aggs = extended(aggs, rows, code);
    assert forall|c: Seq<char>| c != code implies #[trigger] count_of(rows, c) == count_of(
        before,
        c,
    ) && (count_of(before, c) > 0 ==> aggregate_of(rows, c) == aggregate_of(before, c)) by {
        if count_of(before, c) > 0 {
            lemma_index_bounds(before, c);
        }
    }
    if code.len() == 0 {
        assert forall|i: int| 0 <= i < aggs.len() implies {
            &&& (#[trigger] aggs[i]).partida_code.len() > 0
            &&& count_of(rows, aggs[i].partida_code) > 0
            &&& aggs[i] == aggregate_of(rows, aggs[i].partida_code)
        } by {}
    } else if has_code(aggs, code) {
        let slot = choose|i: int| 0 <= i < aggs.len() && (#[trigger] aggs[i]).partida_code == code;
        assert(new_aggs == aggs.update(slot, aggregate_of(rows, code)));
        assert forall|i: int| 0 <= i < new_aggs.len() implies {
            &&& (#[trigger] new_aggs[i]).partida_code.len() > 0
            &&& count_of(rows, new_aggs[i].partida_code) > 0
            &&& new_aggs[i] == aggregate_of(rows, new_aggs[i].partida_code)
        } by {
            if i != slot {
                assert(new_aggs[i] == aggs[i]);
                if i < slot {
                    assert(partida_before(aggs[i].partida_code, aggs[slot].partida_code));
                } else {
                    assert(partida_before(aggs[slot].partida_code, aggs[i].partida_code));
                }
                lemma_partida_before_irreflexive(code);
            }
        }
        assert forall|c: Seq<char>|
            c.len() > 0 && #[trigger] count_of(rows, c) > 0 implies has_code(new_aggs, c) by {
            if c == code {
                assert(new_aggs[slot].partida_code == c);
            } else {
                assert(has_code(aggs, c));
                let j = choose|j: int| 0 <= j < aggs.len() && (#[trigger] aggs[j]).partida_code == c;
                assert(new_aggs[j].partida_code == c);
            }
        }
        assert(in_key_order(new_aggs)) by {
            assert forall|i: int, j: int| 0 <= i < j < new_aggs.len() implies partida_before(
                (#[trigger] new_aggs[i]).partida_code,
                (#[trigger] new_aggs[j]).partida_code,
            ) by {
                assert(new_aggs[i].partida_code == aggs[i].partida_code);
                assert(new_aggs[j].partida_code == aggs[j].partida_code);
            }
        }
    } else {
        let slot = slot_of(aggs, code);
        lemma_slot_of(aggs, code);
        assert(count_of(before, code) == 0);
        lemma_total_bounds(before, code);
        assert(new_aggs == aggs.insert(slot, aggregate_of(rows, code)));
        assert forall|i: int| 0 <= i < new_aggs.len() implies {
            &&& (#[trigger] new_aggs[i]).partida_code.len() > 0
            &&& count_of(rows, new_aggs[i].partida_code) > 0
            &&& new_aggs[i] == aggregate_of(rows, new_aggs[i].partida_code)
        } by {
            if i < slot {
                assert(new_aggs[i] == aggs[i]);
                assert(has_code(aggs, aggs[i].partida_code));
            } else if i > slot {
                assert(new_aggs[i] == aggs[i - 1]);
                assert(has_code(aggs, aggs[i - 1].partida_code));
            }
        }
        assert forall|c: Seq<char>|
            c.len() > 0 && #[trigger] count_of(rows, c) > 0 implies has_code(new_aggs, c) by {
            if c == code {
                assert(new_aggs[slot].partida_code == c);
            } else {
                assert(has_code(aggs, c));
                let j = choose|j: int| 0 <= j < aggs.len() && (#[trigger] aggs[j]).partida_code == c;
                if j < slot {
                    assert(new_aggs[j].partida_code == c);
                } else {
                    assert(new_aggs[j + 1].partida_code == c);
                }
            }
        }
        assert(in_key_order(new_aggs)) by {
            assert forall|i: int, j: int| 0 <= i < j < new_aggs.len() implies partida_before(
                (#[trigger] new_aggs[i]).partida_code,
                (#[trigger] new_aggs[j]).partida_code,
            ) by {
                let oi = if i < slot {
                    i
                } else {
                    i - 1
                };
                let oj = if j < slot {
                    j
                } else {
                    j - 1
                };
                if i != slot && j != slot {
                    assert(new_aggs[i] == aggs[oi]);
                    assert(new_aggs[j] == aggs[oj]);
                    assert(partida_before(aggs[oi].partida_code, aggs[oj].partida_code));
                } else if i == slot {
                    assert(new_aggs[j] == aggs[oj]);
                } else {
                    assert(new_aggs[i] == aggs[oi]);
                }
            }
        }
    }
}

/// Every list of rows has its list of sums: `partida_aggregation` is that
/// list, whatever the rows.
pub proof fn lemma_aggregation_exists(rows: Seq<LeyRowView>)
    ensures
        is_aggregation_of(partida_aggregation(rows), rows),
    decreases rows.len(),
{
    if rows.len() == 0 {
        assert(is_aggregation_of(Seq::<AggregateView>::empty(), rows));
    } else {
        lemma_aggregation_exists(rows.drop_last());
        lemma_extended(partida_aggregation(rows.drop_last()), rows);
        assert(is_aggregation_of(
            extended(partida_aggregation(rows.drop_last()), rows, rows.last().partida),
            rows,
        ));
    }
}

/// The display name of the entity of a sum: the name that the first row
/// of its code gives, or the code itself where that name is blank.
pub open spec fn partida_display_name(agg: AggregateView) -> Seq<char> {
    if agg.partida_name.len() == 0 {
        "Partida "@ + agg.partida_code
    } else {
        agg.partida_name
    }
}

/// The locator of a sum: its code, the lines of its first and last row,
/// and the number of its rows.
pub open spec fn partida_location(agg: AggregateView) -> Seq<char> {
    "dipres_ley_csv:partida="@ + agg.partida_code + ":lines="@ + decimal(agg.first_line as nat)
        + "-"@ + decimal(agg.last_line as nat) + ":rows="@ + decimal(agg.row_count)
}

/// The dimensions of a sum.
pub open spec fn partida_dims(agg: AggregateView) -> Seq<DimView> {
    seq![
        DimView { name: "partida_code"@, value: DimValueView::Text(agg.partida_code) },
        DimView { name: "aggregated_rows"@, value: DimValueView::Count(agg.row_count) },
        DimView {
            name: "source_file"@,
            value: DimValueView::Text("articles-397499_doc_csv.csv"@),
        },
    ]
}

/// The fact that a sum states for the fiscal year: the total of the
/// primary amounts, which the export gives in thousands.
pub open spec fn partida_fact_of(agg: AggregateView, period: (CalendarDate, CalendarDate)) -> FactView {
    FactView {
        entity_key: agg.entity_key,
        entity_name: partida_display_name(agg),
        entity_type: "partida"@,
        metric_key: budget_law_metric_view().key,
        metric_name: budget_law_metric_view().name,
        metric_unit: budget_law_metric_view().unit,
        period_start: period.0,
        period_end: period.1,
        value: AmountView::Thousands(agg.total_monto),
        location: partida_location(agg),
        dims: partida_dims(agg),
    }
}

/// The value of the fact of a code is a thousand times the sum of the
/// primary amounts of its rows.
pub proof fn lemma_partida_value(
    rows: Seq<LeyRowView>,
    code: Seq<char>,
    period: (CalendarDate, CalendarDate),
)
    ensures
        partida_fact_of(aggregate_of(rows, code), period).value.whole_units() == Some(
            1000 * total_of(rows, code),
        ),
{
}

/// The facts of the sums, in their order.
pub open spec fn partida_facts_of(
    aggs: Seq<AggregateView>,
    period: (CalendarDate, CalendarDate),
) -> Seq<FactView> {
    aggs.map_values(|agg: AggregateView| partida_fact_of(agg, period))
}

/// The period of a fiscal year: January 1 to December 31.
pub open spec fn fiscal_period(year: i32) -> (CalendarDate, CalendarDate) {
    (CalendarDate { year, month: 1, day: 1 }, CalendarDate { year, month: 12, day: 31 })
}

/// The outcome of an export with the given header and records, for the
/// fiscal year. A header that is not exactly the expected one, records
/// none of which yields a row, and rows none of which names a code are
/// each an error.
pub open spec fn ley_outcome_of(
    content: Seq<char>,
    headers: Seq<Seq<char>>,
    records: Seq<(Option<u64>, Option<Seq<Seq<char>>>)>,
    year: i32,
) -> Result<OutcomeView, ParseErrorView> {
    match header_fault(headers) {
        Some(e) => Err(e),
        None => if ley_rows_of(content, records).len() == 0 {
            Err(ParseErrorView::NoValidRows)
        } else if partida_aggregation(ley_rows_of(content, records)).len() == 0 {
            Err(ParseErrorView::NoPartidas)
        } else {
            Ok(
                OutcomeView {
                    facts: partida_facts_of(
                        partida_aggregation(ley_rows_of(content, records)),
                        fiscal_period(year),
                    ),
                    warnings: ley_warnings_of(content, records),
                },
            )
        },
    }
}

/// The outcome of an export with the given header and records, for the
/// fiscal year that the source identifier names.
pub open spec fn ley_facts_of(
    content: Seq<char>,
    headers: Seq<Seq<char>>,
    records: Seq<(Option<u64>, Option<Seq<Seq<char>>>)>,
    source_id: Seq<char>,
) -> Result<OutcomeView, ParseErrorView> {
    match source_year_of(source_id) {
        None => Err(ParseErrorView::YearNotInSourceId),
        Some(year) => ley_outcome_of(content, headers, records, year),
    }
}

/// The outcome of a budget-law export with the given source identifier.
pub open spec fn parse_dipres_ley_csv_of(content: Seq<char>, source_id: Seq<char>) -> Result<
    OutcomeView,
    ParseErrorView,
> {
    match source_year_of(source_id) {
        None => Err(ParseErrorView::YearNotInSourceId),
        Some(year) => match delimited_header(without_bom(content), SEMICOLON, true) {
            None => Err(ParseErrorView::HeaderUnreadable),
            Some(headers) => ley_outcome_of(
                without_bom(content),
                headers,
                delimited_records(without_bom(content), SEMICOLON, false, true),
                year,
            ),
        },
    }
}

/// Builds the fact of a sum.
pub fn partida_fact(agg: &PartidaAggregate, period: (CalendarDate, CalendarDate)) -> (f: ParsedFact)
    ensures
        f@ == partida_fact_of(agg@, period),
{
    let metric = budget_law_metric();
    let entity_name = if agg.partida_name.as_str().unicode_len() == 0 {
        let mut name = "Partida ".to_owned();
        name.append(agg.partida_code.as_str());
        name
    } else {
        agg.partida_name.clone()
    };
    let mut location = "dipres_ley_csv:partida=".to_owned();
    location.append(agg.partida_code.as_str());
    location.append(":lines=");
    push_decimal(&mut location, agg.first_line);
    location.append("-");
    push_decimal(&mut location, agg.last_line);
    location.append(":rows=");
    push_decimal(&mut location, agg.row_count as u128);
    let mut dims: Vec<Dim> = Vec::new();
    dims.push(
        Dim { name: "partida_code".to_owned(), value: DimValue::Text(agg.partida_code.clone()) },
    );
    dims.push(Dim { name: "aggregated_rows".to_owned(), value: DimValue::Count(agg.row_count) });
    dims.push(
        Dim {
            name: "source_file".to_owned(),
            value: DimValue::Text("articles-397499_doc_csv.csv".to_owned()),
        },
    );
    assert(dims.deep_view() == partida_dims(agg@));
    ParsedFact {
        entity_key: agg.entity_key.clone(),
        entity_name,
        entity_type: "partida".to_owned(),
        metric_key: metric.key,
        metric_name: metric.name,
        metric_unit: metric.unit,
        period_start: period.0,
        period_end: period.1,
        value: Amount::Thousands(agg.total_monto),
        location,
        dims,
    }
}

/// Builds the facts of the sums, in their order.
pub fn partida_facts(aggs: &Vec<PartidaAggregate>, period: (CalendarDate, CalendarDate)) -> (facts:
    Vec<ParsedFact>)
    ensures
        facts.deep_view() == partida_facts_of(aggs.deep_view(), period),
{
    let mut facts: Vec<ParsedFact> = Vec::new();
    let mut i: usize = 0;
    while i < aggs.len()
        invariant
            i <= aggs.len(),
            facts.deep_view() == partida_facts_of(aggs.deep_view().take(i as int), period),
        decreases aggs.len() - i,
    {
        let ghost old_facts = facts.deep_view();
        let fact = partida_fact(&aggs[i], period);
        facts.push(fact);
        proof {
            assert(facts.deep_view() == old_facts.push(fact@));
            assert(aggs.deep_view().take(i + 1) == aggs.deep_view().take(i as int).push(
                aggs[i as int]@,
            ));
        }
        i = i + 1;
    }
    assert(aggs.deep_view().take(aggs.len() as int) == aggs.deep_view());
    facts
}

/// Turns the header and the records of a budget-law export into fact
/// candidates: one per organizational code, listed by entity key.
pub fn ley_facts(
    content: &str,
    headers: &Vec<String>,
    records: &Vec<(Option<u64>, Option<Vec<String>>)>,
    source_id: &str,
) -> (r: Result<ParseOutcome, ParseError>)
    ensures
        result_view(r) == ley_facts_of(
            content@,
            headers.deep_view(),
            taken_view(records@),
            source_id@,
        ),
{
    let year = match source_year(source_id) {
        None => {
            return Err(ParseError::YearNotInSourceId);
        },
        Some(year) => year,
    };
    match check_header(headers) {
        Some(e) => {
            return Err(e);
        },
        None => {},
    }
    let (rows, warnings) = read_rows(content, records);
    if rows.len() == 0 {
        return Err(ParseError::NoValidRows);
    }
    let aggs = aggregate_partidas(&rows);
    proof {
        let chosen = partida_aggregation(rows.deep_view());
        lemma_aggregation_unique(aggs.deep_view(), chosen, rows.deep_view());
    }
    if aggs.len() == 0 {
        return Err(ParseError::NoPartidas);
    }
    match year_period(year) {
        Some(period) => {
            let facts = partida_facts(&aggs, period);
            Ok(ParseOutcome { facts, warnings })
        },
        None => unreached(),
    }
}

/// Parses a budget-law export. The fiscal year comes from the source
/// identifier; a byte-order mark at the start of the text is dropped.
pub fn parse_dipres_ley_csv(content: &str, source_id: &str) -> (r: Result<ParseOutcome, ParseError>)
    ensures
        result_view(r) == parse_dipres_ley_csv_of(content@, source_id@),
{
    if source_year(source_id).is_none() {
        return Err(ParseError::YearNotInSourceId);
    }
    let text = strip_bom(content);
    match read_header(text, SEMICOLON, true) {
        None => Err(ParseError::HeaderUnreadable),
        Some(headers) => {
            match check_header(&headers) {
                Some(e) => Err(e),
                None => {
                    let records = read_records(text, SEMICOLON, false, true);
                    ley_facts(text, &headers, &records, source_id)
                },
            }
        },
    }
}

/// A budget-law export whose header is reordered, renamed or short of a
/// column never yields facts: whatever its rows hold, the parse ends in an
/// error, and that error is an ambiguity.
pub proof fn lemma_unexpected_export_is_ambiguity(content: Seq<char>, source_id: Seq<char>)
    requires
        delimited_header(without_bom(content), SEMICOLON, true) is Some,
        delimited_header(without_bom(content), SEMICOLON, true)->0 != ley_headers(),
    ensures
        parse_dipres_ley_csv_of(content, source_id) is Err,
        parse_dipres_ley_csv_of(content, source_id)->Err_0.kind_of() == ErrorKind::Ambiguity,
{
    let headers = delimited_header(without_bom(content), SEMICOLON, true)->0;
    if header_fault(headers) is None {
        lemma_faultless_header(headers);
    }
}

/// A header that is not exactly the expected one is an ambiguity: the
/// export yields an error of that kind, and no fact.
pub proof fn lemma_unexpected_header_is_ambiguity(
    content: Seq<char>,
    headers: Seq<Seq<char>>,
    records: Seq<(Option<u64>, Option<Seq<Seq<char>>>)>,
    source_id: Seq<char>,
)
    requires
        headers != ley_headers(),
    ensures
        ley_facts_of(content, headers, records, source_id) is Err,
        ley_facts_of(content, headers, records, source_id)->Err_0.kind_of() == ErrorKind::Ambiguity,
{
    if header_fault(headers) is None {
        lemma_faultless_header(headers);
    }
}

} // verus!
