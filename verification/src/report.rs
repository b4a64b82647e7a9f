//! What a parse hands back: the fact candidates with the rows that were
//! passed over, or the reason why the artifact cannot be parsed.

use vstd::prelude::*;
use crate::model::{FactView, ParsedFact};
use crate::numeral::{decimal, push_decimal};
use vstd::string::StringExecFns;

verus! {

/// Why one row of an artifact yields no fact, or not the amount it states.
#[derive(Clone, Copy, Debug, PartialEq, Eq, Structural)]
pub enum RowIssue {
    /// The record cannot be read from the delimited text.
    Unreadable,
    /// Two headers name the same column.
    DuplicateColumn,
    /// The header names no entity, no year or no amount column.
    MissingColumn,
    /// The row ends before a column that needs a value.
    MissingValue,
    /// The year is no integer.
    InvalidYear,
    /// The amount is no number.
    InvalidAmount,
    /// The row has not the number of fields that the dialect fixes.
    WrongFieldCount,
    /// The row names no entity.
    NoEntity,
    /// The year lies outside the years that a fact may belong to.
    YearOutOfRange,
    /// The row states no amount.
    NoAmount,
    /// The amount is zero.
    ZeroAmount,
}

/// A row that was passed over, by its line: the header is line 1.
#[derive(Clone, Copy, Debug, PartialEq, Eq, Structural)]
pub struct RowWarning {
    pub line: u128,
    pub issue: RowIssue,
}

/// Why an artifact yields no facts at all.
#[derive(Clone, Debug, PartialEq, Eq)]
pub enum ParseError {
    /// The source identifier names no fiscal year.
    YearNotInSourceId,
    /// The header record cannot be read.
    HeaderUnreadable,
    /// The header has not the number of columns that the dialect fixes:
    /// `headers` are the ones that were found.
    ColumnCountMismatch { expected: usize, headers: Vec<String> },
    /// The header at `index` is not the one that the dialect fixes.
    ColumnNameMismatch { index: usize, expected: String, found: String },
    /// No row could be read.
    NoValidRows,
    /// No row names an organizational code.
    NoPartidas,
    /// The row at `line` names a year that the calendar does not have.
    PeriodOutOfRange { line: u128 },
    /// The workbook holds no sheet.
    NoSheets,
    /// The sheet holds no row below its header.
    TooFewRows,
    /// No header names the entity.
    EntityColumnMissing,
    /// No header names the amount.
    AmountColumnMissing,
    /// Neither a header nor the source identifier names the year.
    YearUndetermined,
    /// No row of the sheet yields a fact.
    NoFacts,
}

pub enum ParseErrorView {
    YearNotInSourceId,
    HeaderUnreadable,
    ColumnCountMismatch { expected: usize, headers: Seq<Seq<char>> },
    ColumnNameMismatch { index: usize, expected: Seq<char>, found: Seq<char> },
    NoValidRows,
    NoPartidas,
    PeriodOutOfRange { line: u128 },
    NoSheets,
    TooFewRows,
    EntityColumnMissing,
    AmountColumnMissing,
    YearUndetermined,
    NoFacts,
}

impl View for ParseError {
    type V = ParseErrorView;

    open spec fn view(&self) -> ParseErrorView {
        match self {
            ParseError::YearNotInSourceId => ParseErrorView::YearNotInSourceId,
            ParseError::HeaderUnreadable => ParseErrorView::HeaderUnreadable,
            ParseError::ColumnCountMismatch { expected, headers } => ParseErrorView::ColumnCountMismatch {
                expected: *expected,
                headers: headers.deep_view(),
            },
            ParseError::ColumnNameMismatch { index, expected, found } => ParseErrorView::ColumnNameMismatch {
                index: *index,
                expected: expected@,
                found: found@,
            },
            ParseError::NoValidRows => ParseErrorView::NoValidRows,
            ParseError::NoPartidas => ParseErrorView::NoPartidas,
            ParseError::PeriodOutOfRange { line } => ParseErrorView::PeriodOutOfRange { line: *line },
            ParseError::NoSheets => ParseErrorView::NoSheets,
            ParseError::TooFewRows => ParseErrorView::TooFewRows,
            ParseError::EntityColumnMissing => ParseErrorView::EntityColumnMissing,
            ParseError::AmountColumnMissing => ParseErrorView::AmountColumnMissing,
            ParseError::YearUndetermined => ParseErrorView::YearUndetermined,
            ParseError::NoFacts => ParseErrorView::NoFacts,
        }
    }
}

impl DeepView for ParseError {
    type V = ParseErrorView;

    open spec fn deep_view(&self) -> ParseErrorView {
        self@
    }
}

/// The kinds of failure that callers tell apart.
#[derive(Clone, Copy, Debug, PartialEq, Eq, Structural)]
pub enum ErrorKind {
    /// The fixed rules do not determine how to read the artifact.
    Ambiguity,
    /// The artifact is read as the rules say, and holds nothing usable.
    Unusable,
}

/// The texts in a row, each in quotes, with commas between them.
pub open spec fn listed(texts: Seq<Seq<char>>) -> Seq<char>
    decreases texts.len(),
{
    if texts.len() == 0 {
        Seq::empty()
    } else if texts.len() == 1 {
        "'"@ + texts[0] + "'"@
    } else {
        listed(texts.drop_last()) + ", '"@ + texts.last() + "'"@
    }
}

/// Lists the texts, each in quotes, with commas between them.
pub fn list_texts(texts: &Vec<String>) -> (r: String)
    ensures
        r@ == listed(texts.deep_view()),
{
    let mut r = String::new();
    let mut i: usize = 0;
    let ghost tv = texts.deep_view();
    assert(tv.take(0) == Seq::<Seq<char>>::empty());
    while i < texts.len()
        invariant
            i <= texts.len(),
            tv == texts.deep_view(),
            r@ == listed(tv.take(i as int)),
        decreases texts.len() - i,
    {
        proof {
            let now = tv.take(i + 1);
            assert(now.drop_last() == tv.take(i as int));
            assert(now.last() == texts[i as int]@);
            assert(now.len() == 1 ==> now[0] == texts[i as int]@);
            assert(i == 0 ==> r@ == Seq::<char>::empty());
        }
        if i == 0 {
            r.append("'");
            assert(r@ == "'"@) by {
                assert(Seq::<char>::empty() + "'"@ == "'"@);
            }
        } else {
            r.append(", '");
        }
        r.append(texts[i].as_str());
        r.append("'");
        i = i + 1;
    }
    assert(tv.take(texts.len() as int) == tv);
    r
}

impl ParseErrorView {
    /// The kind of this failure.
    pub open spec fn kind_of(self) -> ErrorKind {
        match self {
            ParseErrorView::YearNotInSourceId
            | ParseErrorView::ColumnCountMismatch { .. }
            | ParseErrorView::ColumnNameMismatch { .. }
            | ParseErrorView::NoValidRows
            | ParseErrorView::NoPartidas
            | ParseErrorView::EntityColumnMissing
            | ParseErrorView::AmountColumnMissing
            | ParseErrorView::YearUndetermined => ErrorKind::Ambiguity,
            _ => ErrorKind::Unusable,
        }
    }

    /// What went wrong, in words.
    pub open spec fn detail_of(self) -> Seq<char> {
        match self {
            ParseErrorView::YearNotInSourceId => "Cannot extract year from source_id"@,
            ParseErrorView::HeaderUnreadable => "Failed to read CSV headers"@,
            ParseErrorView::ColumnCountMismatch { expected, headers } => "Expected "@ + decimal(
                expected as nat,
            ) + " columns, found "@ + decimal(headers.len()) + ". Headers: "@ + listed(headers),
            ParseErrorView::ColumnNameMismatch { index, expected, found } => "Column "@ + decimal(
                index as nat,
            ) + " mismatch. Expected '"@ + expected + "', found '"@ + found + "'"@,
            ParseErrorView::NoValidRows => "No valid rows parsed from CSV"@,
            ParseErrorView::NoPartidas => "No partidas found after aggregation"@,
            ParseErrorView::PeriodOutOfRange { line } => "Invalid year for period at line "@
                + decimal(line as nat),
            ParseErrorView::NoSheets => "XLS file has no sheets"@,
            ParseErrorView::TooFewRows => "Sheet has insufficient rows (need header + data)"@,
            ParseErrorView::EntityColumnMissing => "No entity column found"@,
            ParseErrorView::AmountColumnMissing => "No amount column found"@,
            ParseErrorView::YearUndetermined =>
                "No year column found and cannot extract year from source_id"@,
            ParseErrorView::NoFacts => "No facts parsed from XLS file"@,
        }
    }

    /// The message of this failure. That of an ambiguity begins with
    /// `AMBIGUITY: `.
    pub open spec fn message_of(self) -> Seq<char> {
        if self.kind_of() == ErrorKind::Ambiguity {
            "AMBIGUITY: "@ + self.detail_of()
        } else {
            self.detail_of()
        }
    }
}

/// Copies the texts.
pub fn copy_texts(texts: &Vec<String>) -> (r: Vec<String>)
    ensures
        r.deep_view() == texts.deep_view(),
{
    let mut r: Vec<String> = Vec::new();
    let mut i: usize = 0;
    while i < texts.len()
        invariant
            i <= texts.len(),
            r.len() == i,
            forall|k: int| 0 <= k < i ==> (#[trigger] r[k])@ == texts[k]@,
        decreases texts.len() - i,
    {
        r.push(texts[i].clone());
        i = i + 1;
    }
    assert(r.deep_view() =~= texts.deep_view());
    r
}

impl ParseError {
    /// A copy of this failure.
    pub fn duplicate(&self) -> (r: ParseError)
        ensures
            r@ == self@,
    {
        match self {
            ParseError::YearNotInSourceId => ParseError::YearNotInSourceId,
            ParseError::HeaderUnreadable => ParseError::HeaderUnreadable,
            ParseError::ColumnCountMismatch { expected, headers } => ParseError::ColumnCountMismatch {
                expected: *expected,
                headers: copy_texts(headers),
            },
            ParseError::ColumnNameMismatch { index, expected, found } => ParseError::ColumnNameMismatch {
                index: *index,
                expected: expected.clone(),
                found: found.clone(),
            },
            ParseError::NoValidRows => ParseError::NoValidRows,
            ParseError::NoPartidas => ParseError::NoPartidas,
            ParseError::PeriodOutOfRange { line } => ParseError::PeriodOutOfRange { line: *line },
            ParseError::NoSheets => ParseError::NoSheets,
            ParseError::TooFewRows => ParseError::TooFewRows,
            ParseError::EntityColumnMissing => ParseError::EntityColumnMissing,
            ParseError::AmountColumnMissing => ParseError::AmountColumnMissing,
            ParseError::YearUndetermined => ParseError::YearUndetermined,
            ParseError::NoFacts => ParseError::NoFacts,
        }
    }

    /// The kind of this failure.
    pub fn kind(&self) -> (k: ErrorKind)
        ensures
            k == self@.kind_of(),
    {
        match self {
            ParseError::YearNotInSourceId
            | ParseError::ColumnCountMismatch { .. }
            | ParseError::ColumnNameMismatch { .. }
            | ParseError::NoValidRows
            | ParseError::NoPartidas
            | ParseError::EntityColumnMissing
            | ParseError::AmountColumnMissing
            | ParseError::YearUndetermined => ErrorKind::Ambiguity,
            _ => ErrorKind::Unusable,
        }
    }

    /// What went wrong, in words.
    pub fn detail(&self) -> (r: String)
        ensures
            r@ == self@.detail_of(),
    {
        match self {
            ParseError::YearNotInSourceId => "Cannot extract year from source_id".to_owned(),
            ParseError::HeaderUnreadable => "Failed to read CSV headers".to_owned(),
            ParseError::ColumnCountMismatch { expected, headers } => {
                let mut r = "Expected ".to_owned();
                push_decimal(&mut r, *expected as u128);
                r.append(" columns, found ");
                push_decimal(&mut r, headers.len() as u128);
                r.append(". Headers: ");
                let list = list_texts(headers);
                r.append(list.as_str());
                r
            },
            ParseError::ColumnNameMismatch { index, expected, found } => {
                let mut r = "Column ".to_owned();
                push_decimal(&mut r, *index as u128);
                r.append(" mismatch. Expected '");
                r.append(expected.as_str());
                r.append("', found '");
                r.append(found.as_str());
                r.append("'");
                r
            },
            ParseError::NoValidRows => "No valid rows parsed from CSV".to_owned(),
            ParseError::NoPartidas => "No partidas found after aggregation".to_owned(),
            ParseError::PeriodOutOfRange { line } => {
                let mut r = "Invalid year for period at line ".to_owned();
                push_decimal(&mut r, *line);
                r
            },
            ParseError::NoSheets => "XLS file has no sheets".to_owned(),
            ParseError::TooFewRows => "Sheet has insufficient rows (need header + data)".to_owned(),
            ParseError::EntityColumnMissing => "No entity column found".to_owned(),
            ParseError::AmountColumnMissing => "No amount column found".to_owned(),
            ParseError::YearUndetermined =>
                "No year column found and cannot extract year from source_id".to_owned(),
            ParseError::NoFacts => "No facts parsed from XLS file".to_owned(),
        }
    }

    /// The message of this failure.
    pub fn message(&self) -> (r: String)
        ensures
            r@ == self@.message_of(),
    {
        let detail = self.detail();
        if self.is_ambiguity() {
            let mut r = "AMBIGUITY: ".to_owned();
            r.append(detail.as_str());
            r
        } else {
            detail
        }
    }

    /// Whether this failure is an ambiguity.
    pub fn is_ambiguity(&self) -> (b: bool)
        ensures
            b == (self@.kind_of() == ErrorKind::Ambiguity),
    {
        self.kind() == ErrorKind::Ambiguity
    }
}

/// The result of a parse that succeeds.
#[derive(Clone, Debug, PartialEq, Eq)]
pub struct ParseOutcome {
    /// The fact candidates, in the order in which they are to be written.
    pub facts: Vec<ParsedFact>,
    /// The rows that were passed over, in the order of their lines.
    pub warnings: Vec<RowWarning>,
}

pub struct OutcomeView {
    pub facts: Seq<FactView>,
    pub warnings: Seq<RowWarning>,
}

impl View for ParseOutcome {
    type V = OutcomeView;

    open spec fn view(&self) -> OutcomeView {
        OutcomeView { facts: self.facts.deep_view(), warnings: self.warnings@ }
    }
}

} // verus!
