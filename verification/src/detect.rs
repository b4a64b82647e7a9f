//! Telling the dialect of an artifact from what is recorded of it: its
//! media type, the suffix of its storage path, and its source identifier.
//! The content is never looked at.

use vstd::prelude::*;
use crate::text::{is_infix, is_prefix, is_suffix, str_contains, str_ends_with, str_starts_with};

verus! {

/// The dialects that the parsing engine reads.
#[derive(Clone, Copy, Debug, PartialEq, Eq, Structural)]
pub enum NamedDialect {
    /// The budget-law export.
    DipresLey,
}

/// How an artifact is to be read.
#[derive(Clone, Copy, Debug, PartialEq, Eq, Structural)]
pub enum Format {
    /// A spreadsheet workbook.
    Spreadsheet,
    /// A delimited text of a dialect that is known by name.
    NamedDialect(NamedDialect),
    /// A comma-delimited text with a header.
    GenericCsv,
}

/// The media type or the path says that the artifact is a workbook.
pub open spec fn is_excel_file_of(mime_type: Seq<char>, storage_path: Seq<char>) -> bool {
    ||| is_infix("excel"@, mime_type)
    ||| is_infix("spreadsheet"@, mime_type)
    ||| is_suffix(".xls"@, storage_path)
    ||| is_suffix(".xlsx"@, storage_path)
}

/// The source identifier is that of a budget-law export.
pub open spec fn is_dipres_ley_csv_of(source_id: Seq<char>) -> bool {
    is_prefix("dipres-ley-presupuestos"@, source_id)
}

/// The format of an artifact: a workbook where the media type or the path
/// says so, else the named dialect of its source, else generic.
pub open spec fn format_of(mime_type: Seq<char>, storage_path: Seq<char>, source_id: Seq<char>) -> Format {
    if is_excel_file_of(mime_type, storage_path) {
        Format::Spreadsheet
    } else if is_dipres_ley_csv_of(source_id) {
        Format::NamedDialect(NamedDialect::DipresLey)
    } else {
        Format::GenericCsv
    }
}

/// Whether the media type or the storage path marks a workbook.
pub fn is_excel_file(mime_type: &str, storage_path: &str) -> (b: bool)
    ensures
        b == is_excel_file_of(mime_type@, storage_path@),
{
    str_contains(mime_type, "excel") || str_contains(mime_type, "spreadsheet") || str_ends_with(
        storage_path,
        ".xls",
    ) || str_ends_with(storage_path, ".xlsx")
}

/// Whether the source identifier is that of a budget-law export.
pub fn is_dipres_ley_csv(source_id: &str) -> (b: bool)
    ensures
        b == is_dipres_ley_csv_of(source_id@),
{
    str_starts_with(source_id, "dipres-ley-presupuestos")
}

/// Chooses the format of an artifact.
pub fn detect_format(mime_type: &str, storage_path: &str, source_id: &str) -> (f: Format)
    ensures
        f == format_of(mime_type@, storage_path@, source_id@),
{
    if is_excel_file(mime_type, storage_path) {
        Format::Spreadsheet
    } else if is_dipres_ley_csv(source_id) {
        Format::NamedDialect(NamedDialect::DipresLey)
    } else {
        Format::GenericCsv
    }
}

} // verus!
