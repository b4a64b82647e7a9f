//! Reading delimited text into records of fields, and finding the line of
//! the text on which a record stands.

use vstd::prelude::*;
use vstd::string::StringSliceAdditionalSpecFns;
use vstd::utf8::encode_utf8;

verus! {

/// The comma, which delimits the fields of the generic dialect.
pub const COMMA: u8 = 44;

/// The semicolon, which delimits the fields of the budget-law export.
pub const SEMICOLON: u8 = 59;

/// The fields of the first record of a delimited text, or `None` where
/// that record cannot be read. With `trim` set, the fields come without
/// the whitespace around them.
pub uninterp spec fn delimited_header(content: Seq<char>, delimiter: u8, trim: bool) -> Option<
    Seq<Seq<char>>,
>;

/// The records that follow the first one, in order. Each comes with the
/// offset in bytes at which the reader took it up, if the reader tells
/// one, and with its fields, or `None` where it cannot be read. With
/// `flexible` unset, a record whose number of fields differs from the
/// first record's cannot be read. With `trim` set, the fields come without
/// the whitespace around them.
pub uninterp spec fn delimited_records(
    content: Seq<char>,
    delimiter: u8,
    flexible: bool,
    trim: bool,
) -> Seq<(Option<u64>, Option<Seq<Seq<char>>>)>;

/// The view of records as they are taken from a text.
pub open spec fn taken_view(records: Seq<(Option<u64>, Option<Vec<String>>)>) -> Seq<
    (Option<u64>, Option<Seq<Seq<char>>>),
> {
    records.map_values(|r: (Option<u64>, Option<Vec<String>>)| (r.0, r.1.deep_view()))
}

/// Reads the header record of a delimited text.
///
/// Trusted: `csv::Reader::headers`, on a reader that `csv::ReaderBuilder`
/// made over the text with the given delimiter and trimming, is a function
/// of these three alone. The contract names its result.
#[verifier::external_body]
pub(crate) fn read_header(content: &str, delimiter: u8, trim: bool) -> (r: Option<Vec<String>>)
    requires
        delimiter == COMMA || delimiter == SEMICOLON,
    ensures
        r.deep_view() == delimited_header(content@, delimiter, trim),
{
    let mut reader = csv::ReaderBuilder::new()
        .delimiter(delimiter)
        .trim(if trim { csv::Trim::All } else { csv::Trim::None })
        .from_reader(content.as_bytes());
    match reader.headers() {
        Ok(record) => Some(record.iter().map(|field| field.to_string()).collect()),
        Err(_) => None,
    }
}

/// Reads the records of a delimited text that follow its header.
///
/// Trusted: `csv::Reader::records`, on a reader that `csv::ReaderBuilder`
/// made over the text with the given delimiter, flexibility and trimming,
/// yields a sequence of results that is a function of these four alone.
/// Each result is handed out with the byte offset of its position
/// (`Position::byte` of the record or of the error). The contract names
/// that sequence.
#[verifier::external_body]
pub(crate) fn read_records(content: &str, delimiter: u8, flexible: bool, trim: bool) -> (r: Vec<
    (Option<u64>, Option<Vec<String>>),
>)
    requires
        delimiter == COMMA || delimiter == SEMICOLON,
    ensures
        taken_view(r@) == delimited_records(content@, delimiter, flexible, trim),
{
    let mut reader = csv::ReaderBuilder::new()
        .delimiter(delimiter)
        .flexible(flexible)
        .trim(if trim { csv::Trim::All } else { csv::Trim::None })
        .from_reader(content.as_bytes());
    reader
        .records()
        .map(|record| match record {
            Ok(fields) => (
                fields.position().map(|p| p.byte()),
                Some(fields.iter().map(|field| field.to_string()).collect()),
            ),
            Err(e) => (e.position().map(|p| p.byte()), None),
        })
        .collect()
}

/// `b` is a line feed or a carriage return.
pub open spec fn is_break(b: u8) -> bool {
    b == 10 || b == 13
}

/// The first place from `from` on that holds no line feed and no carriage
/// return.
pub open spec fn skip_breaks(bytes: Seq<u8>, from: int) -> int
    decreases bytes.len() - from,
{
    if 0 <= from < bytes.len() && is_break(bytes[from]) {
        skip_breaks(bytes, from + 1)
    } else {
        from
    }
}

/// The number of line feeds among the bytes.
pub open spec fn line_feeds(bytes: Seq<u8>) -> nat
    decreases bytes.len(),
{
    if bytes.len() == 0 {
        0
    } else if bytes.last() == 10 {
        line_feeds(bytes.drop_last()) + 1
    } else {
        line_feeds(bytes.drop_last())
    }
}

/// The place in the text from which a record is read: the reader takes a
/// record up where the one before ended, and reads over empty lines.
pub open spec fn record_start(bytes: Seq<u8>, offset: u64) -> int {
    skip_breaks(
        bytes,
        if offset <= bytes.len() {
            offset as int
        } else {
            bytes.len() as int
        },
    )
}

/// The line of the text on which a record stands, counted from 1: one
/// more than the line feeds before the place from which it is read. It is
/// 0 where the reader tells no offset.
pub open spec fn record_line(bytes: Seq<u8>, offset: Option<u64>) -> nat {
    match offset {
        Some(at) => 1 + line_feeds(bytes.take(record_start(bytes, at))),
        None => 0,
    }
}

/// The line of a record of a text.
pub open spec fn line_in(content: Seq<char>, offset: Option<u64>) -> u128 {
    record_line(encode_utf8(content), offset) as u128
}

/// A place in a text up to which the lines have been counted.
pub(crate) struct LineCursor {
    /// The number of bytes that were looked at.
    pub at: usize,
    /// The line on which the next byte stands.
    pub line: u128,
}

impl LineCursor {
    /// The cursor counts the lines of `bytes`.
    pub(crate) open spec fn counts(&self, bytes: Seq<u8>) -> bool {
        self.at <= bytes.len() && self.line == 1 + line_feeds(bytes.take(self.at as int))
    }

    /// A cursor at the start of a text.
    pub(crate) fn new() -> (cursor: LineCursor)
        ensures
            forall|bytes: Seq<u8>| #[trigger] cursor.counts(bytes),
    {
        let cursor = LineCursor { at: 0, line: 1 };
        assert forall|bytes: Seq<u8>| #[trigger] cursor.counts(bytes) by {
            assert(bytes.take(0) == Seq::<u8>::empty());
        }
        cursor
    }

    /// The line on which the record taken up at `offset` stands. The
    /// cursor moves on to that record; an offset before the cursor makes
    /// it count again from the start.
    pub(crate) fn line_of(&mut self, content: &str, offset: Option<u64>) -> (line: u128)
        requires
            old(self).counts(encode_utf8(content@)),
        ensures
            final(self).counts(encode_utf8(content@)),
            line == line_in(content@, offset),
    {
        let bytes = content.as_bytes();
        let n = bytes.len();
        let at = match offset {
            Some(at) => at,
            None => {
                return 0;
            },
        };
        let mut start: usize = if at <= n as u64 {
            at as usize
        } else {
            n
        };
        let ghost from = start;
        while start < n && (bytes[start] == 10 || bytes[start] == 13)
            invariant
                from <= start <= n == bytes@.len(),
                skip_breaks(bytes@, from as int) == skip_breaks(bytes@, start as int),
            decreases n - start,
        {
            start = start + 1;
        }
        if start < self.at {
            self.at = 0;
            self.line = 1;
            assert(bytes@.take(0) == Seq::<u8>::empty());
        }
        proof {
            lemma_line_feeds_bound(bytes@.take(self.at as int));
        }
        while self.at < start
            invariant
                self.at <= start <= n == bytes@.len(),
                self.line == 1 + line_feeds(bytes@.take(self.at as int)),
                self.line <= 1 + self.at,
            decreases start - self.at,
        {
            proof {
                let now = bytes@.take(self.at + 1);
                assert(now.drop_last() == bytes@.take(self.at as int));
                assert(now.last() == bytes@[self.at as int]);
            }
            if bytes[self.at] == 10 {
                self.line = self.line + 1;
            }
            self.at = self.at + 1;
        }
        self.line
    }
}

/// The line of a text on which the record taken up at `offset` stands.
pub fn line_of_record(content: &str, offset: Option<u64>) -> (line: u128)
    ensures
        line == line_in(content@, offset),
{
    let mut cursor = LineCursor::new();
    cursor.line_of(content, offset)
}

/// There are no more line feeds than bytes.
pub proof fn lemma_line_feeds_bound(bytes: Seq<u8>)
    ensures
        line_feeds(bytes) <= bytes.len(),
    decreases bytes.len(),
{
    if bytes.len() > 0 {
        lemma_line_feeds_bound(bytes.drop_last());
    }
}

} // verus!
