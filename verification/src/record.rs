//! Records as delimited text, as the `csv` crate writes and reads them.
//!
//! A record is a row of text fields. On a line its fields stand between
//! commas; a field that holds a comma, a quote or a line break is put in
//! quotes, and the quotes inside it are doubled. This module does neither
//! the writing nor the reading itself: it hands rows to `csv`'s writer and
//! bytes to its reader. What the writer gives is stated here; what the
//! reader gives has a name.

use vstd::prelude::*;
use vstd::utf8::encode_utf8;

verus! {

/// Whether the byte is one of those for which a field is quoted: a comma,
/// a quote, a carriage return or a line feed.
pub open spec fn is_special(byte: u8) -> bool {
    byte == 44 || byte == 34 || byte == 13 || byte == 10
}

/// Whether a field is put in quotes: it is if it holds a special byte.
pub open spec fn needs_quotes(field: Seq<u8>) -> bool {
    exists|i: int| 0 <= i < field.len() && is_special(#[trigger] field[i])
}

/// The field with each of its quotes doubled.
pub open spec fn doubled(field: Seq<u8>) -> Seq<u8>
    decreases field.len(),
{
    if field.len() == 0 {
        Seq::empty()
    } else if field.last() == 34 {
        doubled(field.drop_last()) + seq![34u8, 34u8]
    } else {
        doubled(field.drop_last()).push(field.last())
    }
}

/// A field as it stands on a line.
pub open spec fn field_text(field: Seq<u8>) -> Seq<u8> {
    if needs_quotes(field) {
        seq![34u8] + doubled(field) + seq![34u8]
    } else {
        field
    }
}

/// The fields as they stand on a line, with a comma between neighbours.
pub open spec fn row_text(fields: Seq<Seq<char>>) -> Seq<u8>
    decreases fields.len(),
{
    if fields.len() == 0 {
        Seq::empty()
    } else if fields.len() == 1 {
        field_text(encode_utf8(fields[0]))
    } else {
        row_text(fields.drop_last()) + seq![44u8] + field_text(encode_utf8(fields.last()))
    }
}

/// The line that stands for a row of fields, its line feed included. A
/// row that would leave the line empty, one of no field or of one empty
/// field, is written as a pair of quotes.
pub open spec fn csv_line(fields: Seq<Seq<char>>) -> Seq<u8> {
    if row_text(fields).len() == 0 {
        seq![34u8, 34u8, 10u8]
    } else {
        row_text(fields).push(10u8)
    }
}

/// The text that stands for rows: their lines, one after another.
pub open spec fn csv_text(rows: Seq<Seq<Seq<char>>>) -> Seq<u8>
    decreases rows.len(),
{
    if rows.len() == 0 {
        Seq::empty()
    } else {
        csv_text(rows.drop_last()) + csv_line(rows.last())
    }
}

/// The rows that `csv::Reader::records` yields for `data`, in their order,
/// when the reader has the default settings but takes the first row for a
/// record, not for a header. An entry is `None` where the reader reports an
/// error for the row.
pub uninterp spec fn csv_records(data: Seq<u8>) -> Seq<Option<Seq<Seq<char>>>>;

/// Whether all the rows have as many fields as the first.
pub open spec fn same_width(rows: Seq<Seq<Seq<char>>>) -> bool {
    forall|i: int| 0 <= i < rows.len() ==> (#[trigger] rows[i]).len() == rows[0].len()
}

/// The rows of which this library holds that they are read as written:
/// each has three fields, and the first field of the first row does not
/// begin with a byte-order mark. (The reader passes over such a mark at
/// the start of its input.)
pub open spec fn reads_back(rows: Seq<Seq<Seq<char>>>) -> bool {
    &&& forall|i: int| 0 <= i < rows.len() ==> (#[trigger] rows[i]).len() == 3
    &&& rows.len() > 0 && rows[0].len() > 0 && rows[0][0].len() > 0 ==> rows[0][0][0]
        != '\u{feff}'
}

/// The rows as the reader yields them where it reports no error.
pub open spec fn as_read(rows: Seq<Seq<Seq<char>>>) -> Seq<Option<Seq<Seq<char>>>> {
    rows.map_values(|row: Seq<Seq<char>>| Some(row))
}

/// The error of `csv`. Nothing is read from it: it is handed through.
#[verifier::external_type_specification]
#[verifier::external_body]
pub struct ExCsvError(csv::Error);

/// Writes rows as text: `csv::Writer::write_record` for each row in turn,
/// on one new writer with the default settings over an empty buffer, then
/// `csv::Writer::into_inner` for the bytes.
///
/// Taken on trust:
/// - The text comes back where all the rows have the same number of
///   fields. The writer reports an error only when its sink does, and a
///   buffer in memory reports none, or when a row has another number of
///   fields than the first.
/// - The text is the rows' lines one after another (`csv_text`): on a
///   line the fields stand between commas, a field that holds a comma, a
///   quote, a carriage return or a line feed stands in quotes with the
///   quotes inside it doubled, and a line feed ends the line.
/// - Where `reads_back` holds of the rows, `csv::Reader::records` reads
///   the text as these rows and nothing else. The reader takes a quoted
///   field up to its closing quote and halves the doubled ones, takes any
///   other field up to the next comma or line break, and ends the row at
///   the line break.
#[verifier::external_body]
pub(crate) fn write_records(rows: &Vec<Vec<String>>) -> (r: Result<Vec<u8>, csv::Error>)
    ensures
        same_width(rows.deep_view()) ==> r is Ok,
        r matches Ok(text) ==> text@ == csv_text(rows.deep_view()),
        r matches Ok(text) ==> reads_back(rows.deep_view()) ==> csv_records(text@) == as_read(
            rows.deep_view(),
        ),
{
    let mut writer = csv::WriterBuilder::new().has_headers(false).from_writer(Vec::new());
    for row in rows {
        writer.write_record(row)?;
    }
    writer.into_inner().map_err(|e| csv::Error::from(e.into_error()))
}

/// Reads every row of `data`: `csv::Reader::records` on a reader with
/// the default settings, but for the first row, which is a record and no
/// header. A row comes back as its fields, a row for which the reader
/// reports an error (its fields are no UTF-8, or not as many as those of
/// the first row) as `None`.
///
/// Taken on trust: that the rows are what the reader yields for these
/// bytes (`csv_records`).
#[verifier::external_body]
pub(crate) fn read_records(data: &[u8]) -> (r: Vec<Option<Vec<String>>>)
    ensures
        r.deep_view() == csv_records(data@),
{
    let mut reader = csv::ReaderBuilder::new().has_headers(false).from_reader(data);
    reader.records().map(|row| row.ok().map(|r| r.iter().map(String::from).collect())).collect()
}

} // verus!
