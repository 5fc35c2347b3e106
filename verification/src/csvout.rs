//! Delimited text, written by the `csv` crate.
//!
//! A document is a run of records; a record is a run of fields. The crate decides
//! how a record is written: which fields it quotes, what separates and ends them.
//! Here that is taken as given, and what is proved is which records are written,
//! in which order, and that none is refused where all have one width.

use vstd::prelude::*;
use vstd::string::*;
use crate::error::{AppError, AppResult};

verus! {

/// A `csv::Writer` with its default settings that writes into a byte vector.
#[verifier::external_body]
pub struct CsvWriter {
    inner: csv::Writer<Vec<u8>>,
}

/// The bytes that the writer has taken so far.
pub uninterp spec fn csv_written(writer: CsvWriter) -> Seq<u8>;

/// The number of fields of the first record written, which every later record
/// must have; `None` before the first.
pub uninterp spec fn csv_width(writer: CsvWriter) -> Option<nat>;

/// The bytes that `csv::Writer::write_record` writes for one record under the
/// default settings.
pub uninterp spec fn csv_record(fields: Seq<Seq<char>>) -> Seq<u8>;

/// The fields of a record as mathematics.
pub open spec fn record_view(record: Seq<String>) -> Seq<Seq<char>> {
    record.map_values(|field: String| field@)
}

/// The records of a document as mathematics.
pub open spec fn rows_view(rows: Seq<Vec<String>>) -> Seq<Seq<Seq<char>>> {
    rows.map_values(|row: Vec<String>| record_view(row@))
}

/// The bytes of a document: those of its records, one after the other.
pub open spec fn csv_document(rows: Seq<Seq<Seq<char>>>) -> Seq<u8>
    decreases rows.len(),
{
    if rows.len() == 0 {
        Seq::empty()
    } else {
        csv_document(rows.drop_last()) + csv_record(rows.last())
    }
}

/// Whether all records have as many fields as the first.
pub open spec fn rows_uniform(rows: Seq<Seq<Seq<char>>>) -> bool {
    forall|i: int| 0 <= i < rows.len() ==> (#[trigger] rows[i]).len() == rows[0].len()
}

/// Calls `csv::Writer::from_writer` on an empty vector. Trusted: the new writer has
/// written nothing and has seen no record.
#[verifier::external_body]
fn csv_writer_new() -> (writer: CsvWriter)
    ensures
        csv_written(writer) == Seq::<u8>::empty(),
        csv_width(writer) is None,
{
    CsvWriter { inner: csv::Writer::from_writer(Vec::new()) }
}

/// Calls `csv::Writer::write_record`. Trusted: a record is refused exactly when an
/// earlier record had another number of fields (writing into a vector cannot fail
/// otherwise); a record that is taken adds its bytes after those written before, and
/// the first record fixes the number of fields. What was UTF-8 before stays UTF-8:
/// the fields are texts, copied as they are, and only quotes, delimiters and
/// terminators of one byte each are put between and around them. A writer that
/// refused a record is dropped: the crate leaves it in the middle of a record.
#[verifier::external_body]
fn csv_write_record(writer: CsvWriter, record: &Vec<String>) -> (done: Result<CsvWriter, String>)
    ensures
        done is Ok <==> (csv_width(writer) is None || csv_width(writer) == Some(record@.len())),
        done matches Ok(next) ==> csv_written(next) == csv_written(writer) + csv_record(
            record_view(record@),
        ) && csv_width(next) == Some(record@.len()),
        done matches Ok(next) ==> (vstd::utf8::valid_utf8(csv_written(writer))
            ==> vstd::utf8::valid_utf8(csv_written(next))),
{
    let mut inner = writer.inner;
    match inner.write_record(record) {
        Ok(()) => Ok(CsvWriter { inner }),
        Err(e) => Err(e.to_string()),
    }
}

/// Calls `csv::Writer::into_inner`. Trusted: flushing into a vector cannot fail, and
/// the vector handed back holds the bytes written.
#[verifier::external_body]
fn csv_into_bytes(writer: CsvWriter) -> (bytes: Result<Vec<u8>, String>)
    ensures
        bytes is Ok,
        bytes matches Ok(data) ==> data@ == csv_written(writer),
{
    match writer.inner.into_inner() {
        Ok(bytes) => Ok(bytes),
        Err(e) => Err(e.to_string()),
    }
}

/// Calls `String::from_utf8`. Trusted: it succeeds exactly on valid UTF-8, and the
/// text has the bytes given.
#[verifier::external_body]
fn text_from_utf8(bytes: Vec<u8>) -> (text: Result<String, String>)
    ensures
        text is Ok <==> vstd::utf8::valid_utf8(bytes@),
        text matches Ok(s) ==> vstd::utf8::encode_utf8(s@) == bytes@,
{
    match String::from_utf8(bytes) {
        Ok(text) => Ok(text),
        Err(e) => Err(e.to_string()),
    }
}

fn internal(what: &str, why: String) -> (error: AppError)
    ensures
        error is Internal,
{
    AppError::Internal(String::from_str(what).concat(why.as_str()))
}

/// Writes `rows` as one delimited document.
///
/// It succeeds exactly where all records have as many fields as the first, and
/// then returns the text whose bytes are those of the records in order. Otherwise
/// the failure is `Internal`.
pub fn write_csv(rows: &Vec<Vec<String>>) -> (result: AppResult<String>)
    ensures
        result is Ok <==> rows_uniform(rows_view(rows@)),
        result matches Ok(text) ==> vstd::utf8::encode_utf8(text@) == csv_document(
            rows_view(rows@),
        ),
        result matches Err(e) ==> e is Internal,
{
    let mut writer = csv_writer_new();
    let mut i: usize = 0;
    while i < rows.len()
        invariant
            i <= rows.len(),
            csv_written(writer) == csv_document(rows_view(rows@).take(i as int)),
            vstd::utf8::valid_utf8(csv_written(writer)),
            i == 0 ==> csv_width(writer) is None,
            i > 0 ==> csv_width(writer) == Some(rows_view(rows@)[0].len()),
            forall|k: int|
                0 <= k < i ==> (#[trigger] rows_view(rows@)[k]).len() == rows_view(rows@)[0].len(),
        decreases rows.len() - i,
    {
        let ghost all = rows_view(rows@);
        proof {
            assert(all[i as int] == record_view(rows@[i as int]@));
            assert(all[i as int].len() == rows@[i as int]@.len());
            assert(all.take(i + 1).drop_last() =~= all.take(i as int));
        }
        match csv_write_record(writer, &rows[i]) {
            Ok(next) => {
                writer = next;
            },
            Err(why) => {
                return Err(internal("CSV write error: ", why));
            },
        }
        i += 1;
    }
    proof {
        assert(rows_view(rows@).take(i as int) =~= rows_view(rows@));
    }
    match csv_into_bytes(writer) {
        Ok(bytes) => match text_from_utf8(bytes) {
            Ok(text) => Ok(text),
            Err(why) => Err(internal("CSV encoding error: ", why)),
        },
        Err(why) => Err(internal("CSV flush error: ", why)),
    }
}

} // verus!
