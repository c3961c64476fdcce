//! The boundary to the `csv` crate.
//!
//! Readers and records of the crate are opaque to the verifier. What they
//! hold is spoken of through the names below, and each function makes the
//! calls into the crate that its comment names. The contracts are taken
//! from the crate's source and are believed, not proved.
//!
//! A reader is made with the crate's default settings: the first record is
//! the header and is never handed out as a data record, fields are
//! separated by commas and may be quoted, and a record whose number of
//! fields differs from that of the first record is reported as an error.

use vstd::prelude::*;

verus! {

/// `csv::StringRecord`, one record of the data. Nothing of its inside is
/// known here.
#[verifier::external_type_specification]
#[verifier::external_body]
pub struct ExStringRecord(csv::StringRecord);

/// `csv::Error`, the failure that a reader reports. Nothing of its inside
/// is known here.
#[verifier::external_type_specification]
#[verifier::external_body]
pub struct ExCsvError(csv::Error);

/// `csv::Reader`, a reader of records from a source of bytes. Nothing of
/// its inside is known here.
#[verifier::external_type_specification]
#[verifier::external_body]
#[verifier::reject_recursive_types(R)]
pub struct ExReader<R>(csv::Reader<R>);

/// The fields of `record`, in order.
pub uninterp spec fn record_fields(record: csv::StringRecord) -> Seq<Seq<char>>;

/// The header that a reader with default settings finds in `source`: the
/// fields of the first record, or `None` where reading it fails. A source
/// without any record has a header without fields.
pub uninterp spec fn csv_header(source: Seq<u8>) -> Option<Seq<Seq<char>>>;

/// The data records that a reader with default settings finds in `source`
/// after the header, in order: the fields of each, or `None` for one that
/// the reader reports as an error. A reader goes on after such a record.
pub uninterp spec fn csv_records(source: Seq<u8>) -> Seq<Option<Seq<Seq<char>>>>;

/// The header of the data that `reader` reads, as [`csv_header`] gives it.
pub uninterp spec fn reader_header(reader: csv::Reader<&[u8]>) -> Option<Seq<Seq<char>>>;

/// The data records that `reader` has not handed out yet, as
/// [`csv_records`] gives them.
pub uninterp spec fn reader_pending(reader: csv::Reader<&[u8]>) -> Seq<Option<Seq<Seq<char>>>>;

/// `csv::Reader::from_reader` on a byte slice: a reader with default
/// settings that has handed out nothing yet.
#[verifier::external_body]
pub(crate) fn open_reader<'a>(source: &'a [u8]) -> (reader: csv::Reader<&'a [u8]>)
    ensures
        reader_header(reader) == csv_header(source@),
        reader_pending(reader) == csv_records(source@),
{
    csv::Reader::from_reader(source)
}

/// `csv::Reader::headers`, with the record cloned: the header, or the error
/// met in reading it. The data records still to come are not affected.
#[verifier::external_body]
pub(crate) fn read_header(reader: &mut csv::Reader<&[u8]>) -> (header: Result<
    csv::StringRecord,
    csv::Error,
>)
    ensures
        match header {
            Ok(record) => reader_header(*old(reader)) == Some(record_fields(record)),
            Err(_) => reader_header(*old(reader)) is None,
        },
        reader_header(*final(reader)) == reader_header(*old(reader)),
        reader_pending(*final(reader)) == reader_pending(*old(reader)),
{
    reader.headers().cloned()
}

/// `csv::Reader::records` and one call of `next` on it: the first data
/// record not handed out yet, or the error reported for it, which is then
/// no longer pending; `None` where no record is left. Reading from a byte
/// slice, the call does not panic.
#[verifier::external_body]
pub(crate) fn next_record(reader: &mut csv::Reader<&[u8]>) -> (next: Option<
    Result<csv::StringRecord, csv::Error>,
>)
    ensures
        reader_header(*final(reader)) == reader_header(*old(reader)),
        match next {
            None => reader_pending(*old(reader)).len() == 0 && reader_pending(*final(reader))
                == reader_pending(*old(reader)),
            Some(item) => {
                &&& reader_pending(*old(reader)).len() > 0
                &&& reader_pending(*final(reader)) == reader_pending(*old(reader)).skip(1)
                &&& match item {
                    Ok(record) => reader_pending(*old(reader))[0] == Some(record_fields(record)),
                    Err(_) => reader_pending(*old(reader))[0] is None,
                }
            },
        },
    no_unwind
{
    reader.records().next()
}

/// `csv::StringRecord::len`: the number of fields.
#[verifier::external_body]
pub(crate) fn record_len(record: &csv::StringRecord) -> (n: usize)
    ensures
        n == record_fields(*record).len(),
{
    record.len()
}

/// `Index<usize>` for `csv::StringRecord`: the field at `index`. The crate
/// panics where there is no such field, so the index must be in range.
#[verifier::external_body]
pub(crate) fn record_field(record: &csv::StringRecord, index: usize) -> (field: &str)
    requires
        index < record_fields(*record).len(),
    ensures
        field@ == record_fields(*record)[index as int],
{
    &record[index]
}

} // verus!
