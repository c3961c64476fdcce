//! Decoding the source text into a header and the data rows after it.
//!
//! The first record of the text is the header. The rows after it are handed
//! out one at a time, in source order, as raw strings: nothing is trimmed
//! and nothing is read as a number.

use vstd::prelude::*;
use vstd::string::StringSliceAdditionalSpecFns;
use crate::csv_reader;
use crate::csv_reader::{csv_header, csv_records, reader_header, reader_pending, record_fields};
use crate::error::ConvertError;

verus! {

/// A source text whose header has been read and whose data rows are handed
/// out by [`RowDecoder::next_row`].
pub struct RowDecoder<'a> {
    header: csv::StringRecord,
    reader: csv::Reader<&'a [u8]>,
}

impl<'a> RowDecoder<'a> {
    /// The header is the one of the text that is read, and it has a column.
    #[verifier::type_invariant]
    spec fn well_formed(self) -> bool {
        &&& reader_header(self.reader) == Some(record_fields(self.header))
        &&& record_fields(self.header).len() > 0
    }

    /// The column names, in order.
    pub closed spec fn columns(&self) -> Seq<Seq<char>> {
        record_fields(self.header)
    }

    /// The rows not handed out yet, in source order: the cells of each, or
    /// `None` for a row that cannot be read.
    pub closed spec fn pending(&self) -> Seq<Option<Seq<Seq<char>>>> {
        reader_pending(self.reader)
    }

    /// Reads the header of `contents`.
    ///
    /// Fails with `MissingHeader` exactly when the header cannot be read or
    /// has no column, as is the case for an empty source.
    pub fn new(contents: &'a str) -> (decoder: Result<RowDecoder<'a>, ConvertError>)
        ensures
            match decoder {
                Ok(rows) => {
                    &&& csv_header(contents.spec_bytes()) == Some(rows.columns())
                    &&& rows.columns().len() > 0
                    &&& rows.pending() == csv_records(contents.spec_bytes())
                },
                Err(error) => {
                    &&& error == ConvertError::MissingHeader
                    &&& csv_header(contents.spec_bytes()) matches Some(columns)
                        ==> columns.len() == 0
                },
            },
    {
        let mut reader = csv_reader::open_reader(contents.as_bytes());
        match csv_reader::read_header(&mut reader) {
            Ok(header) => {
                if csv_reader::record_len(&header) == 0 {
                    Err(ConvertError::MissingHeader)
                } else {
                    Ok(RowDecoder { header, reader })
                }
            },
            Err(_) => Err(ConvertError::MissingHeader),
        }
    }

    /// The header record. It has at least one column.
    pub fn header(&self) -> (header: &csv::StringRecord)
        ensures
            record_fields(*header) == self.columns(),
            self.columns().len() > 0,
    {
        proof {
            use_type_invariant(self);
        }
        &self.header
    }

    /// Hands out the next row, or `None` after the last one.
    ///
    /// Fails with `RowParse` exactly when the next row cannot be read. That
    /// row is then passed over, and the rows after it can still be asked
    /// for.
    pub fn next_row(&mut self) -> (row: Result<Option<csv::StringRecord>, ConvertError>)
        ensures
            final(self).columns() == old(self).columns(),
            match row {
                Ok(None) => {
                    &&& old(self).pending().len() == 0
                    &&& final(self).pending() == old(self).pending()
                },
                Ok(Some(record)) => {
                    &&& old(self).pending().len() > 0
                    &&& old(self).pending()[0] == Some(record_fields(record))
                    &&& final(self).pending() == old(self).pending().skip(1)
                },
                Err(error) => {
                    &&& error == ConvertError::RowParse
                    &&& old(self).pending().len() > 0
                    &&& old(self).pending()[0] is None
                    &&& final(self).pending() == old(self).pending().skip(1)
                },
            },
    {
        proof {
            use_type_invariant(&*self);
        }
        match csv_reader::next_record(&mut self.reader) {
            None => Ok(None),
            Some(Ok(record)) => Ok(Some(record)),
            Some(Err(_)) => Err(ConvertError::RowParse),
        }
    }
}

} // verus!
