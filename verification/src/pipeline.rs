//! The whole conversion, from the text of the source to the text of the
//! destination.
//!
//! The header is read first, then every data row becomes one record of the
//! document, in source order. The first failure ends the conversion: no
//! partial document is ever returned.

use vstd::prelude::*;
use vstd::string::StringSliceAdditionalSpecFns;
use crate::csv_reader::{csv_header, csv_records};
use crate::decoder::RowDecoder;
use crate::error::ConvertError;
use crate::json_value;
use crate::json_value::{json_text, json_view, Json};
use crate::record::{
    columns_used, json_with_record_row, keys_of, lemma_record_keys,
    lemma_record_keys_in_header_order, record_of,
};

verus! {

/// Some row of `rows` cannot be read.
pub open spec fn has_unreadable_row(rows: Seq<Option<Seq<Seq<char>>>>) -> bool {
    exists|i: int| 0 <= i < rows.len() && #[trigger] rows[i] is None
}

/// The records of the first `n` rows under `columns`, in source order.
pub open spec fn records_of(
    columns: Seq<Seq<char>>,
    rows: Seq<Option<Seq<Seq<char>>>>,
    n: int,
) -> Seq<Json> {
    Seq::new(n as nat, |i: int| record_of(columns, rows[i]->0))
}

/// The document that a source gives whose header is `header` and whose
/// data rows are `rows`, or the failure that ends the conversion.
pub open spec fn converted(
    header: Option<Seq<Seq<char>>>,
    rows: Seq<Option<Seq<Seq<char>>>>,
) -> Result<Json, ConvertError> {
    match header {
        None => Err(ConvertError::MissingHeader),
        Some(columns) => {
            if columns.len() == 0 {
                Err(ConvertError::MissingHeader)
            } else if has_unreadable_row(rows) {
                Err(ConvertError::RowParse)
            } else {
                Ok(Json::List(records_of(columns, rows, rows.len() as int)))
            }
        },
    }
}

/// A source with `H` columns and `R` data rows gives a document of
/// exactly `R` records, each an object with at most `H` members.
pub proof fn lemma_document_shape(
    header: Option<Seq<Seq<char>>>,
    rows: Seq<Option<Seq<Seq<char>>>>,
)
    requires
        converted(header, rows) is Ok,
    ensures
        header is Some,
        converted(header, rows)->Ok_0 is List,
        converted(header, rows)->Ok_0->List_0.len() == rows.len(),
        forall|i: int|
            0 <= i < rows.len() ==> {
                let record = #[trigger] converted(header, rows)->Ok_0->List_0[i];
                record is Object && record->Object_0.len() <= header->0.len()
            },
{
    let columns = header->0;
    let records = converted(header, rows)->Ok_0->List_0;
    assert forall|i: int| 0 <= i < rows.len() implies {
        let record = #[trigger] records[i];
        record is Object && record->Object_0.len() <= columns.len()
    } by {
        lemma_record_keys(columns, rows[i]->0, columns_used(columns, rows[i]->0));
    }
}

/// Where no column name stands twice in the header, every record of a row
/// that has a cell for each column lists its keys in the order of the
/// header: the header can be read back from such a record.
pub proof fn lemma_header_order_kept(
    columns: Seq<Seq<char>>,
    rows: Seq<Option<Seq<Seq<char>>>>,
    i: int,
)
    requires
        converted(Some(columns), rows) is Ok,
        columns.no_duplicates(),
        0 <= i < rows.len(),
        rows[i]->0.len() >= columns.len(),
    ensures
        converted(Some(columns), rows)->Ok_0->List_0[i] is Object,
        keys_of(converted(Some(columns), rows)->Ok_0->List_0[i]->Object_0) == columns,
{
    assert(columns.take(columns.len() as int) =~= columns);
    lemma_record_keys_in_header_order(columns, rows[i]->0, columns.len());
}

/// A document without records.
pub fn new_document() -> (document: json::JsonValue)
    ensures
        json_view(document) == Json::List(Seq::empty()),
{
    json_value::new_array()
}

/// The document written as one block of JSON text.
pub fn document_text(document: &json::JsonValue) -> (text: String)
    ensures
        text@ == json_text(json_view(*document)),
{
    json_value::dump(document)
}

/// Converts the text of a source into the text of its document.
///
/// Fails with `MissingHeader` exactly when the header cannot be read or has
/// no column, and otherwise with `RowParse` exactly when some data row
/// cannot be read. In every other case the result is the text of the array
/// that holds one record per data row, in source order.
pub fn convert(contents: &str) -> (output: Result<String, ConvertError>)
    ensures
        match output {
            Ok(text) => converted(
                csv_header(contents.spec_bytes()),
                csv_records(contents.spec_bytes()),
            ) matches Ok(document) && text@ == json_text(document),
            Err(error) => converted(
                csv_header(contents.spec_bytes()),
                csv_records(contents.spec_bytes()),
            ) == Err::<Json, ConvertError>(error),
        },
{
    let ghost rows = csv_records(contents.spec_bytes());
    let mut decoder = match RowDecoder::new(contents) {
        Ok(decoder) => decoder,
        Err(error) => {
            return Err(error);
        },
    };
    let ghost columns = decoder.columns();
    let mut data = new_document();
    let ghost mut done: int = 0;
    assert(records_of(columns, rows, 0) =~= Seq::empty());
    loop
        invariant
            decoder.columns() == columns,
            0 <= done <= rows.len(),
            decoder.pending() == rows.skip(done),
            forall|i: int| 0 <= i < done ==> #[trigger] rows[i] is Some,
            json_view(data) == Json::List(records_of(columns, rows, done)),
            columns.len() > 0,
            csv_header(contents.spec_bytes()) == Some(columns),
            rows == csv_records(contents.spec_bytes()),
        decreases rows.len() - done,
    {
        match decoder.next_row() {
            Ok(None) => {
                assert(!has_unreadable_row(rows));
                return Ok(document_text(&data));
            },
            Ok(Some(record)) => {
                data = json_with_record_row(data, record, decoder.header());
                proof {
                    assert(rows.skip(done)[0] == rows[done]);
                    assert(rows.skip(done).skip(1) == rows.skip(done + 1));
                    assert(records_of(columns, rows, done).push(
                        record_of(columns, rows[done]->0),
                    ) == records_of(columns, rows, done + 1));
                    done = done + 1;
                }
            },
            Err(error) => {
                assert(rows.skip(done)[0] == rows[done]);
                assert(has_unreadable_row(rows));
                return Err(error);
            },
        }
    }
}

} // verus!
