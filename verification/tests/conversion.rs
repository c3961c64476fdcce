use csv::StringRecord;
use csv2json::decoder::RowDecoder;
use csv2json::error::ConvertError;
use csv2json::pipeline::convert;

fn text(output: &str) -> Result<String, ConvertError> {
    Ok(output.to_string())
}

fn key_order(object_text: &str) -> Vec<String> {
    let value = json::parse(object_text).unwrap();
    value[0].entries().map(|(key, _)| key.to_string()).collect()
}

#[test]
fn example_end_to_end() {
    assert_eq!(
        convert("name,age\nAlice,30\nBob,\n"),
        text(r#"[{"name":"Alice","age":"30"},{"name":"Bob","age":null}]"#)
    );
}

#[test]
fn last_row_needs_no_line_end() {
    assert_eq!(
        convert("name,age\nAlice,30\nBob,"),
        text(r#"[{"name":"Alice","age":"30"},{"name":"Bob","age":null}]"#)
    );
}

#[test]
fn header_alone_gives_an_empty_document() {
    assert_eq!(convert("name,age\n"), text("[]"));
    assert_eq!(convert("name,age"), text("[]"));
}

#[test]
fn empty_source_has_no_header() {
    assert_eq!(convert(""), Err(ConvertError::MissingHeader));
}

#[test]
fn blank_source_has_no_header() {
    assert_eq!(convert("\n\n"), Err(ConvertError::MissingHeader));
}

#[test]
fn document_has_one_record_per_data_row() {
    let output = convert("a,b,c\n1,2,3\n4,5,6\n7,8,9\n10,11,12\n").unwrap();
    let document = json::parse(&output).unwrap();
    assert!(document.is_array());
    assert_eq!(document.len(), 4);
    for record in document.members() {
        assert!(record.is_object());
        assert!(record.len() <= 3);
    }
}

#[test]
fn header_can_be_read_back_from_the_first_record() {
    let output = convert("zeta,alpha,mid\n1,2,3\n4,5,6\n").unwrap();
    assert_eq!(
        key_order(&output),
        vec!["zeta".to_string(), "alpha".to_string(), "mid".to_string()]
    );
}

#[test]
fn duplicate_column_names_keep_the_last_cell() {
    assert_eq!(
        convert("a,b,a\n1,2,3\n"),
        text(r#"[{"a":"3","b":"2"}]"#)
    );
}

#[test]
fn cells_are_not_trimmed_and_not_read_as_numbers() {
    assert_eq!(
        convert("n,s,t\n 42 ,3.5,true\n"),
        text(r#"[{"n":" 42 ","s":"3.5","t":"true"}]"#)
    );
}

#[test]
fn quoted_fields_may_hold_commas_line_breaks_and_quotes() {
    assert_eq!(
        convert("name,note\n\"Smith, J\",\"two\nlines\"\nx,\"say \"\"hi\"\"\"\n"),
        text(r#"[{"name":"Smith, J","note":"two\nlines"},{"name":"x","note":"say \"hi\""}]"#)
    );
}

#[test]
fn quoted_empty_cell_is_null() {
    assert_eq!(convert("a,b\n\"\",x\n"), text(r#"[{"a":null,"b":"x"}]"#));
}

#[test]
fn blank_lines_are_no_rows() {
    assert_eq!(
        convert("a\n\n1\n\n2\n"),
        text(r#"[{"a":"1"},{"a":"2"}]"#)
    );
}

#[test]
fn row_of_another_length_cannot_be_read() {
    assert_eq!(convert("a,b\n1\n"), Err(ConvertError::RowParse));
    assert_eq!(convert("a,b\n1,2,3\n"), Err(ConvertError::RowParse));
    assert_eq!(convert("a,b\n1,2\n3\n4,5\n"), Err(ConvertError::RowParse));
}

#[test]
fn text_beyond_ascii_is_kept() {
    assert_eq!(
        convert("stadt,gr\u{f6}\u{df}e\nK\u{f6}ln,gro\u{df}\n"),
        text("[{\"stadt\":\"K\u{f6}ln\",\"gr\u{f6}\u{df}e\":\"gro\u{df}\"}]")
    );
}

#[test]
fn decoder_reads_the_header_first() {
    let decoder = RowDecoder::new("name,age\nAlice,30\n").unwrap();
    assert_eq!(decoder.header(), &StringRecord::from(vec!["name", "age"]));
}

#[test]
fn decoder_hands_out_rows_in_source_order() {
    let mut decoder = RowDecoder::new("name,age\nAlice,30\nBob,\n").unwrap();
    assert_eq!(
        decoder.next_row(),
        Ok(Some(StringRecord::from(vec!["Alice", "30"])))
    );
    assert_eq!(
        decoder.next_row(),
        Ok(Some(StringRecord::from(vec!["Bob", ""])))
    );
    assert_eq!(decoder.next_row(), Ok(None));
    assert_eq!(decoder.next_row(), Ok(None));
    assert_eq!(decoder.header(), &StringRecord::from(vec!["name", "age"]));
}

#[test]
fn decoder_reports_a_row_that_cannot_be_read() {
    let mut decoder = RowDecoder::new("a,b\n1,2\n3\n4,5\n").unwrap();
    assert_eq!(
        decoder.next_row(),
        Ok(Some(StringRecord::from(vec!["1", "2"])))
    );
    assert_eq!(decoder.next_row(), Err(ConvertError::RowParse));
    assert_eq!(
        decoder.next_row(),
        Ok(Some(StringRecord::from(vec!["4", "5"])))
    );
    assert_eq!(decoder.next_row(), Ok(None));
}

#[test]
fn decoder_refuses_a_source_without_header() {
    assert!(matches!(
        RowDecoder::new(""),
        Err(ConvertError::MissingHeader)
    ));
    assert!(matches!(
        RowDecoder::new("\r\n"),
        Err(ConvertError::MissingHeader)
    ));
}

#[test]
fn header_with_an_empty_name_is_a_header() {
    assert_eq!(convert("\"\"\nx\n"), text(r#"[{"":"x"}]"#));
}
