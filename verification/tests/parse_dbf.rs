//! Tests for the dBASE decoders over synthetic byte buffers.

use shpank::dbase::{DbaseFile, FieldType};
use shpank::error::Error;
use shpank::parse::Parser;

/// One column for the builder: name, type code, width.
struct Col(&'static str, u8, u8);

fn dbf_header(num_records: u32, cols: &[Col]) -> Vec<u8> {
    let header_bytes = 32 + 32 * cols.len() + 1;
    let record_bytes = 1 + cols.iter().map(|c| c.2 as usize).sum::<usize>();
    let mut v = Vec::new();
    v.push(0x03u8); // flags
    v.extend_from_slice(&[124, 5, 17]); // last update
    v.extend_from_slice(&num_records.to_le_bytes());
    v.extend_from_slice(&(header_bytes as u16).to_le_bytes());
    v.extend_from_slice(&(record_bytes as u16).to_le_bytes());
    v.extend_from_slice(&[0u8; 20]);
    for Col(name, ty, len) in cols {
        let mut nb = [0u8; 11];
        nb[..name.len()].copy_from_slice(name.as_bytes());
        v.extend_from_slice(&nb);
        v.push(*ty);
        v.extend_from_slice(&[0u8; 4]);
        v.push(*len);
        v.extend_from_slice(&[0u8; 15]);
    }
    v.push(0x0d);
    assert_eq!(v.len(), header_bytes);
    v
}

fn dbf_record(cols: &[Col], entries: &[&str]) -> Vec<u8> {
    let mut v = vec![0x20u8];
    for (Col(_, _, len), e) in cols.iter().zip(entries) {
        let mut field = vec![b' '; *len as usize];
        field[..e.len()].copy_from_slice(e.as_bytes());
        v.extend_from_slice(&field);
    }
    v
}

fn two_cols() -> Vec<Col> {
    vec![Col("name", b'C', 8), Col("fclass", b'C', 10)]
}

#[test]
fn header_arithmetic() {
    // header_bytes equals the fixed prefix, the descriptors, and one
    // terminator byte; the byte before the first record is 0x0D.
    let cols = two_cols();
    let mut buf = dbf_header(1, &cols);
    let header_end = buf.len();
    buf.extend_from_slice(&dbf_record(&cols, &["a", "b"]));
    assert_eq!(buf[header_end - 1], 0x0d);
    let f = Parser::parse_dbf_buffer(buf).unwrap();
    assert_eq!(f.header.header_bytes, 32 + 32 * f.header.fields.len() + 1);
    assert_eq!(f.header.fields.len(), 2);
    assert_eq!(f.header.num_records, 1);
    assert_eq!(f.header.record_bytes, 19);
    assert_eq!(f.header.flags, 0x03);
    assert_eq!((f.header.yy, f.header.mm, f.header.dd), (124, 5, 17));
}

#[test]
fn record_entries_trimmed() {
    let cols = two_cols();
    let mut buf = dbf_header(2, &cols);
    buf.extend_from_slice(&dbf_record(&cols, &["Oslo", "city"]));
    buf.extend_from_slice(&dbf_record(&cols, &["", "water"]));
    let f = Parser::parse_dbf_buffer(buf).unwrap();
    assert_eq!(f.records.len(), 2);
    assert_eq!(f.records[0].entries, vec!["Oslo".to_string(), "city".to_string()]);
    assert_eq!(f.records[1].entries, vec!["".to_string(), "water".to_string()]);
}

#[test]
fn field_descriptor_contents() {
    let cols = vec![Col("AREA", b'N', 12)];
    let buf = dbf_header(0, &cols);
    let f = Parser::parse_dbf_buffer(buf).unwrap();
    assert_eq!(f.records.len(), 0);
    assert_eq!(f.header.fields[0].name, "AREA");
    assert_eq!(f.header.fields[0].type_, FieldType::Numeric);
    assert_eq!(f.header.fields[0].field_length, 12);
}

#[test]
fn index_of_is_case_insensitive_and_trimmed() {
    let cols = vec![Col("NAME", b'C', 4), Col("fclass", b'C', 4)];
    let buf = dbf_header(0, &cols);
    let f = Parser::parse_dbf_buffer(buf).unwrap();
    assert_eq!(f.header.index_of("name"), Some(0));
    assert_eq!(f.header.index_of("  NaMe "), Some(0));
    assert_eq!(f.header.index_of("FCLASS"), Some(1));
    assert_eq!(f.header.index_of("missing"), None);
}

#[test]
fn index_of_first_match_wins() {
    let cols = vec![Col("twin", b'C', 4), Col("TWIN", b'C', 4)];
    let buf = dbf_header(0, &cols);
    let f = Parser::parse_dbf_buffer(buf).unwrap();
    assert_eq!(f.header.index_of("Twin"), Some(0));
}

#[test]
fn header_too_short() {
    let cols = two_cols();
    let mut buf = dbf_header(0, &cols);
    buf[8..10].copy_from_slice(&20u16.to_le_bytes());
    let e = Parser::parse_dbf_buffer(buf).unwrap_err();
    assert_eq!(e, Error::HeaderTooShort { header_bytes: 20 });
}

#[test]
fn misaligned_field_table() {
    let cols = two_cols();
    let mut buf = dbf_header(0, &cols);
    buf[8..10].copy_from_slice(&(33u16 + 31).to_le_bytes());
    let e = Parser::parse_dbf_buffer(buf).unwrap_err();
    assert_eq!(e, Error::MisalignedFieldTable { field_table_bytes: 31 });
}

#[test]
fn missing_terminator() {
    let cols = two_cols();
    let mut buf = dbf_header(0, &cols);
    let last = buf.len() - 1;
    buf[last] = 0x00;
    let e = Parser::parse_dbf_buffer(buf).unwrap_err();
    assert_eq!(e, Error::MissingTerminator { byte: 0x00 });
}

#[test]
fn unknown_field_type() {
    let cols = vec![Col("name", b'C', 4), Col("odd", b'X', 4)];
    let buf = dbf_header(0, &cols);
    let e = Parser::parse_dbf_buffer(buf).unwrap_err();
    assert_eq!(e, Error::UnknownFieldType { code: b'X' });
}

#[test]
fn invalid_field_name_without_nul() {
    let cols = vec![Col("elevenchars", b'C', 4)];
    let buf = dbf_header(0, &cols);
    let e = Parser::parse_dbf_buffer(buf).unwrap_err();
    // The name fills all 11 bytes, so no terminator fits; the error
    // points at the descriptor, which starts right after the prefix.
    assert_eq!(e, Error::InvalidFieldName { at: 32 });
}

#[test]
fn invalid_field_name_bad_utf8() {
    let cols = vec![Col("name", b'C', 4)];
    let mut buf = dbf_header(0, &cols);
    // 0xE9 opens a three-byte sequence that 'a' cannot continue.
    buf[32] = 0xe9;
    let e = Parser::parse_dbf_buffer(buf).unwrap_err();
    assert_eq!(e, Error::InvalidFieldName { at: 32 });
}

#[test]
fn utf8_field_name_decodes() {
    let cols = vec![Col("café", b'C', 4)];
    let buf = dbf_header(0, &cols);
    let f = Parser::parse_dbf_buffer(buf).unwrap();
    assert_eq!(f.header.fields[0].name, "café");
    assert_eq!(f.header.index_of("CAFÉ"), None); // non-ASCII case is not folded
    assert_eq!(f.header.index_of(" café "), Some(0));
}

#[test]
fn utf8_entry_decodes() {
    let cols = vec![Col("name", b'C', 8)];
    let mut buf = dbf_header(1, &cols);
    buf.extend_from_slice(&dbf_record(&cols, &["Zürich"]));
    let f = Parser::parse_dbf_buffer(buf).unwrap();
    assert_eq!(f.records[0].entries[0], "Zürich");
}

#[test]
fn entry_trailing_unicode_whitespace_trimmed() {
    // A trailing no-break space is whitespace to the trim, like the
    // padding blanks around it.
    let cols = vec![Col("name", b'C', 6)];
    let mut buf = dbf_header(1, &cols);
    let mut rec = vec![0x20u8];
    rec.extend_from_slice(b"X\xc2\xa0   ");
    buf.extend_from_slice(&rec);
    let f = Parser::parse_dbf_buffer(buf).unwrap();
    assert_eq!(f.records[0].entries[0], "X");
}

#[test]
fn unexpected_record_flag() {
    let cols = two_cols();
    let header_len = 32 + 32 * cols.len() + 1;
    let mut buf = dbf_header(1, &cols);
    let mut rec = dbf_record(&cols, &["x", "y"]);
    rec[0] = 0x2a; // the "deleted" marker is not transparently skipped
    buf.extend_from_slice(&rec);
    let e = Parser::parse_dbf_buffer(buf).unwrap_err();
    assert_eq!(e, Error::UnexpectedRecordFlag { flag: 0x2a, at: header_len });
}

#[test]
fn unsupported_field_type_in_record() {
    // A date column parses in the header but its entries cannot be
    // decoded.
    let cols = vec![Col("seen", b'D', 8)];
    let mut buf = dbf_header(1, &cols);
    buf.extend_from_slice(&dbf_record(&cols, &["20200101"]));
    let e = Parser::parse_dbf_buffer(buf).unwrap_err();
    assert_eq!(e, Error::UnsupportedFieldType { code: b'D' });
}

#[test]
fn invalid_text_in_record() {
    let cols = vec![Col("name", b'C', 4)];
    let header_len = 32 + 32 + 1;
    let mut buf = dbf_header(1, &cols);
    buf.extend_from_slice(&[0x20, b'a', 0xff, b'c', b' ']);
    let e = Parser::parse_dbf_buffer(buf).unwrap_err();
    assert_eq!(e, Error::InvalidText { at: header_len + 1 });
}

#[test]
fn truncated_dbf() {
    let cols = two_cols();
    let mut buf = dbf_header(1, &cols);
    buf.extend_from_slice(&[0x20, b'a']);
    let e = Parser::parse_dbf_buffer(buf).unwrap_err();
    assert!(matches!(e, Error::TruncatedInput { .. }));
}

#[test]
fn total_byte_formulas() {
    let cols = two_cols();
    let mut buf = dbf_header(2, &cols);
    buf.extend_from_slice(&dbf_record(&cols, &["a", "b"]));
    buf.extend_from_slice(&dbf_record(&cols, &["c", "d"]));
    let f: DbaseFile = Parser::parse_dbf_buffer(buf).unwrap();
    let hr = f.header.dbase_num_bytes_header_and_records();
    assert_eq!(hr, 97 + 2 * 19);
    assert_eq!(f.header.dbase_num_bytes_total(), hr + 1);
}

#[test]
fn field_type_codes() {
    assert_eq!(FieldType::from_code(b'C').unwrap(), FieldType::Character);
    assert_eq!(FieldType::from_code(b'N').unwrap(), FieldType::Numeric);
    assert_eq!(FieldType::from_code(b'L').unwrap(), FieldType::Logical);
    assert_eq!(FieldType::from_code(b'q').unwrap_err(), Error::UnknownFieldType { code: b'q' });
    assert_eq!(FieldType::Memo.code(), b'M');
}
