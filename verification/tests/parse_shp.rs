//! Tests for the shape-file decoders over synthetic byte buffers.

use shpank::error::Error;
use shpank::parse::Parser;
use shpank::shape::{Shape, ShapeType, ShpLength};

fn push_i32_be(v: &mut Vec<u8>, x: i32) {
    v.extend_from_slice(&x.to_be_bytes());
}

fn push_i32_le(v: &mut Vec<u8>, x: i32) {
    v.extend_from_slice(&x.to_le_bytes());
}

fn push_f64_le(v: &mut Vec<u8>, x: f64) {
    v.extend_from_slice(&x.to_le_bytes());
}

/// A 100-byte header for a file whose total length is `total_bytes`.
fn shp_header(total_bytes: usize, shape_type: i32) -> Vec<u8> {
    assert_eq!(total_bytes % 2, 0);
    let mut v = Vec::new();
    push_i32_be(&mut v, 0x0000270a);
    v.extend_from_slice(&[0u8; 20]);
    push_i32_be(&mut v, (total_bytes / 2) as i32);
    push_i32_le(&mut v, 1000);
    push_i32_le(&mut v, shape_type);
    for _ in 0..8 {
        push_f64_le(&mut v, 0.0);
    }
    assert_eq!(v.len(), 100);
    v
}

fn point_record(number: i32, x: f64, y: f64) -> Vec<u8> {
    let mut v = Vec::new();
    push_i32_be(&mut v, number);
    push_i32_be(&mut v, 10); // 20 content bytes in 16-bit words
    push_i32_le(&mut v, 1);
    push_f64_le(&mut v, x);
    push_f64_le(&mut v, y);
    v
}

fn polygon_record(number: i32, parts: &[i32], points: &[(f64, f64)]) -> Vec<u8> {
    let content_bytes = 4 + 40 + 4 * parts.len() + 16 * points.len();
    let mut v = Vec::new();
    push_i32_be(&mut v, number);
    push_i32_be(&mut v, (content_bytes / 2) as i32);
    push_i32_le(&mut v, 5);
    for _ in 0..4 {
        push_f64_le(&mut v, 0.0);
    }
    push_i32_le(&mut v, parts.len() as i32);
    push_i32_le(&mut v, points.len() as i32);
    for p in parts {
        push_i32_le(&mut v, *p);
    }
    for (x, y) in points {
        push_f64_le(&mut v, *x);
        push_f64_le(&mut v, *y);
    }
    v
}

#[test]
fn point_file_roundtrip() {
    let total = 100 + 28;
    let mut buf = shp_header(total, 1);
    buf.extend_from_slice(&point_record(1, 1.5, -2.25));
    assert_eq!(buf.len(), total);
    let f = Parser::parse_buffer(buf).unwrap();
    assert_eq!(f.header.file_code, 0x270a);
    assert_eq!(f.header.file_length.0, (total / 2) as i32);
    assert_eq!(f.header.version, 1000);
    assert_eq!(f.header.shape_type, ShapeType::Point);
    assert_eq!(f.records.len(), 1);
    assert_eq!(f.records[0].header.record_number, 1);
    assert_eq!(f.records[0].header.content_length.0, 10);
    match &f.records[0].shape {
        Shape::Point(p) => {
            assert_eq!(p.x, 1.5f64.to_bits());
            assert_eq!(p.y, (-2.25f64).to_bits());
        }
        other => panic!("expected a point, got {other:?}"),
    }
}

#[test]
fn file_length_accounting() {
    // The declared length in words, doubled, equals the file's byte size.
    let total = 100 + 28 + 28;
    let mut buf = shp_header(total, 1);
    buf.extend_from_slice(&point_record(1, 0.0, 0.0));
    buf.extend_from_slice(&point_record(2, 1.0, 1.0));
    assert_eq!(buf.len(), total);
    let f = Parser::parse_buffer(buf.clone()).unwrap();
    assert_eq!(f.header.file_length.0 as usize * 2, buf.len());
    assert_eq!(f.records.len(), 2);
}

#[test]
fn polygon_two_rings() {
    let parts = [0, 4];
    let points: Vec<(f64, f64)> = (0..7).map(|i| (i as f64, -(i as f64))).collect();
    let rec = polygon_record(1, &parts, &points);
    let total = 100 + rec.len();
    let mut buf = shp_header(total, 5);
    buf.extend_from_slice(&rec);
    let f = Parser::parse_buffer(buf).unwrap();
    assert_eq!(f.records.len(), 1);
    match &f.records[0].shape {
        Shape::Polygon(pg) => {
            assert_eq!(pg.parts, vec![0, 4]);
            assert_eq!(pg.points.len(), 7);
            assert_eq!(pg.points[6].x, 6.0f64.to_bits());
        }
        other => panic!("expected a polygon, got {other:?}"),
    }
}

#[test]
fn null_record() {
    let total = 100 + 12;
    let mut buf = shp_header(total, 0);
    push_i32_be(&mut buf, 1);
    push_i32_be(&mut buf, 2); // 4 content bytes: the shape code alone
    push_i32_le(&mut buf, 0);
    let f = Parser::parse_buffer(buf).unwrap();
    assert_eq!(f.records.len(), 1);
    assert!(matches!(f.records[0].shape, Shape::Null));
}

#[test]
fn bad_magic() {
    let mut buf = shp_header(100, 1);
    buf[0] = 0x12;
    buf[3] = 0x34;
    let e = Parser::parse_buffer(buf).unwrap_err();
    assert_eq!(e, Error::BadMagic { found: 0x12002734 });
}

#[test]
fn unknown_shape_type_in_header() {
    let buf = shp_header(100, 2);
    let e = Parser::parse_buffer(buf).unwrap_err();
    assert_eq!(e, Error::UnknownShapeType { code: 2 });
}

#[test]
fn unsupported_multipoint_record() {
    // A record with shape-type code 8 is recognized but unsupported:
    // a typed error, not a crash and not a misread null or point.
    let total = 100 + 12;
    let mut buf = shp_header(total, 1);
    push_i32_be(&mut buf, 1);
    push_i32_be(&mut buf, 2);
    push_i32_le(&mut buf, 8);
    let e = Parser::parse_buffer(buf).unwrap_err();
    assert_eq!(e, Error::UnsupportedShapeType { code: 8 });
}

#[test]
fn record_frame_length_mismatch() {
    let total = 100 + 28;
    let mut buf = shp_header(total, 1);
    let mut rec = point_record(1, 0.0, 0.0);
    // Declare 11 words although a point's content is 10.
    rec[4..8].copy_from_slice(&11i32.to_be_bytes());
    buf.extend_from_slice(&rec);
    let e = Parser::parse_buffer(buf).unwrap_err();
    assert_eq!(e, Error::FrameLengthMismatch { expected_bytes: 22, actual_bytes: 20 });
}

#[test]
fn truncated_input() {
    let mut buf = shp_header(100 + 28, 1);
    buf.extend_from_slice(&point_record(1, 0.0, 0.0));
    buf.truncate(110);
    let e = Parser::parse_buffer(buf).unwrap_err();
    assert!(matches!(e, Error::TruncatedInput { .. }));
}

#[test]
fn file_shorter_than_declared() {
    // Header alone, but the declared length promises one more record.
    let buf = shp_header(100 + 28, 1);
    let e = Parser::parse_buffer(buf).unwrap_err();
    assert!(matches!(e, Error::TruncatedInput { .. }));
}

#[test]
fn length_words_to_bytes() {
    assert_eq!(ShpLength(7).num_bytes(), 14);
    assert_eq!(ShpLength(0).num_bytes(), 0);
}

#[test]
fn shape_type_codes() {
    assert_eq!(ShapeType::from_code(5).unwrap(), ShapeType::Polygon);
    assert_eq!(ShapeType::from_code(3).unwrap(), ShapeType::PolyLine);
    assert_eq!(ShapeType::from_code(31).unwrap(), ShapeType::MultiPatch);
    assert_eq!(ShapeType::from_code(4).unwrap_err(), Error::UnknownShapeType { code: 4 });
    assert_eq!(ShapeType::Polygon.code(), 5);
    assert!(ShapeType::Point.is_supported());
    assert!(!ShapeType::PointZ.is_supported());
}

#[test]
fn cursor_counts_consumed_bytes() {
    let mut p = Parser::with_reader(vec![1, 2, 3, 4, 5, 6]);
    assert_eq!(p.num_bytes_read(), 0);
    let b = p.read_exact(4).unwrap();
    assert_eq!(b, vec![1, 2, 3, 4]);
    assert_eq!(p.num_bytes_read(), 4);
    let e = p.read_exact(3).unwrap_err();
    assert_eq!(e, Error::TruncatedInput { at: 4, requested: 3, available: 2 });
    assert_eq!(p.num_bytes_read(), 4);
}

#[test]
fn primitive_endianness() {
    let mut p = Parser::with_reader(vec![0x0a, 0x27, 0x00, 0x00, 0x00, 0x00, 0x27, 0x0a]);
    assert_eq!(p.parse_i32_le().unwrap(), 0x270a);
    assert_eq!(p.parse_i32_be().unwrap(), 0x270a);
}
