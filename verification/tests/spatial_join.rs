//! Tests for the positional join and the part-reconstruction algorithm.

use shpank::error::Error;
use shpank::parse::Parser;
use shpank::shape::Point;
use shpank::spatial::{split_parts, Spatial, Variant};

fn push_i32_be(v: &mut Vec<u8>, x: i32) {
    v.extend_from_slice(&x.to_be_bytes());
}

fn push_i32_le(v: &mut Vec<u8>, x: i32) {
    v.extend_from_slice(&x.to_le_bytes());
}

fn push_f64_le(v: &mut Vec<u8>, x: f64) {
    v.extend_from_slice(&x.to_le_bytes());
}

fn shp_header(total_bytes: usize, shape_type: i32) -> Vec<u8> {
    let mut v = Vec::new();
    push_i32_be(&mut v, 0x0000270a);
    v.extend_from_slice(&[0u8; 20]);
    push_i32_be(&mut v, (total_bytes / 2) as i32);
    push_i32_le(&mut v, 1000);
    push_i32_le(&mut v, shape_type);
    for _ in 0..8 {
        push_f64_le(&mut v, 0.0);
    }
    v
}

fn point_record(number: i32, x: f64, y: f64) -> Vec<u8> {
    let mut v = Vec::new();
    push_i32_be(&mut v, number);
    push_i32_be(&mut v, 10);
    push_i32_le(&mut v, 1);
    push_f64_le(&mut v, x);
    push_f64_le(&mut v, y);
    v
}

fn poly_record(number: i32, shape_type: i32, parts: &[i32], points: &[(f64, f64)]) -> Vec<u8> {
    let content_bytes = 4 + 40 + 4 * parts.len() + 16 * points.len();
    let mut v = Vec::new();
    push_i32_be(&mut v, number);
    push_i32_be(&mut v, (content_bytes / 2) as i32);
    push_i32_le(&mut v, shape_type);
    for _ in 0..4 {
        push_f64_le(&mut v, 0.0);
    }
    push_i32_le(&mut v, parts.len() as i32);
    push_i32_le(&mut v, points.len() as i32);
    for p in parts {
        push_i32_le(&mut v, *p);
    }
    for (x, y) in points {
        push_f64_le(&mut v, *x);
        push_f64_le(&mut v, *y);
    }
    v
}

fn point_shp(n: usize) -> Vec<u8> {
    let total = 100 + 28 * n;
    let mut buf = shp_header(total, 1);
    for i in 0..n {
        buf.extend_from_slice(&point_record(i as i32 + 1, i as f64, 0.0));
    }
    buf
}

/// A dBASE file with `name` and `fclass` columns, 8 bytes each.
fn name_fclass_dbf(rows: &[(&str, &str)]) -> Vec<u8> {
    let mut v = Vec::new();
    v.push(0x03u8);
    v.extend_from_slice(&[124, 5, 17]);
    v.extend_from_slice(&(rows.len() as u32).to_le_bytes());
    v.extend_from_slice(&97u16.to_le_bytes()); // 32 + 2 * 32 + 1
    v.extend_from_slice(&17u16.to_le_bytes()); // 1 + 8 + 8
    v.extend_from_slice(&[0u8; 20]);
    for name in ["name", "fclass"] {
        let mut nb = [0u8; 11];
        nb[..name.len()].copy_from_slice(name.as_bytes());
        v.extend_from_slice(&nb);
        v.push(b'C');
        v.extend_from_slice(&[0u8; 4]);
        v.push(8);
        v.extend_from_slice(&[0u8; 15]);
    }
    v.push(0x0d);
    for (name, fclass) in rows {
        v.push(0x20);
        let mut f1 = [b' '; 8];
        f1[..name.len()].copy_from_slice(name.as_bytes());
        v.extend_from_slice(&f1);
        let mut f2 = [b' '; 8];
        f2[..fclass.len()].copy_from_slice(fclass.as_bytes());
        v.extend_from_slice(&f2);
    }
    v
}

fn points(coords: &[(f64, f64)]) -> Vec<Point> {
    coords
        .iter()
        .map(|(x, y)| Point { x: x.to_bits(), y: y.to_bits() })
        .collect()
}

#[test]
fn split_groups_of_three_and_two() {
    // Offsets [0, 3] over 5 points yield groups of length 3 and 2, in
    // original order.
    let parts = vec![0, 3];
    let pts = points(&[(0.0, 0.0), (1.0, 0.0), (2.0, 0.0), (3.0, 0.0), (4.0, 0.0)]);
    let groups = split_parts(&parts, &pts).unwrap();
    assert_eq!(groups.len(), 2);
    assert_eq!(groups[0], pts[0..3].to_vec());
    assert_eq!(groups[1], pts[3..5].to_vec());
    let total: usize = groups.iter().map(|g| g.len()).sum();
    assert_eq!(total, pts.len());
}

#[test]
fn split_single_group() {
    let parts = vec![0];
    let pts = points(&[(1.0, 2.0), (3.0, 4.0)]);
    let groups = split_parts(&parts, &pts).unwrap();
    assert_eq!(groups, vec![pts.clone()]);
}

#[test]
fn split_rejects_bad_offsets() {
    let pts = points(&[(0.0, 0.0), (1.0, 0.0), (2.0, 0.0)]);
    let mismatch = Error::PartReconstructionMismatch { num_parts: 2, num_points: 3 };
    // First offset not zero: the groups would miss the first point.
    assert_eq!(split_parts(&vec![1, 2], &pts).unwrap_err(), mismatch);
    // Offset past the end.
    assert_eq!(split_parts(&vec![0, 4], &pts).unwrap_err(), mismatch);
    // Offsets out of order.
    assert_eq!(split_parts(&vec![0, -1], &pts).unwrap_err(), mismatch);
    assert_eq!(
        split_parts(&vec![], &pts).unwrap_err(),
        Error::PartReconstructionMismatch { num_parts: 0, num_points: 3 }
    );
}

#[test]
fn join_precondition_record_counts() {
    // Ten geometry records against nine attribute rows cannot be
    // joined; equal counts succeed with that many objects.
    let shp = Parser::parse_buffer(point_shp(10)).unwrap();
    let rows: Vec<(&str, &str)> = (0..9).map(|_| ("x", "y")).collect();
    let dbf = Parser::parse_dbf_buffer(name_fclass_dbf(&rows)).unwrap();
    let e = Spatial::new(shp, dbf).unwrap_err();
    assert_eq!(e, Error::RecordCountMismatch { shp_records: 10, dbf_records: 9 });

    let shp = Parser::parse_buffer(point_shp(10)).unwrap();
    let rows: Vec<(&str, &str)> = (0..10).map(|_| ("x", "y")).collect();
    let dbf = Parser::parse_dbf_buffer(name_fclass_dbf(&rows)).unwrap();
    let sp = Spatial::new(shp, dbf).unwrap();
    assert_eq!(sp.num_records(), 10);
    let objs = sp.into_objects().unwrap();
    assert_eq!(objs.len(), 10);
    for (i, o) in objs.iter().enumerate() {
        match &o.variant {
            Variant::Point(p) => assert_eq!(p.x, (i as f64).to_bits()),
            other => panic!("expected a point, got {other:?}"),
        }
    }
}

#[test]
fn name_optionality() {
    // All-whitespace name text yields no name; non-empty text yields
    // the trimmed text.
    let shp = Parser::parse_buffer(point_shp(3)).unwrap();
    let dbf = Parser::parse_dbf_buffer(name_fclass_dbf(&[
        ("        ", "city"),
        ("  Oslo  ", "city"),
        ("", "city"),
    ]))
    .unwrap();
    let objs = Spatial::new(shp, dbf).unwrap().into_objects().unwrap();
    assert_eq!(objs[0].name, None);
    assert_eq!(objs[1].name, Some("Oslo".to_string()));
    assert_eq!(objs[2].name, None);
}

#[test]
fn utf8_name_joins() {
    let shp = Parser::parse_buffer(point_shp(1)).unwrap();
    let dbf = Parser::parse_dbf_buffer(name_fclass_dbf(&[("Zürich", "city")])).unwrap();
    let objs = Spatial::new(shp, dbf).unwrap().into_objects().unwrap();
    assert_eq!(objs[0].name, Some("Zürich".to_string()));
}

#[test]
fn fclass_carried_verbatim() {
    let shp = Parser::parse_buffer(point_shp(1)).unwrap();
    let dbf = Parser::parse_dbf_buffer(name_fclass_dbf(&[("a", "airport")])).unwrap();
    let objs = Spatial::new(shp, dbf).unwrap().into_objects().unwrap();
    assert_eq!(objs[0].fclass, "airport");
}

#[test]
fn end_to_end_polygon() {
    // One polygon record with parts [0, 4] and 7 points joins with a
    // one-row attribute file into one object holding two rings of
    // lengths 4 and 3, in original point order.
    let coords: Vec<(f64, f64)> = (0..7).map(|i| (i as f64, 10.0 + i as f64)).collect();
    let rec = poly_record(1, 5, &[0, 4], &coords);
    let total = 100 + rec.len();
    let mut buf = shp_header(total, 5);
    buf.extend_from_slice(&rec);
    let shp = Parser::parse_buffer(buf).unwrap();
    let dbf = Parser::parse_dbf_buffer(name_fclass_dbf(&[("Plaza", "square")])).unwrap();
    let objs = Spatial::new(shp, dbf).unwrap().into_objects().unwrap();
    assert_eq!(objs.len(), 1);
    assert_eq!(objs[0].name, Some("Plaza".to_string()));
    assert_eq!(objs[0].fclass, "square");
    match &objs[0].variant {
        Variant::Polygon(rings) => {
            assert_eq!(rings.len(), 2);
            assert_eq!(rings[0].len(), 4);
            assert_eq!(rings[1].len(), 3);
            let expected = points(&coords);
            assert_eq!(rings[0], expected[0..4].to_vec());
            assert_eq!(rings[1], expected[4..7].to_vec());
        }
        other => panic!("expected a polygon, got {other:?}"),
    }
}

#[test]
fn single_part_polyline_becomes_line() {
    let coords = [(0.0, 0.0), (1.0, 1.0), (2.0, 0.0)];
    let rec = poly_record(1, 3, &[0], &coords);
    let total = 100 + rec.len();
    let mut buf = shp_header(total, 3);
    buf.extend_from_slice(&rec);
    let shp = Parser::parse_buffer(buf).unwrap();
    let dbf = Parser::parse_dbf_buffer(name_fclass_dbf(&[("brook", "stream")])).unwrap();
    let objs = Spatial::new(shp, dbf).unwrap().into_objects().unwrap();
    match &objs[0].variant {
        Variant::Line(pts) => assert_eq!(*pts, points(&coords)),
        other => panic!("expected a line, got {other:?}"),
    }
}

#[test]
fn multi_part_polyline_unsupported() {
    let coords = [(0.0, 0.0), (1.0, 1.0), (2.0, 0.0), (3.0, 1.0)];
    let rec = poly_record(1, 3, &[0, 2], &coords);
    let total = 100 + rec.len();
    let mut buf = shp_header(total, 3);
    buf.extend_from_slice(&rec);
    let shp = Parser::parse_buffer(buf).unwrap();
    let dbf = Parser::parse_dbf_buffer(name_fclass_dbf(&[("z", "road")])).unwrap();
    let e = Spatial::new(shp, dbf).unwrap().into_objects().unwrap_err();
    assert_eq!(e, Error::MultiPartLineUnsupported { num_parts: 2 });
}

#[test]
fn null_shape_not_joinable() {
    let total = 100 + 12;
    let mut buf = shp_header(total, 0);
    push_i32_be(&mut buf, 1);
    push_i32_be(&mut buf, 2);
    push_i32_le(&mut buf, 0);
    let shp = Parser::parse_buffer(buf).unwrap();
    let dbf = Parser::parse_dbf_buffer(name_fclass_dbf(&[("n", "void")])).unwrap();
    let e = Spatial::new(shp, dbf).unwrap().into_objects().unwrap_err();
    assert_eq!(e, Error::UnsupportedShapeType { code: 0 });
}

#[test]
fn named_objects_only() {
    let shp = Parser::parse_buffer(point_shp(3)).unwrap();
    let dbf = Parser::parse_dbf_buffer(name_fclass_dbf(&[
        ("first", "a"),
        ("        ", "b"),
        ("third", "c"),
    ]))
    .unwrap();
    let objs = Spatial::new(shp, dbf).unwrap().into_named_objects().unwrap();
    assert_eq!(objs.len(), 2);
    assert_eq!(objs[0].name, Some("first".to_string()));
    assert_eq!(objs[0].fclass, "a");
    assert_eq!(objs[1].name, Some("third".to_string()));
    assert_eq!(objs[1].fclass, "c");
}

#[test]
fn join_without_name_and_fclass_fields() {
    // A file whose columns carry other names: every name is absent and
    // the classification is empty.
    let mut v = Vec::new();
    v.push(0x03u8);
    v.extend_from_slice(&[124, 5, 17]);
    v.extend_from_slice(&1u32.to_le_bytes());
    v.extend_from_slice(&65u16.to_le_bytes()); // 32 + 32 + 1
    v.extend_from_slice(&5u16.to_le_bytes()); // 1 + 4
    v.extend_from_slice(&[0u8; 20]);
    let mut nb = [0u8; 11];
    nb[..4].copy_from_slice(b"code");
    v.extend_from_slice(&nb);
    v.push(b'C');
    v.extend_from_slice(&[0u8; 4]);
    v.push(4);
    v.extend_from_slice(&[0u8; 15]);
    v.push(0x0d);
    v.extend_from_slice(&[0x20, b'8', b'1', b' ', b' ']);
    let dbf = Parser::parse_dbf_buffer(v).unwrap();
    let shp = Parser::parse_buffer(point_shp(1)).unwrap();
    let objs = Spatial::new(shp, dbf).unwrap().into_objects().unwrap();
    assert_eq!(objs[0].name, None);
    assert_eq!(objs[0].fclass, "");
}
