//! The decoded shape-file data model.
//!
//! Coordinates are 64-bit little-endian IEEE-754 bit patterns carried
//! verbatim from the file as `u64`; this decoder never interprets them.

use vstd::prelude::*;

use crate::error::Error;

verus! {

/// A length expressed in 16-bit words, as the shape format declares
/// lengths. Negative values can occur in corrupt files; they have no
/// byte count.
#[derive(Debug, Clone, Copy, PartialEq, Eq, Structural)]
pub struct ShpLength(pub i32);

impl ShpLength {
    /// Convert a length in 16-bit words to a number of bytes.
    pub fn num_bytes(&self) -> (r: usize)
        requires
            0 <= self.0,
        ensures
            r == 2 * self.0,
    {
        (self.0 as usize) * 2
    }
}

/// A 2D extent: minimum and maximum x and y, each a 64-bit float bit
/// pattern taken verbatim from the file. `min <= max` is not assumed.
#[derive(Debug, Clone, Copy, PartialEq, Eq, Structural)]
pub struct MinimumBoundingRectangle {
    pub x_min: u64,
    pub x_max: u64,
    pub y_min: u64,
    pub y_max: u64,
}

/// One 2D point; each coordinate is a 64-bit float bit pattern.
#[derive(Debug, Clone, Copy, PartialEq, Eq, Structural)]
pub struct Point {
    pub x: u64,
    pub y: u64,
}

/// An open line in one or more parts: a flat point array and the start
/// offset of each part within it.
#[derive(Debug, Clone)]
pub struct PolyLine {
    pub mbr: MinimumBoundingRectangle,
    pub parts: Vec<i32>,
    pub points: Vec<Point>,
}

/// A polygon in one or more rings: a flat point array and the start
/// offset of each ring within it. Winding order is taken as-is from the
/// file; no orientation normalization is performed.
#[derive(Debug, Clone)]
pub struct Polygon {
    pub mbr: MinimumBoundingRectangle,
    pub parts: Vec<i32>,
    pub points: Vec<Point>,
}

/// Shape types this decoder recognizes but does not decode.
#[derive(Debug, Clone, Copy)]
pub struct MultiPoint;

#[derive(Debug, Clone, Copy)]
pub struct PointZ;

#[derive(Debug, Clone, Copy)]
pub struct PolylineZ;

#[derive(Debug, Clone, Copy)]
pub struct PolygonZ;

#[derive(Debug, Clone, Copy)]
pub struct MultiPointZ;

#[derive(Debug, Clone, Copy)]
pub struct PointM;

#[derive(Debug, Clone, Copy)]
pub struct PolylineM;

#[derive(Debug, Clone, Copy)]
pub struct PolygonM;

#[derive(Debug, Clone, Copy)]
pub struct MultiPointM;

#[derive(Debug, Clone, Copy)]
pub struct MultiPatch;

/// The tag of each shape type the format defines.
#[derive(Debug, Clone, Copy, PartialEq, Eq, Structural)]
pub enum ShapeType {
    Null,
    Point,
    PolyLine,
    Polygon,
    MultiPoint,
    PointZ,
    PolylineZ,
    PolygonZ,
    MultiPointZ,
    PointM,
    PolylineM,
    PolygonM,
    MultiPointM,
    MultiPatch,
}

/// The wire code of each recognized shape type.
pub open spec fn spec_shape_type_code(t: ShapeType) -> int {
    match t {
        ShapeType::Null => 0,
        ShapeType::Point => 1,
        ShapeType::PolyLine => 3,
        ShapeType::Polygon => 5,
        ShapeType::MultiPoint => 8,
        ShapeType::PointZ => 11,
        ShapeType::PolylineZ => 13,
        ShapeType::PolygonZ => 15,
        ShapeType::MultiPointZ => 18,
        ShapeType::PointM => 21,
        ShapeType::PolylineM => 23,
        ShapeType::PolygonM => 25,
        ShapeType::MultiPointM => 28,
        ShapeType::MultiPatch => 31,
    }
}

/// The total mapping from wire code to shape type: `Some` exactly on the
/// fourteen recognized codes.
pub open spec fn spec_shape_type_of_code(code: int) -> Option<ShapeType> {
    if code == 0 {
        Some(ShapeType::Null)
    } else if code == 1 {
        Some(ShapeType::Point)
    } else if code == 3 {
        Some(ShapeType::PolyLine)
    } else if code == 5 {
        Some(ShapeType::Polygon)
    } else if code == 8 {
        Some(ShapeType::MultiPoint)
    } else if code == 11 {
        Some(ShapeType::PointZ)
    } else if code == 13 {
        Some(ShapeType::PolylineZ)
    } else if code == 15 {
        Some(ShapeType::PolygonZ)
    } else if code == 18 {
        Some(ShapeType::MultiPointZ)
    } else if code == 21 {
        Some(ShapeType::PointM)
    } else if code == 23 {
        Some(ShapeType::PolylineM)
    } else if code == 25 {
        Some(ShapeType::PolygonM)
    } else if code == 28 {
        Some(ShapeType::MultiPointM)
    } else if code == 31 {
        Some(ShapeType::MultiPatch)
    } else {
        None
    }
}

/// Whether this decoder can decode a payload of the given type.
pub open spec fn spec_shape_type_supported(t: ShapeType) -> bool {
    t == ShapeType::Null || t == ShapeType::Point || t == ShapeType::PolyLine || t
        == ShapeType::Polygon
}

impl ShapeType {
    /// Map a wire code to its shape type; codes outside the recognized
    /// set fail, never fall through to a default.
    pub fn from_code(code: i32) -> (r: Result<ShapeType, Error>)
        ensures
            r matches Ok(t) ==> spec_shape_type_of_code(code as int) == Some(t),
            r is Err <==> spec_shape_type_of_code(code as int) is None,
            r is Err ==> r == Err::<ShapeType, Error>(Error::UnknownShapeType { code }),
    {
        match code {
            0 => Ok(ShapeType::Null),
            1 => Ok(ShapeType::Point),
            3 => Ok(ShapeType::PolyLine),
            5 => Ok(ShapeType::Polygon),
            8 => Ok(ShapeType::MultiPoint),
            11 => Ok(ShapeType::PointZ),
            13 => Ok(ShapeType::PolylineZ),
            15 => Ok(ShapeType::PolygonZ),
            18 => Ok(ShapeType::MultiPointZ),
            21 => Ok(ShapeType::PointM),
            23 => Ok(ShapeType::PolylineM),
            25 => Ok(ShapeType::PolygonM),
            28 => Ok(ShapeType::MultiPointM),
            31 => Ok(ShapeType::MultiPatch),
            _ => Err(Error::UnknownShapeType { code }),
        }
    }

    /// The wire code of this shape type.
    pub fn code(&self) -> (r: i32)
        ensures
            r == spec_shape_type_code(*self),
    {
        match self {
            ShapeType::Null => 0,
            ShapeType::Point => 1,
            ShapeType::PolyLine => 3,
            ShapeType::Polygon => 5,
            ShapeType::MultiPoint => 8,
            ShapeType::PointZ => 11,
            ShapeType::PolylineZ => 13,
            ShapeType::PolygonZ => 15,
            ShapeType::MultiPointZ => 18,
            ShapeType::PointM => 21,
            ShapeType::PolylineM => 23,
            ShapeType::PolygonM => 25,
            ShapeType::MultiPointM => 28,
            ShapeType::MultiPatch => 31,
        }
    }

    /// Whether this decoder can decode a payload of this type.
    pub fn is_supported(&self) -> (r: bool)
        ensures
            r == spec_shape_type_supported(*self),
    {
        match self {
            ShapeType::Null => true,
            ShapeType::Point => true,
            ShapeType::PolyLine => true,
            ShapeType::Polygon => true,
            _ => false,
        }
    }
}

/// One decoded shape. Only the first four variants are ever produced by
/// this decoder; the rest name the recognized-but-unsupported types.
#[derive(Debug, Clone)]
pub enum Shape {
    Null,
    Point(Point),
    PolyLine(PolyLine),
    Polygon(Polygon),
    MultiPoint(MultiPoint),
    PointZ(PointZ),
    PolylineZ(PolylineZ),
    PolygonZ(PolygonZ),
    MultiPointZ(MultiPointZ),
    PointM(PointM),
    PolylineM(PolylineM),
    PolygonM(PolygonM),
    MultiPointM(MultiPointM),
    MultiPatch(MultiPatch),
}

/// The fixed 100-byte shape-file header.
#[derive(Debug, Clone)]
pub struct ShpHeader {
    pub file_code: i32,
    /// Total file length in 16-bit words.
    pub file_length: ShpLength,
    pub version: i32,
    pub shape_type: ShapeType,
    pub mbr: MinimumBoundingRectangle,
    /// Minimum and maximum z, as 64-bit float bit patterns.
    pub z_min: u64,
    pub z_max: u64,
    /// Minimum and maximum measure, as 64-bit float bit patterns.
    pub m_min: u64,
    pub m_max: u64,
}

impl ShpHeader {
    /// The required value of the leading big-endian file code.
    pub const FILE_CODE: i32 = 0x270a;
}

/// The framing header before each record's payload.
#[derive(Debug, Clone, Copy, PartialEq, Eq, Structural)]
pub struct ShpRecordHeader {
    /// 1-based record number as declared in the file.
    pub record_number: i32,
    /// Payload length in 16-bit words, not counting this header.
    pub content_length: ShpLength,
}

/// One framed record: its header and its decoded shape.
#[derive(Debug, Clone)]
pub struct ShpRecord {
    pub header: ShpRecordHeader,
    pub shape: Shape,
}

/// A whole decoded shape file.
#[derive(Debug, Clone)]
pub struct ShpFile {
    pub header: ShpHeader,
    pub records: Vec<ShpRecord>,
}

} // verus!
