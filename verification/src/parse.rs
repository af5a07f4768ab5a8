//! The byte cursor and the shape-file decoders built on it.
//!
//! A `Parser` owns one in-memory byte source and a running consumed-byte
//! counter; the format is consumed strictly forward, and every
//! "did we read the right number of bytes" check is a delta of that
//! counter.

use vstd::prelude::*;

use crate::codec::{
    be32_at, le32_at, le64_at, reinterpret_signed, signed32, u32_from_le, u64_from_le,
};
use crate::error::Error;
use crate::shape::{
    spec_shape_type_of_code, spec_shape_type_supported, MinimumBoundingRectangle, Point, PolyLine,
    Polygon, Shape, ShapeType, ShpFile, ShpHeader, ShpLength, ShpRecord, ShpRecordHeader,
};

verus! {

/// A position-tracked byte source. All higher-level decoders read
/// through it; the consumed-byte counter only ever grows.
pub struct Parser {
    data: Vec<u8>,
    bytes_read: usize,
}

impl Parser {
    /// The whole byte source handed to this parser.
    pub closed spec fn source(&self) -> Seq<u8> {
        self.data@
    }

    /// How many bytes have been consumed so far.
    pub closed spec fn consumed(&self) -> int {
        self.bytes_read as int
    }

    /// The cursor never moves past the end of the source.
    pub closed spec fn wf(&self) -> bool {
        self.bytes_read <= self.data@.len()
    }

    /// How many bytes are still unread.
    pub open spec fn remaining(&self) -> int {
        self.source().len() - self.consumed()
    }

    /// Start a parser over an owned byte buffer, with nothing consumed.
    pub fn with_reader(data: Vec<u8>) -> (r: Parser)
        ensures
            r.source() == data@,
            r.consumed() == 0,
            r.wf(),
    {
        Parser { data, bytes_read: 0 }
    }

    /// The running consumed-byte counter.
    pub fn num_bytes_read(&self) -> (r: usize)
        ensures
            r == self.consumed(),
    {
        self.bytes_read
    }

    /// Read exactly `n` bytes, or fail with `TruncatedInput`; on success
    /// the consumed-byte counter grows by exactly `n`.
    pub fn read_exact(&mut self, n: usize) -> (r: Result<Vec<u8>, Error>)
        requires
            old(self).wf(),
        ensures
            final(self).source() == old(self).source(),
            final(self).wf(),
            r is Ok <==> n <= old(self).remaining(),
            r matches Ok(v) ==> {
                &&& final(self).consumed() == old(self).consumed() + n
                &&& v@ == old(self).source().subrange(
                    old(self).consumed(),
                    old(self).consumed() + n,
                )
            },
            r is Err ==> {
                &&& *final(self) == *old(self)
                &&& r == Err::<Vec<u8>, Error>(
                    Error::TruncatedInput {
                        at: old(self).consumed() as usize,
                        requested: n,
                        available: old(self).remaining() as usize,
                    },
                )
            },
    {
        let available = self.data.len() - self.bytes_read;
        if n > available {
            return Err(
                Error::TruncatedInput { at: self.bytes_read, requested: n, available },
            );
        }
        let mut v: Vec<u8> = Vec::new();
        let start = self.bytes_read;
        let end = start + n;
        for i in 0..n
            invariant
                end == start + n,
                end <= self.data@.len(),
                v@.len() == i,
                forall|j: int| 0 <= j < i ==> v@[j] == self.data@[start + j],
        {
            v.push(self.data[start + i]);
        }
        self.bytes_read = end;
        proof {
            assert(v@ =~= self.data@.subrange(start as int, start + n));
        }
        Ok(v)
    }

    /// Skip `n` bytes without keeping them.
    pub fn skip(&mut self, n: usize) -> (r: Result<(), Error>)
        requires
            old(self).wf(),
        ensures
            final(self).source() == old(self).source(),
            final(self).wf(),
            r is Ok <==> n <= old(self).remaining(),
            r is Ok ==> final(self).consumed() == old(self).consumed() + n,
            r is Err ==> {
                &&& *final(self) == *old(self)
                &&& r == Err::<(), Error>(
                    Error::TruncatedInput {
                        at: old(self).consumed() as usize,
                        requested: n,
                        available: old(self).remaining() as usize,
                    },
                )
            },
    {
        let available = self.data.len() - self.bytes_read;
        if n > available {
            return Err(
                Error::TruncatedInput { at: self.bytes_read, requested: n, available },
            );
        }
        self.bytes_read = self.bytes_read + n;
        Ok(())
    }

    /// Read the next four bytes.
    pub fn consume_4(&mut self) -> (r: Result<[u8; 4], Error>)
        requires
            old(self).wf(),
        ensures
            final(self).source() == old(self).source(),
            final(self).wf(),
            r is Ok <==> 4 <= old(self).remaining(),
            r matches Ok(b) ==> {
                &&& final(self).consumed() == old(self).consumed() + 4
                &&& b@ == old(self).source().subrange(
                    old(self).consumed(),
                    old(self).consumed() + 4,
                )
            },
            r is Err ==> {
                &&& *final(self) == *old(self)
                &&& r == Err::<[u8; 4], Error>(
                    Error::TruncatedInput {
                        at: old(self).consumed() as usize,
                        requested: 4,
                        available: old(self).remaining() as usize,
                    },
                )
            },
    {
        let v = self.read_exact(4)?;
        Ok([v[0], v[1], v[2], v[3]])
    }

    /// Read the next eight bytes.
    pub fn consume_8(&mut self) -> (r: Result<[u8; 8], Error>)
        requires
            old(self).wf(),
        ensures
            final(self).source() == old(self).source(),
            final(self).wf(),
            r is Ok <==> 8 <= old(self).remaining(),
            r matches Ok(b) ==> {
                &&& final(self).consumed() == old(self).consumed() + 8
                &&& b@ == old(self).source().subrange(
                    old(self).consumed(),
                    old(self).consumed() + 8,
                )
            },
            r is Err ==> {
                &&& *final(self) == *old(self)
                &&& r == Err::<[u8; 8], Error>(
                    Error::TruncatedInput {
                        at: old(self).consumed() as usize,
                        requested: 8,
                        available: old(self).remaining() as usize,
                    },
                )
            },
    {
        let v = self.read_exact(8)?;
        Ok([v[0], v[1], v[2], v[3], v[4], v[5], v[6], v[7]])
    }

    /// Read one little-endian 32-bit signed integer.
    pub fn parse_i32_le(&mut self) -> (r: Result<i32, Error>)
        requires
            old(self).wf(),
        ensures
            final(self).source() == old(self).source(),
            final(self).wf(),
            r is Ok <==> 4 <= old(self).remaining(),
            r matches Ok(x) ==> {
                &&& final(self).consumed() == old(self).consumed() + 4
                &&& x == signed32(le32_at(old(self).source(), old(self).consumed()))
            },
            r is Err ==> {
                &&& *final(self) == *old(self)
                &&& r == Err::<i32, Error>(
                    Error::TruncatedInput {
                        at: old(self).consumed() as usize,
                        requested: 4,
                        available: old(self).remaining() as usize,
                    },
                )
            },
    {
        let b = self.consume_4()?;
        let u = u32_from_le(b[0], b[1], b[2], b[3]);
        Ok(reinterpret_signed(u))
    }

    /// Read one big-endian 32-bit signed integer.
    pub fn parse_i32_be(&mut self) -> (r: Result<i32, Error>)
        requires
            old(self).wf(),
        ensures
            final(self).source() == old(self).source(),
            final(self).wf(),
            r is Ok <==> 4 <= old(self).remaining(),
            r matches Ok(x) ==> {
                &&& final(self).consumed() == old(self).consumed() + 4
                &&& x == signed32(be32_at(old(self).source(), old(self).consumed()))
            },
            r is Err ==> {
                &&& *final(self) == *old(self)
                &&& r == Err::<i32, Error>(
                    Error::TruncatedInput {
                        at: old(self).consumed() as usize,
                        requested: 4,
                        available: old(self).remaining() as usize,
                    },
                )
            },
    {
        let b = self.consume_4()?;
        let u = u32_from_le(b[3], b[2], b[1], b[0]);
        Ok(reinterpret_signed(u))
    }

    /// Read one little-endian 32-bit integer, the format's plain number
    /// type.
    pub fn parse_integer(&mut self) -> (r: Result<i32, Error>)
        requires
            old(self).wf(),
        ensures
            final(self).source() == old(self).source(),
            final(self).wf(),
            r is Ok <==> 4 <= old(self).remaining(),
            r matches Ok(x) ==> {
                &&& final(self).consumed() == old(self).consumed() + 4
                &&& x == signed32(le32_at(old(self).source(), old(self).consumed()))
            },
            r is Err ==> *final(self) == *old(self) && (r matches Err(e) && e is TruncatedInput),
    {
        self.parse_i32_le()
    }

    /// Read one length in 16-bit words, stored big endian.
    pub fn parse_length(&mut self) -> (r: Result<ShpLength, Error>)
        requires
            old(self).wf(),
        ensures
            final(self).source() == old(self).source(),
            final(self).wf(),
            r is Ok <==> 4 <= old(self).remaining(),
            r matches Ok(x) ==> {
                &&& final(self).consumed() == old(self).consumed() + 4
                &&& x.0 == signed32(be32_at(old(self).source(), old(self).consumed()))
            },
            r is Err ==> *final(self) == *old(self) && (r matches Err(e) && e is TruncatedInput),
    {
        let x = self.parse_i32_be()?;
        Ok(ShpLength(x))
    }

    /// Read one big-endian record number.
    pub fn parse_record_number(&mut self) -> (r: Result<i32, Error>)
        requires
            old(self).wf(),
        ensures
            final(self).source() == old(self).source(),
            final(self).wf(),
            r is Ok <==> 4 <= old(self).remaining(),
            r matches Ok(x) ==> {
                &&& final(self).consumed() == old(self).consumed() + 4
                &&& x == signed32(be32_at(old(self).source(), old(self).consumed()))
            },
            r is Err ==> *final(self) == *old(self) && (r matches Err(e) && e is TruncatedInput),
    {
        self.parse_i32_be()
    }

    /// Read one 64-bit float as its little-endian bit pattern, left
    /// uninterpreted.
    pub fn parse_double(&mut self) -> (r: Result<u64, Error>)
        requires
            old(self).wf(),
        ensures
            final(self).source() == old(self).source(),
            final(self).wf(),
            r is Ok <==> 8 <= old(self).remaining(),
            r matches Ok(x) ==> {
                &&& final(self).consumed() == old(self).consumed() + 8
                &&& x == le64_at(old(self).source(), old(self).consumed())
            },
            r is Err ==> {
                &&& *final(self) == *old(self)
                &&& r == Err::<u64, Error>(
                    Error::TruncatedInput {
                        at: old(self).consumed() as usize,
                        requested: 8,
                        available: old(self).remaining() as usize,
                    },
                )
            },
    {
        let b = self.consume_8()?;
        Ok(u64_from_le(b))
    }
}

impl Parser {
    /// Read one byte.
    pub fn parse_u8(&mut self) -> (r: Result<u8, Error>)
        requires
            old(self).wf(),
        ensures
            final(self).source() == old(self).source(),
            final(self).wf(),
            r is Ok <==> 1 <= old(self).remaining(),
            r matches Ok(x) ==> {
                &&& final(self).consumed() == old(self).consumed() + 1
                &&& x == old(self).source()[old(self).consumed()]
            },
            r is Err ==> {
                &&& *final(self) == *old(self)
                &&& r == Err::<u8, Error>(
                    Error::TruncatedInput {
                        at: old(self).consumed() as usize,
                        requested: 1,
                        available: old(self).remaining() as usize,
                    },
                )
            },
    {
        if self.bytes_read >= self.data.len() {
            return Err(
                Error::TruncatedInput {
                    at: self.bytes_read,
                    requested: 1,
                    available: self.data.len() - self.bytes_read,
                },
            );
        }
        let b = self.data[self.bytes_read];
        self.bytes_read = self.bytes_read + 1;
        Ok(b)
    }

    /// Read one little-endian 16-bit unsigned integer.
    pub fn parse_u16_le(&mut self) -> (r: Result<u16, Error>)
        requires
            old(self).wf(),
        ensures
            final(self).source() == old(self).source(),
            final(self).wf(),
            r is Ok <==> 2 <= old(self).remaining(),
            r matches Ok(x) ==> {
                &&& final(self).consumed() == old(self).consumed() + 2
                &&& x == crate::codec::le16_at(old(self).source(), old(self).consumed())
            },
            r is Err ==> (r matches Err(e) && e is TruncatedInput),
    {
        let v = self.read_exact(2)?;
        Ok(crate::codec::u16_from_le(v[0], v[1]))
    }

    /// Read one little-endian 32-bit unsigned integer.
    pub fn parse_u32_le(&mut self) -> (r: Result<u32, Error>)
        requires
            old(self).wf(),
        ensures
            final(self).source() == old(self).source(),
            final(self).wf(),
            r is Ok <==> 4 <= old(self).remaining(),
            r matches Ok(x) ==> {
                &&& final(self).consumed() == old(self).consumed() + 4
                &&& x == le32_at(old(self).source(), old(self).consumed())
            },
            r is Err ==> (r matches Err(e) && e is TruncatedInput),
    {
        let v = self.read_exact(4)?;
        Ok(u32_from_le(v[0], v[1], v[2], v[3]))
    }
}

/// The bounding rectangle stored as four little-endian doubles at `c`:
/// minimum x, minimum y, maximum x, maximum y.
pub open spec fn mbr_at(s: Seq<u8>, c: int, m: MinimumBoundingRectangle) -> bool {
    &&& m.x_min == le64_at(s, c)
    &&& m.y_min == le64_at(s, c + 8)
    &&& m.x_max == le64_at(s, c + 16)
    &&& m.y_max == le64_at(s, c + 24)
}

/// One point stored as two little-endian doubles at `c`: x then y.
pub open spec fn point_at(s: Seq<u8>, c: int, p: Point) -> bool {
    &&& p.x == le64_at(s, c)
    &&& p.y == le64_at(s, c + 8)
}

impl Parser {
    /// Read a bounding rectangle: four little-endian doubles.
    pub fn parse_mbr(&mut self) -> (r: Result<MinimumBoundingRectangle, Error>)
        requires
            old(self).wf(),
        ensures
            final(self).source() == old(self).source(),
            final(self).wf(),
            r is Ok <==> 32 <= old(self).remaining(),
            r matches Ok(m) ==> {
                &&& final(self).consumed() == old(self).consumed() + 32
                &&& mbr_at(old(self).source(), old(self).consumed(), m)
            },
            r is Err ==> (r matches Err(e) && e is TruncatedInput),
    {
        let x_min = self.parse_double()?;
        let y_min = self.parse_double()?;
        let x_max = self.parse_double()?;
        let y_max = self.parse_double()?;
        Ok(MinimumBoundingRectangle { x_min, x_max, y_min, y_max })
    }

    /// Read one point: two little-endian doubles, x then y.
    pub fn parse_point(&mut self) -> (r: Result<Point, Error>)
        requires
            old(self).wf(),
        ensures
            final(self).source() == old(self).source(),
            final(self).wf(),
            r is Ok <==> 16 <= old(self).remaining(),
            r matches Ok(p) ==> {
                &&& final(self).consumed() == old(self).consumed() + 16
                &&& point_at(old(self).source(), old(self).consumed(), p)
            },
            r is Err ==> (r matches Err(e) && e is TruncatedInput),
    {
        let x = self.parse_double()?;
        let y = self.parse_double()?;
        Ok(Point { x, y })
    }

    /// Read a little-endian shape-type code and map it through the
    /// exhaustive dispatch table; unmapped codes fail with
    /// `UnknownShapeType`.
    pub fn parse_shape_type(&mut self) -> (r: Result<ShapeType, Error>)
        requires
            old(self).wf(),
        ensures
            final(self).source() == old(self).source(),
            final(self).wf(),
            r is Ok <==> 4 <= old(self).remaining() && spec_shape_type_of_code(
                signed32(le32_at(old(self).source(), old(self).consumed())),
            ) is Some,
            r matches Ok(t) ==> {
                &&& final(self).consumed() == old(self).consumed() + 4
                &&& Some(t) == spec_shape_type_of_code(
                    signed32(le32_at(old(self).source(), old(self).consumed())),
                )
            },
            old(self).remaining() < 4 ==> (r matches Err(e) && e is TruncatedInput)
                && *final(self) == *old(self),
            4 <= old(self).remaining() ==> final(self).consumed() == old(self).consumed() + 4,
            4 <= old(self).remaining() && spec_shape_type_of_code(
                signed32(le32_at(old(self).source(), old(self).consumed())),
            ) is None ==> r == Err::<ShapeType, Error>(
                Error::UnknownShapeType {
                    code: signed32(le32_at(old(self).source(), old(self).consumed())) as i32,
                },
            ),
    {
        let code = self.parse_i32_le()?;
        ShapeType::from_code(code)
    }
}

/// The fixed 100-byte header stored at `c`: the required big-endian file
/// code, twenty unused bytes, the big-endian file length in words, the
/// little-endian version, the little-endian shape-type code, then the
/// bounding rectangle, the z range and the m range.
pub open spec fn header_at(s: Seq<u8>, c: int, h: ShpHeader) -> bool {
    &&& h.file_code == signed32(be32_at(s, c))
    &&& h.file_code == 0x270a
    &&& h.file_length.0 == signed32(be32_at(s, c + 24))
    &&& h.version == signed32(le32_at(s, c + 28))
    &&& Some(h.shape_type) == spec_shape_type_of_code(signed32(le32_at(s, c + 32)))
    &&& mbr_at(s, c + 36, h.mbr)
    &&& h.z_min == le64_at(s, c + 68)
    &&& h.z_max == le64_at(s, c + 76)
    &&& h.m_min == le64_at(s, c + 84)
    &&& h.m_max == le64_at(s, c + 92)
}

impl Parser {
    /// Decode the fixed 100-byte shape-file header. Failure here is
    /// fatal to the whole file: a bad header means the rest of the byte
    /// stream cannot be trusted.
    pub fn parse_header(&mut self) -> (r: Result<ShpHeader, Error>)
        requires
            old(self).wf(),
        ensures
            final(self).source() == old(self).source(),
            final(self).wf(),
            r is Ok <==> {
                let s = old(self).source();
                let c = old(self).consumed();
                &&& 4 <= old(self).remaining()
                &&& signed32(be32_at(s, c)) == 0x270a
                &&& 36 <= old(self).remaining()
                &&& spec_shape_type_of_code(signed32(le32_at(s, c + 32))) is Some
                &&& 100 <= old(self).remaining()
            },
            r matches Ok(h) ==> {
                &&& final(self).consumed() == old(self).consumed() + 100
                &&& header_at(old(self).source(), old(self).consumed(), h)
            },
            old(self).remaining() < 4 ==> (r matches Err(e) && e is TruncatedInput)
                && *final(self) == *old(self),
            4 <= old(self).remaining() && signed32(be32_at(old(self).source(), old(self).consumed()))
                != 0x270a ==> r == Err::<ShpHeader, Error>(
                Error::BadMagic {
                    found: signed32(be32_at(old(self).source(), old(self).consumed())) as i32,
                },
            ) && final(self).consumed() == old(self).consumed() + 4,
            ({
                let s = old(self).source();
                let c = old(self).consumed();
                signed32(be32_at(s, c)) == 0x270a && old(self).remaining() < 36
            }) ==> (r matches Err(e) && e is TruncatedInput),
            ({
                let s = old(self).source();
                let c = old(self).consumed();
                &&& signed32(be32_at(s, c)) == 0x270a
                &&& 36 <= old(self).remaining()
                &&& spec_shape_type_of_code(signed32(le32_at(s, c + 32))) is None
            }) ==> r == Err::<ShpHeader, Error>(
                Error::UnknownShapeType {
                    code: signed32(le32_at(old(self).source(), old(self).consumed() + 32)) as i32,
                },
            ) && final(self).consumed() == old(self).consumed() + 36,
            ({
                let s = old(self).source();
                let c = old(self).consumed();
                &&& signed32(be32_at(s, c)) == 0x270a
                &&& 36 <= old(self).remaining()
                &&& spec_shape_type_of_code(signed32(le32_at(s, c + 32))) is Some
                &&& old(self).remaining() < 100
            }) ==> (r matches Err(e) && e is TruncatedInput),
    {
        let file_code = self.parse_i32_be()?;
        if file_code != ShpHeader::FILE_CODE {
            return Err(Error::BadMagic { found: file_code });
        }
        self.skip(20)?;
        let file_length = self.parse_length()?;
        let version = self.parse_integer()?;
        let shape_type = self.parse_shape_type()?;
        let mbr = self.parse_mbr()?;
        let z_min = self.parse_double()?;
        let z_max = self.parse_double()?;
        let m_min = self.parse_double()?;
        let m_max = self.parse_double()?;
        Ok(
            ShpHeader {
                file_code,
                file_length,
                version,
                shape_type,
                mbr,
                z_min,
                z_max,
                m_min,
                m_max,
            },
        )
    }
}


/// A count field read from the file, clamped as the decoders treat it:
/// a non-positive declared count yields zero items.
pub open spec fn clamped_count(x: int) -> int {
    if x > 0 {
        x
    } else {
        0
    }
}

/// The declared part count of a poly payload whose body starts at `b`.
pub open spec fn poly_num_parts(s: Seq<u8>, b: int) -> int {
    clamped_count(signed32(le32_at(s, b + 32)))
}

/// The declared point count of a poly payload whose body starts at `b`.
pub open spec fn poly_num_points(s: Seq<u8>, b: int) -> int {
    clamped_count(signed32(le32_at(s, b + 36)))
}

/// Byte size of a poly payload body at `b`: bounding rectangle, two
/// counts, the part offsets, then the points.
pub open spec fn poly_size(s: Seq<u8>, b: int) -> int {
    40 + 4 * poly_num_parts(s, b) + 16 * poly_num_points(s, b)
}

/// The fields shared by poly-line and polygon payloads, stored at `b`:
/// bounding rectangle, part count, point count, part-start offsets, then
/// the flat point array.
pub open spec fn poly_at(
    s: Seq<u8>,
    b: int,
    mbr: MinimumBoundingRectangle,
    parts: Seq<i32>,
    points: Seq<Point>,
) -> bool {
    &&& mbr_at(s, b, mbr)
    &&& parts.len() == poly_num_parts(s, b)
    &&& (forall|i: int|
        0 <= i < parts.len() ==> #[trigger] parts[i] == signed32(le32_at(s, b + 40 + 4 * i)))
    &&& points.len() == poly_num_points(s, b)
    &&& (forall|j: int|
        0 <= j < points.len() ==> point_at(
            s,
            b + 40 + 4 * parts.len() + 16 * j,
            #[trigger] points[j],
        ))
}

impl Parser {
    /// Read the fields shared by poly-line and polygon payloads:
    /// bounding rectangle, part count, point count, the part offsets and
    /// the points. A non-positive declared count yields zero items, as a
    /// loop to a negative bound would.
    fn parse_poly_fields(&mut self) -> (r: Result<
        (MinimumBoundingRectangle, Vec<i32>, Vec<Point>),
        Error,
    >)
        requires
            old(self).wf(),
        ensures
            final(self).source() == old(self).source(),
            final(self).wf(),
            r is Ok <==> 40 <= old(self).remaining() && poly_size(
                old(self).source(),
                old(self).consumed(),
            ) <= old(self).remaining(),
            r matches Ok(t) ==> {
                &&& final(self).consumed() == old(self).consumed() + poly_size(
                    old(self).source(),
                    old(self).consumed(),
                )
                &&& poly_at(old(self).source(), old(self).consumed(), t.0, t.1@, t.2@)
            },
            r is Err ==> (r matches Err(e) && e is TruncatedInput),
    {
        let ghost s = self.source();
        let ghost b = self.consumed();
        let mbr = self.parse_mbr()?;
        let num_parts = self.parse_integer()?;
        let num_points = self.parse_integer()?;
        let np: usize = if num_parts > 0 {
            num_parts as usize
        } else {
            0
        };
        let nn: usize = if num_points > 0 {
            num_points as usize
        } else {
            0
        };
        let mut parts: Vec<i32> = Vec::new();
        for i in 0..np
            invariant
                s == old(self).source(),
                b == old(self).consumed(),
                self.wf(),
                self.source() == s,
                self.consumed() == b + 40 + 4 * i,
                np == poly_num_parts(s, b),
                nn == poly_num_points(s, b),
                parts@.len() == i,
                forall|k: int|
                    0 <= k < i ==> #[trigger] parts@[k] == signed32(le32_at(s, b + 40 + 4 * k)),
        {
            let part_idx = self.parse_integer()?;
            parts.push(part_idx);
        }
        let mut points: Vec<Point> = Vec::new();
        for j in 0..nn
            invariant
                s == old(self).source(),
                b == old(self).consumed(),
                self.wf(),
                self.source() == s,
                self.consumed() == b + 40 + 4 * np + 16 * j,
                np == poly_num_parts(s, b),
                nn == poly_num_points(s, b),
                points@.len() == j,
                forall|k: int|
                    0 <= k < j ==> point_at(s, b + 40 + 4 * np + 16 * k, #[trigger] points@[k]),
        {
            let point = self.parse_point()?;
            points.push(point);
        }
        Ok((mbr, parts, points))
    }

    /// Decode a polygon payload body.
    pub fn parse_polygon(&mut self) -> (r: Result<Shape, Error>)
        requires
            old(self).wf(),
        ensures
            final(self).source() == old(self).source(),
            final(self).wf(),
            r is Ok <==> 40 <= old(self).remaining() && poly_size(
                old(self).source(),
                old(self).consumed(),
            ) <= old(self).remaining(),
            r matches Ok(sh) ==> {
                &&& final(self).consumed() == old(self).consumed() + poly_size(
                    old(self).source(),
                    old(self).consumed(),
                )
                &&& sh matches Shape::Polygon(pg) && poly_at(
                    old(self).source(),
                    old(self).consumed(),
                    pg.mbr,
                    pg.parts@,
                    pg.points@,
                )
            },
            r is Err ==> (r matches Err(e) && e is TruncatedInput),
    {
        let (mbr, parts, points) = self.parse_poly_fields()?;
        Ok(Shape::Polygon(Polygon { mbr, parts, points }))
    }

    /// Decode a poly-line payload body.
    pub fn parse_polyline(&mut self) -> (r: Result<Shape, Error>)
        requires
            old(self).wf(),
        ensures
            final(self).source() == old(self).source(),
            final(self).wf(),
            r is Ok <==> 40 <= old(self).remaining() && poly_size(
                old(self).source(),
                old(self).consumed(),
            ) <= old(self).remaining(),
            r matches Ok(sh) ==> {
                &&& final(self).consumed() == old(self).consumed() + poly_size(
                    old(self).source(),
                    old(self).consumed(),
                )
                &&& sh matches Shape::PolyLine(pl) && poly_at(
                    old(self).source(),
                    old(self).consumed(),
                    pl.mbr,
                    pl.parts@,
                    pl.points@,
                )
            },
            r is Err ==> (r matches Err(e) && e is TruncatedInput),
    {
        let (mbr, parts, points) = self.parse_poly_fields()?;
        Ok(Shape::PolyLine(PolyLine { mbr, parts, points }))
    }

    /// Read one record-framing header: big-endian record number, then
    /// big-endian content length in 16-bit words.
    pub fn parse_record_header(&mut self) -> (r: Result<ShpRecordHeader, Error>)
        requires
            old(self).wf(),
        ensures
            final(self).source() == old(self).source(),
            final(self).wf(),
            r is Ok <==> 8 <= old(self).remaining(),
            r matches Ok(h) ==> {
                &&& final(self).consumed() == old(self).consumed() + 8
                &&& h.record_number == signed32(be32_at(old(self).source(), old(self).consumed()))
                &&& h.content_length.0 == signed32(
                    be32_at(old(self).source(), old(self).consumed() + 4),
                )
            },
            r is Err ==> (r matches Err(e) && e is TruncatedInput),
    {
        let record_number = self.parse_record_number()?;
        let content_length = self.parse_length()?;
        Ok(ShpRecordHeader { record_number, content_length })
    }
}

/// The declared content length, in 16-bit words, of the record at `c`.
pub open spec fn record_content_words(s: Seq<u8>, c: int) -> int {
    signed32(be32_at(s, c + 4))
}

/// The shape-type code of the record at `c`.
pub open spec fn record_shape_code(s: Seq<u8>, c: int) -> int {
    signed32(le32_at(s, c + 8))
}

/// The byte size of the content of the record at `c`: the 4-byte shape
/// code plus the payload body of that shape type.
pub open spec fn record_content_size(s: Seq<u8>, c: int) -> int {
    let code = record_shape_code(s, c);
    if code == 0 {
        4
    } else if code == 1 {
        20
    } else {
        4 + poly_size(s, c + 12)
    }
}

/// The decoded shape of the record at `c` matches the bytes.
pub open spec fn shape_at(s: Seq<u8>, c: int, sh: Shape) -> bool {
    let code = record_shape_code(s, c);
    if code == 0 {
        sh is Null
    } else if code == 1 {
        sh matches Shape::Point(p) && point_at(s, c + 12, p)
    } else if code == 3 {
        sh matches Shape::PolyLine(pl) && poly_at(s, c + 12, pl.mbr, pl.parts@, pl.points@)
    } else if code == 5 {
        sh matches Shape::Polygon(pg) && poly_at(s, c + 12, pg.mbr, pg.parts@, pg.points@)
    } else {
        false
    }
}

/// The whole record at `c` matches the bytes, its frame included: twice
/// the declared content length equals the bytes its content occupies.
pub open spec fn record_at(s: Seq<u8>, c: int, rec: ShpRecord) -> bool {
    &&& rec.header.record_number == signed32(be32_at(s, c))
    &&& rec.header.content_length.0 == record_content_words(s, c)
    &&& 2 * rec.header.content_length.0 == record_content_size(s, c)
    &&& shape_at(s, c, rec.shape)
}

/// The record at `c` decodes without error: its framing and code are
/// readable, its type is recognized and supported, its payload fits in
/// the source, and its declared length matches its content exactly.
pub open spec fn record_parses_at(s: Seq<u8>, c: int) -> bool {
    let code = record_shape_code(s, c);
    &&& c + 12 <= s.len()
    &&& spec_shape_type_of_code(code) matches Some(t) && spec_shape_type_supported(t)
    &&& (code == 3 || code == 5 ==> c + 52 <= s.len())
    &&& c + 8 + record_content_size(s, c) <= s.len()
    &&& 2 * record_content_words(s, c) == record_content_size(s, c)
}

impl Parser {
    /// Decode one framed record: the framing header, the shape-type
    /// code, the payload of that type, then the frame check — the bytes
    /// consumed by the content must equal twice the declared content
    /// length, the primary corruption detector.
    pub fn parse_record(&mut self) -> (r: Result<ShpRecord, Error>)
        requires
            old(self).wf(),
        ensures
            final(self).source() == old(self).source(),
            final(self).wf(),
            r is Ok <==> record_parses_at(old(self).source(), old(self).consumed()),
            r matches Ok(rec) ==> {
                &&& final(self).consumed() == old(self).consumed() + 8 + 2
                    * rec.header.content_length.0
                &&& record_at(old(self).source(), old(self).consumed(), rec)
            },
            ({
                let s = old(self).source();
                let c = old(self).consumed();
                &&& c + 12 <= s.len()
                &&& spec_shape_type_of_code(record_shape_code(s, c)) is None
            }) ==> r == Err::<ShpRecord, Error>(
                Error::UnknownShapeType {
                    code: record_shape_code(old(self).source(), old(self).consumed()) as i32,
                },
            ),
            ({
                let s = old(self).source();
                let c = old(self).consumed();
                &&& c + 12 <= s.len()
                &&& spec_shape_type_of_code(record_shape_code(s, c)) matches Some(t)
                    && !spec_shape_type_supported(t)
            }) ==> r == Err::<ShpRecord, Error>(
                Error::UnsupportedShapeType {
                    code: record_shape_code(old(self).source(), old(self).consumed()) as i32,
                },
            ),
            ({
                let s = old(self).source();
                let c = old(self).consumed();
                &&& c + 12 <= s.len()
                &&& spec_shape_type_of_code(record_shape_code(s, c)) matches Some(t)
                    && spec_shape_type_supported(t)
                &&& (record_shape_code(s, c) == 3 || record_shape_code(s, c) == 5 ==> c + 52
                    <= s.len())
                &&& c + 8 + record_content_size(s, c) <= s.len()
                &&& 2 * record_content_words(s, c) != record_content_size(s, c)
            }) ==> r == Err::<ShpRecord, Error>(
                Error::FrameLengthMismatch {
                    expected_bytes: (2 * record_content_words(
                        old(self).source(),
                        old(self).consumed(),
                    )) as i64,
                    actual_bytes: record_content_size(
                        old(self).source(),
                        old(self).consumed(),
                    ) as usize,
                },
            ),
            r is Err && !({
                let s = old(self).source();
                let c = old(self).consumed();
                &&& c + 12 <= s.len()
                &&& (spec_shape_type_of_code(record_shape_code(s, c)) is None
                    || (spec_shape_type_of_code(record_shape_code(s, c)) matches Some(t)
                    && !spec_shape_type_supported(t)) || (spec_shape_type_of_code(
                    record_shape_code(s, c),
                ) matches Some(t) && spec_shape_type_supported(t) && (record_shape_code(s, c) == 3
                    || record_shape_code(s, c) == 5 ==> c + 52 <= s.len()) && c + 8
                    + record_content_size(s, c) <= s.len()))
            }) ==> (r matches Err(e) && e is TruncatedInput),
    {
        let record_header = self.parse_record_header()?;
        let before = self.num_bytes_read();
        let shape_type = self.parse_shape_type()?;
        let shape = match shape_type {
            ShapeType::Null => Shape::Null,
            ShapeType::Point => Shape::Point(self.parse_point()?),
            ShapeType::PolyLine => self.parse_polyline()?,
            ShapeType::Polygon => self.parse_polygon()?,
            other => {
                return Err(Error::UnsupportedShapeType { code: other.code() });
            },
        };
        let after = self.num_bytes_read();
        let actual = after - before;
        if record_header.content_length.0 < 0 || record_header.content_length.num_bytes()
            != actual {
            return Err(
                Error::FrameLengthMismatch {
                    expected_bytes: (record_header.content_length.0 as i64) * 2,
                    actual_bytes: actual,
                },
            );
        }
        Ok(ShpRecord { header: record_header, shape })
    }
}


/// The record list matches the bytes from `c` up to exactly `goal`,
/// each record starting where the previous one ended.
pub open spec fn records_chain(s: Seq<u8>, c: int, goal: int, records: Seq<ShpRecord>) -> bool
    decreases records.len(),
{
    if records.len() == 0 {
        c == goal
    } else {
        &&& c < goal
        &&& record_at(s, c, records[0])
        &&& records_chain(
            s,
            c + 8 + 2 * records[0].header.content_length.0,
            goal,
            records.drop_first(),
        )
    }
}

/// Records decode without error from `c` until the consumed count lands
/// on `goal` exactly; a record whose framing pushes past `goal` is a
/// failure.
pub open spec fn records_parse_to(s: Seq<u8>, c: int, goal: int) -> bool
    decreases goal - c,
{
    if c >= goal {
        c == goal
    } else if !record_parses_at(s, c) {
        false
    } else {
        let next = c + 8 + record_content_size(s, c);
        if next > goal {
            false
        } else {
            records_parse_to(s, next, goal)
        }
    }
}

/// Appending one more matching record extends a record chain by that
/// record's framed size.
proof fn lemma_records_chain_push(
    s: Seq<u8>,
    c0: int,
    c1: int,
    records: Seq<ShpRecord>,
    rec: ShpRecord,
)
    requires
        records_chain(s, c0, c1, records),
        record_at(s, c1, rec),
    ensures
        records_chain(s, c0, c1 + 8 + 2 * rec.header.content_length.0, records.push(rec)),
    decreases records.len(),
{
    reveal_with_fuel(records_chain, 3);
    assert(record_content_size(s, c1) >= 4);
    if records.len() == 0 {
        assert(records.push(rec).drop_first() =~= Seq::<ShpRecord>::empty());
        assert(records.push(rec)[0] == rec);
    } else {
        lemma_records_chain_push(
            s,
            c0 + 8 + 2 * records[0].header.content_length.0,
            c1,
            records.drop_first(),
            rec,
        );
        assert(records.push(rec).drop_first() =~= records.drop_first().push(rec));
        assert(records.push(rec)[0] == records[0]);
    }
}

/// Records decode without error from `a` up to exactly `c`, each
/// starting where the previous one ended.
pub open spec fn records_ok_between(s: Seq<u8>, a: int, c: int) -> bool
    decreases c - a,
{
    if a >= c {
        a == c
    } else if !record_parses_at(s, a) {
        false
    } else {
        let next = a + 8 + record_content_size(s, a);
        if next > c {
            false
        } else {
            records_ok_between(s, next, c)
        }
    }
}

/// A run of good records extends by one more good record.
proof fn lemma_records_ok_between_extend(s: Seq<u8>, a: int, c: int)
    requires
        records_ok_between(s, a, c),
        record_parses_at(s, c),
    ensures
        records_ok_between(s, a, c + 8 + record_content_size(s, c)),
    decreases c - a,
{
    reveal_with_fuel(records_ok_between, 3);
    assert(record_content_size(s, c) >= 4);
    if a < c {
        lemma_records_ok_between_extend(s, a + 8 + record_content_size(s, a), c);
    }
}

/// A position reached within a run of good records starts a run of
/// good records to the far end.
proof fn lemma_records_ok_between_mid(s: Seq<u8>, a: int, x: int, y: int)
    requires
        records_ok_between(s, a, x),
        records_ok_between(s, a, y),
        x <= y,
    ensures
        records_ok_between(s, x, y),
    decreases x - a,
{
    if a < x {
        lemma_records_ok_between_mid(s, a + 8 + record_content_size(s, a), x, y);
    }
}

/// The fixed header decodes without error at `c`.
pub open spec fn header_parses_at(s: Seq<u8>, c: int) -> bool {
    &&& c + 4 <= s.len()
    &&& signed32(be32_at(s, c)) == 0x270a
    &&& c + 36 <= s.len()
    &&& spec_shape_type_of_code(signed32(le32_at(s, c + 32))) is Some
    &&& c + 100 <= s.len()
}

/// A whole shape file decodes without error: its header parses at the
/// start and its records land exactly on twice the declared file length.
pub open spec fn shp_file_parses(s: Seq<u8>) -> bool {
    &&& header_parses_at(s, 0)
    &&& records_parse_to(s, 100, 2 * signed32(be32_at(s, 24)))
}

impl Parser {
    /// Decode the header, then records until the consumed-byte count
    /// reaches twice the declared file length; exact equality at loop
    /// exit is a hard postcondition, and an overshoot fails with
    /// `FrameLengthMismatch`.
    #[verifier::rlimit(50)]
    pub fn impl_parse(self) -> (r: Result<ShpFile, Error>)
        requires
            self.wf(),
        ensures
            r is Ok <==> header_parses_at(self.source(), self.consumed()) && records_parse_to(
                self.source(),
                self.consumed() + 100,
                2 * signed32(be32_at(self.source(), self.consumed() + 24)),
            ),
            r matches Ok(f) ==> {
                &&& header_at(self.source(), self.consumed(), f.header)
                &&& records_chain(
                    self.source(),
                    self.consumed() + 100,
                    2 * f.header.file_length.0,
                    f.records@,
                )
            },
            ({
                let s = self.source();
                let c = self.consumed();
                s.len() - c < 4
            }) ==> (r matches Err(e) && e is TruncatedInput),
            ({
                let s = self.source();
                let c = self.consumed();
                4 <= s.len() - c && signed32(be32_at(s, c)) != 0x270a
            }) ==> r == Err::<ShpFile, Error>(
                Error::BadMagic {
                    found: signed32(be32_at(self.source(), self.consumed())) as i32,
                },
            ),
            ({
                let s = self.source();
                let c = self.consumed();
                signed32(be32_at(s, c)) == 0x270a && s.len() - c < 36
            }) ==> (r matches Err(e) && e is TruncatedInput),
            ({
                let s = self.source();
                let c = self.consumed();
                &&& signed32(be32_at(s, c)) == 0x270a
                &&& 36 <= s.len() - c
                &&& spec_shape_type_of_code(signed32(le32_at(s, c + 32))) is None
            }) ==> r == Err::<ShpFile, Error>(
                Error::UnknownShapeType {
                    code: signed32(le32_at(self.source(), self.consumed() + 32)) as i32,
                },
            ),
            ({
                let s = self.source();
                let c = self.consumed();
                &&& signed32(be32_at(s, c)) == 0x270a
                &&& 36 <= s.len() - c
                &&& spec_shape_type_of_code(signed32(le32_at(s, c + 32))) is Some
                &&& s.len() - c < 100
            }) ==> (r matches Err(e) && e is TruncatedInput),
            ({
                let s = self.source();
                let c = self.consumed();
                header_parses_at(s, c) && signed32(be32_at(s, c + 24)) < 0
            }) ==> r == Err::<ShpFile, Error>(
                Error::FrameLengthMismatch {
                    expected_bytes: (2 * signed32(
                        be32_at(self.source(), self.consumed() + 24),
                    )) as i64,
                    actual_bytes: (self.consumed() + 100) as usize,
                },
            ),
            ({
                let s = self.source();
                let c = self.consumed();
                &&& header_parses_at(s, c)
                &&& signed32(be32_at(s, c + 24)) >= 0
                &&& 2 * signed32(be32_at(s, c + 24)) < c + 100
            }) ==> r == Err::<ShpFile, Error>(
                Error::FrameLengthMismatch {
                    expected_bytes: (2 * signed32(
                        be32_at(self.source(), self.consumed() + 24),
                    )) as i64,
                    actual_bytes: (self.consumed() + 100) as usize,
                },
            ),
            forall|c: int|
                #![trigger record_parses_at(self.source(), c)]
                ({
                    let s = self.source();
                    let c0 = self.consumed();
                    let goal = 2 * signed32(be32_at(s, c0 + 24));
                    &&& header_parses_at(s, c0)
                    &&& signed32(be32_at(s, c0 + 24)) >= 0
                    &&& c0 + 100 <= goal
                    &&& records_ok_between(s, c0 + 100, c)
                    &&& c < goal
                    &&& record_parses_at(s, c)
                    &&& c + 8 + record_content_size(s, c) > goal
                }) ==> r == Err::<ShpFile, Error>(
                    Error::FrameLengthMismatch {
                        expected_bytes: (2 * signed32(
                            be32_at(self.source(), self.consumed() + 24),
                        )) as i64,
                        actual_bytes: (c + 8 + record_content_size(self.source(), c)) as usize,
                    },
                ),
            forall|c: int|
                #![trigger record_shape_code(self.source(), c)]
                ({
                    let s = self.source();
                    let c0 = self.consumed();
                    let goal = 2 * signed32(be32_at(s, c0 + 24));
                    &&& header_parses_at(s, c0)
                    &&& signed32(be32_at(s, c0 + 24)) >= 0
                    &&& c0 + 100 <= goal
                    &&& records_ok_between(s, c0 + 100, c)
                    &&& c < goal
                    &&& c + 12 <= s.len()
                    &&& spec_shape_type_of_code(record_shape_code(s, c)) is None
                }) ==> r == Err::<ShpFile, Error>(
                    Error::UnknownShapeType {
                        code: record_shape_code(self.source(), c) as i32,
                    },
                ),
            forall|c: int|
                #![trigger record_shape_code(self.source(), c)]
                ({
                    let s = self.source();
                    let c0 = self.consumed();
                    let goal = 2 * signed32(be32_at(s, c0 + 24));
                    &&& header_parses_at(s, c0)
                    &&& signed32(be32_at(s, c0 + 24)) >= 0
                    &&& c0 + 100 <= goal
                    &&& records_ok_between(s, c0 + 100, c)
                    &&& c < goal
                    &&& c + 12 <= s.len()
                    &&& spec_shape_type_of_code(record_shape_code(s, c)) matches Some(t)
                        && !spec_shape_type_supported(t)
                }) ==> r == Err::<ShpFile, Error>(
                    Error::UnsupportedShapeType {
                        code: record_shape_code(self.source(), c) as i32,
                    },
                ),
            forall|c: int|
                #![trigger record_shape_code(self.source(), c)]
                ({
                    let s = self.source();
                    let c0 = self.consumed();
                    let goal = 2 * signed32(be32_at(s, c0 + 24));
                    &&& header_parses_at(s, c0)
                    &&& signed32(be32_at(s, c0 + 24)) >= 0
                    &&& c0 + 100 <= goal
                    &&& records_ok_between(s, c0 + 100, c)
                    &&& c < goal
                    &&& c + 12 <= s.len()
                    &&& spec_shape_type_of_code(record_shape_code(s, c)) matches Some(t)
                        && spec_shape_type_supported(t)
                    &&& (record_shape_code(s, c) == 3 || record_shape_code(s, c) == 5 ==> c + 52
                        <= s.len())
                    &&& c + 8 + record_content_size(s, c) <= s.len()
                    &&& 2 * record_content_words(s, c) != record_content_size(s, c)
                }) ==> r == Err::<ShpFile, Error>(
                    Error::FrameLengthMismatch {
                        expected_bytes: (2 * record_content_words(self.source(), c)) as i64,
                        actual_bytes: record_content_size(self.source(), c) as usize,
                    },
                ),
    {
        let mut p = self;
        let ghost s = p.source();
        let ghost c0 = p.consumed();
        let header = p.parse_header()?;
        if header.file_length.0 < 0 {
            return Err(
                Error::FrameLengthMismatch {
                    expected_bytes: (header.file_length.0 as i64) * 2,
                    actual_bytes: p.num_bytes_read(),
                },
            );
        }
        let goal = header.file_length.num_bytes();
        if goal < p.num_bytes_read() {
            return Err(
                Error::FrameLengthMismatch {
                    expected_bytes: goal as i64,
                    actual_bytes: p.num_bytes_read(),
                },
            );
        }
        let mut records: Vec<ShpRecord> = Vec::new();
        while p.num_bytes_read() < goal
            invariant
                s == self.source(),
                c0 == self.consumed(),
                p.wf(),
                p.source() == s,
                p.consumed() >= c0 + 100,
                p.consumed() <= goal,
                goal == 2 * header.file_length.0,
                header.file_length.0 >= 0,
                header_at(s, c0, header),
                header_parses_at(s, c0),
                records_chain(s, c0 + 100, p.consumed(), records@),
                records_ok_between(s, c0 + 100, p.consumed()),
                records_parse_to(s, p.consumed(), goal as int) <==> records_parse_to(
                    s,
                    c0 + 100,
                    goal as int,
                ),
            decreases goal - p.consumed(),
        {
            let ghost c_rec = p.consumed();
            let ghost recs_before = records@;
            let rr = p.parse_record();
            let rec = match rr {
                Ok(rec) => rec,
                Err(e) => {
                    proof {
                        assert(!record_parses_at(s, c_rec));
                        assert(!records_parse_to(s, c_rec, goal as int));
                        assert forall|c: int|
                            #![trigger record_parses_at(s, c)]
                            #![trigger record_shape_code(s, c)]
                            records_ok_between(s, c0 + 100, c) && c != c_rec && c <= goal
                                implies (c < c_rec && record_parses_at(s, c) && c + 8
                                + record_content_size(s, c) <= c_rec) by {
                            if c < c_rec {
                                lemma_records_ok_between_mid(s, c0 + 100, c, c_rec);
                            } else {
                                lemma_records_ok_between_mid(s, c0 + 100, c_rec, c);
                            }
                        }
                    }
                    return Err(e);
                },
            };
            records.push(rec);
            proof {
                lemma_records_chain_push(s, c0 + 100, c_rec, recs_before, rec);
                lemma_records_ok_between_extend(s, c0 + 100, c_rec);
                assert(records@ =~= recs_before.push(rec));
                assert(record_parses_at(s, c_rec));
                assert(records_parse_to(s, c_rec, goal as int) == records_parse_to(
                    s,
                    p.consumed(),
                    goal as int,
                ));
            }
            let actual = p.num_bytes_read();
            if actual > goal {
                proof {
                    assert forall|c: int|
                        #![trigger record_parses_at(s, c)]
                        #![trigger record_shape_code(s, c)]
                        records_ok_between(s, c0 + 100, c) && c != c_rec && c <= goal
                            implies (c < c_rec && record_parses_at(s, c) && c + 8
                            + record_content_size(s, c) <= c_rec) by {
                        if c < c_rec {
                            lemma_records_ok_between_mid(s, c0 + 100, c, c_rec);
                        } else {
                            lemma_records_ok_between_mid(s, c0 + 100, c_rec, c);
                        }
                    }
                }
                return Err(
                    Error::FrameLengthMismatch {
                        expected_bytes: goal as i64,
                        actual_bytes: actual,
                    },
                );
            }
        }
        proof {
            let ghost stop = p.consumed();
            assert forall|c: int|
                #![trigger record_parses_at(s, c)]
                #![trigger record_shape_code(s, c)]
                records_ok_between(s, c0 + 100, c) && c < stop implies (record_parses_at(s, c)
                    && c + 8 + record_content_size(s, c) <= stop) by {
                lemma_records_ok_between_mid(s, c0 + 100, c, stop);
            }
        }
        Ok(ShpFile { header, records })
    }

    /// Decode a whole shape file held in an owned byte buffer. A failed
    /// decode returns the first failure: the header decoder's own error,
    /// or the failing record's, or a file-level `FrameLengthMismatch`
    /// where the records do not land exactly on the declared length.
    pub fn parse_buffer(data: Vec<u8>) -> (r: Result<ShpFile, Error>)
        ensures
            r is Ok <==> shp_file_parses(data@),
            r matches Ok(f) ==> {
                &&& header_at(data@, 0, f.header)
                &&& records_chain(data@, 100, 2 * f.header.file_length.0, f.records@)
            },
            data@.len() < 4 ==> (r matches Err(e) && e is TruncatedInput),
            4 <= data@.len() && signed32(be32_at(data@, 0)) != 0x270a ==> r == Err::<
                ShpFile,
                Error,
            >(Error::BadMagic { found: signed32(be32_at(data@, 0)) as i32 }),
            signed32(be32_at(data@, 0)) == 0x270a && data@.len() < 36 ==> (r matches Err(e)
                && e is TruncatedInput),
            ({
                &&& signed32(be32_at(data@, 0)) == 0x270a
                &&& 36 <= data@.len()
                &&& spec_shape_type_of_code(signed32(le32_at(data@, 32))) is None
            }) ==> r == Err::<ShpFile, Error>(
                Error::UnknownShapeType { code: signed32(le32_at(data@, 32)) as i32 },
            ),
            ({
                &&& signed32(be32_at(data@, 0)) == 0x270a
                &&& 36 <= data@.len()
                &&& spec_shape_type_of_code(signed32(le32_at(data@, 32))) is Some
                &&& data@.len() < 100
            }) ==> (r matches Err(e) && e is TruncatedInput),
            header_parses_at(data@, 0) && signed32(be32_at(data@, 24)) < 0 ==> r == Err::<
                ShpFile,
                Error,
            >(
                Error::FrameLengthMismatch {
                    expected_bytes: (2 * signed32(be32_at(data@, 24))) as i64,
                    actual_bytes: 100,
                },
            ),
            ({
                &&& header_parses_at(data@, 0)
                &&& signed32(be32_at(data@, 24)) >= 0
                &&& 2 * signed32(be32_at(data@, 24)) < 100
            }) ==> r == Err::<ShpFile, Error>(
                Error::FrameLengthMismatch {
                    expected_bytes: (2 * signed32(be32_at(data@, 24))) as i64,
                    actual_bytes: 100,
                },
            ),
            forall|c: int|
                #![trigger record_parses_at(data@, c)]
                ({
                    let goal = 2 * signed32(be32_at(data@, 24));
                    &&& header_parses_at(data@, 0)
                    &&& signed32(be32_at(data@, 24)) >= 0
                    &&& 100 <= goal
                    &&& records_ok_between(data@, 100, c)
                    &&& c < goal
                    &&& record_parses_at(data@, c)
                    &&& c + 8 + record_content_size(data@, c) > goal
                }) ==> r == Err::<ShpFile, Error>(
                    Error::FrameLengthMismatch {
                        expected_bytes: (2 * signed32(be32_at(data@, 24))) as i64,
                        actual_bytes: (c + 8 + record_content_size(data@, c)) as usize,
                    },
                ),
            forall|c: int|
                #![trigger record_shape_code(data@, c)]
                ({
                    let goal = 2 * signed32(be32_at(data@, 24));
                    &&& header_parses_at(data@, 0)
                    &&& signed32(be32_at(data@, 24)) >= 0
                    &&& 100 <= goal
                    &&& records_ok_between(data@, 100, c)
                    &&& c < goal
                    &&& c + 12 <= data@.len()
                    &&& spec_shape_type_of_code(record_shape_code(data@, c)) is None
                }) ==> r == Err::<ShpFile, Error>(
                    Error::UnknownShapeType { code: record_shape_code(data@, c) as i32 },
                ),
            forall|c: int|
                #![trigger record_shape_code(data@, c)]
                ({
                    let goal = 2 * signed32(be32_at(data@, 24));
                    &&& header_parses_at(data@, 0)
                    &&& signed32(be32_at(data@, 24)) >= 0
                    &&& 100 <= goal
                    &&& records_ok_between(data@, 100, c)
                    &&& c < goal
                    &&& c + 12 <= data@.len()
                    &&& spec_shape_type_of_code(record_shape_code(data@, c)) matches Some(t)
                        && !spec_shape_type_supported(t)
                }) ==> r == Err::<ShpFile, Error>(
                    Error::UnsupportedShapeType { code: record_shape_code(data@, c) as i32 },
                ),
            forall|c: int|
                #![trigger record_shape_code(data@, c)]
                ({
                    let goal = 2 * signed32(be32_at(data@, 24));
                    &&& header_parses_at(data@, 0)
                    &&& signed32(be32_at(data@, 24)) >= 0
                    &&& 100 <= goal
                    &&& records_ok_between(data@, 100, c)
                    &&& c < goal
                    &&& c + 12 <= data@.len()
                    &&& spec_shape_type_of_code(record_shape_code(data@, c)) matches Some(t)
                        && spec_shape_type_supported(t)
                    &&& (record_shape_code(data@, c) == 3 || record_shape_code(data@, c) == 5
                        ==> c + 52 <= data@.len())
                    &&& c + 8 + record_content_size(data@, c) <= data@.len()
                    &&& 2 * record_content_words(data@, c) != record_content_size(data@, c)
                }) ==> r == Err::<ShpFile, Error>(
                    Error::FrameLengthMismatch {
                        expected_bytes: (2 * record_content_words(data@, c)) as i64,
                        actual_bytes: record_content_size(data@, c) as usize,
                    },
                ),
    {
        Parser::with_reader(data).impl_parse()
    }
}

} // verus!
