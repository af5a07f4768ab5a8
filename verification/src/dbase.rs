//! The dBASE attribute-file data model and its decoders.

use vstd::prelude::*;
use vstd::utf8::{decode_utf8, valid_utf8};

use crate::error::Error;
use crate::parse::Parser;
use crate::text::{
    drop_trailing_ws_chars, fold_key_chars, keys_match, name_from_bytes, nul_prefix_len,
    str_fold_key, utf8_trimmed_end,
};

verus! {

/// A whole decoded attribute file.
#[derive(Debug)]
pub struct DbaseFile {
    pub header: DbaseHeader,
    pub records: Vec<DbaseRecord>,
}

impl DbaseFile {
    /// What this decoder guarantees of every file it produces: a
    /// well-formed header, and entries index-aligned with its fields.
    pub open spec fn wf(&self) -> bool {
        &&& self.header.wf()
        &&& forall|i: int|
            0 <= i < self.records@.len() ==> (#[trigger] self.records@[i]).entries@.len()
                == self.header.fields@.len()
    }
}

/// One attribute row: entries index-aligned with the header's fields.
#[derive(Debug, Clone)]
pub struct DbaseRecord {
    pub entries: Vec<String>,
}

/// The attribute-file type of one column.
#[derive(Debug, Clone, Copy, PartialEq, Eq, Structural)]
pub enum FieldType {
    Character,
    Date,
    FloatingPoint,
    Logical,
    Memo,
    Numeric,
}

/// The wire code (an ASCII letter) of each field type.
pub open spec fn spec_field_type_code(t: FieldType) -> int {
    match t {
        FieldType::Character => 0x43,
        FieldType::Date => 0x44,
        FieldType::FloatingPoint => 0x46,
        FieldType::Logical => 0x4c,
        FieldType::Memo => 0x4d,
        FieldType::Numeric => 0x4e,
    }
}

/// The total mapping from wire code to field type: `Some` exactly on
/// the six recognized codes.
pub open spec fn spec_field_type_of_code(code: int) -> Option<FieldType> {
    if code == 0x43 {
        Some(FieldType::Character)
    } else if code == 0x44 {
        Some(FieldType::Date)
    } else if code == 0x46 {
        Some(FieldType::FloatingPoint)
    } else if code == 0x4c {
        Some(FieldType::Logical)
    } else if code == 0x4d {
        Some(FieldType::Memo)
    } else if code == 0x4e {
        Some(FieldType::Numeric)
    } else {
        None
    }
}

/// Whether this decoder can decode entries of the given type; the other
/// recognized types are carried in headers but their entries cannot be
/// decoded.
pub open spec fn spec_field_type_decodable(t: FieldType) -> bool {
    t == FieldType::Character || t == FieldType::Numeric
}

impl FieldType {
    /// Map a wire code to its field type; codes outside the recognized
    /// set fail, never fall through to a default.
    pub fn from_code(code: u8) -> (r: Result<FieldType, Error>)
        ensures
            r matches Ok(t) ==> spec_field_type_of_code(code as int) == Some(t),
            r is Err <==> spec_field_type_of_code(code as int) is None,
            r is Err ==> r == Err::<FieldType, Error>(Error::UnknownFieldType { code }),
    {
        match code {
            0x43 => Ok(FieldType::Character),
            0x44 => Ok(FieldType::Date),
            0x46 => Ok(FieldType::FloatingPoint),
            0x4c => Ok(FieldType::Logical),
            0x4d => Ok(FieldType::Memo),
            0x4e => Ok(FieldType::Numeric),
            _ => Err(Error::UnknownFieldType { code }),
        }
    }

    /// The wire code of this field type.
    pub fn code(&self) -> (r: u8)
        ensures
            r == spec_field_type_code(*self),
    {
        match self {
            FieldType::Character => 0x43,
            FieldType::Date => 0x44,
            FieldType::FloatingPoint => 0x46,
            FieldType::Logical => 0x4c,
            FieldType::Memo => 0x4d,
            FieldType::Numeric => 0x4e,
        }
    }
}

/// One attribute column: its name, type and fixed width in bytes.
#[derive(Debug, Clone)]
pub struct FieldDescriptor {
    pub name: String,
    pub type_: FieldType,
    /// Number of bytes of this field in every record.
    pub field_length: usize,
}

impl FieldDescriptor {
    /// The width came from a single byte.
    pub open spec fn wf(&self) -> bool {
        self.field_length <= 0xff
    }
}

/// The dBASE header: flags, last-update date, record count, the byte
/// lengths of the header and of one record, and the column descriptors.
#[derive(Debug)]
pub struct DbaseHeader {
    pub flags: u8,
    /// Last update: years since 1900.
    pub yy: u8,
    /// Last update: month.
    pub mm: u8,
    /// Last update: day.
    pub dd: u8,
    /// How many records in total; stored as a 32-bit value.
    pub num_records: usize,
    /// How many bytes the whole header takes; stored as a 16-bit value.
    pub header_bytes: usize,
    /// How many bytes one record takes; stored as a 16-bit value.
    pub record_bytes: usize,
    pub fields: Vec<FieldDescriptor>,
}

impl DbaseHeader {
    /// The bounds the wire format imposes on a decoded header.
    pub open spec fn wf(&self) -> bool {
        &&& self.num_records <= 0xffffffff
        &&& self.header_bytes <= 0xffff
        &&& self.record_bytes <= 0xffff
        &&& self.fields@.len() <= 0x7ff
        &&& forall|i: int| 0 <= i < self.fields@.len() ==> (#[trigger] self.fields@[i]).wf()
    }

    /// Total bytes of header and records together.
    pub fn dbase_num_bytes_header_and_records(&self) -> (r: usize)
        requires
            self.wf(),
            self.header_bytes + self.num_records * self.record_bytes <= usize::MAX,
        ensures
            r == self.header_bytes + self.num_records * self.record_bytes,
    {
        self.header_bytes + self.num_records * self.record_bytes
    }

    /// Total bytes of a whole attribute file: header, records, and the
    /// final end-of-file marker byte.
    pub fn dbase_num_bytes_total(&self) -> (r: usize)
        requires
            self.wf(),
            self.header_bytes + self.num_records * self.record_bytes + 1 <= usize::MAX,
        ensures
            r == self.header_bytes + self.num_records * self.record_bytes + 1,
    {
        self.dbase_num_bytes_header_and_records() + 1
    }

    /// Look a field up by name, case-insensitively and ignoring
    /// surrounding whitespace; the first match wins. Names are not
    /// guaranteed unique.
    pub fn index_of(&self, field_name: &str) -> (r: Option<usize>)
        ensures
            r matches Some(i) ==> {
                &&& i < self.fields@.len()
                &&& keys_match(self.fields@[i as int].name@, field_name@)
                &&& forall|j: int|
                    0 <= j < i ==> !keys_match((#[trigger] self.fields@[j]).name@, field_name@)
            },
            r is None ==> forall|j: int|
                0 <= j < self.fields@.len() ==> !keys_match(
                    (#[trigger] self.fields@[j]).name@,
                    field_name@,
                ),
    {
        let key = str_fold_key(field_name);
        let n = self.fields.len();
        for i in 0..n
            invariant
                n == self.fields@.len(),
                key@ == fold_key_chars(field_name@),
                forall|j: int|
                    0 <= j < i ==> !keys_match((#[trigger] self.fields@[j]).name@, field_name@),
            {
            let fk = str_fold_key(self.fields[i].name.as_str());
            if fk == key {
                return Some(i);
            }
        }
        None
    }
}


/// The 11 name bytes of the descriptor at `b` decode: a NUL terminator
/// exists and the text before it is valid UTF-8.
pub open spec fn desc_name_ok(s: Seq<u8>, b: int) -> bool {
    let nb = s.subrange(b, b + 11);
    nul_prefix_len(nb) < 11 && valid_utf8(nb.take(nul_prefix_len(nb)))
}

/// The type byte of the descriptor at `b` is a recognized code.
pub open spec fn desc_type_ok(s: Seq<u8>, b: int) -> bool {
    spec_field_type_of_code(s[b + 11] as int) is Some
}

/// The decoded descriptor matches the 32 bytes at `b`: 11 name bytes,
/// the type byte, 4 reserved bytes, the length byte, 15 reserved bytes.
pub open spec fn desc_at(s: Seq<u8>, b: int, f: FieldDescriptor) -> bool {
    let nb = s.subrange(b, b + 11);
    &&& f.name@ == decode_utf8(nb.take(nul_prefix_len(nb)))
    &&& Some(f.type_) == spec_field_type_of_code(s[b + 11] as int)
    &&& f.field_length == s[b + 16]
}

/// The descriptor at `b` decodes without error.
pub open spec fn desc_parses(s: Seq<u8>, b: int) -> bool {
    &&& b + 11 <= s.len() && desc_name_ok(s, b)
    &&& b + 12 <= s.len() && desc_type_ok(s, b)
    &&& b + 32 <= s.len()
}

impl Parser {
    /// Read one field-type byte and map it through the exhaustive
    /// dispatch table; unmapped codes fail with `UnknownFieldType`.
    pub fn parse_dbase_field_type(&mut self) -> (r: Result<FieldType, Error>)
        requires
            old(self).wf(),
        ensures
            final(self).source() == old(self).source(),
            final(self).wf(),
            r is Ok <==> 1 <= old(self).remaining() && spec_field_type_of_code(
                old(self).source()[old(self).consumed()] as int,
            ) is Some,
            r matches Ok(t) ==> {
                &&& final(self).consumed() == old(self).consumed() + 1
                &&& Some(t) == spec_field_type_of_code(
                    old(self).source()[old(self).consumed()] as int,
                )
            },
            old(self).remaining() < 1 ==> (r matches Err(e) && e is TruncatedInput)
                && *final(self) == *old(self),
            1 <= old(self).remaining() ==> final(self).consumed() == old(self).consumed() + 1,
            1 <= old(self).remaining() && spec_field_type_of_code(
                old(self).source()[old(self).consumed()] as int,
            ) is None ==> r == Err::<FieldType, Error>(
                Error::UnknownFieldType { code: old(self).source()[old(self).consumed()] },
            ),
    {
        let code = self.parse_u8()?;
        FieldType::from_code(code)
    }

    /// Decode one 32-byte field descriptor: an 11-byte NUL-terminated
    /// name, a type-code byte, 4 reserved bytes, the field length, then
    /// 15 reserved bytes.
    pub fn parse_dbase_field_descriptor(&mut self) -> (r: Result<FieldDescriptor, Error>)
        requires
            old(self).wf(),
        ensures
            final(self).source() == old(self).source(),
            final(self).wf(),
            r is Ok <==> desc_parses(old(self).source(), old(self).consumed()),
            r matches Ok(f) ==> {
                &&& final(self).consumed() == old(self).consumed() + 32
                &&& desc_at(old(self).source(), old(self).consumed(), f)
                &&& f.wf()
            },
            ({
                let s = old(self).source();
                let c = old(self).consumed();
                c + 11 <= s.len() && !desc_name_ok(s, c)
            }) ==> r == Err::<FieldDescriptor, Error>(
                Error::InvalidFieldName { at: old(self).consumed() as usize },
            ),
            ({
                let s = old(self).source();
                let c = old(self).consumed();
                c + 11 <= s.len() && desc_name_ok(s, c) && c + 12 <= s.len() && !desc_type_ok(s, c)
            }) ==> r == Err::<FieldDescriptor, Error>(
                Error::UnknownFieldType { code: old(self).source()[old(self).consumed() + 11] },
            ),
            r is Err && !({
                let s = old(self).source();
                let c = old(self).consumed();
                (c + 11 <= s.len() && !desc_name_ok(s, c)) || (c + 11 <= s.len() && desc_name_ok(
                    s,
                    c,
                ) && c + 12 <= s.len() && !desc_type_ok(s, c))
            }) ==> (r matches Err(e) && e is TruncatedInput),
    {
        let at = self.num_bytes_read();
        let name_bytes = self.read_exact(11)?;
        let name = match name_from_bytes(&name_bytes) {
            Some(nm) => nm,
            None => {
                return Err(Error::InvalidFieldName { at });
            },
        };
        let type_ = self.parse_dbase_field_type()?;
        self.skip(4)?;
        let field_length = self.parse_u8()? as usize;
        self.skip(15)?;
        Ok(FieldDescriptor { name, type_, field_length })
    }
}

/// The declared header length of the attribute file.
pub open spec fn dbase_header_bytes(s: Seq<u8>) -> int {
    crate::codec::le16_at(s, 8)
}

/// How many field descriptors the declared header length leaves room
/// for.
pub open spec fn dbase_num_fields(s: Seq<u8>) -> int {
    (dbase_header_bytes(s) - 33) / 32
}

/// Where the descriptor with index `k` starts: after the fixed 32-byte
/// prefix, 32 bytes each.
pub open spec fn desc_pos(k: int) -> int {
    32 + 32 * k
}

/// The attribute-file header decodes without error: the fixed 32-byte
/// prefix is present, the declared length holds the prefix, a whole
/// number of descriptors and the terminator, every descriptor decodes,
/// and the terminator byte is present and correct.
pub open spec fn dbase_header_parses(s: Seq<u8>) -> bool {
    let hb = dbase_header_bytes(s);
    &&& 32 <= s.len()
    &&& hb >= 33
    &&& (hb - 33) % 32 == 0
    &&& (forall|k: int| 0 <= k < dbase_num_fields(s) ==> desc_parses(s, desc_pos(k)))
    &&& hb <= s.len()
    &&& s[hb - 1] == 0x0d
}

/// The decoded header matches the bytes of the file's start.
pub open spec fn dbase_header_at(s: Seq<u8>, h: DbaseHeader) -> bool {
    &&& h.flags == s[0]
    &&& h.yy == s[1]
    &&& h.mm == s[2]
    &&& h.dd == s[3]
    &&& h.num_records == crate::codec::le32_at(s, 4)
    &&& h.header_bytes == dbase_header_bytes(s)
    &&& h.record_bytes == crate::codec::le16_at(s, 10)
    &&& h.fields@.len() == dbase_num_fields(s)
    &&& h.header_bytes == 33 + 32 * h.fields@.len()
    &&& forall|k: int| 0 <= k < h.fields@.len() ==> desc_at(s, desc_pos(k), #[trigger] h.fields@[k])
}

impl Parser {
    /// Decode the attribute-file header and its field-descriptor array,
    /// then check the terminator byte.
    #[verifier::rlimit(50)]
    pub fn parse_dbase_header(&mut self) -> (r: Result<DbaseHeader, Error>)
        requires
            old(self).wf(),
            old(self).consumed() == 0,
        ensures
            final(self).source() == old(self).source(),
            final(self).wf(),
            r is Ok <==> dbase_header_parses(old(self).source()),
            r matches Ok(h) ==> {
                &&& final(self).consumed() == h.header_bytes
                &&& dbase_header_at(old(self).source(), h)
                &&& h.wf()
                &&& old(self).source()[h.header_bytes - 1] == 0x0d
            },
            ({
                let s = old(self).source();
                32 <= s.len() && dbase_header_bytes(s) < 33
            }) ==> r == Err::<DbaseHeader, Error>(
                Error::HeaderTooShort {
                    header_bytes: dbase_header_bytes(old(self).source()) as usize,
                },
            ),
            ({
                let s = old(self).source();
                32 <= s.len() && dbase_header_bytes(s) >= 33 && (dbase_header_bytes(s) - 33) % 32
                    != 0
            }) ==> r == Err::<DbaseHeader, Error>(
                Error::MisalignedFieldTable {
                    field_table_bytes: (dbase_header_bytes(old(self).source()) - 33) as usize,
                },
            ),
            forall|k: int|
                ({
                    let s = old(self).source();
                    &&& 32 <= s.len()
                    &&& dbase_header_bytes(s) >= 33
                    &&& (dbase_header_bytes(s) - 33) % 32 == 0
                    &&& 0 <= k < dbase_num_fields(s)
                    &&& (forall|j: int| 0 <= j < k ==> desc_parses(s, desc_pos(j)))
                    &&& desc_pos(k) + 11 <= s.len()
                    &&& !desc_name_ok(s, desc_pos(k))
                }) ==> r == Err::<DbaseHeader, Error>(
                    Error::InvalidFieldName { at: desc_pos(k) as usize },
                ),
            forall|k: int|
                ({
                    let s = old(self).source();
                    &&& 32 <= s.len()
                    &&& dbase_header_bytes(s) >= 33
                    &&& (dbase_header_bytes(s) - 33) % 32 == 0
                    &&& 0 <= k < dbase_num_fields(s)
                    &&& (forall|j: int| 0 <= j < k ==> desc_parses(s, desc_pos(j)))
                    &&& desc_pos(k) + 11 <= s.len()
                    &&& desc_name_ok(s, desc_pos(k))
                    &&& desc_pos(k) + 12 <= s.len()
                    &&& !desc_type_ok(s, desc_pos(k))
                }) ==> r == Err::<DbaseHeader, Error>(
                    Error::UnknownFieldType {
                        code: old(self).source()[desc_pos(k) + 11],
                    },
                ),
            ({
                let s = old(self).source();
                &&& 32 <= s.len()
                &&& dbase_header_bytes(s) >= 33
                &&& (dbase_header_bytes(s) - 33) % 32 == 0
                &&& (forall|k: int| 0 <= k < dbase_num_fields(s) ==> desc_parses(s, desc_pos(k)))
                &&& dbase_header_bytes(s) <= s.len()
                &&& s[dbase_header_bytes(s) - 1] != 0x0d
            }) ==> r == Err::<DbaseHeader, Error>(
                Error::MissingTerminator {
                    byte: old(self).source()[dbase_header_bytes(old(self).source()) - 1],
                },
            ),
            r is Err && !({
                let s = old(self).source();
                ||| (32 <= s.len() && dbase_header_bytes(s) < 33)
                ||| (32 <= s.len() && dbase_header_bytes(s) >= 33 && (dbase_header_bytes(s) - 33)
                    % 32 != 0)
                ||| (exists|k: int|
                    {
                        &&& 32 <= s.len()
                        &&& dbase_header_bytes(s) >= 33
                        &&& (dbase_header_bytes(s) - 33) % 32 == 0
                        &&& 0 <= k < dbase_num_fields(s)
                        &&& (forall|j: int| 0 <= j < k ==> desc_parses(s, desc_pos(j)))
                        &&& desc_pos(k) + 11 <= s.len()
                        &&& !desc_name_ok(s, #[trigger] desc_pos(k))
                    })
                ||| (exists|k: int|
                    {
                        &&& 32 <= s.len()
                        &&& dbase_header_bytes(s) >= 33
                        &&& (dbase_header_bytes(s) - 33) % 32 == 0
                        &&& 0 <= k < dbase_num_fields(s)
                        &&& (forall|j: int| 0 <= j < k ==> desc_parses(s, desc_pos(j)))
                        &&& desc_pos(k) + 11 <= s.len()
                        &&& desc_name_ok(s, #[trigger] desc_pos(k))
                        &&& desc_pos(k) + 12 <= s.len()
                        &&& !desc_type_ok(s, desc_pos(k))
                    })
                ||| ({
                    &&& 32 <= s.len()
                    &&& dbase_header_bytes(s) >= 33
                    &&& (dbase_header_bytes(s) - 33) % 32 == 0
                    &&& (forall|k: int|
                        0 <= k < dbase_num_fields(s) ==> desc_parses(s, desc_pos(k)))
                    &&& dbase_header_bytes(s) <= s.len()
                    &&& s[dbase_header_bytes(s) - 1] != 0x0d
                })
            }) ==> (r matches Err(e) && e is TruncatedInput),
    {
        let ghost s = self.source();
        let flags = self.parse_u8()?;
        let yy = self.parse_u8()?;
        let mm = self.parse_u8()?;
        let dd = self.parse_u8()?;
        let num_records = self.parse_u32_le()? as usize;
        let header_bytes = self.parse_u16_le()? as usize;
        let record_bytes = self.parse_u16_le()? as usize;
        self.skip(20)?;
        if header_bytes < 33 {
            return Err(Error::HeaderTooShort { header_bytes });
        }
        let field_descr_bytes = header_bytes - 33;
        if field_descr_bytes % 32 != 0 {
            return Err(Error::MisalignedFieldTable { field_table_bytes: field_descr_bytes });
        }
        let num_fields = field_descr_bytes / 32;
        let mut fields: Vec<FieldDescriptor> = Vec::new();
        for k in 0..num_fields
            invariant
                s == old(self).source(),
                old(self).consumed() == 0,
                self.wf(),
                self.source() == s,
                self.consumed() == 32 + 32 * k,
                32 <= s.len(),
                header_bytes == dbase_header_bytes(s),
                33 <= header_bytes <= 0xffff,
                num_fields == dbase_num_fields(s),
                num_fields <= 0x7ff,
                header_bytes == 33 + 32 * num_fields,
                fields@.len() == k,
                forall|j: int| 0 <= j < k ==> desc_parses(s, desc_pos(j)),
                forall|j: int| 0 <= j < k ==> desc_at(s, desc_pos(j), #[trigger] fields@[j]),
                forall|j: int| 0 <= j < k ==> (#[trigger] fields@[j]).wf(),
            {
            let ghost c_k = self.consumed();
            let fr = self.parse_dbase_field_descriptor();
            let f = match fr {
                Ok(f) => f,
                Err(e) => {
                    proof {
                        assert(c_k == desc_pos(k as int));
                        assert(!desc_parses(s, desc_pos(k as int)));
                        assert(!dbase_header_parses(s));
                    }
                    return Err(e);
                },
            };
            fields.push(f);
        }
        let terminator = self.parse_u8()?;
        if terminator != 0x0d {
            return Err(Error::MissingTerminator { byte: terminator });
        }
        Ok(
            DbaseHeader {
                flags,
                yy,
                mm,
                dd,
                num_records,
                header_bytes,
                record_bytes,
                fields,
            },
        )
    }
}


/// The field widths of a descriptor list.
pub open spec fn lens_of(fields: Seq<FieldDescriptor>) -> Seq<int> {
    fields.map_values(|f: FieldDescriptor| f.field_length as int)
}

/// The field types of a descriptor list.
pub open spec fn types_of(fields: Seq<FieldDescriptor>) -> Seq<FieldType> {
    fields.map_values(|f: FieldDescriptor| f.type_)
}

/// The sum of the first `k` field widths.
pub open spec fn prefix_sum(lens: Seq<int>, k: int) -> int
    decreases k,
{
    if k <= 0 {
        0
    } else {
        prefix_sum(lens, k - 1) + lens[k - 1]
    }
}

/// The bytes one whole record occupies: the flag byte plus every field.
pub open spec fn record_total(lens: Seq<int>) -> int {
    1 + prefix_sum(lens, lens.len() as int)
}

/// Where entry `k` of the record at `c` starts: after the flag byte and
/// the earlier fields.
pub open spec fn entry_off(lens: Seq<int>, c: int, k: int) -> int {
    c + 1 + prefix_sum(lens, k)
}

/// The raw bytes of entry `k` of the record at `c`.
pub open spec fn entry_bytes(s: Seq<u8>, lens: Seq<int>, c: int, k: int) -> Seq<u8> {
    s.subrange(entry_off(lens, c, k), entry_off(lens, c, k) + lens[k])
}

/// Entry `k` of the record at `c` decodes: its bytes are present, its
/// type is one this decoder decodes, and its text is valid UTF-8.
pub open spec fn rec_field_ok(
    s: Seq<u8>,
    lens: Seq<int>,
    types: Seq<FieldType>,
    c: int,
    k: int,
) -> bool {
    &&& entry_off(lens, c, k) + lens[k] <= s.len()
    &&& spec_field_type_decodable(types[k])
    &&& valid_utf8(entry_bytes(s, lens, c, k))
}

/// The record at `c` decodes without error: the flag byte is the active
/// marker and every entry decodes.
pub open spec fn dbase_record_parses_at(
    s: Seq<u8>,
    lens: Seq<int>,
    types: Seq<FieldType>,
    c: int,
) -> bool {
    &&& c + 1 <= s.len()
    &&& s[c] == 0x20
    &&& forall|k: int| 0 <= k < lens.len() ==> #[trigger] rec_field_ok(s, lens, types, c, k)
}

/// The decoded record matches the bytes at `c`: one entry per field, in
/// order, each the trailing-trimmed text of its fixed-width bytes.
pub open spec fn dbase_record_matches(s: Seq<u8>, lens: Seq<int>, c: int, rec: DbaseRecord) -> bool {
    &&& rec.entries@.len() == lens.len()
    &&& forall|k: int|
        0 <= k < lens.len() ==> (#[trigger] rec.entries@[k])@ == drop_trailing_ws_chars(
            decode_utf8(entry_bytes(s, lens, c, k)),
        )
}

impl Parser {
    /// Decode one fixed-width record against the header's field layout:
    /// the leading flag byte must be the active marker, and each field's
    /// bytes become trimmed text. Types other than character and numeric
    /// are recognized but cannot be decoded.
    #[verifier::rlimit(50)]
    pub fn parse_dbase_record(&mut self, header: &DbaseHeader) -> (r: Result<DbaseRecord, Error>)
        requires
            old(self).wf(),
            header.wf(),
        ensures
            final(self).source() == old(self).source(),
            final(self).wf(),
            r is Ok <==> dbase_record_parses_at(
                old(self).source(),
                lens_of(header.fields@),
                types_of(header.fields@),
                old(self).consumed(),
            ),
            r matches Ok(rec) ==> {
                &&& final(self).consumed() == old(self).consumed() + record_total(
                    lens_of(header.fields@),
                )
                &&& dbase_record_matches(
                    old(self).source(),
                    lens_of(header.fields@),
                    old(self).consumed(),
                    rec,
                )
            },
            ({
                let s = old(self).source();
                let c = old(self).consumed();
                c + 1 <= s.len() && s[c] != 0x20
            }) ==> r == Err::<DbaseRecord, Error>(
                Error::UnexpectedRecordFlag {
                    flag: old(self).source()[old(self).consumed()],
                    at: old(self).consumed() as usize,
                },
            ),
            forall|k: int|
                ({
                    let s = old(self).source();
                    let c = old(self).consumed();
                    let lens = lens_of(header.fields@);
                    let types = types_of(header.fields@);
                    &&& c + 1 <= s.len()
                    &&& s[c] == 0x20
                    &&& 0 <= k < lens.len()
                    &&& (forall|j: int| 0 <= j < k ==> #[trigger] rec_field_ok(s, lens, types, c, j))
                    &&& entry_off(lens, c, k) + lens[k] <= s.len()
                    &&& !spec_field_type_decodable(types[k])
                    &&& !rec_field_ok(s, lens, types, c, k)
                }) ==> r == Err::<DbaseRecord, Error>(
                    Error::UnsupportedFieldType {
                        code: spec_field_type_code(types_of(header.fields@)[k]) as u8,
                    },
                ),
            forall|k: int|
                ({
                    let s = old(self).source();
                    let c = old(self).consumed();
                    let lens = lens_of(header.fields@);
                    let types = types_of(header.fields@);
                    &&& c + 1 <= s.len()
                    &&& s[c] == 0x20
                    &&& 0 <= k < lens.len()
                    &&& (forall|j: int| 0 <= j < k ==> #[trigger] rec_field_ok(s, lens, types, c, j))
                    &&& entry_off(lens, c, k) + lens[k] <= s.len()
                    &&& spec_field_type_decodable(types[k])
                    &&& !valid_utf8(entry_bytes(s, lens, c, k))
                    &&& !rec_field_ok(s, lens, types, c, k)
                }) ==> r == Err::<DbaseRecord, Error>(
                    Error::InvalidText {
                        at: entry_off(lens_of(header.fields@), old(self).consumed(), k) as usize,
                    },
                ),
            r is Err && !({
                let s = old(self).source();
                let c = old(self).consumed();
                let lens = lens_of(header.fields@);
                let types = types_of(header.fields@);
                ||| (c + 1 <= s.len() && s[c] != 0x20)
                ||| (exists|k: int|
                    {
                        &&& c + 1 <= s.len()
                        &&& s[c] == 0x20
                        &&& 0 <= k < lens.len()
                        &&& (forall|j: int|
                            0 <= j < k ==> #[trigger] rec_field_ok(s, lens, types, c, j))
                        &&& entry_off(lens, c, k) + lens[k] <= s.len()
                        &&& !rec_field_ok(s, lens, types, c, #[trigger] (k + 0))
                    })
            }) ==> (r matches Err(e) && e is TruncatedInput),
    {
        let ghost s = self.source();
        let ghost c = self.consumed();
        let ghost lens = lens_of(header.fields@);
        let ghost types = types_of(header.fields@);
        let at = self.num_bytes_read();
        let flag = self.parse_u8()?;
        if flag != 0x20 {
            return Err(Error::UnexpectedRecordFlag { flag, at });
        }
        let n_fields = header.fields.len();
        let mut entries: Vec<String> = Vec::new();
        for k in 0..n_fields
            invariant
                s == old(self).source(),
                c == old(self).consumed(),
                lens == lens_of(header.fields@),
                types == types_of(header.fields@),
                header.wf(),
                self.wf(),
                self.source() == s,
                self.consumed() == c + 1 + prefix_sum(lens, k as int),
                n_fields == header.fields@.len(),
                c + 1 <= s.len(),
                s[c] == 0x20,
                entries@.len() == k,
                forall|j: int| 0 <= j < k ==> #[trigger] rec_field_ok(s, lens, types, c, j),
                forall|j: int|
                    0 <= j < k ==> (#[trigger] entries@[j])@ == drop_trailing_ws_chars(
                        decode_utf8(entry_bytes(s, lens, c, j)),
                    ),
            {
            let flen = header.fields[k].field_length;
            let off_field = self.num_bytes_read();
            let ghost off_k = self.consumed();
            proof {
                assert(lens[k as int] == flen);
                assert(off_k == entry_off(lens, c, k as int));
            }
            let br = self.read_exact(flen);
            let buf = match br {
                Ok(b) => b,
                Err(e) => {
                    proof {
                        assert(entry_off(lens, c, k as int) + lens[k as int] > s.len());
                        assert(!rec_field_ok(s, lens, types, c, k as int));
                    }
                    return Err(e);
                },
            };
            let ft = header.fields[k].type_;
            match ft {
                FieldType::Character => {},
                FieldType::Numeric => {},
                _ => {
                    proof {
                        assert(!rec_field_ok(s, lens, types, c, k as int));
                    }
                    return Err(Error::UnsupportedFieldType { code: ft.code() });
                },
            }
            let ghost buf_view = buf@;
            let entry = match utf8_trimmed_end(buf) {
                Some(t) => t,
                None => {
                    proof {
                        assert(buf_view == entry_bytes(s, lens, c, k as int));
                        assert(!rec_field_ok(s, lens, types, c, k as int));
                    }
                    return Err(Error::InvalidText { at: off_field });
                },
            };
            entries.push(entry);
            proof {
                assert(prefix_sum(lens, k + 1) == prefix_sum(lens, k as int) + lens[k as int]);
            }
        }
        Ok(DbaseRecord { entries })
    }
}


/// Prefix sums of non-negative widths are non-negative.
proof fn lemma_prefix_sum_nonneg(lens: Seq<int>, k: int)
    requires
        forall|j: int| 0 <= j < lens.len() ==> #[trigger] lens[j] >= 0,
        0 <= k <= lens.len(),
    ensures
        prefix_sum(lens, k) >= 0,
    decreases k,
{
    if k > 0 {
        lemma_prefix_sum_nonneg(lens, k - 1);
    }
}

/// The record list matches the bytes from `c` up to exactly `goal`,
/// each record one stride after the previous.
pub open spec fn dbase_records_chain(
    s: Seq<u8>,
    lens: Seq<int>,
    c: int,
    goal: int,
    records: Seq<DbaseRecord>,
) -> bool
    decreases records.len(),
{
    if records.len() == 0 {
        c == goal
    } else {
        &&& c < goal
        &&& dbase_record_matches(s, lens, c, records[0])
        &&& dbase_records_chain(s, lens, c + record_total(lens), goal, records.drop_first())
    }
}

/// Appending one more matching record extends a record chain by one
/// stride.
proof fn lemma_dbase_chain_push(
    s: Seq<u8>,
    lens: Seq<int>,
    c0: int,
    c1: int,
    records: Seq<DbaseRecord>,
    rec: DbaseRecord,
)
    requires
        dbase_records_chain(s, lens, c0, c1, records),
        dbase_record_matches(s, lens, c1, rec),
        record_total(lens) >= 1,
    ensures
        dbase_records_chain(s, lens, c0, c1 + record_total(lens), records.push(rec)),
    decreases records.len(),
{
    reveal_with_fuel(dbase_records_chain, 3);
    if records.len() == 0 {
        assert(records.push(rec).drop_first() =~= Seq::<DbaseRecord>::empty());
        assert(records.push(rec)[0] == rec);
    } else {
        lemma_dbase_chain_push(s, lens, c0 + record_total(lens), c1, records.drop_first(), rec);
        assert(records.push(rec).drop_first() =~= records.drop_first().push(rec));
        assert(records.push(rec)[0] == records[0]);
    }
}

/// Records decode without error from `c` until the consumed count lands
/// on `goal` exactly; a record striding past `goal` is a failure.
pub open spec fn dbase_records_parse_to(
    s: Seq<u8>,
    lens: Seq<int>,
    types: Seq<FieldType>,
    c: int,
    goal: int,
) -> bool
    decreases goal - c,
{
    if c >= goal {
        c == goal
    } else if !dbase_record_parses_at(s, lens, types, c) {
        false
    } else {
        let next = c + record_total(lens);
        if next <= c || next > goal {
            false
        } else {
            dbase_records_parse_to(s, lens, types, next, goal)
        }
    }
}

/// Records decode without error from `a` up to exactly `c`, one stride
/// each.
pub open spec fn dbase_records_ok_between(
    s: Seq<u8>,
    lens: Seq<int>,
    types: Seq<FieldType>,
    a: int,
    c: int,
) -> bool
    decreases c - a,
{
    if a >= c {
        a == c
    } else if !dbase_record_parses_at(s, lens, types, a) {
        false
    } else {
        let next = a + record_total(lens);
        if next <= a || next > c {
            false
        } else {
            dbase_records_ok_between(s, lens, types, next, c)
        }
    }
}

/// A run of good records extends by one more good record.
proof fn lemma_dbase_between_extend(
    s: Seq<u8>,
    lens: Seq<int>,
    types: Seq<FieldType>,
    a: int,
    c: int,
)
    requires
        dbase_records_ok_between(s, lens, types, a, c),
        dbase_record_parses_at(s, lens, types, c),
        record_total(lens) >= 1,
    ensures
        dbase_records_ok_between(s, lens, types, a, c + record_total(lens)),
    decreases c - a,
{
    reveal_with_fuel(dbase_records_ok_between, 3);
    if a < c {
        lemma_dbase_between_extend(s, lens, types, a + record_total(lens), c);
    }
}

/// A position reached within a run of good records starts a run of good
/// records to the far end.
proof fn lemma_dbase_between_mid(
    s: Seq<u8>,
    lens: Seq<int>,
    types: Seq<FieldType>,
    a: int,
    x: int,
    y: int,
)
    requires
        dbase_records_ok_between(s, lens, types, a, x),
        dbase_records_ok_between(s, lens, types, a, y),
        x <= y,
    ensures
        dbase_records_ok_between(s, lens, types, x, y),
    decreases x - a,
{
    if a < x {
        lemma_dbase_between_mid(s, lens, types, a + record_total(lens), x, y);
    }
}

/// The field widths the descriptor bytes declare.
pub open spec fn spec_field_lens(s: Seq<u8>) -> Seq<int> {
    Seq::new(dbase_num_fields(s) as nat, |k: int| s[desc_pos(k) + 16] as int)
}

/// The field types the descriptor bytes declare. The fallback arm is
/// never reached on a header that parses, where every code is
/// recognized.
pub open spec fn spec_field_types(s: Seq<u8>) -> Seq<FieldType> {
    Seq::new(
        dbase_num_fields(s) as nat,
        |k: int|
            match spec_field_type_of_code(s[desc_pos(k) + 11] as int) {
                Some(t) => t,
                None => FieldType::Character,
            },
    )
}

/// The declared total of header and record bytes.
pub open spec fn dbase_goal(s: Seq<u8>) -> int {
    dbase_header_bytes(s) + crate::codec::le32_at(s, 4) * crate::codec::le16_at(s, 10)
}

/// A whole attribute file decodes without error: its header parses and
/// its records land exactly on the declared total.
pub open spec fn dbase_file_parses(s: Seq<u8>) -> bool {
    &&& dbase_header_parses(s)
    &&& dbase_records_parse_to(
        s,
        spec_field_lens(s),
        spec_field_types(s),
        dbase_header_bytes(s),
        dbase_goal(s),
    )
}

impl Parser {
    /// Decode the header, then records until the consumed-byte count
    /// reaches the declared total of header and record bytes; exact
    /// equality at loop exit is a hard postcondition.
    #[verifier::rlimit(80)]
    pub fn impl_parse_dbase_file(self) -> (r: Result<DbaseFile, Error>)
        requires
            self.wf(),
            self.consumed() == 0,
        ensures
            r is Ok <==> dbase_file_parses(self.source()),
            r matches Ok(f) ==> {
                &&& dbase_header_at(self.source(), f.header)
                &&& f.header.wf()
                &&& dbase_records_chain(
                    self.source(),
                    lens_of(f.header.fields@),
                    f.header.header_bytes as int,
                    dbase_goal(self.source()),
                    f.records@,
                )
                &&& forall|i: int|
                    0 <= i < f.records@.len() ==> (#[trigger] f.records@[i]).entries@.len()
                        == f.header.fields@.len()
            },
            ({
                let s = self.source();
                32 <= s.len() && dbase_header_bytes(s) < 33
            }) ==> r == Err::<DbaseFile, Error>(
                Error::HeaderTooShort {
                    header_bytes: dbase_header_bytes(self.source()) as usize,
                },
            ),
            ({
                let s = self.source();
                32 <= s.len() && dbase_header_bytes(s) >= 33 && (dbase_header_bytes(s) - 33) % 32
                    != 0
            }) ==> r == Err::<DbaseFile, Error>(
                Error::MisalignedFieldTable {
                    field_table_bytes: (dbase_header_bytes(self.source()) - 33) as usize,
                },
            ),
            forall|k: int|
                ({
                    let s = self.source();
                    &&& 32 <= s.len()
                    &&& dbase_header_bytes(s) >= 33
                    &&& (dbase_header_bytes(s) - 33) % 32 == 0
                    &&& 0 <= k < dbase_num_fields(s)
                    &&& (forall|j: int| 0 <= j < k ==> desc_parses(s, desc_pos(j)))
                    &&& desc_pos(k) + 11 <= s.len()
                    &&& !desc_name_ok(s, desc_pos(k))
                }) ==> r == Err::<DbaseFile, Error>(
                    Error::InvalidFieldName { at: desc_pos(k) as usize },
                ),
            forall|k: int|
                ({
                    let s = self.source();
                    &&& 32 <= s.len()
                    &&& dbase_header_bytes(s) >= 33
                    &&& (dbase_header_bytes(s) - 33) % 32 == 0
                    &&& 0 <= k < dbase_num_fields(s)
                    &&& (forall|j: int| 0 <= j < k ==> desc_parses(s, desc_pos(j)))
                    &&& desc_pos(k) + 11 <= s.len()
                    &&& desc_name_ok(s, desc_pos(k))
                    &&& desc_pos(k) + 12 <= s.len()
                    &&& !desc_type_ok(s, desc_pos(k))
                }) ==> r == Err::<DbaseFile, Error>(
                    Error::UnknownFieldType {
                        code: self.source()[desc_pos(k) + 11],
                    },
                ),
            ({
                let s = self.source();
                &&& 32 <= s.len()
                &&& dbase_header_bytes(s) >= 33
                &&& (dbase_header_bytes(s) - 33) % 32 == 0
                &&& (forall|k: int| 0 <= k < dbase_num_fields(s) ==> desc_parses(s, desc_pos(k)))
                &&& dbase_header_bytes(s) <= s.len()
                &&& s[dbase_header_bytes(s) - 1] != 0x0d
            }) ==> r == Err::<DbaseFile, Error>(
                Error::MissingTerminator {
                    byte: self.source()[dbase_header_bytes(self.source()) - 1],
                },
            ),
            forall|c: int|
                #![trigger dbase_record_parses_at(self.source(), spec_field_lens(self.source()), spec_field_types(self.source()), c)]
                ({
                    let s = self.source();
                    let lens = spec_field_lens(s);
                    let types = spec_field_types(s);
                    &&& dbase_header_parses(s)
                    &&& dbase_records_ok_between(s, lens, types, dbase_header_bytes(s), c)
                    &&& c < dbase_goal(s)
                    &&& dbase_record_parses_at(s, lens, types, c)
                    &&& c + record_total(lens) > dbase_goal(s)
                }) ==> r == Err::<DbaseFile, Error>(
                    Error::FrameLengthMismatch {
                        expected_bytes: dbase_goal(self.source()) as i64,
                        actual_bytes: (c + record_total(spec_field_lens(self.source()))) as usize,
                    },
                ),
            forall|c: int|
                #![trigger dbase_records_ok_between(self.source(), spec_field_lens(self.source()), spec_field_types(self.source()), dbase_header_bytes(self.source()), c)]
                ({
                    let s = self.source();
                    let lens = spec_field_lens(s);
                    let types = spec_field_types(s);
                    &&& dbase_header_parses(s)
                    &&& dbase_records_ok_between(s, lens, types, dbase_header_bytes(s), c)
                    &&& c < dbase_goal(s)
                    &&& c + 1 <= s.len()
                    &&& s[c] != 0x20
                }) ==> r == Err::<DbaseFile, Error>(
                    Error::UnexpectedRecordFlag {
                        flag: self.source()[c],
                        at: c as usize,
                    },
                ),
            forall|c: int, k: int|
                #![trigger rec_field_ok(self.source(), spec_field_lens(self.source()), spec_field_types(self.source()), c, k)]
                ({
                    let s = self.source();
                    let lens = spec_field_lens(s);
                    let types = spec_field_types(s);
                    &&& dbase_header_parses(s)
                    &&& dbase_records_ok_between(s, lens, types, dbase_header_bytes(s), c)
                    &&& c < dbase_goal(s)
                    &&& c + 1 <= s.len()
                    &&& s[c] == 0x20
                    &&& 0 <= k < lens.len()
                    &&& (forall|j: int| 0 <= j < k ==> #[trigger] rec_field_ok(s, lens, types, c, j))
                    &&& entry_off(lens, c, k) + lens[k] <= s.len()
                    &&& !spec_field_type_decodable(types[k])
                    &&& !rec_field_ok(s, lens, types, c, k)
                }) ==> r == Err::<DbaseFile, Error>(
                    Error::UnsupportedFieldType {
                        code: spec_field_type_code(spec_field_types(self.source())[k]) as u8,
                    },
                ),
            forall|c: int, k: int|
                #![trigger rec_field_ok(self.source(), spec_field_lens(self.source()), spec_field_types(self.source()), c, k)]
                ({
                    let s = self.source();
                    let lens = spec_field_lens(s);
                    let types = spec_field_types(s);
                    &&& dbase_header_parses(s)
                    &&& dbase_records_ok_between(s, lens, types, dbase_header_bytes(s), c)
                    &&& c < dbase_goal(s)
                    &&& c + 1 <= s.len()
                    &&& s[c] == 0x20
                    &&& 0 <= k < lens.len()
                    &&& (forall|j: int| 0 <= j < k ==> #[trigger] rec_field_ok(s, lens, types, c, j))
                    &&& entry_off(lens, c, k) + lens[k] <= s.len()
                    &&& spec_field_type_decodable(types[k])
                    &&& !valid_utf8(entry_bytes(s, lens, c, k))
                    &&& !rec_field_ok(s, lens, types, c, k)
                }) ==> r == Err::<DbaseFile, Error>(
                    Error::InvalidText {
                        at: entry_off(spec_field_lens(self.source()), c, k) as usize,
                    },
                ),
    {
        let mut p = self;
        let ghost s = p.source();
        let header = p.parse_dbase_header()?;
        let ghost lens = lens_of(header.fields@);
        let ghost types = types_of(header.fields@);
        proof {
            assert(lens =~= spec_field_lens(s));
            assert(types =~= spec_field_types(s));
            assert(forall|j: int| 0 <= j < lens.len() ==> #[trigger] lens[j] >= 0);
        }
        proof {
            assert((header.num_records as u64) * (header.record_bytes as u64) <= 0xffffffff
                * 0xffff) by (nonlinear_arith)
                requires
                    header.num_records <= 0xffffffff,
                    header.record_bytes <= 0xffff,
            ;
        }
        let goal64: u64 = (header.header_bytes as u64) + (header.num_records as u64) * (
        header.record_bytes as u64);
        proof {
            assert(goal64 == dbase_goal(s));
        }
        let mut records: Vec<DbaseRecord> = Vec::new();
        while (p.num_bytes_read() as u64) < goal64
            invariant
                s == self.source(),
                self.consumed() == 0,
                p.wf(),
                p.source() == s,
                header.wf(),
                lens == lens_of(header.fields@),
                types == types_of(header.fields@),
                lens == spec_field_lens(s),
                types == spec_field_types(s),
                dbase_header_parses(s),
                dbase_header_at(s, header),
                goal64 == dbase_goal(s),
                goal64 < 0x1000000000000,
                header.header_bytes <= p.consumed() <= goal64,
                dbase_records_chain(s, lens, header.header_bytes as int, p.consumed(), records@),
                dbase_records_ok_between(s, lens, types, header.header_bytes as int, p.consumed()),
                dbase_records_parse_to(s, lens, types, p.consumed(), goal64 as int)
                    <==> dbase_records_parse_to(
                    s,
                    lens,
                    types,
                    header.header_bytes as int,
                    goal64 as int,
                ),
                forall|i: int|
                    0 <= i < records@.len() ==> (#[trigger] records@[i]).entries@.len()
                        == header.fields@.len(),
            decreases goal64 - p.consumed(),
        {
            let ghost c_rec = p.consumed();
            let ghost recs_before = records@;
            let rr = p.parse_dbase_record(&header);
            let rec = match rr {
                Ok(rec) => rec,
                Err(e) => {
                    proof {
                        assert(!dbase_record_parses_at(s, lens, types, c_rec));
                        assert(!dbase_records_parse_to(s, lens, types, c_rec, goal64 as int));
                        lemma_prefix_sum_nonneg(lens, lens.len() as int);
                        assert forall|c: int|
                            #![trigger dbase_record_parses_at(s, lens, types, c)]
                            #![trigger dbase_records_ok_between(s, lens, types, header.header_bytes as int, c)]
                            dbase_records_ok_between(s, lens, types, header.header_bytes as int, c)
                                && c != c_rec && c <= goal64 implies (c < c_rec
                                && dbase_record_parses_at(s, lens, types, c) && c + record_total(
                                lens,
                            ) <= c_rec) by {
                            if c < c_rec {
                                lemma_dbase_between_mid(
                                    s,
                                    lens,
                                    types,
                                    header.header_bytes as int,
                                    c,
                                    c_rec,
                                );
                            } else {
                                lemma_dbase_between_mid(
                                    s,
                                    lens,
                                    types,
                                    header.header_bytes as int,
                                    c_rec,
                                    c,
                                );
                            }
                        }
                    }
                    return Err(e);
                },
            };
            records.push(rec);
            proof {
                lemma_prefix_sum_nonneg(lens, lens.len() as int);
                lemma_dbase_chain_push(s, lens, header.header_bytes as int, c_rec, recs_before, rec);
                lemma_dbase_between_extend(s, lens, types, header.header_bytes as int, c_rec);
                assert(records@ =~= recs_before.push(rec));
                assert(dbase_records_parse_to(s, lens, types, c_rec, goal64 as int)
                    == dbase_records_parse_to(s, lens, types, p.consumed(), goal64 as int));
            }
            if (p.num_bytes_read() as u64) > goal64 {
                proof {
                    assert forall|c: int|
                        #![trigger dbase_record_parses_at(s, lens, types, c)]
                        #![trigger dbase_records_ok_between(s, lens, types, header.header_bytes as int, c)]
                        dbase_records_ok_between(s, lens, types, header.header_bytes as int, c)
                            && c != c_rec && c <= goal64 implies (c < c_rec
                            && dbase_record_parses_at(s, lens, types, c) && c + record_total(lens)
                            <= c_rec) by {
                        if c < c_rec {
                            lemma_dbase_between_mid(
                                s,
                                lens,
                                types,
                                header.header_bytes as int,
                                c,
                                c_rec,
                            );
                        } else {
                            lemma_dbase_between_mid(
                                s,
                                lens,
                                types,
                                header.header_bytes as int,
                                c_rec,
                                c,
                            );
                        }
                    }
                }
                return Err(
                    Error::FrameLengthMismatch {
                        expected_bytes: goal64 as i64,
                        actual_bytes: p.num_bytes_read(),
                    },
                );
            }
        }
        proof {
            let ghost stop = p.consumed();
            assert forall|c: int|
                #![trigger dbase_record_parses_at(s, lens, types, c)]
                #![trigger dbase_records_ok_between(s, lens, types, header.header_bytes as int, c)]
                dbase_records_ok_between(s, lens, types, header.header_bytes as int, c) && c < stop
                    implies (dbase_record_parses_at(s, lens, types, c) && c + record_total(lens)
                    <= stop) by {
                lemma_dbase_between_mid(s, lens, types, header.header_bytes as int, c, stop);
            }
        }
        Ok(DbaseFile { header, records })
    }

    /// Decode a whole attribute file held in an owned byte buffer. A
    /// failed decode returns the first failure: the header decoder's own
    /// error, or the failing record's, or a file-level
    /// `FrameLengthMismatch` where the records do not land exactly on
    /// the declared total.
    pub fn parse_dbf_buffer(data: Vec<u8>) -> (r: Result<DbaseFile, Error>)
        ensures
            r is Ok <==> dbase_file_parses(data@),
            r matches Ok(f) ==> {
                &&& dbase_header_at(data@, f.header)
                &&& f.header.wf()
                &&& dbase_records_chain(
                    data@,
                    lens_of(f.header.fields@),
                    f.header.header_bytes as int,
                    dbase_goal(data@),
                    f.records@,
                )
                &&& forall|i: int|
                    0 <= i < f.records@.len() ==> (#[trigger] f.records@[i]).entries@.len()
                        == f.header.fields@.len()
            },
            32 <= data@.len() && dbase_header_bytes(data@) < 33 ==> r == Err::<DbaseFile, Error>(
                Error::HeaderTooShort { header_bytes: dbase_header_bytes(data@) as usize },
            ),
            ({
                32 <= data@.len() && dbase_header_bytes(data@) >= 33 && (dbase_header_bytes(data@)
                    - 33) % 32 != 0
            }) ==> r == Err::<DbaseFile, Error>(
                Error::MisalignedFieldTable {
                    field_table_bytes: (dbase_header_bytes(data@) - 33) as usize,
                },
            ),
            forall|k: int|
                ({
                    &&& 32 <= data@.len()
                    &&& dbase_header_bytes(data@) >= 33
                    &&& (dbase_header_bytes(data@) - 33) % 32 == 0
                    &&& 0 <= k < dbase_num_fields(data@)
                    &&& (forall|j: int| 0 <= j < k ==> desc_parses(data@, desc_pos(j)))
                    &&& desc_pos(k) + 11 <= data@.len()
                    &&& !desc_name_ok(data@, desc_pos(k))
                }) ==> r == Err::<DbaseFile, Error>(
                    Error::InvalidFieldName { at: desc_pos(k) as usize },
                ),
            forall|k: int|
                ({
                    &&& 32 <= data@.len()
                    &&& dbase_header_bytes(data@) >= 33
                    &&& (dbase_header_bytes(data@) - 33) % 32 == 0
                    &&& 0 <= k < dbase_num_fields(data@)
                    &&& (forall|j: int| 0 <= j < k ==> desc_parses(data@, desc_pos(j)))
                    &&& desc_pos(k) + 11 <= data@.len()
                    &&& desc_name_ok(data@, desc_pos(k))
                    &&& desc_pos(k) + 12 <= data@.len()
                    &&& !desc_type_ok(data@, desc_pos(k))
                }) ==> r == Err::<DbaseFile, Error>(
                    Error::UnknownFieldType { code: data@[desc_pos(k) + 11] },
                ),
            ({
                &&& 32 <= data@.len()
                &&& dbase_header_bytes(data@) >= 33
                &&& (dbase_header_bytes(data@) - 33) % 32 == 0
                &&& (forall|k: int|
                    0 <= k < dbase_num_fields(data@) ==> desc_parses(data@, desc_pos(k)))
                &&& dbase_header_bytes(data@) <= data@.len()
                &&& data@[dbase_header_bytes(data@) - 1] != 0x0d
            }) ==> r == Err::<DbaseFile, Error>(
                Error::MissingTerminator { byte: data@[dbase_header_bytes(data@) - 1] },
            ),
            forall|c: int|
                #![trigger dbase_record_parses_at(data@, spec_field_lens(data@), spec_field_types(data@), c)]
                ({
                    let lens = spec_field_lens(data@);
                    let types = spec_field_types(data@);
                    &&& dbase_header_parses(data@)
                    &&& dbase_records_ok_between(data@, lens, types, dbase_header_bytes(data@), c)
                    &&& c < dbase_goal(data@)
                    &&& dbase_record_parses_at(data@, lens, types, c)
                    &&& c + record_total(lens) > dbase_goal(data@)
                }) ==> r == Err::<DbaseFile, Error>(
                    Error::FrameLengthMismatch {
                        expected_bytes: dbase_goal(data@) as i64,
                        actual_bytes: (c + record_total(spec_field_lens(data@))) as usize,
                    },
                ),
            forall|c: int|
                #![trigger dbase_records_ok_between(data@, spec_field_lens(data@), spec_field_types(data@), dbase_header_bytes(data@), c)]
                ({
                    let lens = spec_field_lens(data@);
                    let types = spec_field_types(data@);
                    &&& dbase_header_parses(data@)
                    &&& dbase_records_ok_between(data@, lens, types, dbase_header_bytes(data@), c)
                    &&& c < dbase_goal(data@)
                    &&& c + 1 <= data@.len()
                    &&& data@[c] != 0x20
                }) ==> r == Err::<DbaseFile, Error>(
                    Error::UnexpectedRecordFlag { flag: data@[c], at: c as usize },
                ),
            forall|c: int, k: int|
                #![trigger rec_field_ok(data@, spec_field_lens(data@), spec_field_types(data@), c, k)]
                ({
                    let lens = spec_field_lens(data@);
                    let types = spec_field_types(data@);
                    &&& dbase_header_parses(data@)
                    &&& dbase_records_ok_between(data@, lens, types, dbase_header_bytes(data@), c)
                    &&& c < dbase_goal(data@)
                    &&& c + 1 <= data@.len()
                    &&& data@[c] == 0x20
                    &&& 0 <= k < lens.len()
                    &&& (forall|j: int|
                        0 <= j < k ==> #[trigger] rec_field_ok(data@, lens, types, c, j))
                    &&& entry_off(lens, c, k) + lens[k] <= data@.len()
                    &&& !spec_field_type_decodable(types[k])
                    &&& !rec_field_ok(data@, lens, types, c, k)
                }) ==> r == Err::<DbaseFile, Error>(
                    Error::UnsupportedFieldType {
                        code: spec_field_type_code(spec_field_types(data@)[k]) as u8,
                    },
                ),
            forall|c: int, k: int|
                #![trigger rec_field_ok(data@, spec_field_lens(data@), spec_field_types(data@), c, k)]
                ({
                    let lens = spec_field_lens(data@);
                    let types = spec_field_types(data@);
                    &&& dbase_header_parses(data@)
                    &&& dbase_records_ok_between(data@, lens, types, dbase_header_bytes(data@), c)
                    &&& c < dbase_goal(data@)
                    &&& c + 1 <= data@.len()
                    &&& data@[c] == 0x20
                    &&& 0 <= k < lens.len()
                    &&& (forall|j: int|
                        0 <= j < k ==> #[trigger] rec_field_ok(data@, lens, types, c, j))
                    &&& entry_off(lens, c, k) + lens[k] <= data@.len()
                    &&& spec_field_type_decodable(types[k])
                    &&& !valid_utf8(entry_bytes(data@, lens, c, k))
                    &&& !rec_field_ok(data@, lens, types, c, k)
                }) ==> r == Err::<DbaseFile, Error>(
                    Error::InvalidText { at: entry_off(spec_field_lens(data@), c, k) as usize },
                ),
    {
        Parser::with_reader(data).impl_parse_dbase_file()
    }
}

} // verus!
