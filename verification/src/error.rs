//! Typed decode failures. Every parser-level check fails hard with one of
//! these, carrying enough context (offsets, codes, counts) to pinpoint the
//! malformation; nothing is retried or silently recovered.

use vstd::prelude::*;

verus! {

/// A decode failure, fatal to the file (or file pair) being decoded.
#[derive(Debug, Clone, PartialEq, Eq, Structural)]
pub enum Error {
    /// Fewer bytes were available than the read required.
    TruncatedInput { at: usize, requested: usize, available: usize },
    /// The shape-file code did not equal the required constant.
    BadMagic { found: i32 },
    /// A shape-type code outside the recognized set.
    UnknownShapeType { code: i32 },
    /// A recognized shape-type code whose payload this decoder does not
    /// implement (multi-point, Z, M and multi-patch variants).
    UnsupportedShapeType { code: i32 },
    /// A field-type byte outside the recognized set.
    UnknownFieldType { code: u8 },
    /// A recognized field type whose entries this decoder does not decode
    /// (date, floating point, logical and memo).
    UnsupportedFieldType { code: u8 },
    /// A poly-line with more than one part cannot become a single line.
    MultiPartLineUnsupported { num_parts: usize },
    /// A declared length disagrees with the bytes actually consumed, at
    /// record or file granularity. The expected count is signed because
    /// a corrupt declared length may be negative.
    FrameLengthMismatch { expected_bytes: i64, actual_bytes: usize },
    /// The part offsets of a polygon or poly-line do not account for
    /// every point exactly once.
    PartReconstructionMismatch { num_parts: usize, num_points: usize },
    /// The declared dBASE header length cannot even hold the fixed prefix
    /// and the terminator byte.
    HeaderTooShort { header_bytes: usize },
    /// The space left for the field-descriptor table is not a whole
    /// number of descriptors.
    MisalignedFieldTable { field_table_bytes: usize },
    /// The byte after the field descriptors was not the expected
    /// terminator.
    MissingTerminator { byte: u8 },
    /// A field name was not plain text.
    InvalidFieldName { at: usize },
    /// A record entry was not plain text.
    InvalidText { at: usize },
    /// A record began with neither the active nor any other known marker
    /// this decoder accepts.
    UnexpectedRecordFlag { flag: u8, at: usize },
    /// The shape file and the attribute file hold different numbers of
    /// records, so no positional join exists.
    RecordCountMismatch { shp_records: usize, dbf_records: usize },
}

} // verus!
