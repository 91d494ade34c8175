//! Structured parse errors: a leaf cause from the closed taxonomy of the
//! format, decorated with the structural location (block, read, row) at
//! which it arose. Rendering as text belongs to the caller at the boundary.
use crate::settings::ReadMode;
use crate::settings::ReadType;
use vstd::prelude::*;

verus! {

/// The field of the format that failed to parse, for diagnosis.
#[derive(Debug, Clone, Copy, PartialEq, Eq, Structural)]
pub enum Field {
    ReadCount,
    RowStart,
    RowSpan,
    ColStart,
    ColSpan,
    PlateSize,
    WaveCount,
    Wavelength,
    Temperature,
    TimeHours,
    TimeMinutes,
    TimeSeconds,
    WellValue,
}

/// Which closed token set an unrecognized token was offered to.
#[derive(Debug, Clone, Copy, PartialEq, Eq, Structural)]
pub enum EnumKind {
    ReadType,
    ReadMode,
}

/// The leaf causes a parse can fail with.
#[derive(Debug, Clone, PartialEq, Eq)]
pub enum FormatError {
    /// The file does not begin with the block-count magic token.
    MissingMagic,
    /// The block count after the magic token is absent or not an integer.
    MalformedCount,
    /// A settings row with too few tokens for its declared variant.
    TruncatedSettings,
    /// A token outside one of the closed token sets, with the raw token.
    UnknownEnum(EnumKind, Vec<u8>),
    /// A (read type, read mode) pair outside the supported table.
    UnsupportedVariant(ReadType, ReadMode),
    /// A plate size other than 96 or 384 wells.
    UnsupportedPlateSize(u32),
    /// A temperature-unit header without the expected unit, with the raw
    /// second column.
    UnsupportedUnit(Vec<u8>),
    /// A block whose final line is not the end sentinel.
    MissingSentinel,
    /// A field whose token does not parse as its target type, with the
    /// raw token.
    FieldParseFailure(Field, Vec<u8>),
    /// The line source ran out before the structure was complete.
    PrematureEof,
}

/// The mathematical shape of a `FormatError`.
pub enum FormatErrorV {
    MissingMagic,
    MalformedCount,
    TruncatedSettings,
    UnknownEnum(EnumKind, Seq<u8>),
    UnsupportedVariant(ReadType, ReadMode),
    UnsupportedPlateSize(u32),
    UnsupportedUnit(Seq<u8>),
    MissingSentinel,
    FieldParseFailure(Field, Seq<u8>),
    PrematureEof,
}

impl View for FormatError {
    type V = FormatErrorV;

    open spec fn view(&self) -> FormatErrorV {
        match self {
            FormatError::MissingMagic => FormatErrorV::MissingMagic,
            FormatError::MalformedCount => FormatErrorV::MalformedCount,
            FormatError::TruncatedSettings => FormatErrorV::TruncatedSettings,
            FormatError::UnknownEnum(k, v) => FormatErrorV::UnknownEnum(*k, v@),
            FormatError::UnsupportedVariant(t, m) => FormatErrorV::UnsupportedVariant(*t, *m),
            FormatError::UnsupportedPlateSize(n) => FormatErrorV::UnsupportedPlateSize(*n),
            FormatError::UnsupportedUnit(v) => FormatErrorV::UnsupportedUnit(v@),
            FormatError::MissingSentinel => FormatErrorV::MissingSentinel,
            FormatError::FieldParseFailure(f, v) => FormatErrorV::FieldParseFailure(*f, v@),
            FormatError::PrematureEof => FormatErrorV::PrematureEof,
        }
    }
}

/// A leaf cause together with where in the document it arose. Indices are
/// zero-based; a `None` means the level does not apply.
#[derive(Debug, Clone, PartialEq, Eq)]
pub struct ParseError {
    pub block: Option<usize>,
    pub read: Option<usize>,
    pub row: Option<usize>,
    pub cause: FormatError,
}

/// The mathematical shape of a `ParseError`.
pub struct ParseErrorV {
    pub block: Option<int>,
    pub read: Option<int>,
    pub row: Option<int>,
    pub cause: FormatErrorV,
}

impl View for ParseError {
    type V = ParseErrorV;

    open spec fn view(&self) -> ParseErrorV {
        ParseErrorV {
            block: match self.block {
                Some(b) => Some(b as int),
                None => None,
            },
            read: match self.read {
                Some(r) => Some(r as int),
                None => None,
            },
            row: match self.row {
                Some(r) => Some(r as int),
                None => None,
            },
            cause: self.cause@,
        }
    }
}

impl ParseErrorV {
    /// A bare cause, not yet located.
    pub open spec fn bare(cause: FormatErrorV) -> ParseErrorV {
        ParseErrorV { block: None, read: None, row: None, cause }
    }

    /// The same error, located at row `r`.
    pub open spec fn at_row(self, r: int) -> ParseErrorV {
        ParseErrorV { row: Some(r), ..self }
    }

    /// The same error, located at read `r`.
    pub open spec fn at_read(self, r: int) -> ParseErrorV {
        ParseErrorV { read: Some(r), ..self }
    }

    /// The same error, located at block `b`.
    pub open spec fn at_block(self, b: int) -> ParseErrorV {
        ParseErrorV { block: Some(b), ..self }
    }
}

impl ParseError {
    /// Wraps a bare cause, not yet located.
    pub fn bare(cause: FormatError) -> (r: ParseError)
        ensures
            r@ == ParseErrorV::bare(cause@),
    {
        ParseError { block: None, read: None, row: None, cause }
    }

    /// Locates the error at row `r`.
    pub fn at_row(self, r: usize) -> (e: ParseError)
        ensures
            e@ == self@.at_row(r as int),
    {
        ParseError { row: Some(r), ..self }
    }

    /// Locates the error at read `r`.
    pub fn at_read(self, r: usize) -> (e: ParseError)
        ensures
            e@ == self@.at_read(r as int),
    {
        ParseError { read: Some(r), ..self }
    }

    /// Locates the error at block `b`.
    pub fn at_block(self, b: usize) -> (e: ParseError)
        ensures
            e@ == self@.at_block(b as int),
    {
        ParseError { block: Some(b), ..self }
    }
}

} // verus!
