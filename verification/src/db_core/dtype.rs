//! Supported column data types of the core crate.
use vstd::prelude::*;

use crate::dtype::{spec_parse as spec_parse_root, DataTypeKind as Kind};
use crate::error::Error;
use crate::text::{
    spec_ascii_upper, spec_decimal, spec_is_ascii_text, spec_le_value, spec_signed_decimal, spec_twos_complement,
};

verus! {

/// Supported column data types.
#[derive(Debug, Clone, Copy, PartialEq, Eq, Structural)]
pub enum DataTypeKind {
    U64,
    U32,
    U8,
    I64,
    I32,
    I8,
    F32,
    F64,
    BOOL,
}

/// The same data type in the top-level type enumeration.
pub open spec fn spec_as_kind(kind: DataTypeKind) -> Kind {
    match kind {
        DataTypeKind::U64 => Kind::U64,
        DataTypeKind::U32 => Kind::U32,
        DataTypeKind::U8 => Kind::U8,
        DataTypeKind::I64 => Kind::I64,
        DataTypeKind::I32 => Kind::I32,
        DataTypeKind::I8 => Kind::I8,
        DataTypeKind::F32 => Kind::F32,
        DataTypeKind::F64 => Kind::F64,
        DataTypeKind::BOOL => Kind::Bool,
    }
}

/// The core data type for a top-level data type.
pub open spec fn spec_from_kind(kind: Kind) -> DataTypeKind {
    match kind {
        Kind::U64 => DataTypeKind::U64,
        Kind::U32 => DataTypeKind::U32,
        Kind::U8 => DataTypeKind::U8,
        Kind::I64 => DataTypeKind::I64,
        Kind::I32 => DataTypeKind::I32,
        Kind::I8 => DataTypeKind::I8,
        Kind::F32 => DataTypeKind::F32,
        Kind::F64 => DataTypeKind::F64,
        Kind::Bool => DataTypeKind::BOOL,
    }
}

/// What `DataTypeKind::parse` returns for a type name.
pub open spec fn spec_parse(data_type_name: Seq<char>) -> Option<DataTypeKind> {
    match spec_parse_root(data_type_name) {
        Some(kind) => Some(spec_from_kind(kind)),
        None => None,
    }
}

/// Each core type is read as the type of the same name: unsigned types as
/// the unsigned number their little-endian bytes hold, signed types as that
/// number's two's complement at their own width, booleans as `true` for a
/// non-zero byte; widths are 8, 4 and 1 bytes for the 64-, 32- and 8-bit
/// types and 1 for booleans; and the top-level type a core type stands for
/// leads back to it.
pub proof fn lemma_core_types_keep_their_reading(kind: DataTypeKind, bytes: Seq<u8>)
    requires
        bytes.len() == kind.spec_byte_width(),
    ensures
        spec_from_kind(spec_as_kind(kind)) == kind,
        match kind {
            DataTypeKind::U64 | DataTypeKind::I64 | DataTypeKind::F64 => kind.spec_byte_width() == 8,
            DataTypeKind::U32 | DataTypeKind::I32 | DataTypeKind::F32 => kind.spec_byte_width() == 4,
            DataTypeKind::U8 | DataTypeKind::I8 | DataTypeKind::BOOL => kind.spec_byte_width() == 1,
        },
        match kind {
            DataTypeKind::U64 | DataTypeKind::U32 | DataTypeKind::U8 => kind.spec_format(bytes) == spec_decimal(
                spec_le_value(bytes),
            ),
            DataTypeKind::I64 | DataTypeKind::I32 | DataTypeKind::I8 => kind.spec_format(bytes)
                == spec_signed_decimal(spec_twos_complement(spec_le_value(bytes), bytes.len() as int)),
            DataTypeKind::BOOL => kind.spec_format(bytes) == (if bytes[0] == 0 {
                seq!['f', 'a', 'l', 's', 'e']
            } else {
                seq!['t', 'r', 'u', 'e']
            }),
            DataTypeKind::F32 | DataTypeKind::F64 => true,
        },
{
}

/// Parsing a type name gives the core type whose name it is, ignoring the
/// case of ASCII letters.
pub proof fn lemma_core_parse_names(data_type_name: Seq<char>)
    requires
        spec_is_ascii_text(data_type_name),
    ensures
        ({
            let upper = data_type_name.map_values(|c: char| spec_ascii_upper(c));
            spec_parse(data_type_name) == if upper == seq!['U', '6', '4'] {
                Some(DataTypeKind::U64)
            } else if upper == seq!['U', '3', '2'] {
                Some(DataTypeKind::U32)
            } else if upper == seq!['U', '8'] {
                Some(DataTypeKind::U8)
            } else if upper == seq!['I', '6', '4'] {
                Some(DataTypeKind::I64)
            } else if upper == seq!['I', '3', '2'] {
                Some(DataTypeKind::I32)
            } else if upper == seq!['I', '8'] {
                Some(DataTypeKind::I8)
            } else if upper == seq!['F', '3', '2'] {
                Some(DataTypeKind::F32)
            } else if upper == seq!['F', '6', '4'] {
                Some(DataTypeKind::F64)
            } else if upper == seq!['B', 'O', 'O', 'L'] {
                Some(DataTypeKind::BOOL)
            } else {
                None
            }
        }),
{
}

impl DataTypeKind {
    /// Byte width of a single value of this type.
    pub open spec fn spec_byte_width(self) -> nat {
        spec_as_kind(self).spec_byte_width()
    }

    /// Floating-point types, whose rendering happens outside this library.
    pub open spec fn spec_is_float(self) -> bool {
        self is F32 || self is F64
    }

    /// Rendering of one value of a non-float type.
    pub open spec fn spec_format(self, bytes: Seq<u8>) -> Seq<char> {
        spec_as_kind(self).spec_format(bytes)
    }

    fn as_kind(self) -> (kind: Kind)
        ensures
            kind == spec_as_kind(self),
    {
        match self {
            DataTypeKind::U64 => Kind::U64,
            DataTypeKind::U32 => Kind::U32,
            DataTypeKind::U8 => Kind::U8,
            DataTypeKind::I64 => Kind::I64,
            DataTypeKind::I32 => Kind::I32,
            DataTypeKind::I8 => Kind::I8,
            DataTypeKind::F32 => Kind::F32,
            DataTypeKind::F64 => Kind::F64,
            DataTypeKind::BOOL => Kind::Bool,
        }
    }

    fn from_kind(kind: Kind) -> (core: Self)
        ensures
            core == spec_from_kind(kind),
    {
        match kind {
            Kind::U64 => DataTypeKind::U64,
            Kind::U32 => DataTypeKind::U32,
            Kind::U8 => DataTypeKind::U8,
            Kind::I64 => DataTypeKind::I64,
            Kind::I32 => DataTypeKind::I32,
            Kind::I8 => DataTypeKind::I8,
            Kind::F32 => DataTypeKind::F32,
            Kind::F64 => DataTypeKind::F64,
            Kind::Bool => DataTypeKind::BOOL,
        }
    }

    /// Parse a type name string (case-insensitive) into a `DataTypeKind`.
    pub fn parse(data_type_name: &str) -> (result: Result<Self, Error>)
        ensures
            match spec_parse(data_type_name@) {
                Some(kind) => result == Ok::<DataTypeKind, Error>(kind),
                None => result matches Err(Error::UnknownDataType { data_type_name: name })
                    && name@ == data_type_name@,
            },
            data_type_name@.len() == 0 ==> result is Err,
    {
        match Kind::parse_name(data_type_name) {
            Ok(kind) => Ok(Self::from_kind(kind)),
            Err(error) => Err(error),
        }
    }

    /// Byte width of a single value of this type.
    pub fn byte_width(self) -> (width: usize)
        ensures
            width == self.spec_byte_width(),
            0 < width <= 8,
    {
        self.as_kind().byte_width()
    }

    /// Whether values of this type are floating-point numbers.
    pub fn is_float(self) -> (float: bool)
        ensures
            float == self.spec_is_float(),
    {
        self.as_kind().is_float()
    }

    /// Format raw little-endian bytes as a human-readable string.
    ///
    /// Caller must pass exactly `self.byte_width()` bytes. Floating-point
    /// values are rendered by the caller.
    pub fn format_bytes(self, bytes: &[u8]) -> (text: String)
        requires
            bytes@.len() == self.spec_byte_width(),
            !self.spec_is_float(),
        ensures
            text@ == self.spec_format(bytes@),
            text@.len() > 0,
    {
        self.as_kind().format_bytes(bytes)
    }
}

} // verus!
