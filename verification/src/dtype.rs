//! Supported column data types: parsing of type names, byte widths and
//! rendering of raw little-endian values.
use vstd::prelude::*;

use crate::error::Error;
use crate::text::{
    lemma_decimal_reads_back, spec_ascii_upper, spec_is_ascii_text, spec_digits_value,
    chars_of, le_u64, push_decimal, push_signed_decimal, spec_decimal, spec_le_value,
    spec_signed_decimal, spec_twos_complement, spec_uppercase, string_of, to_uppercase,
};

verus! {

/// Supported column data types.
#[derive(Debug, Clone, Copy, PartialEq, Eq, Structural)]
pub enum DataTypeKind {
    U64,
    U32,
    U8,
    I64,
    I32,
    I8,
    F32,
    F64,
    Bool,
}

/// The data type that an uppercase type name denotes, if any.
pub open spec fn spec_kind_from_upper(upper: Seq<char>) -> Option<DataTypeKind> {
    if upper == seq!['U', '6', '4'] {
        Some(DataTypeKind::U64)
    } else if upper == seq!['U', '3', '2'] {
        Some(DataTypeKind::U32)
    } else if upper == seq!['U', '8'] {
        Some(DataTypeKind::U8)
    } else if upper == seq!['I', '6', '4'] {
        Some(DataTypeKind::I64)
    } else if upper == seq!['I', '3', '2'] {
        Some(DataTypeKind::I32)
    } else if upper == seq!['I', '8'] {
        Some(DataTypeKind::I8)
    } else if upper == seq!['F', '3', '2'] {
        Some(DataTypeKind::F32)
    } else if upper == seq!['F', '6', '4'] {
        Some(DataTypeKind::F64)
    } else if upper == seq!['B', 'O', 'O', 'L'] {
        Some(DataTypeKind::Bool)
    } else {
        None
    }
}

/// What `DataTypeKind::parse` returns for a type name.
pub open spec fn spec_parse(data_type_name: Seq<char>) -> Option<DataTypeKind> {
    spec_kind_from_upper(spec_uppercase(data_type_name))
}

/// Each type renders a value as its name says: the unsigned types as the
/// decimal digits of the number their little-endian bytes hold, the signed
/// types as that number's two's complement at 8, 4 or 1 bytes, with a `-`
/// exactly for negative values, and booleans as `true` for a non-zero byte.
pub proof fn lemma_values_render_by_type(kind: DataTypeKind, bytes: Seq<u8>)
    requires
        bytes.len() == kind.spec_byte_width(),
        !kind.spec_is_float(),
    ensures
        match kind {
            DataTypeKind::U64 | DataTypeKind::U32 | DataTypeKind::U8 => spec_digits_value(kind.spec_format(bytes))
                == spec_le_value(bytes) && kind.spec_format(bytes)[0] != '-',
            DataTypeKind::I64 => spec_signed_decimal(spec_twos_complement(spec_le_value(bytes), 8))
                == kind.spec_format(bytes) && bytes.len() == 8,
            DataTypeKind::I32 => spec_signed_decimal(spec_twos_complement(spec_le_value(bytes), 4))
                == kind.spec_format(bytes) && bytes.len() == 4,
            DataTypeKind::I8 => spec_signed_decimal(spec_twos_complement(spec_le_value(bytes), 1))
                == kind.spec_format(bytes) && bytes.len() == 1,
            DataTypeKind::Bool => kind.spec_format(bytes) == (if bytes[0] == 0 {
                seq!['f', 'a', 'l', 's', 'e']
            } else {
                seq!['t', 'r', 'u', 'e']
            }),
            _ => true,
        },
{
    match kind {
        DataTypeKind::U64 | DataTypeKind::U32 | DataTypeKind::U8 => {
            lemma_decimal_reads_back(spec_le_value(bytes));
        },
        _ => {},
    }
}

/// Parsing a type name gives the type whose name it is, ignoring the case
/// of ASCII letters: `u8` and `U8` name the unsigned byte, `BOOL` and
/// `bool` the boolean, and any other ASCII text no type.
pub proof fn lemma_parse_names(data_type_name: Seq<char>)
    requires
        spec_is_ascii_text(data_type_name),
    ensures
        ({
            let upper = data_type_name.map_values(|c: char| spec_ascii_upper(c));
            spec_parse(data_type_name) == if upper == seq!['U', '6', '4'] {
                Some(DataTypeKind::U64)
            } else if upper == seq!['U', '3', '2'] {
                Some(DataTypeKind::U32)
            } else if upper == seq!['U', '8'] {
                Some(DataTypeKind::U8)
            } else if upper == seq!['I', '6', '4'] {
                Some(DataTypeKind::I64)
            } else if upper == seq!['I', '3', '2'] {
                Some(DataTypeKind::I32)
            } else if upper == seq!['I', '8'] {
                Some(DataTypeKind::I8)
            } else if upper == seq!['F', '3', '2'] {
                Some(DataTypeKind::F32)
            } else if upper == seq!['F', '6', '4'] {
                Some(DataTypeKind::F64)
            } else if upper == seq!['B', 'O', 'O', 'L'] {
                Some(DataTypeKind::Bool)
            } else {
                None
            }
        }),
{
}

impl DataTypeKind {
    /// Byte width of a single value of this type.
    pub open spec fn spec_byte_width(self) -> nat {
        match self {
            DataTypeKind::U64 | DataTypeKind::I64 | DataTypeKind::F64 => 8,
            DataTypeKind::U32 | DataTypeKind::I32 | DataTypeKind::F32 => 4,
            DataTypeKind::U8 | DataTypeKind::I8 | DataTypeKind::Bool => 1,
        }
    }

    /// Floating-point types, whose rendering happens outside this library.
    pub open spec fn spec_is_float(self) -> bool {
        self is F32 || self is F64
    }

    /// Rendering of one value of a non-float type from its little-endian
    /// bytes.
    pub open spec fn spec_format(self, bytes: Seq<u8>) -> Seq<char> {
        match self {
            DataTypeKind::U64 | DataTypeKind::U32 | DataTypeKind::U8 => spec_decimal(
                spec_le_value(bytes),
            ),
            DataTypeKind::I64 | DataTypeKind::I32 | DataTypeKind::I8 => spec_signed_decimal(
                spec_twos_complement(spec_le_value(bytes), self.spec_byte_width() as int),
            ),
            DataTypeKind::Bool => if bytes[0] != 0 {
                seq!['t', 'r', 'u', 'e']
            } else {
                seq!['f', 'a', 'l', 's', 'e']
            },
            _ => Seq::empty(),
        }
    }

    /// The type that an already uppercased type name denotes.
    pub fn from_upper_name(upper: &str) -> (kind: Option<DataTypeKind>)
        ensures
            kind == spec_kind_from_upper(upper@),
    {
        let c = chars_of(upper);
        let n = c.len();
        if n == 2 && c[0] == 'U' && c[1] == '8' {
            assert(upper@ =~= seq!['U', '8']);
            Some(DataTypeKind::U8)
        } else if n == 2 && c[0] == 'I' && c[1] == '8' {
            assert(upper@ =~= seq!['I', '8']);
            Some(DataTypeKind::I8)
        } else if n == 3 && c[0] == 'U' && c[1] == '6' && c[2] == '4' {
            assert(upper@ =~= seq!['U', '6', '4']);
            Some(DataTypeKind::U64)
        } else if n == 3 && c[0] == 'U' && c[1] == '3' && c[2] == '2' {
            assert(upper@ =~= seq!['U', '3', '2']);
            Some(DataTypeKind::U32)
        } else if n == 3 && c[0] == 'I' && c[1] == '6' && c[2] == '4' {
            assert(upper@ =~= seq!['I', '6', '4']);
            Some(DataTypeKind::I64)
        } else if n == 3 && c[0] == 'I' && c[1] == '3' && c[2] == '2' {
            assert(upper@ =~= seq!['I', '3', '2']);
            Some(DataTypeKind::I32)
        } else if n == 3 && c[0] == 'F' && c[1] == '3' && c[2] == '2' {
            assert(upper@ =~= seq!['F', '3', '2']);
            Some(DataTypeKind::F32)
        } else if n == 3 && c[0] == 'F' && c[1] == '6' && c[2] == '4' {
            assert(upper@ =~= seq!['F', '6', '4']);
            Some(DataTypeKind::F64)
        } else if n == 4 && c[0] == 'B' && c[1] == 'O' && c[2] == 'O' && c[3] == 'L' {
            assert(upper@ =~= seq!['B', 'O', 'O', 'L']);
            Some(DataTypeKind::Bool)
        } else {
            assert(upper@.len() != 2 || upper@[0] != 'U' || upper@[1] != '8');
            assert(upper@ != seq!['U', '8']);
            assert(upper@ != seq!['I', '8']);
            assert(upper@ != seq!['U', '6', '4']);
            assert(upper@ != seq!['U', '3', '2']);
            assert(upper@ != seq!['I', '6', '4']);
            assert(upper@ != seq!['I', '3', '2']);
            assert(upper@ != seq!['F', '3', '2']);
            assert(upper@ != seq!['F', '6', '4']);
            assert(upper@ != seq!['B', 'O', 'O', 'L']);
            None
        }
    }

    /// Parse a type name string (case-insensitive) into a `DataTypeKind`.
    pub fn parse(data_type_name: &str) -> (result: Result<Self, Error>)
        requires
            data_type_name@.len() > 0,
        ensures
            match spec_parse(data_type_name@) {
                Some(kind) => result == Ok::<DataTypeKind, Error>(kind),
                None => result matches Err(Error::UnknownDataType { data_type_name: name })
                    && name@ == data_type_name@,
            },
    {
        Self::parse_name(data_type_name)
    }

    /// Parses a type name, the empty name included, as `parse` does.
    pub(crate) fn parse_name(data_type_name: &str) -> (result: Result<Self, Error>)
        ensures
            match spec_parse(data_type_name@) {
                Some(kind) => result == Ok::<DataTypeKind, Error>(kind),
                None => result matches Err(Error::UnknownDataType { data_type_name: name })
                    && name@ == data_type_name@,
            },
            data_type_name@.len() == 0 ==> result is Err,
    {
        let upper = to_uppercase(data_type_name);
        proof {
            if data_type_name@.len() == 0 {
                assert(upper@ =~= Seq::<char>::empty());
            }
        }
        match Self::from_upper_name(upper.as_str()) {
            Some(kind) => Ok(kind),
            None => Err(Error::UnknownDataType { data_type_name: string_of(data_type_name) }),
        }
    }

    /// Byte width of a single value of this type.
    pub fn byte_width(self) -> (width: usize)
        ensures
            width == self.spec_byte_width(),
            0 < width <= 8,
    {
        match self {
            DataTypeKind::U64 | DataTypeKind::I64 | DataTypeKind::F64 => 8,
            DataTypeKind::U32 | DataTypeKind::I32 | DataTypeKind::F32 => 4,
            DataTypeKind::U8 | DataTypeKind::I8 | DataTypeKind::Bool => 1,
        }
    }

    /// Whether values of this type are floating-point numbers.
    pub fn is_float(self) -> (float: bool)
        ensures
            float == self.spec_is_float(),
    {
        match self {
            DataTypeKind::F32 | DataTypeKind::F64 => true,
            _ => false,
        }
    }

    /// Format raw little-endian bytes as a human-readable string.
    ///
    /// Caller must pass exactly `self.byte_width()` bytes. Floating-point
    /// values are rendered by the caller.
    pub fn format_bytes(self, bytes: &[u8]) -> (text: String)
        requires
            bytes@.len() == self.spec_byte_width(),
            !self.spec_is_float(),
        ensures
            text@ == self.spec_format(bytes@),
            text@.len() > 0,
    {
        let mut text = String::new();
        match self {
            DataTypeKind::U64 | DataTypeKind::U32 | DataTypeKind::U8 => {
                let value = le_u64(bytes);
                push_decimal(&mut text, value);
            },
            DataTypeKind::I64 | DataTypeKind::I32 | DataTypeKind::I8 => {
                let value = le_u64(bytes);
                proof {
                    crate::text::lemma_le_value_bound(bytes@);
                    reveal_with_fuel(crate::text::spec_pow256, 9);
                }
                push_signed_decimal(&mut text, value, self.byte_width());
            },
            _ => {
                if bytes[0] != 0 {
                    text = string_of("true");
                    proof { reveal_strlit("true"); }
                } else {
                    text = string_of("false");
                    proof { reveal_strlit("false"); }
                }
            },
        }
        proof { crate::text::lemma_decimal_nonempty_all(); }
        text
    }
}

} // verus!
