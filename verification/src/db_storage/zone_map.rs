//! Per-segment minimum and maximum of a fixed-width column, kept as the raw
//! bytes of the extreme values.
use vstd::prelude::*;

use crate::db_core::dtype::DataTypeKind;
use crate::text::{spec_le_value, spec_twos_complement};
use vstd::endian::{endianness, Endian};

verus! {

/// The unsigned number that `bytes` hold in the machine's byte order.
pub open spec fn spec_native_value(bytes: Seq<u8>) -> nat {
    match endianness() {
        Endian::Little => spec_le_value(bytes),
        Endian::Big => spec_le_value(bytes.reverse()),
    }
}

/// IEEE 754 `a < b` for two binary floating-point values given by their bit
/// patterns, where `fraction` is 2 to the number of fraction bits,
/// `exponents` 2 to the number of exponent bits and `magnitudes` their
/// product: false when either is a NaN, false between the two zeros, and
/// otherwise the order of sign and magnitude.
pub open spec fn spec_ieee_less(a: int, b: int, fraction: int, exponents: int, magnitudes: int) -> bool {
    let nan_a = (a / fraction) % exponents == exponents - 1 && a % fraction != 0;
    let nan_b = (b / fraction) % exponents == exponents - 1 && b % fraction != 0;
    let negative_a = a / magnitudes != 0;
    let negative_b = b / magnitudes != 0;
    let mag_a = a % magnitudes;
    let mag_b = b % magnitudes;
    if nan_a || nan_b {
        false
    } else if mag_a == 0 && mag_b == 0 {
        false
    } else if !negative_a && !negative_b {
        mag_a < mag_b
    } else if negative_a && negative_b {
        mag_b < mag_a
    } else {
        negative_a
    }
}

/// `a < b` for two values of type `dtype` given by the unsigned numbers that
/// their bytes hold: numeric order for integers (two's complement for signed
/// ones), IEEE order for floats, and `false < true` for booleans.
pub open spec fn spec_value_less(dtype: DataTypeKind, a: nat, b: nat) -> bool {
    match dtype {
        DataTypeKind::U64 | DataTypeKind::U32 | DataTypeKind::U8 | DataTypeKind::BOOL => a < b,
        DataTypeKind::I64 => spec_twos_complement(a, 8) < spec_twos_complement(b, 8),
        DataTypeKind::I32 => spec_twos_complement(a, 4) < spec_twos_complement(b, 4),
        DataTypeKind::I8 => spec_twos_complement(a, 1) < spec_twos_complement(b, 1),
        DataTypeKind::F64 => spec_ieee_less(
            a as int,
            b as int,
            0x10_0000_0000_0000,
            0x800,
            0x8000_0000_0000_0000,
        ),
        DataTypeKind::F32 => spec_ieee_less(a as int, b as int, 0x80_0000, 0x100, 0x8000_0000),
    }
}

/// The zone map orders signed integers as integers: of two `i64`, `i32` or
/// `i8` values, given by the unsigned numbers their bits spell, the one
/// that is smaller as an integer comes first; `-5` comes before `3`.
pub proof fn lemma_signed_values_in_integer_order(a64: i64, b64: i64, a32: i32, b32: i32, a8: i8, b8: i8)
    ensures
        spec_value_less(DataTypeKind::I64, (a64 as u64) as nat, (b64 as u64) as nat) <==> a64 < b64,
        spec_value_less(DataTypeKind::I32, (a32 as u32) as nat, (b32 as u32) as nat) <==> a32 < b32,
        spec_value_less(DataTypeKind::I8, (a8 as u8) as nat, (b8 as u8) as nat) <==> a8 < b8,
{
    lemma_i64_bits(a64);
    lemma_i64_bits(b64);
    lemma_i32_bits(a32);
    lemma_i32_bits(b32);
    lemma_i8_bits(a8);
    lemma_i8_bits(b8);
}

/// The zone map orders unsigned integers and booleans as numbers: of two
/// `u64`, `u32` or `u8` values the smaller comes first, and `false` before
/// `true`.
pub proof fn lemma_unsigned_values_in_integer_order(a64: u64, b64: u64, a32: u32, b32: u32, a8: u8, b8: u8)
    ensures
        spec_value_less(DataTypeKind::U64, a64 as nat, b64 as nat) <==> a64 < b64,
        spec_value_less(DataTypeKind::U32, a32 as nat, b32 as nat) <==> a32 < b32,
        spec_value_less(DataTypeKind::U8, a8 as nat, b8 as nat) <==> a8 < b8,
        spec_value_less(DataTypeKind::BOOL, 0, 1),
        !spec_value_less(DataTypeKind::BOOL, 1, 0),
{
}

/// The zone map orders `f32` values by IEEE comparison on their bit
/// patterns: a NaN (all exponent bits set, some fraction bit set) is
/// neither below nor above anything, the two zeros are not ordered, a
/// negative number (sign bit set, not zero) is below every non-negative
/// one, and among non-negative numbers the larger pattern is the larger
/// number.
pub proof fn lemma_f32_order(a: nat, b: nat)
    requires
        a < 0x1_0000_0000,
        b < 0x1_0000_0000,
    ensures
        ((a / 0x80_0000) % 0x100 == 0xff && a % 0x80_0000 != 0) ==> !spec_value_less(DataTypeKind::F32, a, b)
            && !spec_value_less(DataTypeKind::F32, b, a),
        !spec_value_less(DataTypeKind::F32, 0x8000_0000, 0) && !spec_value_less(DataTypeKind::F32, 0, 0x8000_0000),
        (0x8000_0000 < a && b < 0x7f80_0001 && !((a / 0x80_0000) % 0x100 == 0xff && a % 0x80_0000 != 0))
            ==> spec_value_less(DataTypeKind::F32, a, b),
        (a < b && b < 0x7f80_0001) ==> spec_value_less(DataTypeKind::F32, a, b),
{
}

/// The zone map orders `f64` values by IEEE comparison on their bit
/// patterns, as `lemma_f32_order` says for `f32` with the `f64` layout.
pub proof fn lemma_f64_order(a: nat, b: nat)
    requires
        a < 0x1_0000_0000_0000_0000,
        b < 0x1_0000_0000_0000_0000,
    ensures
        ((a / 0x10_0000_0000_0000) % 0x800 == 0x7ff && a % 0x10_0000_0000_0000 != 0) ==> !spec_value_less(
            DataTypeKind::F64,
            a,
            b,
        ) && !spec_value_less(DataTypeKind::F64, b, a),
        !spec_value_less(DataTypeKind::F64, 0x8000_0000_0000_0000, 0) && !spec_value_less(
            DataTypeKind::F64,
            0,
            0x8000_0000_0000_0000,
        ),
        (0x8000_0000_0000_0000 < a && b < 0x7ff0_0000_0000_0001 && !((a / 0x10_0000_0000_0000) % 0x800 == 0x7ff
            && a % 0x10_0000_0000_0000 != 0)) ==> spec_value_less(DataTypeKind::F64, a, b),
        (a < b && b < 0x7ff0_0000_0000_0001) ==> spec_value_less(DataTypeKind::F64, a, b),
{
}

/// The bits of an `i64` spell the number it is, plus 2^64 when negative.
proof fn lemma_i64_bits(x: i64)
    ensures
        spec_twos_complement((x as u64) as nat, 8) == x,
{
    assert(((x as u64) as int) == (if x < 0 { x + 0x1_0000_0000_0000_0000 } else { x as int })) by (bit_vector);
}

/// The bits of an `i32` spell the number it is, plus 2^32 when negative.
proof fn lemma_i32_bits(x: i32)
    ensures
        spec_twos_complement((x as u32) as nat, 4) == x,
{
    assert(((x as u32) as int) == (if x < 0 { x + 0x1_0000_0000 } else { x as int })) by (bit_vector);
}

/// The bits of an `i8` spell the number it is, plus 2^8 when negative.
proof fn lemma_i8_bits(x: i8)
    ensures
        spec_twos_complement((x as u8) as nat, 1) == x,
{
    assert(((x as u8) as int) == (if x < 0 { x + 0x100 } else { x as int })) by (bit_vector);
}

/// Width in bytes of the values of `dtype` that a zone map compares.
pub open spec fn spec_zone_width(dtype: DataTypeKind) -> nat {
    match dtype {
        DataTypeKind::U64 | DataTypeKind::I64 | DataTypeKind::F64 => 8,
        DataTypeKind::U32 | DataTypeKind::I32 | DataTypeKind::F32 => 4,
        DataTypeKind::U8 | DataTypeKind::I8 | DataTypeKind::BOOL => 1,
    }
}

/// `bytemuck::pod_read_unaligned::<u64>`: the `u64` whose native
/// representation is `bytes`; it panics unless there are exactly 8 bytes.
#[verifier::external_body]
fn read_u64(bytes: &[u8]) -> (value: u64)
    requires
        bytes@.len() == 8,
    ensures
        value == spec_native_value(bytes@),
{
    bytemuck::pod_read_unaligned::<u64>(bytes)
}

/// `bytemuck::pod_read_unaligned::<u32>`: the `u32` whose native
/// representation is `bytes`; it panics unless there are exactly 4 bytes.
#[verifier::external_body]
fn read_u32(bytes: &[u8]) -> (value: u32)
    requires
        bytes@.len() == 4,
    ensures
        value == spec_native_value(bytes@),
{
    bytemuck::pod_read_unaligned::<u32>(bytes)
}

/// `bytemuck::pod_read_unaligned::<u8>`: the single byte of `bytes`; it
/// panics unless there is exactly one.
#[verifier::external_body]
fn read_u8(bytes: &[u8]) -> (value: u8)
    requires
        bytes@.len() == 1,
    ensures
        value == spec_native_value(bytes@),
{
    bytemuck::pod_read_unaligned::<u8>(bytes)
}

/// `bytemuck::bytes_of` for a `u64`: its 8 bytes in native order.
#[verifier::external_body]
fn bytes_of_u64(value: &u64) -> (bytes: &[u8])
    ensures
        bytes@.len() == 8,
        spec_native_value(bytes@) == *value,
{
    bytemuck::bytes_of(value)
}

/// `bytemuck::bytes_of` for a `u32`: its 4 bytes in native order.
#[verifier::external_body]
fn bytes_of_u32(value: &u32) -> (bytes: &[u8])
    ensures
        bytes@.len() == 4,
        spec_native_value(bytes@) == *value,
{
    bytemuck::bytes_of(value)
}

/// `bytemuck::bytes_of` for a `u8`: the byte itself.
#[verifier::external_body]
fn bytes_of_u8(value: &u8) -> (bytes: &[u8])
    ensures
        bytes@.len() == 1,
        spec_native_value(bytes@) == *value,
{
    bytemuck::bytes_of(value)
}

/// Two's-complement order as unsigned order: `spec_twos_complement(a, w)`
/// shifted up by half the modulus.
fn signed_key(value: u64, half: u64) -> (key: u64)
    requires
        half == 0x8000_0000_0000_0000 || half == 0x8000_0000 || half == 0x80,
        value < 2 * half,
    ensures
        key == if value >= half { value - half } else { value + half },
{
    if value >= half {
        value - half
    } else {
        value + half
    }
}

/// IEEE 754 `a < b` on bit patterns; see `spec_ieee_less`.
fn ieee_less(a: u64, b: u64, fraction: u64, exponents: u64, magnitudes: u64) -> (less: bool)
    requires
        fraction > 0,
        exponents > 0,
        magnitudes > 0,
    ensures
        less == spec_ieee_less(a as int, b as int, fraction as int, exponents as int, magnitudes as int),
{
    let nan_a = (a / fraction) % exponents == exponents - 1 && a % fraction != 0;
    let nan_b = (b / fraction) % exponents == exponents - 1 && b % fraction != 0;
    let negative_a = a / magnitudes != 0;
    let negative_b = b / magnitudes != 0;
    let mag_a = a % magnitudes;
    let mag_b = b % magnitudes;
    if nan_a || nan_b {
        false
    } else if mag_a == 0 && mag_b == 0 {
        false
    } else if !negative_a && !negative_b {
        mag_a < mag_b
    } else if negative_a && negative_b {
        mag_b < mag_a
    } else {
        negative_a
    }
}

/// `a < b` for values of `dtype` given by the unsigned numbers their bytes
/// hold.
fn value_less(dtype: DataTypeKind, a: u64, b: u64) -> (less: bool)
    requires
        a < spec_zone_bound(dtype),
        b < spec_zone_bound(dtype),
    ensures
        less == spec_value_less(dtype, a as nat, b as nat),
{
    match dtype {
        DataTypeKind::U64 | DataTypeKind::U32 | DataTypeKind::U8 | DataTypeKind::BOOL => a < b,
        DataTypeKind::I64 => signed_key(a, 0x8000_0000_0000_0000) < signed_key(b, 0x8000_0000_0000_0000),
        DataTypeKind::I32 => signed_key(a, 0x8000_0000) < signed_key(b, 0x8000_0000),
        DataTypeKind::I8 => signed_key(a, 0x80) < signed_key(b, 0x80),
        DataTypeKind::F64 => ieee_less(a, b, 0x10_0000_0000_0000, 0x800, 0x8000_0000_0000_0000),
        DataTypeKind::F32 => ieee_less(a, b, 0x80_0000, 0x100, 0x8000_0000),
    }
}

/// Number of values of the zone width of `dtype`: 2 to its bits.
pub open spec fn spec_zone_bound(dtype: DataTypeKind) -> int {
    match dtype {
        DataTypeKind::U64 | DataTypeKind::I64 | DataTypeKind::F64 => 0x1_0000_0000_0000_0000,
        DataTypeKind::U32 | DataTypeKind::I32 | DataTypeKind::F32 => 0x1_0000_0000,
        DataTypeKind::U8 | DataTypeKind::I8 | DataTypeKind::BOOL => 0x100,
    }
}

/// The smallest and largest of zero and `values`, each read as a value of
/// `dtype`, folded in order as a zone map folds them: a value replaces the
/// minimum when it is below it and the maximum when it is above it.
pub open spec fn spec_zone_fold(dtype: DataTypeKind, values: Seq<Seq<u8>>) -> (nat, nat)
    decreases values.len(),
{
    if values.len() == 0 {
        (0, 0)
    } else {
        let (low, high) = spec_zone_fold(dtype, values.drop_last());
        let value = spec_prefix_value(values.last(), spec_zone_width(dtype));
        (
            if spec_value_less(dtype, value, low) { value } else { low },
            if spec_value_less(dtype, high, value) { value } else { high },
        )
    }
}

/// Zero bytes read as zero.
pub proof fn lemma_zero_bytes_value(width: nat)
    requires
        width <= 8,
    ensures
        spec_native_value(Seq::new(width, |i: int| 0u8)) == 0,
    decreases width,
{
    let zeros = Seq::new(width, |i: int| 0u8);
    lemma_le_zero(zeros);
    assert(zeros.reverse() =~= zeros);
}

/// Little-endian zero bytes read as zero.
proof fn lemma_le_zero(bytes: Seq<u8>)
    requires
        forall|i: int| 0 <= i < bytes.len() ==> bytes[i] == 0,
    ensures
        spec_le_value(bytes) == 0,
    decreases bytes.len(),
{
    if bytes.len() > 0 {
        lemma_le_zero(bytes.drop_first());
    }
}

/// A fresh zone map holds the fold of no values.
pub proof fn lemma_new_zone_folds_nothing(zone_map: ZoneMap, dtype: DataTypeKind)
    requires
        zone_map.spec_min() == Seq::new(8, |i: int| 0u8),
        zone_map.spec_max() == Seq::new(8, |i: int| 0u8),
    ensures
        spec_prefix_value(zone_map.spec_min(), spec_zone_width(dtype)) == spec_zone_fold(
            dtype,
            Seq::<Seq<u8>>::empty(),
        ).0,
        spec_prefix_value(zone_map.spec_max(), spec_zone_width(dtype)) == spec_zone_fold(
            dtype,
            Seq::<Seq<u8>>::empty(),
        ).1,
{
    let width = spec_zone_width(dtype);
    lemma_zero_bytes_value(width);
    assert(zone_map.spec_min().subrange(0, width as int) =~= Seq::new(width, |i: int| 0u8));
    assert(zone_map.spec_max().subrange(0, width as int) =~= Seq::new(width, |i: int| 0u8));
}

/// A zone map that holds the fold of `values` and is updated with `bytes`
/// holds the fold of `values` followed by `bytes`.
pub proof fn lemma_zone_update_folds(before: ZoneMap, after: ZoneMap, values: Seq<Seq<u8>>, bytes: Seq<u8>, dtype: DataTypeKind)
    requires
        spec_zone_updated(before, after, bytes, dtype),
        spec_prefix_value(before.spec_min(), spec_zone_width(dtype)) == spec_zone_fold(dtype, values).0,
        spec_prefix_value(before.spec_max(), spec_zone_width(dtype)) == spec_zone_fold(dtype, values).1,
    ensures
        spec_prefix_value(after.spec_min(), spec_zone_width(dtype)) == spec_zone_fold(dtype, values.push(bytes)).0,
        spec_prefix_value(after.spec_max(), spec_zone_width(dtype)) == spec_zone_fold(dtype, values.push(bytes)).1,
{
    assert(values.push(bytes).drop_last() =~= values);
}

/// For integer and boolean columns, the fold of a zone map is the smallest
/// and the largest of zero and the values: no value is below the minimum or
/// above the maximum, and each bound is zero or one of the values.
pub proof fn lemma_zone_fold_bounds(dtype: DataTypeKind, values: Seq<Seq<u8>>)
    requires
        !(dtype is F32 || dtype is F64),
    ensures
        ({
            let (low, high) = spec_zone_fold(dtype, values);
            let width = spec_zone_width(dtype);
            &&& forall|i: int|
                0 <= i < values.len() ==> !spec_value_less(dtype, spec_prefix_value(#[trigger] values[i], width), low)
                    && !spec_value_less(dtype, high, spec_prefix_value(values[i], width))
            &&& !spec_value_less(dtype, 0, low) && !spec_value_less(dtype, high, 0)
            &&& low == 0 || exists|i: int| 0 <= i < values.len() && spec_prefix_value(#[trigger] values[i], width) == low
            &&& high == 0 || exists|i: int| 0 <= i < values.len() && spec_prefix_value(#[trigger] values[i], width) == high
        }),
    decreases values.len(),
{
    if values.len() > 0 {
        let rest = values.drop_last();
        lemma_zone_fold_bounds(dtype, rest);
        let width = spec_zone_width(dtype);
        let (low, high) = spec_zone_fold(dtype, rest);
        let value = spec_prefix_value(values.last(), width);
        assert forall|i: int| 0 <= i < values.len() implies !spec_value_less(
            dtype,
            spec_prefix_value(#[trigger] values[i], width),
            spec_zone_fold(dtype, values).0,
        ) && !spec_value_less(dtype, spec_zone_fold(dtype, values).1, spec_prefix_value(values[i], width)) by {
            if i < rest.len() {
                assert(values[i] == rest[i]);
            }
        }
        if low != 0 && spec_zone_fold(dtype, values).0 == low {
            let k = choose|k: int| 0 <= k < rest.len() && spec_prefix_value(#[trigger] rest[k], width) == low;
            assert(values[k] == rest[k]);
        }
        if high != 0 && spec_zone_fold(dtype, values).1 == high {
            let k = choose|k: int| 0 <= k < rest.len() && spec_prefix_value(#[trigger] rest[k], width) == high;
            assert(values[k] == rest[k]);
        }
        assert(values[values.len() - 1] == values.last());
    }
}

/// Minimum and maximum seen of a fixed-width column, each kept as up to
/// eight raw bytes; both start as zero bytes.
#[derive(Debug)]
pub struct ZoneMap {
    min_bytes: [u8; 8],
    max_bytes: [u8; 8],
}

/// The first `width` bytes of `bytes`, read as an unsigned number.
pub open spec fn spec_prefix_value(bytes: Seq<u8>, width: nat) -> nat {
    spec_native_value(bytes.subrange(0, width as int))
}

/// `after` is `before` with one value of type `dtype`, given by the leading
/// bytes of `bytes`, folded in: a value above the maximum replaces it, one
/// below the minimum replaces it, compared in the type's own order over the
/// type's width, and the bytes past that width stay as they were.
pub open spec fn spec_zone_updated(before: ZoneMap, after: ZoneMap, bytes: Seq<u8>, dtype: DataTypeKind) -> bool {
    let width = spec_zone_width(dtype);
    let value = spec_prefix_value(bytes, width);
    let old_min = spec_prefix_value(before.spec_min(), width);
    let old_max = spec_prefix_value(before.spec_max(), width);
    &&& after.spec_min().len() == 8
    &&& after.spec_max().len() == 8
    &&& spec_prefix_value(after.spec_max(), width) == if spec_value_less(dtype, old_max, value) {
        value
    } else {
        old_max
    }
    &&& spec_prefix_value(after.spec_min(), width) == if spec_value_less(dtype, value, old_min) {
        value
    } else {
        old_min
    }
    &&& after.spec_max().subrange(width as int, 8) == before.spec_max().subrange(width as int, 8)
    &&& after.spec_min().subrange(width as int, 8) == before.spec_min().subrange(width as int, 8)
}

impl ZoneMap {
    /// The bytes of the smallest value seen.
    pub closed spec fn spec_min(&self) -> Seq<u8> {
        self.min_bytes@
    }

    /// The bytes of the largest value seen.
    pub closed spec fn spec_max(&self) -> Seq<u8> {
        self.max_bytes@
    }

    pub fn new() -> (zone_map: Self)
        ensures
            zone_map.spec_min() == Seq::new(8, |i: int| 0u8),
            zone_map.spec_max() == Seq::new(8, |i: int| 0u8),
    {
        let zone_map = Self { min_bytes: [0; 8], max_bytes: [0; 8] };
        assert(zone_map.min_bytes@ =~= Seq::new(8, |i: int| 0u8));
        assert(zone_map.max_bytes@ =~= Seq::new(8, |i: int| 0u8));
        zone_map
    }

    pub fn get_max(&self) -> (bytes: [u8; 8])
        ensures
            bytes@ == self.spec_max(),
    {
        self.max_bytes
    }

    pub fn get_min(&self) -> (bytes: [u8; 8])
        ensures
            bytes@ == self.spec_min(),
    {
        self.min_bytes
    }

    /// Folds one value of type `dtype`, given by its leading bytes, into the
    /// minimum and maximum.
    pub fn update(&mut self, bytes: &[u8], dtype: DataTypeKind)
        requires
            bytes@.len() >= spec_zone_width(dtype),
        ensures
            spec_zone_updated(*old(self), *final(self), bytes@, dtype),
    {
        match dtype {
            DataTypeKind::U64 | DataTypeKind::I64 | DataTypeKind::F64 => {
                self.compare_bytes(vstd::slice::slice_subrange(bytes, 0, 8), dtype, 8)
            },
            DataTypeKind::U32 | DataTypeKind::I32 | DataTypeKind::F32 => {
                self.compare_bytes(vstd::slice::slice_subrange(bytes, 0, 4), dtype, 4)
            },
            DataTypeKind::U8 | DataTypeKind::I8 | DataTypeKind::BOOL => {
                self.compare_bytes(vstd::slice::slice_subrange(bytes, 0, 1), dtype, 1)
            },
        }
    }

    /// Reads `size` bytes in native order as an unsigned number.
    fn read(bytes: &[u8], size: usize) -> (value: u64)
        requires
            size == 8 || size == 4 || size == 1,
            bytes@.len() == size,
        ensures
            value == spec_native_value(bytes@),
            size == 4 ==> value < 0x1_0000_0000,
            size == 1 ==> value < 0x100,
    {
        if size == 8 {
            read_u64(bytes)
        } else if size == 4 {
            read_u32(bytes) as u64
        } else {
            read_u8(bytes) as u64
        }
    }

    /// Overwrites the first `size` bytes of `target` with the native bytes
    /// of `value`.
    fn store(target: &mut [u8; 8], value: u64, size: usize)
        requires
            size == 8 || size == 4 || size == 1,
            size == 4 ==> value < 0x1_0000_0000,
            size == 1 ==> value < 0x100,
        ensures
            spec_native_value(final(target)@.subrange(0, size as int)) == value,
            final(target)@.subrange(size as int, 8) == old(target)@.subrange(size as int, 8),
    {
        let narrow32: u32 = if size == 4 { value as u32 } else { 0 };
        let narrow8: u8 = if size == 1 { value as u8 } else { 0 };
        let bytes = if size == 8 {
            bytes_of_u64(&value)
        } else if size == 4 {
            bytes_of_u32(&narrow32)
        } else {
            bytes_of_u8(&narrow8)
        };
        let mut i: usize = 0;
        while i < size
            invariant
                0 <= i <= size,
                bytes@.len() == size,
                size <= 8,
                target@.len() == 8,
                forall|k: int| 0 <= k < i ==> target@[k] == bytes@[k],
                forall|k: int| size <= k < 8 ==> target@[k] == old(target)@[k],
            decreases size - i,
        {
            target[i] = bytes[i];
            i = i + 1;
        }
        assert(target@.subrange(0, size as int) =~= bytes@);
        assert(target@.subrange(size as int, 8) =~= old(target)@.subrange(size as int, 8));
    }

    /// Folds one value of `size` bytes into the minimum and maximum.
    fn compare_bytes(&mut self, bytes: &[u8], dtype: DataTypeKind, size: usize)
        requires
            size == spec_zone_width(dtype),
            bytes@.len() == size,
        ensures
            ({
                let width = size as nat;
                let value = spec_native_value(bytes@);
                let old_min = spec_prefix_value(old(self).spec_min(), width);
                let old_max = spec_prefix_value(old(self).spec_max(), width);
                &&& final(self).spec_min().len() == 8
                &&& final(self).spec_max().len() == 8
                &&& spec_prefix_value(final(self).spec_max(), width) == if spec_value_less(dtype, old_max, value) {
                    value
                } else {
                    old_max
                }
                &&& spec_prefix_value(final(self).spec_min(), width) == if spec_value_less(dtype, value, old_min) {
                    value
                } else {
                    old_min
                }
                &&& final(self).spec_max().subrange(width as int, 8) == old(self).spec_max().subrange(width as int, 8)
                &&& final(self).spec_min().subrange(width as int, 8) == old(self).spec_min().subrange(width as int, 8)
            }),
    {
        let new = Self::read(bytes, size);
        let cur_min = Self::read(vstd::slice::slice_subrange(self.min_bytes.as_slice(), 0, size), size);
        let cur_max = Self::read(vstd::slice::slice_subrange(self.max_bytes.as_slice(), 0, size), size);
        if value_less(dtype, cur_max, new) {
            Self::store(&mut self.max_bytes, new, size);
        }
        if value_less(dtype, new, cur_min) {
            Self::store(&mut self.min_bytes, new, size);
        }
    }
}

impl Default for ZoneMap {
    fn default() -> (zone_map: Self)
        ensures
            zone_map.spec_min() == Seq::new(8, |i: int| 0u8),
            zone_map.spec_max() == Seq::new(8, |i: int| 0u8),
    {
        Self::new()
    }
}

} // verus!
