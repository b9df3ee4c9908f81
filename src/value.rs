use vstd::prelude::*;
use vstd::bytes::{
    spec_u16_from_le_bytes, spec_u16_to_le_bytes, spec_u32_from_le_bytes, spec_u32_to_le_bytes,
    spec_u64_from_le_bytes, spec_u64_to_le_bytes, u16_from_le_bytes, u16_to_le_bytes,
    u32_from_le_bytes, u32_to_le_bytes, u64_from_le_bytes, u64_to_le_bytes,
    lemma_auto_spec_u16_to_from_le_bytes, lemma_auto_spec_u32_to_from_le_bytes,
    lemma_auto_spec_u64_to_from_le_bytes,
};
use crate::byteseq::{bytes_equal, copy_range};
use crate::numeric::{
    Number, exp_in_range, f64_number, f32_number, int_number, num_le, num_lt, number_from_f32_bits,
    number_from_f64_bits, number_from_i64, number_from_u64, number_le, number_lt,
};

verus! {

/// Supported value types for memory scanning.
#[derive(Clone, Copy, Debug, PartialEq, Eq, Structural)]
pub enum ValueType {
    I8,
    I16,
    I32,
    I64,
    U8,
    U16,
    U32,
    U64,
    F32,
    F64,
    ByteArray(usize),
}

impl ValueType {
    /// Size in bytes of a value of this type.
    pub open spec fn spec_size(self) -> nat {
        match self {
            ValueType::I8 | ValueType::U8 => 1,
            ValueType::I16 | ValueType::U16 => 2,
            ValueType::I32 | ValueType::U32 | ValueType::F32 => 4,
            ValueType::I64 | ValueType::U64 | ValueType::F64 => 8,
            ValueType::ByteArray(n) => n as nat,
        }
    }

    /// Natural alignment of this type: its size for primitives, 1 for byte arrays.
    pub open spec fn spec_alignment(self) -> nat {
        match self {
            ValueType::ByteArray(_) => 1,
            _ => self.spec_size(),
        }
    }

    /// Returns the size in bytes of this value type.
    pub fn size(&self) -> (r: usize)
        ensures
            r as nat == self.spec_size(),
    {
        match self {
            ValueType::I8 | ValueType::U8 => 1,
            ValueType::I16 | ValueType::U16 => 2,
            ValueType::I32 | ValueType::U32 | ValueType::F32 => 4,
            ValueType::I64 | ValueType::U64 | ValueType::F64 => 8,
            ValueType::ByteArray(size) => *size,
        }
    }

    /// Returns the alignment requirement for this value type.
    pub fn alignment(&self) -> (r: usize)
        ensures
            r as nat == self.spec_alignment(),
            r >= 1,
    {
        match self {
            ValueType::I8 | ValueType::U8 | ValueType::ByteArray(_) => 1,
            ValueType::I16 | ValueType::U16 => 2,
            ValueType::I32 | ValueType::U32 | ValueType::F32 => 4,
            ValueType::I64 | ValueType::U64 | ValueType::F64 => 8,
        }
    }

    /// Human-readable name of this value type.
    pub open spec fn spec_display_name(self) -> Seq<char> {
        match self {
            ValueType::I8 => "Int8"@,
            ValueType::I16 => "Int16"@,
            ValueType::I32 => "Int32"@,
            ValueType::I64 => "Int64"@,
            ValueType::U8 => "UInt8"@,
            ValueType::U16 => "UInt16"@,
            ValueType::U32 => "UInt32"@,
            ValueType::U64 => "UInt64"@,
            ValueType::F32 => "Float"@,
            ValueType::F64 => "Double"@,
            ValueType::ByteArray(_) => "Byte Array"@,
        }
    }

    /// Returns a human-readable name for this value type.
    pub fn display_name(&self) -> (r: &'static str)
        ensures
            r@ == self.spec_display_name(),
    {
        match self {
            ValueType::I8 => "Int8",
            ValueType::I16 => "Int16",
            ValueType::I32 => "Int32",
            ValueType::I64 => "Int64",
            ValueType::U8 => "UInt8",
            ValueType::U16 => "UInt16",
            ValueType::U32 => "UInt32",
            ValueType::U64 => "UInt64",
            ValueType::F32 => "Float",
            ValueType::F64 => "Double",
            ValueType::ByteArray(_) => "Byte Array",
        }
    }
}

/// A value to scan for. Floating-point values are held as their IEEE-754
/// bit patterns, so that equality is bit-exact.
#[derive(Clone, Debug)]
pub enum ScanValue {
    I8(i8),
    I16(i16),
    I32(i32),
    I64(i64),
    U8(u8),
    U16(u16),
    U32(u32),
    U64(u64),
    F32(u32),
    F64(u64),
    ByteArray(Vec<u8>),
}

impl ScanValue {
    /// The type of this value.
    pub open spec fn spec_value_type(self) -> ValueType {
        match self {
            ScanValue::I8(_) => ValueType::I8,
            ScanValue::I16(_) => ValueType::I16,
            ScanValue::I32(_) => ValueType::I32,
            ScanValue::I64(_) => ValueType::I64,
            ScanValue::U8(_) => ValueType::U8,
            ScanValue::U16(_) => ValueType::U16,
            ScanValue::U32(_) => ValueType::U32,
            ScanValue::U64(_) => ValueType::U64,
            ScanValue::F32(_) => ValueType::F32,
            ScanValue::F64(_) => ValueType::F64,
            ScanValue::ByteArray(v) => ValueType::ByteArray(v@.len() as usize),
        }
    }

    /// The little-endian encoding of this value.
    pub open spec fn spec_bytes(self) -> Seq<u8> {
        match self {
            ScanValue::I8(v) => seq![v as u8],
            ScanValue::I16(v) => spec_u16_to_le_bytes(v as u16),
            ScanValue::I32(v) => spec_u32_to_le_bytes(v as u32),
            ScanValue::I64(v) => spec_u64_to_le_bytes(v as u64),
            ScanValue::U8(v) => seq![v],
            ScanValue::U16(v) => spec_u16_to_le_bytes(v),
            ScanValue::U32(v) => spec_u32_to_le_bytes(v),
            ScanValue::U64(v) => spec_u64_to_le_bytes(v),
            ScanValue::F32(v) => spec_u32_to_le_bytes(v),
            ScanValue::F64(v) => spec_u64_to_le_bytes(v),
            ScanValue::ByteArray(v) => v@,
        }
    }

    /// Tagged, bit-exact equality; byte arrays compare by length and content.
    pub open spec fn same(self, other: ScanValue) -> bool {
        match (self, other) {
            (ScanValue::I8(a), ScanValue::I8(b)) => a == b,
            (ScanValue::I16(a), ScanValue::I16(b)) => a == b,
            (ScanValue::I32(a), ScanValue::I32(b)) => a == b,
            (ScanValue::I64(a), ScanValue::I64(b)) => a == b,
            (ScanValue::U8(a), ScanValue::U8(b)) => a == b,
            (ScanValue::U16(a), ScanValue::U16(b)) => a == b,
            (ScanValue::U32(a), ScanValue::U32(b)) => a == b,
            (ScanValue::U64(a), ScanValue::U64(b)) => a == b,
            (ScanValue::F32(a), ScanValue::F32(b)) => a == b,
            (ScanValue::F64(a), ScanValue::F64(b)) => a == b,
            (ScanValue::ByteArray(a), ScanValue::ByteArray(b)) => a@ == b@,
            _ => false,
        }
    }

    /// The value converted to binary64, as values are ordered; a byte array
    /// counts as zero.
    pub open spec fn number(self) -> Number {
        match self {
            ScanValue::I8(v) => int_number(v as int),
            ScanValue::I16(v) => int_number(v as int),
            ScanValue::I32(v) => int_number(v as int),
            ScanValue::I64(v) => int_number(v as int),
            ScanValue::U8(v) => int_number(v as int),
            ScanValue::U16(v) => int_number(v as int),
            ScanValue::U32(v) => int_number(v as int),
            ScanValue::U64(v) => int_number(v as int),
            ScanValue::F32(b) => f32_number(b),
            ScanValue::F64(b) => f64_number(b),
            ScanValue::ByteArray(_) => int_number(0),
        }
    }

    /// Whether this value satisfies `scan_type` against the reference `other`.
    /// Exact is tagged equality; the ordered predicates compare both values
    /// converted to binary64 (NaN never matches); Between is closed at both
    /// ends and ignores `other`. The history predicates never match here.
    pub open spec fn spec_compare(self, other: ScanValue, scan_type: ScanType) -> bool {
        match scan_type {
            ScanType::Exact => self.same(other),
            ScanType::GreaterThan => num_lt(other.number(), self.number()),
            ScanType::LessThan => num_lt(self.number(), other.number()),
            ScanType::Between(lo, hi) => num_le(f64_number(lo), self.number()) && num_le(
                self.number(),
                f64_number(hi),
            ),
            _ => false,
        }
    }

    /// Converts the value to a byte array (little-endian).
    pub fn to_bytes(&self) -> (r: Vec<u8>)
        ensures
            r@ == self.spec_bytes(),
            r@.len() == self.spec_value_type().spec_size(),
    {
        proof {
            lemma_auto_spec_u16_to_from_le_bytes();
            lemma_auto_spec_u32_to_from_le_bytes();
            lemma_auto_spec_u64_to_from_le_bytes();
        }
        match self {
            ScanValue::I8(v) => vec![*v as u8],
            ScanValue::I16(v) => u16_to_le_bytes(*v as u16),
            ScanValue::I32(v) => u32_to_le_bytes(*v as u32),
            ScanValue::I64(v) => u64_to_le_bytes(*v as u64),
            ScanValue::U8(v) => vec![*v],
            ScanValue::U16(v) => u16_to_le_bytes(*v),
            ScanValue::U32(v) => u32_to_le_bytes(*v),
            ScanValue::U64(v) => u64_to_le_bytes(*v),
            ScanValue::F32(v) => u32_to_le_bytes(*v),
            ScanValue::F64(v) => u64_to_le_bytes(*v),
            ScanValue::ByteArray(v) => copy_range(v.as_slice(), 0, v.len()),
        }
    }

    /// Creates a value of `value_type` from the first bytes of `bytes`
    /// (little-endian); nothing when `bytes` is shorter than the type's size.
    pub fn from_bytes(bytes: &[u8], value_type: ValueType) -> (r: Option<ScanValue>)
        ensures
            r is Some <==> bytes@.len() >= value_type.spec_size(),
            r is Some ==> r->0.spec_value_type() == value_type,
            r is Some ==> r->0.spec_bytes() == bytes@.subrange(
                0,
                value_type.spec_size() as int,
            ),
    {
        proof {
            lemma_auto_spec_u16_to_from_le_bytes();
            lemma_auto_spec_u32_to_from_le_bytes();
            lemma_auto_spec_u64_to_from_le_bytes();
        }
        let size = value_type.size();
        if bytes.len() < size {
            return None;
        }
        let head = copy_range(bytes, 0, size);
        let ghost s = head@;
        let r = match value_type {
            ValueType::I8 => {
                let b = head[0];
                assert(((b as i8) as u8) == b) by (bit_vector);
                assert(seq![(b as i8) as u8] =~= s);
                ScanValue::I8(b as i8)
            },
            ValueType::I16 => {
                let x = u16_from_le_bytes(head.as_slice());
                assert(((x as i16) as u16) == x) by (bit_vector);
                ScanValue::I16(x as i16)
            },
            ValueType::I32 => {
                let x = u32_from_le_bytes(head.as_slice());
                assert(((x as i32) as u32) == x) by (bit_vector);
                ScanValue::I32(x as i32)
            },
            ValueType::I64 => {
                let x = u64_from_le_bytes(head.as_slice());
                assert(((x as i64) as u64) == x) by (bit_vector);
                ScanValue::I64(x as i64)
            },
            ValueType::U8 => {
                assert(seq![head@[0]] =~= s);
                ScanValue::U8(head[0])
            },
            ValueType::U16 => ScanValue::U16(u16_from_le_bytes(head.as_slice())),
            ValueType::U32 => ScanValue::U32(u32_from_le_bytes(head.as_slice())),
            ValueType::U64 => ScanValue::U64(u64_from_le_bytes(head.as_slice())),
            ValueType::F32 => ScanValue::F32(u32_from_le_bytes(head.as_slice())),
            ValueType::F64 => ScanValue::F64(u64_from_le_bytes(head.as_slice())),
            ValueType::ByteArray(_) => ScanValue::ByteArray(head),
        };
        Some(r)
    }

    /// Returns the value type of this value.
    pub fn value_type(&self) -> (r: ValueType)
        ensures
            r == self.spec_value_type(),
    {
        match self {
            ScanValue::I8(_) => ValueType::I8,
            ScanValue::I16(_) => ValueType::I16,
            ScanValue::I32(_) => ValueType::I32,
            ScanValue::I64(_) => ValueType::I64,
            ScanValue::U8(_) => ValueType::U8,
            ScanValue::U16(_) => ValueType::U16,
            ScanValue::U32(_) => ValueType::U32,
            ScanValue::U64(_) => ValueType::U64,
            ScanValue::F32(_) => ValueType::F32,
            ScanValue::F64(_) => ValueType::F64,
            ScanValue::ByteArray(v) => ValueType::ByteArray(v.len()),
        }
    }

    /// The number this value denotes when values are ordered.
    pub fn as_number(&self) -> (r: Number)
        ensures
            r == self.number(),
            exp_in_range(r),
    {
        match self {
            ScanValue::I8(v) => number_from_i64(*v as i64),
            ScanValue::I16(v) => number_from_i64(*v as i64),
            ScanValue::I32(v) => number_from_i64(*v as i64),
            ScanValue::I64(v) => number_from_i64(*v),
            ScanValue::U8(v) => number_from_u64(*v as u64),
            ScanValue::U16(v) => number_from_u64(*v as u64),
            ScanValue::U32(v) => number_from_u64(*v as u64),
            ScanValue::U64(v) => number_from_u64(*v),
            ScanValue::F32(b) => number_from_f32_bits(*b),
            ScanValue::F64(b) => number_from_f64_bits(*b),
            ScanValue::ByteArray(_) => number_from_u64(0),
        }
    }

    /// Tagged, bit-exact equality.
    pub fn same_as(&self, other: &ScanValue) -> (r: bool)
        ensures
            r == self.same(*other),
    {
        match (self, other) {
            (ScanValue::I8(a), ScanValue::I8(b)) => *a == *b,
            (ScanValue::I16(a), ScanValue::I16(b)) => *a == *b,
            (ScanValue::I32(a), ScanValue::I32(b)) => *a == *b,
            (ScanValue::I64(a), ScanValue::I64(b)) => *a == *b,
            (ScanValue::U8(a), ScanValue::U8(b)) => *a == *b,
            (ScanValue::U16(a), ScanValue::U16(b)) => *a == *b,
            (ScanValue::U32(a), ScanValue::U32(b)) => *a == *b,
            (ScanValue::U64(a), ScanValue::U64(b)) => *a == *b,
            (ScanValue::F32(a), ScanValue::F32(b)) => *a == *b,
            (ScanValue::F64(a), ScanValue::F64(b)) => *a == *b,
            (ScanValue::ByteArray(a), ScanValue::ByteArray(b)) => bytes_equal(
                a.as_slice(),
                b.as_slice(),
            ),
            _ => false,
        }
    }

    /// Compares this value with `other` using the given scan type.
    pub fn compare(&self, other: &ScanValue, scan_type: ScanType) -> (r: bool)
        ensures
            r == self.spec_compare(*other, scan_type),
    {
        match scan_type {
            ScanType::Exact => self.same_as(other),
            ScanType::GreaterThan => number_lt(other.as_number(), self.as_number()),
            ScanType::LessThan => number_lt(self.as_number(), other.as_number()),
            ScanType::Between(lo, hi) => {
                let n = self.as_number();
                number_le(number_from_f64_bits(lo), n) && number_le(n, number_from_f64_bits(hi))
            },
            _ => false,
        }
    }
}

impl PartialEq for ScanValue {
    fn eq(&self, other: &ScanValue) -> (r: bool) {
        self.same_as(other)
    }
}

impl vstd::std_specs::cmp::PartialEqSpecImpl for ScanValue {
    open spec fn obeys_eq_spec() -> bool {
        true
    }

    open spec fn eq_spec(&self, other: &ScanValue) -> bool {
        self.same(*other)
    }
}

/// Kinds of scan. Between's bounds are IEEE-754 binary64 bit patterns.
#[derive(Clone, Copy, Debug, PartialEq, Eq, Structural)]
pub enum ScanType {
    Exact,
    GreaterThan,
    LessThan,
    Between(u64, u64),
    Unknown,
    Increased,
    Decreased,
    Changed,
    Unchanged,
}

impl ScanType {
    /// Whether this scan type compares against a caller-supplied value.
    pub open spec fn spec_requires_value(self) -> bool {
        match self {
            ScanType::Exact | ScanType::GreaterThan | ScanType::LessThan | ScanType::Between(
                _,
                _,
            ) => true,
            _ => false,
        }
    }

    /// Whether this scan type compares against a remembered previous value.
    pub open spec fn spec_is_next_scan_only(self) -> bool {
        match self {
            ScanType::Increased | ScanType::Decreased | ScanType::Changed
            | ScanType::Unchanged => true,
            _ => false,
        }
    }

    /// Human-readable name of this scan type.
    pub open spec fn spec_display_name(self) -> Seq<char> {
        match self {
            ScanType::Exact => "Exact Value"@,
            ScanType::GreaterThan => "Greater Than"@,
            ScanType::LessThan => "Less Than"@,
            ScanType::Between(_, _) => "Between"@,
            ScanType::Unknown => "Unknown Initial Value"@,
            ScanType::Increased => "Increased"@,
            ScanType::Decreased => "Decreased"@,
            ScanType::Changed => "Changed"@,
            ScanType::Unchanged => "Unchanged"@,
        }
    }

    /// Returns a human-readable name for this scan type.
    pub fn display_name(&self) -> (r: &'static str)
        ensures
            r@ == self.spec_display_name(),
    {
        match self {
            ScanType::Exact => "Exact Value",
            ScanType::GreaterThan => "Greater Than",
            ScanType::LessThan => "Less Than",
            ScanType::Between(_, _) => "Between",
            ScanType::Unknown => "Unknown Initial Value",
            ScanType::Increased => "Increased",
            ScanType::Decreased => "Decreased",
            ScanType::Changed => "Changed",
            ScanType::Unchanged => "Unchanged",
        }
    }

    /// Returns true if this scan type requires a value input.
    pub fn requires_value(&self) -> (r: bool)
        ensures
            r == self.spec_requires_value(),
    {
        match self {
            ScanType::Exact | ScanType::GreaterThan | ScanType::LessThan | ScanType::Between(
                _,
                _,
            ) => true,
            _ => false,
        }
    }

    /// Returns true if this scan type can only be used on a next scan.
    pub fn is_next_scan_only(&self) -> (r: bool)
        ensures
            r == self.spec_is_next_scan_only(),
    {
        match self {
            ScanType::Increased | ScanType::Decreased | ScanType::Changed
            | ScanType::Unchanged => true,
            _ => false,
        }
    }
}

/// Decoding the encoding of a value as its own type gives the value back
/// (under tagged equality), for every value.
pub proof fn lemma_from_to_bytes(v: ScanValue, w: ScanValue)
    requires
        w.spec_value_type() == v.spec_value_type(),
        w.spec_bytes() == v.spec_bytes(),
    ensures
        w.same(v),
{
    lemma_auto_spec_u16_to_from_le_bytes();
    lemma_auto_spec_u32_to_from_le_bytes();
    lemma_auto_spec_u64_to_from_le_bytes();
    match (v, w) {
        (ScanValue::I8(a), ScanValue::I8(b)) => {
            assert(seq![a as u8][0] == seq![b as u8][0]);
            assert((a as u8) == (b as u8) ==> a == b) by (bit_vector);
        },
        (ScanValue::I16(a), ScanValue::I16(b)) => {
            assert((a as u16) == (b as u16) ==> a == b) by (bit_vector);
            assert(spec_u16_to_le_bytes(a as u16).len() == 2);
            assert(spec_u16_from_le_bytes(spec_u16_to_le_bytes(a as u16)) == a as u16);
            assert(spec_u16_to_le_bytes(b as u16).len() == 2);
            assert(spec_u16_from_le_bytes(spec_u16_to_le_bytes(b as u16)) == b as u16);
        },
        (ScanValue::I32(a), ScanValue::I32(b)) => {
            assert((a as u32) == (b as u32) ==> a == b) by (bit_vector);
            assert(spec_u32_to_le_bytes(a as u32).len() == 4);
            assert(spec_u32_from_le_bytes(spec_u32_to_le_bytes(a as u32)) == a as u32);
            assert(spec_u32_to_le_bytes(b as u32).len() == 4);
            assert(spec_u32_from_le_bytes(spec_u32_to_le_bytes(b as u32)) == b as u32);
        },
        (ScanValue::I64(a), ScanValue::I64(b)) => {
            assert((a as u64) == (b as u64) ==> a == b) by (bit_vector);
            assert(spec_u64_to_le_bytes(a as u64).len() == 8);
            assert(spec_u64_from_le_bytes(spec_u64_to_le_bytes(a as u64)) == a as u64);
            assert(spec_u64_to_le_bytes(b as u64).len() == 8);
            assert(spec_u64_from_le_bytes(spec_u64_to_le_bytes(b as u64)) == b as u64);
        },
        (ScanValue::U8(a), ScanValue::U8(b)) => {
            assert(seq![a][0] == seq![b][0]);
        },
        (ScanValue::U16(a), ScanValue::U16(b)) => {
            assert(spec_u16_to_le_bytes(a).len() == 2);
            assert(spec_u16_from_le_bytes(spec_u16_to_le_bytes(a)) == a);
            assert(spec_u16_to_le_bytes(b).len() == 2);
            assert(spec_u16_from_le_bytes(spec_u16_to_le_bytes(b)) == b);
        },
        (ScanValue::U32(a), ScanValue::U32(b)) => {
            assert(spec_u32_to_le_bytes(a).len() == 4);
            assert(spec_u32_from_le_bytes(spec_u32_to_le_bytes(a)) == a);
            assert(spec_u32_to_le_bytes(b).len() == 4);
            assert(spec_u32_from_le_bytes(spec_u32_to_le_bytes(b)) == b);
        },
        (ScanValue::U64(a), ScanValue::U64(b)) => {
            assert(spec_u64_to_le_bytes(a).len() == 8);
            assert(spec_u64_from_le_bytes(spec_u64_to_le_bytes(a)) == a);
            assert(spec_u64_to_le_bytes(b).len() == 8);
            assert(spec_u64_from_le_bytes(spec_u64_to_le_bytes(b)) == b);
        },
        (ScanValue::F32(a), ScanValue::F32(b)) => {
            assert(spec_u32_to_le_bytes(a).len() == 4);
            assert(spec_u32_from_le_bytes(spec_u32_to_le_bytes(a)) == a);
            assert(spec_u32_to_le_bytes(b).len() == 4);
            assert(spec_u32_from_le_bytes(spec_u32_to_le_bytes(b)) == b);
        },
        (ScanValue::F64(a), ScanValue::F64(b)) => {
            assert(spec_u64_to_le_bytes(a).len() == 8);
            assert(spec_u64_from_le_bytes(spec_u64_to_le_bytes(a)) == a);
            assert(spec_u64_to_le_bytes(b).len() == 8);
            assert(spec_u64_from_le_bytes(spec_u64_to_le_bytes(b)) == b);
        },
        _ => {},
    }
}

/// Round trip through bytes. `w` stands for `from_bytes(to_bytes(v),
/// type(v))` and `u` for `from_bytes(bs, t)`: the requirements are what the
/// contracts of `to_bytes` and `from_bytes` give for them. Then `w` is `v`
/// (for every value, byte arrays included), and `to_bytes(u)` is the first
/// `size(t)` bytes of `bs`.
pub proof fn lemma_round_trip(v: ScanValue, bs: Seq<u8>, t: ValueType, w: ScanValue, u: ScanValue)
    requires
        w.spec_value_type() == v.spec_value_type(),
        w.spec_bytes() == v.spec_bytes(),
        bs.len() >= t.spec_size(),
        u.spec_value_type() == t,
        u.spec_bytes() == bs.subrange(0, t.spec_size() as int),
    ensures
        w.same(v),
        u.spec_bytes().len() == t.spec_size(),
        u.spec_bytes() == bs.subrange(0, t.spec_size() as int),
{
    lemma_from_to_bytes(v, w);
}

} // verus!
