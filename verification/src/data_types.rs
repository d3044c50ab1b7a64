//! The values of the machine.
//!
//! A value is one of nine kinds, told apart by its tag. In memory it is a tag
//! beside a record with one slot per kind; only the slot that the tag selects
//! carries meaning. The model of a value, [`Value`], is the tagged sum that
//! results.
//!
//! Floating-point numbers are held as their IEEE-754 bit patterns. Their
//! equality is decided here, on the patterns; their arithmetic and their
//! printed form are the business of the host that runs the machine.

use vstd::prelude::*;
use crate::registers::Register;
use crate::stoi::{numeral, write_numeral, Radix};
use crate::text::push_char;

verus! {

/// The tag of a value.
#[derive(Debug, PartialEq, Eq, Clone, Copy, Structural)]
pub enum DataType {
    Uint32,
    Uint64,
    Int32,
    Int64,
    Float,
    Double,
    String,
    Char,
    Register,
}

/// The model of a value: a tag together with what it carries.
pub enum Value {
    Uint32(u32),
    Uint64(u64),
    Int32(i32),
    Int64(i64),
    /// A 32-bit float, by its bit pattern.
    Float(u32),
    /// A 64-bit float, by its bit pattern.
    Double(u64),
    Text(Seq<char>),
    Char(char),
    Register(Register),
}

/// Whether a 32-bit pattern is a NaN.
pub open spec fn float_is_nan(bits: u32) -> bool {
    (bits & 0x7fff_ffff) > 0x7f80_0000
}

/// Whether a 32-bit pattern is a zero of either sign.
pub open spec fn float_is_zero(bits: u32) -> bool {
    (bits & 0x7fff_ffff) == 0
}

/// Whether two 32-bit floats are equal as numbers: neither is a NaN, and
/// they have the same pattern or are both zero.
pub open spec fn float_equal(a: u32, b: u32) -> bool {
    !float_is_nan(a) && !float_is_nan(b) && (a == b || (float_is_zero(a) && float_is_zero(b)))
}

/// Whether a 64-bit pattern is a NaN.
pub open spec fn double_is_nan(bits: u64) -> bool {
    (bits & 0x7fff_ffff_ffff_ffff) > 0x7ff0_0000_0000_0000
}

/// Whether a 64-bit pattern is a zero of either sign.
pub open spec fn double_is_zero(bits: u64) -> bool {
    (bits & 0x7fff_ffff_ffff_ffff) == 0
}

/// Whether two 64-bit floats are equal as numbers.
pub open spec fn double_equal(a: u64, b: u64) -> bool {
    !double_is_nan(a) && !double_is_nan(b) && (a == b || (double_is_zero(a) && double_is_zero(b)))
}

impl Value {
    /// The tag of the value.
    pub open spec fn tag(self) -> DataType {
        match self {
            Value::Uint32(_) => DataType::Uint32,
            Value::Uint64(_) => DataType::Uint64,
            Value::Int32(_) => DataType::Int32,
            Value::Int64(_) => DataType::Int64,
            Value::Float(_) => DataType::Float,
            Value::Double(_) => DataType::Double,
            Value::Text(_) => DataType::String,
            Value::Char(_) => DataType::Char,
            Value::Register(_) => DataType::Register,
        }
    }

    /// Equality of two values of one kind: equality of numbers for floats,
    /// so that a NaN equals nothing and the two zeros equal each other, and
    /// identity for every other kind. Values of different kinds are not equal.
    pub open spec fn same(self, other: Value) -> bool {
        match (self, other) {
            (Value::Float(a), Value::Float(b)) => float_equal(a, b),
            (Value::Double(a), Value::Double(b)) => double_equal(a, b),
            _ => self == other,
        }
    }

    /// Whether the value is a floating-point number.
    pub open spec fn is_float(self) -> bool {
        self is Float || self is Double
    }

    /// The printed form of a value: decimal for integers, the contents of a
    /// text, the character itself, the symbolic name of a register. Floats
    /// have none here; the host prints them.
    pub open spec fn text(self) -> Option<Seq<char>> {
        match self {
            Value::Uint32(v) => Some(numeral(v as int, 10)),
            Value::Uint64(v) => Some(numeral(v as int, 10)),
            Value::Int32(v) => Some(numeral(v as int, 10)),
            Value::Int64(v) => Some(numeral(v as int, 10)),
            Value::Float(_) => None,
            Value::Double(_) => None,
            Value::Text(s) => Some(s),
            Value::Char(c) => Some(seq![c]),
            Value::Register(r) => Some(r.symbol()),
        }
    }
}

/// Apart from floats, two values are equal exactly when they are the same
/// value.
pub proof fn lemma_same_is_identity(a: Value, b: Value)
    requires
        !a.is_float(),
    ensures
        a.same(b) <==> a == b,
{
}

/// The record behind a value: one slot for each kind.
#[derive(Debug)]
pub struct AnyData {
    pub uint32: u32,
    pub uint64: u64,
    pub int32: i32,
    pub int64: i64,
    /// The bit pattern of a 32-bit float.
    pub float: u32,
    /// The bit pattern of a 64-bit float.
    pub double: u64,
    pub string: String,
    pub char: char,
    pub register: Register,
}

impl AnyData {
    /// The value that the record holds under the given tag.
    pub open spec fn tagged(self, tag: DataType) -> Value {
        match tag {
            DataType::Uint32 => Value::Uint32(self.uint32),
            DataType::Uint64 => Value::Uint64(self.uint64),
            DataType::Int32 => Value::Int32(self.int32),
            DataType::Int64 => Value::Int64(self.int64),
            DataType::Float => Value::Float(self.float),
            DataType::Double => Value::Double(self.double),
            DataType::String => Value::Text(self.string@),
            DataType::Char => Value::Char(self.char),
            DataType::Register => Value::Register(self.register),
        }
    }

    /// Whether every slot but the one of the given kind is blank: zero for
    /// the numbers, the empty text, a space, and no register.
    pub open spec fn blank_outside(self, kept: DataType) -> bool {
        &&& kept != DataType::Uint32 ==> self.uint32 == 0
        &&& kept != DataType::Uint64 ==> self.uint64 == 0
        &&& kept != DataType::Int32 ==> self.int32 == 0
        &&& kept != DataType::Int64 ==> self.int64 == 0
        &&& kept != DataType::Float ==> self.float == 0
        &&& kept != DataType::Double ==> self.double == 0
        &&& kept != DataType::String ==> self.string@ == Seq::<char>::empty()
        &&& kept != DataType::Char ==> self.char == ' '
        &&& kept != DataType::Register ==> self.register == Register::NIL
    }

    /// Whether the record holds `value` in the slot of its kind and is blank
    /// in every other slot.
    pub open spec fn holds_only(self, value: Value) -> bool {
        self.tagged(value.tag()) == value && self.blank_outside(value.tag())
    }

    /// Whether every slot is blank.
    pub open spec fn is_blank(self) -> bool {
        &&& self.uint32 == 0
        &&& self.uint64 == 0
        &&& self.int32 == 0
        &&& self.int64 == 0
        &&& self.float == 0
        &&& self.double == 0
        &&& self.string@ == Seq::<char>::empty()
        &&& self.char == ' '
        &&& self.register == Register::NIL
    }

    /// A record that is blank in every slot.
    pub fn blank() -> (r: AnyData)
        ensures
            r.is_blank(),
    {
        AnyData {
            uint32: 0,
            uint64: 0,
            int32: 0,
            int64: 0,
            float: 0,
            double: 0,
            string: String::new(),
            char: ' ',
            register: Register::NIL,
        }
    }

    /// A record that holds the 32-bit float with the given bit pattern.
    pub fn from_float_bits(bits: u32) -> (r: AnyData)
        ensures
            r.holds_only(Value::Float(bits)),
    {
        let mut r = AnyData::blank();
        r.float = bits;
        r
    }

    /// A record that holds the 64-bit float with the given bit pattern.
    pub fn from_double_bits(bits: u64) -> (r: AnyData)
        ensures
            r.holds_only(Value::Double(bits)),
    {
        let mut r = AnyData::blank();
        r.double = bits;
        r
    }
}

impl Clone for AnyData {
    fn clone(&self) -> (r: AnyData)
        ensures
            r == *self,
    {
        AnyData {
            uint32: self.uint32,
            uint64: self.uint64,
            int32: self.int32,
            int64: self.int64,
            float: self.float,
            double: self.double,
            string: self.string.clone(),
            char: self.char,
            register: self.register,
        }
    }
}

impl vstd::std_specs::convert::FromSpecImpl<u32> for AnyData {
    open spec fn obeys_from_spec() -> bool {
        false
    }

    open spec fn from_spec(v: u32) -> AnyData {
        arbitrary()
    }
}

impl From<u32> for AnyData {
    fn from(val: u32) -> (r: AnyData)
        ensures
            r.holds_only(Value::Uint32(val)),
    {
        let mut r = AnyData::blank();
        r.uint32 = val;
        r
    }
}

impl vstd::std_specs::convert::FromSpecImpl<u64> for AnyData {
    open spec fn obeys_from_spec() -> bool {
        false
    }

    open spec fn from_spec(v: u64) -> AnyData {
        arbitrary()
    }
}

impl From<u64> for AnyData {
    fn from(val: u64) -> (r: AnyData)
        ensures
            r.holds_only(Value::Uint64(val)),
    {
        let mut r = AnyData::blank();
        r.uint64 = val;
        r
    }
}

impl vstd::std_specs::convert::FromSpecImpl<i32> for AnyData {
    open spec fn obeys_from_spec() -> bool {
        false
    }

    open spec fn from_spec(v: i32) -> AnyData {
        arbitrary()
    }
}

impl From<i32> for AnyData {
    fn from(val: i32) -> (r: AnyData)
        ensures
            r.holds_only(Value::Int32(val)),
    {
        let mut r = AnyData::blank();
        r.int32 = val;
        r
    }
}

impl vstd::std_specs::convert::FromSpecImpl<i64> for AnyData {
    open spec fn obeys_from_spec() -> bool {
        false
    }

    open spec fn from_spec(v: i64) -> AnyData {
        arbitrary()
    }
}

impl From<i64> for AnyData {
    fn from(val: i64) -> (r: AnyData)
        ensures
            r.holds_only(Value::Int64(val)),
    {
        let mut r = AnyData::blank();
        r.int64 = val;
        r
    }
}

impl vstd::std_specs::convert::FromSpecImpl<&String> for AnyData {
    open spec fn obeys_from_spec() -> bool {
        false
    }

    open spec fn from_spec(v: &String) -> AnyData {
        arbitrary()
    }
}

impl From<&String> for AnyData {
    fn from(val: &String) -> (r: AnyData)
        ensures
            r.holds_only(Value::Text(val@)),
    {
        let mut r = AnyData::blank();
        r.string = val.clone();
        r
    }
}

impl vstd::std_specs::convert::FromSpecImpl<char> for AnyData {
    open spec fn obeys_from_spec() -> bool {
        false
    }

    open spec fn from_spec(v: char) -> AnyData {
        arbitrary()
    }
}

impl From<char> for AnyData {
    fn from(val: char) -> (r: AnyData)
        ensures
            r.holds_only(Value::Char(val)),
    {
        let mut r = AnyData::blank();
        r.char = val;
        r
    }
}

impl vstd::std_specs::convert::FromSpecImpl<Register> for AnyData {
    open spec fn obeys_from_spec() -> bool {
        false
    }

    open spec fn from_spec(v: Register) -> AnyData {
        arbitrary()
    }
}

impl From<Register> for AnyData {
    fn from(val: Register) -> (r: AnyData)
        ensures
            r.holds_only(Value::Register(val)),
    {
        let mut r = AnyData::blank();
        r.register = val;
        r
    }
}

/// A value of the machine: a tag and the record that it reads.
#[derive(Debug)]
pub struct GeneralData {
    pub t: DataType,
    pub d: AnyData,
}

impl View for GeneralData {
    type V = Value;

    open spec fn view(&self) -> Value {
        self.d.tagged(self.t)
    }
}

impl Clone for GeneralData {
    fn clone(&self) -> (r: GeneralData)
        ensures
            r == *self,
    {
        GeneralData { t: self.t, d: self.d.clone() }
    }
}

/// Whether two 32-bit floats, given by their bit patterns, are equal.
pub fn float_bits_equal(a: u32, b: u32) -> (r: bool)
    ensures
        r == float_equal(a, b),
{
    let ma: u32 = a & 0x7fff_ffff;
    let mb: u32 = b & 0x7fff_ffff;
    ma <= 0x7f80_0000 && mb <= 0x7f80_0000 && (a == b || (ma == 0 && mb == 0))
}

/// Whether two 64-bit floats, given by their bit patterns, are equal.
pub fn double_bits_equal(a: u64, b: u64) -> (r: bool)
    ensures
        r == double_equal(a, b),
{
    let ma: u64 = a & 0x7fff_ffff_ffff_ffff;
    let mb: u64 = b & 0x7fff_ffff_ffff_ffff;
    ma <= 0x7ff0_0000_0000_0000 && mb <= 0x7ff0_0000_0000_0000 && (a == b || (ma == 0 && mb
        == 0))
}

impl GeneralData {
    /// The printed form of the value, or `None` for a float, which the host
    /// prints.
    pub fn to_text(&self) -> (r: Option<String>)
        ensures
            r.is_some() == self@.text().is_some(),
            r matches Some(s) ==> Some(s@) == self@.text(),
    {
        match self.t {
            DataType::Uint32 => Some(write_numeral(false, self.d.uint32 as u64, Radix::Decimal)),
            DataType::Uint64 => Some(write_numeral(false, self.d.uint64, Radix::Decimal)),
            DataType::Int32 => Some(crate::stoi::Stoi::to_text(self.d.int32 as i64, Radix::Decimal)),
            DataType::Int64 => Some(crate::stoi::Stoi::to_text(self.d.int64, Radix::Decimal)),
            DataType::Float => None,
            DataType::Double => None,
            DataType::String => Some(self.d.string.clone()),
            DataType::Char => {
                let mut s = String::new();
                push_char(&mut s, self.d.char);
                Some(s)
            },
            DataType::Register => Some(self.d.register.name()),
        }
    }

    /// Whether the two values are of one kind and equal in the sense of
    /// [`Value::same`].
    pub fn same_as(&self, other: &GeneralData) -> (r: bool)
        ensures
            r == (self@.tag() == other@.tag() && self@.same(other@)),
    {
        if self.t != other.t {
            return false;
        }
        match self.t {
            DataType::Uint32 => self.d.uint32 == other.d.uint32,
            DataType::Uint64 => self.d.uint64 == other.d.uint64,
            DataType::Int32 => self.d.int32 == other.d.int32,
            DataType::Int64 => self.d.int64 == other.d.int64,
            DataType::Float => float_bits_equal(self.d.float, other.d.float),
            DataType::Double => double_bits_equal(self.d.double, other.d.double),
            DataType::String => self.d.string == other.d.string,
            DataType::Char => self.d.char == other.d.char,
            DataType::Register => self.d.register == other.d.register,
        }
    }
}

} // verus!
