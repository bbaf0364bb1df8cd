use vstd::prelude::*;

verus! {

/// Values of the language, as the runtime sees them.
pub enum Value {
    Int(i64),
    Byte(u8),
    Boolean(bool),
    Char(char),
    Eof,
    Void,
    EmptyList,
    EmptyVector,
    EmptyString,
    Cons(Address),
    Box(Address),
    Vector(Address),
    String(Address),
}

impl Value {
    /// Whether the value has a runtime representation.
    pub open spec fn encodable(&self) -> bool {
        match self {
            Value::Int(i) => MIN_INT <= *i <= MAX_INT,
            Value::Box(a) | Value::Cons(a) | Value::Vector(a) | Value::String(a) => valid_address(a.0),
            _ => true,
        }
    }

    /// The 64-bit word that represents the value.
    pub open spec fn bits(&self) -> int {
        match self {
            Value::Int(i) => *i * 16,
            Value::Byte(b) => *b * 16,
            Value::Char(c) => (*c as int) * 32 + 8,
            Value::Box(a) => a.0 + 1,
            Value::Cons(a) => a.0 + 2,
            Value::Vector(a) => a.0 + 3,
            Value::String(a) => a.0 + 4,
            Value::Boolean(true) => TRUE_BITS as int,
            Value::Boolean(false) => FALSE_BITS as int,
            Value::Eof => EOF_BITS as int,
            Value::Void => VOID_BITS as int,
            Value::EmptyList => EMPTY_LIST_BITS as int,
            Value::EmptyVector => 3,
            Value::EmptyString => 4,
        }
    }

    /// Encodes the value as a tagged 64-bit word.
    pub fn encode(self) -> (r: i64)
        requires
            self.encodable(),
        ensures
            r == self.bits(),
    {
        proof {
            reveal_with_fuel(scale, 6);
            assert(scale(3) == 8 && scale(4) == 16 && scale(5) == 32);
        }
        match self {
            Value::Int(i) => int_type().encode(i),
            Value::Byte(b) => int_type().encode(b as i64),
            Value::Char(c) => {
                assert((c as int) <= 0x10FFFF);
                char_type().encode(c as i64)
            },
            // An address is 8-byte aligned: its tag goes in the low bits, which are zero.
            Value::Box(Address(a)) => a + box_type().tag.0 as i64,
            Value::Cons(Address(a)) => a + cons_type().tag.0 as i64,
            Value::Vector(Address(a)) => a + vector_type().tag.0 as i64,
            Value::String(Address(a)) => a + string_type().tag.0 as i64,
            Value::Boolean(true) => TRUE_BITS,
            Value::Boolean(false) => FALSE_BITS,
            Value::Eof => EOF_BITS,
            Value::Void => VOID_BITS,
            Value::EmptyList => EMPTY_LIST_BITS,
            Value::EmptyVector => vector_type().tag.0 as i64,
            Value::EmptyString => string_type().tag.0 as i64,
        }
    }
}

/// A byte address of the heap, 8-byte aligned.
pub struct Address(pub i64);

/// The low bits that identify a type.
#[derive(Clone, Copy)]
pub struct TypeTag(pub u64);

/// A type whose values carry a payload shifted left by `shift` bits above `tag`.
#[derive(Clone, Copy)]
pub struct UnaryType {
    pub shift: u64,
    pub tag: TypeTag,
}

/// Number of low bits used by the pointer tags.
pub const IMMEDIATE_SHIFT: u64 = 3;

/// Smallest integer that the runtime representation can hold.
pub const MIN_INT: i64 = -576460752303423488;

/// Largest integer that the runtime representation can hold.
pub const MAX_INT: i64 = 576460752303423487;

pub const TRUE_BITS: i64 = 24;
pub const FALSE_BITS: i64 = 56;
pub const EOF_BITS: i64 = 88;
pub const VOID_BITS: i64 = 120;
pub const EMPTY_LIST_BITS: i64 = 152;

/// `2` to the power `shift`.
pub open spec fn scale(shift: u64) -> int
    decreases shift,
{
    if shift == 0 {
        1
    } else {
        2 * scale((shift - 1) as u64)
    }
}

/// An address that a pointer can hold: 8-byte aligned, so that its low bits are free for
/// the tag.
pub open spec fn valid_address(a: i64) -> bool {
    0 <= a <= 0x7fff_ffff_ffff_fff0 && a % 8 == 0
}

impl UnaryType {
    /// Shifts are small and the tag fits below them.
    pub open spec fn wf(&self) -> bool {
        1 <= self.shift <= 5 && self.tag.0 < scale(self.shift)
    }

    pub open spec fn spec_encode(&self, value: int) -> int {
        value * scale(self.shift) + self.tag.0
    }

    /// Whether `value` can be encoded without overflow.
    pub open spec fn fits(&self, value: int) -> bool {
        i64::MIN <= value * scale(self.shift) && self.spec_encode(value) <= i64::MAX
    }

    /// The encoding of `value`: `value` shifted left by `shift`, plus the tag.
    pub fn encode(&self, value: i64) -> (r: i64)
        requires
            self.wf(),
            self.fits(value as int),
        ensures
            r == self.spec_encode(value as int),
    {
        let m = self.multiplier();
        value * m + self.tag.0 as i64
    }

    /// The bit mask that covers the tag: `2^shift - 1`.
    pub fn mask(&self) -> (r: u64)
        requires
            self.wf(),
        ensures
            r == scale(self.shift) - 1,
    {
        (self.multiplier() - 1) as u64
    }

    fn multiplier(&self) -> (m: i64)
        requires
            self.wf(),
        ensures
            m == scale(self.shift),
            1 <= m <= 32,
    {
        reveal_with_fuel(scale, 6);
        match self.shift {
            1 => 2,
            2 => 4,
            3 => 8,
            4 => 16,
            _ => 32,
        }
    }
}

pub open spec fn spec_box_type() -> UnaryType {
    UnaryType { shift: 3, tag: TypeTag(1) }
}

/// Boxes: pointers tagged `001`.
#[verifier::when_used_as_spec(spec_box_type)]
pub fn box_type() -> (t: UnaryType)
    ensures
        t == spec_box_type(),
        t.wf(),
{
    proof {
        reveal_with_fuel(scale, 6);
    }
    UnaryType { shift: IMMEDIATE_SHIFT, tag: TypeTag(1) }
}

pub open spec fn spec_cons_type() -> UnaryType {
    UnaryType { shift: 3, tag: TypeTag(2) }
}

/// Pairs: pointers tagged `010`.
#[verifier::when_used_as_spec(spec_cons_type)]
pub fn cons_type() -> (t: UnaryType)
    ensures
        t == spec_cons_type(),
        t.wf(),
{
    proof {
        reveal_with_fuel(scale, 6);
    }
    UnaryType { shift: IMMEDIATE_SHIFT, tag: TypeTag(2) }
}

pub open spec fn spec_vector_type() -> UnaryType {
    UnaryType { shift: 3, tag: TypeTag(3) }
}

/// Vectors: pointers tagged `011`.
#[verifier::when_used_as_spec(spec_vector_type)]
pub fn vector_type() -> (t: UnaryType)
    ensures
        t == spec_vector_type(),
        t.wf(),
{
    proof {
        reveal_with_fuel(scale, 6);
    }
    UnaryType { shift: IMMEDIATE_SHIFT, tag: TypeTag(3) }
}

pub open spec fn spec_string_type() -> UnaryType {
    UnaryType { shift: 3, tag: TypeTag(4) }
}

/// Strings: pointers tagged `100`.
#[verifier::when_used_as_spec(spec_string_type)]
pub fn string_type() -> (t: UnaryType)
    ensures
        t == spec_string_type(),
        t.wf(),
{
    proof {
        reveal_with_fuel(scale, 6);
    }
    UnaryType { shift: IMMEDIATE_SHIFT, tag: TypeTag(4) }
}

pub open spec fn spec_closure_type() -> UnaryType {
    UnaryType { shift: 3, tag: TypeTag(5) }
}

/// Closures: pointers tagged `101`.
#[verifier::when_used_as_spec(spec_closure_type)]
pub fn closure_type() -> (t: UnaryType)
    ensures
        t == spec_closure_type(),
        t.wf(),
{
    proof {
        reveal_with_fuel(scale, 6);
    }
    UnaryType { shift: IMMEDIATE_SHIFT, tag: TypeTag(5) }
}

pub open spec fn spec_int_type() -> UnaryType {
    UnaryType { shift: 4, tag: TypeTag(0) }
}

/// Integers: immediates ending in `0000`.
#[verifier::when_used_as_spec(spec_int_type)]
pub fn int_type() -> (t: UnaryType)
    ensures
        t == spec_int_type(),
        t.wf(),
{
    proof {
        reveal_with_fuel(scale, 6);
    }
    UnaryType { shift: 1 + IMMEDIATE_SHIFT, tag: TypeTag(0) }
}

pub open spec fn spec_char_type() -> UnaryType {
    UnaryType { shift: 5, tag: TypeTag(8) }
}

/// Characters: immediates ending in `01000`.
#[verifier::when_used_as_spec(spec_char_type)]
pub fn char_type() -> (t: UnaryType)
    ensures
        t == spec_char_type(),
        t.wf(),
{
    proof {
        reveal_with_fuel(scale, 6);
    }
    UnaryType { shift: 2 + IMMEDIATE_SHIFT, tag: TypeTag(8) }
}

/// What the code `and mask; cmp tag` finds of a word: whether its low `shift` bits are
/// the tag of `t`.
pub open spec fn has_tag(t: UnaryType, bits: int) -> bool {
    bits % scale(t.shift) == t.tag.0
}

/// The type tests are exact: over encodable values, each type's tag test holds of the
/// values of that type and of no others, so a runtime type check rejects precisely the
/// operands of other types. And each payload can be read back from its encoding.
pub proof fn lemma_tags_identify_types(v: Value)
    requires
        v.encodable(),
    ensures
        has_tag(spec_int_type(), v.bits()) <==> (v is Int || v is Byte),
        has_tag(spec_char_type(), v.bits()) <==> v is Char,
        has_tag(spec_box_type(), v.bits()) <==> v is Box,
        has_tag(spec_cons_type(), v.bits()) <==> v is Cons,
        has_tag(spec_vector_type(), v.bits()) <==> (v is Vector || v is EmptyVector),
        has_tag(spec_string_type(), v.bits()) <==> (v is String || v is EmptyString),
        has_tag(spec_closure_type(), v.bits()) <==> false,
        v matches Value::Int(i) ==> v.bits() / 16 == i,
        v matches Value::Char(c) ==> (v.bits() - 8) / 32 == c as int,
        v matches Value::Box(a) ==> v.bits() - 1 == a.0,
        v matches Value::Cons(a) ==> v.bits() - 2 == a.0,
        v matches Value::Vector(a) ==> v.bits() - 3 == a.0,
        v matches Value::String(a) ==> v.bits() - 4 == a.0,
{
    reveal_with_fuel(scale, 6);
    assert(scale(3) == 8 && scale(4) == 16 && scale(5) == 32);
    match v {
        Value::Int(i) => {
            assert((i * 16) % 16 == 0) by (nonlinear_arith);
            assert((i * 16) % 32 == 0 || (i * 16) % 32 == 16) by (nonlinear_arith);
            assert((i * 16) % 8 == 0) by (nonlinear_arith);
            assert((i * 16) / 16 == i) by (nonlinear_arith);
        },
        Value::Byte(b) => {
            assert((b * 16) % 16 == 0) by (nonlinear_arith);
            assert((b * 16) % 32 == 0 || (b * 16) % 32 == 16) by (nonlinear_arith);
            assert((b * 16) % 8 == 0) by (nonlinear_arith);
        },
        Value::Char(c) => {
            let x = c as int;
            assert((x * 32 + 8) % 32 == 8) by (nonlinear_arith);
            assert((x * 32 + 8) % 16 == 8) by (nonlinear_arith);
            assert((x * 32 + 8) % 8 == 0) by (nonlinear_arith);
            assert((x * 32 + 8 - 8) / 32 == x) by (nonlinear_arith);
        },
        Value::Box(a) | Value::Cons(a) | Value::Vector(a) | Value::String(a) => {
            let x = a.0 as int;
            assert(x % 8 == 0);
            assert((x + 1) % 8 == 1 && (x + 2) % 8 == 2 && (x + 3) % 8 == 3 && (x + 4) % 8 == 4);
            assert((x + 1) % 16 != 0 && (x + 2) % 16 != 0 && (x + 3) % 16 != 0 && (x + 4) % 16
                != 0);
            assert((x + 1) % 32 != 8 && (x + 2) % 32 != 8 && (x + 3) % 32 != 8 && (x + 4) % 32
                != 8);
        },
        _ => {},
    }
}

} // verus!
