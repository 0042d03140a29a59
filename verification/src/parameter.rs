//! Parameter values and the type tags under which the archive stores them.
use vstd::prelude::*;
use crate::types::{Color, Curve, F32Bits, FixedSafeString, Quat, Vector2f, Vector3f, Vector4f};

verus! {

/// The type tag of a parameter, stored in the archive as one byte.
#[derive(Debug, Clone, Copy, PartialEq, Eq, Structural)]
pub enum Type {
    Bool,
    F32,
    Int,
    Vec2,
    Vec3,
    Vec4,
    Color,
    String32,
    String64,
    Curve1,
    Curve2,
    Curve3,
    Curve4,
    BufferInt,
    BufferF32,
    String256,
    Quat,
    U32,
    BufferU32,
    BufferBinary,
    StringRef,
}

impl Type {
    /// The byte that stands for the tag in the archive.
    pub open spec fn spec_code(self) -> u8 {
        match self {
            Type::Bool => 0u8,
            Type::F32 => 1u8,
            Type::Int => 2u8,
            Type::Vec2 => 3u8,
            Type::Vec3 => 4u8,
            Type::Vec4 => 5u8,
            Type::Color => 6u8,
            Type::String32 => 7u8,
            Type::String64 => 8u8,
            Type::Curve1 => 9u8,
            Type::Curve2 => 10u8,
            Type::Curve3 => 11u8,
            Type::Curve4 => 12u8,
            Type::BufferInt => 13u8,
            Type::BufferF32 => 14u8,
            Type::String256 => 15u8,
            Type::Quat => 16u8,
            Type::U32 => 17u8,
            Type::BufferU32 => 18u8,
            Type::BufferBinary => 19u8,
            Type::StringRef => 20u8,
        }
    }

    /// The tag that a byte stands for, if any.
    pub open spec fn spec_from_code(c: u8) -> Option<Type> {
        match c {
            0u8 => Some(Type::Bool),
            1u8 => Some(Type::F32),
            2u8 => Some(Type::Int),
            3u8 => Some(Type::Vec2),
            4u8 => Some(Type::Vec3),
            5u8 => Some(Type::Vec4),
            6u8 => Some(Type::Color),
            7u8 => Some(Type::String32),
            8u8 => Some(Type::String64),
            9u8 => Some(Type::Curve1),
            10u8 => Some(Type::Curve2),
            11u8 => Some(Type::Curve3),
            12u8 => Some(Type::Curve4),
            13u8 => Some(Type::BufferInt),
            14u8 => Some(Type::BufferF32),
            15u8 => Some(Type::String256),
            16u8 => Some(Type::Quat),
            17u8 => Some(Type::U32),
            18u8 => Some(Type::BufferU32),
            19u8 => Some(Type::BufferBinary),
            20u8 => Some(Type::StringRef),
            _ => None,
        }
    }

    /// The byte that stands for the tag in the archive.
    pub fn code(self) -> (c: u8)
        ensures
            c == self.spec_code(),
    {
        match self {
            Type::Bool => 0,
            Type::F32 => 1,
            Type::Int => 2,
            Type::Vec2 => 3,
            Type::Vec3 => 4,
            Type::Vec4 => 5,
            Type::Color => 6,
            Type::String32 => 7,
            Type::String64 => 8,
            Type::Curve1 => 9,
            Type::Curve2 => 10,
            Type::Curve3 => 11,
            Type::Curve4 => 12,
            Type::BufferInt => 13,
            Type::BufferF32 => 14,
            Type::String256 => 15,
            Type::Quat => 16,
            Type::U32 => 17,
            Type::BufferU32 => 18,
            Type::BufferBinary => 19,
            Type::StringRef => 20,
        }
    }

    /// The tag that a byte stands for; `None` for a byte that stands for no
    /// tag.
    pub fn from_code(c: u8) -> (t: Option<Type>)
        ensures
            t == Type::spec_from_code(c),
    {
        match c {
            0 => Some(Type::Bool),
            1 => Some(Type::F32),
            2 => Some(Type::Int),
            3 => Some(Type::Vec2),
            4 => Some(Type::Vec3),
            5 => Some(Type::Vec4),
            6 => Some(Type::Color),
            7 => Some(Type::String32),
            8 => Some(Type::String64),
            9 => Some(Type::Curve1),
            10 => Some(Type::Curve2),
            11 => Some(Type::Curve3),
            12 => Some(Type::Curve4),
            13 => Some(Type::BufferInt),
            14 => Some(Type::BufferF32),
            15 => Some(Type::String256),
            16 => Some(Type::Quat),
            17 => Some(Type::U32),
            18 => Some(Type::BufferU32),
            19 => Some(Type::BufferBinary),
            20 => Some(Type::StringRef),
            _ => None,
        }
    }
}

/// Reading back the code of a tag gives the tag.
pub proof fn lemma_type_code_roundtrip(t: Type)
    ensures
        Type::spec_from_code(t.spec_code()) == Some(t),
{
}

/// A byte stands for a tag exactly when it is at most 20, and then it is that
/// tag's code.
pub proof fn lemma_type_from_code(c: u8)
    ensures
        Type::spec_from_code(c) is Some <==> c <= 20,
        Type::spec_from_code(c) matches Some(t) ==> t.spec_code() == c,
{
}

/// Parameter.
///
/// Note that unlike `agl::utl::Parameter` the name is not stored as part of
/// the parameter class in order to make the parameter logic simpler and more
/// efficient.
#[derive(Debug, Clone)]
pub enum Parameter {
    /// Boolean.
    Bool(bool),
    /// Float.
    F32(F32Bits),
    /// Int.
    Int(i32),
    /// 2D vector.
    Vec2(Vector2f),
    /// 3D vector.
    Vec3(Vector3f),
    /// 4D vector.
    Vec4(Vector4f),
    /// Color.
    Color(Color),
    /// String (max length 32 bytes).
    String32(FixedSafeString<32>),
    /// String (max length 64 bytes).
    String64(FixedSafeString<64>),
    /// A single curve.
    Curve1([Curve; 1]),
    /// Two curves.
    Curve2([Curve; 2]),
    /// Three curves.
    Curve3([Curve; 3]),
    /// Four curves.
    Curve4([Curve; 4]),
    /// Buffer of signed ints.
    BufferInt(Vec<i32>),
    /// Buffer of floats.
    BufferF32(Vec<F32Bits>),
    /// String (max length 256 bytes).
    String256(FixedSafeString<256>),
    /// Quaternion.
    Quat(Quat),
    /// Unsigned int.
    U32(u32),
    /// Buffer of unsigned ints.
    BufferU32(Vec<u32>),
    /// Buffer of binary data.
    BufferBinary(Vec<u8>),
    /// String (no length limit).
    StringRef(String),
}

impl Parameter {
    /// The type tag of the parameter's variant.
    pub open spec fn spec_type(self) -> Type {
        match self {
            Parameter::Bool(_) => Type::Bool,
            Parameter::F32(_) => Type::F32,
            Parameter::Int(_) => Type::Int,
            Parameter::Vec2(_) => Type::Vec2,
            Parameter::Vec3(_) => Type::Vec3,
            Parameter::Vec4(_) => Type::Vec4,
            Parameter::Color(_) => Type::Color,
            Parameter::String32(_) => Type::String32,
            Parameter::String64(_) => Type::String64,
            Parameter::Curve1(_) => Type::Curve1,
            Parameter::Curve2(_) => Type::Curve2,
            Parameter::Curve3(_) => Type::Curve3,
            Parameter::Curve4(_) => Type::Curve4,
            Parameter::BufferInt(_) => Type::BufferInt,
            Parameter::BufferF32(_) => Type::BufferF32,
            Parameter::String256(_) => Type::String256,
            Parameter::Quat(_) => Type::Quat,
            Parameter::U32(_) => Type::U32,
            Parameter::BufferU32(_) => Type::BufferU32,
            Parameter::BufferBinary(_) => Type::BufferBinary,
            Parameter::StringRef(_) => Type::StringRef,
        }
    }

    /// The text of a parameter of a string type.
    pub open spec fn spec_text(self) -> Option<Seq<char>> {
        match self {
            Parameter::String32(s) => Some(s.text()),
            Parameter::String64(s) => Some(s.text()),
            Parameter::String256(s) => Some(s.text()),
            Parameter::StringRef(s) => Some(s@),
            _ => None,
        }
    }

    /// The type tag of the parameter.
    pub fn get_type(&self) -> (t: Type)
        ensures
            t == self.spec_type(),
    {
        match self {
            Parameter::Bool(_) => Type::Bool,
            Parameter::F32(_) => Type::F32,
            Parameter::Int(_) => Type::Int,
            Parameter::Vec2(_) => Type::Vec2,
            Parameter::Vec3(_) => Type::Vec3,
            Parameter::Vec4(_) => Type::Vec4,
            Parameter::Color(_) => Type::Color,
            Parameter::String32(_) => Type::String32,
            Parameter::String64(_) => Type::String64,
            Parameter::Curve1(_) => Type::Curve1,
            Parameter::Curve2(_) => Type::Curve2,
            Parameter::Curve3(_) => Type::Curve3,
            Parameter::Curve4(_) => Type::Curve4,
            Parameter::BufferInt(_) => Type::BufferInt,
            Parameter::BufferF32(_) => Type::BufferF32,
            Parameter::String256(_) => Type::String256,
            Parameter::Quat(_) => Type::Quat,
            Parameter::U32(_) => Type::U32,
            Parameter::BufferU32(_) => Type::BufferU32,
            Parameter::BufferBinary(_) => Type::BufferBinary,
            Parameter::StringRef(_) => Type::StringRef,
        }
    }

    /// Whether the parameter is one of the buffer types.
    pub fn is_buffer_type(&self) -> (b: bool)
        ensures
            b == (self is BufferInt || self is BufferF32 || self is BufferU32
                || self is BufferBinary),
    {
        matches!(
            self,
            Parameter::BufferInt(_) | Parameter::BufferF32(_) | Parameter::BufferU32(_)
                | Parameter::BufferBinary(_)
        )
    }

    /// Whether the parameter is one of the string types.
    pub fn is_string_type(&self) -> (b: bool)
        ensures
            b == (self is String32 || self is String64 || self is String256
                || self is StringRef),
    {
        matches!(
            self,
            Parameter::String32(_) | Parameter::String64(_) | Parameter::String256(_)
                | Parameter::StringRef(_)
        )
    }

    /// Returns a [`&str`](`str`) if the parameter is any string type.
    pub fn as_str(&self) -> (r: Option<&str>)
        ensures
            r is Some <==> self.spec_text() is Some,
            r matches Some(s) ==> self.spec_text() == Some(s@),
            self matches Parameter::StringRef(s) ==> r matches Some(t) && t@ == s@,
            self matches Parameter::String32(f) ==> r matches Some(t) && t@ == f.text(),
            self matches Parameter::String64(f) ==> r matches Some(t) && t@ == f.text(),
            self matches Parameter::String256(f) ==> r matches Some(t) && t@ == f.text(),
    {
        match self {
            Parameter::String32(s) => Some(s.as_str()),
            Parameter::String64(s) => Some(s.as_str()),
            Parameter::String256(s) => Some(s.as_str()),
            Parameter::StringRef(s) => Some(s.as_str()),
            _ => None,
        }
    }
}

/// The text of a string parameter is the whole stored string, whatever its
/// length: all of a `StringRef`'s string, all of a fixed string's text.
pub proof fn lemma_text_is_whole_string(
    s: String,
    f32s: FixedSafeString<32>,
    f64s: FixedSafeString<64>,
    f256s: FixedSafeString<256>,
)
    ensures
        Parameter::StringRef(s).spec_text() == Some(s@),
        Parameter::String32(f32s).spec_text() == Some(f32s.text()),
        Parameter::String64(f64s).spec_text() == Some(f64s.text()),
        Parameter::String256(f256s).spec_text() == Some(f256s.text()),
{
}

/// Type codes follow the declaration order of the tags, from 0 to 20.
pub proof fn lemma_type_codes()
    ensures
        Type::Bool.spec_code() == 0,
        Type::F32.spec_code() == 1,
        Type::Int.spec_code() == 2,
        Type::Vec2.spec_code() == 3,
        Type::Vec3.spec_code() == 4,
        Type::Vec4.spec_code() == 5,
        Type::Color.spec_code() == 6,
        Type::String32.spec_code() == 7,
        Type::String64.spec_code() == 8,
        Type::Curve1.spec_code() == 9,
        Type::Curve2.spec_code() == 10,
        Type::Curve3.spec_code() == 11,
        Type::Curve4.spec_code() == 12,
        Type::BufferInt.spec_code() == 13,
        Type::BufferF32.spec_code() == 14,
        Type::String256.spec_code() == 15,
        Type::Quat.spec_code() == 16,
        Type::U32.spec_code() == 17,
        Type::BufferU32.spec_code() == 18,
        Type::BufferBinary.spec_code() == 19,
        Type::StringRef.spec_code() == 20,
{
}

/// The type tag of a parameter is the tag of its own variant, and no other.
pub proof fn lemma_type_of_variant(p: Parameter)
    ensures
        (p.spec_type() == Type::Bool) == (p is Bool),
        (p.spec_type() == Type::F32) == (p is F32),
        (p.spec_type() == Type::Int) == (p is Int),
        (p.spec_type() == Type::Vec2) == (p is Vec2),
        (p.spec_type() == Type::Vec3) == (p is Vec3),
        (p.spec_type() == Type::Vec4) == (p is Vec4),
        (p.spec_type() == Type::Color) == (p is Color),
        (p.spec_type() == Type::String32) == (p is String32),
        (p.spec_type() == Type::String64) == (p is String64),
        (p.spec_type() == Type::Curve1) == (p is Curve1),
        (p.spec_type() == Type::Curve2) == (p is Curve2),
        (p.spec_type() == Type::Curve3) == (p is Curve3),
        (p.spec_type() == Type::Curve4) == (p is Curve4),
        (p.spec_type() == Type::BufferInt) == (p is BufferInt),
        (p.spec_type() == Type::BufferF32) == (p is BufferF32),
        (p.spec_type() == Type::String256) == (p is String256),
        (p.spec_type() == Type::Quat) == (p is Quat),
        (p.spec_type() == Type::U32) == (p is U32),
        (p.spec_type() == Type::BufferU32) == (p is BufferU32),
        (p.spec_type() == Type::BufferBinary) == (p is BufferBinary),
        (p.spec_type() == Type::StringRef) == (p is StringRef),
{
}

/// A parameter has text exactly when it is of a string type.
pub proof fn lemma_text_iff_string_type(p: Parameter)
    ensures
        p.spec_text() is Some <==> (p is String32 || p is String64 || p is String256
            || p is StringRef),
{
}

/// The buffer types are exactly the tags `BufferInt`, `BufferF32`,
/// `BufferU32` and `BufferBinary`, and the string types the tags `String32`,
/// `String64`, `String256` and `StringRef`: no parameter is of both.
pub proof fn lemma_buffer_string_disjoint(p: Parameter)
    ensures
        (p is BufferInt || p is BufferF32 || p is BufferU32 || p is BufferBinary) <==> (
        p.spec_type() is BufferInt || p.spec_type() is BufferF32 || p.spec_type() is BufferU32
            || p.spec_type() is BufferBinary),
        (p is String32 || p is String64 || p is String256 || p is StringRef) <==> (
        p.spec_type() is String32 || p.spec_type() is String64 || p.spec_type() is String256
            || p.spec_type() is StringRef),
        !((p is BufferInt || p is BufferF32 || p is BufferU32 || p is BufferBinary) && (
        p is String32 || p is String64 || p is String256 || p is StringRef)),
{
}

} // verus!
