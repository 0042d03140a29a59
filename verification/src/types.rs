//! Value types carried by parameters. Single-precision components are held by
//! their IEEE-754 bit patterns, exactly as the binary archive stores them.
use vstd::prelude::*;
use vstd::string::StringSliceAdditionalSpecFns;

verus! {

/// A single-precision float, held by its IEEE-754 bit pattern.
#[derive(Debug, Clone, Copy, PartialEq, Eq, Hash, Structural)]
pub struct F32Bits(pub u32);

/// 2D vector.
#[derive(Debug, Clone, Copy, PartialEq, Eq, Hash, Structural)]
pub struct Vector2f {
    pub x: F32Bits,
    pub y: F32Bits,
}

/// 3D vector.
#[derive(Debug, Clone, Copy, PartialEq, Eq, Hash, Structural)]
pub struct Vector3f {
    pub x: F32Bits,
    pub y: F32Bits,
    pub z: F32Bits,
}

/// 4D vector.
#[derive(Debug, Clone, Copy, PartialEq, Eq, Hash, Structural)]
pub struct Vector4f {
    pub x: F32Bits,
    pub y: F32Bits,
    pub z: F32Bits,
    pub t: F32Bits,
}

/// RGBA color.
#[derive(Debug, Clone, Copy, PartialEq, Eq, Hash, Structural)]
pub struct Color {
    pub r: F32Bits,
    pub g: F32Bits,
    pub b: F32Bits,
    pub a: F32Bits,
}

/// Quaternion.
#[derive(Debug, Clone, Copy, PartialEq, Eq, Hash, Structural)]
pub struct Quat {
    pub a: F32Bits,
    pub b: F32Bits,
    pub c: F32Bits,
    pub d: F32Bits,
}

/// Curve: two header words and thirty control values.
#[derive(Debug, Clone, Copy)]
pub struct Curve {
    pub a: u32,
    pub b: u32,
    pub floats: [F32Bits; 30],
}

/// Unsigned 24-bit integer.
#[derive(Debug, Clone, Copy, PartialEq, Eq, Hash, Structural)]
pub struct U24 {
    value: u32,
}

impl U24 {
    /// Three bytes hold the value.
    #[verifier::type_invariant]
    closed spec fn in_range(self) -> bool {
        self.value < 0x100_0000
    }

    /// The number held.
    pub closed spec fn spec_value(self) -> u32 {
        self.value
    }

    /// The 24-bit integer that holds `v`.
    pub closed spec fn spec_new(v: u32) -> U24 {
        U24 { value: v }
    }

    /// The 24-bit integer `v`, if `v` is below `2^24`.
    pub fn new(v: u32) -> (r: Option<U24>)
        ensures
            r == if v < 0x100_0000 {
                Some(U24::spec_new(v))
            } else {
                None
            },
    {
        if v < 0x100_0000 {
            Some(U24 { value: v })
        } else {
            None
        }
    }

    /// The number held.
    pub fn value(self) -> (v: u32)
        ensures
            v == self.spec_value(),
            v < 0x100_0000,
    {
        proof {
            use_type_invariant(self);
        }
        self.value
    }
}

/// A 24-bit integer holds the number it was made from.
pub broadcast proof fn lemma_u24_of_value(v: u32)
    ensures
        (#[trigger] U24::spec_new(v)).spec_value() == v,
{
}

/// A 24-bit integer is determined by the number it holds.
pub broadcast proof fn lemma_value_of_u24(u: U24)
    ensures
        #[trigger] U24::spec_new(u.spec_value()) == u,
{
}

/// 24-bit integers and the numbers they hold correspond one to one.
pub broadcast group group_u24_value {
    lemma_u24_of_value,
    lemma_value_of_u24,
}

/// String whose UTF-8 encoding is at most `N` bytes long.
#[derive(Debug, Hash)]
pub struct FixedSafeString<const N: usize> {
    text: String,
}

impl<const N: usize> FixedSafeString<N> {
    /// The bound on the length of the stored text.
    #[verifier::type_invariant]
    closed spec fn fits(self) -> bool {
        vstd::utf8::encode_utf8(self.text@).len() <= N
    }

    /// The stored text.
    pub closed spec fn text(&self) -> Seq<char> {
        self.text@
    }

    /// Stores `s` if its UTF-8 encoding is at most `N` bytes long.
    pub fn try_from_str(s: &str) -> (r: Option<Self>)
        ensures
            r is Some <==> s.spec_bytes().len() <= N,
            r matches Some(f) ==> f.text() == s@,
    {
        if s.as_bytes().len() <= N {
            Some(FixedSafeString { text: s.to_owned() })
        } else {
            None
        }
    }

    /// The stored text.
    pub fn as_str(&self) -> (r: &str)
        ensures
            r@ == self.text(),
            r.spec_bytes().len() <= N,
    {
        proof {
            use_type_invariant(self);
        }
        self.text.as_str()
    }
}

impl<const N: usize> PartialEq for FixedSafeString<N> {
    fn eq(&self, other: &Self) -> (r: bool) {
        self.text == other.text
    }
}

impl<const N: usize> vstd::std_specs::cmp::PartialEqSpecImpl for FixedSafeString<N> {
    open spec fn obeys_eq_spec() -> bool {
        true
    }

    open spec fn eq_spec(&self, other: &Self) -> bool {
        self.text() == other.text()
    }
}

impl<const N: usize> Eq for FixedSafeString<N> {
}

impl<const N: usize> Clone for FixedSafeString<N> {
    fn clone(&self) -> (r: Self)
        ensures
            r.text() == self.text(),
    {
        proof {
            use_type_invariant(self);
        }
        FixedSafeString { text: self.text.clone() }
    }
}

} // verus!
