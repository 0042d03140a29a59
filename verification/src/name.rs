//! Parameter structure names, held as the CRC-32 hash of the name text.
use vstd::prelude::*;
use vstd::string::StringSliceAdditionalSpecFns;
use crate::hash::{crc32, hash_name};

verus! {

/// Parameter structure name. This is a wrapper around a CRC32 hash.
#[derive(Debug, Clone, Copy, PartialEq, Eq, Hash, Structural)]
pub struct Name(u32);

impl View for Name {
    type V = u32;

    /// The hash that the name stands for.
    closed spec fn view(&self) -> u32 {
        self.0
    }
}

impl Name {
    /// The name whose hash is `u`.
    pub closed spec fn spec_from_hash(u: u32) -> Name {
        Name(u)
    }

    /// The name of the text whose UTF-8 bytes are `bytes`.
    pub open spec fn spec_from_bytes(bytes: Seq<u8>) -> Name {
        Name::spec_from_hash(crc32(bytes))
    }

    /// The CRC32 hash of the name.
    pub fn hash(&self) -> (h: u32)
        ensures
            h == self@,
    {
        self.0
    }

    /// Constructs the name of a string: its CRC32 hash.
    pub fn from_str(s: &str) -> (n: Name)
        ensures
            n@ == crc32(s.spec_bytes()),
            n == Name::spec_from_bytes(s.spec_bytes()),
    {
        Name(hash_name(s))
    }
}

/// The name of a hash has that hash.
pub broadcast proof fn lemma_name_of_hash(u: u32)
    ensures
        (#[trigger] Name::spec_from_hash(u))@ == u,
{
}

/// A name is the name of its hash.
pub broadcast proof fn lemma_hash_of_name(n: Name)
    ensures
        #[trigger] Name::spec_from_hash(n@) == n,
{
}

/// Names and hashes correspond one to one.
pub broadcast group group_name_view {
    lemma_name_of_hash,
    lemma_hash_of_name,
}

/// Two names are equal exactly when their hashes are.
pub proof fn lemma_name_eq_iff_hash_eq(a: Name, b: Name)
    ensures
        (a == b) <==> (a@ == b@),
{
}

impl<'a> From<&'a str> for Name {
    fn from(s: &'a str) -> (n: Name)
        ensures
            n@ == crc32(s.spec_bytes()),
    {
        Name(hash_name(s))
    }
}

impl<'a> vstd::std_specs::convert::FromSpecImpl<&'a str> for Name {
    open spec fn obeys_from_spec() -> bool {
        true
    }

    open spec fn from_spec(s: &'a str) -> Name {
        Name::spec_from_bytes(s.spec_bytes())
    }
}

impl From<u32> for Name {
    fn from(u: u32) -> (n: Name)
        ensures
            n@ == u,
    {
        Name(u)
    }
}

impl vstd::std_specs::convert::FromSpecImpl<u32> for Name {
    open spec fn obeys_from_spec() -> bool {
        true
    }

    open spec fn from_spec(u: u32) -> Name {
        Name::spec_from_hash(u)
    }
}

/// Building a name from a string and building it from the string's hash
/// give the same name.
pub proof fn lemma_from_str_is_from_hash(s: &str)
    ensures
        Name::spec_from_bytes(s.spec_bytes()) == Name::spec_from_hash(crc32(s.spec_bytes())),
        Name::spec_from_bytes(s.spec_bytes())@ == crc32(s.spec_bytes()),
{
}

} // verus!
