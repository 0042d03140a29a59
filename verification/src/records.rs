//! The fixed-size records of a binary parameter archive: the file header and
//! the entries of parameters, objects and lists. All integers are little
//! endian.
use vstd::prelude::*;
use crate::le::{
    le_bytes, le_value, lemma_le_bytes_of_value, lemma_le_value_bound,
    lemma_le_value_of_bytes, pow256, read_le, write_le,
};
use crate::name::Name;
use crate::parameter::Type;
use crate::types::{U24, group_u24_value};
use crate::name::group_name_view;
use crate::parameter::lemma_type_code_roundtrip;

verus! {

/// Why a record could not be read.
#[derive(Debug, Clone, Copy, PartialEq, Eq, Structural)]
pub enum ReadError {
    /// The data ends inside the record.
    EndOfInput,
    /// The header does not start with `AAMP`.
    BadMagic,
    /// A parameter's type byte stands for no type; the byte is given.
    UnknownType(u8),
}

/// The bytes of `x` as a 4-byte little-endian integer.
pub open spec fn le4(x: u32) -> Seq<u8> {
    le_bytes(x as nat, 4)
}

/// The 4-byte little-endian integer at `p`.
pub open spec fn u32_at(data: Seq<u8>, p: int) -> u32 {
    le_value(data.subrange(p, p + 4)) as u32
}

/// The 2-byte little-endian integer at `p`.
pub open spec fn u16_at(data: Seq<u8>, p: int) -> u16 {
    le_value(data.subrange(p, p + 2)) as u16
}

/// The 3-byte little-endian integer at `p`.
pub open spec fn u24_at(data: Seq<u8>, p: int) -> u32 {
    le_value(data.subrange(p, p + 3)) as u32
}

/// The encoding of 4-byte words, one after another.
pub open spec fn words_bytes(ws: Seq<u32>) -> Seq<u8>
    decreases ws.len(),
{
    if ws.len() == 0 {
        Seq::empty()
    } else {
        le4(ws[0]) + words_bytes(ws.drop_first())
    }
}

/// The 4-byte words that `s` holds, one after another (a tail shorter than
/// four bytes is ignored).
pub open spec fn read_words(s: Seq<u8>) -> Seq<u32>
    decreases s.len(),
{
    if s.len() < 4 {
        Seq::empty()
    } else {
        seq![u32_at(s, 0)] + read_words(s.skip(4))
    }
}

proof fn lemma_pow256_4()
    ensures
        pow256(4) == 0x1_0000_0000,
        pow256(3) == 0x100_0000,
        pow256(2) == 0x1_0000,
{
    reveal_with_fuel(pow256, 5);
}

/// Encoding words and reading them back gives the words.
pub proof fn lemma_read_words_bytes(ws: Seq<u32>)
    ensures
        words_bytes(ws).len() == 4 * ws.len(),
        read_words(words_bytes(ws)) == ws,
    decreases ws.len(),
{
    if ws.len() > 0 {
        let rest = ws.drop_first();
        lemma_read_words_bytes(rest);
        lemma_pow256_4();
        lemma_le_value_of_bytes(ws[0] as nat, 4);
        let b = words_bytes(ws);
        assert(b.subrange(0, 4) =~= le4(ws[0]));
        assert(b.skip(4) =~= words_bytes(rest));
        assert(read_words(b) =~= ws);
    }
}

/// Reading the words of bytes whose length is a multiple of four and
/// encoding them gives the bytes.
pub proof fn lemma_words_bytes_read(s: Seq<u8>)
    requires
        s.len() % 4 == 0,
    ensures
        words_bytes(read_words(s)) == s,
        read_words(s).len() == s.len() / 4,
    decreases s.len(),
{
    if s.len() >= 4 {
        lemma_words_bytes_read(s.skip(4));
        lemma_le_value_bound(s.subrange(0, 4));
        lemma_pow256_4();
        lemma_le_bytes_of_value(s.subrange(0, 4));
        let ws = read_words(s);
        assert(ws.drop_first() =~= read_words(s.skip(4)));
        assert(words_bytes(ws) =~= s);
    }
}

/// The word at index `k` of the words of `s`.
pub proof fn lemma_read_words_index(s: Seq<u8>, k: int)
    requires
        0 <= k,
        4 * k + 4 <= s.len(),
    ensures
        read_words(s).len() == s.len() / 4,
        read_words(s)[k] == u32_at(s, 4 * k),
    decreases s.len(),
{
    if k == 0 {
        lemma_read_words_len(s);
    } else {
        lemma_read_words_index(s.skip(4), k - 1);
        lemma_read_words_len(s);
        assert(s.skip(4).subrange(4 * (k - 1), 4 * (k - 1) + 4) =~= s.subrange(4 * k, 4 * k + 4));
    }
}

proof fn lemma_read_words_len(s: Seq<u8>)
    ensures
        read_words(s).len() == s.len() / 4,
    decreases s.len(),
{
    if s.len() >= 4 {
        lemma_read_words_len(s.skip(4));
    }
}

/// Appending a word appends its encoding.
proof fn lemma_words_bytes_push(ws: Seq<u32>, w: u32)
    ensures
        words_bytes(ws.push(w)) == words_bytes(ws) + le4(w),
    decreases ws.len(),
{
    if ws.len() == 0 {
        assert(ws.push(w)[0] == w);
        assert(ws.push(w).drop_first() =~= Seq::<u32>::empty());
        assert(words_bytes(ws.push(w).drop_first()) == Seq::<u8>::empty());
        assert(words_bytes(ws.push(w)) =~= words_bytes(ws) + le4(w));
    } else {
        assert(ws.push(w)[0] == ws[0]);
        lemma_words_bytes_push(ws.drop_first(), w);
        assert(ws.push(w).drop_first() =~= ws.drop_first().push(w));
        assert(words_bytes(ws.push(w)) =~= words_bytes(ws) + le4(w));
    }
}

/// The four bytes `AAMP` that open an archive.
pub open spec fn header_magic() -> Seq<u8> {
    seq![0x41u8, 0x41u8, 0x4Du8, 0x50u8]
}

/// Archive header, at the start of the file (48 bytes).
#[derive(Debug, Clone, Copy, PartialEq, Eq, Structural)]
pub struct ResHeader {
    pub version: u32,
    pub flags: u32,
    pub file_size: u32,
    pub pio_version: u32,
    /// Offset to parameter IO (relative to 0x30)
    pub pio_offset: u32,
    /// Number of lists (including root)
    pub list_count: u32,
    pub object_count: u32,
    pub param_count: u32,
    pub data_section_size: u32,
    pub string_section_size: u32,
    pub unknown_section_size: u32,
}

impl ResHeader {
    /// The header's eleven words in file order.
    pub open spec fn words(self) -> Seq<u32> {
        seq![
            self.version,
            self.flags,
            self.file_size,
            self.pio_version,
            self.pio_offset,
            self.list_count,
            self.object_count,
            self.param_count,
            self.data_section_size,
            self.string_section_size,
            self.unknown_section_size,
        ]
    }

    /// The header whose eleven words, in file order, are `ws`.
    pub open spec fn from_words(ws: Seq<u32>) -> ResHeader {
        ResHeader {
            version: ws[0],
            flags: ws[1],
            file_size: ws[2],
            pio_version: ws[3],
            pio_offset: ws[4],
            list_count: ws[5],
            object_count: ws[6],
            param_count: ws[7],
            data_section_size: ws[8],
            string_section_size: ws[9],
            unknown_section_size: ws[10],
        }
    }

    /// The header's encoding: the magic, then the words.
    pub open spec fn spec_bytes(self) -> Seq<u8> {
        header_magic() + words_bytes(self.words())
    }

    /// What reading a header at `pos` of `data` gives: the magic is read
    /// first, then the words.
    pub open spec fn spec_read(data: Seq<u8>, at: nat) -> Result<ResHeader, ReadError> {
        let pos = at as int;
        if pos + 4 > data.len() {
            Err(ReadError::EndOfInput)
        } else if data.subrange(pos, pos + 4) != header_magic() {
            Err(ReadError::BadMagic)
        } else if pos + 48 > data.len() {
            Err(ReadError::EndOfInput)
        } else {
            Ok(ResHeader::from_words(read_words(data.subrange(pos + 4, pos + 48))))
        }
    }

    /// Reads a header at `pos` of `data`.
    pub fn read(data: &[u8], pos: usize) -> (r: Result<ResHeader, ReadError>)
        ensures
            r == ResHeader::spec_read(data@, pos as nat),
    {
        let len = data.len();
        if pos > len || len - pos < 4 {
            return Err(ReadError::EndOfInput);
        }
        if !(data[pos] == 0x41 && data[pos + 1] == 0x41 && data[pos + 2] == 0x4D && data[pos + 3]
            == 0x50) {
            assert(data@.subrange(pos as int, pos + 4)[0] == data@[pos as int]);
            assert(data@.subrange(pos as int, pos + 4)[1] == data@[pos + 1]);
            assert(data@.subrange(pos as int, pos + 4)[2] == data@[pos + 2]);
            assert(data@.subrange(pos as int, pos + 4)[3] == data@[pos + 3]);
            return Err(ReadError::BadMagic);
        }
        assert(data@.subrange(pos as int, pos + 4) =~= header_magic());
        if len - pos < 48 {
            return Err(ReadError::EndOfInput);
        }
        let ghost body = data@.subrange(pos + 4, pos + 48);
        let mut ws: Vec<u32> = Vec::new();
        let mut k: usize = 0;
        while k < 11
            invariant
                k <= 11,
                pos + 48 <= data@.len(),
                len == data@.len(),
                body == data@.subrange(pos + 4, pos + 48),
                ws@.len() == k,
                forall|j: int| 0 <= j < k ==> ws@[j] == read_words(body)[j],
            decreases 11 - k,
        {
            let w = read_le(data, pos + 4 + 4 * k, 4);
            proof {
                lemma_read_words_index(body, k as int);
                assert(body.subrange(4 * k, 4 * k + 4) =~= data@.subrange(
                    pos + 4 + 4 * k,
                    pos + 4 + 4 * k + 4,
                ));
            }
            ws.push(w);
            k += 1;
        }
        proof {
            lemma_read_words_len(body);
        }
        Ok(
            ResHeader {
                version: ws[0],
                flags: ws[1],
                file_size: ws[2],
                pio_version: ws[3],
                pio_offset: ws[4],
                list_count: ws[5],
                object_count: ws[6],
                param_count: ws[7],
                data_section_size: ws[8],
                string_section_size: ws[9],
                unknown_section_size: ws[10],
            },
        )
    }

    /// The header's encoding.
    pub fn to_bytes(&self) -> (b: Vec<u8>)
        ensures
            b@ == self.spec_bytes(),
    {
        let mut out: Vec<u8> = Vec::new();
        out.push(0x41);
        out.push(0x41);
        out.push(0x4D);
        out.push(0x50);
        let ws: [u32; 11] = [
            self.version,
            self.flags,
            self.file_size,
            self.pio_version,
            self.pio_offset,
            self.list_count,
            self.object_count,
            self.param_count,
            self.data_section_size,
            self.string_section_size,
            self.unknown_section_size,
        ];
        assert(ws@ =~= self.words());
        let mut k: usize = 0;
        assert(self.words().take(0) =~= Seq::<u32>::empty());
        while k < 11
            invariant
                k <= 11,
                ws@ == self.words(),
                out@ == header_magic() + words_bytes(self.words().take(k as int)),
            decreases 11 - k,
        {
            write_le(&mut out, ws[k], 4);
            proof {
                lemma_words_bytes_push(self.words().take(k as int), ws@[k as int]);
                assert(self.words().take(k as int).push(ws@[k as int]) =~= self.words().take(
                    k + 1,
                ));
            }
            k += 1;
        }
        assert(self.words().take(11) =~= self.words());
        out
    }
}

/// The header's layout: `AAMP` at offset 0, then each field as a 4-byte
/// little-endian integer at its own offset, in declaration order from 0x4
/// to 0x2C.
pub proof fn lemma_header_layout(h: ResHeader)
    ensures
        h.spec_bytes().len() == 0x30,
        h.spec_bytes().subrange(0, 4) == seq![0x41u8, 0x41u8, 0x4Du8, 0x50u8],
        u32_at(h.spec_bytes(), 0x4) == h.version,
        u32_at(h.spec_bytes(), 0x8) == h.flags,
        u32_at(h.spec_bytes(), 0xc) == h.file_size,
        u32_at(h.spec_bytes(), 0x10) == h.pio_version,
        u32_at(h.spec_bytes(), 0x14) == h.pio_offset,
        u32_at(h.spec_bytes(), 0x18) == h.list_count,
        u32_at(h.spec_bytes(), 0x1c) == h.object_count,
        u32_at(h.spec_bytes(), 0x20) == h.param_count,
        u32_at(h.spec_bytes(), 0x24) == h.data_section_size,
        u32_at(h.spec_bytes(), 0x28) == h.string_section_size,
        u32_at(h.spec_bytes(), 0x2c) == h.unknown_section_size,
{
    let ws = h.words();
    let wb = words_bytes(ws);
    let b = h.spec_bytes();
    lemma_read_words_bytes(ws);
    assert(b.subrange(0, 4) =~= seq![0x41u8, 0x41u8, 0x4Du8, 0x50u8]);
    assert forall|k: int| 0 <= k < 11 implies u32_at(b, 4 + 4 * k) == ws[k] by {
        lemma_read_words_index(wb, k);
        assert(b.subrange(4 + 4 * k, 4 + 4 * k + 4) =~= wb.subrange(4 * k, 4 * k + 4));
    }
    assert(u32_at(b, 4) == ws[0]);
    assert(u32_at(b, 8) == ws[1]);
    assert(u32_at(b, 12) == ws[2]);
    assert(u32_at(b, 16) == ws[3]);
    assert(u32_at(b, 20) == ws[4]);
    assert(u32_at(b, 24) == ws[5]);
    assert(u32_at(b, 28) == ws[6]);
    assert(u32_at(b, 32) == ws[7]);
    assert(u32_at(b, 36) == ws[8]);
    assert(u32_at(b, 40) == ws[9]);
    assert(u32_at(b, 44) == ws[10]);
}

/// Reading a header takes each field from its own offset: `AAMP` at `at`,
/// then the 4-byte little-endian integers at `at + 0x4` to `at + 0x2C`, in
/// declaration order; and a header is read whenever the magic is there and
/// 48 bytes are available.
pub proof fn lemma_header_read_layout(data: Seq<u8>, at: nat)
    ensures
        ResHeader::spec_read(data, at) matches Ok(h) ==> {
            &&& at + 0x30 <= data.len()
            &&& data.subrange(at as int, at as int + 4) == seq![0x41u8, 0x41u8, 0x4Du8, 0x50u8]
            &&& h.version == u32_at(data, at as int + 0x4)
            &&& h.flags == u32_at(data, at as int + 0x8)
            &&& h.file_size == u32_at(data, at as int + 0xc)
            &&& h.pio_version == u32_at(data, at as int + 0x10)
            &&& h.pio_offset == u32_at(data, at as int + 0x14)
            &&& h.list_count == u32_at(data, at as int + 0x18)
            &&& h.object_count == u32_at(data, at as int + 0x1c)
            &&& h.param_count == u32_at(data, at as int + 0x20)
            &&& h.data_section_size == u32_at(data, at as int + 0x24)
            &&& h.string_section_size == u32_at(data, at as int + 0x28)
            &&& h.unknown_section_size == u32_at(data, at as int + 0x2c)
        },
        at + 0x30 <= data.len() && data.subrange(at as int, at as int + 4) == seq![
            0x41u8,
            0x41u8,
            0x4Du8,
            0x50u8,
        ] ==> ResHeader::spec_read(data, at) is Ok,
{
    let pos = at as int;
    assert(header_magic() =~= seq![0x41u8, 0x41u8, 0x4Du8, 0x50u8]);
    if let Ok(h) = ResHeader::spec_read(data, at) {
        let body = data.subrange(pos + 4, pos + 48);
        assert forall|k: int| 0 <= k < 11 implies read_words(body)[k] == u32_at(
            data,
            pos + 4 + 4 * k,
        ) by {
            lemma_read_words_index(body, k);
            assert(body.subrange(4 * k, 4 * k + 4) =~= data.subrange(
                pos + 4 + 4 * k,
                pos + 4 + 4 * k + 4,
            ));
        }
        assert(read_words(body)[0] == u32_at(data, pos + 4));
        assert(read_words(body)[1] == u32_at(data, pos + 8));
        assert(read_words(body)[2] == u32_at(data, pos + 12));
        assert(read_words(body)[3] == u32_at(data, pos + 16));
        assert(read_words(body)[4] == u32_at(data, pos + 20));
        assert(read_words(body)[5] == u32_at(data, pos + 24));
        assert(read_words(body)[6] == u32_at(data, pos + 28));
        assert(read_words(body)[7] == u32_at(data, pos + 32));
        assert(read_words(body)[8] == u32_at(data, pos + 36));
        assert(read_words(body)[9] == u32_at(data, pos + 40));
        assert(read_words(body)[10] == u32_at(data, pos + 44));
    }
}

/// Reading a header depends on its own 48 bytes only, wherever they stand.
pub proof fn lemma_header_read_local(data: Seq<u8>, at: nat)
    requires
        at + 0x30 <= data.len(),
    ensures
        ResHeader::spec_read(data, at) == ResHeader::spec_read(
            data.subrange(at as int, at as int + 0x30),
            0,
        ),
{
    let pos = at as int;
    let sub = data.subrange(pos, pos + 48);
    assert(sub.subrange(0, 4) =~= data.subrange(pos, pos + 4));
    assert(sub.subrange(4, 48) =~= data.subrange(pos + 4, pos + 48));
}

/// Encoding a header and reading it back gives the header.
pub proof fn lemma_header_roundtrip(h: ResHeader)
    ensures
        h.spec_bytes().len() == 48,
        ResHeader::spec_read(h.spec_bytes(), 0) == Ok::<ResHeader, ReadError>(h),
{
    lemma_read_words_bytes(h.words());
    let b = h.spec_bytes();
    assert(b.subrange(0, 4) =~= header_magic());
    assert(b.subrange(4, 48) =~= words_bytes(h.words()));
    assert(ResHeader::from_words(h.words()) == h);
}

/// A header that reads successfully is the one that its 48 bytes encode.
pub proof fn lemma_header_read_bytes(data: Seq<u8>, at: nat)
    ensures
        ResHeader::spec_read(data, at) matches Ok(h) ==> h.spec_bytes() == data.subrange(
            at as int,
            at as int + 48,
        ),
{
    let pos = at as int;
    if let Ok(h) = ResHeader::spec_read(data, at) {
        let body = data.subrange(pos + 4, pos + 48);
        lemma_words_bytes_read(body);
        assert(h.words() =~= read_words(body));
        assert(h.spec_bytes() =~= data.subrange(pos, pos + 48));
    }
}

/// Parameter entry (8 bytes): name, offset of the value in the data section
/// (24 bits) and type.
#[derive(Debug, Clone, Copy, PartialEq, Eq, Structural)]
pub struct ResParameter {
    pub name: Name,
    pub data_rel_offset: U24,
    pub type_: Type,
}

impl ResParameter {
    /// The entry's encoding.
    pub open spec fn spec_bytes(self) -> Seq<u8> {
        le4(self.name@) + le_bytes(self.data_rel_offset.spec_value() as nat, 3) + seq![
            self.type_.spec_code(),
        ]
    }

    /// What reading an entry at `at` of `data` gives.
    pub open spec fn spec_read(data: Seq<u8>, at: nat) -> Result<ResParameter, ReadError> {
        let pos = at as int;
        if pos + 8 > data.len() {
            Err(ReadError::EndOfInput)
        } else {
            match Type::spec_from_code(data[pos + 7]) {
                None => Err(ReadError::UnknownType(data[pos + 7])),
                Some(t) => Ok(
                    ResParameter {
                        name: Name::spec_from_hash(u32_at(data, pos)),
                        data_rel_offset: U24::spec_new(u24_at(data, pos + 4)),
                        type_: t,
                    },
                ),
            }
        }
    }

    /// Reads an entry at `pos` of `data`.
    pub fn read(data: &[u8], pos: usize) -> (r: Result<ResParameter, ReadError>)
        ensures
            r == ResParameter::spec_read(data@, pos as nat),
    {
        let len = data.len();
        if pos > len || len - pos < 8 {
            return Err(ReadError::EndOfInput);
        }
        let name = read_le(data, pos, 4);
        let offset = read_le(data, pos + 4, 3);
        proof {
            lemma_le_value_bound(data@.subrange(pos + 4, pos + 7));
            lemma_pow256_4();
        }
        let code = data[pos + 7];
        match Type::from_code(code) {
            None => Err(ReadError::UnknownType(code)),
            Some(t) => {
                let off = match U24::new(offset) {
                    Some(u) => u,
                    None => {
                        proof {
                            // Three bytes hold less than 2^24.
                            assert(false);
                        }
                        return Err(ReadError::EndOfInput);
                    },
                };
                Ok(ResParameter { name: Name::from(name), data_rel_offset: off, type_: t })
            },
        }
    }

    /// The entry's encoding.
    pub fn to_bytes(&self) -> (b: Vec<u8>)
        ensures
            b@ == self.spec_bytes(),
    {
        let mut out: Vec<u8> = Vec::new();
        write_le(&mut out, self.name.hash(), 4);
        write_le(&mut out, self.data_rel_offset.value(), 3);
        out.push(self.type_.code());
        assert(out@ =~= self.spec_bytes());
        out
    }
}

/// A parameter entry's layout: the name's hash as a 4-byte little-endian
/// integer at 0, the offset as a 3-byte one at 4, the type's code at 7.
pub proof fn lemma_parameter_layout(p: ResParameter)
    requires
        p.data_rel_offset.spec_value() < 0x100_0000,
    ensures
        p.spec_bytes().len() == 8,
        u32_at(p.spec_bytes(), 0) == p.name@,
        u24_at(p.spec_bytes(), 4) == p.data_rel_offset.spec_value(),
        p.spec_bytes()[7] == p.type_.spec_code(),
{
    lemma_parameter_roundtrip(p);
    broadcast use {group_u24_value, group_name_view};

}

/// Reading a parameter entry depends on its own 8 bytes only, wherever they
/// stand and whatever follows them, and succeeds exactly when its type byte
/// is a type's code (at most 20).
pub proof fn lemma_parameter_read_local(data: Seq<u8>, at: nat)
    requires
        at + 8 <= data.len(),
    ensures
        ResParameter::spec_read(data, at) == ResParameter::spec_read(
            data.subrange(at as int, at as int + 8),
            0,
        ),
        ResParameter::spec_read(data, at) is Ok <==> data[at as int + 7] <= 20,
{
    let pos = at as int;
    let sub = data.subrange(pos, pos + 8);
    assert(sub.subrange(0, 4) =~= data.subrange(pos, pos + 4));
    assert(sub.subrange(4, 7) =~= data.subrange(pos + 4, pos + 7));
    assert(sub[7] == data[pos + 7]);
    crate::parameter::lemma_type_from_code(data[pos + 7]);
}

/// Encoding a parameter entry and reading it back gives the entry.
pub proof fn lemma_parameter_roundtrip(p: ResParameter)
    requires
        p.data_rel_offset.spec_value() < 0x100_0000,
    ensures
        p.spec_bytes().len() == 8,
        ResParameter::spec_read(p.spec_bytes(), 0) == Ok::<ResParameter, ReadError>(p),
{
    broadcast use {group_u24_value, group_name_view};

    lemma_pow256_4();
    lemma_le_value_of_bytes(p.name@ as nat, 4);
    lemma_le_value_of_bytes(p.data_rel_offset.spec_value() as nat, 3);
    lemma_type_code_roundtrip(p.type_);
    let b = p.spec_bytes();
    assert(b.subrange(0, 4) =~= le4(p.name@));
    assert(b.subrange(4, 7) =~= le_bytes(p.data_rel_offset.spec_value() as nat, 3));
    assert(b[7] == p.type_.spec_code());
}

/// A parameter entry that reads successfully is the one that its 8 bytes
/// encode.
pub proof fn lemma_parameter_read_bytes(data: Seq<u8>, at: nat)
    ensures
        ResParameter::spec_read(data, at) matches Ok(p) ==> p.spec_bytes() == data.subrange(
            at as int,
            at as int + 8,
        ),
{
    broadcast use {group_u24_value, group_name_view};

    let pos = at as int;
    if let Ok(p) = ResParameter::spec_read(data, at) {
        lemma_pow256_4();
        lemma_le_value_bound(data.subrange(pos, pos + 4));
        lemma_le_value_bound(data.subrange(pos + 4, pos + 7));
        lemma_le_bytes_of_value(data.subrange(pos, pos + 4));
        lemma_le_bytes_of_value(data.subrange(pos + 4, pos + 7));
        crate::parameter::lemma_type_from_code(data[pos + 7]);
        assert(le4(p.name@) == data.subrange(pos, pos + 4));
        assert(le_bytes(p.data_rel_offset.spec_value() as nat, 3) == data.subrange(pos + 4, pos + 7));
        assert(p.spec_bytes() =~= data.subrange(pos, pos + 8));
    }
}

/// Parameter object entry (8 bytes): name, offset of its parameters (in
/// 4-byte units, from the entry) and their number.
#[derive(Debug, Clone, Copy, PartialEq, Eq, Structural)]
pub struct ResParameterObj {
    pub name: Name,
    pub params_rel_offset: u16,
    pub param_count: u16,
}

impl ResParameterObj {
    /// The entry's encoding.
    pub open spec fn spec_bytes(self) -> Seq<u8> {
        le4(self.name@) + le_bytes(self.params_rel_offset as nat, 2) + le_bytes(
            self.param_count as nat,
            2,
        )
    }

    /// What reading an entry at `at` of `data` gives.
    pub open spec fn spec_read(data: Seq<u8>, at: nat) -> Result<ResParameterObj, ReadError> {
        let pos = at as int;
        if pos + 8 > data.len() {
            Err(ReadError::EndOfInput)
        } else {
            Ok(
                ResParameterObj {
                    name: Name::spec_from_hash(u32_at(data, pos)),
                    params_rel_offset: u16_at(data, pos + 4),
                    param_count: u16_at(data, pos + 6),
                },
            )
        }
    }

    /// Reads an entry at `pos` of `data`.
    pub fn read(data: &[u8], pos: usize) -> (r: Result<ResParameterObj, ReadError>)
        ensures
            r == ResParameterObj::spec_read(data@, pos as nat),
    {
        let len = data.len();
        if pos > len || len - pos < 8 {
            return Err(ReadError::EndOfInput);
        }
        let name = read_le(data, pos, 4);
        let offset = read_le(data, pos + 4, 2);
        let count = read_le(data, pos + 6, 2);
        proof {
            lemma_le_value_bound(data@.subrange(pos + 4, pos + 6));
            lemma_le_value_bound(data@.subrange(pos + 6, pos + 8));
            lemma_pow256_4();
        }
        Ok(
            ResParameterObj {
                name: Name::from(name),
                params_rel_offset: offset as u16,
                param_count: count as u16,
            },
        )
    }

    /// The entry's encoding.
    pub fn to_bytes(&self) -> (b: Vec<u8>)
        ensures
            b@ == self.spec_bytes(),
    {
        let mut out: Vec<u8> = Vec::new();
        write_le(&mut out, self.name.hash(), 4);
        write_le(&mut out, self.params_rel_offset as u32, 2);
        write_le(&mut out, self.param_count as u32, 2);
        assert(out@ =~= self.spec_bytes());
        out
    }
}

/// An object entry's layout: the name's hash as a 4-byte little-endian
/// integer at 0, then the parameters' offset and their number as 2-byte ones
/// at 4 and 6.
pub proof fn lemma_object_layout(o: ResParameterObj)
    ensures
        o.spec_bytes().len() == 8,
        u32_at(o.spec_bytes(), 0) == o.name@,
        u16_at(o.spec_bytes(), 4) == o.params_rel_offset,
        u16_at(o.spec_bytes(), 6) == o.param_count,
{
    lemma_object_roundtrip(o);
    broadcast use group_name_view;

}

/// Reading an object entry depends on its own 8 bytes only, wherever they
/// stand and whatever follows them, and succeeds whenever they are there.
pub proof fn lemma_object_read_local(data: Seq<u8>, at: nat)
    requires
        at + 8 <= data.len(),
    ensures
        ResParameterObj::spec_read(data, at) == ResParameterObj::spec_read(
            data.subrange(at as int, at as int + 8),
            0,
        ),
        ResParameterObj::spec_read(data, at) is Ok,
{
    let pos = at as int;
    let sub = data.subrange(pos, pos + 8);
    assert(sub.subrange(0, 4) =~= data.subrange(pos, pos + 4));
    assert(sub.subrange(4, 6) =~= data.subrange(pos + 4, pos + 6));
    assert(sub.subrange(6, 8) =~= data.subrange(pos + 6, pos + 8));
}

/// Encoding an object entry and reading it back gives the entry.
pub proof fn lemma_object_roundtrip(o: ResParameterObj)
    ensures
        o.spec_bytes().len() == 8,
        ResParameterObj::spec_read(o.spec_bytes(), 0) == Ok::<ResParameterObj, ReadError>(o),
{
    broadcast use group_name_view;

    lemma_pow256_4();
    lemma_le_value_of_bytes(o.name@ as nat, 4);
    lemma_le_value_of_bytes(o.params_rel_offset as nat, 2);
    lemma_le_value_of_bytes(o.param_count as nat, 2);
    let b = o.spec_bytes();
    assert(b.subrange(0, 4) =~= le4(o.name@));
    assert(b.subrange(4, 6) =~= le_bytes(o.params_rel_offset as nat, 2));
    assert(b.subrange(6, 8) =~= le_bytes(o.param_count as nat, 2));
}

/// An object entry that reads successfully is the one that its 8 bytes
/// encode.
pub proof fn lemma_object_read_bytes(data: Seq<u8>, at: nat)
    ensures
        ResParameterObj::spec_read(data, at) matches Ok(o) ==> o.spec_bytes() == data.subrange(
            at as int,
            at as int + 8,
        ),
{
    broadcast use group_name_view;

    let pos = at as int;
    if let Ok(o) = ResParameterObj::spec_read(data, at) {
        lemma_pow256_4();
        lemma_le_value_bound(data.subrange(pos, pos + 4));
        lemma_le_value_bound(data.subrange(pos + 4, pos + 6));
        lemma_le_value_bound(data.subrange(pos + 6, pos + 8));
        lemma_le_bytes_of_value(data.subrange(pos, pos + 4));
        lemma_le_bytes_of_value(data.subrange(pos + 4, pos + 6));
        lemma_le_bytes_of_value(data.subrange(pos + 6, pos + 8));
        assert(le4(o.name@) == data.subrange(pos, pos + 4));
        assert(le_bytes(o.params_rel_offset as nat, 2) == data.subrange(pos + 4, pos + 6));
        assert(le_bytes(o.param_count as nat, 2) == data.subrange(pos + 6, pos + 8));
        assert(o.spec_bytes() =~= data.subrange(pos, pos + 8));
    }
}

/// Parameter list entry (12 bytes): name, offset and number of its child
/// lists, offset and number of its child objects (offsets in 4-byte units,
/// from the entry).
#[derive(Debug, Clone, Copy, PartialEq, Eq, Structural)]
pub struct ResParameterList {
    pub name: Name,
    pub lists_rel_offset: u16,
    pub list_count: u16,
    pub objects_rel_offset: u16,
    pub object_count: u16,
}

impl ResParameterList {
    /// The entry's encoding.
    pub open spec fn spec_bytes(self) -> Seq<u8> {
        le4(self.name@) + le_bytes(self.lists_rel_offset as nat, 2) + le_bytes(
            self.list_count as nat,
            2,
        ) + le_bytes(self.objects_rel_offset as nat, 2) + le_bytes(self.object_count as nat, 2)
    }

    /// What reading an entry at `at` of `data` gives.
    pub open spec fn spec_read(data: Seq<u8>, at: nat) -> Result<ResParameterList, ReadError> {
        let pos = at as int;
        if pos + 12 > data.len() {
            Err(ReadError::EndOfInput)
        } else {
            Ok(
                ResParameterList {
                    name: Name::spec_from_hash(u32_at(data, pos)),
                    lists_rel_offset: u16_at(data, pos + 4),
                    list_count: u16_at(data, pos + 6),
                    objects_rel_offset: u16_at(data, pos + 8),
                    object_count: u16_at(data, pos + 10),
                },
            )
        }
    }

    /// Reads an entry at `pos` of `data`.
    pub fn read(data: &[u8], pos: usize) -> (r: Result<ResParameterList, ReadError>)
        ensures
            r == ResParameterList::spec_read(data@, pos as nat),
    {
        let len = data.len();
        if pos > len || len - pos < 12 {
            return Err(ReadError::EndOfInput);
        }
        let name = read_le(data, pos, 4);
        let lists_offset = read_le(data, pos + 4, 2);
        let lists = read_le(data, pos + 6, 2);
        let objects_offset = read_le(data, pos + 8, 2);
        let objects = read_le(data, pos + 10, 2);
        proof {
            lemma_le_value_bound(data@.subrange(pos + 4, pos + 6));
            lemma_le_value_bound(data@.subrange(pos + 6, pos + 8));
            lemma_le_value_bound(data@.subrange(pos + 8, pos + 10));
            lemma_le_value_bound(data@.subrange(pos + 10, pos + 12));
            lemma_pow256_4();
        }
        Ok(
            ResParameterList {
                name: Name::from(name),
                lists_rel_offset: lists_offset as u16,
                list_count: lists as u16,
                objects_rel_offset: objects_offset as u16,
                object_count: objects as u16,
            },
        )
    }

    /// The entry's encoding.
    pub fn to_bytes(&self) -> (b: Vec<u8>)
        ensures
            b@ == self.spec_bytes(),
    {
        let mut out: Vec<u8> = Vec::new();
        write_le(&mut out, self.name.hash(), 4);
        write_le(&mut out, self.lists_rel_offset as u32, 2);
        write_le(&mut out, self.list_count as u32, 2);
        write_le(&mut out, self.objects_rel_offset as u32, 2);
        write_le(&mut out, self.object_count as u32, 2);
        assert(out@ =~= self.spec_bytes());
        out
    }
}

/// A list entry's layout: the name's hash as a 4-byte little-endian integer
/// at 0, then the child lists' offset, their number, the child objects'
/// offset and their number as 2-byte ones at 4, 6, 8 and 10.
pub proof fn lemma_list_layout(l: ResParameterList)
    ensures
        l.spec_bytes().len() == 12,
        u32_at(l.spec_bytes(), 0) == l.name@,
        u16_at(l.spec_bytes(), 4) == l.lists_rel_offset,
        u16_at(l.spec_bytes(), 6) == l.list_count,
        u16_at(l.spec_bytes(), 8) == l.objects_rel_offset,
        u16_at(l.spec_bytes(), 10) == l.object_count,
{
    lemma_list_roundtrip(l);
    broadcast use group_name_view;

}

/// Reading a list entry depends on its own 12 bytes only, wherever they
/// stand and whatever follows them, and succeeds whenever they are there.
pub proof fn lemma_list_read_local(data: Seq<u8>, at: nat)
    requires
        at + 12 <= data.len(),
    ensures
        ResParameterList::spec_read(data, at) == ResParameterList::spec_read(
            data.subrange(at as int, at as int + 12),
            0,
        ),
        ResParameterList::spec_read(data, at) is Ok,
{
    let pos = at as int;
    let sub = data.subrange(pos, pos + 12);
    assert(sub.subrange(0, 4) =~= data.subrange(pos, pos + 4));
    assert(sub.subrange(4, 6) =~= data.subrange(pos + 4, pos + 6));
    assert(sub.subrange(6, 8) =~= data.subrange(pos + 6, pos + 8));
    assert(sub.subrange(8, 10) =~= data.subrange(pos + 8, pos + 10));
    assert(sub.subrange(10, 12) =~= data.subrange(pos + 10, pos + 12));
}

/// Encoding a list entry and reading it back gives the entry.
pub proof fn lemma_list_roundtrip(l: ResParameterList)
    ensures
        l.spec_bytes().len() == 12,
        ResParameterList::spec_read(l.spec_bytes(), 0) == Ok::<ResParameterList, ReadError>(l),
{
    broadcast use group_name_view;

    lemma_pow256_4();
    lemma_le_value_of_bytes(l.name@ as nat, 4);
    lemma_le_value_of_bytes(l.lists_rel_offset as nat, 2);
    lemma_le_value_of_bytes(l.list_count as nat, 2);
    lemma_le_value_of_bytes(l.objects_rel_offset as nat, 2);
    lemma_le_value_of_bytes(l.object_count as nat, 2);
    let b = l.spec_bytes();
    assert(b.subrange(0, 4) =~= le4(l.name@));
    assert(b.subrange(4, 6) =~= le_bytes(l.lists_rel_offset as nat, 2));
    assert(b.subrange(6, 8) =~= le_bytes(l.list_count as nat, 2));
    assert(b.subrange(8, 10) =~= le_bytes(l.objects_rel_offset as nat, 2));
    assert(b.subrange(10, 12) =~= le_bytes(l.object_count as nat, 2));
}

/// A list entry that reads successfully is the one that its 12 bytes
/// encode.
pub proof fn lemma_list_read_bytes(data: Seq<u8>, at: nat)
    ensures
        ResParameterList::spec_read(data, at) matches Ok(l) ==> l.spec_bytes() == data.subrange(
            at as int,
            at as int + 12,
        ),
{
    broadcast use group_name_view;

    let pos = at as int;
    if let Ok(l) = ResParameterList::spec_read(data, at) {
        lemma_pow256_4();
        lemma_le_value_bound(data.subrange(pos, pos + 4));
        lemma_le_value_bound(data.subrange(pos + 4, pos + 6));
        lemma_le_value_bound(data.subrange(pos + 6, pos + 8));
        lemma_le_value_bound(data.subrange(pos + 8, pos + 10));
        lemma_le_value_bound(data.subrange(pos + 10, pos + 12));
        lemma_le_bytes_of_value(data.subrange(pos, pos + 4));
        lemma_le_bytes_of_value(data.subrange(pos + 4, pos + 6));
        lemma_le_bytes_of_value(data.subrange(pos + 6, pos + 8));
        lemma_le_bytes_of_value(data.subrange(pos + 8, pos + 10));
        lemma_le_bytes_of_value(data.subrange(pos + 10, pos + 12));
        assert(le4(l.name@) == data.subrange(pos, pos + 4));
        assert(le_bytes(l.lists_rel_offset as nat, 2) == data.subrange(pos + 4, pos + 6));
        assert(le_bytes(l.list_count as nat, 2) == data.subrange(pos + 6, pos + 8));
        assert(le_bytes(l.objects_rel_offset as nat, 2) == data.subrange(pos + 8, pos + 10));
        assert(le_bytes(l.object_count as nat, 2) == data.subrange(pos + 10, pos + 12));
        assert(l.spec_bytes() =~= data.subrange(pos, pos + 12));
    }
}

} // verus!
