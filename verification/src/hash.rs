//! The CRC-32 hash under which parameter structure names are stored.
use vstd::prelude::*;
use vstd::string::StringSliceAdditionalSpecFns;

verus! {

/// The reflected CRC-32 (IEEE 802.3) generator polynomial.
pub const CRC_POLY: u32 = 0xEDB8_8320;

/// One bit of polynomial division on the reflected register.
pub open spec fn crc_shift(c: u32) -> u32 {
    if c & 1 == 1 {
        (c >> 1) ^ CRC_POLY
    } else {
        c >> 1
    }
}

/// `n` bits of polynomial division.
pub open spec fn crc_shifts(c: u32, n: nat) -> u32
    decreases n,
{
    if n == 0 {
        c
    } else {
        crc_shift(crc_shifts(c, (n - 1) as nat))
    }
}

/// The register after one input byte is mixed in and divided through.
pub open spec fn crc_feed(c: u32, b: u8) -> u32 {
    crc_shifts(c ^ (b as u32), 8)
}

/// The CRC register after all of `bytes`, starting from all ones.
pub open spec fn crc_register(bytes: Seq<u8>) -> u32
    decreases bytes.len(),
{
    if bytes.len() == 0 {
        0xFFFF_FFFFu32
    } else {
        crc_feed(crc_register(bytes.drop_last()), bytes.last())
    }
}

/// CRC-32 of a byte string: the final register, complemented.
pub open spec fn crc32(bytes: Seq<u8>) -> u32 {
    !crc_register(bytes)
}

/// CRC hash function matching that used in BOTW: the CRC-32 of the name's
/// UTF-8 bytes.
pub fn hash_name(name: &str) -> (h: u32)
    ensures
        h == crc32(name.spec_bytes()),
{
    let bytes = name.as_bytes();
    let mut crc: u32 = 0xFFFF_FFFF;
    let mut i: usize = 0;
    assert(bytes@.take(0) =~= Seq::<u8>::empty());
    while i < bytes.len()
        invariant
            i <= bytes@.len(),
            bytes@ == name.spec_bytes(),
            crc == crc_register(bytes@.take(i as int)),
        decreases bytes@.len() - i,
    {
        let ghost before = crc;
        crc ^= bytes[i] as u32;
        let ghost mixed = crc;
        let mut j: u32 = 0;
        while j < 8
            invariant
                j <= 8,
                crc == crc_shifts(mixed, j as nat),
            decreases 8 - j,
        {
            if crc & 1 == 1 {
                crc = (crc >> 1) ^ CRC_POLY;
            } else {
                crc >>= 1;
            }
            j += 1;
        }
        assert(bytes@.take(i + 1).drop_last() =~= bytes@.take(i as int));
        i += 1;
    }
    assert(bytes@.take(bytes@.len() as int) =~= bytes@);
    !crc
}

/// The register after `bytes`, starting from `r`.
pub open spec fn crc_run(r: u32, bytes: Seq<u8>) -> u32
    decreases bytes.len(),
{
    if bytes.len() == 0 {
        r
    } else {
        crc_feed(crc_run(r, bytes.drop_last()), bytes.last())
    }
}

/// The bytes of `a` and `b`, combined position by position with xor.
pub open spec fn xor_bytes(a: Seq<u8>, b: Seq<u8>) -> Seq<u8> {
    Seq::new(a.len(), |i: int| a[i] ^ b[i])
}

/// One division step is linear over GF(2).
proof fn lemma_shift_linear(a: u32, b: u32)
    ensures
        crc_shift(a ^ b) == crc_shift(a) ^ crc_shift(b),
{
    assert(crc_shift(a ^ b) == crc_shift(a) ^ crc_shift(b)) by (bit_vector);
}

/// One division step maps only zero to zero.
proof fn lemma_shift_nonzero(c: u32)
    ensures
        c != 0 ==> crc_shift(c) != 0,
{
    assert(c != 0 ==> crc_shift(c) != 0) by (bit_vector);
}

/// `n` division steps are linear and map only zero to zero.
proof fn lemma_shifts_linear(a: u32, b: u32, n: nat)
    ensures
        crc_shifts(a ^ b, n) == crc_shifts(a, n) ^ crc_shifts(b, n),
        a != 0 ==> crc_shifts(a, n) != 0,
    decreases n,
{
    if n > 0 {
        lemma_shifts_linear(a, b, (n - 1) as nat);
        lemma_shift_linear(crc_shifts(a, (n - 1) as nat), crc_shifts(b, (n - 1) as nat));
        lemma_shift_nonzero(crc_shifts(a, (n - 1) as nat));
    }
}

/// `m` steps and then `n` steps are `m + n` steps.
proof fn lemma_shifts_compose(x: u32, m: nat, n: nat)
    ensures
        crc_shifts(crc_shifts(x, m), n) == crc_shifts(x, m + n),
    decreases n,
{
    if n > 0 {
        lemma_shifts_compose(x, m, (n - 1) as nat);
    }
}

/// On a register whose low byte is zero, eight steps are a plain shift.
proof fn lemma_shifts_low_byte_zero(z: u32, j: u32)
    requires
        z & 0xFF == 0,
        j <= 8,
    ensures
        crc_shifts(z, j as nat) == z >> j,
    decreases j,
{
    if j == 0 {
        assert(z >> 0u32 == z) by (bit_vector);
    } else {
        lemma_shifts_low_byte_zero(z, (j - 1) as u32);
        let y = z >> ((j - 1) as u32);
        assert(crc_shifts(z, j as nat) == crc_shift(crc_shifts(z, (j - 1) as nat)));
        assert((y & 1 == 1) == false && y >> 1 == z >> j) by (bit_vector)
            requires
                z & 0xFF == 0,
                y == z >> ((j - 1) as u32),
                0 < j <= 8,
        ;
    }
}

/// The register after the xor of two byte strings of one length, from the
/// xor of the start registers, is the xor of the two registers.
pub proof fn lemma_crc_run_xor(r1: u32, r2: u32, a: Seq<u8>, b: Seq<u8>)
    requires
        a.len() == b.len(),
    ensures
        crc_run(r1, a) ^ crc_run(r2, b) == crc_run(r1 ^ r2, xor_bytes(a, b)),
    decreases a.len(),
{
    let x = xor_bytes(a, b);
    if a.len() > 0 {
        assert(x.drop_last() =~= xor_bytes(a.drop_last(), b.drop_last()));
        lemma_crc_run_xor(r1, r2, a.drop_last(), b.drop_last());
        let ra = crc_run(r1, a.drop_last());
        let rb = crc_run(r2, b.drop_last());
        let p = a.last();
        let q = b.last();
        assert(x.last() == p ^ q);
        assert((ra ^ (p as u32)) ^ (rb ^ (q as u32)) == (ra ^ rb) ^ ((p ^ q) as u32)) by (bit_vector);
        lemma_shifts_linear(ra ^ (p as u32), rb ^ (q as u32), 8);
    }
}

/// The register of a concatenation runs on from the first part's register.
pub proof fn lemma_crc_run_concat(r: u32, u: Seq<u8>, v: Seq<u8>)
    ensures
        crc_run(r, u + v) == crc_run(crc_run(r, u), v),
    decreases v.len(),
{
    if v.len() == 0 {
        assert(u + v =~= u);
    } else {
        assert((u + v).drop_last() =~= u + v.drop_last());
        lemma_crc_run_concat(r, u, v.drop_last());
    }
}

/// Zero bytes keep a zero register zero and a nonzero register nonzero.
proof fn lemma_crc_run_zeros(r: u32, z: Seq<u8>)
    requires
        forall|i: int| 0 <= i < z.len() ==> z[i] == 0,
    ensures
        (crc_run(r, z) == 0) == (r == 0),
    decreases z.len(),
{
    if z.len() > 0 {
        lemma_crc_run_zeros(r, z.drop_last());
        let c = crc_run(r, z.drop_last());
        assert(z.last() == 0);
        assert(c ^ (0u8 as u32) == c) by (bit_vector);
        lemma_shifts_linear(c, c, 8);
        lemma_shifts_linear(0, 0, 8);
        let y = crc_shifts(0, 8);
        assert(0u32 ^ 0u32 == 0u32 && y ^ y == 0) by (bit_vector);
    }
}

/// Four bytes, not all zero, leave a zero register nonzero.
proof fn lemma_crc_run_four_nonzero(w: Seq<u8>)
    requires
        w.len() == 4,
        exists|i: int| 0 <= i < 4 && w[i] != 0,
    ensures
        crc_run(0, w) != 0,
{
    reveal_with_fuel(crc_run, 5);
    let a0 = w[0] as u32;
    let a1 = w[1] as u32;
    let a2 = w[2] as u32;
    let a3 = w[3] as u32;
    let b1 = a1 << 8u32;
    let b2 = a2 << 16u32;
    let b3 = a3 << 24u32;
    assert(w.drop_last().drop_last().drop_last().drop_last().len() == 0);
    assert(w.drop_last().drop_last().drop_last().last() == w[0]);
    assert(w.drop_last().drop_last().last() == w[1]);
    assert(w.drop_last().last() == w[2]);
    assert(w.last() == w[3]);
    // Byte j sits eight bits higher than byte j - 1.
    assert(b1 & 0xFF == 0 && b1 >> 8 == a1 && b2 & 0xFF == 0 && (b2 >> 8) & 0xFF == 0 && (b2
        >> 8) >> 8 == a2 && b3 & 0xFF == 0 && (b3 >> 8) & 0xFF == 0 && ((b3 >> 8) >> 8) & 0xFF
        == 0 && ((b3 >> 8) >> 8) >> 8 == a3) by (bit_vector)
        requires
            a1 < 256,
            a2 < 256,
            a3 < 256,
            b1 == a1 << 8u32,
            b2 == a2 << 16u32,
            b3 == a3 << 24u32,
    ;
    lemma_shifts_low_byte_zero(b1, 8);
    lemma_shifts_low_byte_zero(b2, 8);
    lemma_shifts_low_byte_zero(b2 >> 8, 8);
    lemma_shifts_low_byte_zero(b3, 8);
    lemma_shifts_low_byte_zero(b3 >> 8, 8);
    lemma_shifts_low_byte_zero((b3 >> 8) >> 8, 8);
    // The register after each byte is the steps applied to the bytes so far,
    // each at its own place.
    let w1 = a0;
    let w2 = a0 ^ b1;
    let w3 = a0 ^ b1 ^ b2;
    let w4 = a0 ^ b1 ^ b2 ^ b3;
    assert(0u32 ^ a0 == a0) by (bit_vector);
    let x1 = crc_shifts(a0, 8);
    // Second byte.
    lemma_shifts_compose(b1, 8, 8);
    lemma_shifts_linear(x1, a1, 8);
    lemma_shifts_compose(w1, 8, 8);
    lemma_shifts_linear(w1, b1, 16);
    let x2 = crc_shifts(x1 ^ a1, 8);
    assert(x2 == crc_shifts(w2, 16));
    // Third byte.
    lemma_shifts_compose(b2, 8, 8);
    lemma_shifts_compose(b2, 16, 8);
    lemma_shifts_linear(x2, a2, 8);
    lemma_shifts_compose(w2, 16, 8);
    lemma_shifts_linear(w2, b2, 24);
    let x3 = crc_shifts(x2 ^ a2, 8);
    assert(crc_shifts(b2, 16) == a2);
    assert(x3 == crc_shifts(w3, 24));
    // Fourth byte.
    lemma_shifts_compose(b3, 8, 8);
    lemma_shifts_compose(b3, 16, 8);
    lemma_shifts_compose(b3, 24, 8);
    lemma_shifts_linear(x3, a3, 8);
    lemma_shifts_compose(w3, 24, 8);
    lemma_shifts_linear(w3, b3, 32);
    let x4 = crc_shifts(x3 ^ a3, 8);
    assert(crc_shifts(b3, 24) == a3);
    assert(x4 == crc_shifts(w4, 32));
    assert(w4 != 0) by (bit_vector)
        requires
            a0 < 256,
            a1 < 256,
            a2 < 256,
            a3 < 256,
            a0 != 0 || a1 != 0 || a2 != 0 || a3 != 0,
            w4 == a0 ^ (a1 << 8u32) ^ (a2 << 16u32) ^ (a3 << 24u32),
    ;
    lemma_shifts_linear(w4, w4, 32);
}

/// CRC-32 is affine over GF(2) on byte strings of one length: the hash of
/// the position-wise xor of three strings is the xor of their hashes.
pub proof fn lemma_crc32_affine(a: Seq<u8>, b: Seq<u8>, c: Seq<u8>)
    requires
        a.len() == b.len(),
        b.len() == c.len(),
    ensures
        crc32(xor_bytes(xor_bytes(a, b), c)) == crc32(a) ^ crc32(b) ^ crc32(c),
{
    let f = 0xFFFF_FFFFu32;
    let ab = xor_bytes(a, b);
    let x = xor_bytes(ab, c);
    lemma_crc_register_is_run(a);
    lemma_crc_register_is_run(b);
    lemma_crc_register_is_run(c);
    lemma_crc_register_is_run(x);
    lemma_crc_run_xor(f, f, a, b);
    lemma_crc_run_xor(f ^ f, f, ab, c);
    lemma_crc_run_xor(f, f, x, ab);
    assert forall|i: int| 0 <= i < c.len() implies xor_bytes(x, ab)[i] == c[i] by {
        let (ai, bi, ci) = (a[i], b[i], c[i]);
        assert(((ai ^ bi) ^ ci) ^ (ai ^ bi) == ci) by (bit_vector);
    }
    assert(xor_bytes(x, ab) =~= c);
    let ra = crc_run(f, a);
    let rb = crc_run(f, b);
    let rc = crc_run(f, c);
    let rx = crc_run(f, x);
    let r0 = crc_run(f ^ f, ab);
    assert(f ^ f ^ f == f) by (bit_vector);
    // rx ^ (ra ^ rb) == run(0, c) and r0 ^ rc == rx, with r0 == ra ^ rb.
    assert(!rx == !ra ^ !rb ^ !rc) by (bit_vector)
        requires
            ra ^ rb == r0,
            r0 ^ rc == rx,
    ;
}

/// The register is the run from all ones.
proof fn lemma_crc_register_is_run(s: Seq<u8>)
    ensures
        crc_register(s) == crc_run(0xFFFF_FFFFu32, s),
    decreases s.len(),
{
    if s.len() > 0 {
        lemma_crc_register_is_run(s.drop_last());
    }
}

/// CRC-32 tells apart two byte strings of one length that differ only
/// within a window of at most four consecutive positions; in particular it
/// is injective on the strings of any one length up to four.
pub proof fn lemma_crc32_window_injective(s: Seq<u8>, t: Seq<u8>, p: int, k: int)
    requires
        s.len() == t.len(),
        0 <= p,
        0 <= k <= 4,
        p + k <= s.len(),
        forall|i: int| 0 <= i < s.len() && !(p <= i < p + k) ==> s[i] == t[i],
        s != t,
    ensures
        crc32(s) != crc32(t),
{
    let f = 0xFFFF_FFFFu32;
    let d = xor_bytes(s, t);
    lemma_crc_register_is_run(s);
    lemma_crc_register_is_run(t);
    lemma_crc_run_xor(f, f, s, t);
    assert(f ^ f == 0) by (bit_vector);
    // Some position differs, and it lies in the window.
    assert(exists|i: int| 0 <= i < s.len() && s[i] != t[i]) by {
        if forall|i: int| 0 <= i < s.len() ==> s[i] == t[i] {
            assert(s =~= t);
        }
    }
    let i0 = choose|i: int| 0 <= i < s.len() && s[i] != t[i];
    assert forall|i: int| 0 <= i < d.len() implies (d[i] == 0) == (s[i] == t[i]) by {
        let (x, y) = (s[i], t[i]);
        assert((x ^ y == 0) == (x == y)) by (bit_vector);
    }
    let pre = d.subrange(0, p);
    let win = d.subrange(p, p + k);
    let post = d.subrange(p + k, d.len() as int);
    assert(d =~= pre + win + post);
    let pad = Seq::new((4 - k) as nat, |i: int| 0u8);
    lemma_crc_run_concat(0, pre + win, post);
    lemma_crc_run_concat(0, pre, win);
    lemma_crc_run_zeros(0, pre);
    lemma_crc_run_concat(0, pad, win);
    lemma_crc_run_zeros(0, pad);
    let w = pad + win;
    assert(w[(4 - k) + (i0 - p)] == d[i0]);
    lemma_crc_run_four_nonzero(w);
    lemma_crc_run_zeros(crc_run(0, pre + win), post);
    assert(crc_run(0, d) != 0);
    let rs = crc_run(f, s);
    let rt = crc_run(f, t);
    assert(rs ^ rt != 0 ==> !rs != !rt) by (bit_vector);
}

/// CRC-32 for every length: the register run over the bytes from all ones,
/// then complemented (final xor with all ones); the hash of nothing is 0;
/// and hashing continues across a concatenation, `b` running on from the
/// register that `a`'s hash leaves, its complement.
pub proof fn lemma_crc32_final_xor(a: Seq<u8>, b: Seq<u8>)
    ensures
        crc32(a) ^ crc_run(0xFFFF_FFFFu32, a) == 0xFFFF_FFFFu32,
        crc32(Seq::<u8>::empty()) == 0,
        crc32(a + b) == !crc_run(!crc32(a), b),
{
    lemma_crc_register_is_run(a);
    lemma_crc_register_is_run(a + b);
    lemma_crc_run_concat(0xFFFF_FFFFu32, a, b);
    let r = crc_run(0xFFFF_FFFFu32, a);
    assert(!r ^ r == 0xFFFF_FFFFu32 && !!r == r && !0xFFFF_FFFFu32 == 0u32) by (bit_vector);
}

} // verus!
