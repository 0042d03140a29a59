//! Little-endian unsigned integers of one to four bytes.
use vstd::prelude::*;

verus! {

/// `256` to the power `n`.
pub open spec fn pow256(n: nat) -> nat
    decreases n,
{
    if n == 0 {
        1
    } else {
        256 * pow256((n - 1) as nat)
    }
}

/// The number that the bytes `s` encode, least significant byte first.
pub open spec fn le_value(s: Seq<u8>) -> nat
    decreases s.len(),
{
    if s.len() == 0 {
        0
    } else {
        s[0] as nat + 256 * le_value(s.drop_first())
    }
}

/// The `n` bytes that encode `x`, least significant byte first (the part of
/// `x` beyond `n` bytes is dropped).
pub open spec fn le_bytes(x: nat, n: nat) -> Seq<u8>
    decreases n,
{
    if n == 0 {
        Seq::empty()
    } else {
        seq![(x % 256) as u8] + le_bytes(x / 256, (n - 1) as nat)
    }
}

/// Three bytes hold the numbers below `2^24`.
proof fn lemma_pow256_small(k: nat)
    requires
        k <= 3,
    ensures
        pow256(k) <= 0x100_0000,
{
    reveal_with_fuel(pow256, 4);
}

/// Little endian: one byte is its own value, and a byte appended after
/// others is the most significant, worth `256` to the power of their number.
pub proof fn lemma_le_value_push(s: Seq<u8>, b: u8)
    ensures
        le_value(seq![b]) == b as nat,
        le_value(s.push(b)) == le_value(s) + (b as nat) * pow256(s.len()),
    decreases s.len(),
{
    assert(seq![b].drop_first() =~= Seq::<u8>::empty());
    assert(le_value(seq![b].drop_first()) == 0);
    assert(le_value(seq![b]) == b as nat);
    if s.len() == 0 {
        assert(s.push(b) =~= seq![b]);
        assert(pow256(0) == 1);
        assert(le_value(s) == 0);
        assert((b as nat) * pow256(0) == b as nat) by (nonlinear_arith)
            requires
                pow256(0) == 1,
        ;
    } else {
        lemma_le_value_push(s.drop_first(), b);
        assert(s.push(b).drop_first() =~= s.drop_first().push(b));
        assert(s.push(b)[0] == s[0]);
        assert(le_value(s.push(b)) == s[0] as nat + 256 * le_value(s.drop_first().push(b)));
        assert(le_value(s) == s[0] as nat + 256 * le_value(s.drop_first()));
        assert(256 * ((b as nat) * pow256((s.len() - 1) as nat)) == (b as nat) * pow256(s.len()))
            by (nonlinear_arith)
            requires
                pow256(s.len()) == 256 * pow256((s.len() - 1) as nat),
        ;
    }
}

/// `n` bytes hold the numbers below `256^n`.
pub proof fn lemma_le_value_bound(s: Seq<u8>)
    ensures
        le_value(s) < pow256(s.len()),
    decreases s.len(),
{
    if s.len() > 0 {
        lemma_le_value_bound(s.drop_first());
    }
}

/// Encoding a number that fits and decoding it gives the number back.
pub proof fn lemma_le_value_of_bytes(x: nat, n: nat)
    requires
        x < pow256(n),
    ensures
        le_bytes(x, n).len() == n,
        le_value(le_bytes(x, n)) == x,
    decreases n,
{
    if n > 0 {
        lemma_le_value_of_bytes(x / 256, (n - 1) as nat);
        assert(le_bytes(x, n).drop_first() =~= le_bytes(x / 256, (n - 1) as nat));
    }
}

/// Decoding bytes and encoding the number gives the bytes back.
pub proof fn lemma_le_bytes_of_value(s: Seq<u8>)
    ensures
        le_bytes(le_value(s), s.len()) == s,
    decreases s.len(),
{
    if s.len() > 0 {
        lemma_le_bytes_of_value(s.drop_first());
        assert(le_bytes(le_value(s), s.len()) =~= s);
    }
}

/// The number in bytes `pos .. pos + n` of `data`, for `n` up to 4.
pub fn read_le(data: &[u8], pos: usize, n: usize) -> (v: u32)
    requires
        n <= 4,
        pos + n <= data@.len(),
    ensures
        v == le_value(data@.subrange(pos as int, pos + n)),
{
    let len = data.len();
    let mut v: u32 = 0;
    let mut i: usize = n;
    assert(data@.subrange(pos + n, pos + n) =~= Seq::<u8>::empty());
    while i > 0
        invariant
            i <= n <= 4,
            pos + n <= data@.len(),
            len == data@.len(),
            v == le_value(data@.subrange(pos + i, pos + n)),
        decreases i,
    {
        let ghost tail = data@.subrange(pos + i, pos + n);
        proof {
            lemma_le_value_bound(tail);
            lemma_pow256_small(tail.len());
        }
        i -= 1;
        let ghost s = data@.subrange(pos + i, pos + n);
        assert(s.drop_first() =~= tail);
        v = data[pos + i] as u32 + 256 * v;
    }
    v
}

/// Appends the `n` bytes that encode `x`, for `n` up to 4.
pub fn write_le(out: &mut Vec<u8>, x: u32, n: usize)
    requires
        n <= 4,
    ensures
        final(out)@ == old(out)@ + le_bytes(x as nat, n as nat),
{
    let mut cur: u32 = x;
    let mut i: usize = 0;
    while i < n
        invariant
            i <= n,
            out@ + le_bytes(cur as nat, (n - i) as nat) == old(out)@ + le_bytes(x as nat, n as nat),
        decreases n - i,
    {
        let ghost k = (n - i) as nat;
        let ghost before = out@;
        out.push((cur % 256) as u8);
        assert(before + le_bytes(cur as nat, k) =~= out@ + le_bytes((cur / 256) as nat, (k - 1) as nat));
        cur = cur / 256;
        i += 1;
    }
    assert(out@ + le_bytes(cur as nat, 0) =~= out@);
}

} // verus!
