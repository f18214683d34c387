use vstd::arithmetic::power2::{lemma2_to64, lemma_pow2_adds, lemma_pow2_strictly_increases, pow2};
use vstd::prelude::*;

verus! {

/// The eight little-endian bytes of `x`.
pub open spec fn u64_le(x: u64) -> Seq<u8> {
    seq![
        (x & 0xff) as u8,
        ((x >> 8u64) & 0xff) as u8,
        ((x >> 16u64) & 0xff) as u8,
        ((x >> 24u64) & 0xff) as u8,
        ((x >> 32u64) & 0xff) as u8,
        ((x >> 40u64) & 0xff) as u8,
        ((x >> 48u64) & 0xff) as u8,
        ((x >> 56u64) & 0xff) as u8,
    ]
}

/// The little-endian encoding of each value, one after the other.
pub open spec fn u64s_le(xs: Seq<u64>) -> Seq<u8>
    decreases xs.len(),
{
    if xs.len() == 0 {
        Seq::empty()
    } else {
        u64s_le(xs.drop_last()) + u64_le(xs.last())
    }
}

/// The unsigned value of little-endian bytes.
pub open spec fn le_value(s: Seq<u8>) -> nat
    decreases s.len(),
{
    if s.len() == 0 {
        0
    } else {
        s[0] as nat + 256 * le_value(s.drop_first())
    }
}

/// The two's complement value of `bits` bits held as the unsigned value `u`.
pub open spec fn signed_of(u: nat, bits: nat) -> int {
    if u < pow2((bits - 1) as nat) {
        u as int
    } else {
        u as int - pow2(bits)
    }
}

/// Appends the little-endian bytes of `x`.
pub fn push_u64_le(out: &mut Vec<u8>, x: u64)
    ensures
        final(out)@ == old(out)@ + u64_le(x),
{
    out.push((x & 0xff) as u8);
    out.push(((x >> 8u64) & 0xff) as u8);
    out.push(((x >> 16u64) & 0xff) as u8);
    out.push(((x >> 24u64) & 0xff) as u8);
    out.push(((x >> 32u64) & 0xff) as u8);
    out.push(((x >> 40u64) & 0xff) as u8);
    out.push(((x >> 48u64) & 0xff) as u8);
    out.push(((x >> 56u64) & 0xff) as u8);
    assert(final(out)@ =~= old(out)@ + u64_le(x));
}

/// Appends every byte of `bytes`.
pub fn push_all(out: &mut Vec<u8>, bytes: &[u8])
    ensures
        final(out)@ == old(out)@ + bytes@,
{
    let ghost start = out@;
    let mut i: usize = 0;
    while i < bytes.len()
        invariant
            i <= bytes@.len(),
            out@ == start + bytes@.subrange(0, i as int),
        decreases bytes@.len() - i,
    {
        out.push(bytes[i]);
        i = i + 1;
        assert(out@ =~= start + bytes@.subrange(0, i as int));
    }
    assert(bytes@.subrange(0, i as int) =~= bytes@);
}

/// Reads `n` bytes at `off` as a little-endian unsigned value.
pub fn read_le(data: &[u8], off: usize, n: usize) -> (r: u64)
    requires
        n <= 8,
        off + n <= data@.len(),
    ensures
        r as nat == le_value(data@.subrange(off as int, off + n)),
        r < pow2(8 * n as nat),
{
    let len = data.len();
    let mut r: u64 = 0;
    let mut k: usize = n;
    proof {
        lemma2_to64();
    }
    while k > 0
        invariant
            k <= n <= 8,
            off + n <= data@.len(),
            len == data@.len(),
            r as nat == le_value(data@.subrange(off + k, off + n)),
            r < pow2(8 * (n - k) as nat),
        decreases k,
    {
        k = k - 1;
        assert(data@.subrange(off + k, off + n).drop_first() =~= data@.subrange(off + k + 1, off + n));
        let ghost width = 8 * (n - k) as nat;
        proof {
            lemma2_to64();
            lemma_pow2_adds(8, (width - 8) as nat);
            if width < 64 {
                lemma_pow2_strictly_increases(width, 64);
            }
        }
        assert(r * 256 + 255 < pow2(width)) by (nonlinear_arith)
            requires
                r < pow2((width - 8) as nat),
                pow2(width) == pow2(8) * pow2((width - 8) as nat),
                pow2(8) == 256,
        ;
        assert(pow2(width) <= pow2(64));
        let b = data[off + k];
        r = r * 256 + b as u64;
    }
    r
}

} // verus!
