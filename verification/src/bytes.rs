//! Byte-level helpers: copying, comparing, and the big-endian form of a
//! `u64` that the certificate encoding uses for serials, timestamps and
//! length prefixes.

use vstd::prelude::*;

verus! {

/// The eight big-endian bytes of `x`, most significant first.
pub open spec fn spec_u64_bytes(x: u64) -> Seq<u8> {
    seq![
        ((x >> 56) & 0xff) as u8,
        ((x >> 48) & 0xff) as u8,
        ((x >> 40) & 0xff) as u8,
        ((x >> 32) & 0xff) as u8,
        ((x >> 24) & 0xff) as u8,
        ((x >> 16) & 0xff) as u8,
        ((x >> 8) & 0xff) as u8,
        (x & 0xff) as u8,
    ]
}

/// The `u64` read back from eight big-endian bytes.
pub open spec fn spec_u64_of(b: Seq<u8>) -> u64
    recommends
        b.len() == 8,
{
    ((b[0] as u64) << 56) | ((b[1] as u64) << 48) | ((b[2] as u64) << 40) | ((b[3] as u64) << 32)
        | ((b[4] as u64) << 24) | ((b[5] as u64) << 16) | ((b[6] as u64) << 8) | (b[7] as u64)
}

/// Reading back the eight bytes of `x` yields `x` again.
pub proof fn lemma_u64_bytes_round_trip(x: u64)
    ensures
        spec_u64_of(spec_u64_bytes(x)) == x,
{
    assert(((((((x >> 56) & 0xff) as u8) as u64) << 56) | (((((x >> 48) & 0xff) as u8) as u64)
        << 48) | (((((x >> 40) & 0xff) as u8) as u64) << 40) | (((((x >> 32) & 0xff) as u8) as u64)
        << 32) | (((((x >> 24) & 0xff) as u8) as u64) << 24) | (((((x >> 16) & 0xff) as u8) as u64)
        << 16) | (((((x >> 8) & 0xff) as u8) as u64) << 8) | (((x & 0xff) as u8) as u64)) == x)
        by (bit_vector);
}

/// Appends the big-endian bytes of `x` to `out`.
pub fn push_u64_be(out: &mut Vec<u8>, x: u64)
    ensures
        final(out)@ == old(out)@ + spec_u64_bytes(x),
{
    out.push(((x >> 56) & 0xff) as u8);
    out.push(((x >> 48) & 0xff) as u8);
    out.push(((x >> 40) & 0xff) as u8);
    out.push(((x >> 32) & 0xff) as u8);
    out.push(((x >> 24) & 0xff) as u8);
    out.push(((x >> 16) & 0xff) as u8);
    out.push(((x >> 8) & 0xff) as u8);
    out.push((x & 0xff) as u8);
    proof {
        assert(out@ =~= old(out)@ + spec_u64_bytes(x));
    }
}

/// Reads the `u64` stored big-endian at offset `i` of `v`.
pub fn read_u64_be(v: &Vec<u8>, i: usize) -> (x: u64)
    requires
        i + 8 <= v@.len(),
    ensures
        x == spec_u64_of(v@.subrange(i as int, i as int + 8)),
{
    let n = v.len();
    assert(i + 8 <= n);
    let x = ((v[i] as u64) << 56) | ((v[i + 1] as u64) << 48) | ((v[i + 2] as u64) << 40) | ((v[i
        + 3] as u64) << 32) | ((v[i + 4] as u64) << 24) | ((v[i + 5] as u64) << 16) | ((v[i
        + 6] as u64) << 8) | (v[i + 7] as u64);
    proof {
        let b = v@.subrange(i as int, i as int + 8);
        assert(b[0] == v@[i as int]);
        assert(b[1] == v@[i as int + 1]);
        assert(b[2] == v@[i as int + 2]);
        assert(b[3] == v@[i as int + 3]);
        assert(b[4] == v@[i as int + 4]);
        assert(b[5] == v@[i as int + 5]);
        assert(b[6] == v@[i as int + 6]);
        assert(b[7] == v@[i as int + 7]);
    }
    x
}

/// A fresh copy of `v` with the same contents.
pub fn clone_bytes(v: &Vec<u8>) -> (r: Vec<u8>)
    ensures
        r@ == v@,
{
    let mut r: Vec<u8> = Vec::new();
    let mut k: usize = 0;
    while k < v.len()
        invariant
            k <= v@.len(),
            r@ == v@.subrange(0, k as int),
        decreases v@.len() - k,
    {
        r.push(v[k]);
        proof {
            assert(r@ =~= v@.subrange(0, k as int + 1));
        }
        k = k + 1;
    }
    proof {
        assert(r@ =~= v@);
    }
    r
}

/// Appends all of `src` to `dst`.
pub fn append_bytes(dst: &mut Vec<u8>, src: &Vec<u8>)
    ensures
        final(dst)@ == old(dst)@ + src@,
{
    let mut k: usize = 0;
    while k < src.len()
        invariant
            k <= src@.len(),
            dst@ == old(dst)@ + src@.subrange(0, k as int),
        decreases src@.len() - k,
    {
        dst.push(src[k]);
        proof {
            assert(dst@ =~= old(dst)@ + src@.subrange(0, k as int + 1));
        }
        k = k + 1;
    }
    proof {
        assert(dst@ =~= old(dst)@ + src@);
    }
}

/// Whether `a` and `b` hold the same bytes.
pub fn bytes_eq(a: &Vec<u8>, b: &Vec<u8>) -> (r: bool)
    ensures
        r <==> a@ == b@,
{
    if a.len() != b.len() {
        proof {
            assert(a@ != b@);
        }
        return false;
    }
    let mut k: usize = 0;
    while k < a.len()
        invariant
            a@.len() == b@.len(),
            k <= a@.len(),
            forall|j: int| 0 <= j < k ==> a@[j] == b@[j],
        decreases a@.len() - k,
    {
        if a[k] != b[k] {
            proof {
                assert(a@[k as int] != b@[k as int]);
            }
            return false;
        }
        k = k + 1;
    }
    proof {
        assert(a@ =~= b@);
    }
    true
}

} // verus!
