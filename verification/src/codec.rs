//! The persisted form of a certificate record.
//!
//! A record is laid out as three big-endian `u64`s (serial and validity
//! window), three flag bytes, and four length-prefixed byte strings
//! (subject, issuer, subject alternative name, public key), with nothing
//! after them.  Decoding accepts exactly the encodings this module
//! produces; a store whose certificate bytes do not decode is corrupt.

use vstd::prelude::*;
use crate::bytes::{
    spec_u64_bytes, spec_u64_of, lemma_u64_bytes_round_trip, push_u64_be, read_u64_be,
    append_bytes,
};
use crate::cert::{Certificate, CertView};

verus! {

/// The single byte that stands for a flag.
pub open spec fn bool_byte(b: bool) -> Seq<u8> {
    if b {
        seq![1u8]
    } else {
        seq![0u8]
    }
}

/// A byte string with its length in front.
pub open spec fn len_field(s: Seq<u8>) -> Seq<u8> {
    spec_u64_bytes(s.len() as u64) + s
}

/// Whether every byte-string field of `c` fits its length prefix.  Every
/// certificate held in memory satisfies this.
pub open spec fn cert_len_ok(c: CertView) -> bool {
    &&& c.subject.len() <= u64::MAX
    &&& c.issuer.len() <= u64::MAX
    &&& c.san.len() <= u64::MAX
    &&& c.public_key.len() <= u64::MAX
}

/// The encoded bytes of the record `c`.
pub open spec fn spec_encode(c: CertView) -> Seq<u8> {
    spec_u64_bytes(c.serial) + (spec_u64_bytes(c.not_before) + (spec_u64_bytes(c.not_after) + (
    bool_byte(c.is_ca) + (bool_byte(c.eku_server) + (bool_byte(c.eku_client) + (len_field(
        c.subject,
    ) + (len_field(c.issuer) + (len_field(c.san) + len_field(c.public_key)))))))))
}

/// Reads a `u64` off the front of `b`.
pub open spec fn dec_u64(b: Seq<u8>) -> Option<(u64, Seq<u8>)> {
    if b.len() >= 8 {
        Some((spec_u64_of(b.subrange(0, 8)), b.skip(8)))
    } else {
        None
    }
}

/// Reads a flag byte off the front of `b`; only 0 and 1 are flags.
pub open spec fn dec_bool(b: Seq<u8>) -> Option<(bool, Seq<u8>)> {
    if b.len() >= 1 && (b[0] == 0u8 || b[0] == 1u8) {
        Some((b[0] == 1u8, b.skip(1)))
    } else {
        None
    }
}

/// Reads a length-prefixed byte string off the front of `b`.
pub open spec fn dec_field(b: Seq<u8>) -> Option<(Seq<u8>, Seq<u8>)> {
    match dec_u64(b) {
        Some((n, rest)) => if rest.len() >= n {
            Some((rest.take(n as int), rest.skip(n as int)))
        } else {
            None
        },
        None => None,
    }
}

/// The record encoded in `b`, if `b` is exactly one encoded record.
pub open spec fn spec_decode(b: Seq<u8>) -> Option<CertView> {
    match dec_u64(b) {
        None => None,
        Some((serial, b1)) => match dec_u64(b1) {
            None => None,
            Some((not_before, b2)) => match dec_u64(b2) {
                None => None,
                Some((not_after, b3)) => match dec_bool(b3) {
                    None => None,
                    Some((is_ca, b4)) => match dec_bool(b4) {
                        None => None,
                        Some((eku_server, b5)) => match dec_bool(b5) {
                            None => None,
                            Some((eku_client, b6)) => match dec_field(b6) {
                                None => None,
                                Some((subject, b7)) => match dec_field(b7) {
                                    None => None,
                                    Some((issuer, b8)) => match dec_field(b8) {
                                        None => None,
                                        Some((san, b9)) => match dec_field(b9) {
                                            None => None,
                                            Some((public_key, b10)) => if b10.len() == 0 {
                                                Some(
                                                    CertView {
                                                        serial,
                                                        not_before,
                                                        not_after,
                                                        is_ca,
                                                        eku_server,
                                                        eku_client,
                                                        subject,
                                                        issuer,
                                                        san,
                                                        public_key,
                                                    },
                                                )
                                            } else {
                                                None
                                            },
                                        },
                                    },
                                },
                            },
                        },
                    },
                },
            },
        },
    }
}

/// A `u64` written in front of `rest` reads back unchanged.
pub proof fn lemma_dec_u64(x: u64, rest: Seq<u8>)
    ensures
        dec_u64(spec_u64_bytes(x) + rest) == Some((x, rest)),
{
    let b = spec_u64_bytes(x) + rest;
    assert(b.subrange(0, 8) =~= spec_u64_bytes(x));
    lemma_u64_bytes_round_trip(x);
    assert(b.skip(8) =~= rest);
}

/// A flag byte written in front of `rest` reads back unchanged.
pub proof fn lemma_dec_bool(v: bool, rest: Seq<u8>)
    ensures
        dec_bool(bool_byte(v) + rest) == Some((v, rest)),
{
    let b = bool_byte(v) + rest;
    assert(b[0] == if v {
        1u8
    } else {
        0u8
    });
    assert(b.skip(1) =~= rest);
}

/// A length-prefixed byte string written in front of `rest` reads back
/// unchanged.
pub proof fn lemma_dec_field(s: Seq<u8>, rest: Seq<u8>)
    requires
        s.len() <= u64::MAX,
    ensures
        dec_field(len_field(s) + rest) == Some((s, rest)),
{
    let n = s.len() as u64;
    assert(len_field(s) + rest =~= spec_u64_bytes(n) + (s + rest));
    lemma_dec_u64(n, s + rest);
    assert((s + rest).take(n as int) =~= s);
    assert((s + rest).skip(n as int) =~= rest);
}

/// Decoding undoes encoding: every record whose fields fit their length
/// prefixes is read back exactly from its own encoding.
#[verifier::rlimit(60)]
pub proof fn lemma_codec_round_trip(c: CertView)
    requires
        cert_len_ok(c),
    ensures
        spec_decode(spec_encode(c)) == Some(c),
{
    let t9 = len_field(c.public_key);
    let t8 = len_field(c.san) + t9;
    let t7 = len_field(c.issuer) + t8;
    let t6 = len_field(c.subject) + t7;
    let t5 = bool_byte(c.eku_client) + t6;
    let t4 = bool_byte(c.eku_server) + t5;
    let t3 = bool_byte(c.is_ca) + t4;
    let t2 = spec_u64_bytes(c.not_after) + t3;
    let t1 = spec_u64_bytes(c.not_before) + t2;
    lemma_dec_u64(c.serial, t1);
    lemma_dec_u64(c.not_before, t2);
    lemma_dec_u64(c.not_after, t3);
    lemma_dec_bool(c.is_ca, t4);
    lemma_dec_bool(c.eku_server, t5);
    lemma_dec_bool(c.eku_client, t6);
    lemma_dec_field(c.subject, t7);
    lemma_dec_field(c.issuer, t8);
    lemma_dec_field(c.san, t9);
    assert(t9 =~= len_field(c.public_key) + Seq::<u8>::empty());
    lemma_dec_field(c.public_key, Seq::<u8>::empty());
    assert(spec_decode(spec_encode(c)) == Some(c));
}

/// Appends the flag byte for `b` to `out`.
pub fn push_bool(out: &mut Vec<u8>, b: bool)
    ensures
        final(out)@ == old(out)@ + bool_byte(b),
{
    if b {
        out.push(1u8);
    } else {
        out.push(0u8);
    }
    proof {
        assert(out@ =~= old(out)@ + bool_byte(b));
    }
}

/// Appends the length-prefixed form of `s` to `out`.
pub fn push_field(out: &mut Vec<u8>, s: &Vec<u8>)
    ensures
        final(out)@ == old(out)@ + len_field(s@),
{
    let n = s.len();
    push_u64_be(out, n as u64);
    append_bytes(out, s);
    proof {
        assert(out@ =~= old(out)@ + len_field(s@));
    }
}

/// The encoded bytes of `c`.
pub fn encode_certificate(c: &Certificate) -> (out: Vec<u8>)
    ensures
        out@ == spec_encode(c@),
{
    let mut out: Vec<u8> = Vec::new();
    push_u64_be(&mut out, c.serial);
    push_u64_be(&mut out, c.not_before);
    push_u64_be(&mut out, c.not_after);
    push_bool(&mut out, c.is_ca);
    push_bool(&mut out, c.eku_server);
    push_bool(&mut out, c.eku_client);
    push_field(&mut out, &c.subject);
    push_field(&mut out, &c.issuer);
    push_field(&mut out, &c.san);
    push_field(&mut out, &c.public_key);
    proof {
        assert(out@ =~= spec_encode(c@));
    }
    out
}

/// Reads a `u64` at offset `i`, as [`dec_u64`] does on the tail of `v`.
fn take_u64(v: &Vec<u8>, i: usize) -> (r: Option<(u64, usize)>)
    requires
        i <= v@.len(),
    ensures
        match r {
            Some((x, j)) => i + 8 == j && j <= v@.len() && dec_u64(v@.skip(i as int)) == Some(
                (x, v@.skip(j as int)),
            ),
            None => dec_u64(v@.skip(i as int)) is None,
        },
{
    let n = v.len();
    if n - i >= 8 {
        let x = read_u64_be(v, i);
        proof {
            let s = v@.skip(i as int);
            assert(s.subrange(0, 8) =~= v@.subrange(i as int, i as int + 8));
            assert(s.skip(8) =~= v@.skip(i as int + 8));
        }
        Some((x, i + 8))
    } else {
        proof {
            assert(v@.skip(i as int).len() < 8);
        }
        None
    }
}

/// Reads a flag byte at offset `i`, as [`dec_bool`] does on the tail of `v`.
fn take_bool(v: &Vec<u8>, i: usize) -> (r: Option<(bool, usize)>)
    requires
        i <= v@.len(),
    ensures
        match r {
            Some((x, j)) => i + 1 == j && j <= v@.len() && dec_bool(v@.skip(i as int)) == Some(
                (x, v@.skip(j as int)),
            ),
            None => dec_bool(v@.skip(i as int)) is None,
        },
{
    let n = v.len();
    if i < n {
        let b = v[i];
        proof {
            let s = v@.skip(i as int);
            assert(s[0] == v@[i as int]);
            assert(s.skip(1) =~= v@.skip(i as int + 1));
        }
        if b == 0 {
            Some((false, i + 1))
        } else if b == 1 {
            Some((true, i + 1))
        } else {
            None
        }
    } else {
        proof {
            assert(v@.skip(i as int).len() == 0);
        }
        None
    }
}

/// Reads a length-prefixed byte string at offset `i`, as [`dec_field`]
/// does on the tail of `v`.
fn take_field(v: &Vec<u8>, i: usize) -> (r: Option<(Vec<u8>, usize)>)
    requires
        i <= v@.len(),
    ensures
        match r {
            Some((s, j)) => i <= j <= v@.len() && dec_field(v@.skip(i as int)) == Some(
                (s@, v@.skip(j as int)),
            ),
            None => dec_field(v@.skip(i as int)) is None,
        },
{
    match take_u64(v, i) {
        None => None,
        Some((n64, j)) => {
            let n = v.len();
            let rem = n - j;
            if n64 <= rem as u64 {
                let cnt = n64 as usize;
                proof {
                    assert(cnt == n64);
                }
                let mut s: Vec<u8> = Vec::new();
                let mut k: usize = 0;
                while k < cnt
                    invariant
                        k <= cnt,
                        j + cnt <= v@.len(),
                        v@.len() <= usize::MAX,
                        s@ == v@.subrange(j as int, j as int + k as int),
                    decreases cnt - k,
                {
                    s.push(v[j + k]);
                    proof {
                        assert(s@ =~= v@.subrange(j as int, j as int + k as int + 1));
                    }
                    k = k + 1;
                }
                proof {
                    let rest = v@.skip(j as int);
                    assert(rest.take(n64 as int) =~= v@.subrange(j as int, j as int + cnt as int));
                    assert(rest.skip(n64 as int) =~= v@.skip(j as int + cnt as int));
                }
                Some((s, j + cnt))
            } else {
                proof {
                    assert(v@.skip(j as int).len() < n64);
                }
                None
            }
        },
    }
}

/// The record held in `v`, or nothing if `v` is not exactly one encoded
/// record.
#[verifier::rlimit(60)]
pub fn decode_certificate(v: &Vec<u8>) -> (r: Option<Certificate>)
    ensures
        match r {
            Some(c) => spec_decode(v@) == Some(c@),
            None => spec_decode(v@) is None,
        },
{
    proof {
        assert(v@.skip(0) =~= v@);
    }
    let r0 = take_u64(v, 0);
    let (serial, i1) = match r0 {
        Some(p) => p,
        None => { return None; },
    };
    let r1 = take_u64(v, i1);
    let (not_before, i2) = match r1 {
        Some(p) => p,
        None => { return None; },
    };
    let r2 = take_u64(v, i2);
    let (not_after, i3) = match r2 {
        Some(p) => p,
        None => { return None; },
    };
    let r3 = take_bool(v, i3);
    let (is_ca, i4) = match r3 {
        Some(p) => p,
        None => { return None; },
    };
    let r4 = take_bool(v, i4);
    let (eku_server, i5) = match r4 {
        Some(p) => p,
        None => { return None; },
    };
    let r5 = take_bool(v, i5);
    let (eku_client, i6) = match r5 {
        Some(p) => p,
        None => { return None; },
    };
    let r6 = take_field(v, i6);
    let (subject, i7) = match r6 {
        Some(p) => p,
        None => { return None; },
    };
    let r7 = take_field(v, i7);
    let (issuer, i8) = match r7 {
        Some(p) => p,
        None => { return None; },
    };
    let r8 = take_field(v, i8);
    let (san, i9) = match r8 {
        Some(p) => p,
        None => { return None; },
    };
    let r9 = take_field(v, i9);
    let (public_key, i10) = match r9 {
        Some(p) => p,
        None => { return None; },
    };
    if i10 == v.len() {
        proof {
            assert(v@.skip(i10 as int).len() == 0);
        }
        let c = Certificate {
            serial,
            not_before,
            not_after,
            is_ca,
            eku_server,
            eku_client,
            subject,
            issuer,
            san,
            public_key,
        };
        proof {
            assert(spec_decode(v@) == Some(c@));
        }
        Some(c)
    } else {
        proof {
            assert(v@.skip(i10 as int).len() > 0);
        }
        None
    }
}

} // verus!
