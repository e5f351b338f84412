//! The CA store: the persisted root key/certificate pair of one root
//! directory, and the bootstrap step that loads it or creates it.
//!
//! The store is the in-memory image of the directory's two files; a
//! collaborator reads them before bootstrap and writes them back after.
//! Bootstrap never overwrites: a complete, well-formed pair is returned
//! unchanged, a half-present or unparseable pair is reported corrupt,
//! and only a fully absent pair is filled with fresh material.

use vstd::prelude::*;
use crate::bytes::clone_bytes;
use crate::cert::{
    Certificate, CertView, zone, dn_of, zone_bytes, dn_bytes, sat_add64, saturating_add64,
    ROOT_VALIDITY_SECS,
};
use crate::codec::{
    spec_encode, spec_decode, encode_certificate, decode_certificate, cert_len_ok,
    lemma_codec_round_trip,
};
use crate::errors::SomeError;

verus! {

/// The two persisted files of one root directory, as read by a
/// collaborator: the root private key and the root certificate.
pub struct CaStore {
    pub key_file: Option<Vec<u8>>,
    pub cert_file: Option<Vec<u8>>,
}

/// The mathematical value of a [`CaStore`].
#[verifier::ext_equal]
pub struct StoreModel {
    pub key_file: Option<Seq<u8>>,
    pub cert_file: Option<Seq<u8>>,
}

impl View for CaStore {
    type V = StoreModel;

    open spec fn view(&self) -> StoreModel {
        StoreModel {
            key_file: match self.key_file {
                Some(k) => Some(k@),
                None => None,
            },
            cert_file: match self.cert_file {
                Some(c) => Some(c@),
                None => None,
            },
        }
    }
}

/// A loaded certificate authority: the root private key, its certificate,
/// and the certificate's encoded bytes as persisted.
pub struct CertificateAuthority {
    pub private_key: Vec<u8>,
    pub cert: Certificate,
    pub cert_der: Vec<u8>,
}

/// The mathematical value of a [`CertificateAuthority`].
#[verifier::ext_equal]
pub struct CaModel {
    pub private_key: Seq<u8>,
    pub cert: CertView,
    pub cert_der: Seq<u8>,
}

impl View for CertificateAuthority {
    type V = CaModel;

    open spec fn view(&self) -> CaModel {
        CaModel { private_key: self.private_key@, cert: self.cert@, cert_der: self.cert_der@ }
    }
}

/// A well-formed authority: its stored bytes decode to its certificate,
/// and that certificate is a CA certificate.
pub open spec fn ca_wf(m: CaModel) -> bool {
    &&& spec_decode(m.cert_der) == Some(m.cert)
    &&& m.cert.is_ca
}

/// Neither file is present.
pub open spec fn store_is_empty(s: StoreModel) -> bool {
    s.key_file is None && s.cert_file is None
}

/// Both files are present.
pub open spec fn store_is_complete(s: StoreModel) -> bool {
    s.key_file is Some && s.cert_file is Some
}

/// Exactly one of the two files is present: a corrupt half-state.
pub open spec fn store_is_partial(s: StoreModel) -> bool {
    !store_is_empty(s) && !store_is_complete(s)
}

/// When the root certificate expires, given the clock at generation.
pub open spec fn root_not_after(now: u64) -> u64 {
    sat_add64(now, ROOT_VALIDITY_SECS)
}

/// The self-signed root certificate generated at `now` for `public_key`:
/// subject and issuer are the zone's own identity, and it is marked a CA.
pub open spec fn root_cert_view(public_key: Seq<u8>, now: u64) -> CertView {
    CertView {
        serial: 0,
        not_before: now,
        not_after: root_not_after(now),
        is_ca: true,
        eku_server: false,
        eku_client: false,
        subject: dn_of(zone()),
        issuer: dn_of(zone()),
        san: zone(),
        public_key,
    }
}

/// The authority a complete store holds, if its certificate bytes decode
/// to a CA certificate.
pub open spec fn loaded_root(s: StoreModel) -> Option<CaModel> {
    match (s.key_file, s.cert_file) {
        (Some(kb), Some(cb)) => match spec_decode(cb) {
            Some(c) => if c.is_ca {
                Some(CaModel { private_key: kb, cert: c, cert_der: cb })
            } else {
                None
            },
            None => None,
        },
        _ => None,
    }
}

/// What bootstrap returns, as a function of the store it saw, the fresh
/// key pair offered, and the clock.
pub open spec fn bootstrap_res(s: StoreModel, fk: Seq<u8>, fp: Seq<u8>, now: u64) -> Result<
    CaModel,
    SomeError,
> {
    if store_is_complete(s) {
        match loaded_root(s) {
            Some(m) => Ok(m),
            None => Err(SomeError::CaStoreCorrupt),
        }
    } else if store_is_partial(s) {
        Err(SomeError::CaStoreCorrupt)
    } else if fk.len() == 0 || fp.len() == 0 {
        Err(SomeError::CaGenerationFailed)
    } else {
        Ok(
            CaModel {
                private_key: fk,
                cert: root_cert_view(fp, now),
                cert_der: spec_encode(root_cert_view(fp, now)),
            },
        )
    }
}

/// What the store holds after bootstrap: filled once when it was empty
/// and fresh material was usable, untouched in every other case.
pub open spec fn bootstrap_post(s: StoreModel, fk: Seq<u8>, fp: Seq<u8>, now: u64) -> StoreModel {
    if store_is_empty(s) && fk.len() > 0 && fp.len() > 0 {
        StoreModel {
            key_file: Some(fk),
            cert_file: Some(spec_encode(root_cert_view(fp, now))),
        }
    } else {
        s
    }
}

/// The self-signed root certificate record for `public_key` at `now`.
pub fn make_root_certificate(public_key: &Vec<u8>, now: u64) -> (c: Certificate)
    ensures
        c@ == root_cert_view(public_key@, now),
{
    let z = zone_bytes();
    let subject = dn_bytes(&z);
    let issuer = dn_bytes(&z);
    let san = zone_bytes();
    let c = Certificate {
        serial: 0,
        not_before: now,
        not_after: saturating_add64(now, ROOT_VALIDITY_SECS),
        is_ca: true,
        eku_server: false,
        eku_client: false,
        subject,
        issuer,
        san,
        public_key: clone_bytes(public_key),
    };
    proof {
        assert(c@ =~~= root_cert_view(public_key@, now));
    }
    c
}

/// Loads the root CA from `store`, or generates and installs one.
///
/// A complete store whose certificate decodes to a CA certificate is
/// returned as it stands, byte for byte; a half-present pair or an
/// unparseable certificate is `CaStoreCorrupt` and the store is left
/// alone; an empty store is filled with a root built from the fresh key
/// pair, or fails with `CaGenerationFailed` when either half of that
/// pair is missing.  The caller runs this under its bootstrap lock and
/// persists the store afterwards.
pub fn generate_root_ca(
    store: &mut CaStore,
    fresh_private: Vec<u8>,
    fresh_public: Vec<u8>,
    now: u64,
) -> (r: Result<CertificateAuthority, SomeError>)
    ensures
        final(store)@ == bootstrap_post(old(store)@, fresh_private@, fresh_public@, now),
        bootstrap_res(old(store)@, fresh_private@, fresh_public@, now) matches Ok(m) ==> (r
            matches Ok(ca) && ca@ == m && ca_wf(m)),
        bootstrap_res(old(store)@, fresh_private@, fresh_public@, now) matches Err(e) ==> (r
            matches Err(e2) && e2 == e),
{
    let have_key = store.key_file.is_some();
    let have_cert = store.cert_file.is_some();
    if have_key && have_cert {
        let cb: &Vec<u8> = store.cert_file.as_ref().unwrap();
        match decode_certificate(cb) {
            Some(c) => {
                if c.is_ca {
                    let kb: &Vec<u8> = store.key_file.as_ref().unwrap();
                    let ca = CertificateAuthority {
                        private_key: clone_bytes(kb),
                        cert: c,
                        cert_der: clone_bytes(cb),
                    };
                    proof {
                        let m = CaModel { private_key: kb@, cert: c@, cert_der: cb@ };
                        assert(loaded_root(old(store)@) == Some(m));
                        assert(ca@ =~~= m);
                    }
                    Ok(ca)
                } else {
                    Err(SomeError::CaStoreCorrupt)
                }
            },
            None => Err(SomeError::CaStoreCorrupt),
        }
    } else if have_key || have_cert {
        Err(SomeError::CaStoreCorrupt)
    } else if fresh_private.len() == 0 || fresh_public.len() == 0 {
        Err(SomeError::CaGenerationFailed)
    } else {
        let cert = make_root_certificate(&fresh_public, now);
        let der = encode_certificate(&cert);
        let ca = CertificateAuthority {
            private_key: clone_bytes(&fresh_private),
            cert,
            cert_der: clone_bytes(&der),
        };
        store.key_file = Some(fresh_private);
        store.cert_file = Some(der);
        proof {
            let rc = root_cert_view(fresh_public@, now);
            assert(cert_len_ok(rc));
            lemma_codec_round_trip(rc);
            assert(store@ =~~= bootstrap_post(old(store)@, fresh_private@, fresh_public@, now));
            assert(ca@ =~~= CaModel {
                private_key: fresh_private@,
                cert: rc,
                cert_der: spec_encode(rc),
            });
        }
        Ok(ca)
    }
}

/// Bootstrap is idempotent: after one bootstrap fills an empty store, a
/// second bootstrap — whatever fresh material and clock it brings —
/// returns the very same authority, byte-identical certificate included,
/// and leaves the store unchanged.
#[verifier::rlimit(100)]
pub proof fn lemma_bootstrap_idempotent(
    s0: StoreModel,
    k1: Seq<u8>,
    p1: Seq<u8>,
    t1: u64,
    k2: Seq<u8>,
    p2: Seq<u8>,
    t2: u64,
)
    requires
        store_is_empty(s0),
        k1.len() > 0,
        p1.len() > 0,
        p1.len() <= u64::MAX,
    ensures
        (bootstrap_res(s0, k1, p1, t1) matches Ok(m1) && bootstrap_res(
            bootstrap_post(s0, k1, p1, t1),
            k2,
            p2,
            t2,
        ) matches Ok(m2) && m2 == m1),
        bootstrap_post(bootstrap_post(s0, k1, p1, t1), k2, p2, t2) == bootstrap_post(
            s0,
            k1,
            p1,
            t1,
        ),
{
    let rc = root_cert_view(p1, t1);
    assert(cert_len_ok(rc));
    lemma_codec_round_trip(rc);
    let e = spec_encode(rc);
    let m1 = CaModel { private_key: k1, cert: rc, cert_der: e };
    let s1 = bootstrap_post(s0, k1, p1, t1);
    assert(bootstrap_res(s0, k1, p1, t1) == Ok::<CaModel, SomeError>(m1));
    assert(s1.key_file == Some(k1) && s1.cert_file == Some(e));
    assert(store_is_complete(s1) && !store_is_empty(s1));
    assert(spec_decode(e) == Some(rc));
    assert(loaded_root(s1) == Some(m1));
    assert(bootstrap_res(s1, k2, p2, t2) == Ok::<CaModel, SomeError>(m1));
    assert(bootstrap_post(s1, k2, p2, t2) == s1);
}

/// Serialized concurrent bootstraps create exactly one CA: from an empty
/// store, the first caller generates and every later caller — with its
/// own fresh material — observes that first caller's certificate bytes,
/// and the store still holds exactly the first caller's pair.
pub proof fn lemma_bootstrap_single_ca(
    s0: StoreModel,
    k1: Seq<u8>,
    p1: Seq<u8>,
    t1: u64,
    k2: Seq<u8>,
    p2: Seq<u8>,
    t2: u64,
)
    requires
        store_is_empty(s0),
        k1.len() > 0,
        p1.len() > 0,
        p1.len() <= u64::MAX,
    ensures
        (bootstrap_res(s0, k1, p1, t1) matches Ok(m1) && bootstrap_res(
            bootstrap_post(s0, k1, p1, t1),
            k2,
            p2,
            t2,
        ) matches Ok(m2) && m2.cert_der == m1.cert_der && m2.private_key == m1.private_key),
        bootstrap_post(bootstrap_post(s0, k1, p1, t1), k2, p2, t2) == (StoreModel {
            key_file: Some(k1),
            cert_file: Some(spec_encode(root_cert_view(p1, t1))),
        }),
{
    lemma_bootstrap_idempotent(s0, k1, p1, t1, k2, p2, t2);
}

} // verus!
