//! The certificate signer: turns a consistent identity request into a
//! leaf certificate under the CA's authority.
//!
//! Policy proved here: the leaf's issuer is the CA certificate's
//! subject, its validity window never reaches past the CA's own expiry,
//! it carries the TLS server and client extended key usages and is not
//! itself a CA, and each signing consumes one serial-counter value, so
//! no two signed certificates share a serial number.

use vstd::prelude::*;
use crate::bytes::{clone_bytes, bytes_eq};
use crate::cert::{Certificate, CertView, san_of, dn_of, san_bytes, dn_bytes, sat_add64,
    saturating_add64, LEAF_VALIDITY_SECS,
};
use crate::errors::SomeError;
use crate::issuer::{CsrModel, WorkloadIdentityRequest, valid_workload_name, check_workload_name};
use crate::store::CertificateAuthority;

verus! {

/// A request the signer accepts: a valid name whose subject alternative
/// name is exactly `<name>.<zone>`, whose common name is that same
/// identity, and which carries a public key.
pub open spec fn csr_consistent(c: CsrModel) -> bool {
    &&& valid_workload_name(c.name)
    &&& c.san == san_of(c.name)
    &&& c.subject == dn_of(c.san)
    &&& c.public_key.len() > 0
}

/// When a leaf signed at `now` expires: a full leaf validity window,
/// cut off at the CA's own expiry.
pub open spec fn leaf_not_after(now: u64, ca_not_after: u64) -> u64 {
    if sat_add64(now, LEAF_VALIDITY_SECS) <= ca_not_after {
        sat_add64(now, LEAF_VALIDITY_SECS)
    } else {
        ca_not_after
    }
}

/// The leaf certificate for request `c` under the CA certificate `ca`,
/// with serial `serial`, signed at `now`.
pub open spec fn leaf_cert_view(c: CsrModel, ca: CertView, serial: u64, now: u64) -> CertView {
    CertView {
        serial,
        not_before: now,
        not_after: leaf_not_after(now, ca.not_after),
        is_ca: false,
        eku_server: true,
        eku_client: true,
        subject: c.subject,
        issuer: ca.subject,
        san: c.san,
        public_key: c.public_key,
    }
}

/// What signing returns: `CaExpired` when `now` lies outside the CA's
/// own validity window, `CsrInvalid` for an inconsistent request,
/// `SigningFailed` when the serial space is exhausted, and otherwise
/// the leaf certificate.
pub open spec fn sign_res(c: CsrModel, ca: CertView, serial: u64, now: u64) -> Result<
    CertView,
    SomeError,
> {
    if !(ca.not_before <= now && now <= ca.not_after) {
        Err(SomeError::CaExpired)
    } else if !csr_consistent(c) {
        Err(SomeError::CsrInvalid)
    } else if serial == u64::MAX {
        Err(SomeError::SigningFailed)
    } else {
        Ok(leaf_cert_view(c, ca, serial, now))
    }
}

/// Signs `csr` with `ca`'s authority, allocating one serial number.
///
/// On success the serial counter advances by exactly one; on any
/// failure it is left untouched, and the specific error says which
/// check refused the request.
pub fn sign_server_certificate(
    csr: &WorkloadIdentityRequest,
    ca: &CertificateAuthority,
    serial: &mut u64,
    now: u64,
) -> (r: Result<Certificate, SomeError>)
    ensures
        (sign_res(csr@, ca@.cert, *old(serial), now) matches Ok(m) ==> (r matches Ok(c) && c@ == m
            && *final(serial) == *old(serial) + 1)),
        (sign_res(csr@, ca@.cert, *old(serial), now) matches Err(e) ==> (r matches Err(e2) && e2
            == e && *final(serial) == *old(serial))),
{
    if !(ca.cert.not_before <= now && now <= ca.cert.not_after) {
        return Err(SomeError::CaExpired);
    }
    let name_ok = check_workload_name(&csr.name);
    let expected_san = san_bytes(&csr.name);
    let expected_subject = dn_bytes(&csr.san);
    let consistent = name_ok && bytes_eq(&csr.san, &expected_san) && bytes_eq(
        &csr.subject,
        &expected_subject,
    ) && csr.public_key.len() > 0;
    if !consistent {
        return Err(SomeError::CsrInvalid);
    }
    let s = *serial;
    if s == u64::MAX {
        return Err(SomeError::SigningFailed);
    }
    *serial = s + 1;
    let not_after = {
        let want = saturating_add64(now, LEAF_VALIDITY_SECS);
        if want <= ca.cert.not_after {
            want
        } else {
            ca.cert.not_after
        }
    };
    let c = Certificate {
        serial: s,
        not_before: now,
        not_after,
        is_ca: false,
        eku_server: true,
        eku_client: true,
        subject: clone_bytes(&csr.subject),
        issuer: clone_bytes(&ca.cert.subject),
        san: clone_bytes(&csr.san),
        public_key: clone_bytes(&csr.public_key),
    };
    proof {
        assert(c@ =~~= leaf_cert_view(csr@, ca@.cert, s, now));
    }
    Ok(c)
}

/// Serial numbers never repeat: two signings that consumed different
/// serial-counter states carry different serial numbers, whatever
/// requests and clocks they served.
pub proof fn lemma_serial_uniqueness(
    c1: CsrModel,
    c2: CsrModel,
    ca: CertView,
    s1: u64,
    s2: u64,
    t1: u64,
    t2: u64,
)
    requires
        s1 != s2,
        sign_res(c1, ca, s1, t1) is Ok,
        sign_res(c2, ca, s2, t2) is Ok,
    ensures
        (sign_res(c1, ca, s1, t1) matches Ok(m1) && sign_res(c2, ca, s2, t2) matches Ok(m2)
            && m1.serial != m2.serial),
{
}

/// A signed certificate's expiry never lies past the CA's own expiry.
pub proof fn lemma_validity_bound(c: CsrModel, ca: CertView, s: u64, t: u64)
    ensures
        (sign_res(c, ca, s, t) matches Ok(m) ==> m.not_after <= ca.not_after),
{
}

/// A signed certificate names exactly the requested identity: its
/// subject alternative name is `<name>.<zone>`, its common name is that
/// same identity, and its issuer is the CA certificate's subject.
pub proof fn lemma_subject_correctness(c: CsrModel, ca: CertView, s: u64, t: u64)
    ensures
        (sign_res(c, ca, s, t) matches Ok(m) ==> m.san == san_of(c.name) && m.subject == dn_of(
            san_of(c.name),
        ) && m.issuer == ca.subject),
{
}

} // verus!
