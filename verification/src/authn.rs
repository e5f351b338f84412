//! The authenticator: the facade that answers "give me the CA
//! certificate" and "give me a signed certificate for this workload".
//!
//! It is a small state machine.  Bootstrap is an explicit lifecycle
//! step: the first `get_ca` call drives the store's bootstrap and moves
//! the authenticator to `Ready`, or to a sticky `Failed` state that
//! every later call reports again without retrying.  Workload
//! certificates are only issued in `Ready`; before that the answer is
//! `NotReady`, never empty bytes.

use vstd::prelude::*;
use crate::bytes::clone_bytes;
use crate::codec::{spec_encode, encode_certificate};
use crate::errors::SomeError;
use crate::issuer::{issue_res, generate_certificate_request};
use crate::signer::{sign_res, sign_server_certificate};
use crate::store::{
    CaStore, CertificateAuthority, ca_wf, bootstrap_res, bootstrap_post, generate_root_ca,
};

verus! {

/// Where the authenticator stands in its lifecycle.
pub enum AuthnState {
    /// Bootstrap has not been attempted.
    Uninitialized,
    /// Bootstrap succeeded; the CA is loaded and certificates can be
    /// issued.
    Ready(CertificateAuthority),
    /// Bootstrap failed; the failure is reported on every later call
    /// until an explicit new attempt is made with a fresh value.
    Failed(SomeError),
}

/// The facade over CA store, CSR issuer and certificate signer.
pub struct Authenticator {
    pub state: AuthnState,
    pub next_serial: u64,
}

impl Authenticator {
    /// Returns the CA certificate's bytes, bootstrapping on first use.
    ///
    /// In `Ready`, this is a read: the stored bytes come back unchanged
    /// and nothing moves.  In `Failed`, the old failure comes back:
    /// a failed bootstrap is not silently retried.  In `Uninitialized`,
    /// the store's bootstrap runs once under the caller's lock, and its
    /// outcome decides the next state.
    pub fn get_ca(
        &mut self,
        store: &mut CaStore,
        fresh_private: Vec<u8>,
        fresh_public: Vec<u8>,
        now: u64,
    ) -> (r: Result<Vec<u8>, SomeError>)
        ensures
            (old(self).state matches AuthnState::Ready(ca) ==> (r matches Ok(b) && b@
                == ca.cert_der@ && *final(self) == *old(self) && *final(store) == *old(store))),
            (old(self).state matches AuthnState::Failed(e) ==> (r matches Err(e2) && e2 == e && *
            final(self) == *old(self) && *final(store) == *old(store))),
            (old(self).state is Uninitialized ==> {
                &&& final(store)@ == bootstrap_post(
                    old(store)@,
                    fresh_private@,
                    fresh_public@,
                    now,
                )
                &&& final(self).next_serial == old(self).next_serial
                &&& (bootstrap_res(old(store)@, fresh_private@, fresh_public@, now) matches Ok(m)
                    ==> {
                    &&& r matches Ok(b) && b@ == m.cert_der
                    &&& final(self).state matches AuthnState::Ready(ca) && ca@ == m
                    &&& ca_wf(m)
                })
                &&& (bootstrap_res(old(store)@, fresh_private@, fresh_public@, now) matches Err(e)
                    ==> {
                    &&& r matches Err(e2) && e2 == e
                    &&& final(self).state matches AuthnState::Failed(e3) && e3 == e
                })
            }),
    {
        match &self.state {
            AuthnState::Ready(ca) => Ok(clone_bytes(&ca.cert_der)),
            AuthnState::Failed(e) => Err(*e),
            AuthnState::Uninitialized => {
                match generate_root_ca(store, fresh_private, fresh_public, now) {
                    Ok(ca) => {
                        let out = clone_bytes(&ca.cert_der);
                        self.state = AuthnState::Ready(ca);
                        Ok(out)
                    },
                    Err(e) => {
                        self.state = AuthnState::Failed(e);
                        Err(e)
                    },
                }
            },
        }
    }

    /// Returns signed certificate bytes for the workload `name`.
    ///
    /// Requires the `Ready` state: before a successful `get_ca` the
    /// answer is `NotReady` — this call never bootstraps implicitly and
    /// never hands back empty or partial bytes.  In `Ready` it issues a
    /// request from the fresh key pair, signs it under the CA, advances
    /// the serial counter by one on success, and returns the encoded
    /// leaf certificate.
    pub fn get_workload_certificate(
        &mut self,
        name: &Vec<u8>,
        fresh_private: Vec<u8>,
        fresh_public: Vec<u8>,
        now: u64,
    ) -> (r: Result<Vec<u8>, SomeError>)
        ensures
            (!(old(self).state matches AuthnState::Ready(_)) ==> (r matches Err(e) && e
                == SomeError::NotReady && *final(self) == *old(self))),
            (old(self).state matches AuthnState::Ready(ca) ==> {
                &&& final(self).state == old(self).state
                &&& (issue_res(name@, fresh_private@, fresh_public@) matches Err(e) ==> (r matches
                    Err(e2) && e2 == e && *final(self) == *old(self)))
                &&& (issue_res(name@, fresh_private@, fresh_public@) matches Ok(q) ==> {
                    &&& (sign_res(q, ca@.cert, old(self).next_serial, now) matches Err(e) ==> (r
                        matches Err(e2) && e2 == e && *final(self) == *old(self)))
                    &&& (sign_res(q, ca@.cert, old(self).next_serial, now) matches Ok(m) ==> (r
                        matches Ok(b) && b@ == spec_encode(m) && b@.len() > 0
                        && final(self).next_serial == old(self).next_serial + 1))
                })
            }),
    {
        let ready = match &self.state {
            AuthnState::Ready(_) => true,
            _ => false,
        };
        if !ready {
            return Err(SomeError::NotReady);
        }
        let q = match generate_certificate_request(name, fresh_private, fresh_public) {
            Ok(q) => q,
            Err(e) => {
                return Err(e);
            },
        };
        let mut s = self.next_serial;
        let res = match &self.state {
            AuthnState::Ready(ca) => sign_server_certificate(&q, ca, &mut s, now),
            _ => {
                return Err(SomeError::NotReady);
            },
        };
        self.next_serial = s;
        match res {
            Ok(c) => Ok(encode_certificate(&c)),
            Err(e) => Err(e),
        }
    }
}

/// Builds an authenticator over `store` and bootstraps it at once, as
/// the explicit lifecycle step that precedes any certificate issuance.
/// On success the authenticator is `Ready` with its serial counter at
/// one; on failure the bootstrap error is handed back.
pub fn start(
    store: &mut CaStore,
    fresh_private: Vec<u8>,
    fresh_public: Vec<u8>,
    now: u64,
) -> (r: Result<Authenticator, SomeError>)
    ensures
        final(store)@ == bootstrap_post(old(store)@, fresh_private@, fresh_public@, now),
        (bootstrap_res(old(store)@, fresh_private@, fresh_public@, now) matches Ok(m) ==> {
            &&& r matches Ok(a)
            &&& a.state matches AuthnState::Ready(ca) && ca@ == m
            &&& ca_wf(m)
            &&& a.next_serial == 1
        }),
        (bootstrap_res(old(store)@, fresh_private@, fresh_public@, now) matches Err(e) ==> (r
            matches Err(e2) && e2 == e)),
{
    let mut authenticator = Authenticator { state: AuthnState::Uninitialized, next_serial: 1 };
    match authenticator.get_ca(store, fresh_private, fresh_public, now) {
        Ok(_) => Ok(authenticator),
        Err(e) => Err(e),
    }
}

} // verus!
