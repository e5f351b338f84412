//! The CSR issuer: given a workload name and a fresh key pair, builds the
//! signing request that binds the name into the zone.
//!
//! The issuer fails closed: a name that is not a valid DNS label is
//! rejected rather than embedded into a malformed request, and missing
//! key material is rejected rather than wrapped.

use vstd::prelude::*;
use crate::bytes::clone_bytes;
use crate::cert::{san_of, dn_of, san_bytes, dn_bytes};
use crate::errors::SomeError;

verus! {

/// A byte allowed in a DNS label: a lower-case letter, a digit, or `-`.
pub open spec fn is_label_byte(b: u8) -> bool {
    (97 <= b <= 122) || (48 <= b <= 57) || b == 45
}

/// A valid workload name: a DNS label of 1 to 63 allowed bytes, neither
/// starting nor ending with `-`.
pub open spec fn valid_workload_name(n: Seq<u8>) -> bool {
    &&& 1 <= n.len() <= 63
    &&& (forall|i: int| 0 <= i < n.len() ==> is_label_byte(n[i]))
    &&& n[0] != 45
    &&& n[n.len() - 1] != 45
}

/// One workload's request for an identity: its name, the fresh key pair
/// generated for it, and the subject fields the request binds.
pub struct WorkloadIdentityRequest {
    pub name: Vec<u8>,
    pub private_key: Vec<u8>,
    pub public_key: Vec<u8>,
    pub subject: Vec<u8>,
    pub san: Vec<u8>,
}

/// The mathematical value of a [`WorkloadIdentityRequest`].
#[verifier::ext_equal]
pub struct CsrModel {
    pub name: Seq<u8>,
    pub private_key: Seq<u8>,
    pub public_key: Seq<u8>,
    pub subject: Seq<u8>,
    pub san: Seq<u8>,
}

impl View for WorkloadIdentityRequest {
    type V = CsrModel;

    open spec fn view(&self) -> CsrModel {
        CsrModel {
            name: self.name@,
            private_key: self.private_key@,
            public_key: self.public_key@,
            subject: self.subject@,
            san: self.san@,
        }
    }
}

/// What issuing returns for a name and the offered fresh key pair: the
/// request whose subject alternative name is `<name>.<zone>` and whose
/// common name is that same identity, or the specific refusal.
pub open spec fn issue_res(name: Seq<u8>, fk: Seq<u8>, fp: Seq<u8>) -> Result<
    CsrModel,
    SomeError,
> {
    if !valid_workload_name(name) {
        Err(SomeError::InvalidWorkloadName)
    } else if fk.len() == 0 || fp.len() == 0 {
        Err(SomeError::KeyGenerationFailed)
    } else {
        Ok(
            CsrModel {
                name,
                private_key: fk,
                public_key: fp,
                subject: dn_of(san_of(name)),
                san: san_of(name),
            },
        )
    }
}

/// Whether `b` may appear in a DNS label.
pub fn label_byte(b: u8) -> (r: bool)
    ensures
        r == is_label_byte(b),
{
    (97 <= b && b <= 122) || (48 <= b && b <= 57) || b == 45
}

/// Whether `name` is a valid workload name.
pub fn check_workload_name(name: &Vec<u8>) -> (r: bool)
    ensures
        r == valid_workload_name(name@),
{
    let n = name.len();
    if n < 1 || n > 63 {
        return false;
    }
    if name[0] == 45 || name[n - 1] == 45 {
        return false;
    }
    let mut k: usize = 0;
    while k < n
        invariant
            n == name@.len(),
            k <= n,
            forall|j: int| 0 <= j < k ==> is_label_byte(name@[j]),
        decreases n - k,
    {
        if !label_byte(name[k]) {
            return false;
        }
        k = k + 1;
    }
    true
}

/// Builds the identity request for `name` from a fresh key pair.
///
/// Returns `InvalidWorkloadName` when `name` is not a valid DNS label,
/// `KeyGenerationFailed` when either half of the key pair is missing,
/// and otherwise the request binding `<name>.<zone>` as both common
/// name and subject alternative name.
pub fn generate_certificate_request(
    name: &Vec<u8>,
    fresh_private: Vec<u8>,
    fresh_public: Vec<u8>,
) -> (r: Result<WorkloadIdentityRequest, SomeError>)
    ensures
        (issue_res(name@, fresh_private@, fresh_public@) matches Ok(m) ==> (r matches Ok(q) && q@
            == m)),
        (issue_res(name@, fresh_private@, fresh_public@) matches Err(e) ==> (r matches Err(e2)
            && e2 == e)),
{
    if !check_workload_name(name) {
        return Err(SomeError::InvalidWorkloadName);
    }
    if fresh_private.len() == 0 || fresh_public.len() == 0 {
        return Err(SomeError::KeyGenerationFailed);
    }
    let san = san_bytes(name);
    let subject = dn_bytes(&san);
    let q = WorkloadIdentityRequest {
        name: clone_bytes(name),
        private_key: fresh_private,
        public_key: fresh_public,
        subject,
        san,
    };
    proof {
        assert(q@ =~~= issue_res(name@, fresh_private@, fresh_public@)->Ok_0);
    }
    Ok(q)
}

} // verus!
