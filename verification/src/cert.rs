//! The certificate record and the fixed identity policy: the DNS zone all
//! identities live under, the distinguished-name shape, and the validity
//! windows of root and leaf certificates.

use vstd::prelude::*;
use crate::bytes::append_bytes;

verus! {

/// Root and leaf validity length in seconds (9999 days of 86400 seconds).
pub const ROOT_VALIDITY_SECS: u64 = 863913600;

/// A leaf lives at most this long, and never past the CA's own expiry.
pub const LEAF_VALIDITY_SECS: u64 = 863913600;

/// One certificate, root or leaf, as this core reasons about it.
///
/// `subject` and `issuer` are distinguished names, `san` the single
/// DNS-type subject alternative name.  Times are seconds of an external
/// clock; `serial` is the CA-assigned identifier.
pub struct Certificate {
    pub serial: u64,
    pub not_before: u64,
    pub not_after: u64,
    pub is_ca: bool,
    pub eku_server: bool,
    pub eku_client: bool,
    pub subject: Vec<u8>,
    pub issuer: Vec<u8>,
    pub san: Vec<u8>,
    pub public_key: Vec<u8>,
}

/// The mathematical value of a [`Certificate`].
#[verifier::ext_equal]
pub struct CertView {
    pub serial: u64,
    pub not_before: u64,
    pub not_after: u64,
    pub is_ca: bool,
    pub eku_server: bool,
    pub eku_client: bool,
    pub subject: Seq<u8>,
    pub issuer: Seq<u8>,
    pub san: Seq<u8>,
    pub public_key: Seq<u8>,
}

impl View for Certificate {
    type V = CertView;

    open spec fn view(&self) -> CertView {
        CertView {
            serial: self.serial,
            not_before: self.not_before,
            not_after: self.not_after,
            is_ca: self.is_ca,
            eku_server: self.eku_server,
            eku_client: self.eku_client,
            subject: self.subject@,
            issuer: self.issuer@,
            san: self.san@,
            public_key: self.public_key@,
        }
    }
}

/// The fixed DNS zone every identity is placed under: `unsafe.aurae.io`.
pub open spec fn zone() -> Seq<u8> {
    seq![117u8, 110u8, 115u8, 97u8, 102u8, 101u8, 46u8, 97u8, 117u8, 114u8, 97u8, 101u8, 46u8, 105u8, 111u8]
}

/// The zone as bytes.
pub fn zone_bytes() -> (v: Vec<u8>)
    ensures
        v@ == zone(),
{
    let mut v: Vec<u8> = Vec::new();
    v.push(117u8);
    v.push(110u8);
    v.push(115u8);
    v.push(97u8);
    v.push(102u8);
    v.push(101u8);
    v.push(46u8);
    v.push(97u8);
    v.push(117u8);
    v.push(114u8);
    v.push(97u8);
    v.push(101u8);
    v.push(46u8);
    v.push(105u8);
    v.push(111u8);
    proof {
        assert(v@ =~= zone());
    }
    v
}

/// The distinguished name for a common name `cn`: `O=Aurae,CN=<cn>`.
pub open spec fn dn_of(cn: Seq<u8>) -> Seq<u8> {
    seq![79u8, 61u8, 65u8, 117u8, 114u8, 97u8, 101u8, 44u8, 67u8, 78u8, 61u8] + cn
}

/// The distinguished name for `cn` as bytes.
pub fn dn_bytes(cn: &Vec<u8>) -> (v: Vec<u8>)
    ensures
        v@ == dn_of(cn@),
{
    let mut v: Vec<u8> = Vec::new();
    v.push(79u8);
    v.push(61u8);
    v.push(65u8);
    v.push(117u8);
    v.push(114u8);
    v.push(97u8);
    v.push(101u8);
    v.push(44u8);
    v.push(67u8);
    v.push(78u8);
    v.push(61u8);
    append_bytes(&mut v, cn);
    proof {
        assert(v@ =~= dn_of(cn@));
    }
    v
}

/// The subject alternative name for a workload: `<name>.<zone>`.
pub open spec fn san_of(name: Seq<u8>) -> Seq<u8> {
    name + seq![46u8] + zone()
}

/// The subject alternative name for `name` as bytes.
pub fn san_bytes(name: &Vec<u8>) -> (v: Vec<u8>)
    ensures
        v@ == san_of(name@),
{
    let mut v: Vec<u8> = Vec::new();
    append_bytes(&mut v, name);
    v.push(46u8);
    let z = zone_bytes();
    append_bytes(&mut v, &z);
    proof {
        assert(v@ =~= san_of(name@));
    }
    v
}

/// `a + b`, stopping at the largest `u64` instead of wrapping.
pub open spec fn sat_add64(a: u64, b: u64) -> u64 {
    if a + b <= u64::MAX {
        (a + b) as u64
    } else {
        u64::MAX
    }
}

/// Saturating addition matching [`sat_add64`].
pub fn saturating_add64(a: u64, b: u64) -> (r: u64)
    ensures
        r == sat_add64(a, b),
{
    if a <= u64::MAX - b {
        a + b
    } else {
        u64::MAX
    }
}

} // verus!
