use vstd::prelude::*;

verus! {

/// Every failure the certificate workflow can surface.
///
/// Each operation reports the specific stage that failed; no failure is
/// downgraded to an empty or default value, and a corrupt store is never
/// treated as an absent one.
#[derive(Clone, Copy, Debug, PartialEq, Eq, Structural)]
pub enum SomeError {
    /// Root key generation or self-signing failed during bootstrap.
    CaGenerationFailed,
    /// The store holds only half of the root key/certificate pair, or a
    /// certificate that cannot be parsed.
    CaStoreCorrupt,
    /// The workload name is empty or not a valid DNS label.
    InvalidWorkloadName,
    /// Fresh key material for a workload request was missing.
    KeyGenerationFailed,
    /// A certificate signing request could not be constructed.
    CsrConstructionFailed,
    /// The certificate signing request is not consistent with itself.
    CsrInvalid,
    /// Signing failed; in this core, the serial space is exhausted.
    SigningFailed,
    /// The CA's own validity window does not cover the signing time.
    CaExpired,
    /// A read or write of persisted key or certificate bytes failed.
    StorageFailure,
    /// A workload certificate was requested before the CA was ready.
    NotReady,
}

} // verus!
