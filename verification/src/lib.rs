//! A local certificate authority for workload identity.
//!
//! The crate bootstraps a single self-signed root CA per root directory,
//! issues per-workload certificate signing requests, and signs them into
//! short-lived leaf certificates.  All policy decisions — when a stored CA
//! is reused, when a store counts as corrupt, how a leaf's validity window
//! is bounded by the CA's own, how serial numbers are allocated — are
//! verified here.  Key generation and persistence are collaborators'
//! work: callers hand in fresh key material and keep the store's bytes
//! on disk.

pub mod authn;
pub mod bytes;
pub mod cert;
pub mod codec;
pub mod errors;
pub mod issuer;
pub mod signer;
pub mod store;

pub use errors::SomeError;
