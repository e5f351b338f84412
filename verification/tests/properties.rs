use authn::SomeError;
use authn::authn::{Authenticator, AuthnState, start};
use authn::codec::decode_certificate;
use authn::issuer::{generate_certificate_request, WorkloadIdentityRequest};
use authn::signer::sign_server_certificate;
use authn::store::{CaStore, generate_root_ca};

const NOW: u64 = 1_700_000_000;
const ROOT_VALIDITY: u64 = 863_913_600;

fn empty_store() -> CaStore {
    CaStore { key_file: None, cert_file: None }
}

#[test]
fn bootstrap_idempotent() {
    let mut store = empty_store();
    let first = generate_root_ca(
        &mut store,
        b"first-private".to_vec(),
        b"first-public".to_vec(),
        NOW,
    )
    .expect("first bootstrap");
    let key_after_first = store.key_file.clone().expect("key persisted");
    let cert_after_first = store.cert_file.clone().expect("cert persisted");

    let second = generate_root_ca(
        &mut store,
        b"second-private".to_vec(),
        b"second-public".to_vec(),
        NOW + 12345,
    )
    .expect("second bootstrap");

    assert_eq!(second.cert_der, first.cert_der);
    assert_eq!(second.private_key, first.private_key);
    assert_eq!(store.key_file.clone().unwrap(), key_after_first);
    assert_eq!(store.cert_file.clone().unwrap(), cert_after_first);
}

#[test]
fn bootstrap_single_ca() {
    // Two serialized first-time bootstrap callers, each bringing its own
    // fresh material: exactly one CA is persisted and both observe it.
    let mut store = empty_store();
    let a = generate_root_ca(&mut store, b"ka".to_vec(), b"pa".to_vec(), NOW)
        .expect("caller a");
    let b = generate_root_ca(&mut store, b"kb".to_vec(), b"pb".to_vec(), NOW)
        .expect("caller b");
    assert_eq!(a.cert_der, b.cert_der);
    assert_eq!(store.key_file.clone().unwrap(), b"ka".to_vec());
    assert_eq!(store.cert_file.clone().unwrap(), a.cert_der);
}

#[test]
fn serial_uniqueness() {
    let mut store = empty_store();
    let mut auth = start(&mut store, b"rk".to_vec(), b"rp".to_vec(), NOW).expect("start");
    let names: [&[u8]; 3] = [b"alpha", b"beta", b"gamma"];
    let mut serials: Vec<u64> = Vec::new();
    let mut keys: Vec<Vec<u8>> = Vec::new();
    for (i, name) in names.iter().enumerate() {
        let private = format!("workload-private-{i}").into_bytes();
        let public = format!("workload-public-{i}").into_bytes();
        keys.push(public.clone());
        let der = auth
            .get_workload_certificate(&name.to_vec(), private, public.clone(), NOW)
            .expect("issue");
        let cert = decode_certificate(&der).expect("decode");
        // The certificate carries exactly the key pair generated for it.
        assert_eq!(cert.public_key, public);
        serials.push(cert.serial);
    }
    assert!(serials[0] != serials[1]);
    assert!(serials[1] != serials[2]);
    assert!(serials[0] != serials[2]);
    assert!(keys[0] != keys[1]);
    assert!(keys[1] != keys[2]);
    assert!(keys[0] != keys[2]);
}

#[test]
fn subject_correctness() {
    let mut store = empty_store();
    let mut auth = start(&mut store, b"rk".to_vec(), b"rp".to_vec(), NOW).expect("start");
    let ca_der = auth
        .get_ca(&mut store, b"unused".to_vec(), b"unused".to_vec(), NOW)
        .expect("ready ca");
    let ca_cert = decode_certificate(&ca_der).expect("decode ca");
    let leaf_der = auth
        .get_workload_certificate(&b"hello".to_vec(), b"wk".to_vec(), b"wp".to_vec(), NOW)
        .expect("issue");
    let leaf = decode_certificate(&leaf_der).expect("decode leaf");

    let expected_san = b"hello.unsafe.aurae.io".to_vec();
    assert_eq!(leaf.san, expected_san);
    // The SAN list is this single DNS entry, so the identity appears
    // exactly once.
    let occurrences = leaf
        .san
        .windows(expected_san.len())
        .filter(|w| *w == expected_san.as_slice())
        .count();
    assert_eq!(occurrences, 1);
    assert_eq!(leaf.issuer, ca_cert.subject);
    assert_eq!(leaf.subject, b"O=Aurae,CN=hello.unsafe.aurae.io".to_vec());
    assert!(!leaf.is_ca);
    assert!(leaf.eku_server);
    assert!(leaf.eku_client);
}

#[test]
fn validity_bound() {
    let mut store = empty_store();
    let mut auth = start(&mut store, b"rk".to_vec(), b"rp".to_vec(), NOW).expect("start");
    let ca_der = auth
        .get_ca(&mut store, b"unused".to_vec(), b"unused".to_vec(), NOW)
        .expect("ready ca");
    let ca_cert = decode_certificate(&ca_der).expect("decode ca");
    assert_eq!(ca_cert.not_after, NOW + ROOT_VALIDITY);

    // Sign close to the CA's expiry: the leaf must be clipped to it.
    let late = ca_cert.not_after - 10;
    let late_der = auth
        .get_workload_certificate(&b"late".to_vec(), b"k1".to_vec(), b"p1".to_vec(), late)
        .expect("late issue");
    let late_leaf = decode_certificate(&late_der).expect("decode");
    assert_eq!(late_leaf.not_after, ca_cert.not_after);
    assert!(late_leaf.not_after <= ca_cert.not_after);

    // And an early leaf still never outlives the CA.
    let early_der = auth
        .get_workload_certificate(&b"early".to_vec(), b"k2".to_vec(), b"p2".to_vec(), NOW)
        .expect("early issue");
    let early_leaf = decode_certificate(&early_der).expect("decode");
    assert!(early_leaf.not_after <= ca_cert.not_after);
}

#[test]
fn not_ready_before_bootstrap() {
    let mut auth = Authenticator { state: AuthnState::Uninitialized, next_serial: 1 };
    let r = auth.get_workload_certificate(
        &b"hello".to_vec(),
        b"wk".to_vec(),
        b"wp".to_vec(),
        NOW,
    );
    assert!(matches!(r, Err(SomeError::NotReady)));
}

#[test]
fn failed_bootstrap_is_sticky() {
    let mut corrupt = CaStore { key_file: None, cert_file: Some(b"orphan".to_vec()) };
    let mut auth = Authenticator { state: AuthnState::Uninitialized, next_serial: 1 };
    let first = auth.get_ca(&mut corrupt, b"rk".to_vec(), b"rp".to_vec(), NOW);
    assert!(matches!(first, Err(SomeError::CaStoreCorrupt)));
    // Even over a now-empty store the failure is reported again, not
    // silently retried.
    let mut empty = empty_store();
    let second = auth.get_ca(&mut empty, b"rk".to_vec(), b"rp".to_vec(), NOW);
    assert!(matches!(second, Err(SomeError::CaStoreCorrupt)));
    assert!(empty.key_file.is_none() && empty.cert_file.is_none());
    // And a workload certificate is still refused.
    let r = auth.get_workload_certificate(&b"hello".to_vec(), b"wk".to_vec(), b"wp".to_vec(), NOW);
    assert!(matches!(r, Err(SomeError::NotReady)));
}

#[test]
fn corrupt_store_is_not_overwritten() {
    // Certificate present, key missing: corrupt, and nothing is generated.
    let mut store = CaStore { key_file: None, cert_file: Some(b"cert-bytes".to_vec()) };
    let r = generate_root_ca(&mut store, b"rk".to_vec(), b"rp".to_vec(), NOW);
    assert!(matches!(r, Err(SomeError::CaStoreCorrupt)));
    assert!(store.key_file.is_none());
    assert_eq!(store.cert_file.clone().unwrap(), b"cert-bytes".to_vec());

    // Key present, certificate missing: the same.
    let mut store2 = CaStore { key_file: Some(b"key-bytes".to_vec()), cert_file: None };
    let r2 = generate_root_ca(&mut store2, b"rk".to_vec(), b"rp".to_vec(), NOW);
    assert!(matches!(r2, Err(SomeError::CaStoreCorrupt)));
    assert!(store2.cert_file.is_none());

    // Both present but the certificate does not parse: corrupt, not
    // treated as absent.
    let mut store3 = CaStore {
        key_file: Some(b"key-bytes".to_vec()),
        cert_file: Some(b"garbage".to_vec()),
    };
    let r3 = generate_root_ca(&mut store3, b"rk".to_vec(), b"rp".to_vec(), NOW);
    assert!(matches!(r3, Err(SomeError::CaStoreCorrupt)));
    assert_eq!(store3.cert_file.clone().unwrap(), b"garbage".to_vec());
}

#[test]
fn generation_needs_key_material() {
    let mut store = empty_store();
    let r = generate_root_ca(&mut store, Vec::new(), b"rp".to_vec(), NOW);
    assert!(matches!(r, Err(SomeError::CaGenerationFailed)));
    assert!(store.key_file.is_none() && store.cert_file.is_none());

    let r2 = generate_root_ca(&mut store, b"rk".to_vec(), Vec::new(), NOW);
    assert!(matches!(r2, Err(SomeError::CaGenerationFailed)));
}

#[test]
fn workload_key_material_required() {
    let mut store = empty_store();
    let mut auth = start(&mut store, b"rk".to_vec(), b"rp".to_vec(), NOW).expect("start");
    let r = auth.get_workload_certificate(&b"hello".to_vec(), Vec::new(), b"wp".to_vec(), NOW);
    assert!(matches!(r, Err(SomeError::KeyGenerationFailed)));
}

#[test]
fn invalid_workload_name_rejected() {
    let mut store = empty_store();
    let mut auth = start(&mut store, b"rk".to_vec(), b"rp".to_vec(), NOW).expect("start");
    for bad in [
        b"".to_vec(),
        b"Hello".to_vec(),
        b"under_score".to_vec(),
        b"-leading".to_vec(),
        b"trailing-".to_vec(),
        b"dot.name".to_vec(),
    ] {
        let r = auth.get_workload_certificate(&bad, b"wk".to_vec(), b"wp".to_vec(), NOW);
        assert!(matches!(r, Err(SomeError::InvalidWorkloadName)));
    }
}

#[test]
fn expired_ca_refuses_to_sign() {
    let mut store = empty_store();
    let mut auth = start(&mut store, b"rk".to_vec(), b"rp".to_vec(), NOW).expect("start");
    let after_expiry = NOW + ROOT_VALIDITY + 1;
    let r = auth.get_workload_certificate(
        &b"hello".to_vec(),
        b"wk".to_vec(),
        b"wp".to_vec(),
        after_expiry,
    );
    assert!(matches!(r, Err(SomeError::CaExpired)));
    let before_validity = NOW - 1;
    let r2 = auth.get_workload_certificate(
        &b"hello".to_vec(),
        b"wk".to_vec(),
        b"wp".to_vec(),
        before_validity,
    );
    assert!(matches!(r2, Err(SomeError::CaExpired)));
}

#[test]
fn serial_space_exhaustion() {
    let mut store = empty_store();
    let mut auth = start(&mut store, b"rk".to_vec(), b"rp".to_vec(), NOW).expect("start");
    auth.next_serial = u64::MAX;
    let r = auth.get_workload_certificate(&b"hello".to_vec(), b"wk".to_vec(), b"wp".to_vec(), NOW);
    assert!(matches!(r, Err(SomeError::SigningFailed)));
    assert_eq!(auth.next_serial, u64::MAX);
}

#[test]
fn inconsistent_request_rejected() {
    let mut store = empty_store();
    let ca = generate_root_ca(&mut store, b"rk".to_vec(), b"rp".to_vec(), NOW).expect("ca");
    // A request whose SAN does not belong to its name is refused.
    let forged = WorkloadIdentityRequest {
        name: b"hello".to_vec(),
        private_key: b"wk".to_vec(),
        public_key: b"wp".to_vec(),
        subject: b"O=Aurae,CN=other.unsafe.aurae.io".to_vec(),
        san: b"other.unsafe.aurae.io".to_vec(),
    };
    let mut serial: u64 = 1;
    let r = sign_server_certificate(&forged, &ca, &mut serial, NOW);
    assert!(matches!(r, Err(SomeError::CsrInvalid)));
    assert_eq!(serial, 1);

    // The genuine request for the same name is signed.
    let genuine = generate_certificate_request(
        &b"hello".to_vec(),
        b"wk".to_vec(),
        b"wp".to_vec(),
    )
    .expect("issue");
    let signed = sign_server_certificate(&genuine, &ca, &mut serial, NOW).expect("sign");
    assert_eq!(signed.serial, 1);
    assert_eq!(serial, 2);
}
