use authn::authn::start;
use authn::issuer::generate_certificate_request;
use authn::store::{CaStore, generate_root_ca};

#[test]
fn it_works() {
    assert_eq!(0, 0)
}

#[test]
fn test_new_ca() {
    let mut store = CaStore { key_file: None, cert_file: None };
    match generate_root_ca(
        &mut store,
        b"root-private-key".to_vec(),
        b"root-public-key".to_vec(),
        1_700_000_000,
    ) {
        Ok(x) => {
            println!("ca:\n{:#?}", x.cert_der)
        }
        Err(_) => {
            println!("nothing")
        }
    };
}

#[test]
fn test_generate_certificate_request() {
    match generate_certificate_request(
        &b"name".to_vec(),
        b"workload-private-key".to_vec(),
        b"workload-public-key".to_vec(),
    ) {
        Ok(x) => {
            println!("ca:\n{:#?}", x.san)
        }
        Err(_) => {
            println!("nothing")
        }
    };
}

#[test]
fn test_workflow() {
    let mut store = CaStore { key_file: None, cert_file: None };
    match start(
        &mut store,
        b"root-private-key".to_vec(),
        b"root-public-key".to_vec(),
        1_700_000_000,
    ) {
        Ok(mut authenticator) => {
            match authenticator.get_workload_certificate(
                &b"hello".to_vec(),
                b"workload-private-key".to_vec(),
                b"workload-public-key".to_vec(),
                1_700_000_000,
            ) {
                Ok(cert) => {
                    assert_eq!(cert.len() > 0, true)
                }
                Err(_) => {
                    panic!("unexpected error generating workload certificate")
                }
            };
        }
        Err(_) => {
            panic!("start failed")
        }
    }
}
