//! Trust roots and server names.
use rust_dcp::config::{SeedAddress, TlsConfig};
use rust_dcp::error::DcpError;
use rust_dcp::tls::{
    accept_name, accept_roots, check_platform_roots, root_certificates, server_name, RootReading,
};

const ROOT: &str = "-----BEGIN CERTIFICATE-----
MIIBKTCB0KADAgECAgEBMAoGCCqGSM49BAMCMBQxEjAQBgNVBAMMCVRlc3QgUm9v
dDAeFw0yNDAxMDEwMDAwMDBaFw00NDAxMDEwMDAwMDBaMBQxEjAQBgNVBAMMCVRl
c3QgUm9vdDBZMBMGByqGSM49AgEGCCqGSM49AwEHA0IABE9dtmEwnEqkM8OPXzvS
j2UefJOB8kwvF/ia4aODAogkdZoXmROQRW9grow5rucNe5vjBKgSFH7S/pXwX5vW
WdyjEzARMA8GA1UdEwEB/wQFMAMBAf8wCgYIKoZIzj0EAwIDSAAwRQIhAOESWHor
b4yWp3YE9UgZhMmCJdMo9im618+2N+j7qg5RAiBNo+37MQcUcR9RugwMzX+jzkNt
5LjcDbY4ArnwRR8B9Q==
-----END CERTIFICATE-----
";

const EMPTY: &str = "-----BEGIN CERTIFICATE-----
-----END CERTIFICATE-----
";

const GARBLED: &str = "-----BEGIN CERTIFICATE-----
****
-----END CERTIFICATE-----
";

const REQUEST: &str = "-----BEGIN CERTIFICATE REQUEST-----
AAAA
-----END CERTIFICATE REQUEST-----
";

fn tls(name: Option<&str>) -> TlsConfig {
    TlsConfig {
        enabled: true,
        root_ca_path: None,
        server_name: name.map(str::to_string),
    }
}

fn text(result: Result<Vec<Vec<u8>>, DcpError>) -> String {
    result.unwrap_err().to_text()
}

#[test]
fn invalid_custom_root_ca_is_rejected() {
    let result = root_certificates("rust-dcp-invalid-ca.pem", b"not a certificate");
    assert!(result.is_err());
}

#[test]
fn root_certificates_are_read_in_order() {
    let pem = format!("{ROOT}{REQUEST}noise\n{ROOT}");
    let roots = root_certificates("ca.pem", pem.as_bytes()).unwrap();
    assert_eq!(roots.len(), 2);
    assert_eq!(roots[0], roots[1]);
    assert_eq!(roots[0].len(), 301);
    assert_eq!(&roots[0][..4], &[0x30, 0x82, 0x01, 0x29]);
}

#[test]
fn root_files_without_certificates_are_refused() {
    for pem in ["", "not a certificate", REQUEST] {
        assert_eq!(
            text(root_certificates("ca.pem", pem.as_bytes())),
            "TLS error: root CA file ca.pem contains no certificates"
        );
    }
}

#[test]
fn first_failure_of_a_root_file_counts() {
    let rejected = text(root_certificates("ca.pem", EMPTY.as_bytes()));
    assert!(rejected.starts_with("TLS error: invalid root CA ca.pem: "));
    let garbled = text(root_certificates("ca.pem", GARBLED.as_bytes()));
    assert!(garbled.starts_with("TLS error: invalid root CA PEM ca.pem: "));
    let open = ROOT.replace("-----END CERTIFICATE-----", "");
    let unfinished = text(root_certificates("ca.pem", open.as_bytes()));
    assert!(unfinished.starts_with("TLS error: invalid root CA PEM ca.pem: section end "));
    assert_eq!(
        text(root_certificates("ca.pem", format!("{ROOT}{EMPTY}{GARBLED}").as_bytes())),
        rejected
    );
    assert_eq!(
        text(root_certificates("ca.pem", format!("{ROOT}{GARBLED}{EMPTY}").as_bytes())),
        garbled
    );
}

#[test]
fn readings_of_a_root_file_are_judged() {
    let good = RootReading::Certificate(vec![1, 2]);
    assert_eq!(accept_roots("p", &vec![good]).unwrap(), vec![vec![1, 2]]);
    let bad = vec![
        RootReading::Certificate(vec![1]),
        RootReading::Rejected("no anchor".to_string()),
        RootReading::Malformed("no end".to_string()),
    ];
    assert_eq!(
        text(accept_roots("p", &bad)),
        "TLS error: invalid root CA p: no anchor"
    );
    let broken = vec![RootReading::Malformed("no end".to_string())];
    assert_eq!(
        text(accept_roots("p", &broken)),
        "TLS error: invalid root CA PEM p: no end"
    );
    assert_eq!(
        text(accept_roots("p", &Vec::new())),
        "TLS error: root CA file p contains no certificates"
    );
}

#[test]
fn platform_roots_may_be_absent_only_beside_a_root_file() {
    assert_eq!(
        check_platform_roots(0, 2, 3, false).unwrap_err().to_text(),
        "TLS error: no platform root certificates loaded (2 parse failures, 3 loader errors)"
    );
    assert!(check_platform_roots(0, 2, 3, true).is_ok());
    assert!(check_platform_roots(1, 2, 3, false).is_ok());
}

#[test]
fn server_name_is_the_configured_one_or_the_host_of_the_seed() {
    let seed = SeedAddress::parse("cb.example.test:11207", None).unwrap();
    assert_eq!(server_name(&tls(None), &seed).unwrap(), "cb.example.test");
    assert_eq!(
        server_name(&tls(Some("alias.test")), &seed).unwrap(),
        "alias.test"
    );
    let address = SeedAddress::parse("[2001:db8::1]:11207", None).unwrap();
    assert_eq!(server_name(&tls(None), &address).unwrap(), "2001:db8::1");
}

#[test]
fn unusable_server_names_are_refused() {
    let seed = SeedAddress::parse("cb.example.test", None).unwrap();
    assert_eq!(
        server_name(&tls(Some("not a name")), &seed)
            .unwrap_err()
            .to_text(),
        "TLS error: invalid TLS server name \"not a name\": invalid dns name"
    );
    assert_eq!(
        accept_name("n".to_string(), Some("why".to_string()))
            .unwrap_err()
            .to_text(),
        "TLS error: invalid TLS server name \"n\": why"
    );
    assert_eq!(accept_name("n".to_string(), None).unwrap(), "n");
}
