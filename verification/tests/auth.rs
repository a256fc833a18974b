//! Selection of a mechanism and the SCRAM exchange.
use rust_dcp::auth::{
    accept_challenge, choose_mechanism, ensure_auth_success, finish_exchange, plain_payload,
    select_mechanism, SaslMechanism, ScramAlgorithm, ScramClient,
};
use rust_dcp::config::Credentials;
use rust_dcp::error::DcpError;
use rust_dcp::protocol::{
    Frame, OPCODE_HELLO, OPCODE_SASL_AUTH, OPCODE_SASL_LIST_MECHS, OPCODE_SASL_STEP,
    STATUS_AUTH_CONTINUE, STATUS_AUTH_ERROR, STATUS_SUCCESS,
};

#[test]
fn strongest_supported_mechanism_is_selected() {
    assert_eq!(
        select_mechanism("PLAIN SCRAM-SHA1 SCRAM-SHA256").unwrap(),
        SaslMechanism::Scram(ScramAlgorithm::Sha256)
    );
}

#[test]
fn mechanism_names_are_whole_words() {
    assert_eq!(
        select_mechanism("SCRAM-SHA512 PLAIN").unwrap(),
        SaslMechanism::Scram(ScramAlgorithm::Sha512)
    );
    assert_eq!(select_mechanism("XPLAIN PLAIN").unwrap(), SaslMechanism::Plain);
    assert!(matches!(
        select_mechanism("GSSAPI XPLAIN"),
        Err(DcpError::Authentication(_))
    ));
    assert_eq!(SaslMechanism::Scram(ScramAlgorithm::Sha1).name(), "SCRAM-SHA1");
    assert_eq!(SaslMechanism::Plain.name(), "PLAIN");
}

#[test]
fn scram_sha1_matches_rfc_5802_vector() {
    let mut client = ScramClient::with_nonce(
        ScramAlgorithm::Sha1,
        "user",
        "pencil",
        "fyko+d2lbbFgONRv9qkxdawL".to_string(),
    );
    assert_eq!(
        client.start(),
        b"n,,n=user,r=fyko+d2lbbFgONRv9qkxdawL".to_vec()
    );
    let final_message = client
        .handle_server_first(
            b"r=fyko+d2lbbFgONRv9qkxdawL3rfcNHYJY1ZVvWVs7j,s=QSXCR+Q6sek8bf92,i=4096",
        )
        .unwrap();
    assert_eq!(
        final_message,
        b"c=biws,r=fyko+d2lbbFgONRv9qkxdawL3rfcNHYJY1ZVvWVs7j,p=v0X8v3Bz2T0CJGbJQyF0X+HI4Ts="
            .to_vec()
    );
    client
        .verify_server_final(b"v=rmF9pqV8S7suAoZWja4dJRkFsKQ=")
        .unwrap();
}

#[test]
fn scram_sha256_matches_rfc_7677_vector() {
    let mut client = ScramClient::with_nonce(
        ScramAlgorithm::Sha256,
        "user",
        "pencil",
        "rOprNGfwEbeRWgbNEkqO".to_string(),
    );
    let final_message = client
        .handle_server_first(
            b"r=rOprNGfwEbeRWgbNEkqO%hvYDpWUa2RaTCAfuxFIlj)hNlF$k0,s=W22ZaJ0SNY7soEsUEjb6gQ==,i=4096",
        )
        .unwrap();
    assert_eq!(
        final_message,
        b"c=biws,r=rOprNGfwEbeRWgbNEkqO%hvYDpWUa2RaTCAfuxFIlj)hNlF$k0,p=dHzbZapWIk4jUhN+Ute9ytag9zjfMHgsqmmiz7AndVQ="
            .to_vec()
    );
    client
        .verify_server_final(b"v=6rriTRBi23WpRR/wtup+mMhUZUn/dB5nLTJRsjl95G4=")
        .unwrap();
}

#[test]
fn scram_sha512_completes_with_its_own_signature() {
    let mut client = ScramClient::with_nonce(
        ScramAlgorithm::Sha512,
        "user",
        "pencil",
        "client".to_string(),
    );
    let message = client
        .handle_server_first(b"r=clientserver,s=QSXCR+Q6sek8bf92,i=10")
        .unwrap();
    let text = String::from_utf8(message).unwrap();
    assert!(text.starts_with("c=biws,r=clientserver,p="));
    assert_eq!(text.len(), "c=biws,r=clientserver,p=".len() + 88);
    assert!(matches!(
        client.verify_server_final(b"v=AAAA"),
        Err(DcpError::Authentication(_))
    ));
}

#[test]
fn scram_rejects_nonce_that_does_not_extend_client_nonce() {
    let mut client = ScramClient::with_nonce(
        ScramAlgorithm::Sha256,
        "user",
        "secret",
        "client".to_string(),
    );

    assert!(client
        .handle_server_first(b"r=other,s=QSXCR+Q6sek8bf92,i=4096")
        .is_err());
}

#[test]
fn scram_rejects_malformed_challenges() {
    let challenges: [&[u8]; 8] = [
        b"r=clientX,s=QSXCR+Q6sek8bf92",
        b"r=clientX,i=4096",
        b"s=QSXCR+Q6sek8bf92,i=4096",
        b"r=clientX,s=!,i=4096",
        b"r=clientX,s=QSXCR+Q6sek8bf92,i=0",
        b"r=clientX,s=QSXCR+Q6sek8bf92,i=many",
        b"r=clientX,r=clientY,s=QSXCR+Q6sek8bf92,i=4096",
        b"\xff",
    ];
    for challenge in challenges {
        let mut client = ScramClient::with_nonce(
            ScramAlgorithm::Sha1,
            "user",
            "secret",
            "client".to_string(),
        );
        assert!(matches!(
            client.handle_server_first(challenge),
            Err(DcpError::Authentication(_))
        ));
    }
}

#[test]
fn scram_accepts_the_owed_signature_only_once() {
    let mut client = ScramClient::with_nonce(
        ScramAlgorithm::Sha1,
        "user",
        "pencil",
        "fyko+d2lbbFgONRv9qkxdawL".to_string(),
    );
    assert!(client
        .verify_server_final(b"v=rmF9pqV8S7suAoZWja4dJRkFsKQ=")
        .is_err());
    let challenge: &[u8] =
        b"r=fyko+d2lbbFgONRv9qkxdawL3rfcNHYJY1ZVvWVs7j,s=QSXCR+Q6sek8bf92,i=4096";
    client.handle_server_first(challenge).unwrap();
    assert!(client.handle_server_first(challenge).is_err());
    assert!(client.verify_server_final(b"e=other-error").is_err());
    client
        .verify_server_final(b"v=rmF9pqV8S7suAoZWja4dJRkFsKQ=")
        .unwrap();
    assert!(client
        .verify_server_final(b"v=rmF9pqV8S7suAoZWja4dJRkFsKQ=")
        .is_err());
}

#[test]
fn scram_nonces_are_fresh() {
    let one = ScramClient::new(ScramAlgorithm::Sha1, "user", "secret")
        .unwrap_or_else(|_| panic!("entropy is available"));
    let two = ScramClient::new(ScramAlgorithm::Sha1, "user", "secret")
        .unwrap_or_else(|_| panic!("entropy is available"));
    assert_ne!(one.start(), two.start());
    assert_eq!(one.start().len(), "n,,n=user,r=".len() + 24);
}

#[test]
fn scram_escapes_username() {
    let client = ScramClient::with_nonce(
        ScramAlgorithm::Sha256,
        "a,b=c",
        "secret",
        "nonce".to_string(),
    );
    assert_eq!(client.start(), b"n,,n=a=2Cb=3Dc,r=nonce".to_vec());
}

#[test]
fn authentication_rejects_wrong_response_opcode() {
    let response = Frame::response(OPCODE_HELLO, STATUS_SUCCESS);

    assert!(matches!(
        ensure_auth_success(&response, OPCODE_SASL_AUTH),
        Err(DcpError::Protocol(_))
    ));
}

#[test]
fn refused_logins_carry_the_server_text() {
    let mut response = Frame::response(OPCODE_SASL_AUTH, STATUS_AUTH_ERROR);
    response.value = b"nope\xff".to_vec();
    assert_eq!(
        ensure_auth_success(&response, OPCODE_SASL_AUTH)
            .unwrap_err()
            .to_text(),
        "authentication failed: server returned status 0x0020: nope\u{fffd}"
    );
}

#[test]
fn plain_payload_separates_name_and_password() {
    assert_eq!(
        plain_payload(&Credentials::new("alice", "secret")),
        b"\0alice\0secret".to_vec()
    );
}

#[test]
fn exchange_frames_are_checked_at_every_step() {
    let mut list = Frame::response(OPCODE_SASL_LIST_MECHS, STATUS_SUCCESS);
    list.value = b"SCRAM-SHA1".to_vec();
    assert_eq!(
        choose_mechanism(&list).unwrap(),
        SaslMechanism::Scram(ScramAlgorithm::Sha1)
    );

    let mut client = ScramClient::with_nonce(
        ScramAlgorithm::Sha1,
        "user",
        "pencil",
        "fyko+d2lbbFgONRv9qkxdawL".to_string(),
    );
    let mut first = Frame::response(OPCODE_SASL_AUTH, STATUS_SUCCESS);
    first.value =
        b"r=fyko+d2lbbFgONRv9qkxdawL3rfcNHYJY1ZVvWVs7j,s=QSXCR+Q6sek8bf92,i=4096".to_vec();
    assert!(accept_challenge(&first, &mut client).is_err());
    first.status = STATUS_AUTH_CONTINUE;
    accept_challenge(&first, &mut client).unwrap();
    let mut last = Frame::response(OPCODE_SASL_STEP, STATUS_AUTH_ERROR);
    last.value = b"v=rmF9pqV8S7suAoZWja4dJRkFsKQ=".to_vec();
    assert!(finish_exchange(&last, &mut client).is_err());
    last.status = STATUS_SUCCESS;
    finish_exchange(&last, &mut client).unwrap();
}
