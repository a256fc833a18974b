//! Handshake of a connection.
use rust_dcp::auth::{SaslMechanism, ScramAlgorithm};
use rust_dcp::bootstrap::{
    all_seeds_failed, control_plan, duration_seconds, parse_hello_features, seed_failure,
    DcpControlFeature, HelloFeature,
};
use rust_dcp::config::{Credentials, DcpConfig};
use rust_dcp::error::DcpError;
use rust_dcp::handshake::{Handshake, HandshakeRequest, HandshakeStage};
use rust_dcp::interval::Interval;
use rust_dcp::protocol::{
    Frame, OPCODE_DCP_CONTROL, OPCODE_DCP_OPEN, OPCODE_HELLO, OPCODE_SASL_AUTH,
    OPCODE_SASL_LIST_MECHS, OPCODE_SASL_STEP, OPCODE_SELECT_BUCKET, STATUS_AUTH_CONTINUE,
    STATUS_NOT_SUPPORTED, STATUS_SUCCESS,
};

fn test_config() -> DcpConfig {
    DcpConfig::builder(Credentials::new("alice", "secret"), "travel")
        .seed("127.0.0.1", None)
        .unwrap_or_else(|_| panic!("seed is valid"))
        .build()
        .unwrap_or_else(|_| panic!("config is valid"))
}

fn features(list: &[u16]) -> Vec<u8> {
    let mut value = Vec::new();
    for code in list {
        value.extend_from_slice(&code.to_be_bytes());
    }
    value
}

#[test]
fn bootstrap_negotiates_plain_auth_and_dcp_controls() {
    let config = test_config();
    let mut handshake = Handshake::begin(&config, "rust-dcp-test", "consumer-1")
        .unwrap_or_else(|_| panic!("names are valid"));
    let mut controls = std::collections::BTreeMap::new();
    while let Some(request) = handshake.request(&config) {
        let response = match request {
            HandshakeRequest::Hello(list) => {
                assert_eq!(list.len(), 11);
                let mut response = Frame::response(OPCODE_HELLO, STATUS_SUCCESS);
                response.value = features(&[
                    HelloFeature::Xattr.as_u16(),
                    HelloFeature::SelectBucket.as_u16(),
                    HelloFeature::Collections.as_u16(),
                    0xffff,
                ]);
                response
            }
            HandshakeRequest::ListMechanisms => {
                let mut response = Frame::response(OPCODE_SASL_LIST_MECHS, STATUS_SUCCESS);
                response.value = b"PLAIN".to_vec();
                response
            }
            HandshakeRequest::Authenticate(mechanism, payload) => {
                assert_eq!(mechanism.name(), "PLAIN");
                assert_eq!(payload, b"\0alice\0secret".to_vec());
                Frame::response(OPCODE_SASL_AUTH, STATUS_SUCCESS)
            }
            HandshakeRequest::AuthenticateStep(_, _) => panic!("PLAIN takes one step"),
            HandshakeRequest::SelectBucket => {
                Frame::response(OPCODE_SELECT_BUCKET, STATUS_SUCCESS)
            }
            HandshakeRequest::OpenDcp { include_xattrs } => {
                assert!(include_xattrs);
                Frame::response(OPCODE_DCP_OPEN, STATUS_SUCCESS)
            }
            HandshakeRequest::Control { key, value } => {
                assert_ne!(key, "enable_out_of_order_snapshots");
                let status = if key == "enable_stream_id" {
                    STATUS_NOT_SUPPORTED
                } else {
                    STATUS_SUCCESS
                };
                controls.insert(key, value);
                Frame::response(OPCODE_DCP_CONTROL, status)
            }
        };
        handshake.on_response(&config, &response).unwrap();
    }
    assert_eq!(handshake.stage(), HandshakeStage::Ready);
    let capabilities = handshake.into_capabilities();

    assert_eq!(capabilities.sasl_mechanism, SaslMechanism::Plain);
    assert!(capabilities.supports(HelloFeature::Collections));
    assert!(capabilities.supports_control(DcpControlFeature::ChangeStreams));
    assert!(capabilities.supports_control(DcpControlFeature::ExpiryOpcode));
    assert!(!capabilities.supports_control(DcpControlFeature::StreamId));
    assert!(capabilities.supports_control(DcpControlFeature::StreamEndOnClose));
    assert_eq!(controls.get("set_priority").unwrap(), "medium");
    assert_eq!(controls.get("connection_buffer_size").unwrap(), "20971520");
    assert_eq!(controls.get("set_noop_interval").unwrap(), "20");
}

#[test]
fn required_control_failure_aborts_bootstrap() {
    let config = test_config();
    let mut handshake = Handshake::begin(&config, "rust-dcp-test", "consumer-1")
        .unwrap_or_else(|_| panic!("names are valid"));
    let mut mechanisms = Frame::response(OPCODE_SASL_LIST_MECHS, STATUS_SUCCESS);
    mechanisms.value = b"PLAIN".to_vec();
    for response in [
        Frame::response(OPCODE_HELLO, STATUS_SUCCESS),
        mechanisms,
        Frame::response(OPCODE_SASL_AUTH, STATUS_SUCCESS),
        Frame::response(OPCODE_SELECT_BUCKET, STATUS_SUCCESS),
        Frame::response(OPCODE_DCP_OPEN, STATUS_SUCCESS),
    ] {
        handshake.on_response(&config, &response).unwrap();
    }
    assert!(matches!(
        handshake.request(&config),
        Some(HandshakeRequest::Control { key, .. }) if key == "enable_noop"
    ));
    let result = handshake.on_response(&config, &Frame::response(OPCODE_DCP_CONTROL, 0x86));

    assert!(matches!(
        result,
        Err(DcpError::ServerStatus {
            status: 0x86,
            opcode: 0x5e,
            ..
        })
    ));
}

#[test]
fn malformed_hello_feature_list_is_rejected() {
    let mut response = Frame::response(OPCODE_HELLO, STATUS_SUCCESS);
    response.value = vec![0x12];

    assert!(matches!(
        parse_hello_features(&response),
        Err(DcpError::Protocol(_))
    ));
}

#[test]
fn hello_features_are_known_and_distinct() {
    let mut response = Frame::response(OPCODE_HELLO, STATUS_SUCCESS);
    response.value = features(&[0x06, 0x1234, 0x06, 0x12]);
    assert_eq!(
        parse_hello_features(&response).unwrap(),
        vec![HelloFeature::Xattr, HelloFeature::Collections]
    );
}

#[test]
fn scram_handshake_sends_a_challenge_and_a_proof() {
    let config = test_config();
    let mut handshake = Handshake::begin(&config, "rust-dcp-test", "consumer-1")
        .unwrap_or_else(|_| panic!("names are valid"));
    handshake
        .on_response(&config, &Frame::response(OPCODE_HELLO, STATUS_SUCCESS))
        .unwrap();
    let mut mechanisms = Frame::response(OPCODE_SASL_LIST_MECHS, STATUS_SUCCESS);
    mechanisms.value = b"PLAIN SCRAM-SHA1".to_vec();
    handshake.on_response(&config, &mechanisms).unwrap();
    assert_eq!(handshake.stage(), HandshakeStage::Challenge);
    let nonce = match handshake.request(&config) {
        Some(HandshakeRequest::Authenticate(mechanism, payload)) => {
            assert_eq!(mechanism, SaslMechanism::Scram(ScramAlgorithm::Sha1));
            let text = String::from_utf8(payload).unwrap();
            assert!(text.starts_with("n,,n=alice,r="));
            text["n,,n=alice,r=".len()..].to_string()
        }
        _ => panic!("expected the first SCRAM message"),
    };
    let mut challenge = Frame::response(OPCODE_SASL_AUTH, STATUS_AUTH_CONTINUE);
    challenge.value = format!("r={nonce}more,s=QSXCR+Q6sek8bf92,i=16").into_bytes();
    handshake.on_response(&config, &challenge).unwrap();
    assert_eq!(handshake.stage(), HandshakeStage::Proof);
    assert!(matches!(
        handshake.request(&config),
        Some(HandshakeRequest::AuthenticateStep(_, payload))
            if payload.starts_with(format!("c=biws,r={nonce}more,p=").as_bytes())
    ));
    let mut forged = Frame::response(OPCODE_SASL_STEP, STATUS_SUCCESS);
    forged.value = b"v=AAAA".to_vec();
    assert!(matches!(
        handshake.on_response(&config, &forged),
        Err(DcpError::Authentication(_))
    ));
    assert_eq!(handshake.stage(), HandshakeStage::Proof);
}

#[test]
fn handshake_refuses_blank_names() {
    let config = test_config();
    assert!(Handshake::begin(&config, " ", "consumer").is_err());
    assert!(Handshake::begin(&config, "client", "").is_err());
}

#[test]
fn control_plan_follows_configuration_and_features() {
    let mut config = test_config();
    config.disable_change_streams = true;
    let keys: Vec<String> = control_plan(&config, false)
        .into_iter()
        .map(|step| step.key)
        .collect();
    assert_eq!(
        keys,
        vec![
            "enable_noop",
            "set_noop_interval",
            "set_priority",
            "enable_expiry_opcode",
            "connection_buffer_size",
            "send_stream_end_on_client_close_stream",
        ]
    );
    assert_eq!(control_plan(&config, true).len(), 7);
    assert_eq!(duration_seconds(&Interval::from_millis(10)), "1");
    assert_eq!(duration_seconds(&Interval::from_millis(2_999)), "2");
}

#[test]
fn every_seed_failure_is_listed() {
    assert_eq!(
        seed_failure("a:11210", &DcpError::Cancelled),
        format!("a:11210: {}", DcpError::Cancelled.to_text())
    );
    let error = all_seeds_failed(&vec!["a: down".to_string(), "b: refused".to_string()]);
    assert_eq!(
        error.to_text(),
        "topology error: all KV seeds failed bootstrap: a: down; b: refused"
    );
}
