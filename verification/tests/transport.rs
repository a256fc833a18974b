//! Correlation of responses and liveness of a connection.
use rust_dcp::error::DcpError;
use rust_dcp::interval::Interval;
use rust_dcp::protocol::{Frame, OPCODE_DCP_NOOP, OPCODE_HELLO, STATUS_SUCCESS};
use rust_dcp::transport::{FrameCorrelator, InboundWatch, OpaqueSource};

#[test]
fn request_correlates_response_and_preserves_unsolicited_frame() {
    let mut correlator = FrameCorrelator::new();
    let request = correlator.prepare(Frame::request(OPCODE_HELLO));
    assert_eq!(request.opaque, 1);

    let mut unsolicited = Frame::request(OPCODE_DCP_NOOP);
    unsolicited.opaque = 99;
    assert!(correlator.accept(unsolicited, request.opaque).is_none());
    let mut response = Frame::response(request.opcode, STATUS_SUCCESS);
    response.opaque = request.opaque;
    let accepted = correlator.accept(response, request.opaque).unwrap();

    assert_eq!(accepted.opcode, OPCODE_HELLO);
    assert_eq!(correlator.take_pending().unwrap().opaque, 99);
    assert!(correlator.take_pending().is_none());
}

#[test]
fn a_request_with_the_awaited_token_is_no_response() {
    let mut correlator = FrameCorrelator::new();
    let mut probe = Frame::request(OPCODE_DCP_NOOP);
    probe.opaque = 7;
    assert!(correlator.accept(probe, 7).is_none());
    assert_eq!(correlator.take_pending().unwrap().opcode, OPCODE_DCP_NOOP);
}

#[test]
fn explicit_tokens_are_kept() {
    let mut correlator = FrameCorrelator::new();
    let mut request = Frame::request(OPCODE_HELLO);
    request.opaque = 42;
    assert_eq!(correlator.prepare(request).opaque, 42);
    assert_eq!(correlator.prepare(Frame::request(OPCODE_HELLO)).opaque, 1);
    let mut source = OpaqueSource::new();
    assert_eq!(source.allocate_opaque(), 1);
    assert_eq!(source.allocate_opaque(), 2);
}

#[test]
fn outbound_writes_do_not_refresh_inbound_liveness() {
    let watch = InboundWatch::new(Interval::from_millis(0));
    let mut correlator = FrameCorrelator::new();
    correlator.prepare(Frame::request(OPCODE_HELLO));
    assert!(watch
        .check(&Interval::from_millis(19), Interval::from_millis(20), "peer")
        .is_ok());
    assert!(watch
        .check(&Interval::from_millis(20), Interval::from_millis(20), "peer")
        .is_err());
}

#[test]
fn dead_connection_timeout_is_reported_as_liveness_failure() {
    let mut watch = InboundWatch::new(Interval::from_millis(0));
    watch.received(Interval::from_millis(15));
    assert!(watch
        .check(
            &Interval::from_millis(34),
            Interval::from_millis(20),
            "silent.test:11210",
        )
        .is_ok());
    assert!(matches!(
        watch.check(
            &Interval::from_millis(35),
            Interval::from_millis(20),
            "silent.test:11210",
        ),
        Err(DcpError::DeadConnection { .. })
    ));
}
