use plasma_stream::errors::SimulatorError;
use plasma_stream::errors::StreamError;
use plasma_stream::events::StreamLogEvent;
use plasma_stream::frame::Frame;
use plasma_stream::text::find_subslice;
use plasma_stream::text::parse_usize;
use plasma_stream::text::starts_with_bytes;
use plasma_stream::text::trim_slice;

#[test]
fn frame_construction_enforces_the_pixel_invariant() {
    let ok = Frame::new(2, 3, vec![0u8; 24]).expect("2 * 3 * 4 bytes");
    assert_eq!(ok.width, 2);
    assert_eq!(ok.height, 3);
    assert!(Frame::new(2, 3, vec![0u8; 23]).is_none());
    assert!(Frame::new(2, 3, vec![0u8; 25]).is_none());
    assert!(Frame::new(0, 0, Vec::new()).is_some());
}

#[test]
fn byte_helpers_behave_like_their_contracts() {
    assert_eq!(find_subslice(b"hello", b"ll"), Some(2));
    assert_eq!(find_subslice(b"hello", b"xy"), None);
    assert!(starts_with_bytes(b"stream_ready x", b"stream_ready "));
    assert_eq!(trim_slice(b"  a b \r\n"), b"a b");
    assert_eq!(parse_usize(b"1234"), Some(1234));
    assert_eq!(parse_usize(b"12a4"), None);
    assert_eq!(parse_usize(b""), None);
    assert_eq!(parse_usize(b"99999999999999999999999999"), None);
}

#[test]
fn simulator_errors_carry_their_messages() {
    assert_eq!(SimulatorError::NoActiveSession.message(), "no active session");
    assert_eq!(
        SimulatorError::ServerError("spawn failed".to_string()).message(),
        "spawn failed"
    );
    assert_eq!(
        SimulatorError::ImageError("bad magic".to_string()).message(),
        "bad magic"
    );
}

#[test]
fn error_taxonomy_and_log_events_are_plain_data() {
    assert_ne!(StreamError::ToolNotFound, StreamError::StartupTimeout);
    assert_eq!(StreamError::DecodeFailure, StreamError::DecodeFailure);
    let e = StreamLogEvent::frame(7);
    assert!(matches!(e, StreamLogEvent::Frame { frame_number: 7 }));
}

#[test]
fn only_terminal_failures_advance_the_fallback_chain() {
    assert!(StreamError::ToolNotFound.advances_backend());
    assert!(StreamError::StartupTimeout.advances_backend());
    assert!(StreamError::MalformedGeometry.advances_backend());
    assert!(StreamError::ProcessExited.advances_backend());
    assert!(!StreamError::ProtocolDesync.advances_backend());
    assert!(!StreamError::DecodeFailure.advances_backend());
}
