use xtool::args::{ConnectionSpec, Ipv4Address};
use xtool::error::ToolError;
use xtool::session::{
    Action, Event, OpenRequest, Phase, Session, SERIAL_TIMEOUT_MS, TCP_READ_TIMEOUT_MS,
};

fn local_tcp(port: u16) -> ConnectionSpec {
    ConnectionSpec::Tcp { ip: Ipv4Address { octets: [127, 0, 0, 1] }, port }
}

#[test]
fn udp_fails_before_any_socket_call() {
    let spec = ConnectionSpec::Udp { ip: Ipv4Address { octets: [127, 0, 0, 1] }, port: 9 };
    let mut s = Session::new(spec, None);
    assert_eq!(s.step(Event::Begin), Action::Fail(ToolError::NotImplemented));
    assert_eq!(s.phase(), Phase::Failed);
    assert!(!s.expects(&Event::Opened));
}

#[test]
fn tcp_closed_port_fails_with_connect_failed() {
    let mut s = Session::new(local_tcp(1), None);
    assert_eq!(
        s.step(Event::Begin),
        Action::Open(OpenRequest::Tcp {
            ip: Ipv4Address { octets: [127, 0, 0, 1] },
            port: 1,
            read_timeout_ms: 100,
        })
    );
    assert_eq!(
        s.step(Event::OpenFailed("connection refused".to_string())),
        Action::Fail(ToolError::ConnectFailed("connection refused".to_string()))
    );
    assert_eq!(s.phase(), Phase::Failed);
}

#[test]
fn tcp_echo_session_sends_then_receives_fragments() {
    let payload = vec![0x48, 0x45, 0x4C, 0x4C, 0x4F];
    let mut s = Session::new(local_tcp(7), Some(payload.clone()));
    assert!(matches!(s.step(Event::Begin), Action::Open(_)));
    assert_eq!(s.step(Event::Opened), Action::Write(payload.clone()));
    assert!(s.expects(&Event::Wrote));
    assert!(!s.expects(&Event::ReadEnded));
    assert_eq!(s.step(Event::Wrote), Action::ReportSentThenRead(payload.clone()));
    assert_eq!(s.step(Event::Received(vec![0x48, 0x45])), Action::Read);
    assert_eq!(s.step(Event::Received(Vec::new())), Action::Read);
    assert_eq!(s.step(Event::Received(vec![0x4C, 0x4C, 0x4F])), Action::Read);
    assert_eq!(s.received(), &payload);
    assert_eq!(s.step(Event::ReadEnded), Action::Finish(payload));
    assert_eq!(s.phase(), Phase::Finished);
}

#[test]
fn tcp_silent_peer_finishes_with_empty_buffer() {
    let mut s = Session::new(local_tcp(7), None);
    assert!(matches!(s.step(Event::Begin), Action::Open(_)));
    assert_eq!(s.step(Event::Opened), Action::Read);
    assert_eq!(s.step(Event::ReadEnded), Action::Finish(Vec::new()));
    assert_eq!(s.phase(), Phase::Finished);
}

#[test]
fn write_failure_skips_the_read_phase() {
    let mut s = Session::new(local_tcp(7), Some(vec![1]));
    s.step(Event::Begin);
    assert_eq!(s.step(Event::Opened), Action::Write(vec![1]));
    assert_eq!(
        s.step(Event::WriteFailed("broken pipe".to_string())),
        Action::Fail(ToolError::WriteFailed("broken pipe".to_string()))
    );
    assert_eq!(s.phase(), Phase::Failed);
    assert!(!s.expects(&Event::ReadEnded));
}

#[test]
fn serial_session_opens_with_its_timeout() {
    let spec = ConnectionSpec::Serial { device: "/dev/ttyS0".to_string(), baud_rate: 9600 };
    let mut s = Session::new(spec, None);
    assert_eq!(
        s.step(Event::Begin),
        Action::Open(OpenRequest::Serial {
            device: "/dev/ttyS0".to_string(),
            baud_rate: 9600,
            timeout_ms: 500,
        })
    );
    assert_eq!(
        s.step(Event::OpenFailed("no such device".to_string())),
        Action::Fail(ToolError::PortOpenFailed("no such device".to_string()))
    );
}

#[test]
fn timeouts_are_the_defaults() {
    assert_eq!(TCP_READ_TIMEOUT_MS, 100);
    assert_eq!(SERIAL_TIMEOUT_MS, 500);
}

#[test]
fn new_session_expects_only_begin() {
    let s = Session::new(local_tcp(7), None);
    assert_eq!(s.phase(), Phase::Idle);
    assert!(s.expects(&Event::Begin));
    assert!(!s.expects(&Event::Opened));
    assert!(s.received().is_empty());
}
