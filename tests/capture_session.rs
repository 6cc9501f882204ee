use wgmon::capture::{capture_args, CaptureEvent, CapturePhase, CaptureSession};

fn running(iface: &str) -> CaptureSession {
    let mut s = CaptureSession::new(iface.to_string());
    assert_eq!(s.on_event(CaptureEvent::PrivilegeChecked(true)), None);
    let msg = s.on_event(CaptureEvent::Launched { spawned: true, stream: true });
    assert_eq!(msg, Some(format!("tcpdump start, waiting for {} traffic", iface)));
    assert_eq!(s.phase(), CapturePhase::Running);
    s
}

fn feed(s: &mut CaptureSession, bytes: &[u8]) -> Option<String> {
    let mut last = None;
    for b in bytes {
        if let Some(t) = s.on_event(CaptureEvent::Byte(*b)) {
            last = Some(t);
        }
    }
    last
}

#[test]
fn hundred_fifty_lines_publish_the_last_hundred() {
    let mut s = running("wg0");
    let mut published = None;
    for i in 1..=150 {
        published = feed(&mut s, format!("packet {}\n", i).as_bytes());
    }
    let expected = (51..=150).map(|i| format!("packet {}", i)).collect::<Vec<String>>().join("\n");
    assert_eq!(published, Some(expected));
    assert_eq!(s.tail_lines().len(), 100);
}

#[test]
fn every_completed_line_republishes() {
    let mut s = running("wg1");
    assert_eq!(feed(&mut s, b"ab"), None);
    assert_eq!(s.on_event(CaptureEvent::Byte(b'\n')), Some("ab".to_string()));
    assert_eq!(feed(&mut s, b"c\n"), Some("ab\nc".to_string()));
}

#[test]
fn invalid_utf8_is_replaced() {
    let mut s = running("wg0");
    assert_eq!(feed(&mut s, &[b'a', 0xff, b'b', b'\n']), Some("a\u{fffd}b".to_string()));
}

#[test]
fn not_privileged_fails_start() {
    let mut s = CaptureSession::new("wg0".to_string());
    assert_eq!(
        s.on_event(CaptureEvent::PrivilegeChecked(false)),
        Some("You must be root to run `tcpdump`".to_string())
    );
    assert_eq!(s.phase(), CapturePhase::StartupFailed);
    assert_eq!(s.on_event(CaptureEvent::Launched { spawned: true, stream: true }), None);
    assert_eq!(s.phase(), CapturePhase::StartupFailed);
}

#[test]
fn spawn_failure_and_missing_stream() {
    let mut s = CaptureSession::new("wg0".to_string());
    s.on_event(CaptureEvent::PrivilegeChecked(true));
    assert_eq!(
        s.on_event(CaptureEvent::Launched { spawned: false, stream: false }),
        Some("Could not run tcpdump - permission?".to_string())
    );
    let mut s = CaptureSession::new("wg0".to_string());
    s.on_event(CaptureEvent::PrivilegeChecked(true));
    assert_eq!(
        s.on_event(CaptureEvent::Launched { spawned: true, stream: false }),
        Some("Could not get output from tcpdump".to_string())
    );
    assert_eq!(s.phase(), CapturePhase::StartupFailed);
}

#[test]
fn stream_end_and_kill_are_terminal() {
    let mut s = running("wg0");
    assert_eq!(s.on_event(CaptureEvent::StreamEnded), None);
    assert_eq!(s.phase(), CapturePhase::StreamClosed);
    assert_eq!(s.on_event(CaptureEvent::Byte(b'\n')), None);
    let mut k = running("wg0");
    assert_eq!(k.on_event(CaptureEvent::Killed), None);
    assert_eq!(k.phase(), CapturePhase::Terminated);
}

#[test]
fn bytes_before_running_are_ignored() {
    let mut s = CaptureSession::new("wg0".to_string());
    assert_eq!(s.on_event(CaptureEvent::Byte(b'\n')), None);
    assert_eq!(s.phase(), CapturePhase::NotStarted);
}

#[test]
fn capture_command_arguments() {
    assert_eq!(capture_args("wg0"), vec!["-iwg0".to_string(), "-l".to_string(), "-n".to_string()]);
}
