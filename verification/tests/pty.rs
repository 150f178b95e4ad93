use ble_serial::error::Error;
use ble_serial::pty::{PortPath, PtyAction, PtyBridge, PtyEvent};

/// A path that is not text, but is shown as `shown`.
fn path(bytes: &[u8], shown: &str) -> PortPath {
    PortPath { bytes: bytes.to_vec(), shown: shown.to_string() }
}

fn port() -> PortPath {
    path(b"/tmp/tty\xffBLE", "/tmp/ttyBLE")
}

/// Answers the requests of a setup in turn and gives back all that it asked for.
fn run(mtu: usize, events: Vec<PtyEvent>) -> (PtyBridge, Vec<PtyAction>) {
    let (mut bridge, action) = PtyBridge::new(port(), mtu);
    let mut actions = vec![action];
    for event in events {
        let (next, action) = bridge.step(event);
        bridge = next;
        actions.push(action);
    }
    (bridge, actions)
}

fn good() -> Vec<PtyEvent> {
    vec![
        PtyEvent::Opened(true),
        PtyEvent::Named(Some(path(b"/dev/pts\xfe/4", "/dev/pts/4"))),
        PtyEvent::AttributesRead(true),
        PtyEvent::RawSet(true),
        PtyEvent::PortFound(false),
        PtyEvent::Linked(true),
        PtyEvent::ReaderStarted(true),
        PtyEvent::WriterStarted(true),
    ]
}

fn fails_with(at: usize, last: PtyEvent) -> Error {
    let mut events = good();
    events.truncate(at);
    events.push(last);
    let (_, mut actions) = run(20, events);
    match actions.pop() {
        Some(PtyAction::Fail(error)) => error,
        other => panic!("{:?}", other),
    }
}

#[test]
fn whole_setup() {
    let (bridge, actions) = run(20, good());
    assert_eq!(
        actions,
        vec![
            PtyAction::OpenPty,
            PtyAction::Name,
            PtyAction::ReadAttributes,
            PtyAction::SetRaw,
            PtyAction::FindPort,
            PtyAction::Link { target: b"/dev/pts\xfe/4".to_vec() },
            PtyAction::StartReader { buffer: 512, queue: 64 },
            PtyAction::StartWriter,
            PtyAction::Ready,
        ]
    );
    assert_eq!(bridge.remove(), port());
}

#[test]
fn read_buffer_grows_with_the_packets() {
    for (mtu, buffer) in [(0, 512), (511, 512), (512, 512), (513, 513), (4096, 4096)] {
        let (_, actions) = run(mtu, good());
        assert_eq!(actions[6], PtyAction::StartReader { buffer, queue: 64 });
    }
}

#[test]
fn each_failure_of_the_setup() {
    assert_eq!(fails_with(0, PtyEvent::Opened(false)).message(), "openpty() failed");
    assert_eq!(fails_with(1, PtyEvent::Named(None)).message(), "ttyname() failed");
    assert_eq!(fails_with(2, PtyEvent::AttributesRead(false)).message(), "tcgetattr failed");
    assert_eq!(fails_with(3, PtyEvent::RawSet(false)).message(), "tcsetattr failed");
    assert_eq!(fails_with(6, PtyEvent::ReaderStarted(false)).message(), "dup for reader failed");
    assert_eq!(fails_with(7, PtyEvent::WriterStarted(false)).message(), "dup for writer failed");
}

#[test]
fn port_that_is_taken() {
    let error = fails_with(4, PtyEvent::PortFound(true));
    assert_eq!(error, Error::PortExists { port: "/tmp/ttyBLE".to_string() });
    assert_eq!(
        error.message(),
        "Port \"/tmp/ttyBLE\" already exists — delete it or choose a different --port"
    );
}

#[test]
fn port_that_cannot_be_linked() {
    let error = fails_with(5, PtyEvent::Linked(false));
    assert_eq!(
        error,
        Error::Symlink { port: "/tmp/ttyBLE".to_string(), target: "/dev/pts/4".to_string() }
    );
    assert_eq!(error.message(), "symlink /tmp/ttyBLE -> /dev/pts/4 failed");
}
