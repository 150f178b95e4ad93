use std::time::Duration;

use ble_serial::error::Error;
use ble_serial::gatt::{CharPropFlags, Characteristic, CharacteristicSet, WriteType};
use ble_serial::scan::{DeviceProperties, PropertiesReply};
use ble_serial::session::{log_filter, write_mode, Session, SessionAction, SessionEvent};

/// No whole number of milliseconds.
const TIMEOUT: Duration = Duration::from_nanos(2_500_000_001);

const FFE1: u128 = 0x0000ffe1_0000_1000_8000_00805f9b34fb;
const FFF1: u128 = 0x0000fff1_0000_1000_8000_00805f9b34fb;
const FFF2: u128 = 0x0000fff2_0000_1000_8000_00805f9b34fb;

fn characteristic(uuid: u128, bits: u8) -> Characteristic {
    Characteristic {
        uuid,
        service_uuid: 0x0000ffe0_0000_1000_8000_00805f9b34fb,
        properties: CharPropFlags { bits },
        descriptors: vec![],
    }
}

fn set(chars: &[(u128, u8)]) -> CharacteristicSet {
    let mut set = CharacteristicSet::new();
    for (uuid, bits) in chars {
        set.insert(characteristic(*uuid, *bits));
    }
    set
}

fn named(name: Option<&str>) -> SessionEvent {
    SessionEvent::Properties {
        id: "dev-1".to_string(),
        reply: PropertiesReply::Known(DeviceProperties {
            address: [0; 6],
            local_name: name.map(|n| n.to_string()),
            rssi: None,
        }),
    }
}

fn good(chars: CharacteristicSet) -> Vec<SessionEvent> {
    vec![
        SessionEvent::Initialised(true),
        SessionEvent::Adapters(Some(2)),
        SessionEvent::DeviceFound(true),
        named(Some("UART")),
        SessionEvent::Connected(true),
        SessionEvent::Discovered(true),
        SessionEvent::Characteristics(chars),
        SessionEvent::Subscribed(true),
        SessionEvent::PortOpened(true),
        SessionEvent::NotificationsOpened(true),
        SessionEvent::Ended,
        SessionEvent::PortRemoved,
        SessionEvent::Disconnected,
    ]
}

/// Answers the requests of a session in turn and gives back all that it asked for.
fn run(
    begun: (Session, SessionAction),
    events: impl IntoIterator<Item = SessionEvent>,
) -> Vec<SessionAction> {
    let (mut session, action) = begun;
    let mut actions = vec![action];
    for event in events {
        let (next, action) = session.step(event);
        session = next;
        actions.push(action);
    }
    actions
}

fn ends_with(at: usize, last: SessionEvent) -> SessionAction {
    let events = good(set(&[(FFE1, 0x14)])).into_iter().take(at).chain([last]);
    run(Session::new(None, None, false, TIMEOUT), events).pop().unwrap()
}

#[test]
fn whole_session() {
    let x = characteristic(FFE1, 0x14);
    let actions = run(Session::new(None, None, false, TIMEOUT), good(set(&[(FFE1, 0x14), (FFF1, 0x10)])));
    assert_eq!(
        actions,
        vec![
            SessionAction::InitBluetooth,
            SessionAction::ListAdapters,
            SessionAction::FindDevice { adapter: 0, timeout: TIMEOUT },
            SessionAction::FetchProperties,
            SessionAction::Connect { name: "UART".to_string(), timeout: TIMEOUT },
            SessionAction::DiscoverServices,
            SessionAction::ReadCharacteristics,
            SessionAction::Subscribe { read_char: x.clone(), write_uuid: FFE1 },
            SessionAction::OpenPort,
            SessionAction::OpenNotifications,
            SessionAction::Run {
                write_char: x,
                write_type: WriteType::WithoutResponse,
                notify_uuid: FFE1,
            },
            SessionAction::RemovePort,
            SessionAction::Disconnect,
            SessionAction::Finish,
        ]
    );
}

#[test]
fn writes_with_response() {
    let chars = set(&[(FFE1, 0x14), (FFF1, 0x10), (FFF2, 0x08)]);
    let actions = run(Session::new(None, None, true, TIMEOUT), good(chars));
    assert_eq!(
        actions[7],
        SessionAction::Subscribe { read_char: characteristic(FFE1, 0x14), write_uuid: FFF2 }
    );
    assert_eq!(
        actions[10],
        SessionAction::Run {
            write_char: characteristic(FFF2, 0x08),
            write_type: WriteType::WithResponse,
            notify_uuid: FFE1,
        }
    );
}

#[test]
fn characteristics_that_the_user_named() {
    let chars = set(&[(FFE1, 0x14), (5, 0x14)]);
    let five = "00000000-0000-0000-0000-000000000005";
    let actions = run(Session::new(Some(five), None, false, TIMEOUT), good(chars));
    assert_eq!(
        actions[7],
        SessionAction::Subscribe { read_char: characteristic(5, 0x14), write_uuid: FFE1 }
    );
}

#[test]
fn each_failure_of_the_session() {
    let fail = SessionAction::Fail;
    assert_eq!(ends_with(0, SessionEvent::Initialised(false)), fail(Error::Bluetooth));
    assert_eq!(ends_with(1, SessionEvent::Adapters(None)), fail(Error::ListAdapters));
    assert_eq!(ends_with(1, SessionEvent::Adapters(Some(0))), fail(Error::NoAdapter));
    assert_eq!(ends_with(2, SessionEvent::DeviceFound(false)), SessionAction::Propagate);
    let unanswered = SessionEvent::Properties {
        id: "dev-1".to_string(),
        reply: PropertiesReply::Failed,
    };
    assert_eq!(ends_with(3, unanswered), SessionAction::Propagate);
    assert_eq!(ends_with(4, SessionEvent::Connected(false)), fail(Error::Connect));
    assert_eq!(ends_with(5, SessionEvent::Discovered(false)), fail(Error::DiscoverServices));
    assert_eq!(ends_with(7, SessionEvent::Subscribed(false)), fail(Error::Subscribe));
    assert_eq!(ends_with(8, SessionEvent::PortOpened(false)), SessionAction::Propagate);
    assert_eq!(ends_with(9, SessionEvent::NotificationsOpened(false)), SessionAction::Propagate);
}

#[test]
fn missing_characteristics() {
    let no_known = |label: &str| {
        SessionAction::Fail(Error::NoKnownCharacteristic { label: label.to_string() })
    };
    let ended = |chars| ends_with(6, SessionEvent::Characteristics(chars));
    assert_eq!(ended(set(&[])), no_known("write"));
    assert_eq!(ended(set(&[(FFE1, 0x10)])), no_known("write"));
    assert_eq!(ended(set(&[(FFE1, 0x04)])), no_known("read"));
}

#[test]
fn name_of_the_device() {
    let connect = |name: &str| SessionAction::Connect {
        name: name.to_string(),
        timeout: TIMEOUT,
    };
    assert_eq!(ends_with(3, named(Some("UART"))), connect("UART"));
    assert_eq!(ends_with(3, named(None)), connect("dev-1"));
    let unknown =
        SessionEvent::Properties { id: "dev-1".to_string(), reply: PropertiesReply::Unknown };
    assert_eq!(ends_with(3, unknown), connect("dev-1"));
}

#[test]
fn messages() {
    for (error, message) in [
        (Error::Bluetooth, "Failed to initialise Bluetooth"),
        (Error::ListAdapters, "Failed to list BLE adapters"),
        (Error::NoAdapter, "No BLE adapter found"),
        (Error::ScanStart, "BLE scan start failed"),
        (Error::ListPeripherals, "Failed to list peripherals"),
        (Error::NoDevices, "No BLE devices found during scan"),
        (Error::Connect, "BLE connect failed"),
        (Error::DiscoverServices, "GATT service discovery failed"),
        (Error::Subscribe, "Failed to subscribe to notifications"),
    ] {
        assert_eq!(error.message(), message);
        assert_eq!(error.cause(), None);
    }
}

#[test]
fn log_filters() {
    assert_eq!(log_filter(0), "info,btleplug=warn");
    assert_eq!(log_filter(1), "debug,btleplug=warn");
    assert_eq!(log_filter(2), "debug,btleplug=debug");
    assert_eq!(log_filter(255), "debug,btleplug=debug");
}

#[test]
fn write_modes() {
    assert_eq!(write_mode(true), (CharPropFlags { bits: 0x08 }, WriteType::WithResponse));
    assert_eq!(write_mode(false), (CharPropFlags { bits: 0x04 }, WriteType::WithoutResponse));
}
