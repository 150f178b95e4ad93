use std::time::Duration;

use ble_serial::error::Error;
use ble_serial::scan::{
    find_device, ChoiceReply, DeviceProperties, DeviceSearch, PropertiesReply, ScanAction,
    ScanEvent,
};
use ble_serial::text::right_align;

/// No whole number of milliseconds.
const TIMEOUT: Duration = Duration::from_nanos(1_500_000_001);

const TITLE: &str = "Select BLE device to connect:";

fn known(address: [u8; 6], name: Option<&str>, rssi: Option<i16>) -> PropertiesReply {
    PropertiesReply::Known(DeviceProperties {
        address,
        local_name: name.map(|n| n.to_string()),
        rssi,
    })
}

/// Goes through a search up to the list of devices.
fn listed(address: Option<&str>, ids: &[&str]) -> (DeviceSearch, ScanAction) {
    let (mut search, mut action) = find_device(address, None, TIMEOUT);
    if address.is_none() {
        assert_eq!(action, ScanAction::StartScan { services: vec![] });
        (search, action) = search.step(ScanEvent::ScanStarted(true));
        assert_eq!(action, ScanAction::Wait { time: TIMEOUT });
        (search, action) = search.step(ScanEvent::Waited);
        assert_eq!(action, ScanAction::StopScan);
        (search, action) = search.step(ScanEvent::ScanStopped);
    }
    assert_eq!(action, ScanAction::ListPeripherals);
    search.step(ScanEvent::Peripherals(Some(ids.iter().map(|s| s.to_string()).collect())))
}

#[test]
fn scan_for_a_service() {
    let (_, action) = find_device(None, Some("0000ffe0-0000-1000-8000-00805f9b34fb"), TIMEOUT);
    assert_eq!(
        action,
        ScanAction::StartScan { services: vec![0x0000ffe0_0000_1000_8000_00805f9b34fb] }
    );
}

#[test]
fn service_that_is_no_uuid() {
    for address in [None, Some("AA:BB:CC:0D:EE:FF")] {
        let (_, action) = find_device(address, Some("ffe0"), TIMEOUT);
        match action {
            ScanAction::Fail(error) => {
                assert_eq!(error.message(), "Invalid service UUID");
                assert_eq!(error.cause(), Some("invalid length: found 4"));
            }
            other => panic!("{:?}", other),
        }
    }
}

#[test]
fn address_skips_the_scan() {
    for service in [None, Some("0000ffe0-0000-1000-8000-00805f9b34fb")] {
        let (search, action) = find_device(Some("AA:BB:CC:0D:EE:FF"), service, TIMEOUT);
        assert_eq!(action, ScanAction::ListPeripherals);
        let ids = vec!["a".to_string(), "aa:bb:cc:0d:ee:ff".to_string()];
        let (search, action) = search.step(ScanEvent::Peripherals(Some(ids)));
        assert_eq!(action, ScanAction::FetchProperties(0));
        let (_, action) = search.step(ScanEvent::Properties(PropertiesReply::Unknown));
        assert_eq!(action, ScanAction::Use(1));
    }
}

#[test]
fn scan_that_cannot_start() {
    let (search, _) = find_device(None, None, TIMEOUT);
    let (_, action) = search.step(ScanEvent::ScanStarted(false));
    assert_eq!(action, ScanAction::Fail(Error::ScanStart));
}

#[test]
fn devices_that_cannot_be_listed() {
    let (search, _) = find_device(Some("x"), None, TIMEOUT);
    let (_, action) = search.step(ScanEvent::Peripherals(None));
    assert_eq!(action, ScanAction::Fail(Error::ListPeripherals));
    let (search, _) = find_device(None, None, TIMEOUT);
    let (search, _) = search.step(ScanEvent::ScanStarted(true));
    let (search, _) = search.step(ScanEvent::Waited);
    let (search, _) = search.step(ScanEvent::ScanStopped);
    let (_, action) = search.step(ScanEvent::Peripherals(None));
    assert_eq!(action, ScanAction::Fail(Error::ListPeripherals));
}

#[test]
fn no_devices() {
    let (_, action) = listed(Some("x"), &[]);
    assert_eq!(action, ScanAction::Fail(Error::NoDevices));
    let (_, action) = listed(None, &[]);
    assert_eq!(action, ScanAction::Fail(Error::NoDevices));
}

#[test]
fn device_by_identifier_in_any_case() {
    let ids = ["other", "E687FC6B-4B89-50BB-8077-6C11D1739BA7"];
    for address in [
        "E687FC6B-4B89-50BB-8077-6C11D1739BA7",
        "e687fc6b-4b89-50bb-8077-6c11d1739ba7",
        "e687FC6B-4b89-50bb-8077-6C11D1739BA7",
    ] {
        let (search, action) = listed(Some(address), &ids);
        assert_eq!(action, ScanAction::FetchProperties(0));
        let (_, action) = search.step(ScanEvent::Properties(PropertiesReply::Unknown));
        assert_eq!(action, ScanAction::Use(1));
    }
}

#[test]
fn device_by_identifier_beyond_ascii() {
    let (_, action) = listed(Some("GERÄT"), &["gerät"]);
    assert_eq!(action, ScanAction::Use(0));
}

#[test]
fn device_by_hardware_address_in_any_case() {
    for address in ["AA:BB:CC:0D:EE:FF", "aa:bb:cc:0d:ee:ff"] {
        let (search, action) = listed(Some(address), &["hci0/dev_1", "hci0/dev_2"]);
        assert_eq!(action, ScanAction::FetchProperties(0));
        let first = known([0xaa, 0xbb, 0xcc, 0x0d, 0xee, 0xfe], None, None);
        let (search, action) = search.step(ScanEvent::Properties(first));
        assert_eq!(action, ScanAction::FetchProperties(1));
        let second = known([0xaa, 0xbb, 0xcc, 0x0d, 0xee, 0xff], None, None);
        let (_, action) = search.step(ScanEvent::Properties(second));
        assert_eq!(action, ScanAction::Use(1));
    }
}

#[test]
fn first_of_two_matching_devices() {
    let (search, action) = listed(Some("00:00:00:00:00:01"), &["a", "00:00:00:00:00:01"]);
    assert_eq!(action, ScanAction::FetchProperties(0));
    let reply = known([0, 0, 0, 0, 0, 1], None, None);
    let (_, action) = search.step(ScanEvent::Properties(reply));
    assert_eq!(action, ScanAction::Use(0));
}

#[test]
fn device_that_is_not_there() {
    let (search, action) = listed(Some("AA:BB"), &["a", "b"]);
    assert_eq!(action, ScanAction::FetchProperties(0));
    let (search, action) = search.step(ScanEvent::Properties(PropertiesReply::Failed));
    assert_eq!(action, ScanAction::FetchProperties(1));
    let (_, action) = search.step(ScanEvent::Properties(PropertiesReply::Unknown));
    match action {
        ScanAction::Fail(error) => {
            assert_eq!(error, Error::DeviceNotFound { address: "AA:BB".to_string() });
            assert_eq!(error.message(), "Device 'AA:BB' not found during scan");
        }
        other => panic!("{:?}", other),
    }
}

/// Goes through a search up to the prompt.
fn prompted() -> (DeviceSearch, Vec<String>) {
    let (search, action) = listed(None, &["dev-a", "dev-b", "dev-c", "dev-c"]);
    assert_eq!(action, ScanAction::FetchProperties(0));
    let (search, action) =
        search.step(ScanEvent::Properties(known([0; 6], Some("UART"), Some(-63))));
    assert_eq!(action, ScanAction::FetchProperties(1));
    let (search, action) = search.step(ScanEvent::Properties(known([0; 6], None, Some(-101))));
    assert_eq!(action, ScanAction::FetchProperties(2));
    let (search, action) = search.step(ScanEvent::Properties(PropertiesReply::Failed));
    assert_eq!(action, ScanAction::FetchProperties(3));
    let (search, action) = search.step(ScanEvent::Properties(PropertiesReply::Unknown));
    match action {
        ScanAction::Prompt { title, options } => {
            assert_eq!(title, TITLE);
            (search, options)
        }
        other => panic!("{:?}", other),
    }
}

#[test]
fn labels_offered_to_the_user() {
    let (_, labels) = prompted();
    assert_eq!(
        labels,
        vec![
            " -63 dBm  dev-a  UART".to_string(),
            "-101 dBm  dev-b  (unnamed)".to_string(),
            "  ?        dev-c  (unnamed)".to_string(),
            "  ?        dev-c  (unnamed)".to_string(),
        ]
    );
}

#[test]
fn strengths_in_labels() {
    for (rssi, text) in [
        (0, "   0 dBm"),
        (7, "   7 dBm"),
        (-5, "  -5 dBm"),
        (123, " 123 dBm"),
        (1000, "1000 dBm"),
        (i16::MIN, "-32768 dBm"),
        (i16::MAX, "32767 dBm"),
    ] {
        let (search, _) = listed(None, &["d"]);
        let (_, action) = search.step(ScanEvent::Properties(known([0; 6], None, Some(rssi))));
        let options = vec![format!("{}  d  (unnamed)", text)];
        assert_eq!(action, ScanAction::Prompt { title: TITLE, options });
        assert_eq!(format!("{:4} dBm", rssi), text);
    }
}

#[test]
fn unreadable_properties() {
    let bare = || known([1, 2, 3, 4, 5, 6], None, None);
    for reply in [PropertiesReply::Failed, PropertiesReply::Unknown, bare()] {
        let (search, _) = listed(None, &["d"]);
        let (search, action) = search.step(ScanEvent::Properties(reply));
        let label = "  ?        d  (unnamed)".to_string();
        assert_eq!(action, ScanAction::Prompt { title: TITLE, options: vec![label.clone()] });
        let (_, action) = search.step(ScanEvent::Choice(ChoiceReply::Chosen(label)));
        assert_eq!(action, ScanAction::Use(0));
    }
}

#[test]
fn chosen_device() {
    let (search, labels) = prompted();
    let (_, action) = search.step(ScanEvent::Choice(ChoiceReply::Chosen(labels[1].clone())));
    assert_eq!(action, ScanAction::Use(1));
}

#[test]
fn chosen_label_that_two_devices_share() {
    let (search, labels) = prompted();
    let (_, action) = search.step(ScanEvent::Choice(ChoiceReply::Chosen(labels[3].clone())));
    assert_eq!(action, ScanAction::Use(2));
}

#[test]
fn no_choice() {
    let (search, _) = prompted();
    let (_, action) = search.step(ScanEvent::Choice(ChoiceReply::Cancelled));
    assert_eq!(action, ScanAction::Fail(Error::NothingSelected));
    let (search, _) = prompted();
    let (_, action) = search.step(ScanEvent::Choice(ChoiceReply::Panicked));
    assert_eq!(action, ScanAction::Fail(Error::SelectionPanicked));
    assert_eq!(Error::NothingSelected.message(), "No device selected");
    assert_eq!(Error::SelectionPanicked.message(), "Selection task panicked");
}

#[test]
fn alignment() {
    assert_eq!(right_align("ab", 5), "   ab");
    assert_eq!(right_align("abcde", 5), "abcde");
    assert_eq!(right_align("abcdef", 5), "abcdef");
    assert_eq!(right_align("", 2), "  ");
    assert_eq!(right_align("é", 3), "  é");
}
