use ble_serial::error::Error;
use ble_serial::gatt::{CharPropFlags, Characteristic, CharacteristicSet, Descriptor};
use ble_serial::uart::{find_char, known_label, listing, KNOWN_UART_CHARS};

const FFE1: u128 = 0x0000ffe1_0000_1000_8000_00805f9b34fb;
const FF01: u128 = 0x0000ff01_0000_1000_8000_00805f9b34fb;
const FF02: u128 = 0x0000ff02_0000_1000_8000_00805f9b34fb;
const NORDIC_TX: u128 = 0x6e400002_b5a3_f393_e0a9_e50e24dcca9e;
const NORDIC_RX: u128 = 0x6e400003_b5a3_f393_e0a9_e50e24dcca9e;
const BATTERY: u128 = 0x00002a19_0000_1000_8000_00805f9b34fb;

const WWR: u8 = 0x04;
const WRITE: u8 = 0x08;
const NOTIFY: u8 = 0x10;

fn characteristic(uuid: u128, service_uuid: u128, bits: u8) -> Characteristic {
    Characteristic { uuid, service_uuid, properties: CharPropFlags { bits }, descriptors: vec![] }
}

fn set(chars: &[(u128, u8)]) -> CharacteristicSet {
    let mut set = CharacteristicSet::new();
    for (uuid, bits) in chars {
        set.insert(characteristic(*uuid, 1, *bits));
    }
    set
}

#[test]
fn one_characteristic_for_both_directions() {
    let chars = set(&[(BATTERY, NOTIFY), (FFE1, WWR | NOTIFY)]);
    let write = find_char(&chars, None, CharPropFlags::write_without_response(), "write").unwrap();
    let read = find_char(&chars, None, CharPropFlags::notify(), "read").unwrap();
    assert_eq!(write.uuid, FFE1);
    assert_eq!(write, read);
}

#[test]
fn separate_characteristics_for_each_direction() {
    let chars = set(&[(NORDIC_RX, NOTIFY), (NORDIC_TX, WWR | WRITE)]);
    let write = find_char(&chars, None, CharPropFlags::write(), "write").unwrap();
    let read = find_char(&chars, None, CharPropFlags::notify(), "read").unwrap();
    assert_eq!(write.uuid, NORDIC_TX);
    assert_eq!(read.uuid, NORDIC_RX);
}

#[test]
fn detection_follows_priority() {
    let chars = set(&[(NORDIC_RX, NOTIFY), (FF01, NOTIFY), (FFE1, WWR)]);
    let read = find_char(&chars, None, CharPropFlags::notify(), "read").unwrap();
    assert_eq!(read.uuid, FF01);
}

#[test]
fn other_characteristics_have_no_influence() {
    let few = set(&[(NORDIC_RX, NOTIFY)]);
    let many = set(&[(1, NOTIFY), (BATTERY, NOTIFY), (FFE1, WWR), (FF01, WRITE), (NORDIC_RX, NOTIFY)]);
    let notify = CharPropFlags::notify();
    assert_eq!(
        find_char(&few, None, notify, "read").unwrap(),
        find_char(&many, None, notify, "read").unwrap()
    );
    let given = Some("6e400003-b5a3-f393-e0a9-e50e24dcca9e");
    assert_eq!(
        find_char(&few, given, notify, "read").unwrap(),
        find_char(&many, given, notify, "read").unwrap()
    );
}

#[test]
fn detection_fails_without_known_characteristic() {
    let chars = set(&[(BATTERY, NOTIFY | WRITE), (FFE1, WWR)]);
    let error = find_char(&chars, None, CharPropFlags::notify(), "read").unwrap_err();
    assert_eq!(error, Error::NoKnownCharacteristic { label: "read".to_string() });
    assert_eq!(
        error.message(),
        "No read characteristic found in known-UUID list. Specify one with --read-uuid \
         (run with -v to list discovered characteristics)"
    );
    assert_eq!(error.cause(), None);
}

#[test]
fn given_uuid_comes_before_known_ones() {
    let chars = set(&[(BATTERY, NOTIFY), (FFE1, NOTIFY)]);
    for text in [
        "00002a19-0000-1000-8000-00805f9b34fb",
        "00002A19-0000-1000-8000-00805F9B34FB",
        "00002a1900001000800000805f9b34fb",
        "{00002a19-0000-1000-8000-00805f9b34fb}",
        "urn:uuid:00002a19-0000-1000-8000-00805f9b34fb",
        "URN:uuid:00002a19-0000-1000-8000-00805f9b34fb",
    ] {
        let read = find_char(&chars, Some(text), CharPropFlags::notify(), "read").unwrap();
        assert_eq!(read.uuid, BATTERY);
    }
}

#[test]
fn given_uuid_without_property() {
    let chars = set(&[(BATTERY, NOTIFY), (FFE1, WWR | NOTIFY)]);
    let text = "00002a19-0000-1000-8000-00805f9b34fb";
    let wwr = CharPropFlags::write_without_response();
    let error = find_char(&chars, Some(text), wwr, "write").unwrap_err();
    assert_eq!(error, Error::MissingProperty { text: text.to_string(), required: wwr });
    assert_eq!(
        error.message(),
        "Characteristic 00002a19-0000-1000-8000-00805f9b34fb does not have \
         CharPropFlags(WRITE_WITHOUT_RESPONSE) property"
    );
    let absent = "0000ff02-0000-1000-8000-00805f9b34fb";
    assert!(find_char(&chars, Some(absent), CharPropFlags::notify(), "read").is_err());
    assert_ne!(FF02, FFE1);
}

#[test]
fn shown_properties() {
    for (bits, text) in [
        (0x00, "CharPropFlags(0x0)"),
        (0x10, "CharPropFlags(NOTIFY)"),
        (0x08, "CharPropFlags(WRITE)"),
        (0x14, "CharPropFlags(WRITE_WITHOUT_RESPONSE | NOTIFY)"),
        (
            0xff,
            "CharPropFlags(BROADCAST | READ | WRITE_WITHOUT_RESPONSE | WRITE | NOTIFY | INDICATE \
             | AUTHENTICATED_SIGNED_WRITES | EXTENDED_PROPERTIES)",
        ),
    ] {
        let error =
            Error::MissingProperty { text: "x".to_string(), required: CharPropFlags { bits } };
        assert_eq!(error.message(), format!("Characteristic x does not have {} property", text));
    }
}

#[test]
fn given_text_that_is_no_uuid() {
    let chars = set(&[(FFE1, WWR)]);
    for (text, cause) in [
        ("", "invalid length: found 0"),
        ("ffe1", "invalid length: found 4"),
        (
            "0000ffe1-0000-1000-8000-00805f9b34fg",
            "invalid character: found `g` at 35",
        ),
        ("{0000ffe100001000800000805f9b34fb}", "invalid group count: expected 5, found 1"),
        ("é", "invalid character: found `é` at 0"),
    ] {
        let wwr = CharPropFlags::write_without_response();
        let error = find_char(&chars, Some(text), wwr, "write").unwrap_err();
        assert_eq!(error.message(), format!("Invalid write UUID: {}", text));
        assert_eq!(error.cause(), Some(cause));
    }
}

#[test]
fn labels_of_known_characteristics() {
    assert_eq!(known_label(FFE1), "CH9143 / HM-10 / TI CC245x");
    assert_eq!(known_label(FF01), "LithiumBatteryPCB RX notify");
    assert_eq!(known_label(FF02), "LithiumBatteryPCB TX write");
    assert_eq!(known_label(0x0000fff1_0000_1000_8000_00805f9b34fb), "Feasycom RX notify");
    assert_eq!(known_label(0x0000fff2_0000_1000_8000_00805f9b34fb), "Feasycom TX write");
    assert_eq!(known_label(NORDIC_TX), "Nordic UART TX write");
    assert_eq!(known_label(NORDIC_RX), "Nordic UART RX notify");
    assert_eq!(known_label(BATTERY), "");
    assert_eq!(known_label(0), "");
    assert_eq!(KNOWN_UART_CHARS.len(), 7);
}

#[test]
fn listing_of_characteristics() {
    let chars = set(&[(FFE1, WWR | NOTIFY), (BATTERY, 0x02)]);
    assert!(listing(&chars, 0).is_empty());
    assert_eq!(
        listing(&chars, 1),
        vec![
            "  char 00002a19-0000-1000-8000-00805f9b34fb CharPropFlags(READ)  ".to_string(),
            "  char 0000ffe1-0000-1000-8000-00805f9b34fb \
             CharPropFlags(WRITE_WITHOUT_RESPONSE | NOTIFY)  CH9143 / HM-10 / TI CC245x"
                .to_string(),
        ]
    );
}

#[test]
fn set_is_ordered_and_without_duplicates() {
    let mut chars = CharacteristicSet::new();
    assert!(chars.insert(characteristic(FFE1, 7, NOTIFY)));
    assert!(chars.insert(characteristic(FFE1, 3, NOTIFY)));
    assert!(chars.insert(characteristic(2, 9, NOTIFY)));
    assert!(chars.insert(characteristic(FFE1, 3, WRITE)));
    assert!(!chars.insert(characteristic(FFE1, 7, NOTIFY)));
    let order: Vec<(u128, u128, u8)> = (0..chars.len())
        .map(|i| {
            let c = chars.get(i);
            (c.uuid, c.service_uuid, c.properties.bits)
        })
        .collect();
    assert_eq!(
        order,
        vec![(2, 9, NOTIFY), (FFE1, 3, WRITE), (FFE1, 3, NOTIFY), (FFE1, 7, NOTIFY)]
    );
}

#[test]
fn descriptors_count_in_the_order() {
    let d = |uuid| Descriptor { uuid, service_uuid: 1, characteristic_uuid: FFE1 };
    let mut with_one = characteristic(FFE1, 1, NOTIFY);
    with_one.descriptors = vec![d(5)];
    let mut with_two = characteristic(FFE1, 1, NOTIFY);
    with_two.descriptors = vec![d(4), d(6)];
    let without = characteristic(FFE1, 1, NOTIFY);
    let mut chars = CharacteristicSet::new();
    assert!(chars.insert(with_one.clone()));
    assert!(chars.insert(with_two.clone()));
    assert!(chars.insert(without.clone()));
    assert!(!chars.insert(with_one.clone()));
    assert_eq!(chars.len(), 3);
    assert_eq!(*chars.get(0), without);
    assert_eq!(*chars.get(1), with_two);
    assert_eq!(*chars.get(2), with_one);
    let read = find_char(&chars, None, CharPropFlags::notify(), "read").unwrap();
    assert_eq!(read, without);
}

#[test]
fn order_is_that_of_the_bluetooth_stack() {
    let shape = |uuid: u128, service: u128, bits: u8, descriptors: &[u128]| {
        btleplug::api::Characteristic {
            uuid: uuid::Uuid::from_u128(uuid),
            service_uuid: uuid::Uuid::from_u128(service),
            properties: btleplug::api::CharPropFlags::from_bits_retain(bits),
            descriptors: descriptors
                .iter()
                .map(|d| btleplug::api::Descriptor {
                    uuid: uuid::Uuid::from_u128(*d),
                    service_uuid: uuid::Uuid::from_u128(service),
                    characteristic_uuid: uuid::Uuid::from_u128(uuid),
                })
                .collect(),
        }
    };
    let mut theirs = std::collections::BTreeSet::new();
    let mut ours = CharacteristicSet::new();
    for uuid in [u128::MAX, 1, 1 << 127, 256] {
        for service in [2, 1 << 120] {
            for bits in [0x80, 0x01] {
                for descriptors in [vec![3], vec![], vec![1, 2], vec![1 << 127]] {
                    let c = shape(uuid, service, bits, &descriptors);
                    ours.insert(Characteristic {
                        uuid,
                        service_uuid: service,
                        properties: CharPropFlags { bits },
                        descriptors: c
                            .descriptors
                            .iter()
                            .map(|d| Descriptor {
                                uuid: d.uuid.as_u128(),
                                service_uuid: d.service_uuid.as_u128(),
                                characteristic_uuid: d.characteristic_uuid.as_u128(),
                            })
                            .collect(),
                    });
                    theirs.insert(c);
                }
            }
        }
    }
    assert_eq!(ours.len(), theirs.len());
    for (i, c) in theirs.iter().enumerate() {
        let o = ours.get(i);
        assert_eq!(o.uuid, c.uuid.as_u128());
        assert_eq!(o.service_uuid, c.service_uuid.as_u128());
        assert_eq!(o.properties.bits, c.properties.bits());
        assert_eq!(o.descriptors.len(), c.descriptors.len());
    }
}

#[test]
fn order_of_discovery_makes_no_difference() {
    let a = characteristic(FFE1, 9, WWR | NOTIFY);
    let b = characteristic(FFE1, 4, NOTIFY);
    let mut forwards = CharacteristicSet::new();
    forwards.insert(a.clone());
    forwards.insert(b.clone());
    let mut backwards = CharacteristicSet::new();
    backwards.insert(b.clone());
    backwards.insert(a.clone());
    for required in [CharPropFlags::notify(), CharPropFlags::write_without_response()] {
        let x = find_char(&forwards, None, required, "read").unwrap();
        let y = find_char(&backwards, None, required, "read").unwrap();
        assert_eq!(x, y);
    }
    assert_eq!(find_char(&forwards, None, CharPropFlags::notify(), "read").unwrap(), b);
}

#[test]
fn contains_asks_for_every_bit() {
    let both = CharPropFlags { bits: WWR | NOTIFY };
    assert!(both.contains(CharPropFlags::notify()));
    assert!(both.contains(both));
    assert!(both.contains(CharPropFlags { bits: 0 }));
    assert!(!both.contains(CharPropFlags::write()));
    assert!(!CharPropFlags::notify().contains(both));
}
