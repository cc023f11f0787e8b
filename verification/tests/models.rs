use tunelith::models::{
    driver, firmware_missing, model, port_path, scan, Kind, Layout, UsbInfo, VENDOR_ID,
};
use tunelith::registry::merge;
use tunelith::single;
use tunelith::text::{
    goes_before, id_of_tuner, parse_number, parse_u16, push_decimal, split, strip_prefix,
    strip_prefixes, strip_suffix, trim, NumberError,
};
use tunelith::types::{DeviceInfo, System};

fn usb(product_id: u16, serial: Option<&str>, place: usize) -> UsbInfo {
    UsbInfo {
        vendor_id: VENDOR_ID,
        product_id,
        serial: serial.map(str::to_string),
        port_path: format!("1-{place}"),
        usb_version: 0x0200,
        place,
    }
}

#[test]
fn models_are_known_by_product() {
    let w3 = model(0x083f).unwrap();
    assert_eq!((w3.name, w3.kind), ("PLEX PX-W3U4", Kind::Px4(false)));
    assert_eq!(model(0x924e).unwrap().kind, Kind::PxMlt(Layout::Mlt5Pe));
    assert!(model(0x1234).is_none());
    let four = Kind::Px4(false).systems(1);
    assert_eq!(four[1], [System::IsdbS]);
    assert_eq!(four[2], [System::IsdbT]);
    assert_eq!(Kind::Px4(true).systems(2).len(), 8);
    assert_eq!(Kind::PxMlt(Layout::Mlt8Pe3).systems(1).len(), 3);
    assert_eq!(
        Kind::Single(single::Model::S1ur).systems(1),
        [[System::IsdbT]]
    );
    assert_eq!(
        Kind::Single(single::Model::M1ur).systems(1),
        [[System::IsdbT, System::IsdbS]]
    );
    assert_eq!(Layout::Isdb6014.chips().len(), 4);
    let _ = driver();
}

#[test]
fn boards_of_a_q_model_are_one_device() {
    let mut other = usb(0x083f, Some("9"), 3);
    other.vendor_id = 1;
    let usbs = vec![
        usb(0x084a, Some("000000000000012"), 0),
        usb(0x083f, None, 1),
        usb(0x084a, Some("000000000000011"), 2),
        other,
    ];
    assert!(usbs.iter().all(UsbInfo::serial_splits));
    let found = scan(usbs);
    assert_eq!(found.len(), 2);
    assert_eq!(found[0].info.id, "px4:00000000000001");
    assert_eq!(found[0].info.name, "PLEX PX-Q3U4");
    let places: Vec<usize> = found[0].usbs.iter().map(|u| u.place).collect();
    assert_eq!(places, [2, 0]);
    assert_eq!(found[1].info.id, "px4:1-1");
}

#[test]
fn serial_numbers_that_do_not_split() {
    let odd = usb(0x084a, Some("000000000000\u{3042}"), 0);
    assert!(!odd.serial_splits());
    assert!(usb(0x084a, Some("short"), 0).serial_splits());
}

#[test]
fn places_and_firmware() {
    assert_eq!(port_path("1", &[4, 12]), "1-4.12");
    assert_eq!(port_path("usb2", &[]), "usb2-");
    assert_eq!(
        firmware_missing(&vec!["/lib/firmware".into(), "/etc/fw".into()]).message(),
        "it930x-firmware.bin not found in /lib/firmware, /etc/fw"
    );
}

fn info(id: &str) -> DeviceInfo {
    DeviceInfo {
        id: id.into(),
        name: format!("name of {id}"),
    }
}

#[test]
fn first_driver_to_report_a_device_has_it() {
    let found = merge(vec![
        vec![info("a"), info("b")],
        vec![info("b"), info("c"), info("c")],
        vec![],
    ]);
    let ids: Vec<(usize, &str)> = found
        .iter()
        .map(|f| (f.driver, f.info.id.as_str()))
        .collect();
    assert_eq!(ids, [(0, "a"), (0, "b"), (1, "c")]);
}

#[test]
fn numbers_and_texts() {
    let mut text = String::from("x");
    push_decimal(&mut text, 0);
    push_decimal(&mut text, u64::MAX);
    assert_eq!(text, "x018446744073709551615");
    assert_eq!(id_of_tuner("mock:0", 10), "mock:0#10");
    assert_ne!(id_of_tuner("a#1", 2), id_of_tuner("a", 12));
    assert_eq!(parse_number("ff", 16, 255), Ok(255));
    assert_eq!(parse_number("FF", 16, 254), Err(NumberError::TooLarge));
    assert_eq!(parse_number("", 10, 9), Err(NumberError::Empty));
    assert_eq!(parse_number("1_0", 10, 99), Err(NumberError::InvalidDigit));
    assert_eq!(trim(" \t a b\n"), "a b");
    assert_eq!(strip_prefix("adapter1", "adapter"), Some("1"));
    assert_eq!(strip_prefix("adapt", "adapter"), None);
    assert_eq!(strip_suffix("x.sock", ".sock"), Some("x"));
    assert_eq!(strip_suffix("x", ".sock"), None);
    assert_eq!(strip_prefixes("0x0x1", "0x"), "1");
    assert_eq!(split("a::b:", ':'), ["a", "", "b", ""]);
    assert!(goes_before("a", "ab") && goes_before("ab", "b") && !goes_before("b", "b"));
}

#[test]
fn stream_ids_are_decimal_or_hexadecimal() {
    assert_eq!(parse_u16("16400"), Ok(0x4010));
    assert_eq!(parse_u16("0x4010"), Ok(0x4010));
    assert_eq!(parse_u16("65536"), Err(NumberError::TooLarge));
    assert_eq!(parse_u16("0xg"), Err(NumberError::InvalidDigit));
    assert_eq!(parse_u16(""), Err(NumberError::Empty));
    assert_eq!(
        NumberError::InvalidDigit.message(),
        "invalid digit found in string"
    );
}
