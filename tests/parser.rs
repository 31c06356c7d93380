use hddtemp::{DeviceTable, HDDTempData, HDDTempError, HDDTempParser, HDDTempResult, HDDTempUnits};
use std::collections::BTreeMap;

fn to_map(t: DeviceTable) -> BTreeMap<String, HDDTempData> {
    t.into_entries().into_iter().collect()
}

fn known(model: &str, temperature: u64) -> HDDTempData {
    HDDTempData {
        model: model.to_string(),
        result: HDDTempResult::Known,
        temperature: Some(temperature),
        units: Some(HDDTempUnits::Celsius),
    }
}

fn failed(model: &str, result: HDDTempResult) -> HDDTempData {
    HDDTempData { model: model.to_string(), result, temperature: None, units: None }
}

#[test]
fn parse_devices_test() {
    let s = "|/dev/sda|ABCDEFGHIJ|20|C||/dev/sdb|abcdefghij ABCDEFGHIJ|20|C|";
    let orig = BTreeMap::from([
        (
            "/dev/sda".to_string(),
            HDDTempData {
                model: "ABCDEFGHIJ".to_string(),
                result: HDDTempResult::Known,
                temperature: Some(20),
                units: Some(HDDTempUnits::Celsius),
            },
        ),
        (
            "/dev/sdb".to_string(),
            HDDTempData {
                model: "abcdefghij ABCDEFGHIJ".to_string(),
                result: HDDTempResult::Known,
                temperature: Some(20),
                units: Some(HDDTempUnits::Celsius),
            },
        ),
    ]);

    let devices = to_map(HDDTempParser::parse_devices(&s, None).unwrap());
    assert_eq!(orig, devices);
}

#[test]
fn parse_device_test() {
    let s = "/dev/sda|ABCDEFGHIJ|20|C";
    let orig = (
        "/dev/sda".to_string(),
        HDDTempData {
            model: "ABCDEFGHIJ".to_string(),
            result: HDDTempResult::Known,
            temperature: Some(20),
            units: Some(HDDTempUnits::Celsius),
        },
    );
    let r = HDDTempParser::parse_device(&s, None).unwrap();
    assert_eq!(orig, r);

    let s = "/dev/sdb|abcdefghij ABCDEFGHIJ|20|C";
    let orig = (
        "/dev/sdb".to_string(),
        HDDTempData {
            model: "abcdefghij ABCDEFGHIJ".to_string(),
            result: HDDTempResult::Known,
            temperature: Some(20),
            units: Some(HDDTempUnits::Celsius),
        },
    );
    let r = HDDTempParser::parse_device(&s, None).unwrap();
    assert_eq!(orig, r);

    let s = "device|model|NA|*";
    let orig = (
        "device".to_string(),
        HDDTempData {
            model: "model".to_string(),
            result: HDDTempResult::NotApplicable,
            temperature: None,
            units: None,
        },
    );
    let r = HDDTempParser::parse_device(&s, None).unwrap();
    assert_eq!(orig, r);

    let s = "device|model|UNK|*";
    let orig = (
        "device".to_string(),
        HDDTempData {
            model: "model".to_string(),
            result: HDDTempResult::Unknown,
            temperature: None,
            units: None,
        },
    );
    let r = HDDTempParser::parse_device(&s, None).unwrap();
    assert_eq!(orig, r);

    let s = "device|model|20|C";
    let orig = (
        "device".to_string(),
        HDDTempData {
            model: "model".to_string(),
            result: HDDTempResult::Known,
            temperature: Some(20),
            units: Some(HDDTempUnits::Celsius),
        },
    );
    let r = HDDTempParser::parse_device(&s, None).unwrap();
    assert_eq!(orig, r);

    let s = "device|model|NOS|*";
    let orig = (
        "device".to_string(),
        HDDTempData {
            model: "model".to_string(),
            result: HDDTempResult::NoSensor,
            temperature: None,
            units: None,
        },
    );
    let r = HDDTempParser::parse_device(&s, None).unwrap();
    assert_eq!(orig, r);

    let s = "device|model|SLP|*";
    let orig = (
        "device".to_string(),
        HDDTempData {
            model: "model".to_string(),
            result: HDDTempResult::DriveSleep,
            temperature: None,
            units: None,
        },
    );
    let r = HDDTempParser::parse_device(&s, None).unwrap();
    assert_eq!(orig, r);

    let s = "device|???|ERR|*";
    let orig = (
        "device".to_string(),
        HDDTempData {
            model: "???".to_string(),
            result: HDDTempResult::Error,
            temperature: None,
            units: None,
        },
    );
    let r = HDDTempParser::parse_device(&s, None).unwrap();
    assert_eq!(orig, r);
}

#[test]
fn single_device_response() {
    let t = HDDTempParser::parse_devices("|/dev/sda|ABCDEFGHIJ|20|C|", Some('|')).unwrap();
    assert_eq!(t.len(), 1);
    assert_eq!(t.get("/dev/sda"), Some(&known("ABCDEFGHIJ", 20)));
    assert_eq!(t.get("/dev/sdb"), None);
}

#[test]
fn unrecognized_kind_degrades_to_known() {
    let r = HDDTempParser::parse_device("device|model|ERRX|*", Some('|')).unwrap();
    assert_eq!(r, ("device".to_string(), failed("model", HDDTempResult::Known)));
}

#[test]
fn missing_start_delimiter() {
    let r = HDDTempParser::parse_devices("/dev/sda|ABCDEFGHIJ|20|C|", None);
    assert_eq!(r.err(), Some(HDDTempError::MissingStartDelimiter));
    let r = HDDTempParser::parse_devices("", None);
    assert_eq!(r.err(), Some(HDDTempError::MissingStartDelimiter));
}

#[test]
fn missing_end_delimiter() {
    let r = HDDTempParser::parse_devices("|/dev/sda|ABCDEFGHIJ|20|C", None);
    assert_eq!(r.err(), Some(HDDTempError::MissingEndDelimiter));
    let r = HDDTempParser::parse_devices("|", None);
    assert_eq!(r.err(), Some(HDDTempError::MissingEndDelimiter));
}

#[test]
fn parsing_twice_gives_equal_tables() {
    let s = "|/dev/sda|ABCDEFGHIJ|20|C||/dev/sdb|Z|NA|*|";
    let a = to_map(HDDTempParser::parse_devices(s, None).unwrap());
    let b = to_map(HDDTempParser::parse_devices(s, None).unwrap());
    assert_eq!(a, b);
    assert_eq!(a.len(), 2);
}

#[test]
fn later_line_for_a_device_wins() {
    let s = "|/dev/sda|OLD|20|C||/dev/sdb|B|30|C||/dev/sda|NEW|41|F|";
    let t = HDDTempParser::parse_devices(s, None).unwrap();
    assert_eq!(t.len(), 2);
    let expected = HDDTempData {
        model: "NEW".to_string(),
        result: HDDTempResult::Known,
        temperature: Some(41),
        units: Some(HDDTempUnits::Fahrenheit),
    };
    assert_eq!(t.get("/dev/sda"), Some(&expected));
    assert_eq!(t.get("/dev/sdb"), Some(&known("B", 30)));
    let entries = t.into_entries();
    assert_eq!(entries[0].0, "/dev/sda");
    assert_eq!(entries[1].0, "/dev/sdb");
}

#[test]
fn custom_separator() {
    let t = HDDTempParser::parse_devices(":/dev/sda:M:35:C::/dev/sdb:N:SLP:*:", Some(':')).unwrap();
    assert_eq!(t.get("/dev/sda"), Some(&known("M", 35)));
    assert_eq!(t.get("/dev/sdb"), Some(&failed("N", HDDTempResult::DriveSleep)));
}

#[test]
fn tripled_separator_leaves_one_in_next_segment() {
    let t = HDDTempParser::parse_devices("|a|M|1|C|||b|N|2|C|", None).unwrap();
    assert_eq!(t.len(), 2);
    assert_eq!(t.get("a"), Some(&known("M", 1)));
    let r = t.get("").unwrap();
    assert_eq!(r.model, "b");
    assert_eq!(r.temperature, None);
    assert_eq!(r.units, None);
}

#[test]
fn empty_body_gives_one_empty_device() {
    let t = HDDTempParser::parse_devices("||", None).unwrap();
    assert_eq!(t.len(), 1);
    let r = t.get("").unwrap();
    assert_eq!(r.model, "");
    assert_eq!(r.result, HDDTempResult::Known);
    assert_eq!(r.temperature, None);
    assert_eq!(r.units, None);
}

#[test]
fn missing_columns_are_empty() {
    let r = HDDTempParser::parse_device("dev", None).unwrap();
    assert_eq!(r.0, "dev");
    assert_eq!(r.1, HDDTempData { model: String::new(), result: HDDTempResult::Known, temperature: None, units: None });
    let r = HDDTempParser::parse_device("dev|m|25", None).unwrap();
    assert_eq!(r.1.temperature, Some(25));
    assert_eq!(r.1.units, None);
}

#[test]
fn unreadable_columns_are_absent() {
    let r = HDDTempParser::parse_device("dev|m|hot|K", None).unwrap();
    assert_eq!(r.1, failed("m", HDDTempResult::Known));
    let r = HDDTempParser::parse_device("dev|m|+7|Fahrenheit", None).unwrap();
    assert_eq!(r.1.temperature, Some(7));
    assert_eq!(r.1.units, Some(HDDTempUnits::Fahrenheit));
    let r = HDDTempParser::parse_device("dev|m|-7|C", None).unwrap();
    assert_eq!(r.1.temperature, None);
    let r = HDDTempParser::parse_device("dev|m|18446744073709551615|C", None).unwrap();
    assert_eq!(r.1.temperature, Some(u64::MAX));
    let r = HDDTempParser::parse_device("dev|m|18446744073709551616|C", None).unwrap();
    assert_eq!(r.1.temperature, None);
    let r = HDDTempParser::parse_device("dev|m|+|C", None).unwrap();
    assert_eq!(r.1.temperature, None);
}
