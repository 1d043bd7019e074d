use batgauge::battery::read_battery_infos;
use batgauge::battery::read_device;
use batgauge::battery::AttrReading;
use batgauge::battery::BatteryStatus;
use batgauge::battery::DeviceReading;
use batgauge::battery::Error;

fn attr(path: &str, content: &str) -> AttrReading {
    AttrReading { path: String::from(path), content: Ok(String::from(content)) }
}

fn attr_io_error(path: &str, cause: &str) -> AttrReading {
    AttrReading { path: String::from(path), content: Err(String::from(cause)) }
}

fn battery(name: &str, status: &str, power: &str, now: &str, full: &str) -> DeviceReading {
    let base = format!("/sys/class/power_supply/{}", name);
    DeviceReading {
        name: Ok(String::from(name)),
        type_attr: attr(&format!("{}/type", base), "Battery\n"),
        status_attr: attr(&format!("{}/status", base), status),
        power_now_attr: attr(&format!("{}/power_now", base), power),
        energy_now_attr: attr(&format!("{}/energy_now", base), now),
        energy_full_attr: attr(&format!("{}/energy_full", base), full),
    }
}

fn mouse(name: &str) -> DeviceReading {
    let base = format!("/sys/class/power_supply/{}", name);
    DeviceReading {
        name: Ok(String::from(name)),
        type_attr: attr(&format!("{}/type", base), "Mouse\n"),
        status_attr: attr(&format!("{}/status", base), "Weird\n"),
        power_now_attr: attr(&format!("{}/power_now", base), "nonsense\n"),
        energy_now_attr: attr(&format!("{}/energy_now", base), "nonsense\n"),
        energy_full_attr: attr(&format!("{}/energy_full", base), "nonsense\n"),
    }
}

#[test]
fn well_formed_battery_parses() {
    let d = battery("BAT0", "Charging\n", "10\n", "50\n", "100\n");
    let info = read_device(&d).unwrap().unwrap();
    assert_eq!(info.name, "BAT0");
    assert!(matches!(info.status, BatteryStatus::Charging));
    assert_eq!(info.power_now, 10);
    assert_eq!(info.energy_now, 50);
    assert_eq!(info.energy_full, 100);
}

#[test]
fn non_battery_device_is_filtered_not_an_error() {
    // A device whose `type` is "Mouse" is excluded entirely, even though
    // its other attribute files would not parse.
    let r = read_device(&mouse("hidpp_battery_0"));
    assert!(matches!(r, Ok(None)));

    let polled = read_battery_infos(vec![
        mouse("hidpp_battery_0"),
        battery("BAT0", "Full\n", "0\n", "100\n", "100\n"),
    ])
    .unwrap();
    assert_eq!(polled.len(), 1);
    assert_eq!(polled[0].name, "BAT0");
}

#[test]
fn unrecognized_status_fails_the_whole_poll() {
    // One malformed battery aborts the poll even when another device is
    // well-formed (fail-fast, no partial results).
    let r = read_battery_infos(vec![
        battery("BAT0", "Full\n", "0\n", "100\n", "100\n"),
        battery("BAT1", "Weird\n", "10\n", "50\n", "100\n"),
    ]);
    match r {
        Err(Error::ParseFromFileFailed(path, raw)) => {
            assert_eq!(path, "/sys/class/power_supply/BAT1/status");
            assert_eq!(raw, "Weird");
        }
        other => panic!("expected a parse failure, got {:?}", other.is_ok()),
    }
}

#[test]
fn io_failure_fails_the_whole_poll() {
    let mut d = battery("BAT0", "Discharging\n", "10\n", "30\n", "100\n");
    d.energy_now_attr = attr_io_error("/sys/class/power_supply/BAT0/energy_now", "permission denied");
    let r = read_battery_infos(vec![d]);
    match r {
        Err(Error::IOError(path, cause)) => {
            assert_eq!(path, "/sys/class/power_supply/BAT0/energy_now");
            assert_eq!(cause, "permission denied");
        }
        other => panic!("expected an I/O failure, got {:?}", other.is_ok()),
    }
}

#[test]
fn unreadable_type_attribute_is_an_error() {
    let mut d = mouse("odd");
    d.type_attr = attr_io_error("/sys/class/power_supply/odd/type", "no such file");
    let r = read_device(&d);
    assert!(matches!(r, Err(Error::IOError(_, _))));
}

#[test]
fn invalid_name_on_a_battery_is_an_error() {
    let mut d = battery("BAT0", "Full\n", "0\n", "100\n", "100\n");
    d.name = Err(String::from("BAT\u{fffd}"));
    let r = read_device(&d);
    assert!(matches!(r, Err(Error::InvalidBatteryName(_))));
}

#[test]
fn invalid_name_on_a_non_battery_is_filtered_first() {
    let mut d = mouse("odd");
    d.name = Err(String::from("odd\u{fffd}"));
    assert!(matches!(read_device(&d), Ok(None)));
}

#[test]
fn status_error_precedes_integer_errors() {
    let d = battery("BAT0", "Weird\n", "nonsense\n", "nonsense\n", "nonsense\n");
    match read_device(&d) {
        Err(Error::ParseFromFileFailed(path, _)) => {
            assert_eq!(path, "/sys/class/power_supply/BAT0/status");
        }
        _ => panic!("expected the status parse failure first"),
    }
}

#[test]
fn integer_attributes_trim_and_accept_a_leading_plus() {
    let d = battery("BAT0", "Charging\n", "+10\n", "50", "100\r\n");
    let info = read_device(&d).unwrap().unwrap();
    assert_eq!(info.power_now, 10);
    assert_eq!(info.energy_now, 50);
    assert_eq!(info.energy_full, 100);
}

#[test]
fn oversized_integer_attribute_fails_to_parse() {
    let d = battery("BAT0", "Charging\n", "10\n", "99999999999999999999999\n", "100\n");
    match read_device(&d) {
        Err(Error::ParseFromFileFailed(path, raw)) => {
            assert_eq!(path, "/sys/class/power_supply/BAT0/energy_now");
            assert_eq!(raw, "99999999999999999999999");
        }
        _ => panic!("expected a parse failure on the oversized value"),
    }
}

#[test]
fn negative_integer_attribute_fails_to_parse() {
    let d = battery("BAT0", "Charging\n", "-10\n", "50\n", "100\n");
    assert!(matches!(read_device(&d), Err(Error::ParseFromFileFailed(_, _))));
}

#[test]
fn poll_keeps_enumeration_order() {
    let polled = read_battery_infos(vec![
        battery("BAT1", "Full\n", "0\n", "90\n", "90\n"),
        mouse("hidpp_battery_0"),
        battery("BAT0", "Discharging\n", "10\n", "30\n", "100\n"),
    ])
    .unwrap();
    assert_eq!(polled.len(), 2);
    assert_eq!(polled[0].name, "BAT1");
    assert_eq!(polled[1].name, "BAT0");
}

#[test]
fn empty_enumeration_polls_no_records() {
    let polled = read_battery_infos(Vec::new()).unwrap();
    assert!(polled.is_empty());
}

#[test]
fn first_error_wins_across_devices() {
    let r = read_battery_infos(vec![
        battery("BAT0", "Weird\n", "10\n", "50\n", "100\n"),
        battery("BAT1", "Odd\n", "10\n", "50\n", "100\n"),
    ]);
    match r {
        Err(Error::ParseFromFileFailed(path, _)) => {
            assert_eq!(path, "/sys/class/power_supply/BAT0/status");
        }
        _ => panic!("expected the first device's failure"),
    }
}
