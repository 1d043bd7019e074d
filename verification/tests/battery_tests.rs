use batgauge::battery::BatteryInfo;
use batgauge::battery::BatteryStatus;
use batgauge::battery::Error;
use batgauge::ratio::Ratio;

fn info(status: BatteryStatus, power_now: u64, energy_now: u64, energy_full: u64) -> BatteryInfo {
    BatteryInfo { name: String::from("BAT0"), status, power_now, energy_now, energy_full }
}

fn hours(r: Result<Option<Ratio>, Error>) -> f64 {
    let h = r.unwrap().unwrap();
    h.num as f64 / h.den as f64
}

#[test]
fn no_estimate_at_zero_rate_regardless_of_status() {
    let statuses = vec![
        BatteryStatus::Unknown,
        BatteryStatus::Charging,
        BatteryStatus::Discharging,
        BatteryStatus::NotCharging,
        BatteryStatus::Full,
    ];
    for status in statuses {
        let r = info(status, 0, 30, 100).hours_to_status_change();
        assert!(matches!(r, Ok(None)));
    }
}

#[test]
fn charging_estimates_time_to_full() {
    let r = info(BatteryStatus::Charging, 10, 50, 100).hours_to_status_change();
    assert_eq!(hours(r), 5.0);
}

#[test]
fn discharging_estimates_time_to_empty() {
    let r = info(BatteryStatus::Discharging, 10, 30, 100).hours_to_status_change();
    assert_eq!(hours(r), 3.0);
}

#[test]
fn unknown_status_cannot_estimate() {
    let r = info(BatteryStatus::Unknown, 5, 30, 100).hours_to_status_change();
    assert!(matches!(
        r,
        Err(Error::InvalidStatusForTimeEstimation(BatteryStatus::Unknown))
    ));
}

#[test]
fn not_charging_status_cannot_estimate() {
    let r = info(BatteryStatus::NotCharging, 5, 30, 100).hours_to_status_change();
    assert!(matches!(
        r,
        Err(Error::InvalidStatusForTimeEstimation(BatteryStatus::NotCharging))
    ));
}

#[test]
fn full_status_needs_no_estimate() {
    let r = info(BatteryStatus::Full, 7, 100, 100).hours_to_status_change();
    assert!(matches!(r, Ok(None)));
}

#[test]
fn charging_above_full_yields_negative_hours() {
    let r = info(BatteryStatus::Charging, 10, 120, 100).hours_to_status_change();
    assert_eq!(hours(r), -2.0);
}

#[test]
fn capacity_is_the_exact_quotient() {
    let c = info(BatteryStatus::Discharging, 10, 25, 100).capacity();
    assert_eq!(c.num, 25);
    assert_eq!(c.den, 100);
    assert_eq!(c.num as f64 / c.den as f64, 0.25);
}

#[test]
fn capacity_with_zero_full_energy_has_zero_denominator() {
    let c = info(BatteryStatus::Unknown, 0, 25, 0).capacity();
    assert_eq!(c.num, 25);
    assert_eq!(c.den, 0);
    assert!((c.num as f64 / c.den as f64).is_infinite());
}

#[test]
fn status_tokens_parse_exactly() {
    assert!(matches!(BatteryStatus::from_str("Unknown"), Ok(BatteryStatus::Unknown)));
    assert!(matches!(BatteryStatus::from_str("Charging"), Ok(BatteryStatus::Charging)));
    assert!(matches!(BatteryStatus::from_str("Discharging"), Ok(BatteryStatus::Discharging)));
    assert!(matches!(BatteryStatus::from_str("Not charging"), Ok(BatteryStatus::NotCharging)));
    assert!(matches!(BatteryStatus::from_str("Full"), Ok(BatteryStatus::Full)));
}

#[test]
fn unrecognized_status_tokens_fail() {
    assert!(BatteryStatus::from_str("Weird").is_err());
    assert!(BatteryStatus::from_str("charging").is_err());
    assert!(BatteryStatus::from_str("Full ").is_err());
    assert!(BatteryStatus::from_str("NotCharging").is_err());
    assert!(BatteryStatus::from_str("").is_err());
}

#[test]
fn error_messages() {
    assert_eq!(
        Error::InvalidBatteryName(String::from("BAT?")).message(),
        "invalid battery name: BAT?"
    );
    assert_eq!(
        Error::ParseFromFileFailed(String::from("/p/status"), String::from("Weird")).message(),
        "at /p/status: invalid value: Weird"
    );
    assert_eq!(
        Error::IOError(String::from("/p/type"), String::from("permission denied")).message(),
        "at /p/type: permission denied"
    );
    assert_eq!(
        Error::InvalidStatusForTimeEstimation(BatteryStatus::NotCharging).message(),
        "cannot estimate time with status NotCharging"
    );
}
