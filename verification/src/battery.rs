//! Battery telemetry: typed records parsed from raw attribute-file text,
//! and the derived capacity and time-to-status-change estimates.
//!
//! A poll hands this module, for every candidate device directory, the
//! raw text of its attribute files (`type`, `status`, `power_now`,
//! `energy_now`, `energy_full`). Devices whose `type` is not exactly
//! `Battery` are filtered out; any read or parse failure aborts the whole
//! poll with the first error, so a tick either reports every battery or
//! none (fail-fast).

use vstd::prelude::*;
use vstd::string::StrSliceExecFns;
use vstd::string::StringExecFns;

use crate::ratio::Ratio;
use crate::text::spec_parse_u64;
use crate::text::spec_trim_end;
use crate::text::parse_u64;
use crate::text::str_eq;
use crate::text::trim_end;

verus! {

/// The closed set of battery states the OS reports.
#[derive(Clone, Copy, Debug, PartialEq, Eq, Structural)]
pub enum BatteryStatus {
    Unknown,
    Charging,
    Discharging,
    NotCharging,
    Full,
}

/// The status a token names, if any: an exact match on the five reported
/// tokens (note `Not charging` is spelled with a space).
pub open spec fn spec_status_of_token(s: Seq<char>) -> Option<BatteryStatus> {
    if s == "Unknown"@ {
        Some(BatteryStatus::Unknown)
    } else if s == "Charging"@ {
        Some(BatteryStatus::Charging)
    } else if s == "Discharging"@ {
        Some(BatteryStatus::Discharging)
    } else if s == "Not charging"@ {
        Some(BatteryStatus::NotCharging)
    } else if s == "Full"@ {
        Some(BatteryStatus::Full)
    } else {
        None
    }
}

/// The name of a status, as diagnostics spell it.
pub open spec fn spec_status_name(s: BatteryStatus) -> Seq<char> {
    match s {
        BatteryStatus::Unknown => "Unknown"@,
        BatteryStatus::Charging => "Charging"@,
        BatteryStatus::Discharging => "Discharging"@,
        BatteryStatus::NotCharging => "NotCharging"@,
        BatteryStatus::Full => "Full"@,
    }
}

impl BatteryStatus {
    /// Parse the exact textual token for a status.
    pub fn from_str(s: &str) -> (r: Result<BatteryStatus, ()>)
        ensures
            match r {
                Ok(st) => spec_status_of_token(s@) == Some(st),
                Err(_) => spec_status_of_token(s@) is None,
            },
    {
        if str_eq(s, "Unknown") {
            Ok(BatteryStatus::Unknown)
        } else if str_eq(s, "Charging") {
            Ok(BatteryStatus::Charging)
        } else if str_eq(s, "Discharging") {
            Ok(BatteryStatus::Discharging)
        } else if str_eq(s, "Not charging") {
            Ok(BatteryStatus::NotCharging)
        } else if str_eq(s, "Full") {
            Ok(BatteryStatus::Full)
        } else {
            Err(())
        }
    }

    /// The status's name, as diagnostics spell it.
    pub fn name(&self) -> (r: &'static str)
        ensures
            r@ == spec_status_name(*self),
    {
        match self {
            BatteryStatus::Unknown => "Unknown",
            BatteryStatus::Charging => "Charging",
            BatteryStatus::Discharging => "Discharging",
            BatteryStatus::NotCharging => "NotCharging",
            BatteryStatus::Full => "Full",
        }
    }
}

/// One battery's state at a single poll.
#[derive(Debug)]
pub struct BatteryInfo {
    pub name: String,
    pub status: BatteryStatus,
    pub power_now: u64,
    pub energy_now: u64,
    pub energy_full: u64,
}

/// Spec-level image of a [`BatteryInfo`].
pub struct BatteryInfoV {
    pub name: Seq<char>,
    pub status: BatteryStatus,
    pub power_now: u64,
    pub energy_now: u64,
    pub energy_full: u64,
}

impl View for BatteryInfo {
    type V = BatteryInfoV;

    open spec fn view(&self) -> BatteryInfoV {
        BatteryInfoV {
            name: self.name@,
            status: self.status,
            power_now: self.power_now,
            energy_now: self.energy_now,
            energy_full: self.energy_full,
        }
    }
}

impl DeepView for BatteryInfo {
    type V = BatteryInfoV;

    open spec fn deep_view(&self) -> BatteryInfoV {
        self.view()
    }
}

/// Why a poll, or an estimate on one record, failed.
#[derive(Debug)]
pub enum Error {
    /// A device directory's name is not valid text; carries a lossy
    /// rendering of it.
    InvalidBatteryName(String),
    /// An attribute file's trimmed content is not in the expected format;
    /// carries the path and the offending value.
    ParseFromFileFailed(String, String),
    /// Reading an attribute file failed; carries the path and the cause.
    IOError(String, String),
    /// A time estimate was asked of a status that supports none.
    InvalidStatusForTimeEstimation(BatteryStatus),
}

/// Spec-level image of an [`Error`].
pub enum ErrorV {
    InvalidBatteryName(Seq<char>),
    ParseFromFileFailed(Seq<char>, Seq<char>),
    IOError(Seq<char>, Seq<char>),
    InvalidStatusForTimeEstimation(BatteryStatus),
}

impl View for Error {
    type V = ErrorV;

    open spec fn view(&self) -> ErrorV {
        match self {
            Error::InvalidBatteryName(n) => ErrorV::InvalidBatteryName(n@),
            Error::ParseFromFileFailed(p, v) => ErrorV::ParseFromFileFailed(p@, v@),
            Error::IOError(p, c) => ErrorV::IOError(p@, c@),
            Error::InvalidStatusForTimeEstimation(s) => ErrorV::InvalidStatusForTimeEstimation(*s),
        }
    }
}

/// The human-readable description of an error.
pub open spec fn spec_error_message(e: ErrorV) -> Seq<char> {
    match e {
        ErrorV::InvalidBatteryName(n) => "invalid battery name: "@ + n,
        ErrorV::ParseFromFileFailed(p, v) => "at "@ + p + ": invalid value: "@ + v,
        ErrorV::IOError(p, c) => "at "@ + p + ": "@ + c,
        ErrorV::InvalidStatusForTimeEstimation(s) => "cannot estimate time with status "@
            + spec_status_name(s),
    }
}

impl Error {
    /// A human-readable description of the error.
    pub fn message(&self) -> (m: String)
        ensures
            m@ == spec_error_message(self@),
    {
        match self {
            Error::InvalidBatteryName(n) => {
                let mut m = String::from_str("invalid battery name: ");
                m.append(n.as_str());
                m
            },
            Error::ParseFromFileFailed(p, v) => {
                let mut m = String::from_str("at ");
                m.append(p.as_str());
                m.append(": invalid value: ");
                m.append(v.as_str());
                m
            },
            Error::IOError(p, c) => {
                let mut m = String::from_str("at ");
                m.append(p.as_str());
                m.append(": ");
                m.append(c.as_str());
                m
            },
            Error::InvalidStatusForTimeEstimation(s) => {
                let mut m = String::from_str("cannot estimate time with status ");
                m.append(s.name());
                m
            },
        }
    }
}

impl BatteryInfo {
    /// Stored energy as a fraction of full energy, exact and undivided:
    /// `energy_now / energy_full`. With `energy_full == 0` the result has
    /// a zero denominator, standing for the out-of-range magnitude that
    /// dividing would have produced.
    pub fn capacity(&self) -> (c: Ratio)
        ensures
            c.num == self.energy_now as i128,
            c.den == self.energy_full,
    {
        Ratio { num: self.energy_now as i128, den: self.energy_full }
    }

    /// Hours until the status changes: time to full when charging
    /// (negative if the reading already exceeds full; not clamped), time
    /// to empty when discharging, no estimate at zero rate or when
    /// already full, and an error for the statuses that support no
    /// projection.
    pub fn hours_to_status_change(&self) -> (r: Result<Option<Ratio>, Error>)
        ensures
            self.power_now == 0 ==> r == Ok::<Option<Ratio>, Error>(None),
            match r {
                Ok(opt) => match opt {
                    None => self.power_now == 0 || self.status is Full,
                    Some(h) => self.power_now != 0 && h.den == self.power_now && (
                    self.status is Charging || self.status is Discharging) && (self.status
                        is Charging ==> h.num == self.energy_full - self.energy_now) && (
                    self.status is Discharging ==> h.num == self.energy_now as i128),
                },
                Err(e) => self.power_now != 0 && (self.status is Unknown || self.status
                    is NotCharging) && e@ == ErrorV::InvalidStatusForTimeEstimation(self.status),
            },
    {
        if self.power_now == 0 {
            Ok(None)
        } else {
            match self.status {
                BatteryStatus::Charging => Ok(
                    Some(
                        Ratio {
                            num: self.energy_full as i128 - self.energy_now as i128,
                            den: self.power_now,
                        },
                    ),
                ),
                BatteryStatus::Discharging => Ok(
                    Some(Ratio { num: self.energy_now as i128, den: self.power_now }),
                ),
                BatteryStatus::Full => Ok(None),
                _ => Err(Error::InvalidStatusForTimeEstimation(self.status)),
            }
        }
    }
}

/// One attribute file of a device: the path it was read from (kept for
/// diagnostics) and its content — or, in `Err`, the description of the
/// I/O failure that reading it produced.
pub struct AttrReading {
    pub path: String,
    pub content: Result<String, String>,
}

/// Spec-level image of an [`AttrReading`].
pub struct AttrReadingV {
    pub path: Seq<char>,
    pub content: Result<Seq<char>, Seq<char>>,
}

impl View for AttrReading {
    type V = AttrReadingV;

    open spec fn view(&self) -> AttrReadingV {
        AttrReadingV {
            path: self.path@,
            content: match &self.content {
                Ok(s) => Ok(s@),
                Err(e) => Err(e@),
            },
        }
    }
}

impl DeepView for AttrReading {
    type V = AttrReadingV;

    open spec fn deep_view(&self) -> AttrReadingV {
        self.view()
    }
}

/// Everything read for one candidate device directory: its name (or, in
/// `Err`, a lossy rendering of a name that is not valid text) and its
/// five attribute files.
pub struct DeviceReading {
    pub name: Result<String, String>,
    pub type_attr: AttrReading,
    pub status_attr: AttrReading,
    pub power_now_attr: AttrReading,
    pub energy_now_attr: AttrReading,
    pub energy_full_attr: AttrReading,
}

/// Spec-level image of a [`DeviceReading`].
pub struct DeviceReadingV {
    pub name: Result<Seq<char>, Seq<char>>,
    pub type_attr: AttrReadingV,
    pub status_attr: AttrReadingV,
    pub power_now_attr: AttrReadingV,
    pub energy_now_attr: AttrReadingV,
    pub energy_full_attr: AttrReadingV,
}

impl View for DeviceReading {
    type V = DeviceReadingV;

    open spec fn view(&self) -> DeviceReadingV {
        DeviceReadingV {
            name: match &self.name {
                Ok(s) => Ok(s@),
                Err(e) => Err(e@),
            },
            type_attr: self.type_attr@,
            status_attr: self.status_attr@,
            power_now_attr: self.power_now_attr@,
            energy_now_attr: self.energy_now_attr@,
            energy_full_attr: self.energy_full_attr@,
        }
    }
}

impl DeepView for DeviceReading {
    type V = DeviceReadingV;

    open spec fn deep_view(&self) -> DeviceReadingV {
        self.view()
    }
}

/// The outcome of one integer attribute: its trimmed content parsed as a
/// `u64`, an I/O error, or a parse error carrying the offending value;
/// either error is charged to the attribute's path.
pub open spec fn spec_parse_u64_attr(a: AttrReadingV) -> Result<u64, ErrorV> {
    match a.content {
        Err(cause) => Err(ErrorV::IOError(a.path, cause)),
        Ok(text) => match spec_parse_u64(spec_trim_end(text)) {
            Some(v) => Ok(v),
            None => Err(ErrorV::ParseFromFileFailed(a.path, spec_trim_end(text))),
        },
    }
}

/// The outcome of the `status` attribute: its trimmed content matched
/// against the status tokens, with errors as for the integers.
pub open spec fn spec_parse_status_attr(a: AttrReadingV) -> Result<BatteryStatus, ErrorV> {
    match a.content {
        Err(cause) => Err(ErrorV::IOError(a.path, cause)),
        Ok(text) => match spec_status_of_token(spec_trim_end(text)) {
            Some(st) => Ok(st),
            None => Err(ErrorV::ParseFromFileFailed(a.path, spec_trim_end(text))),
        },
    }
}

/// What one device contributes to a poll: nothing for a device whose
/// `type` is not exactly `Battery` (not an error, just a filter), a full
/// record for a battery, or the first failure among its readings —
/// checked in the order `type`, name, `status`, `power_now`,
/// `energy_now`, `energy_full`.
pub open spec fn spec_read_device(d: DeviceReadingV) -> Result<Option<BatteryInfoV>, ErrorV> {
    match d.type_attr.content {
        Err(cause) => Err(ErrorV::IOError(d.type_attr.path, cause)),
        Ok(text) => if spec_trim_end(text) != "Battery"@ {
            Ok(None)
        } else {
            match d.name {
                Err(raw) => Err(ErrorV::InvalidBatteryName(raw)),
                Ok(name) => match spec_parse_status_attr(d.status_attr) {
                    Err(e) => Err(e),
                    Ok(status) => match spec_parse_u64_attr(d.power_now_attr) {
                        Err(e) => Err(e),
                        Ok(power_now) => match spec_parse_u64_attr(d.energy_now_attr) {
                            Err(e) => Err(e),
                            Ok(energy_now) => match spec_parse_u64_attr(d.energy_full_attr) {
                                Err(e) => Err(e),
                                Ok(energy_full) => Ok(
                                    Some(
                                        BatteryInfoV {
                                            name,
                                            status,
                                            power_now,
                                            energy_now,
                                            energy_full,
                                        },
                                    ),
                                ),
                            },
                        },
                    },
                },
            }
        },
    }
}

/// Read one integer attribute as [`spec_parse_u64_attr`] describes.
fn read_u64_attr(a: &AttrReading) -> (r: Result<u64, Error>)
    ensures
        match r {
            Ok(v) => spec_parse_u64_attr(a@) == Ok::<u64, ErrorV>(v),
            Err(e) => spec_parse_u64_attr(a@) == Err::<u64, ErrorV>(e@),
        },
{
    match &a.content {
        Err(cause) => Err(Error::IOError(a.path.clone(), cause.clone())),
        Ok(text) => {
            let trimmed = trim_end(text.as_str());
            match parse_u64(trimmed) {
                Some(v) => Ok(v),
                None => Err(Error::ParseFromFileFailed(a.path.clone(), trimmed.to_owned())),
            }
        },
    }
}

/// Read the `status` attribute as [`spec_parse_status_attr`] describes.
fn read_status_attr(a: &AttrReading) -> (r: Result<BatteryStatus, Error>)
    ensures
        match r {
            Ok(st) => spec_parse_status_attr(a@) == Ok::<BatteryStatus, ErrorV>(st),
            Err(e) => spec_parse_status_attr(a@) == Err::<BatteryStatus, ErrorV>(e@),
        },
{
    match &a.content {
        Err(cause) => Err(Error::IOError(a.path.clone(), cause.clone())),
        Ok(text) => {
            let trimmed = trim_end(text.as_str());
            match BatteryStatus::from_str(trimmed) {
                Ok(st) => Ok(st),
                Err(_) => Err(Error::ParseFromFileFailed(a.path.clone(), trimmed.to_owned())),
            }
        },
    }
}

/// Parse one device's readings as [`spec_read_device`] describes.
pub fn read_device(d: &DeviceReading) -> (r: Result<Option<BatteryInfo>, Error>)
    ensures
        match r {
            Ok(opt) => spec_read_device(d@) == Ok::<Option<BatteryInfoV>, ErrorV>(opt.deep_view()),
            Err(e) => spec_read_device(d@) == Err::<Option<BatteryInfoV>, ErrorV>(e@),
        },
{
    let type_text = match &d.type_attr.content {
        Err(cause) => {
            return Err(Error::IOError(d.type_attr.path.clone(), cause.clone()));
        },
        Ok(text) => text,
    };
    if !str_eq(trim_end(type_text.as_str()), "Battery") {
        return Ok(None);
    }
    let name = match &d.name {
        Err(raw) => {
            return Err(Error::InvalidBatteryName(raw.clone()));
        },
        Ok(n) => n.clone(),
    };
    let status = match read_status_attr(&d.status_attr) {
        Ok(st) => st,
        Err(e) => {
            return Err(e);
        },
    };
    let power_now = match read_u64_attr(&d.power_now_attr) {
        Ok(v) => v,
        Err(e) => {
            return Err(e);
        },
    };
    let energy_now = match read_u64_attr(&d.energy_now_attr) {
        Ok(v) => v,
        Err(e) => {
            return Err(e);
        },
    };
    let energy_full = match read_u64_attr(&d.energy_full_attr) {
        Ok(v) => v,
        Err(e) => {
            return Err(e);
        },
    };
    Ok(Some(BatteryInfo { name, status, power_now, energy_now, energy_full }))
}

/// The outcome of a whole poll, device by device in enumeration order:
/// the records of all batteries, or the first device's error (fail-fast:
/// one malformed battery aborts the whole poll).
pub open spec fn spec_poll(ds: Seq<DeviceReadingV>) -> Result<Seq<BatteryInfoV>, ErrorV>
    decreases ds.len(),
{
    if ds.len() == 0 {
        Ok(Seq::empty())
    } else {
        match spec_read_device(ds[0]) {
            Err(e) => Err(e),
            Ok(opt) => match spec_poll(ds.drop_first()) {
                Err(e) => Err(e),
                Ok(rest) => Ok(
                    match opt {
                        Some(b) => seq![b] + rest,
                        None => rest,
                    },
                ),
            },
        }
    }
}

/// One poll over the given device readings, as [`spec_poll`] describes:
/// all battery records in enumeration order, or the first error.
pub fn read_battery_infos(devices: Vec<DeviceReading>) -> (r: Result<Vec<BatteryInfo>, Error>)
    ensures
        match r {
            Ok(infos) => spec_poll(devices.deep_view()) == Ok::<Seq<BatteryInfoV>, ErrorV>(
                infos.deep_view(),
            ),
            Err(e) => spec_poll(devices.deep_view()) == Err::<Seq<BatteryInfoV>, ErrorV>(e@),
        },
{
    let ghost dv = devices.deep_view();
    let mut infos: Vec<BatteryInfo> = Vec::new();
    let mut i: usize = 0;
    proof {
        assert(dv.skip(0) =~= dv);
        assert(infos.deep_view() =~= Seq::<BatteryInfoV>::empty());
    }
    while i < devices.len()
        invariant
            0 <= i <= devices.len(),
            dv == devices.deep_view(),
            dv.len() == devices.len(),
            spec_poll(dv) == (match spec_poll(dv.skip(i as int)) {
                Err(e) => Err::<Seq<BatteryInfoV>, ErrorV>(e),
                Ok(rest) => Ok::<Seq<BatteryInfoV>, ErrorV>(infos.deep_view() + rest),
            }),
        decreases devices.len() - i,
    {
        let ghost old_infos = infos.deep_view();
        proof {
            assert(dv.skip(i as int)[0] == dv[i as int]);
            assert(dv.skip(i as int).drop_first() =~= dv.skip(i as int + 1));
            assert(devices[i as int].deep_view() == dv[i as int]);
        }
        match read_device(&devices[i]) {
            Err(e) => {
                return Err(e);
            },
            Ok(None) => {},
            Ok(Some(b)) => {
                infos.push(b);
                proof {
                    assert(infos.deep_view() =~= old_infos + seq![b.deep_view()]);
                }
            },
        }
        proof {
            match spec_poll(dv.skip(i as int + 1)) {
                Err(_) => {},
                Ok(rest) => {
                    match spec_read_device(dv[i as int]) {
                        Ok(Some(bb)) => {
                            assert(infos.deep_view() + rest =~= old_infos + (seq![bb] + rest));
                        },
                        Ok(None) => {
                            assert(infos.deep_view() + rest =~= old_infos + rest);
                        },
                        Err(_) => {},
                    }
                },
            }
        }
        i = i + 1;
    }
    proof {
        assert(dv.skip(dv.len() as int) =~= Seq::<DeviceReadingV>::empty());
        assert(infos.deep_view() + Seq::<BatteryInfoV>::empty() =~= infos.deep_view());
    }
    Ok(infos)
}

} // verus!
