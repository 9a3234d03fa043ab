//! The device record, its public projection and the response payloads.

use vstd::prelude::*;

use crate::telemetry::Decimal;

verus! {

/// The texts that a list of strings holds.
pub open spec fn texts(v: Seq<String>) -> Seq<Seq<char>> {
    v.map_values(|s: String| s@)
}

/// One registered display client.
#[derive(Clone, Debug)]
pub struct Device {
    pub id: String,
    pub mac: Option<String>,
    pub api_key: String,
    pub rssi: Option<i64>,
    pub battery_voltage: Option<Decimal>,
    pub fw_version: Option<String>,
    pub refresh_rate: Option<i64>,
    pub images: Vec<String>,
}

/// A device as a mathematical value: its texts as character sequences.
pub struct DeviceView {
    pub id: Seq<char>,
    pub mac: Option<Seq<char>>,
    pub api_key: Seq<char>,
    pub rssi: Option<i64>,
    pub battery_voltage: Option<Decimal>,
    pub fw_version: Option<Seq<char>>,
    pub refresh_rate: Option<i64>,
    pub images: Seq<Seq<char>>,
}

impl View for Device {
    type V = DeviceView;

    open spec fn view(&self) -> DeviceView {
        DeviceView {
            id: self.id@,
            mac: self.mac.deep_view(),
            api_key: self.api_key@,
            rssi: self.rssi,
            battery_voltage: self.battery_voltage,
            fw_version: self.fw_version.deep_view(),
            refresh_rate: self.refresh_rate,
            images: texts(self.images@),
        }
    }
}

/// A device as registration leaves it: no telemetry and an empty playlist.
pub open spec fn fresh_device(id: Seq<char>, mac: Option<Seq<char>>, api_key: Seq<char>) -> DeviceView {
    DeviceView {
        id,
        mac,
        api_key,
        rssi: None,
        battery_voltage: None,
        fw_version: None,
        refresh_rate: None,
        images: Seq::empty(),
    }
}

/// A copy of an optional text.
pub fn copy_text_option(o: &Option<String>) -> (r: Option<String>)
    ensures
        r.deep_view() == o.deep_view(),
{
    match o {
        Some(s) => Some(s.clone()),
        None => None,
    }
}

/// A copy of a list of texts.
pub fn copy_texts(v: &[String]) -> (r: Vec<String>)
    ensures
        texts(r@) == texts(v@),
{
    let mut r: Vec<String> = Vec::new();
    let mut i: usize = 0;
    while i < v.len()
        invariant
            i <= v@.len(),
            texts(r@) == texts(v@).take(i as int),
        decreases v@.len() - i,
    {
        let ghost before = r@;
        let c = v[i].clone();
        r.push(c);
        proof {
            assert(r@ == before.push(v@[i as int]));
            assert(texts(before.push(v@[i as int])) =~= texts(before).push(v@[i as int]@));
            assert(texts(v@).take(i + 1) =~= texts(v@).take(i as int).push(v@[i as int]@));
        }
        i = i + 1;
        assert(texts(r@) =~= texts(v@).take(i as int));
    }
    assert(texts(v@).take(v@.len() as int) =~= texts(v@));
    r
}

impl Device {
    /// A copy of this device, field for field.
    pub fn duplicate(&self) -> (r: Device)
        ensures
            r@ == self@,
    {
        Device {
            id: self.id.clone(),
            mac: copy_text_option(&self.mac),
            api_key: self.api_key.clone(),
            rssi: self.rssi,
            battery_voltage: self.battery_voltage,
            fw_version: copy_text_option(&self.fw_version),
            refresh_rate: self.refresh_rate,
            images: copy_texts(self.images.as_slice()),
        }
    }
}

/// What inventory reads show of a device: identity and last telemetry.
#[derive(Clone, Debug)]
pub struct DeviceInfo {
    pub id: String,
    pub mac: Option<String>,
    pub rssi: Option<i64>,
    pub battery_voltage: Option<Decimal>,
    pub fw_version: Option<String>,
    pub refresh_rate: Option<i64>,
}

/// `info` shows exactly the identity and telemetry of `d`.
pub open spec fn shows(info: DeviceInfo, d: DeviceView) -> bool {
    &&& info.id@ == d.id
    &&& info.mac.deep_view() == d.mac
    &&& info.rssi == d.rssi
    &&& info.battery_voltage == d.battery_voltage
    &&& info.fw_version.deep_view() == d.fw_version
    &&& info.refresh_rate == d.refresh_rate
}

impl DeviceInfo {
    pub fn from_device(d: &Device) -> (r: DeviceInfo)
        ensures
            shows(r, d@),
    {
        DeviceInfo {
            id: d.id.clone(),
            mac: copy_text_option(&d.mac),
            rssi: d.rssi,
            battery_voltage: d.battery_voltage,
            fw_version: copy_text_option(&d.fw_version),
            refresh_rate: d.refresh_rate,
        }
    }
}

/// The answer to a registration request.
#[derive(Clone, Debug)]
pub struct SetupResponse {
    pub status: u16,
    pub api_key: Option<String>,
    pub friendly_id: Option<String>,
    pub image_url: Option<String>,
    pub filename: Option<String>,
}

/// The answer to a check-in request.
#[derive(Clone, Debug)]
pub struct DisplayResponse {
    pub status: u16,
    pub image_url: String,
    pub filename: String,
    pub update_firmware: bool,
    pub firmware_url: Option<String>,
    pub refresh_rate: String,
    pub reset_firmware: bool,
}

} // verus!
