//! The request flows: registration, check-in, inventory and playlist
//! replacement, over the device repository and the rotation cursors.

use vstd::prelude::*;

use crate::config::AppSettings;
use crate::credentials::{generate_credentials, well_formed_credentials, Credentials};
use crate::models::{fresh_device, shows, texts, Device, DeviceInfo, DeviceView, DisplayResponse, SetupResponse};
use crate::repository::{
    conflicts, first_with_api_key, has_api_key, has_id, has_mac, images_replaced, macs_unique,
    status_merged, well_formed, InMemoryDeviceRepo, RepoError,
};
use crate::rotation::{cursor_of, next_cursor, RotationCursors};
use crate::telemetry::{decimal_of_text, i32_of_text, parse_status_report, text_given};

verus! {

/// Setup status of a newly registered device.
pub const SETUP_REGISTERED: u16 = 200;

/// Setup status of a hardware address that is registered already.
pub const SETUP_ALREADY_REGISTERED: u16 = 404;

/// Check-in status of a known credential.
pub const DISPLAY_OK: u16 = 0;

/// Check-in status of an unknown credential, sent inside a normal reply.
pub const DISPLAY_UNPROVISIONED: u16 = 500;

/// How a request failed.
#[derive(Clone, Copy, Debug, PartialEq, Eq, Structural)]
pub enum HandlerError {
    /// No device has the id on the path.
    NotFound,
    /// The store failed; the cause is not shown.
    Internal,
}

/// The content name sent with a new registration.
pub open spec fn empty_state_name() -> Seq<char> {
    seq!['e', 'm', 'p', 't', 'y', '_', 's', 't', 'a', 't', 'e']
}

/// The refresh interval, in seconds, that a check-in without one is told.
pub open spec fn default_refresh_rate() -> Seq<char> {
    seq!['1', '8', '0', '0']
}

/// The refresh interval that a check-in reply echoes.
pub open spec fn echoed_refresh_rate(requested: Seq<char>) -> Seq<char> {
    if requested.len() == 0 {
        default_refresh_rate()
    } else {
        requested
    }
}

pub open spec fn is_already_registered(r: SetupResponse) -> bool {
    &&& r.status == SETUP_ALREADY_REGISTERED
    &&& r.api_key is None
    &&& r.friendly_id is None
    &&& r.image_url is None
    &&& r.filename is None
}

pub open spec fn is_registered(r: SetupResponse, id: Seq<char>, api_key: Seq<char>, image_url: Seq<char>) -> bool {
    &&& r.status == SETUP_REGISTERED
    &&& r.api_key.deep_view() == Some(api_key)
    &&& r.friendly_id.deep_view() == Some(id)
    &&& r.image_url.deep_view() == Some(image_url)
    &&& r.filename.deep_view() == Some(empty_state_name())
}

pub open spec fn is_display_reply(
    r: DisplayResponse,
    status: u16,
    image_url: Seq<char>,
    filename: Seq<char>,
    refresh_rate: Seq<char>,
) -> bool {
    &&& r.status == status
    &&& r.image_url@ == image_url
    &&& r.filename@ == filename
    &&& !r.update_firmware
    &&& r.firmware_url is None
    &&& r.refresh_rate@ == refresh_rate
    &&& !r.reset_firmware
}

impl SetupResponse {
    /// The sentinel for a hardware address that is registered already.
    pub fn already_registered() -> (r: SetupResponse)
        ensures
            is_already_registered(r),
    {
        SetupResponse { status: SETUP_ALREADY_REGISTERED, api_key: None, friendly_id: None, image_url: None, filename: None }
    }

    /// The reply to a registration that created a device.
    pub fn registered(api_key: String, friendly_id: String, image_url: String) -> (r: SetupResponse)
        ensures
            is_registered(r, friendly_id@, api_key@, image_url@),
    {
        let filename = String::from_str("empty_state");
        proof {
            reveal_strlit("empty_state");
            assert(filename@ =~= empty_state_name());
        }
        SetupResponse {
            status: SETUP_REGISTERED,
            api_key: Some(api_key),
            friendly_id: Some(friendly_id),
            image_url: Some(image_url),
            filename: Some(filename),
        }
    }
}

impl DisplayResponse {
    /// A check-in reply; firmware updates are never offered.
    pub fn reply(status: u16, image_url: String, filename: String, refresh_rate: String) -> (r: DisplayResponse)
        ensures
            is_display_reply(r, status, image_url@, filename@, refresh_rate@),
    {
        DisplayResponse {
            status,
            image_url,
            filename,
            update_firmware: false,
            firmware_url: None,
            refresh_rate,
            reset_firmware: false,
        }
    }
}

/// The refresh interval to echo: the requested one, or the default when none
/// was sent.
pub fn effective_refresh_rate(requested: &str) -> (r: String)
    ensures
        r@ == echoed_refresh_rate(requested@),
{
    if requested.unicode_len() == 0 {
        let d = String::from_str("1800");
        proof {
            reveal_strlit("1800");
            assert(d@ =~= default_refresh_rate());
        }
        d
    } else {
        requested.to_owned()
    }
}

/// What registration does, given the store `s` before and `t` after: an
/// address on file is answered with the sentinel and nothing changes; a
/// taken id or address is an internal failure and nothing changes; else the
/// device is created and its credentials are returned.
pub open spec fn setup_outcome(
    s: Seq<DeviceView>,
    mac: Option<Seq<char>>,
    id: Seq<char>,
    api_key: Seq<char>,
    image_url: Seq<char>,
    r: Result<SetupResponse, HandlerError>,
    t: Seq<DeviceView>,
) -> bool {
    if mac is Some && has_mac(s, mac.unwrap()) {
        r is Ok && is_already_registered(r.unwrap()) && t == s
    } else if conflicts(s, id, mac) {
        r == Err::<SetupResponse, HandlerError>(HandlerError::Internal) && t == s
    } else {
        &&& r is Ok
        &&& is_registered(r.unwrap(), id, api_key, image_url)
        &&& exists|k: int| 0 <= k <= s.len() && t == s.insert(k, fresh_device(id, mac, api_key))
    }
}

/// Registration with the given credentials.
pub fn register(
    repo: &mut InMemoryDeviceRepo,
    mac: Option<&str>,
    credentials: Credentials,
    image_url: &str,
) -> (r: Result<SetupResponse, HandlerError>)
    requires
        old(repo).wf(),
    ensures
        final(repo).wf(),
        setup_outcome(
            old(repo)@,
            mac.deep_view(),
            credentials.friendly_id@,
            credentials.api_key@,
            image_url@,
            r,
            final(repo)@,
        ),
{
    if let Some(m) = mac {
        if repo.exists_by_mac(m) {
            return Ok(SetupResponse::already_registered());
        }
    }
    match repo.create(credentials.friendly_id.as_str(), mac, credentials.api_key.as_str()) {
        Ok(()) => Ok(SetupResponse::registered(credentials.api_key, credentials.friendly_id, image_url.to_owned())),
        Err(RepoError::Conflict) => Err(HandlerError::Internal),
    }
}

/// Registration of a device, with a hardware address or without one
/// (a virtual device), under freshly drawn credentials.
pub fn setup_handler(
    repo: &mut InMemoryDeviceRepo,
    mac: Option<&str>,
    settings: &AppSettings,
) -> (r: Result<SetupResponse, HandlerError>)
    requires
        old(repo).wf(),
    ensures
        final(repo).wf(),
        exists|c: Credentials|
            well_formed_credentials(c) && setup_outcome(
                old(repo)@,
                mac.deep_view(),
                c.friendly_id@,
                c.api_key@,
                settings.setup_logo_url@,
                r,
                final(repo)@,
            ),
{
    let credentials = generate_credentials();
    let ghost c = credentials;
    let r = register(repo, mac, credentials, settings.setup_logo_url.as_str());
    assert(well_formed_credentials(c));
    r
}

/// Registering one hardware address twice never makes two devices: after a
/// first registration that succeeded, a second one answers Already-Registered
/// and changes nothing, and exactly one device holds the address.
pub proof fn lemma_registration_idempotent(
    s0: Seq<DeviceView>,
    s1: Seq<DeviceView>,
    s2: Seq<DeviceView>,
    mac: Seq<char>,
    id1: Seq<char>,
    key1: Seq<char>,
    id2: Seq<char>,
    key2: Seq<char>,
    image_url: Seq<char>,
    r1: Result<SetupResponse, HandlerError>,
    r2: Result<SetupResponse, HandlerError>,
)
    requires
        well_formed(s0),
        well_formed(s1),
        setup_outcome(s0, Some(mac), id1, key1, image_url, r1, s1),
        r1 is Ok,
        setup_outcome(s1, Some(mac), id2, key2, image_url, r2, s2),
    ensures
        r2 is Ok && is_already_registered(r2.unwrap()),
        s2 == s1,
        exists|i: int|
            0 <= i < s2.len() && s2[i].mac == Some(mac) && forall|j: int|
                0 <= j < s2.len() && j != i ==> (#[trigger] s2[j]).mac != Some(mac),
{
    if has_mac(s0, mac) {
        assert(s1 == s0);
    } else {
        let k = choose|k: int| 0 <= k <= s0.len() && s1 == s0.insert(k, fresh_device(id1, Some(mac), key1));
        assert(s1[k].mac == Some(mac));
    }
    assert(has_mac(s1, mac));
    let i = choose|i: int| 0 <= i < s1.len() && (#[trigger] s1[i]).mac == Some(mac);
    assert(macs_unique(s1));
    assert forall|j: int| 0 <= j < s2.len() && j != i implies (#[trigger] s2[j]).mac != Some(mac) by {
        assert(s1[i].mac != s1[j].mac);
    }
}

/// A check-in request as it arrived: every field is text, and an empty text
/// stands for a field that was not sent.
#[derive(Clone, Debug)]
pub struct DisplayRequest {
    pub access_token: String,
    pub rssi: String,
    pub fw_version: String,
    pub battery_voltage: String,
    pub refresh_rate: String,
}

/// The store `s` after a check-in by the device `d` that sent `req`.
pub open spec fn checked_in(s: Seq<DeviceView>, d: DeviceView, req: DisplayRequest) -> Seq<DeviceView> {
    status_merged(
        s,
        d.id,
        i32_of_text(req.rssi@),
        decimal_of_text(req.battery_voltage@),
        text_given(req.fw_version@),
        i32_of_text(req.refresh_rate@),
    )
}

/// Check-in: an unknown credential gets the unprovisioned sentinel and
/// changes nothing. A known one has its telemetry merged (fields that do not
/// parse are dropped), and is served the image at its cursor, which then
/// moves on; with an empty playlist it is served the placeholder and its
/// cursor stays. `filename` is the freshness token of the reply.
pub fn display_handler(
    repo: &mut InMemoryDeviceRepo,
    cursors: &mut RotationCursors,
    req: &DisplayRequest,
    filename: String,
    settings: &AppSettings,
) -> (r: DisplayResponse)
    requires
        old(repo).wf(),
        old(cursors).wf(),
    ensures
        final(repo).wf(),
        final(cursors).wf(),
        !has_api_key(old(repo)@, req.access_token@) ==> {
            &&& final(repo)@ == old(repo)@
            &&& final(cursors)@ == old(cursors)@
            &&& is_display_reply(
                r,
                DISPLAY_UNPROVISIONED,
                settings.setup_logo_url@,
                filename@,
                echoed_refresh_rate(req.refresh_rate@),
            )
        },
        has_api_key(old(repo)@, req.access_token@) ==> exists|i: int|
            {
                &&& first_with_api_key(old(repo)@, req.access_token@, i)
                &&& final(repo)@ == checked_in(old(repo)@, old(repo)@[i], *req)
                &&& {
                    let d = old(repo)@[i];
                    let c = cursor_of(old(cursors)@, d.id);
                    let n = d.images.len();
                    if n == 0 {
                        &&& final(cursors)@ == old(cursors)@
                        &&& is_display_reply(
                            r,
                            DISPLAY_OK,
                            settings.setup_logo_url@,
                            filename@,
                            echoed_refresh_rate(req.refresh_rate@),
                        )
                    } else {
                        &&& final(cursors)@ == old(cursors)@.insert(d.id, next_cursor(c, n))
                        &&& is_display_reply(
                            r,
                            DISPLAY_OK,
                            d.images[(c % n) as int],
                            filename@,
                            echoed_refresh_rate(req.refresh_rate@),
                        )
                    }
                }
            },
{
    let refresh_rate = effective_refresh_rate(req.refresh_rate.as_str());
    match repo.get_by_api_key(req.access_token.as_str()) {
        None => DisplayResponse::reply(DISPLAY_UNPROVISIONED, settings.setup_logo_url.clone(), filename, refresh_rate),
        Some(device) => {
            let report = parse_status_report(
                req.rssi.as_str(),
                req.battery_voltage.as_str(),
                req.fw_version.as_str(),
                req.refresh_rate.as_str(),
            );
            let fw_version: Option<&str> = match &report.fw_version {
                Some(v) => Some(v.as_str()),
                None => None,
            };
            repo.update_status(device.id.as_str(), report.rssi, report.battery_voltage, fw_version, report.refresh_rate);
            let image = cursors.next_image(
                device.id.as_str(),
                device.images.as_slice(),
                settings.setup_logo_url.as_str(),
            );
            DisplayResponse::reply(DISPLAY_OK, image, filename, refresh_rate)
        },
    }
}

/// The public projection of each device, in the same order.
pub fn project_devices(devices: &[Device]) -> (r: Vec<DeviceInfo>)
    ensures
        r@.len() == devices@.len(),
        forall|i: int| 0 <= i < r@.len() ==> shows(#[trigger] r@[i], devices@[i]@),
{
    let mut r: Vec<DeviceInfo> = Vec::new();
    let mut i: usize = 0;
    while i < devices.len()
        invariant
            i <= devices@.len(),
            r@.len() == i,
            forall|j: int| 0 <= j < i ==> shows(#[trigger] r@[j], devices@[j]@),
        decreases devices@.len() - i,
    {
        r.push(DeviceInfo::from_device(&devices[i]));
        i = i + 1;
    }
    r
}

/// Every device's projection, in ascending order of id.
pub fn list_devices_handler(repo: &InMemoryDeviceRepo) -> (r: Vec<DeviceInfo>)
    requires
        repo.wf(),
    ensures
        r@.len() == repo@.len(),
        forall|i: int| 0 <= i < r@.len() ==> shows(#[trigger] r@[i], repo@[i]),
{
    let devices = repo.list();
    let r = project_devices(devices.as_slice());
    assert forall|i: int| 0 <= i < r@.len() implies shows(#[trigger] r@[i], repo@[i]) by {
        assert(crate::repository::views(devices@)[i] == devices@[i]@);
    }
    r
}

/// The projection of the device `id`, or `NotFound`.
pub fn get_device_handler(repo: &InMemoryDeviceRepo, id: &str) -> (r: Result<DeviceInfo, HandlerError>)
    requires
        repo.wf(),
    ensures
        r is Err <==> !has_id(repo@, id@),
        r is Err ==> r == Err::<DeviceInfo, HandlerError>(HandlerError::NotFound),
        r is Ok ==> exists|i: int| 0 <= i < repo@.len() && repo@[i].id == id@ && shows(r.unwrap(), repo@[i]),
{
    match repo.get_by_id(id) {
        Some(d) => Ok(DeviceInfo::from_device(&d)),
        None => Err(HandlerError::NotFound),
    }
}

/// The playlist of the device `id`, or `NotFound`.
pub fn get_device_images_handler(repo: &InMemoryDeviceRepo, id: &str) -> (r: Result<Vec<String>, HandlerError>)
    requires
        repo.wf(),
    ensures
        r is Err <==> !has_id(repo@, id@),
        r is Err ==> r == Err::<Vec<String>, HandlerError>(HandlerError::NotFound),
        r is Ok ==> exists|i: int| 0 <= i < repo@.len() && repo@[i].id == id@ && texts(r.unwrap()@) == repo@[i].images,
{
    match repo.get_by_id(id) {
        Some(d) => Ok(d.images),
        None => Err(HandlerError::NotFound),
    }
}

/// Replaces the playlist of the device `id` (nothing changes when there is
/// none) and returns the list it accepted. Cursors are left as they are.
pub fn put_device_images_handler(repo: &mut InMemoryDeviceRepo, id: &str, images: Vec<String>) -> (r: Vec<String>)
    requires
        old(repo).wf(),
    ensures
        final(repo).wf(),
        final(repo)@ == images_replaced(old(repo)@, id@, texts(images@)),
        texts(r@) == texts(images@),
{
    repo.update_images(id, images.as_slice());
    images
}

/// The fixed acknowledgement of the log intake.
#[derive(Clone, Debug)]
pub struct LogAck {
    pub status: u16,
    pub msg: String,
}

/// Log intake: accepts any payload, keeps nothing, always acknowledges.
pub fn log_handler(body: &[u8]) -> (r: LogAck)
    ensures
        r.status == 200,
        r.msg@ == seq!['l', 'o', 'g', ' ', 'r', 'e', 'c', 'e', 'i', 'v', 'e', 'd'],
{
    let msg = String::from_str("log received");
    proof {
        reveal_strlit("log received");
        assert(msg@ =~= seq!['l', 'o', 'g', ' ', 'r', 'e', 'c', 'e', 'i', 'v', 'e', 'd']);
    }
    LogAck { status: 200, msg }
}

} // verus!
