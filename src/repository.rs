//! The device repository: registered devices with unique ids and unique
//! hardware addresses, kept in ascending order of id, in memory.

use vstd::prelude::*;

use crate::models::{copy_texts, fresh_device, texts, Device, DeviceView};
use crate::telemetry::Decimal;
use crate::text::{lemma_lex_total, lemma_lex_transitive, lex_less, text_precedes};

verus! {

/// Why the repository refused a new device.
#[derive(Clone, Copy, Debug, PartialEq, Eq, Structural)]
pub enum RepoError {
    /// A device with that id, or with that hardware address, exists already.
    Conflict,
}

/// The devices of `s` as values.
pub open spec fn views(s: Seq<Device>) -> Seq<DeviceView> {
    s.map_values(|d: Device| d@)
}

pub open spec fn ids_sorted(s: Seq<DeviceView>) -> bool {
    forall|i: int, j: int| 0 <= i < j < s.len() ==> lex_less(#[trigger] s[i].id, #[trigger] s[j].id)
}

pub open spec fn macs_unique(s: Seq<DeviceView>) -> bool {
    forall|i: int, j: int|
        0 <= i < s.len() && 0 <= j < s.len() && i != j && (#[trigger] s[i].mac) is Some ==> s[i].mac
            != (#[trigger] s[j].mac)
}

/// The store's invariant: ids in strictly ascending order (so unique), and no
/// hardware address on two devices.
pub open spec fn well_formed(s: Seq<DeviceView>) -> bool {
    ids_sorted(s) && macs_unique(s)
}

pub open spec fn has_id(s: Seq<DeviceView>, id: Seq<char>) -> bool {
    exists|i: int| 0 <= i < s.len() && (#[trigger] s[i]).id == id
}

pub open spec fn has_mac(s: Seq<DeviceView>, mac: Seq<char>) -> bool {
    exists|i: int| 0 <= i < s.len() && (#[trigger] s[i]).mac == Some(mac)
}

pub open spec fn has_api_key(s: Seq<DeviceView>, key: Seq<char>) -> bool {
    exists|i: int| 0 <= i < s.len() && (#[trigger] s[i]).api_key == key
}

/// `i` is the first device of `s` that holds `key`.
pub open spec fn first_with_api_key(s: Seq<DeviceView>, key: Seq<char>, i: int) -> bool {
    &&& 0 <= i < s.len()
    &&& s[i].api_key == key
    &&& forall|j: int| 0 <= j < i ==> (#[trigger] s[j]).api_key != key
}

/// Whether `create` refuses this id and address on the store `s`.
pub open spec fn conflicts(s: Seq<DeviceView>, id: Seq<char>, mac: Option<Seq<char>>) -> bool {
    has_id(s, id) || (mac is Some && has_mac(s, mac.unwrap()))
}

pub open spec fn with_images(d: DeviceView, images: Seq<Seq<char>>) -> DeviceView {
    DeviceView { images, ..d }
}

/// Telemetry `reported` over `known`: what was reported replaces, what was not stays.
pub open spec fn merged<T>(reported: Option<T>, known: Option<T>) -> Option<T> {
    match reported {
        Some(v) => Some(v),
        None => known,
    }
}

pub open spec fn widen(v: Option<i32>) -> Option<i64> {
    match v {
        Some(x) => Some(x as i64),
        None => None,
    }
}

/// The device `d` after a status report.
pub open spec fn with_status(
    d: DeviceView,
    rssi: Option<i32>,
    battery_voltage: Option<Decimal>,
    fw_version: Option<Seq<char>>,
    refresh_rate: Option<i32>,
) -> DeviceView {
    DeviceView {
        rssi: merged(widen(rssi), d.rssi),
        battery_voltage: merged(battery_voltage, d.battery_voltage),
        fw_version: merged(fw_version, d.fw_version),
        refresh_rate: merged(widen(refresh_rate), d.refresh_rate),
        ..d
    }
}

/// The store `s` after the playlist of the device `id` became `images`.
pub open spec fn images_replaced(s: Seq<DeviceView>, id: Seq<char>, images: Seq<Seq<char>>) -> Seq<DeviceView> {
    Seq::new(s.len(), |j: int| if s[j].id == id { with_images(s[j], images) } else { s[j] })
}

/// The store `s` after a status report for the device `id`.
pub open spec fn status_merged(
    s: Seq<DeviceView>,
    id: Seq<char>,
    rssi: Option<i32>,
    battery_voltage: Option<Decimal>,
    fw_version: Option<Seq<char>>,
    refresh_rate: Option<i32>,
) -> Seq<DeviceView> {
    Seq::new(
        s.len(),
        |j: int|
            if s[j].id == id {
                with_status(s[j], rssi, battery_voltage, fw_version, refresh_rate)
            } else {
                s[j]
            },
    )
}

pub struct InMemoryDeviceRepo {
    devices: Vec<Device>,
}

impl View for InMemoryDeviceRepo {
    type V = Seq<DeviceView>;

    closed spec fn view(&self) -> Seq<DeviceView> {
        views(self.devices@)
    }
}

proof fn lemma_insert_sorted(s: Seq<DeviceView>, k: int, d: DeviceView)
    requires
        ids_sorted(s),
        0 <= k <= s.len(),
        forall|j: int| 0 <= j < k ==> lex_less(#[trigger] s[j].id, d.id),
        forall|j: int| k <= j < s.len() ==> lex_less(d.id, #[trigger] s[j].id),
    ensures
        ids_sorted(s.insert(k, d)),
{
    let t = s.insert(k, d);
    assert forall|i: int, j: int| 0 <= i < j < t.len() implies lex_less(
        #[trigger] t[i].id,
        #[trigger] t[j].id,
    ) by {
        if i < k && j == k {
        } else if i < k && j > k {
            assert(t[j] == s[j - 1]);
        } else if i == k {
            assert(t[j] == s[j - 1]);
        } else if i < k {
        } else {
            assert(t[i] == s[i - 1]);
            assert(t[j] == s[j - 1]);
        }
    }
}

impl InMemoryDeviceRepo {
    pub open spec fn wf(&self) -> bool {
        well_formed(self@)
    }

    /// An empty repository.
    pub fn new() -> (r: InMemoryDeviceRepo)
        ensures
            r@ == Seq::<DeviceView>::empty(),
            r.wf(),
    {
        let r = InMemoryDeviceRepo { devices: Vec::new() };
        assert(r@ =~= Seq::<DeviceView>::empty());
        r
    }

    /// Registers a device with no telemetry and an empty playlist. Refused,
    /// with nothing changed, when the id or the address is taken.
    pub fn create(&mut self, id: &str, mac: Option<&str>, api_key: &str) -> (r: Result<(), RepoError>)
        requires
            old(self).wf(),
        ensures
            final(self).wf(),
            r is Err <==> conflicts(old(self)@, id@, mac.deep_view()),
            r is Err ==> final(self)@ == old(self)@,
            r is Ok ==> exists|k: int|
                0 <= k <= old(self)@.len() && final(self)@ == old(self)@.insert(
                    k,
                    fresh_device(id@, mac.deep_view(), api_key@),
                ),
    {
        let ghost s = self@;
        let id_text = id.to_owned();
        let mac_text: Option<String> = match mac {
            Some(m) => Some(m.to_owned()),
            None => None,
        };
        let n = self.devices.len();
        let mut pos = n;
        let mut i: usize = 0;
        while i < n
            invariant
                s == self@,
                n == s.len(),
                well_formed(s),
                id_text@ == id@,
                mac_text.deep_view() == mac.deep_view(),
                i <= n,
                pos <= n,
                forall|j: int| 0 <= j < i ==> (#[trigger] s[j]).id != id@,
                mac is Some ==> forall|j: int| 0 <= j < i ==> (#[trigger] s[j]).mac != Some(mac.unwrap()@),
                pos == n ==> forall|j: int| 0 <= j < i ==> lex_less(#[trigger] s[j].id, id@),
                pos < n ==> pos < i && lex_less(id@, s[pos as int].id) && forall|j: int|
                    0 <= j < pos ==> lex_less(#[trigger] s[j].id, id@),
            decreases n - i,
        {
            let d = &self.devices[i];
            assert(s[i as int] == d@);
            if d.id == id_text {
                return Err(RepoError::Conflict);
            }
            match (&mac_text, &d.mac) {
                (Some(m), Some(dm)) => {
                    if *dm == *m {
                        return Err(RepoError::Conflict);
                    }
                },
                _ => {},
            }
            if pos == n {
                if text_precedes(id, d.id.as_str()) {
                    pos = i;
                } else {
                    proof {
                        lemma_lex_total(id@, d.id@);
                    }
                }
            }
            i = i + 1;
        }
        let new_device = Device {
            id: id_text,
            mac: mac_text,
            api_key: api_key.to_owned(),
            rssi: None,
            battery_voltage: None,
            fw_version: None,
            refresh_rate: None,
            images: Vec::new(),
        };
        proof {
            assert(texts(new_device.images@) =~= Seq::<Seq<char>>::empty());
            assert(new_device@ == fresh_device(id@, mac.deep_view(), api_key@));
            if pos < n {
                assert forall|j: int| pos <= j < s.len() implies lex_less(id@, #[trigger] s[j].id) by {
                    if j > pos {
                        lemma_lex_transitive(id@, s[pos as int].id, s[j].id);
                    }
                }
            }
            lemma_insert_sorted(s, pos as int, new_device@);
            let t = s.insert(pos as int, new_device@);
            assert forall|a: int, b: int|
                0 <= a < t.len() && 0 <= b < t.len() && a != b && (#[trigger] t[a].mac) is Some
                    implies t[a].mac != (#[trigger] t[b].mac) by {
                if a == pos || b == pos {
                    if a != pos {
                        let a2 = if a < pos { a } else { a - 1 };
                        assert(t[a] == s[a2]);
                    }
                    if b != pos {
                        let b2 = if b < pos { b } else { b - 1 };
                        assert(t[b] == s[b2]);
                    }
                } else {
                    let a2 = if a < pos { a } else { a - 1 };
                    let b2 = if b < pos { b } else { b - 1 };
                    assert(t[a] == s[a2]);
                    assert(t[b] == s[b2]);
                }
            }
        }
        self.devices.insert(pos, new_device);
        assert(self@ =~= s.insert(pos as int, new_device@));
        Ok(())
    }

    /// Whether some device has the hardware address `mac`.
    pub fn exists_by_mac(&self, mac: &str) -> (r: bool)
        ensures
            r == has_mac(self@, mac@),
    {
        let mac_text = mac.to_owned();
        let mut i: usize = 0;
        while i < self.devices.len()
            invariant
                i <= self@.len(),
                self@.len() == self.devices@.len(),
                mac_text@ == mac@,
                forall|j: int| 0 <= j < i ==> (#[trigger] self@[j]).mac != Some(mac@),
            decreases self@.len() - i,
        {
            assert(self@[i as int] == self.devices@[i as int]@);
            match &self.devices[i].mac {
                Some(m) => {
                    if *m == mac_text {
                        return true;
                    }
                },
                None => {},
            }
            i = i + 1;
        }
        false
    }

    /// The first device that holds the credential `api_key`, if any.
    pub fn get_by_api_key(&self, api_key: &str) -> (r: Option<Device>)
        ensures
            r is None <==> !has_api_key(self@, api_key@),
            r is Some ==> exists|i: int|
                first_with_api_key(self@, api_key@, i) && r.unwrap()@ == self@[i],
    {
        let key = api_key.to_owned();
        let mut i: usize = 0;
        while i < self.devices.len()
            invariant
                i <= self@.len(),
                self@.len() == self.devices@.len(),
                key@ == api_key@,
                forall|j: int| 0 <= j < i ==> (#[trigger] self@[j]).api_key != api_key@,
            decreases self@.len() - i,
        {
            assert(self@[i as int] == self.devices@[i as int]@);
            if self.devices[i].api_key == key {
                let d = self.devices[i].duplicate();
                assert(first_with_api_key(self@, api_key@, i as int));
                return Some(d);
            }
            i = i + 1;
        }
        None
    }

    /// The device with the id `id`, if any.
    pub fn get_by_id(&self, id: &str) -> (r: Option<Device>)
        requires
            self.wf(),
        ensures
            r is None <==> !has_id(self@, id@),
            r is Some ==> exists|i: int| 0 <= i < self@.len() && self@[i].id == id@ && r.unwrap()@ == self@[i],
    {
        let key = id.to_owned();
        let mut i: usize = 0;
        while i < self.devices.len()
            invariant
                i <= self@.len(),
                self@.len() == self.devices@.len(),
                key@ == id@,
                forall|j: int| 0 <= j < i ==> (#[trigger] self@[j]).id != id@,
            decreases self@.len() - i,
        {
            assert(self@[i as int] == self.devices@[i as int]@);
            if self.devices[i].id == key {
                return Some(self.devices[i].duplicate());
            }
            i = i + 1;
        }
        None
    }

    /// Every device, in ascending order of id, as it is now.
    pub fn list(&self) -> (r: Vec<Device>)
        requires
            self.wf(),
        ensures
            views(r@) == self@,
            forall|i: int, j: int| 0 <= i < j < r@.len() ==> lex_less(#[trigger] r@[i].id@, #[trigger] r@[j].id@),
    {
        let mut r: Vec<Device> = Vec::new();
        let mut i: usize = 0;
        while i < self.devices.len()
            invariant
                i <= self@.len(),
                self@.len() == self.devices@.len(),
                views(r@) == self@.take(i as int),
            decreases self@.len() - i,
        {
            assert(self@[i as int] == self.devices@[i as int]@);
            let d = self.devices[i].duplicate();
            let ghost before = r@;
            r.push(d);
            assert(views(r@) =~= views(before).push(d@));
            assert(self@.take(i + 1) =~= self@.take(i as int).push(self@[i as int]));
            i = i + 1;
        }
        assert(self@.take(self@.len() as int) =~= self@);
        proof {
            assert forall|i: int, j: int| 0 <= i < j < r@.len() implies lex_less(
                #[trigger] r@[i].id@,
                #[trigger] r@[j].id@,
            ) by {
                assert(views(r@)[i] == r@[i]@);
                assert(views(r@)[j] == r@[j]@);
                assert(lex_less(self@[i].id, self@[j].id));
            }
        }
        r
    }

    /// Replaces the playlist of the device `id`; nothing changes when there is
    /// no such device.
    pub fn update_images(&mut self, id: &str, images: &[String])
        requires
            old(self).wf(),
        ensures
            final(self).wf(),
            final(self)@ == images_replaced(old(self)@, id@, texts(images@)),
    {
        let ghost s = self@;
        let key = id.to_owned();
        let mut i: usize = 0;
        while i < self.devices.len()
            invariant
                i <= s.len(),
                self@.len() == self.devices@.len() == s.len(),
                well_formed(s),
                key@ == id@,
                forall|j: int|
                    0 <= j < s.len() ==> (#[trigger] self@[j]) == if j < i && s[j].id == id@ {
                        with_images(s[j], texts(images@))
                    } else {
                        s[j]
                    },
            decreases s.len() - i,
        {
            assert(self@[i as int] == self.devices@[i as int]@);
            if self.devices[i].id == key {
                let mut d = self.devices[i].duplicate();
                d.images = copy_texts(images);
                let ghost before = self@;
                self.devices.set(i, d);
                assert(self@ =~= before.update(i as int, d@));
            }
            i = i + 1;
        }
        assert(well_formed(self@)) by {
            assert forall|a: int| 0 <= a < s.len() implies (#[trigger] self@[a]).id == s[a].id && self@[a].mac == s[a].mac by {}
        }
        assert(self@ =~= images_replaced(s, id@, texts(images@)));
    }

    /// Merges a status report into the device `id`: each field given
    /// replaces the stored one, each field left out keeps it. Nothing changes
    /// when there is no such device.
    pub fn update_status(
        &mut self,
        id: &str,
        rssi: Option<i32>,
        battery_voltage: Option<Decimal>,
        fw_version: Option<&str>,
        refresh_rate: Option<i32>,
    )
        requires
            old(self).wf(),
        ensures
            final(self).wf(),
            final(self)@ == status_merged(old(self)@, id@, rssi, battery_voltage, fw_version.deep_view(), refresh_rate),
    {
        let ghost s = self@;
        let key = id.to_owned();
        let mut i: usize = 0;
        while i < self.devices.len()
            invariant
                i <= s.len(),
                self@.len() == self.devices@.len() == s.len(),
                well_formed(s),
                key@ == id@,
                forall|j: int|
                    0 <= j < s.len() ==> (#[trigger] self@[j]) == if j < i && s[j].id == id@ {
                        with_status(s[j], rssi, battery_voltage, fw_version.deep_view(), refresh_rate)
                    } else {
                        s[j]
                    },
            decreases s.len() - i,
        {
            assert(self@[i as int] == self.devices@[i as int]@);
            if self.devices[i].id == key {
                let mut d = self.devices[i].duplicate();
                if let Some(v) = rssi {
                    d.rssi = Some(v as i64);
                }
                if let Some(v) = battery_voltage {
                    d.battery_voltage = Some(v);
                }
                if let Some(v) = fw_version {
                    d.fw_version = Some(v.to_owned());
                }
                if let Some(v) = refresh_rate {
                    d.refresh_rate = Some(v as i64);
                }
                let ghost before = self@;
                self.devices.set(i, d);
                assert(self@ =~= before.update(i as int, d@));
            }
            i = i + 1;
        }
        assert(well_formed(self@)) by {
            assert forall|a: int| 0 <= a < s.len() implies (#[trigger] self@[a]).id == s[a].id && self@[a].mac == s[a].mac by {}
        }
        assert(self@ =~= status_merged(s, id@, rssi, battery_voltage, fw_version.deep_view(), refresh_rate));
    }
}

} // verus!
