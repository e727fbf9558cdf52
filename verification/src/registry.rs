//! Persistent device registry: one record per device id, with trust status,
//! last-seen IP and the auto-reconnect flag, plus the process-wide session
//! state blob (zoom, auto-connect, media, pending mirror, mirroring device).
use vstd::prelude::*;

verus! {

/// Trust status of a device record. Command execution requires `Trusted`.
#[derive(Clone, Copy, Debug, PartialEq, Eq, Structural)]
pub enum DeviceStatus {
    Pending,
    Trusted,
    Declined,
    Blocked,
}

/// Mathematical model of one device record.
pub struct DeviceModel {
    pub id: Seq<char>,
    pub name: Seq<char>,
    pub status: DeviceStatus,
    pub ip: Seq<char>,
    pub auto_reconnect: bool,
    pub is_mirroring: bool,
}

/// One device known to the registry.
#[derive(Debug)]
pub struct DeviceInfo {
    pub id: String,
    pub name: String,
    pub status: DeviceStatus,
    pub ip: String,
    pub auto_reconnect: bool,
    pub is_mirroring: bool,
}

impl View for DeviceInfo {
    type V = DeviceModel;

    open spec fn view(&self) -> DeviceModel {
        DeviceModel {
            id: self.id@,
            name: self.name@,
            status: self.status,
            ip: self.ip@,
            auto_reconnect: self.auto_reconnect,
            is_mirroring: self.is_mirroring,
        }
    }
}

impl Clone for DeviceInfo {
    fn clone(&self) -> (r: Self)
        ensures
            r@ == self@,
    {
        DeviceInfo {
            id: self.id.clone(),
            name: self.name.clone(),
            status: self.status,
            ip: self.ip.clone(),
            auto_reconnect: self.auto_reconnect,
            is_mirroring: self.is_mirroring,
        }
    }
}

/// Mathematical model of a stored mirror request.
pub struct PendingMirrorModel {
    pub device_id: Seq<char>,
    pub width: u32,
    pub height: u32,
    pub fps: u32,
    pub monitor: i32,
}

/// A mirror request awaiting operator approval. At most one exists.
#[derive(Debug)]
pub struct PendingMirror {
    pub device_id: String,
    pub width: u32,
    pub height: u32,
    pub fps: u32,
    pub monitor: i32,
}

impl View for PendingMirror {
    type V = PendingMirrorModel;

    open spec fn view(&self) -> PendingMirrorModel {
        PendingMirrorModel {
            device_id: self.device_id@,
            width: self.width,
            height: self.height,
            fps: self.fps,
            monitor: self.monitor,
        }
    }
}

/// Mathematical model of the session-state blob.
pub struct StateModel {
    pub devices: Seq<DeviceModel>,
    pub media_playing: bool,
    pub zoom_enabled: bool,
    pub auto_connect: bool,
    pub pending_mirror: Option<PendingMirrorModel>,
    pub mirroring_device: Option<Seq<char>>,
}

/// The process-wide state blob: device registry plus session flags, the
/// stored pending-mirror request and the single mirroring device.
pub struct AppState {
    pub devices: Vec<DeviceInfo>,
    pub media_playing: bool,
    pub zoom_enabled: bool,
    pub auto_connect: bool,
    pub pending_mirror: Option<PendingMirror>,
    pub mirroring_device: Option<String>,
}

impl View for AppState {
    type V = StateModel;

    open spec fn view(&self) -> StateModel {
        StateModel {
            devices: self.devices@.map_values(|d: DeviceInfo| d@),
            media_playing: self.media_playing,
            zoom_enabled: self.zoom_enabled,
            auto_connect: self.auto_connect,
            pending_mirror: match self.pending_mirror {
                Option::Some(p) => Option::Some(p@),
                Option::None => Option::None,
            },
            mirroring_device: match self.mirroring_device {
                Option::Some(s) => Option::Some(s@),
                Option::None => Option::None,
            },
        }
    }
}

/// Whether some record in `devs` has this id.
pub open spec fn contains_id(devs: Seq<DeviceModel>, id: Seq<char>) -> bool {
    exists|i: int| 0 <= i < devs.len() && devs[i].id == id
}

/// Whether some record has this IP with this status.
pub open spec fn ip_has_status(devs: Seq<DeviceModel>, ip: Seq<char>, st: DeviceStatus) -> bool {
    exists|i: int| 0 <= i < devs.len() && devs[i].ip == ip && devs[i].status == st
}

/// Whether some Trusted record has this IP: the trust gate of the broker.
pub open spec fn ip_trusted(devs: Seq<DeviceModel>, ip: Seq<char>) -> bool {
    ip_has_status(devs, ip, DeviceStatus::Trusted)
}

/// Device ids are unique: the registry is a mapping.
pub open spec fn ids_unique(devs: Seq<DeviceModel>) -> bool {
    forall|i: int, j: int|
        0 <= i < devs.len() && 0 <= j < devs.len() && i != j ==> devs[i].id != devs[j].id
}

/// `snap` reports the devices of `s`: the same records in the same order,
/// with `is_mirroring` set on exactly the mirroring device.
pub open spec fn snapshot_rel(s: StateModel, snap: Seq<DeviceModel>) -> bool {
    snap.len() == s.devices.len() && forall|i: int|
        0 <= i < snap.len() ==> {
            let d = s.devices[i];
            let r = #[trigger] snap[i];
            r.id == d.id && r.name == d.name && r.status == d.status && r.ip == d.ip
                && r.auto_reconnect == d.auto_reconnect && r.is_mirroring == (s.mirroring_device
                matches Option::Some(m) && m == d.id)
        }
}

/// Mirror exclusion: with unique device ids, at most one snapshot entry is
/// marked as mirroring. The state itself can hold at most one mirroring
/// device and at most one pending mirror request, as both are optional
/// single values.
pub proof fn lemma_mirror_exclusion(s: StateModel, snap: Seq<DeviceModel>)
    requires
        ids_unique(s.devices),
        snapshot_rel(s, snap),
    ensures
        forall|i: int, j: int|
            0 <= i < snap.len() && 0 <= j < snap.len() && #[trigger] snap[i].is_mirroring
                && #[trigger] snap[j].is_mirroring ==> i == j,
{
    assert forall|i: int, j: int|
        0 <= i < snap.len() && 0 <= j < snap.len() && #[trigger] snap[i].is_mirroring
            && #[trigger] snap[j].is_mirroring implies i == j by {
        if i != j {
            assert(s.devices[i].id == s.mirroring_device->Some_0);
            assert(s.devices[j].id == s.mirroring_device->Some_0);
            assert(s.devices[i].id != s.devices[j].id);
        }
    }
}

/// Compares two string slices by characters.
pub fn str_eq(a: &str, b: &str) -> (r: bool)
    ensures
        r == (a@ == b@),
{
    let alen = a.unicode_len();
    let blen = b.unicode_len();
    if alen != blen {
        assert(a@ != b@) by {
            assert(a@.len() != b@.len());
        }
        return false;
    }
    let mut i: usize = 0;
    while i < alen
        invariant
            i <= alen,
            alen == a@.len(),
            alen == b@.len(),
            forall|k: int| 0 <= k < i ==> a@[k] == b@[k],
        decreases alen - i,
    {
        if a.get_char(i) != b.get_char(i) {
            assert(a@ != b@);
            return false;
        }
        i = i + 1;
    }
    proof {
        assert(a@ =~= b@);
    }
    true
}

impl AppState {
    /// A registry with no devices and the startup flags: the state the broker
    /// boots with when no file is on disk.
    pub fn new_empty() -> (r: AppState)
        ensures
            r@.devices.len() == 0,
            r@.media_playing == false,
            r@.zoom_enabled == false,
            r@.auto_connect == true,
            r@.pending_mirror is None,
            r@.mirroring_device is None,
            r.wf(),
    {
        AppState {
            devices: Vec::new(),
            media_playing: false,
            zoom_enabled: false,
            auto_connect: true,
            pending_mirror: None,
            mirroring_device: None,
        }
    }

    /// Well-formedness: the registry is a mapping keyed by device id.
    pub open spec fn wf(&self) -> bool {
        ids_unique(self@.devices)
    }

    /// The index of the record with this id, if one exists.
    pub fn find_index(&self, id: &str) -> (r: Option<usize>)
        ensures
            r matches Some(i) ==> i < self@.devices.len() && self@.devices[i as int].id == id@,
            r is None ==> !contains_id(self@.devices, id@),
    {
        let mut i: usize = 0;
        while i < self.devices.len()
            invariant
                i <= self@.devices.len(),
                forall|k: int| 0 <= k < i ==> self@.devices[k].id != id@,
            decreases self@.devices.len() - i,
        {
            if str_eq(self.devices[i].id.as_str(), id) {
                return Some(i);
            }
            i = i + 1;
        }
        None
    }

    /// Inserts the record, or replaces the record with the same id.
    pub fn upsert(&mut self, rec: DeviceInfo)
        requires
            old(self).wf(),
        ensures
            final(self).wf(),
            contains_id(old(self)@.devices, rec@.id) ==> (
            final(self)@.devices.len() == old(self)@.devices.len() && exists|i: int|
                0 <= i < old(self)@.devices.len() && old(self)@.devices[i].id == rec@.id
                    && final(self)@.devices == old(self)@.devices.update(i, rec@)),
            !contains_id(old(self)@.devices, rec@.id) ==> final(self)@.devices == old(self)@.devices
                .push(rec@),
            final(self)@.media_playing == old(self)@.media_playing,
            final(self)@.zoom_enabled == old(self)@.zoom_enabled,
            final(self)@.auto_connect == old(self)@.auto_connect,
            final(self)@.pending_mirror == old(self)@.pending_mirror,
            final(self)@.mirroring_device == old(self)@.mirroring_device,
    {
        let idx = self.find_index(rec.id.as_str());
        match idx {
            Some(i) => {
                self.devices.set(i, rec);
                proof {
                    assert(final(self)@.devices =~= old(self)@.devices.update(i as int, rec@));
                }
            },
            None => {
                self.devices.push(rec);
                proof {
                    assert(final(self)@.devices =~= old(self)@.devices.push(rec@));
                }
            },
        }
    }

    /// Removes the record with this id, if one exists; order of the others
    /// is kept.
    pub fn remove_id(&mut self, id: &str)
        requires
            old(self).wf(),
        ensures
            final(self).wf(),
            !contains_id(final(self)@.devices, id@),
            contains_id(old(self)@.devices, id@) ==> exists|i: int|
                0 <= i < old(self)@.devices.len() && old(self)@.devices[i].id == id@
                    && final(self)@.devices == old(self)@.devices.remove(i),
            !contains_id(old(self)@.devices, id@) ==> final(self)@.devices == old(self)@.devices,
            final(self)@.media_playing == old(self)@.media_playing,
            final(self)@.zoom_enabled == old(self)@.zoom_enabled,
            final(self)@.auto_connect == old(self)@.auto_connect,
            final(self)@.pending_mirror == old(self)@.pending_mirror,
            final(self)@.mirroring_device == old(self)@.mirroring_device,
    {
        let idx = self.find_index(id);
        match idx {
            Some(i) => {
                self.devices.remove(i);
                proof {
                    assert(final(self)@.devices =~= old(self)@.devices.remove(i as int));
                    assert forall|k: int|
                        0 <= k < final(self)@.devices.len() implies final(self)@.devices[k].id
                        != id@ by {
                        if k < i {
                            assert(final(self)@.devices[k] == old(self)@.devices[k]);
                        } else {
                            assert(final(self)@.devices[k] == old(self)@.devices[k + 1]);
                        }
                    }
                }
            },
            None => {
                proof {
                    assert(final(self)@.devices =~= old(self)@.devices);
                }
            },
        }
    }

    /// Whether some record ties this IP to this status.
    pub fn any_ip_status(&self, ip: &str, st: DeviceStatus) -> (r: bool)
        ensures
            r == ip_has_status(self@.devices, ip@, st),
    {
        let mut i: usize = 0;
        while i < self.devices.len()
            invariant
                i <= self@.devices.len(),
                forall|k: int|
                    0 <= k < i ==> !(self@.devices[k].ip == ip@ && self@.devices[k].status == st),
            decreases self@.devices.len() - i,
        {
            if str_eq(self.devices[i].ip.as_str(), ip) && self.devices[i].status == st {
                assert(self@.devices[i as int].ip == ip@ && self@.devices[i as int].status == st);
                return true;
            }
            i = i + 1;
        }
        false
    }

    /// Whether a Trusted record ties this IP: the trust gate.
    pub fn is_ip_trusted(&self, ip: &str) -> (r: bool)
        ensures
            r == ip_trusted(self@.devices, ip@),
    {
        self.any_ip_status(ip, DeviceStatus::Trusted)
    }

    /// The first record with this IP, if one exists.
    pub fn find_by_ip(&self, ip: &str) -> (r: Option<usize>)
        ensures
            r matches Some(i) ==> i < self@.devices.len() && self@.devices[i as int].ip == ip@ && (
            forall|k: int| 0 <= k < i ==> self@.devices[k].ip != ip@),
            r is None ==> forall|k: int|
                0 <= k < self@.devices.len() ==> self@.devices[k].ip != ip@,
    {
        let mut i: usize = 0;
        while i < self.devices.len()
            invariant
                i <= self@.devices.len(),
                forall|k: int| 0 <= k < i ==> self@.devices[k].ip != ip@,
            decreases self@.devices.len() - i,
        {
            if str_eq(self.devices[i].ip.as_str(), ip) {
                return Some(i);
            }
            i = i + 1;
        }
        None
    }

    /// The devices as reported to clients: clones of the records with
    /// `is_mirroring` set on exactly the mirroring device.
    pub fn snapshot(&self) -> (r: Vec<DeviceInfo>)
        ensures
            snapshot_rel(self@, r@.map_values(|d: DeviceInfo| d@)),
    {
        let mut out: Vec<DeviceInfo> = Vec::new();
        let mut i: usize = 0;
        while i < self.devices.len()
            invariant
                i <= self@.devices.len(),
                out@.len() == i,
                forall|k: int|
                    0 <= k < i ==> {
                        let d = self@.devices[k];
                        let s = #[trigger] out@[k]@;
                        s.id == d.id && s.name == d.name && s.status == d.status && s.ip == d.ip
                            && s.auto_reconnect == d.auto_reconnect && s.is_mirroring == (
                        self@.mirroring_device matches Option::Some(m) && m == d.id)
                    },
            decreases self@.devices.len() - i,
        {
            let mut rec = self.devices[i].clone();
            rec.is_mirroring = match &self.mirroring_device {
                Some(m) => str_eq(m.as_str(), rec.id.as_str()),
                None => false,
            };
            out.push(rec);
            i = i + 1;
        }
        out
    }
}

} // verus!
