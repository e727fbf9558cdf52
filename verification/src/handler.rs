//! Event handler and authorisation state machine: interprets decoded client
//! messages against the device registry, mutates session state, and returns
//! the responses and side effects to perform. Messages outside the
//! pair/discovery/registration vocabulary from a non-Trusted peer are
//! silently dropped.
use vstd::prelude::*;
use crate::messages::ClientMessage;
use crate::messages::PairStatus;
use crate::messages::ServerMessage;
use crate::messages::in_open_vocabulary;
use crate::messages::is_raw_input;
use crate::messages::pair_status_of;
use crate::messages::pair_status_for;
use crate::pointer::PointerManager;
use crate::pointer::PointerUpdate;
use crate::pointer::monitor_datagram;
use crate::pointer::test_sequence_datagram;
use crate::pointer::build_monitor_datagram;
use crate::pointer::build_test_sequence_datagram;
use crate::registry::AppState;
use crate::registry::DeviceInfo;
use crate::registry::DeviceModel;
use crate::registry::DeviceStatus;
use crate::registry::PendingMirror;
use crate::registry::StateModel;
use crate::registry::contains_id;
use crate::registry::ids_unique;
use crate::registry::ip_trusted;
use crate::registry::str_eq;
use crate::types::StreamConfig;

verus! {

/// A transition the operator must see: shown as an OS notification or on a
/// dashboard.
#[derive(Debug)]
pub enum OperatorNotice {
    PairRequest { id: String, name: String },
    DevicePaired { name: String },
    MirrorRequest { id: String, name: String },
    AutoReconnect { id: String, name: String },
}

/// A side effect the broker asks its collaborators to perform. The handler
/// decides; the surrounding process executes.
#[derive(Debug)]
pub enum Effect {
    /// Send this message to the peer the event came from.
    Reply(ServerMessage),
    /// Enqueue this message on every connection with this IP.
    SendToIp(String, ServerMessage),
    /// Enqueue this message on every registered dashboard.
    BroadcastDashboards(ServerMessage),
    /// Latch the dashboard flag of the connection the event came from.
    MarkDashboard,
    /// Hand this transition to the operator.
    NotifyOperator(OperatorNotice),
    /// Forward this input event to the platform injector.
    Inject(ClientMessage),
    /// Hand this command to the media-player collaborator.
    MediaCommand(String),
    /// Fetch current media metadata and reply with a media-status message.
    FetchMediaStatus,
    /// Fetch the installed applications and reply with an apps list.
    FetchApps,
    /// Fetch the monitor layout and reply with a monitors list.
    FetchMonitors,
    /// Launch this command only if it names an installed application.
    VerifyAndLaunch(String),
    /// Send this datagram to the overlay sink.
    Overlay(String),
    /// Start the capture producer with these parameters.
    StartCapture(StreamConfig),
    /// Stop the capture producer. Idempotent.
    StopCapture,
    /// Persist the device registry.
    SaveRegistry,
    /// Hand the audio analyser a new sensitivity, in hundredths.
    SetAudioSensitivity(i32),
    /// Replace the shared pointer image with these bytes.
    WritePointerImage(Vec<u8>),
    /// Remove the shared pointer image.
    ClearPointerImage,
}

/// The status of the first record in order whose IP is this one and whose
/// status is Blocked or Declined, if any: such a record pre-empts pairing.
pub open spec fn first_bd_status(devs: Seq<DeviceModel>, ip: Seq<char>) -> Option<DeviceStatus>
    decreases devs.len(),
{
    if devs.len() == 0 {
        Option::None
    } else if devs[0].ip == ip && (devs[0].status == DeviceStatus::Blocked || devs[0].status
        == DeviceStatus::Declined) {
        Option::Some(devs[0].status)
    } else {
        first_bd_status(devs.drop_first(), ip)
    }
}

/// The index of the first record with this id.
pub open spec fn idx_of_id(devs: Seq<DeviceModel>, id: Seq<char>) -> int
    decreases devs.len(),
{
    if devs.len() == 0 {
        0
    } else if devs[0].id == id {
        0
    } else {
        1 + idx_of_id(devs.drop_first(), id)
    }
}

/// The first index with this id is a real index when the id is present, and
/// with unique ids it is the only one.
pub proof fn lemma_idx_of_id(devs: Seq<DeviceModel>, id: Seq<char>)
    requires
        contains_id(devs, id),
    ensures
        0 <= idx_of_id(devs, id) < devs.len(),
        devs[idx_of_id(devs, id)].id == id,
    decreases devs.len(),
{
    if devs.len() > 0 && devs[0].id != id {
        assert(contains_id(devs.drop_first(), id)) by {
            let i = choose|i: int| 0 <= i < devs.len() && devs[i].id == id;
            assert(devs.drop_first()[i - 1].id == id);
        }
        lemma_idx_of_id(devs.drop_first(), id);
    }
}

/// What one pair request does: how the registry changes, the status
/// answered, whether the operator is told, and whether the registry is
/// persisted.
pub struct PairOutcome {
    pub devices: Seq<DeviceModel>,
    pub status: PairStatus,
    pub notify: bool,
    pub save: bool,
}

/// The record a fresh pair request creates.
pub open spec fn fresh_device(
    id: Seq<char>,
    name: Seq<char>,
    ip: Seq<char>,
    auto_req: Option<bool>,
) -> DeviceModel {
    DeviceModel {
        id: id,
        name: name,
        status: DeviceStatus::Pending,
        ip: ip,
        auto_reconnect: match auto_req {
            Option::Some(a) => a,
            Option::None => false,
        },
        is_mirroring: false,
    }
}

/// The pair-request sub-machine, version check aside. A Blocked or Declined
/// record for the IP answers with that status and touches nothing. An
/// existing record takes the client's auto-reconnect preference; a Trusted
/// record with auto-reconnect off is downgraded to Pending for re-approval.
/// An unknown id gets a fresh Pending record. The operator is told exactly
/// when a record becomes Pending by this request.
pub open spec fn pair_outcome(
    devs: Seq<DeviceModel>,
    name: Seq<char>,
    id: Seq<char>,
    ip: Seq<char>,
    auto_req: Option<bool>,
) -> PairOutcome {
    if first_bd_status(devs, ip) is Some {
        PairOutcome {
            devices: devs,
            status: pair_status_of(first_bd_status(devs, ip)->Some_0),
            notify: false,
            save: false,
        }
    } else if contains_id(devs, id) {
        let i = idx_of_id(devs, id);
        let d1 = DeviceModel {
            auto_reconnect: match auto_req {
                Option::Some(a) => a,
                Option::None => devs[i].auto_reconnect,
            },
            ..devs[i]
        };
        if d1.status == DeviceStatus::Trusted && !d1.auto_reconnect {
            PairOutcome {
                devices: devs.update(i, DeviceModel { status: DeviceStatus::Pending, ..d1 }),
                status: PairStatus::Pending,
                notify: true,
                save: true,
            }
        } else {
            PairOutcome {
                devices: devs.update(i, d1),
                status: pair_status_of(d1.status),
                notify: false,
                save: auto_req is Some,
            }
        }
    } else {
        PairOutcome {
            devices: devs.push(fresh_device(id, name, ip, auto_req)),
            status: PairStatus::Pending,
            notify: true,
            save: true,
        }
    }
}

/// The first Blocked-or-Declined lookup sees only each record's IP and
/// status, so it is unchanged by updates that keep them.
proof fn lemma_first_bd_congruent(a: Seq<DeviceModel>, b: Seq<DeviceModel>, ip: Seq<char>)
    requires
        a.len() == b.len(),
        forall|k: int|
            0 <= k < a.len() ==> a[k].ip == b[k].ip && (a[k].status == b[k].status || (a[k].status
                != DeviceStatus::Blocked && a[k].status != DeviceStatus::Declined && b[k].status
                != DeviceStatus::Blocked && b[k].status != DeviceStatus::Declined)),
    ensures
        first_bd_status(a, ip) == first_bd_status(b, ip),
    decreases a.len(),
{
    if a.len() > 0 {
        assert(a.drop_first().len() == b.drop_first().len());
        assert forall|k: int| 0 <= k < a.drop_first().len() implies a.drop_first()[k].ip
            == b.drop_first()[k].ip && (a.drop_first()[k].status == b.drop_first()[k].status || (
        a.drop_first()[k].status != DeviceStatus::Blocked && a.drop_first()[k].status
            != DeviceStatus::Declined && b.drop_first()[k].status != DeviceStatus::Blocked
            && b.drop_first()[k].status != DeviceStatus::Declined)) by {
            assert(a.drop_first()[k] == a[k + 1]);
            assert(b.drop_first()[k] == b[k + 1]);
        }
        lemma_first_bd_congruent(a.drop_first(), b.drop_first(), ip);
    }
}

/// The first index of an id is stable under updates that keep every id.
proof fn lemma_idx_congruent(a: Seq<DeviceModel>, b: Seq<DeviceModel>, id: Seq<char>)
    requires
        a.len() == b.len(),
        forall|k: int| 0 <= k < a.len() ==> a[k].id == b[k].id,
    ensures
        idx_of_id(a, id) == idx_of_id(b, id),
    decreases a.len(),
{
    if a.len() > 0 && a[0].id != id {
        assert forall|k: int| 0 <= k < a.drop_first().len() implies a.drop_first()[k].id
            == b.drop_first()[k].id by {
            assert(a.drop_first()[k] == a[k + 1]);
            assert(b.drop_first()[k] == b[k + 1]);
        }
        lemma_idx_congruent(a.drop_first(), b.drop_first(), id);
    }
}

/// Pair idempotence: two pair requests with the same id, name and
/// preference from the same IP answer with the same status, and the second
/// leaves the registry exactly as the first did.
pub proof fn lemma_pair_idempotent(
    devs: Seq<DeviceModel>,
    name: Seq<char>,
    id: Seq<char>,
    ip: Seq<char>,
    auto_req: Option<bool>,
)
    requires
        ids_unique(devs),
    ensures
        !pair_outcome(
            pair_outcome(devs, name, id, ip, auto_req).devices,
            name,
            id,
            ip,
            auto_req,
        ).notify,
        pair_outcome(
            pair_outcome(devs, name, id, ip, auto_req).devices,
            name,
            id,
            ip,
            auto_req,
        ).devices == pair_outcome(devs, name, id, ip, auto_req).devices,
        pair_outcome(
            pair_outcome(devs, name, id, ip, auto_req).devices,
            name,
            id,
            ip,
            auto_req,
        ).status == pair_outcome(devs, name, id, ip, auto_req).status,
{
    let once = pair_outcome(devs, name, id, ip, auto_req);
    let d1s = once.devices;
    if first_bd_status(devs, ip) is Some {
        assert(d1s == devs);
    } else if contains_id(devs, id) {
        lemma_idx_of_id(devs, id);
        let i = idx_of_id(devs, id);
        let d1 = DeviceModel {
            auto_reconnect: match auto_req {
                Option::Some(a) => a,
                Option::None => devs[i].auto_reconnect,
            },
            ..devs[i]
        };
        let updated = if d1.status == DeviceStatus::Trusted && !d1.auto_reconnect {
            DeviceModel { status: DeviceStatus::Pending, ..d1 }
        } else {
            d1
        };
        assert(d1s == devs.update(i, updated));
        lemma_first_bd_congruent(d1s, devs, ip);
        assert(first_bd_status(d1s, ip) is None);
        assert(contains_id(d1s, id)) by {
            assert(d1s[i].id == id);
        }
        assert forall|k: int| 0 <= k < devs.len() implies d1s[k].id == devs[k].id by {}
        lemma_idx_congruent(d1s, devs, id);
        assert(idx_of_id(d1s, id) == i);
        let e1 = DeviceModel {
            auto_reconnect: match auto_req {
                Option::Some(a) => a,
                Option::None => d1s[i].auto_reconnect,
            },
            ..d1s[i]
        };
        assert(e1 == updated);
        if updated.status == DeviceStatus::Trusted && !updated.auto_reconnect {
            assert(d1.status == DeviceStatus::Trusted && !d1.auto_reconnect ==> updated.status
                == DeviceStatus::Pending);
            assert(false);
        }
        assert(pair_outcome(d1s, name, id, ip, auto_req).devices =~= d1s.update(i, e1));
        assert(d1s.update(i, e1) =~= d1s);
    } else {
        let fresh = fresh_device(id, name, ip, auto_req);
        assert(d1s == devs.push(fresh));
        assert(first_bd_status(d1s, ip) is None) by {
            lemma_first_bd_congruent_push(devs, fresh, ip);
        }
        assert(contains_id(d1s, id)) by {
            assert(d1s[devs.len() as int].id == id);
        }
        lemma_idx_of_id(d1s, id);
        let i = idx_of_id(d1s, id);
        assert(d1s[i].id == id);
        assert forall|k: int| 0 <= k < devs.len() implies devs[k].id != id by {
            assert(d1s[k] == devs[k]);
            if devs[k].id == id {
                assert(contains_id(devs, id)) by {
                    assert(devs[k].id == id);
                }
            }
        }
        assert(i == devs.len()) by {
            if i < devs.len() {
                assert(d1s[i] == devs[i]);
            }
        }
        let e1 = DeviceModel {
            auto_reconnect: match auto_req {
                Option::Some(a) => a,
                Option::None => d1s[i].auto_reconnect,
            },
            ..d1s[i]
        };
        assert(e1 == fresh);
        assert(pair_outcome(d1s, name, id, ip, auto_req).devices =~= d1s.update(i, e1));
        assert(d1s.update(i, e1) =~= d1s);
    }
}

/// A pushed record that is neither Blocked nor Declined does not change the
/// first Blocked-or-Declined lookup when it found nothing.
proof fn lemma_first_bd_congruent_push(devs: Seq<DeviceModel>, d: DeviceModel, ip: Seq<char>)
    requires
        first_bd_status(devs, ip) is None,
        d.status != DeviceStatus::Blocked,
        d.status != DeviceStatus::Declined,
    ensures
        first_bd_status(devs.push(d), ip) is None,
    decreases devs.len(),
{
    if devs.len() == 0 {
        assert(devs.push(d).len() == 1);
        assert(devs.push(d)[0] == d);
        assert(devs.push(d).drop_first() =~= Seq::<DeviceModel>::empty());
        assert(first_bd_status(devs.push(d).drop_first(), ip) is None);
    } else {
        assert(devs.push(d)[0] == devs[0]);
        assert(!(devs[0].ip == ip && (devs[0].status == DeviceStatus::Blocked || devs[0].status
            == DeviceStatus::Declined)));
        assert(first_bd_status(devs.drop_first(), ip) is None);
        assert(devs.push(d).drop_first() =~= devs.drop_first().push(d));
        lemma_first_bd_congruent_push(devs.drop_first(), d, ip);
        assert(first_bd_status(devs.drop_first().push(d), ip) is None);
    }
}

/// The index of the first `.` in `v`, or its length if it has none.
pub open spec fn dot_idx(v: Seq<char>) -> int
    decreases v.len(),
{
    if v.len() == 0 {
        0
    } else if v[0] == '.' {
        0
    } else {
        1 + dot_idx(v.drop_first())
    }
}

/// The major component of a version string: everything before its first
/// `.`.
pub open spec fn major_of(v: Seq<char>) -> Seq<char> {
    v.take(dot_idx(v))
}

/// Whether `p` is a prefix of `s`.
pub open spec fn is_prefix(p: Seq<char>, s: Seq<char>) -> bool {
    p.len() <= s.len() && s.take(p.len() as int) == p
}

/// A non-empty client version that does not start with the server's major
/// version is refused before any registry mutation.
pub open spec fn version_mismatch(server_version: Seq<char>, version: Seq<char>) -> bool {
    version.len() > 0 && !is_prefix(major_of(server_version), version)
}

/// The first-dot index is a real position.
proof fn lemma_dot_idx_bounds(v: Seq<char>)
    ensures
        0 <= dot_idx(v) <= v.len(),
    decreases v.len(),
{
    if v.len() > 0 && v[0] != '.' {
        lemma_dot_idx_bounds(v.drop_first());
    }
}

/// Whether `p` is a prefix of `s`, by characters.
pub fn str_starts_with(s: &str, p: &str) -> (r: bool)
    ensures
        r == is_prefix(p@, s@),
{
    let plen = p.unicode_len();
    let slen = s.unicode_len();
    if plen > slen {
        return false;
    }
    let mut i: usize = 0;
    while i < plen
        invariant
            i <= plen,
            plen == p@.len(),
            plen <= s@.len(),
            forall|k: int| 0 <= k < i ==> s@[k] == p@[k],
        decreases plen - i,
    {
        if s.get_char(i) != p.get_char(i) {
            assert(s@.take(plen as int)[i as int] != p@[i as int]);
            return false;
        }
        i = i + 1;
    }
    proof {
        assert(s@.take(plen as int) =~= p@);
    }
    true
}

/// Decides whether a client version is refused against this server
/// version.
pub fn check_version_mismatch(server_version: &str, version: &str) -> (r: bool)
    ensures
        r == version_mismatch(server_version@, version@),
{
    if version.unicode_len() == 0 {
        return false;
    }
    proof {
        lemma_dot_idx_bounds(server_version@);
    }
    let n = server_version.unicode_len();
    let mut d: usize = 0;
    while d < n && server_version.get_char(d) != '.'
        invariant
            d <= n,
            n == server_version@.len(),
            forall|k: int| 0 <= k < d ==> server_version@[k] != '.',
        decreases n - d,
    {
        d = d + 1;
    }
    proof {
        lemma_dot_idx_from_scan(server_version@, d as int);
    }
    let major = server_version.substring_char(0, d);
    !str_starts_with(version, major)
}

/// A scan that stops at the first dot finds the first-dot index.
proof fn lemma_dot_idx_from_scan(v: Seq<char>, d: int)
    requires
        0 <= d <= v.len(),
        forall|k: int| 0 <= k < d ==> v[k] != '.',
        d < v.len() ==> v[d] == '.',
    ensures
        dot_idx(v) == d,
    decreases v.len(),
{
    if v.len() > 0 && v[0] != '.' {
        assert(d >= 1);
        assert forall|k: int| 0 <= k < d - 1 implies v.drop_first()[k] != '.' by {
            assert(v.drop_first()[k] == v[k + 1]);
        }
        assert(d - 1 < v.drop_first().len() ==> v.drop_first()[d - 1] == '.');
        lemma_dot_idx_from_scan(v.drop_first(), d - 1);
    }
}

/// The session server's decision core: the persistent state blob, the
/// pointer manager, and the immutable server identity. All transitions of
/// the authorisation machine go through its methods.
pub struct ServerCore {
    pub state: AppState,
    pub pointers: PointerManager,
    pub server_name: String,
    pub server_version: String,
    pub fingerprint: String,
}

impl ServerCore {
    /// Both registries are well-formed.
    pub open spec fn wf(&self) -> bool {
        self.state.wf() && self.pointers.wf()
    }

    /// The state fields the identity never changes.
    pub open spec fn same_identity(&self, other: &ServerCore) -> bool {
        self.server_name@ == other.server_name@ && self.server_version@ == other.server_version@
            && self.fingerprint@ == other.fingerprint@
    }

    /// A core around a loaded state and the server identity.
    pub fn new(
        state: AppState,
        server_name: String,
        server_version: String,
        fingerprint: String,
    ) -> (r: ServerCore)
        requires
            state.wf(),
        ensures
            r.wf(),
            r.state@ == state@,
            r.pointers@.len() == 0,
            r.server_name@ == server_name@,
            r.server_version@ == server_version@,
            r.fingerprint@ == fingerprint@,
    {
        ServerCore {
            state,
            pointers: PointerManager::new(),
            server_name,
            server_version,
            fingerprint,
        }
    }

    /// The pair response for a decided status.
    fn pair_reply(&self, status: PairStatus) -> (r: Effect)
        ensures
            r matches Effect::Reply(m) && (m matches ServerMessage::PairResponse {
                status: st,
                server_version: sv,
                server_name: sn,
                fingerprint: fp,
            } && st == status && sv@ == self.server_version@ && sn@ == self.server_name@ && (
            fp matches Some(f) && f@ == self.fingerprint@)),
    {
        Effect::Reply(
            ServerMessage::PairResponse {
                status,
                server_version: self.server_version.clone(),
                server_name: self.server_name.clone(),
                fingerprint: Some(self.fingerprint.clone()),
            },
        )
    }

    /// The status of the first Blocked or Declined record for this IP.
    fn first_bd(&self, ip: &str) -> (r: Option<DeviceStatus>)
        ensures
            r == first_bd_status(self.state@.devices, ip@),
    {
        let mut i: usize = 0;
        proof {
            assert(self.state@.devices.skip(0) =~= self.state@.devices);
        }
        while i < self.state.devices.len()
            invariant
                i <= self.state@.devices.len(),
                first_bd_status(self.state@.devices, ip@) == first_bd_status(
                    self.state@.devices.skip(i as int),
                    ip@,
                ),
            decreases self.state@.devices.len() - i,
        {
            let ghost rest = self.state@.devices.skip(i as int);
            assert(rest[0] == self.state@.devices[i as int]);
            let d = &self.state.devices[i];
            if str_eq(d.ip.as_str(), ip) && (matches!(d.status, DeviceStatus::Blocked) || matches!(
                d.status,
                DeviceStatus::Declined,
            )) {
                return Some(d.status);
            }
            i = i + 1;
            proof {
                assert(rest.drop_first() =~= self.state@.devices.skip(i as int));
            }
        }
        proof {
            assert(self.state@.devices.skip(i as int) =~= Seq::<DeviceModel>::empty());
        }
        None
    }

    /// Handles a pair request. A mismatched version is refused before any
    /// registry mutation; otherwise the registry moves as the pair
    /// sub-machine says, the operator is told of a new Pending record, and
    /// the peer gets the decided status with the server identity and
    /// fingerprint.
    pub fn handle_pair_request(
        &mut self,
        device_name: String,
        id: String,
        version: &str,
        auto_req: Option<bool>,
        device_ip: &str,
    ) -> (r: Vec<Effect>)
        requires
            old(self).wf(),
        ensures
            pair_request_post(
                *old(self),
                *final(self),
                r@,
                device_name@,
                id@,
                version@,
                auto_req,
                device_ip@,
            ),
    {
        if check_version_mismatch(self.server_version.as_str(), version) {
            proof {
                reveal_strlit("Update required! Server is v");
                reveal_strlit(".");
            }
            let mut notice = String::from_str("Update required! Server is v");
            notice.append(self.server_version.as_str());
            notice.append(".");
            let mut out: Vec<Effect> = Vec::new();
            out.push(
                Effect::Reply(
                    ServerMessage::PairResponse {
                        status: PairStatus::VersionMismatch,
                        server_version: self.server_version.clone(),
                        server_name: notice,
                        fingerprint: Some(self.fingerprint.clone()),
                    },
                ),
            );
            return out;
        }
        let ghost o = pair_outcome(
            self.state@.devices,
            device_name@,
            id@,
            device_ip@,
            auto_req,
        );
        let mut out: Vec<Effect> = Vec::new();
        let bd = self.first_bd(device_ip);
        let status: PairStatus = match bd {
            Some(st) => pair_status_for(st),
            None => {
                let idx = self.state.find_index(id.as_str());
                match idx {
                    Some(i) => {
                        proof {
                            lemma_idx_of_id(self.state@.devices, id@);
                            lemma_idx_unique(self.state@.devices, id@, i as int);
                        }
                        let auto_now: bool = match auto_req {
                            Some(a) => a,
                            None => self.state.devices[i].auto_reconnect,
                        };
                        let downgrade = matches!(
                            self.state.devices[i].status,
                            DeviceStatus::Trusted,
                        ) && !auto_now;
                        let st_now = self.state.devices[i].status;
                        {
                            let rec = &mut self.state.devices[i];
                            rec.auto_reconnect = auto_now;
                            if downgrade {
                                rec.status = DeviceStatus::Pending;
                            }
                        }
                        proof {
                            assert(self.state@.devices =~= o.devices);
                        }
                        if downgrade || auto_req.is_some() {
                            out.push(Effect::SaveRegistry);
                        }
                        if downgrade {
                            out.push(
                                Effect::NotifyOperator(
                                    OperatorNotice::PairRequest {
                                        id: id.clone(),
                                        name: device_name.clone(),
                                    },
                                ),
                            );
                            PairStatus::Pending
                        } else {
                            pair_status_for(st_now)
                        }
                    },
                    None => {
                        let fresh = DeviceInfo {
                            id: id.clone(),
                            name: device_name.clone(),
                            status: DeviceStatus::Pending,
                            ip: String::from_str(device_ip),
                            auto_reconnect: match auto_req {
                                Some(a) => a,
                                None => false,
                            },
                            is_mirroring: false,
                        };
                        self.state.devices.push(fresh);
                        proof {
                            assert(self.state@.devices =~= o.devices);
                            assert forall|a: int, b: int|
                                0 <= a < self.state@.devices.len() && 0 <= b
                                    < self.state@.devices.len() && a != b implies self.state@
                                .devices[a].id != self.state@.devices[b].id by {
                                let n = old(self).state@.devices.len() as int;
                                if a < n && b < n {
                                } else if a < n {
                                    assert(old(self).state@.devices[a].id != id@);
                                } else if b < n {
                                    assert(old(self).state@.devices[b].id != id@);
                                }
                            }
                        }
                        out.push(Effect::SaveRegistry);
                        out.push(
                            Effect::NotifyOperator(
                                OperatorNotice::PairRequest {
                                    id: id.clone(),
                                    name: device_name.clone(),
                                },
                            ),
                        );
                        PairStatus::Pending
                    },
                }
            },
        };
        let reply = self.pair_reply(status);
        out.push(reply);
        out
    }
}

/// The registry with the record at `i` given a new status.
pub open spec fn with_status(devs: Seq<DeviceModel>, i: int, st: DeviceStatus) -> Seq<
    DeviceModel,
> {
    devs.update(i, DeviceModel { status: st, ..devs[i] })
}

/// The registry with the record at `i` given a new auto-reconnect flag.
pub open spec fn with_auto(devs: Seq<DeviceModel>, i: int, auto: bool) -> Seq<DeviceModel> {
    devs.update(i, DeviceModel { auto_reconnect: auto, ..devs[i] })
}


/// What a pair request leaves behind and answers. A mismatched version is
/// refused with the full upgrade notice before any registry mutation;
/// otherwise the registry moves as the pair sub-machine says, the operator
/// is told of a new Pending record, and the peer gets the decided status
/// with the server identity and fingerprint.
pub open spec fn pair_request_post(
    pre: ServerCore,
    post: ServerCore,
    r: Seq<Effect>,
    name: Seq<char>,
    id: Seq<char>,
    version: Seq<char>,
    auto_req: Option<bool>,
    ip: Seq<char>,
) -> bool {
    &&& post.wf()
    &&& pre.same_identity(&post)
    &&& (version_mismatch(pre.server_version@, version) ==> (post.state@ == pre.state@
        && post.pointers@ == pre.pointers@ && r.len() == 1 && (r[0] matches Effect::Reply(m) && (m
        matches ServerMessage::PairResponse {
        status: st,
        server_version: sv,
        server_name: sn,
        fingerprint: fp,
    } && st == PairStatus::VersionMismatch && sv@ == pre.server_version@ && sn@
        == "Update required! Server is v"@ + pre.server_version@ + "."@ && (fp matches Some(f)
        && f@ == pre.fingerprint@)))))
    &&& (!version_mismatch(pre.server_version@, version) ==> ({
        let o = pair_outcome(pre.state@.devices, name, id, ip, auto_req);
        let nsave: int = if o.save {
            1
        } else {
            0
        };
        let nnotify: int = if o.notify {
            1
        } else {
            0
        };
        &&& post.state@.devices == o.devices
        &&& post.state@.media_playing == pre.state@.media_playing
        &&& post.state@.zoom_enabled == pre.state@.zoom_enabled
        &&& post.state@.auto_connect == pre.state@.auto_connect
        &&& post.state@.pending_mirror == pre.state@.pending_mirror
        &&& post.state@.mirroring_device == pre.state@.mirroring_device
        &&& post.pointers@ == pre.pointers@
        &&& r.len() == nsave + nnotify + 1
        &&& (o.save ==> r[0] is SaveRegistry)
        &&& (o.notify ==> (r[nsave] matches Effect::NotifyOperator(
            OperatorNotice::PairRequest { id: nid, name: nname },
        ) && nid@ == id && nname@ == name))
        &&& (r.last() matches Effect::Reply(m) && (m matches ServerMessage::PairResponse {
            status: st,
            server_version: sv,
            server_name: sn,
            fingerprint: fp,
        } && st == o.status && sv@ == pre.server_version@ && sn@ == pre.server_name@ && (fp
            matches Some(f) && f@ == pre.fingerprint@)))
    }))
}

/// The state fields an approval never touches, and what it does to the
/// record and the peer when the id is known.
pub open spec fn approve_device_post(
    pre: ServerCore,
    post: ServerCore,
    r: Seq<Effect>,
    id: Seq<char>,
) -> bool {
    &&& post.wf()
    &&& pre.same_identity(&post)
    &&& post.pointers@ == pre.pointers@
    &&& post.state@.media_playing == pre.state@.media_playing
    &&& post.state@.zoom_enabled == pre.state@.zoom_enabled
    &&& post.state@.auto_connect == pre.state@.auto_connect
    &&& post.state@.pending_mirror == pre.state@.pending_mirror
    &&& post.state@.mirroring_device == pre.state@.mirroring_device
    &&& (!contains_id(pre.state@.devices, id) ==> post.state@ == pre.state@ && r.len() == 0)
    &&& (contains_id(pre.state@.devices, id) ==> ({
        let i = idx_of_id(pre.state@.devices, id);
        let d = pre.state@.devices[i];
        &&& post.state@.devices == with_status(pre.state@.devices, i, DeviceStatus::Trusted)
        &&& r.len() == 3
        &&& (r[0] is SaveRegistry)
        &&& (r[1] matches Effect::NotifyOperator(OperatorNotice::DevicePaired { name }) && name@
            == d.name)
        &&& (r[2] matches Effect::SendToIp(ip, ServerMessage::SecurityUpdate { status }) && ip@
            == d.ip && status == DeviceStatus::Trusted)
    }))
}

/// What declining or blocking does: the known record takes the status and
/// is persisted, the peer is told, and the mirror session ends exactly when
/// that device was mirroring.
pub open spec fn demote_device_post(
    pre: ServerCore,
    post: ServerCore,
    r: Seq<Effect>,
    id: Seq<char>,
    st: DeviceStatus,
) -> bool {
    &&& post.wf()
    &&& pre.same_identity(&post)
    &&& post.pointers@ == pre.pointers@
    &&& post.state@.media_playing == pre.state@.media_playing
    &&& post.state@.zoom_enabled == pre.state@.zoom_enabled
    &&& post.state@.auto_connect == pre.state@.auto_connect
    &&& post.state@.pending_mirror == pre.state@.pending_mirror
    &&& post.state@.mirroring_device == (if pre.state@.mirroring_device matches Some(m) && m == id {
        Option::<Seq<char>>::None
    } else {
        pre.state@.mirroring_device
    })
    &&& ({
        let was_mirroring = pre.state@.mirroring_device matches Some(m) && m == id;
        let known = contains_id(pre.state@.devices, id);
        let i = idx_of_id(pre.state@.devices, id);
        let d = pre.state@.devices[i];
        &&& (known ==> post.state@.devices == with_status(pre.state@.devices, i, st))
        &&& (!known ==> post.state@.devices == pre.state@.devices)
        &&& r.len() == (if known {
            2int
        } else {
            0
        }) + (if was_mirroring {
            1int
        } else {
            0
        })
        &&& (known ==> (r[0] is SaveRegistry) && (r[1] matches Effect::SendToIp(
            ip,
            ServerMessage::SecurityUpdate { status },
        ) && ip@ == d.ip && status == st))
        &&& (was_mirroring ==> r.last() is StopCapture)
    })
}

/// What unblocking does: the record, if any, is removed and the registry
/// persisted; everything else is kept.
pub open spec fn unblock_device_post(
    pre: ServerCore,
    post: ServerCore,
    r: Seq<Effect>,
    id: Seq<char>,
) -> bool {
    &&& post.wf()
    &&& pre.same_identity(&post)
    &&& post.pointers@ == pre.pointers@
    &&& post.state@.media_playing == pre.state@.media_playing
    &&& post.state@.zoom_enabled == pre.state@.zoom_enabled
    &&& post.state@.auto_connect == pre.state@.auto_connect
    &&& post.state@.pending_mirror == pre.state@.pending_mirror
    &&& post.state@.mirroring_device == pre.state@.mirroring_device
    &&& !contains_id(post.state@.devices, id)
    &&& (contains_id(pre.state@.devices, id) ==> exists|i: int|
        0 <= i < pre.state@.devices.len() && pre.state@.devices[i].id == id && post.state@.devices
            == pre.state@.devices.remove(i))
    &&& (!contains_id(pre.state@.devices, id) ==> post.state@.devices == pre.state@.devices)
    &&& r.len() == 1 && (r[0] is SaveRegistry)
}

/// The discovery answer: nothing changes and the one reply carries the
/// server name and fingerprint.
pub open spec fn discovery_post(pre: ServerCore, post: ServerCore, r: Seq<Effect>) -> bool {
    &&& post.wf()
    &&& pre.same_identity(&post)
    &&& post.state@ == pre.state@
    &&& post.pointers@ == pre.pointers@
    &&& r.len() == 1
    &&& (r[0] matches Effect::Reply(m) && (m matches ServerMessage::DiscoveryResponse {
        server_name,
        fingerprint,
    } && server_name@ == pre.server_name@ && (fingerprint matches Some(f) && f@
        == pre.fingerprint@)))
}

/// The status answer: nothing changes and the one reply carries a complete
/// snapshot of the registry, the mirroring device marked, and the zoom flag.
pub open spec fn get_status_post(pre: ServerCore, post: ServerCore, r: Seq<Effect>) -> bool {
    &&& post.wf()
    &&& pre.same_identity(&post)
    &&& post.state@ == pre.state@
    &&& post.pointers@ == pre.pointers@
    &&& r.len() == 1
    &&& (r[0] matches Effect::Reply(m) && (m matches ServerMessage::StatusResponse {
        devices,
        zoom_enabled,
    } && crate::registry::snapshot_rel(pre.state@, devices@.map_values(|d: DeviceInfo| d@))
        && zoom_enabled == pre.state@.zoom_enabled))
}

/// What setting the zoom flag does: the flag is written and persisted, and
/// the overlay is told to start capturing exactly when a tracked pointer of
/// this peer was enabled.
pub open spec fn set_zoom_enabled_post(
    pre: ServerCore,
    post: ServerCore,
    r: Seq<Effect>,
    ip: Seq<char>,
    enabled: bool,
) -> bool {
    &&& post.wf()
    &&& pre.same_identity(&post)
    &&& post.state@ == (StateModel { zoom_enabled: enabled, ..pre.state@ })
    &&& r.len() >= 1 && (r[0] is SaveRegistry)
    &&& r.len() <= 2
    &&& (r.len() == 2 ==> (r[1] matches Effect::Overlay(s) && s@
        == crate::pointer::start_capture_datagram(ip) && enabled))
}

/// What setting the auto-connect flag does: written and persisted.
pub open spec fn set_auto_connect_post(
    pre: ServerCore,
    post: ServerCore,
    r: Seq<Effect>,
    enabled: bool,
) -> bool {
    &&& post.wf()
    &&& pre.same_identity(&post)
    &&& post.pointers@ == pre.pointers@
    &&& post.state@ == (StateModel { auto_connect: enabled, ..pre.state@ })
    &&& r.len() == 1 && (r[0] is SaveRegistry)
}

/// What setting a device's auto-reconnect flag does: written and persisted
/// when the id is known, nothing otherwise.
pub open spec fn set_device_auto_post(
    pre: ServerCore,
    post: ServerCore,
    r: Seq<Effect>,
    id: Seq<char>,
    enabled: bool,
) -> bool {
    &&& post.wf()
    &&& pre.same_identity(&post)
    &&& post.pointers@ == pre.pointers@
    &&& post.state@.media_playing == pre.state@.media_playing
    &&& post.state@.zoom_enabled == pre.state@.zoom_enabled
    &&& post.state@.auto_connect == pre.state@.auto_connect
    &&& post.state@.pending_mirror == pre.state@.pending_mirror
    &&& post.state@.mirroring_device == pre.state@.mirroring_device
    &&& (contains_id(pre.state@.devices, id) ==> (post.state@.devices == with_auto(
        pre.state@.devices,
        idx_of_id(pre.state@.devices, id),
        enabled,
    ) && r.len() == 1 && (r[0] is SaveRegistry)))
    &&& (!contains_id(pre.state@.devices, id) ==> post.state@ == pre.state@ && r.len() == 0)
}

/// What a PC-initiated mirror stop does: the mirroring device is cleared,
/// the capture stops, and the id's peer is told when the id is known.
pub open spec fn pc_stop_mirroring_post(
    pre: ServerCore,
    post: ServerCore,
    r: Seq<Effect>,
    id: Seq<char>,
) -> bool {
    &&& post.wf()
    &&& pre.same_identity(&post)
    &&& post.pointers@ == pre.pointers@
    &&& post.state@ == (StateModel { mirroring_device: Option::None, ..pre.state@ })
    &&& (contains_id(pre.state@.devices, id) ==> (r.len() == 2 && (r[0]
        matches Effect::SendToIp(ip, ServerMessage::StopMirroring) && ip@ == pre.state@.devices[
    idx_of_id(pre.state@.devices, id)].ip) && (r[1] is StopCapture)))
    &&& (!contains_id(pre.state@.devices, id) ==> (r.len() == 1 && (r[0] is StopCapture)))
}

/// What an auto-reconnect request does: the dashboards and the operator are
/// told, with the record's name or the fallback; nothing changes.
pub open spec fn request_auto_reconnect_post(
    pre: ServerCore,
    post: ServerCore,
    r: Seq<Effect>,
    id: Seq<char>,
) -> bool {
    &&& post.wf()
    &&& pre.same_identity(&post)
    &&& post.state@ == pre.state@
    &&& post.pointers@ == pre.pointers@
    &&& r.len() == 2
    &&& ({
        let known = contains_id(pre.state@.devices, id);
        let dname = if known {
            pre.state@.devices[idx_of_id(pre.state@.devices, id)].name
        } else {
            "Unknown Device"@
        };
        &&& (r[0] matches Effect::BroadcastDashboards(
            ServerMessage::AutoReconnectRequest { device_id, device_name },
        ) && device_id@ == id && device_name@ == dname)
        &&& (r[1] matches Effect::NotifyOperator(
            OperatorNotice::AutoReconnect { id: nid, name: nname },
        ) && nid@ == id && nname@ == dname)
    })
}

/// What the operator's mirror answer does: acceptance with a stored request
/// for this device starts the capture with the stored parameters, tells the
/// peer and records the device as mirroring; refusal clears the stored
/// request and tells the peer; an unknown id does nothing.
pub open spec fn mirror_response_post(
    pre: ServerCore,
    post: ServerCore,
    r: Seq<Effect>,
    device_id: Seq<char>,
    accepted: bool,
) -> bool {
    &&& post.wf()
    &&& pre.same_identity(&post)
    &&& post.pointers@ == pre.pointers@
    &&& post.state@.devices == pre.state@.devices
    &&& post.state@.media_playing == pre.state@.media_playing
    &&& post.state@.zoom_enabled == pre.state@.zoom_enabled
    &&& post.state@.auto_connect == pre.state@.auto_connect
    &&& (!contains_id(pre.state@.devices, device_id) ==> post.state@ == pre.state@ && r.len()
        == 0)
    &&& ({
        let known = contains_id(pre.state@.devices, device_id);
        let ip = pre.state@.devices[idx_of_id(pre.state@.devices, device_id)].ip;
        let pending_for_id = pre.state@.pending_mirror matches Some(p) && p.device_id
            == device_id;
        &&& (known && accepted && pending_for_id ==> ({
            let p = pre.state@.pending_mirror->Some_0;
            &&& post.state@.pending_mirror is None
            &&& (post.state@.mirroring_device matches Some(m) && m == device_id)
            &&& r.len() == 3
            &&& (r[0] matches Effect::SendToIp(tip, ServerMessage::MirrorStatus {
                allowed,
                message,
            }) && tip@ == ip && allowed && message@ == "Access granted by PC"@)
            &&& (r[1] matches Effect::Overlay(s) && s@ == monitor_datagram(ip, p.monitor as int))
            &&& (r[2] matches Effect::StartCapture(cfg) && cfg.width == p.width && cfg.height
                == p.height && cfg.fps == p.fps && cfg.monitor == p.monitor)
        }))
        &&& (known && accepted && !pending_for_id ==> post.state@ == pre.state@ && r.len() == 0)
        &&& (known && !accepted ==> ({
            &&& post.state@.pending_mirror is None
            &&& post.state@.mirroring_device == pre.state@.mirroring_device
            &&& r.len() == 1
            &&& (r[0] matches Effect::SendToIp(tip, ServerMessage::MirrorStatus {
                allowed,
                message,
            }) && tip@ == ip && !allowed && message@ == "Mirroring request declined by PC"@)
        }))
    })
}

/// What an input or control message from a Trusted peer does, message kind
/// by message kind: each arm delegates to a collaborator or to the pointer
/// manager, raw input goes to the injector unchanged, and only mirroring
/// messages touch the state blob.
pub open spec fn trusted_event_post(
    pre: ServerCore,
    post: ServerCore,
    r: Seq<Effect>,
    msg: ClientMessage,
    device_ip: Seq<char>,
) -> bool {
    &&& post.wf()
    &&& pre.same_identity(&post)
    &&& (is_raw_input(msg) ==> (pre.same_state(&post) && r.len() == 1 && (r[0]
        matches Effect::Inject(m) && m == msg)))
    &&& (msg matches ClientMessage::MediaControl { action } ==> (pre.same_state(&post) && r.len()
        == 1 && (r[0] matches Effect::MediaCommand(a) && a@ == action@)))
    &&& (msg is MediaGetStatus ==> (pre.same_state(&post) && r.len() == 1 && (
    r[0] is FetchMediaStatus)))
    &&& (msg is TestOverlaySequence ==> (pre.same_state(&post) && r.len() == 1 && (r[0]
        matches Effect::Overlay(s) && s@ == test_sequence_datagram(device_ip))))
    &&& (msg matches ClientMessage::PresentationControl { action } ==> (pre.same_state(&post) && (
    action@ == "prev"@ ==> r.len() == 1 && (r[0] matches Effect::Inject(
        ClientMessage::KeyPress { key },
    ) && key@ == "PageUp"@)) && (action@ == "next"@ ==> r.len() == 1 && (r[0]
        matches Effect::Inject(ClientMessage::KeyPress { key }) && key@ == "PageDown"@)) && (
    action@ != "prev"@ && action@ != "next"@ ==> r.len() == 0)))
    &&& (msg matches ClientMessage::SetPointerMonitor { monitor } ==> (pre.same_state(&post)
        && r.len() == 1 && (r[0] matches Effect::Overlay(s) && s@ == monitor_datagram(
        device_ip,
        monitor as int,
    ))))
    &&& (msg matches ClientMessage::LaunchApp { command } ==> (pre.same_state(&post) && r.len()
        == 1 && (r[0] matches Effect::VerifyAndLaunch(c) && c@ == command@)))
    &&& (msg is GetApps ==> (pre.same_state(&post) && r.len() == 1 && (r[0] is FetchApps)))
    &&& (msg is GetMonitors ==> (pre.same_state(&post) && r.len() == 1 && (
    r[0] is FetchMonitors)))
    &&& (msg matches ClientMessage::SetAudioSensitivity { value_c } ==> (pre.same_state(&post)
        && r.len() == 1 && (r[0] matches Effect::SetAudioSensitivity(v) && v == value_c)))
    &&& (msg is Discovery ==> discovery_post(pre, post, r))
    &&& (msg matches ClientMessage::SetZoomEnabled { enabled } ==> set_zoom_enabled_post(
        pre,
        post,
        r,
        device_ip,
        enabled,
    ))
    &&& (msg matches ClientMessage::StartMirroring { width, height, fps, monitor } ==> ({
        let did = mirror_requester_id(pre.state@.devices, device_ip);
        let dname = mirror_requester_name(pre.state@.devices, device_ip);
        &&& post.pointers@ == pre.pointers@
        &&& post.state@.devices == pre.state@.devices
        &&& post.state@.media_playing == pre.state@.media_playing
        &&& post.state@.zoom_enabled == pre.state@.zoom_enabled
        &&& post.state@.auto_connect == pre.state@.auto_connect
        &&& post.state@.mirroring_device == pre.state@.mirroring_device
        &&& (post.state@.pending_mirror matches Some(p) && p.device_id == did && p.width == width
            && p.height == height && p.fps == fps && p.monitor == monitor)
        &&& r.len() == 2
        &&& (r[0] matches Effect::BroadcastDashboards(ServerMessage::MirrorRequest {
            device_id,
            device_name,
        }) && device_id@ == did && device_name@ == dname)
        &&& (r[1] matches Effect::NotifyOperator(OperatorNotice::MirrorRequest { id, name }) && id@
            == did && name@ == dname)
    }))
    &&& (msg is StopMirroring ==> (post.pointers@ == pre.pointers@ && post.state@ == (StateModel {
        mirroring_device: Option::None,
        ..pre.state@
    }) && r.len() == 1 && (r[0] is StopCapture)))
    &&& (msg matches ClientMessage::PointerImage { data } ==> (pre.same_state(&post) && (data@.len()
        == 0 ==> r.len() == 2 && (r[0] is ClearPointerImage) && (r[1] matches Effect::Overlay(s)
        && s@ == "CLEAR_IMAGE"@)) && (data@.len() > 0 && (crate::outside::base64_decode_of(data@)
        matches Some(b) && b.len() <= crate::outside::MAX_POINTER_IMAGE_LEN) ==> r.len() == 2 && (
    r[0] matches Effect::WritePointerImage(v) && v@ == crate::outside::base64_decode_of(
        data@,
    )->Some_0) && (r[1] matches Effect::Overlay(s) && s@ == "RELOAD_IMAGE"@)) && (data@.len() > 0
        && !(crate::outside::base64_decode_of(data@) matches Some(b) && b.len()
        <= crate::outside::MAX_POINTER_IMAGE_LEN) ==> r.len() == 0)))
    &&& (msg matches ClientMessage::PointerData {
        active,
        mode,
        pitch_e4,
        roll_e4,
        size_c,
        color,
        zoom_c,
        particle,
        stretch_c,
        has_image,
        pulse_speed_c,
        pulse_intensity_c,
    } ==> ({
        let u = PointerUpdate {
            active,
            mode,
            pitch_e4,
            roll_e4,
            size_c,
            color,
            zoom_c,
            particle,
            stretch_c,
            has_image,
            pulse_speed_c,
            pulse_intensity_c,
        };
        let known = exists|i: int|
            0 <= i < pre.pointers@.len() && pre.pointers@[i].device_id == device_ip;
        let dgs = if known {
            crate::pointer::update_datagrams(
                Some(
                    pre.pointers@[choose|i: int|
                        0 <= i < pre.pointers@.len() && pre.pointers@[i].device_id == device_ip],
                ),
                device_ip,
                u,
            )
        } else {
            crate::pointer::update_datagrams(None, device_ip, u)
        };
        &&& post.state@ == pre.state@
        &&& r.len() == dgs.len()
        &&& (forall|k: int|
            0 <= k < r.len() ==> (#[trigger] r[k] matches Effect::Overlay(s) && s@ == dgs[k]))
    }))
}

impl ServerCore {
    /// Updates the status of the record at a found index and proves the
    /// registry stays well-formed.
    fn set_status_at(&mut self, i: usize, st: DeviceStatus)
        requires
            old(self).wf(),
            i < old(self).state@.devices.len(),
        ensures
            final(self).wf(),
            old(self).same_identity(final(self)),
            final(self).pointers@ == old(self).pointers@,
            final(self).state@.devices == with_status(old(self).state@.devices, i as int, st),
            final(self).state@.media_playing == old(self).state@.media_playing,
            final(self).state@.zoom_enabled == old(self).state@.zoom_enabled,
            final(self).state@.auto_connect == old(self).state@.auto_connect,
            final(self).state@.pending_mirror == old(self).state@.pending_mirror,
            final(self).state@.mirroring_device == old(self).state@.mirroring_device,
    {
        let rec = &mut self.state.devices[i];
        rec.status = st;
        proof {
            assert(self.state@.devices =~= with_status(old(self).state@.devices, i as int, st));
        }
    }

    /// Updates the auto-reconnect flag of the record at a found index.
    fn set_auto_at(&mut self, i: usize, auto: bool)
        requires
            old(self).wf(),
            i < old(self).state@.devices.len(),
        ensures
            final(self).wf(),
            old(self).same_identity(final(self)),
            final(self).pointers@ == old(self).pointers@,
            final(self).state@.devices == with_auto(old(self).state@.devices, i as int, auto),
            final(self).state@.media_playing == old(self).state@.media_playing,
            final(self).state@.zoom_enabled == old(self).state@.zoom_enabled,
            final(self).state@.auto_connect == old(self).state@.auto_connect,
            final(self).state@.pending_mirror == old(self).state@.pending_mirror,
            final(self).state@.mirroring_device == old(self).state@.mirroring_device,
    {
        let rec = &mut self.state.devices[i];
        rec.auto_reconnect = auto;
        proof {
            assert(self.state@.devices =~= with_auto(old(self).state@.devices, i as int, auto));
        }
    }

    /// Whether the mirroring device is this id; clears it if so. Returns
    /// whether the capture producer must stop.
    fn clear_mirroring_if(&mut self, id: &str) -> (r: bool)
        requires
            old(self).wf(),
        ensures
            final(self).wf(),
            old(self).same_identity(final(self)),
            final(self).pointers@ == old(self).pointers@,
            final(self).state@.devices == old(self).state@.devices,
            final(self).state@.media_playing == old(self).state@.media_playing,
            final(self).state@.zoom_enabled == old(self).state@.zoom_enabled,
            final(self).state@.auto_connect == old(self).state@.auto_connect,
            final(self).state@.pending_mirror == old(self).state@.pending_mirror,
            r == (old(self).state@.mirroring_device matches Some(m) && m == id@),
            r ==> final(self).state@.mirroring_device is None,
            !r ==> final(self).state@.mirroring_device == old(self).state@.mirroring_device,
    {
        let was = match &self.state.mirroring_device {
            Some(m) => str_eq(m.as_str(), id),
            None => false,
        };
        if was {
            self.state.mirroring_device = None;
        }
        was
    }

    /// Approves a device: its record becomes Trusted and is persisted, the
    /// operator sees the pairing, and the peer is told. An unknown id does
    /// nothing.
    pub fn handle_approve_device(&mut self, id: &str) -> (r: Vec<Effect>)
        requires
            old(self).wf(),
        ensures
            approve_device_post(*old(self), *final(self), r@, id@),
    {
        let idx = self.state.find_index(id);
        match idx {
            Some(i) => {
                proof {
                    lemma_idx_unique(self.state@.devices, id@, i as int);
                }
                let name = self.state.devices[i].name.clone();
                let ip = self.state.devices[i].ip.clone();
                self.set_status_at(i, DeviceStatus::Trusted);
                let mut out: Vec<Effect> = Vec::new();
                out.push(Effect::SaveRegistry);
                out.push(Effect::NotifyOperator(OperatorNotice::DevicePaired { name }));
                out.push(
                    Effect::SendToIp(
                        ip,
                        ServerMessage::SecurityUpdate { status: DeviceStatus::Trusted },
                    ),
                );
                out
            },
            None => Vec::new(),
        }
    }

    /// Declines or blocks a device: the record takes the given status and
    /// is persisted, and the peer is told. If that device was mirroring,
    /// the mirror session ends. An unknown id only ends its mirror session.
    fn demote_device(&mut self, id: &str, st: DeviceStatus) -> (r: Vec<Effect>)
        requires
            old(self).wf(),
            st == DeviceStatus::Declined || st == DeviceStatus::Blocked,
        ensures
            demote_device_post(*old(self), *final(self), r@, id@, st),
    {
        let mut out: Vec<Effect> = Vec::new();
        let idx = self.state.find_index(id);
        match idx {
            Some(i) => {
                proof {
                    lemma_idx_unique(self.state@.devices, id@, i as int);
                }
                let ip = self.state.devices[i].ip.clone();
                self.set_status_at(i, st);
                out.push(Effect::SaveRegistry);
                out.push(Effect::SendToIp(ip, ServerMessage::SecurityUpdate { status: st }));
            },
            None => {
            },
        }
        let stopped = self.clear_mirroring_if(id);
        if stopped {
            out.push(Effect::StopCapture);
        }
        out
    }

    /// Declines a device. See `demote_device`.
    pub fn handle_reject_device(&mut self, id: &str) -> (r: Vec<Effect>)
        requires
            old(self).wf(),
        ensures
            demote_device_post(*old(self), *final(self), r@, id@, DeviceStatus::Declined),
    {
        self.demote_device(id, DeviceStatus::Declined)
    }

    /// Blocks a device. See `demote_device`.
    pub fn handle_block_device(&mut self, id: &str) -> (r: Vec<Effect>)
        requires
            old(self).wf(),
        ensures
            demote_device_post(*old(self), *final(self), r@, id@, DeviceStatus::Blocked),
    {
        self.demote_device(id, DeviceStatus::Blocked)
    }

    /// Unblocks a device: its record is removed outright and the registry
    /// persisted. The device may pair again from scratch.
    pub fn handle_unblock_device(&mut self, id: &str) -> (r: Vec<Effect>)
        requires
            old(self).wf(),
        ensures
            unblock_device_post(*old(self), *final(self), r@, id@),
    {
        self.state.remove_id(id);
        let mut out: Vec<Effect> = Vec::new();
        out.push(Effect::SaveRegistry);
        out
    }

    /// Answers a discovery message with the server name and certificate
    /// fingerprint. Nothing changes.
    pub fn handle_discovery(&mut self) -> (r: Vec<Effect>)
        requires
            old(self).wf(),
        ensures
            discovery_post(*old(self), *final(self), r@),
    {
        let mut out: Vec<Effect> = Vec::new();
        out.push(
            Effect::Reply(
                ServerMessage::DiscoveryResponse {
                    server_name: self.server_name.clone(),
                    fingerprint: Some(self.fingerprint.clone()),
                },
            ),
        );
        out
    }

    /// Answers a status query with a snapshot of the registry and the zoom
    /// flag. Nothing changes.
    pub fn handle_get_status(&mut self) -> (r: Vec<Effect>)
        requires
            old(self).wf(),
        ensures
            get_status_post(*old(self), *final(self), r@),
    {
        let devices = self.state.snapshot();
        let mut out: Vec<Effect> = Vec::new();
        out.push(
            Effect::Reply(
                ServerMessage::StatusResponse { devices, zoom_enabled: self.state.zoom_enabled },
            ),
        );
        out
    }

    /// Sets the process-wide zoom flag, persists it, and forwards the
    /// change to this peer's pointer overlay.
    pub fn handle_set_zoom_enabled(&mut self, device_ip: &str, enabled: bool) -> (r: Vec<Effect>)
        requires
            old(self).wf(),
        ensures
            set_zoom_enabled_post(*old(self), *final(self), r@, device_ip@, enabled),
    {
        self.state.zoom_enabled = enabled;
        let mut out: Vec<Effect> = Vec::new();
        out.push(Effect::SaveRegistry);
        let dg = self.pointers.set_zoom_enabled(device_ip, enabled);
        match dg {
            Some(s) => {
                out.push(Effect::Overlay(s));
            },
            None => {
            },
        }
        out
    }

    /// Sets the auto-connect flag and persists it.
    pub fn handle_set_auto_connect(&mut self, enabled: bool) -> (r: Vec<Effect>)
        requires
            old(self).wf(),
        ensures
            set_auto_connect_post(*old(self), *final(self), r@, enabled),
    {
        self.state.auto_connect = enabled;
        let mut out: Vec<Effect> = Vec::new();
        out.push(Effect::SaveRegistry);
        out
    }

    /// Sets a device's auto-reconnect flag and persists it. An unknown id
    /// does nothing.
    pub fn handle_set_device_auto_reconnect(&mut self, id: &str, enabled: bool) -> (r: Vec<
        Effect,
    >)
        requires
            old(self).wf(),
        ensures
            set_device_auto_post(*old(self), *final(self), r@, id@, enabled),
    {
        let idx = self.state.find_index(id);
        match idx {
            Some(i) => {
                proof {
                    lemma_idx_unique(self.state@.devices, id@, i as int);
                }
                self.set_auto_at(i, enabled);
                let mut out: Vec<Effect> = Vec::new();
                out.push(Effect::SaveRegistry);
                out
            },
            None => Vec::new(),
        }
    }

    /// Clears the mirroring device and tells its peer and the capture
    /// producer to stop. The peer is found by the id's record; an unknown
    /// id still clears the state.
    pub fn handle_pc_stop_mirroring(&mut self, id: &str) -> (r: Vec<Effect>)
        requires
            old(self).wf(),
        ensures
            pc_stop_mirroring_post(*old(self), *final(self), r@, id@),
    {
        let mut out: Vec<Effect> = Vec::new();
        let idx = self.state.find_index(id);
        match idx {
            Some(i) => {
                proof {
                    lemma_idx_unique(self.state@.devices, id@, i as int);
                }
                let ip = self.state.devices[i].ip.clone();
                out.push(Effect::SendToIp(ip, ServerMessage::StopMirroring));
            },
            None => {
            },
        }
        self.state.mirroring_device = None;
        out.push(Effect::StopCapture);
        out
    }

    /// Relays a device's auto-reconnect request to the dashboards and the
    /// operator. The display name falls back when the id is unknown.
    pub fn handle_request_auto_reconnect(&mut self, id: &str) -> (r: Vec<Effect>)
        requires
            old(self).wf(),
        ensures
            request_auto_reconnect_post(*old(self), *final(self), r@, id@),
    {
        let idx = self.state.find_index(id);
        let name: String = match idx {
            Some(i) => {
                proof {
                    lemma_idx_unique(self.state@.devices, id@, i as int);
                }
                self.state.devices[i].name.clone()
            },
            None => String::from_str("Unknown Device"),
        };
        let mut out: Vec<Effect> = Vec::new();
        out.push(
            Effect::BroadcastDashboards(
                ServerMessage::AutoReconnectRequest {
                    device_id: String::from_str(id),
                    device_name: name.clone(),
                },
            ),
        );
        out.push(
            Effect::NotifyOperator(
                OperatorNotice::AutoReconnect { id: String::from_str(id), name },
            ),
        );
        out
    }
}

/// With unique ids, any index holding the id is the first one.
proof fn lemma_idx_unique(devs: Seq<DeviceModel>, id: Seq<char>, i: int)
    requires
        ids_unique(devs),
        0 <= i < devs.len(),
        devs[i].id == id,
    ensures
        idx_of_id(devs, id) == i,
{
    assert(contains_id(devs, id)) by {
        assert(devs[i].id == id);
    }
    lemma_idx_of_id(devs, id);
    let j = idx_of_id(devs, id);
    if i != j {
        assert(devs[i].id != devs[j].id);
    }
}


impl ServerCore {
    /// Applies the operator's answer to a mirror request. Acceptance with a
    /// stored request for this device starts the capture with the stored
    /// parameters, tells the peer, points the overlay at the stored
    /// monitor, and records the device as mirroring. A refusal clears the
    /// stored request and tells the peer. An unknown id does nothing.
    pub fn handle_mirror_response(&mut self, device_id: &str, accepted: bool) -> (r: Vec<Effect>)
        requires
            old(self).wf(),
        ensures
            mirror_response_post(*old(self), *final(self), r@, device_id@, accepted),
    {
        let idx = self.state.find_index(device_id);
        let mut out: Vec<Effect> = Vec::new();
        match idx {
            Some(i) => {
                proof {
                    lemma_idx_unique(self.state@.devices, device_id@, i as int);
                }
                let ip = self.state.devices[i].ip.clone();
                if accepted {
                    let pending_match = match &self.state.pending_mirror {
                        Some(p) => str_eq(p.device_id.as_str(), device_id),
                        None => false,
                    };
                    if pending_match {
                        let p = self.state.pending_mirror.take().unwrap();
                        out.push(
                            Effect::SendToIp(
                                ip.clone(),
                                ServerMessage::MirrorStatus {
                                    allowed: true,
                                    message: String::from_str("Access granted by PC"),
                                },
                            ),
                        );
                        self.state.mirroring_device = Some(String::from_str(device_id));
                        out.push(Effect::Overlay(build_monitor_datagram(ip.as_str(), p.monitor)));
                        out.push(
                            Effect::StartCapture(
                                StreamConfig {
                                    width: p.width,
                                    height: p.height,
                                    fps: p.fps,
                                    monitor: p.monitor,
                                },
                            ),
                        );
                    }
                } else {
                    self.state.pending_mirror = None;
                    out.push(
                        Effect::SendToIp(
                            ip,
                            ServerMessage::MirrorStatus {
                                allowed: false,
                                message: String::from_str("Mirroring request declined by PC"),
                            },
                        ),
                    );
                }
            },
            None => {
            },
        }
        out
    }

    /// Applies the operator's answer to a pair request: approval makes the
    /// record Trusted and tells the peer; refusal makes it Declined. Both
    /// persist. An unknown id does nothing.
    pub fn handle_operator_pair_decision(&mut self, id: &str, approve: bool) -> (r: Vec<Effect>)
        requires
            old(self).wf(),
        ensures
            final(self).wf(),
            old(self).same_identity(final(self)),
            final(self).pointers@ == old(self).pointers@,
            final(self).state@.media_playing == old(self).state@.media_playing,
            final(self).state@.zoom_enabled == old(self).state@.zoom_enabled,
            final(self).state@.auto_connect == old(self).state@.auto_connect,
            final(self).state@.pending_mirror == old(self).state@.pending_mirror,
            final(self).state@.mirroring_device == old(self).state@.mirroring_device,
            !contains_id(old(self).state@.devices, id@) ==> final(self).state@ == old(self).state@
                && r@.len() == 0,
            contains_id(old(self).state@.devices, id@) ==> ({
                let i = idx_of_id(old(self).state@.devices, id@);
                let d = old(self).state@.devices[i];
                &&& final(self).state@.devices == with_status(
                    old(self).state@.devices,
                    i,
                    if approve {
                        DeviceStatus::Trusted
                    } else {
                        DeviceStatus::Declined
                    },
                )
                &&& (approve ==> r@.len() == 2 && (r@[0] is SaveRegistry) && (r@[1]
                    matches Effect::SendToIp(ip, ServerMessage::SecurityUpdate { status }) && ip@
                    == d.ip && status == DeviceStatus::Trusted))
                &&& (!approve ==> r@.len() == 1 && (r@[0] is SaveRegistry))
            }),
    {
        let idx = self.state.find_index(id);
        match idx {
            Some(i) => {
                proof {
                    lemma_idx_unique(self.state@.devices, id@, i as int);
                }
                let ip = self.state.devices[i].ip.clone();
                let mut out: Vec<Effect> = Vec::new();
                if approve {
                    self.set_status_at(i, DeviceStatus::Trusted);
                    out.push(Effect::SaveRegistry);
                    out.push(
                        Effect::SendToIp(
                            ip,
                            ServerMessage::SecurityUpdate { status: DeviceStatus::Trusted },
                        ),
                    );
                } else {
                    self.set_status_at(i, DeviceStatus::Declined);
                    out.push(Effect::SaveRegistry);
                }
                out
            },
            None => Vec::new(),
        }
    }

    /// Tears down a session: Pending records for the peer's IP are removed
    /// and the registry persisted, and if this peer was the mirroring
    /// device the mirror session ends with it.
    pub fn handle_disconnect(&mut self, device_ip: &str) -> (r: Vec<Effect>)
        requires
            old(self).wf(),
        ensures
            final(self).wf(),
            old(self).same_identity(final(self)),
            final(self).pointers@ == old(self).pointers@,
            final(self).state@.media_playing == old(self).state@.media_playing,
            final(self).state@.zoom_enabled == old(self).state@.zoom_enabled,
            final(self).state@.auto_connect == old(self).state@.auto_connect,
            final(self).state@.pending_mirror == old(self).state@.pending_mirror,
            final(self).state@.devices == old(self).state@.devices.filter(
                |d: DeviceModel| !(d.ip == device_ip@ && d.status == DeviceStatus::Pending),
            ),
            ({
                let was_mirroring = old(self).state@.mirroring_device matches Some(m)
                    && contains_id(old(self).state@.devices, m) && old(self).state@.devices[
                idx_of_id(old(self).state@.devices, m)].ip == device_ip@;
                &&& (was_mirroring ==> final(self).state@.mirroring_device is None && r@.len()
                    == 2 && (r@[0] is SaveRegistry) && (r@[1] is StopCapture))
                &&& (!was_mirroring ==> final(self).state@.mirroring_device == old(self).state@.mirroring_device && r@.len() == 1 && (r@[0] is SaveRegistry))
            }),
    {
        let was_mirroring: bool = match &self.state.mirroring_device {
            Some(m) => {
                let idx = self.state.find_index(m.as_str());
                match idx {
                    Some(i) => {
                        proof {
                            lemma_idx_unique(self.state@.devices, m@, i as int);
                        }
                        str_eq(self.state.devices[i].ip.as_str(), device_ip)
                    },
                    None => false,
                }
            },
            None => false,
        };
        let mut kept: Vec<DeviceInfo> = Vec::new();
        let n = self.state.devices.len();
        let mut i: usize = 0;
        while i < n
            invariant
                i <= n,
                n == self.state@.devices.len(),
                kept@.map_values(|d: DeviceInfo| d@) == self.state@.devices.take(i as int).filter(
                    |d: DeviceModel| !(d.ip == device_ip@ && d.status == DeviceStatus::Pending),
                ),
            decreases n - i,
        {
            let ghost pre = self.state@.devices.take(i as int);
            let keep = !(str_eq(self.state.devices[i].ip.as_str(), device_ip) && matches!(
                self.state.devices[i].status,
                DeviceStatus::Pending,
            ));
            if keep {
                kept.push(self.state.devices[i].clone());
            }
            i = i + 1;
            proof {
                let prednow = |d: DeviceModel| !(d.ip == device_ip@ && d.status
                    == DeviceStatus::Pending);
                assert(self.state@.devices.take(i as int) =~= pre.push(
                    self.state@.devices[i - 1],
                ));
                crate::handler::lemma_filter_push(pre, self.state@.devices[i - 1], device_ip@);
                assert(kept@.map_values(|d: DeviceInfo| d@) =~= self.state@.devices.take(
                    i as int,
                ).filter(prednow));
            }
        }
        proof {
            assert(self.state@.devices.take(n as int) =~= self.state@.devices);
        }
        self.state.devices = kept;
        proof {
            let pred = |d: DeviceModel| !(d.ip == device_ip@ && d.status == DeviceStatus::Pending);
            lemma_filter_unique(old(self).state@.devices, device_ip@);
        }
        let mut out: Vec<Effect> = Vec::new();
        out.push(Effect::SaveRegistry);
        if was_mirroring {
            self.state.mirroring_device = None;
            out.push(Effect::StopCapture);
        }
        out
    }
}

/// Filtering distributes over push.
proof fn lemma_filter_push(s: Seq<DeviceModel>, d: DeviceModel, ip: Seq<char>)
    ensures
        s.push(d).filter(
            |x: DeviceModel| !(x.ip == ip && x.status == DeviceStatus::Pending),
        ) == (if !(d.ip == ip && d.status == DeviceStatus::Pending) {
            s.filter(|x: DeviceModel| !(x.ip == ip && x.status == DeviceStatus::Pending)).push(d)
        } else {
            s.filter(|x: DeviceModel| !(x.ip == ip && x.status == DeviceStatus::Pending))
        }),
{
    let pred = |x: DeviceModel| !(x.ip == ip && x.status == DeviceStatus::Pending);
    s.lemma_filter_push(d, pred);
}

/// A filtered registry keeps unique ids.
proof fn lemma_filter_unique(devs: Seq<DeviceModel>, ip: Seq<char>)
    requires
        ids_unique(devs),
    ensures
        ids_unique(
            devs.filter(|d: DeviceModel| !(d.ip == ip && d.status == DeviceStatus::Pending)),
        ),
    decreases devs.len(),
{
    reveal(Seq::filter);
    let pred = |d: DeviceModel| !(d.ip == ip && d.status == DeviceStatus::Pending);
    if devs.len() > 0 {
        let l = devs.drop_last();
        let last = devs.last();
        assert(ids_unique(l)) by {
            assert forall|i: int, j: int|
                0 <= i < l.len() && 0 <= j < l.len() && i != j implies l[i].id != l[j].id by {
                assert(l[i] == devs[i]);
                assert(l[j] == devs[j]);
            }
        }
        lemma_filter_unique(l, ip);
        let fl = l.filter(pred);
        assert forall|k: int| 0 <= k < fl.len() implies fl[k].id != last.id by {
            assert(fl.contains(fl[k]));
            l.lemma_filter_contains_rev(pred, fl[k]);
            let a = choose|a: int| 0 <= a < l.len() && l[a] == fl[k];
            assert(devs[a] == l[a]);
            assert(devs[a].id != devs[devs.len() - 1].id);
        }
        if pred(last) {
            assert(devs.filter(pred) == fl.push(last));
            assert forall|i: int, j: int|
                0 <= i < fl.push(last).len() && 0 <= j < fl.push(last).len() && i
                    != j implies fl.push(last)[i].id != fl.push(last)[j].id by {
                if i < fl.len() && j < fl.len() {
                    assert(fl.push(last)[i] == fl[i]);
                    assert(fl.push(last)[j] == fl[j]);
                } else if i < fl.len() {
                    assert(fl.push(last)[i] == fl[i]);
                } else {
                    assert(fl.push(last)[j] == fl[j]);
                }
            }
        } else {
            assert(devs.filter(pred) == fl);
        }
    }
}


/// The index of the first record with this IP.
pub open spec fn idx_of_ip(devs: Seq<DeviceModel>, ip: Seq<char>) -> int
    decreases devs.len(),
{
    if devs.len() == 0 {
        0
    } else if devs[0].ip == ip {
        0
    } else {
        1 + idx_of_ip(devs.drop_first(), ip)
    }
}

/// Whether some record has this IP.
pub open spec fn contains_ip(devs: Seq<DeviceModel>, ip: Seq<char>) -> bool {
    exists|i: int| 0 <= i < devs.len() && devs[i].ip == ip
}

/// A first-match scan finds the first index with this IP.
proof fn lemma_idx_of_ip_from_scan(devs: Seq<DeviceModel>, ip: Seq<char>, i: int)
    requires
        0 <= i <= devs.len(),
        forall|k: int| 0 <= k < i ==> devs[k].ip != ip,
        i < devs.len() ==> devs[i].ip == ip,
    ensures
        idx_of_ip(devs, ip) == i,
        i < devs.len() ==> contains_ip(devs, ip),
    decreases devs.len(),
{
    if devs.len() > 0 && devs[0].ip != ip {
        assert(i >= 1);
        assert forall|k: int| 0 <= k < i - 1 implies devs.drop_first()[k].ip != ip by {
            assert(devs.drop_first()[k] == devs[k + 1]);
        }
        assert(i - 1 < devs.drop_first().len() ==> devs.drop_first()[i - 1] == devs[i]);
        lemma_idx_of_ip_from_scan(devs.drop_first(), ip, i - 1);
    }
    if i < devs.len() {
        assert(devs[i].ip == ip);
    }
}

/// The device id and display name that a mirror request from this IP is
/// attributed to: the first record with the IP, or fallback values.
pub open spec fn mirror_requester_id(devs: Seq<DeviceModel>, ip: Seq<char>) -> Seq<char> {
    if contains_ip(devs, ip) {
        devs[idx_of_ip(devs, ip)].id
    } else {
        "unknown"@
    }
}

/// The display name that a mirror request from this IP is attributed to.
pub open spec fn mirror_requester_name(devs: Seq<DeviceModel>, ip: Seq<char>) -> Seq<char> {
    if contains_ip(devs, ip) {
        devs[idx_of_ip(devs, ip)].name
    } else {
        "Unknown Device"@
    }
}

impl ServerCore {
    /// Neither the state blob nor the pointer registry changed.
    pub open spec fn same_state(&self, other: &ServerCore) -> bool {
        self.state@ == other.state@ && self.pointers@ == other.pointers@
    }

    /// Handles an input or control message from a peer already known to be
    /// Trusted: every arm delegates to a collaborator or to the pointer
    /// manager, and only mirroring messages touch the state blob.
    pub fn handle_trusted_event(&mut self, msg: ClientMessage, device_ip: &str) -> (r: Vec<
        Effect,
    >)
        requires
            old(self).wf(),
        ensures
            trusted_event_post(*old(self), *final(self), r@, msg, device_ip@),
    {
        match msg {
            ClientMessage::MediaControl { action } => {
                let mut out: Vec<Effect> = Vec::new();
                out.push(Effect::MediaCommand(action));
                out
            },
            ClientMessage::MediaGetStatus => {
                let mut out: Vec<Effect> = Vec::new();
                out.push(Effect::FetchMediaStatus);
                out
            },
            ClientMessage::PointerData {
                active,
                mode,
                pitch_e4,
                roll_e4,
                size_c,
                color,
                zoom_c,
                particle,
                stretch_c,
                has_image,
                pulse_speed_c,
                pulse_intensity_c,
            } => {
                let u = PointerUpdate {
                    active,
                    mode,
                    pitch_e4,
                    roll_e4,
                    size_c,
                    color,
                    zoom_c,
                    particle,
                    stretch_c,
                    has_image,
                    pulse_speed_c,
                    pulse_intensity_c,
                };
                let idx = self.pointers.find(device_ip);
                proof {
                    if idx is Some {
                        let w = idx->Some_0 as int;
                        let c = choose|i: int|
                            0 <= i < old(self).pointers@.len() && old(self).pointers@[i].device_id
                                == device_ip@;
                        if c != w {
                            assert(old(self).pointers@[c].device_id == old(self).pointers@[w].device_id);
                        }
                    }
                }
                let dgs = self.pointers.update(device_ip, u);
                let mut out: Vec<Effect> = Vec::new();
                let n = dgs.len();
                let ghost dgsv = dgs@.map_values(|s: String| s@);
                let mut rest = dgs;
                let mut taken: usize = 0;
                proof {
                    assert(dgsv.skip(0) =~= dgsv);
                }
                while taken < n
                    invariant
                        taken <= n,
                        n == dgsv.len(),
                        rest@.map_values(|s: String| s@) == dgsv.skip(taken as int),
                        out@.len() == taken,
                        forall|j: int|
                            0 <= j < taken ==> (#[trigger] out@[j] matches Effect::Overlay(s) && s@
                                == dgsv[j]),
                    decreases n - taken,
                {
                    let ghost prerest = rest@;
                    proof {
                        assert(prerest.map_values(|x: String| x@).len() == n - taken);
                        assert(prerest.len() == n - taken);
                    }
                    let s = rest.remove(0);
                    proof {
                        assert(s@ == prerest.map_values(|x: String| x@)[0]);
                        assert(dgsv.skip(taken as int)[0] == dgsv[taken as int]);
                        assert(rest@ =~= prerest.drop_first());
                        assert forall|j: int| 0 <= j < rest@.len() implies #[trigger] rest@[j]@
                            == dgsv.skip(taken + 1)[j] by {
                            assert(rest@[j] == prerest[j + 1]);
                            assert(prerest.map_values(|x: String| x@)[j + 1] == dgsv.skip(
                                taken as int,
                            )[j + 1]);
                            assert(dgsv.skip(taken as int)[j + 1] == dgsv[taken + 1 + j]);
                            assert(dgsv.skip(taken + 1)[j] == dgsv[taken + 1 + j]);
                        }
                        assert(rest@.map_values(|x: String| x@) =~= dgsv.skip(taken + 1));
                    }
                    out.push(Effect::Overlay(s));
                    taken = taken + 1;
                }
                out
            },
            ClientMessage::TestOverlaySequence => {
                let mut out: Vec<Effect> = Vec::new();
                out.push(Effect::Overlay(build_test_sequence_datagram(device_ip)));
                out
            },
            ClientMessage::PresentationControl { action } => {
                proof {
                    reveal_strlit("prev");
                    reveal_strlit("next");
                    reveal_strlit("PageUp");
                    reveal_strlit("PageDown");
                }
                let mut out: Vec<Effect> = Vec::new();
                proof {
                    assert("prev"@[0] == 'p');
                    assert("next"@[0] == 'n');
                    assert("prev"@ != "next"@);
                }
                if str_eq(action.as_str(), "prev") {
                    out.push(
                        Effect::Inject(
                            ClientMessage::KeyPress { key: String::from_str("PageUp") },
                        ),
                    );
                } else if str_eq(action.as_str(), "next") {
                    out.push(
                        Effect::Inject(
                            ClientMessage::KeyPress { key: String::from_str("PageDown") },
                        ),
                    );
                }
                out
            },
            ClientMessage::SetPointerMonitor { monitor } => {
                let mut out: Vec<Effect> = Vec::new();
                out.push(Effect::Overlay(build_monitor_datagram(device_ip, monitor)));
                out
            },
            ClientMessage::LaunchApp { command } => {
                let mut out: Vec<Effect> = Vec::new();
                out.push(Effect::VerifyAndLaunch(command));
                out
            },
            ClientMessage::GetApps => {
                let mut out: Vec<Effect> = Vec::new();
                out.push(Effect::FetchApps);
                out
            },
            ClientMessage::GetMonitors => {
                let mut out: Vec<Effect> = Vec::new();
                out.push(Effect::FetchMonitors);
                out
            },
            ClientMessage::StartMirroring { width, height, fps, monitor } => {
                let idx = self.state.find_by_ip(device_ip);
                let (id, name): (String, String) = match idx {
                    Some(i) => {
                        proof {
                            lemma_idx_of_ip_from_scan(self.state@.devices, device_ip@, i as int);
                        }
                        (self.state.devices[i].id.clone(), self.state.devices[i].name.clone())
                    },
                    None => {
                        proof {
                            lemma_idx_of_ip_from_scan(
                                self.state@.devices,
                                device_ip@,
                                self.state@.devices.len() as int,
                            );
                        }
                        (String::from_str("unknown"), String::from_str("Unknown Device"))
                    },
                };
                self.state.pending_mirror = Some(
                    PendingMirror { device_id: id.clone(), width, height, fps, monitor },
                );
                let mut out: Vec<Effect> = Vec::new();
                out.push(
                    Effect::BroadcastDashboards(
                        ServerMessage::MirrorRequest {
                            device_id: id.clone(),
                            device_name: name.clone(),
                        },
                    ),
                );
                out.push(Effect::NotifyOperator(OperatorNotice::MirrorRequest { id, name }));
                out
            },
            ClientMessage::StopMirroring => {
                self.state.mirroring_device = None;
                let mut out: Vec<Effect> = Vec::new();
                out.push(Effect::StopCapture);
                out
            },
            ClientMessage::PointerImage { data } => {
                let mut out: Vec<Effect> = Vec::new();
                match crate::outside::pointer_image_action(data.as_str()) {
                    crate::outside::PointerImageAction::Clear => {
                        out.push(Effect::ClearPointerImage);
                        out.push(Effect::Overlay(String::from_str("CLEAR_IMAGE")));
                    },
                    crate::outside::PointerImageAction::Replace(bytes) => {
                        out.push(Effect::WritePointerImage(bytes));
                        out.push(Effect::Overlay(String::from_str("RELOAD_IMAGE")));
                    },
                    crate::outside::PointerImageAction::Refuse => {
                    },
                }
                out
            },
            ClientMessage::Discovery => self.handle_discovery(),
            ClientMessage::SetZoomEnabled { enabled } => self.handle_set_zoom_enabled(
                device_ip,
                enabled,
            ),
            ClientMessage::SetAudioSensitivity { value_c } => {
                let mut out: Vec<Effect> = Vec::new();
                out.push(Effect::SetAudioSensitivity(value_c));
                out
            },
            other => {
                let mut out: Vec<Effect> = Vec::new();
                out.push(Effect::Inject(other));
                out
            },
        }
    }

    /// Interprets one decoded message from a session. Pair, discovery,
    /// registration and management messages are handled for any peer; every
    /// other message is silently dropped unless a Trusted record ties the
    /// peer's IP: then no state changes and nothing is sent or performed.
    pub fn handle_event(&mut self, msg: ClientMessage, device_ip: &str) -> (r: Vec<Effect>)
        requires
            old(self).wf(),
        ensures
            final(self).wf(),
            old(self).same_identity(final(self)),
            !in_open_vocabulary(msg) && !ip_trusted(old(self).state@.devices, device_ip@) ==> (
            final(self).state@ == old(self).state@ && final(self).pointers@ == old(self).pointers@
                && r@.len() == 0),
            !in_open_vocabulary(msg) && ip_trusted(old(self).state@.devices, device_ip@)
                ==> trusted_event_post(*old(self), *final(self), r@, msg, device_ip@),
            msg matches ClientMessage::PairRequest { device_name, id, version, auto_reconnect }
                ==> pair_request_post(
                *old(self),
                *final(self),
                r@,
                device_name@,
                id@,
                version@,
                auto_reconnect,
                device_ip@,
            ),
            msg is GetStatus ==> get_status_post(*old(self), *final(self), r@),
            msg matches ClientMessage::ApproveDevice { id } ==> approve_device_post(
                *old(self),
                *final(self),
                r@,
                id@,
            ),
            msg matches ClientMessage::RejectDevice { id } ==> demote_device_post(
                *old(self),
                *final(self),
                r@,
                id@,
                DeviceStatus::Declined,
            ),
            msg matches ClientMessage::BlockDevice { id } ==> demote_device_post(
                *old(self),
                *final(self),
                r@,
                id@,
                DeviceStatus::Blocked,
            ),
            msg matches ClientMessage::UnblockDevice { id } ==> unblock_device_post(
                *old(self),
                *final(self),
                r@,
                id@,
            ),
            msg is Discovery ==> discovery_post(*old(self), *final(self), r@),
            msg matches ClientMessage::SetZoomEnabled { enabled } ==> set_zoom_enabled_post(
                *old(self),
                *final(self),
                r@,
                device_ip@,
                enabled,
            ),
            msg matches ClientMessage::SetAutoConnect { enabled } ==> set_auto_connect_post(
                *old(self),
                *final(self),
                r@,
                enabled,
            ),
            msg matches ClientMessage::SetDeviceAutoReconnect { id, enabled }
                ==> set_device_auto_post(*old(self), *final(self), r@, id@, enabled),
            msg matches ClientMessage::AutoReconnectResponse { id, accepted }
                ==> set_device_auto_post(*old(self), *final(self), r@, id@, accepted),
            msg matches ClientMessage::PCStopMirroring { id } ==> pc_stop_mirroring_post(
                *old(self),
                *final(self),
                r@,
                id@,
            ),
            msg matches ClientMessage::RequestAutoReconnect { id }
                ==> request_auto_reconnect_post(*old(self), *final(self), r@, id@),
            msg matches ClientMessage::MirrorResponse { device_id, accepted }
                ==> mirror_response_post(*old(self), *final(self), r@, device_id@, accepted),
            msg is RegisterDashboard ==> (old(self).same_state(final(self)) && r@.len() == 2 && (
            r@[0] is MarkDashboard) && (r@[1] matches Effect::Reply(
                ServerMessage::RegisterResponse { success },
            ) && success)),
    {
        match msg {
            ClientMessage::PairRequest { device_name, id, version, auto_reconnect } => self
                .handle_pair_request(
                device_name,
                id,
                version.as_str(),
                auto_reconnect,
                device_ip,
            ),
            ClientMessage::GetStatus => self.handle_get_status(),
            ClientMessage::ApproveDevice { id } => self.handle_approve_device(id.as_str()),
            ClientMessage::RejectDevice { id } => self.handle_reject_device(id.as_str()),
            ClientMessage::BlockDevice { id } => self.handle_block_device(id.as_str()),
            ClientMessage::UnblockDevice { id } => self.handle_unblock_device(id.as_str()),
            ClientMessage::Discovery => self.handle_discovery(),
            ClientMessage::SetZoomEnabled { enabled } => self.handle_set_zoom_enabled(
                device_ip,
                enabled,
            ),
            ClientMessage::SetAutoConnect { enabled } => self.handle_set_auto_connect(enabled),
            ClientMessage::SetDeviceAutoReconnect { id, enabled } => self
                .handle_set_device_auto_reconnect(id.as_str(), enabled),
            ClientMessage::AutoReconnectResponse { id, accepted } => self
                .handle_set_device_auto_reconnect(id.as_str(), accepted),
            ClientMessage::PCStopMirroring { id } => self.handle_pc_stop_mirroring(id.as_str()),
            ClientMessage::RequestAutoReconnect { id } => self.handle_request_auto_reconnect(
                id.as_str(),
            ),
            ClientMessage::MirrorResponse { device_id, accepted } => self.handle_mirror_response(
                device_id.as_str(),
                accepted,
            ),
            ClientMessage::RegisterDashboard => {
                let mut out: Vec<Effect> = Vec::new();
                out.push(Effect::MarkDashboard);
                out.push(Effect::Reply(ServerMessage::RegisterResponse { success: true }));
                out
            },
            other => {
                if self.state.is_ip_trusted(device_ip) {
                    self.handle_trusted_event(other, device_ip)
                } else {
                    Vec::new()
                }
            },
        }
    }
}

} // verus!
