//! The on-disk form of the device registry: a fixed-width text serialisation
//! of the state blob with every length as ten decimal digits. Decoding an
//! encoded state yields the state back, transient fields aside: reloading
//! from disk restores exactly what was persisted.
use vstd::prelude::*;
use vstd::arithmetic::div_mod::lemma_fundamental_div_mod;
use vstd::arithmetic::div_mod::lemma_div_denominator;
use crate::fmt::digit_char;
use crate::registry::AppState;
use crate::registry::DeviceInfo;
use crate::registry::DeviceModel;
use crate::registry::DeviceStatus;
use crate::registry::StateModel;
use crate::registry::ids_unique;

verus! {

/// The numeric value of a decimal digit character, `-1` for any other.
pub open spec fn digit_of(c: char) -> int {
    if c == '0' {
        0
    } else if c == '1' {
        1
    } else if c == '2' {
        2
    } else if c == '3' {
        3
    } else if c == '4' {
        4
    } else if c == '5' {
        5
    } else if c == '6' {
        6
    } else if c == '7' {
        7
    } else if c == '8' {
        8
    } else if c == '9' {
        9
    } else {
        -1
    }
}

/// A length as exactly ten decimal digits, most significant first.
pub open spec fn pad10(n: nat) -> Seq<char> {
    seq![
        digit_char((n / 1000000000 % 10) as int),
        digit_char((n / 100000000 % 10) as int),
        digit_char((n / 10000000 % 10) as int),
        digit_char((n / 1000000 % 10) as int),
        digit_char((n / 100000 % 10) as int),
        digit_char((n / 10000 % 10) as int),
        digit_char((n / 1000 % 10) as int),
        digit_char((n / 100 % 10) as int),
        digit_char((n / 10 % 10) as int),
        digit_char((n % 10) as int),
    ]
}

/// Whether ten digit characters stand at position `i`.
pub open spec fn digits10_ok(s: Seq<char>, i: int) -> bool {
    0 <= i && i + 10 <= s.len() && (forall|k: int| 0 <= k < 10 ==> digit_of(#[trigger] s[i + k])
        >= 0)
}

/// The value of the ten digits at position `i`.
pub open spec fn value10(s: Seq<char>, i: int) -> int {
    digit_of(s[i]) * 1000000000 + digit_of(s[i + 1]) * 100000000 + digit_of(s[i + 2]) * 10000000
        + digit_of(s[i + 3]) * 1000000 + digit_of(s[i + 4]) * 100000 + digit_of(s[i + 5]) * 10000
        + digit_of(s[i + 6]) * 1000 + digit_of(s[i + 7]) * 100 + digit_of(s[i + 8]) * 10
        + digit_of(s[i + 9])
}

/// Digit characters carry their value.
proof fn lemma_digit_of_char(d: int)
    requires
        0 <= d < 10,
    ensures
        digit_of(digit_char(d)) == d,
{
}

/// Ten padded digits read back as the number they were printed from.
pub proof fn lemma_pad10_round_trip(n: nat)
    requires
        n < 10000000000,
    ensures
        forall|k: int| 0 <= k < 10 ==> digit_of(#[trigger] pad10(n)[k]) >= 0,
        value10(pad10(n), 0) == n,
{
    let s = pad10(n);
    assert forall|k: int| 0 <= k < 10 implies digit_of(#[trigger] s[k]) >= 0 by {
        lemma_digit_of_char(digit_val_at(n, k));
        assert(s[k] == digit_char(digit_val_at(n, k)));
    }
    assert forall|k: int| 0 <= k < 10 implies digit_of(#[trigger] s[k]) == digit_val_at(n, k) by {
        lemma_digit_of_char(digit_val_at(n, k));
    }
    lemma_decimal_ladder(n);
}

/// The digit printed at position `k` of the ten-digit form.
spec fn digit_val_at(n: nat, k: int) -> int {
    if k == 0 {
        (n / 1000000000 % 10) as int
    } else if k == 1 {
        (n / 100000000 % 10) as int
    } else if k == 2 {
        (n / 10000000 % 10) as int
    } else if k == 3 {
        (n / 1000000 % 10) as int
    } else if k == 4 {
        (n / 100000 % 10) as int
    } else if k == 5 {
        (n / 10000 % 10) as int
    } else if k == 6 {
        (n / 1000 % 10) as int
    } else if k == 7 {
        (n / 100 % 10) as int
    } else if k == 8 {
        (n / 10 % 10) as int
    } else {
        (n % 10) as int
    }
}

/// A number below ten billion is the weighted sum of its ten decimal
/// digits.
proof fn lemma_decimal_ladder(n: nat)
    requires
        n < 10000000000,
    ensures
        (n / 1000000000 % 10) * 1000000000 + (n / 100000000 % 10) * 100000000 + (n / 10000000 % 10)
            * 10000000 + (n / 1000000 % 10) * 1000000 + (n / 100000 % 10) * 100000 + (n / 10000
            % 10) * 10000 + (n / 1000 % 10) * 1000 + (n / 100 % 10) * 100 + (n / 10 % 10) * 10 + (n
            % 10) == n,
{
    let x = n as int;
    lemma_fundamental_div_mod(x, 10);
    lemma_fundamental_div_mod(x / 10, 10);
    lemma_fundamental_div_mod(x / 100, 10);
    lemma_fundamental_div_mod(x / 1000, 10);
    lemma_fundamental_div_mod(x / 10000, 10);
    lemma_fundamental_div_mod(x / 100000, 10);
    lemma_fundamental_div_mod(x / 1000000, 10);
    lemma_fundamental_div_mod(x / 10000000, 10);
    lemma_fundamental_div_mod(x / 100000000, 10);
    lemma_fundamental_div_mod(x / 1000000000, 10);
    lemma_div_denominator(x, 10, 10);
    lemma_div_denominator(x, 100, 10);
    lemma_div_denominator(x, 1000, 10);
    lemma_div_denominator(x, 10000, 10);
    lemma_div_denominator(x, 100000, 10);
    lemma_div_denominator(x, 1000000, 10);
    lemma_div_denominator(x, 10000000, 10);
    lemma_div_denominator(x, 100000000, 10);
    lemma_div_denominator(x, 1000000000, 10);
    assert(x / 10000000000 == 0) by {
        vstd::arithmetic::div_mod::lemma_basic_div(x, 10000000000);
    }
}

/// A registry with its transient mirroring marks cleared.
pub open spec fn cleared(ds: Seq<DeviceModel>) -> Seq<DeviceModel> {
    ds.map_values(|d: DeviceModel| DeviceModel { is_mirroring: false, ..d })
}

/// One flag as a single character.
pub open spec fn enc_bool(b: bool) -> Seq<char> {
    if b {
        seq!['1']
    } else {
        seq!['0']
    }
}

/// One status as a single character.
pub open spec fn enc_status(st: DeviceStatus) -> Seq<char> {
    match st {
        DeviceStatus::Pending => seq!['P'],
        DeviceStatus::Trusted => seq!['T'],
        DeviceStatus::Declined => seq!['D'],
        DeviceStatus::Blocked => seq!['B'],
    }
}

/// A string as its ten-digit length followed by its characters.
pub open spec fn enc_str(v: Seq<char>) -> Seq<char> {
    pad10(v.len()) + v
}

/// One device record: id, name, IP, status and the auto-reconnect flag.
/// The transient mirroring mark is not persisted.
pub open spec fn enc_device(d: DeviceModel) -> Seq<char> {
    enc_str(d.id) + enc_str(d.name) + enc_str(d.ip) + enc_status(d.status) + enc_bool(
        d.auto_reconnect,
    )
}

/// The device records, in registry order.
pub open spec fn enc_devices(ds: Seq<DeviceModel>) -> Seq<char>
    decreases ds.len(),
{
    if ds.len() == 0 {
        Seq::empty()
    } else {
        enc_device(ds[0]) + enc_devices(ds.drop_first())
    }
}

/// The whole persisted state: the three session flags, the device count,
/// and the device records.
pub open spec fn enc_state(m: StateModel) -> Seq<char> {
    enc_bool(m.zoom_enabled) + enc_bool(m.auto_connect) + enc_bool(m.media_playing) + pad10(
        m.devices.len(),
    ) + enc_devices(m.devices)
}

/// What survives a save and reload: everything but the transient fields.
/// The pending request, the mirroring device and the per-record mirroring
/// marks all come back empty.
pub open spec fn persistent_of(m: StateModel) -> StateModel {
    StateModel {
        devices: cleared(m.devices),
        pending_mirror: Option::None,
        mirroring_device: Option::None,
        ..m
    }
}

/// A state whose strings and registry are small enough for ten-digit
/// lengths. Machine limits put every real state far below this.
pub open spec fn persistable(m: StateModel) -> bool {
    m.devices.len() < 10000000000 && (forall|i: int|
        0 <= i < m.devices.len() ==> (#[trigger] m.devices[i]).id.len() < 10000000000
            && m.devices[i].name.len() < 10000000000 && m.devices[i].ip.len() < 10000000000)
}

/// The ten-digit number at `i`, if ten digits stand there.
pub open spec fn parse_len_at(s: Seq<char>, i: int) -> Option<(nat, int)> {
    if digits10_ok(s, i) {
        Option::Some((value10(s, i) as nat, i + 10))
    } else {
        Option::None
    }
}

/// The length-prefixed string at `i`.
pub open spec fn parse_str_at(s: Seq<char>, i: int) -> Option<(Seq<char>, int)> {
    match parse_len_at(s, i) {
        Option::Some((n, j)) => if j + n <= s.len() {
            Option::Some((s.subrange(j, j + n), j + n))
        } else {
            Option::None
        },
        Option::None => Option::None,
    }
}

/// The flag character at `i`.
pub open spec fn parse_bool_at(s: Seq<char>, i: int) -> Option<(bool, int)> {
    if 0 <= i < s.len() && s[i] == '1' {
        Option::Some((true, i + 1))
    } else if 0 <= i < s.len() && s[i] == '0' {
        Option::Some((false, i + 1))
    } else {
        Option::None
    }
}

/// The status character at `i`.
pub open spec fn parse_status_at(s: Seq<char>, i: int) -> Option<(DeviceStatus, int)> {
    if 0 <= i < s.len() && s[i] == 'P' {
        Option::Some((DeviceStatus::Pending, i + 1))
    } else if 0 <= i < s.len() && s[i] == 'T' {
        Option::Some((DeviceStatus::Trusted, i + 1))
    } else if 0 <= i < s.len() && s[i] == 'D' {
        Option::Some((DeviceStatus::Declined, i + 1))
    } else if 0 <= i < s.len() && s[i] == 'B' {
        Option::Some((DeviceStatus::Blocked, i + 1))
    } else {
        Option::None
    }
}

/// The device record at `i`.
pub open spec fn parse_device_at(s: Seq<char>, i: int) -> Option<(DeviceModel, int)> {
    match parse_str_at(s, i) {
        Option::Some((id, j1)) => match parse_str_at(s, j1) {
            Option::Some((name, j2)) => match parse_str_at(s, j2) {
                Option::Some((ip, j3)) => match parse_status_at(s, j3) {
                    Option::Some((st, j4)) => match parse_bool_at(s, j4) {
                        Option::Some((auto, j5)) => Option::Some(
                            (
                                DeviceModel {
                                    id,
                                    name,
                                    status: st,
                                    ip,
                                    auto_reconnect: auto,
                                    is_mirroring: false,
                                },
                                j5,
                            ),
                        ),
                        Option::None => Option::None,
                    },
                    Option::None => Option::None,
                },
                Option::None => Option::None,
            },
            Option::None => Option::None,
        },
        Option::None => Option::None,
    }
}

/// `count` device records from `i` on.
pub open spec fn parse_devices_at(s: Seq<char>, i: int, count: nat) -> Option<
    (Seq<DeviceModel>, int),
>
    decreases count,
{
    if count == 0 {
        Option::Some((Seq::empty(), i))
    } else {
        match parse_device_at(s, i) {
            Option::Some((d, j)) => match parse_devices_at(s, j, (count - 1) as nat) {
                Option::Some((ds, j2)) => Option::Some((seq![d] + ds, j2)),
                Option::None => Option::None,
            },
            Option::None => Option::None,
        }
    }
}

/// The state a well-formed file decodes to: flags, count, records, nothing
/// after them, and unique ids. Transient fields come back empty.
pub open spec fn parse_state(s: Seq<char>) -> Option<StateModel> {
    match parse_bool_at(s, 0) {
        Option::Some((zoom, i1)) => match parse_bool_at(s, i1) {
            Option::Some((auto, i2)) => match parse_bool_at(s, i2) {
                Option::Some((media, i3)) => match parse_len_at(s, i3) {
                    Option::Some((count, i4)) => match parse_devices_at(s, i4, count) {
                        Option::Some((ds, i5)) => if i5 == s.len() && ids_unique(ds) {
                            Option::Some(
                                StateModel {
                                    devices: ds,
                                    media_playing: media,
                                    zoom_enabled: zoom,
                                    auto_connect: auto,
                                    pending_mirror: Option::None,
                                    mirroring_device: Option::None,
                                },
                            )
                        } else {
                            Option::None
                        },
                        Option::None => Option::None,
                    },
                    Option::None => Option::None,
                },
                Option::None => Option::None,
            },
            Option::None => Option::None,
        },
        Option::None => Option::None,
    }
}

/// Reading ten printed digits yields the printed number.
#[verifier::spinoff_prover]
proof fn lemma_parse_len_at_pos(s: Seq<char>, i: int, n: nat)
    requires
        n < 10000000000,
        0 <= i,
        i + 10 <= s.len(),
        forall|k: int| 0 <= k < 10 ==> #[trigger] s[i + k] == pad10(n)[k],
    ensures
        parse_len_at(s, i) == Option::<(nat, int)>::Some((n, i + 10)),
{
    lemma_pad10_round_trip(n);
    assert(digits10_ok(s, i));
    assert(s[i + 0] == pad10(n)[0]);
    assert(s[i + 1] == pad10(n)[1]);
    assert(s[i + 2] == pad10(n)[2]);
    assert(s[i + 3] == pad10(n)[3]);
    assert(s[i + 4] == pad10(n)[4]);
    assert(s[i + 5] == pad10(n)[5]);
    assert(s[i + 6] == pad10(n)[6]);
    assert(s[i + 7] == pad10(n)[7]);
    assert(s[i + 8] == pad10(n)[8]);
    assert(s[i + 9] == pad10(n)[9]);
    assert(value10(s, i) == value10(pad10(n), 0));
}

/// Reading an encoded string yields the string.
#[verifier::spinoff_prover]
proof fn lemma_parse_str_at_pos(s: Seq<char>, i: int, v: Seq<char>)
    requires
        v.len() < 10000000000,
        0 <= i,
        i + 10 + v.len() <= s.len(),
        forall|k: int| 0 <= k < 10 ==> #[trigger] s[i + k] == pad10(v.len())[k],
        forall|k: int| 0 <= k < v.len() ==> #[trigger] s[i + 10 + k] == v[k],
    ensures
        parse_str_at(s, i) == Option::<(Seq<char>, int)>::Some((v, i + 10 + v.len() as int)),
{
    lemma_parse_len_at_pos(s, i, v.len());
    let j = i + 10;
    assert(s.subrange(j, j + v.len() as int) =~= v) by {
        assert forall|k: int| 0 <= k < v.len() implies s.subrange(j, j + v.len() as int)[k]
            == v[k] by {
            assert(s[i + 10 + k] == v[k]);
        }
    }
}

/// Reading an encoded flag yields the flag.
proof fn lemma_parse_bool_at_pos(s: Seq<char>, i: int, b: bool)
    requires
        0 <= i < s.len(),
        s[i] == enc_bool(b)[0],
    ensures
        parse_bool_at(s, i) == Option::<(bool, int)>::Some((b, i + 1)),
{
}

/// Reading an encoded status yields the status.
proof fn lemma_parse_status_at_pos(s: Seq<char>, i: int, st: DeviceStatus)
    requires
        0 <= i < s.len(),
        s[i] == enc_status(st)[0],
    ensures
        parse_status_at(s, i) == Option::<(DeviceStatus, int)>::Some((st, i + 1)),
{
}

/// A persistable device record.
pub open spec fn device_persistable(d: DeviceModel) -> bool {
    d.id.len() < 10000000000 && d.name.len() < 10000000000 && d.ip.len() < 10000000000
}

/// Reading an encoded device yields the record, with the transient
/// mirroring mark cleared.
#[verifier::rlimit(100)]
#[verifier::spinoff_prover]
proof fn lemma_parse_device_at_pos(s: Seq<char>, i: int, d: DeviceModel)
    requires
        device_persistable(d),
        0 <= i,
        i + enc_device(d).len() <= s.len(),
        forall|k: int| 0 <= k < enc_device(d).len() ==> #[trigger] s[i + k] == enc_device(d)[k],
    ensures
        parse_device_at(s, i) == Option::<(DeviceModel, int)>::Some(
            (DeviceModel { is_mirroring: false, ..d }, i + enc_device(d).len() as int),
        ),
{
    let e = enc_device(d);
    let e1 = enc_str(d.id);
    let e2 = enc_str(d.name);
    let e3 = enc_str(d.ip);
    let st = enc_status(d.status);
    let eb = enc_bool(d.auto_reconnect);
    let l1 = e1.len() as int;
    let l2 = e2.len() as int;
    let l3 = e3.len() as int;
    assert forall|k: int| 0 <= k < l1 implies #[trigger] e[k] == e1[k] by {}
    assert forall|k: int| 0 <= k < l2 implies #[trigger] e[l1 + k] == e2[k] by {}
    assert forall|k: int| 0 <= k < l3 implies #[trigger] e[l1 + l2 + k] == e3[k] by {}
    assert(e[l1 + l2 + l3] == st[0]);
    assert(e[l1 + l2 + l3 + 1] == eb[0]);
    assert forall|k: int| 0 <= k < 10 implies #[trigger] s[i + k] == pad10(d.id.len())[k] by {
        assert(s[i + k] == e[k]);
        assert(e1[k] == pad10(d.id.len())[k]);
    }
    assert forall|k: int| 0 <= k < d.id.len() implies #[trigger] s[i + 10 + k] == d.id[k] by {
        assert(s[i + (10 + k)] == e[10 + k]);
        assert(e1[10 + k] == d.id[k]);
    }
    lemma_parse_str_at_pos(s, i, d.id);
    let j1 = i + l1;
    assert forall|k: int| 0 <= k < 10 implies #[trigger] s[j1 + k] == pad10(d.name.len())[k] by {
        assert(s[i + (l1 + k)] == e[l1 + k]);
        assert(e2[k] == pad10(d.name.len())[k]);
    }
    assert forall|k: int| 0 <= k < d.name.len() implies #[trigger] s[j1 + 10 + k] == d.name[k] by {
        assert(s[i + (l1 + 10 + k)] == e[l1 + 10 + k]);
        assert(e[l1 + (10 + k)] == e2[10 + k]);
        assert(e2[10 + k] == d.name[k]);
    }
    lemma_parse_str_at_pos(s, j1, d.name);
    let j2 = j1 + l2;
    assert forall|k: int| 0 <= k < 10 implies #[trigger] s[j2 + k] == pad10(d.ip.len())[k] by {
        assert(s[i + (l1 + l2 + k)] == e[l1 + l2 + k]);
        assert(e3[k] == pad10(d.ip.len())[k]);
    }
    assert forall|k: int| 0 <= k < d.ip.len() implies #[trigger] s[j2 + 10 + k] == d.ip[k] by {
        assert(s[i + (l1 + l2 + 10 + k)] == e[l1 + l2 + 10 + k]);
        assert(e[l1 + l2 + (10 + k)] == e3[10 + k]);
        assert(e3[10 + k] == d.ip[k]);
    }
    lemma_parse_str_at_pos(s, j2, d.ip);
    let j3 = j2 + l3;
    assert(s[i + (l1 + l2 + l3)] == e[l1 + l2 + l3]);
    lemma_parse_status_at_pos(s, j3, d.status);
    let j4 = j3 + 1;
    assert(s[i + (l1 + l2 + l3 + 1)] == e[l1 + l2 + l3 + 1]);
    lemma_parse_bool_at_pos(s, j4, d.auto_reconnect);
}

/// All records of a registry are persistable.
pub open spec fn devices_persistable(ds: Seq<DeviceModel>) -> bool {
    forall|i: int| 0 <= i < ds.len() ==> device_persistable(#[trigger] ds[i])
}

/// Reading encoded devices yields the records, marks cleared.
#[verifier::rlimit(100)]
#[verifier::spinoff_prover]
proof fn lemma_parse_devices_at_pos(s: Seq<char>, i: int, ds: Seq<DeviceModel>)
    requires
        devices_persistable(ds),
        0 <= i,
        i + enc_devices(ds).len() <= s.len(),
        forall|k: int| 0 <= k < enc_devices(ds).len() ==> #[trigger] s[i + k] == enc_devices(ds)[k],
    ensures
        parse_devices_at(s, i, ds.len()) == Option::<(Seq<DeviceModel>, int)>::Some(
            (cleared(ds), i + enc_devices(ds).len() as int),
        ),
    decreases ds.len(),
{
    if ds.len() == 0 {
        assert(cleared(ds) =~= Seq::<DeviceModel>::empty());
    } else {
        let d0 = ds[0];
        let rest = ds.drop_first();
        let e0 = enc_device(d0);
        let er = enc_devices(rest);
        assert(enc_devices(ds) == e0 + er);
        assert(device_persistable(d0));
        assert forall|k: int| 0 <= k < e0.len() implies #[trigger] s[i + k] == e0[k] by {
            assert(s[i + k] == enc_devices(ds)[k]);
            assert((e0 + er)[k] == e0[k]);
        }
        lemma_parse_device_at_pos(s, i, d0);
        let j = i + e0.len() as int;
        assert(devices_persistable(rest)) by {
            assert forall|k: int| 0 <= k < rest.len() implies device_persistable(
                #[trigger] rest[k],
            ) by {
                assert(rest[k] == ds[k + 1]);
            }
        }
        assert forall|k: int| 0 <= k < er.len() implies #[trigger] s[j + k] == er[k] by {
            assert(s[i + (e0.len() + k)] == enc_devices(ds)[e0.len() + k]);
            assert((e0 + er)[e0.len() + k] == er[k]);
        }
        lemma_parse_devices_at_pos(s, j, rest);
        assert(cleared(ds) =~= seq![DeviceModel { is_mirroring: false, ..d0 }] + cleared(rest));
    }
}

/// Registry persistence: decoding an encoded state yields the state back,
/// transient fields aside. Reloading from disk restores the snapshot the
/// mutation sequence left, with the mirroring marks and the pending mirror
/// cleared.
#[verifier::rlimit(100)]
#[verifier::spinoff_prover]
pub proof fn lemma_persist_round_trip(m: StateModel)
    requires
        persistable(m),
        ids_unique(m.devices),
    ensures
        parse_state(enc_state(m)) == Option::Some(persistent_of(m)),
{
    let s = enc_state(m);
    let b1 = enc_bool(m.zoom_enabled);
    let b2 = enc_bool(m.auto_connect);
    let b3 = enc_bool(m.media_playing);
    let cnt = pad10(m.devices.len());
    let body = enc_devices(m.devices);
    assert(s.len() == 13 + body.len());
    assert(s[0] == b1[0]);
    lemma_parse_bool_at_pos(s, 0, m.zoom_enabled);
    assert(s[1] == b2[0]);
    lemma_parse_bool_at_pos(s, 1, m.auto_connect);
    assert(s[2] == b3[0]);
    lemma_parse_bool_at_pos(s, 2, m.media_playing);
    assert forall|k: int| 0 <= k < 10 implies #[trigger] s[3 + k] == cnt[k] by {}
    lemma_parse_len_at_pos(s, 3, m.devices.len());
    assert(devices_persistable(m.devices));
    assert forall|k: int| 0 <= k < body.len() implies #[trigger] s[13 + k] == body[k] by {}
    lemma_parse_devices_at_pos(s, 13, m.devices);
    assert(ids_unique(cleared(m.devices))) by {
        assert forall|i: int, j: int|
            0 <= i < cleared(m.devices).len() && 0 <= j < cleared(m.devices).len() && i
                != j implies cleared(m.devices)[i].id != cleared(m.devices)[j].id by {
            assert(cleared(m.devices)[i].id == m.devices[i].id);
            assert(cleared(m.devices)[j].id == m.devices[j].id);
        }
    }
    assert(parse_state(s) == Option::Some(persistent_of(m)));
}


/// Encoded device lists concatenate record by record.
proof fn lemma_enc_devices_concat(a: Seq<DeviceModel>, b: Seq<DeviceModel>)
    ensures
        enc_devices(a + b) == enc_devices(a) + enc_devices(b),
    decreases a.len(),
{
    if a.len() == 0 {
        assert(a + b =~= b);
        assert(enc_devices(a) + enc_devices(b) =~= enc_devices(b));
    } else {
        lemma_enc_devices_concat(a.drop_first(), b);
        assert((a + b).drop_first() =~= a.drop_first() + b);
        assert((a + b)[0] == a[0]);
        assert(enc_devices(a + b) =~= enc_devices(a) + enc_devices(b));
    }
}

/// Appends a length as exactly ten decimal digits.
fn push_pad10(out: &mut String, n: u64)
    requires
        n < 10000000000,
    ensures
        final(out)@ == old(out)@ + pad10(n as nat),
{
    out.append(crate::fmt::digit_str(n / 1000000000 % 10));
    out.append(crate::fmt::digit_str(n / 100000000 % 10));
    out.append(crate::fmt::digit_str(n / 10000000 % 10));
    out.append(crate::fmt::digit_str(n / 1000000 % 10));
    out.append(crate::fmt::digit_str(n / 100000 % 10));
    out.append(crate::fmt::digit_str(n / 10000 % 10));
    out.append(crate::fmt::digit_str(n / 1000 % 10));
    out.append(crate::fmt::digit_str(n / 100 % 10));
    out.append(crate::fmt::digit_str(n / 10 % 10));
    out.append(crate::fmt::digit_str(n % 10));
    assert(final(out)@ =~= old(out)@ + pad10(n as nat));
}

/// Appends one flag character.
fn push_bool(out: &mut String, b: bool)
    ensures
        final(out)@ == old(out)@ + enc_bool(b),
{
    proof {
        reveal_strlit("1");
        reveal_strlit("0");
    }
    if b {
        out.append("1");
    } else {
        out.append("0");
    }
    assert(final(out)@ =~= old(out)@ + enc_bool(b));
}

/// Appends one status character.
fn push_status(out: &mut String, st: DeviceStatus)
    ensures
        final(out)@ == old(out)@ + enc_status(st),
{
    proof {
        reveal_strlit("P");
        reveal_strlit("T");
        reveal_strlit("D");
        reveal_strlit("B");
    }
    match st {
        DeviceStatus::Pending => out.append("P"),
        DeviceStatus::Trusted => out.append("T"),
        DeviceStatus::Declined => out.append("D"),
        DeviceStatus::Blocked => out.append("B"),
    }
    assert(final(out)@ =~= old(out)@ + enc_status(st));
}

/// Appends one length-prefixed string field.
fn push_str_field(out: &mut String, v: &str)
    requires
        v@.len() < 10000000000,
    ensures
        final(out)@ == old(out)@ + enc_str(v@),
{
    let n = v.unicode_len();
    push_pad10(out, n as u64);
    out.append(v);
    assert(final(out)@ =~= old(out)@ + enc_str(v@));
}

/// An encoded device list grows record by record.
#[verifier::rlimit(100)]
#[verifier::spinoff_prover]
proof fn lemma_enc_devices_push(ds: Seq<DeviceModel>, d: DeviceModel)
    ensures
        enc_devices(ds.push(d)) == enc_devices(ds) + enc_device(d),
{
    lemma_enc_devices_concat(ds, seq![d]);
    assert(ds.push(d) =~= ds + seq![d]);
    assert(seq![d].drop_first() =~= Seq::<DeviceModel>::empty());
    assert(enc_devices(seq![d]) == enc_device(d) + enc_devices(Seq::<DeviceModel>::empty()));
    assert(enc_device(d) + Seq::<char>::empty() =~= enc_device(d));
}

/// Appends one encoded device record.
#[verifier::spinoff_prover]
fn push_device(out: &mut String, d: &DeviceInfo)
    requires
        device_persistable(d@),
    ensures
        final(out)@ == old(out)@ + enc_device(d@),
{
    push_str_field(out, d.id.as_str());
    push_str_field(out, d.name.as_str());
    push_str_field(out, d.ip.as_str());
    push_status(out, d.status);
    push_bool(out, d.auto_reconnect);
    assert(final(out)@ =~= old(out)@ + enc_device(d@));
}

/// Serialises the state blob for the on-disk file. Nothing real ever
/// exceeds the ten-digit length bound; a state that somehow does is
/// refused rather than written corruptly.
#[verifier::rlimit(100)]
#[verifier::spinoff_prover]
pub fn encode_state(state: &AppState) -> (r: Option<String>)
    ensures
        persistable(state@) ==> (r matches Some(s) && s@ == enc_state(state@)),
        !persistable(state@) ==> r is None,
{
    if state.devices.len() as u64 >= 10000000000 {
        return None;
    }
    let mut i: usize = 0;
    while i < state.devices.len()
        invariant
            i <= state@.devices.len(),
            forall|k: int|
                0 <= k < i ==> device_persistable(#[trigger] state.devices@[k]@),
        decreases state@.devices.len() - i,
    {
        let too_long = state.devices[i].id.as_str().unicode_len() as u64 >= 10000000000
            || state.devices[i].name.as_str().unicode_len() as u64 >= 10000000000 || state.devices[
        i].ip.as_str().unicode_len() as u64 >= 10000000000;
        if too_long {
            proof {
                assert(state@.devices[i as int] == state.devices@[i as int]@);
                assert(!device_persistable(state@.devices[i as int]));
                assert(!persistable(state@));
            }
            return None;
        }
        i = i + 1;
    }
    proof {
        assert forall|k: int| 0 <= k < state@.devices.len() implies (
        #[trigger] state@.devices[k]).id.len() < 10000000000 && state@.devices[k].name.len()
            < 10000000000 && state@.devices[k].ip.len() < 10000000000 by {
            assert(state@.devices[k] == state.devices@[k]@);
            assert(device_persistable(state.devices@[k]@));
        }
        assert(persistable(state@));
    }
    let mut out = String::new();
    push_bool(&mut out, state.zoom_enabled);
    push_bool(&mut out, state.auto_connect);
    push_bool(&mut out, state.media_playing);
    push_pad10(&mut out, state.devices.len() as u64);
    let ghost header = out@;
    let ghost devs = state@.devices;
    let mut k: usize = 0;
    while k < state.devices.len()
        invariant
            k <= devs.len(),
            devs == state@.devices,
            devs.len() == state.devices@.len(),
            forall|t: int| 0 <= t < devs.len() ==> device_persistable(#[trigger] devs[t]),
            forall|t: int| 0 <= t < devs.len() ==> #[trigger] state.devices@[t]@ == devs[t],
            out@ == header + enc_devices(devs.take(k as int)),
        decreases devs.len() - k,
    {
        let ghost pre = devs.take(k as int);
        let d = &state.devices[k];
        assert(d@ == devs[k as int]);
        push_device(&mut out, d);
        k = k + 1;
        proof {
            assert(devs.take(k as int) =~= pre.push(devs[k - 1]));
            lemma_enc_devices_push(pre, devs[k - 1]);
        }
    }
    proof {
        assert(devs.take(devs.len() as int) =~= devs);
        assert(out@ =~= enc_state(state@));
    }
    Some(out)
}

/// Reads the ten-digit length at `i`.
fn read_len(s: &str, slen: usize, i: usize) -> (r: Option<(u64, usize)>)
    requires
        slen == s@.len(),
    ensures
        parse_len_at(s@, i as int) matches Some(p) ==> (r matches Some(q) && q.0 == p.0 && q.1
            == p.1),
        parse_len_at(s@, i as int) is None ==> r is None,
{
    if slen < 10 || i > slen - 10 {
        assert(!digits10_ok(s@, i as int));
        return None;
    }
    let mut value: u64 = 0;
    let mut k: usize = 0;
    while k < 10
        invariant
            slen == s@.len(),
            i + 10 <= slen,
            k <= 10,
            forall|t: int| 0 <= t < k ==> digit_of(#[trigger] s@[i + t]) >= 0,
            value < pow10k(k as int),
            value == partial_value(s@, i as int, k as int),
        decreases 10 - k,
    {
        let c = s.get_char(i + k);
        let d: u64 = match c {
            '0' => 0,
            '1' => 1,
            '2' => 2,
            '3' => 3,
            '4' => 4,
            '5' => 5,
            '6' => 6,
            '7' => 7,
            '8' => 8,
            '9' => 9,
            _ => {
                assert(digit_of(s@[i + k]) < 0);
                assert(!digits10_ok(s@, i as int));
                return None;
            },
        };
        assert(d == digit_of(s@[i + k]));
        value = value * 10 + d;
        k = k + 1;
        proof {
            assert(value == partial_value(s@, i as int, k as int));
            assert forall|t: int| 0 <= t < k implies digit_of(#[trigger] s@[i + t]) >= 0 by {}
        }
    }
    proof {
        assert(digits10_ok(s@, i as int));
        reveal_with_fuel(partial_value, 11);
        assert(value == value10(s@, i as int));
    }
    Some((value, i + 10))
}

/// The value of the first `k` of the ten digits at `i`.
spec fn partial_value(s: Seq<char>, i: int, k: int) -> int
    decreases k,
{
    if k <= 0 {
        0
    } else {
        partial_value(s, i, k - 1) * 10 + digit_of(s[i + k - 1])
    }
}

/// Powers of ten up to the ten-digit bound.
spec fn pow10k(k: int) -> int {
    if k <= 0 {
        1
    } else if k == 1 {
        10
    } else if k == 2 {
        100
    } else if k == 3 {
        1000
    } else if k == 4 {
        10000
    } else if k == 5 {
        100000
    } else if k == 6 {
        1000000
    } else if k == 7 {
        10000000
    } else if k == 8 {
        100000000
    } else if k == 9 {
        1000000000
    } else {
        10000000000
    }
}

/// Reads the length-prefixed string at `i`.
fn read_str_field(s: &str, slen: usize, i: usize) -> (r: Option<(String, usize)>)
    requires
        slen == s@.len(),
    ensures
        parse_str_at(s@, i as int) matches Some(p) ==> (r matches Some(q) && q.0@ == p.0 && q.1
            == p.1),
        parse_str_at(s@, i as int) is None ==> r is None,
{
    let n_j = read_len(s, slen, i);
    match n_j {
        Some((n, j)) => {
            if n > (slen as u64) || (j as u64) > (slen as u64) - n {
                assert(parse_str_at(s@, i as int) is None);
                return None;
            }
            let n_us: usize = n as usize;
            let v = s.substring_char(j, j + n_us);
            Some((String::from_str(v), j + n_us))
        },
        None => None,
    }
}

/// Reads the flag character at `i`.
fn read_bool(s: &str, slen: usize, i: usize) -> (r: Option<(bool, usize)>)
    requires
        slen == s@.len(),
    ensures
        parse_bool_at(s@, i as int) matches Some(p) ==> (r matches Some(q) && q.0 == p.0 && q.1
            == p.1),
        parse_bool_at(s@, i as int) is None ==> r is None,
{
    if i >= slen {
        return None;
    }
    let c = s.get_char(i);
    if c == '1' {
        Some((true, i + 1))
    } else if c == '0' {
        Some((false, i + 1))
    } else {
        None
    }
}

/// Reads the status character at `i`.
fn read_status(s: &str, slen: usize, i: usize) -> (r: Option<(DeviceStatus, usize)>)
    requires
        slen == s@.len(),
    ensures
        parse_status_at(s@, i as int) matches Some(p) ==> (r matches Some(q) && q.0 == p.0 && q.1
            == p.1),
        parse_status_at(s@, i as int) is None ==> r is None,
{
    if i >= slen {
        return None;
    }
    let c = s.get_char(i);
    if c == 'P' {
        Some((DeviceStatus::Pending, i + 1))
    } else if c == 'T' {
        Some((DeviceStatus::Trusted, i + 1))
    } else if c == 'D' {
        Some((DeviceStatus::Declined, i + 1))
    } else if c == 'B' {
        Some((DeviceStatus::Blocked, i + 1))
    } else {
        None
    }
}

/// Reads one device record at `i`.
fn read_device(s: &str, slen: usize, i: usize) -> (r: Option<(DeviceInfo, usize)>)
    requires
        slen == s@.len(),
    ensures
        parse_device_at(s@, i as int) matches Some(p) ==> (r matches Some(q) && q.0@ == p.0 && q.1
            == p.1),
        parse_device_at(s@, i as int) is None ==> r is None,
{
    let id_j = read_str_field(s, slen, i);
    let (id, j1) = match id_j {
        Some(p) => p,
        None => {
            return None;
        },
    };
    let name_j = read_str_field(s, slen, j1);
    let (name, j2) = match name_j {
        Some(p) => p,
        None => {
            return None;
        },
    };
    let ip_j = read_str_field(s, slen, j2);
    let (ip, j3) = match ip_j {
        Some(p) => p,
        None => {
            return None;
        },
    };
    let st_j = read_status(s, slen, j3);
    let (st, j4) = match st_j {
        Some(p) => p,
        None => {
            return None;
        },
    };
    let auto_j = read_bool(s, slen, j4);
    let (auto, j5) = match auto_j {
        Some(p) => p,
        None => {
            return None;
        },
    };
    Some(
        (
            DeviceInfo {
                id,
                name,
                status: st,
                ip,
                auto_reconnect: auto,
                is_mirroring: false,
            },
            j5,
        ),
    )
}

/// Parses the on-disk form back into a state blob: the persisted registry
/// and flags, with the transient mirror fields empty. Malformed text, text
/// with trailing bytes and duplicate device ids are all refused.
pub fn decode_state(s: &str) -> (r: Option<AppState>)
    ensures
        parse_state(s@) matches Some(m) ==> (r matches Some(st) && st@ == m && st.wf()),
        parse_state(s@) is None ==> r is None,
{
    let slen = s.unicode_len();
    let zoom_i = read_bool(s, slen, 0);
    let (zoom, i1) = match zoom_i {
        Some(p) => p,
        None => {
            return None;
        },
    };
    let auto_i = read_bool(s, slen, i1);
    let (auto, i2) = match auto_i {
        Some(p) => p,
        None => {
            return None;
        },
    };
    let media_i = read_bool(s, slen, i2);
    let (media, i3) = match media_i {
        Some(p) => p,
        None => {
            return None;
        },
    };
    let count_i = read_len(s, slen, i3);
    let (count, i4) = match count_i {
        Some(p) => p,
        None => {
            return None;
        },
    };
    let mut devices: Vec<DeviceInfo> = Vec::new();
    let mut cur: usize = i4;
    let mut remaining: u64 = count;
    proof {
        assert(devices@.map_values(|d: DeviceInfo| d@) =~= Seq::<DeviceModel>::empty());
    }
    while remaining > 0
        invariant
            slen == s@.len(),
            parse_bool_at(s@, 0) == Option::<(bool, int)>::Some((zoom, i1 as int)),
            parse_bool_at(s@, i1 as int) == Option::<(bool, int)>::Some((auto, i2 as int)),
            parse_bool_at(s@, i2 as int) == Option::<(bool, int)>::Some((media, i3 as int)),
            parse_len_at(s@, i3 as int) == Option::<(nat, int)>::Some((count as nat, i4 as int)),
            remaining <= count,
            parse_devices_at(s@, i4 as int, count as nat) == (match parse_devices_at(
                s@,
                cur as int,
                remaining as nat,
            ) {
                Option::Some((ds, j)) => Option::Some(
                    (devices@.map_values(|d: DeviceInfo| d@) + ds, j),
                ),
                Option::None => Option::<(Seq<DeviceModel>, int)>::None,
            }),
        decreases remaining,
    {
        let ghost built = devices@.map_values(|d: DeviceInfo| d@);
        let d_j = read_device(s, slen, cur);
        match d_j {
            Some((d, j)) => {
                devices.push(d);
                cur = j;
                remaining = remaining - 1;
                proof {
                    let now = devices@.map_values(|dd: DeviceInfo| dd@);
                    assert(now =~= built.push(devices@.last()@));
                    match parse_devices_at(s@, cur as int, remaining as nat) {
                        Option::Some((ds, jj)) => {
                            assert(built.push(devices@.last()@) + ds =~= built + (seq![
                                devices@.last()@,
                            ] + ds));
                        },
                        Option::None => {
                        },
                    }
                }
            },
            None => {
                return None;
            },
        }
    }
    proof {
        assert(parse_devices_at(s@, cur as int, 0) == Option::<(Seq<DeviceModel>, int)>::Some(
            (Seq::<DeviceModel>::empty(), cur as int),
        ));
        assert(devices@.map_values(|d: DeviceInfo| d@) + Seq::<DeviceModel>::empty()
            =~= devices@.map_values(|d: DeviceInfo| d@));
    }
    if cur != slen {
        return None;
    }
    let mut a: usize = 0;
    while a < devices.len()
        invariant
            slen == s@.len(),
            parse_bool_at(s@, 0) == Option::<(bool, int)>::Some((zoom, i1 as int)),
            parse_bool_at(s@, i1 as int) == Option::<(bool, int)>::Some((auto, i2 as int)),
            parse_bool_at(s@, i2 as int) == Option::<(bool, int)>::Some((media, i3 as int)),
            parse_len_at(s@, i3 as int) == Option::<(nat, int)>::Some((count as nat, i4 as int)),
            parse_devices_at(s@, i4 as int, count as nat) == Option::<
                (Seq<DeviceModel>, int),
            >::Some((devices@.map_values(|d: DeviceInfo| d@), cur as int)),
            cur == slen,
            forall|x: int, y: int|
                #![trigger devices@[x], devices@[y]]
                0 <= x < a && 0 <= y < x ==> devices@[x]@.id != devices@[y]@.id,
            a <= devices@.len(),
        decreases devices@.len() - a,
    {
        let mut b: usize = 0;
        while b < a
            invariant
            slen == s@.len(),
            parse_bool_at(s@, 0) == Option::<(bool, int)>::Some((zoom, i1 as int)),
            parse_bool_at(s@, i1 as int) == Option::<(bool, int)>::Some((auto, i2 as int)),
            parse_bool_at(s@, i2 as int) == Option::<(bool, int)>::Some((media, i3 as int)),
            parse_len_at(s@, i3 as int) == Option::<(nat, int)>::Some((count as nat, i4 as int)),
                parse_devices_at(s@, i4 as int, count as nat) == Option::<
                    (Seq<DeviceModel>, int),
                >::Some((devices@.map_values(|d: DeviceInfo| d@), cur as int)),
                cur == slen,
                b <= a,
                a < devices@.len(),
                forall|y: int|
                    #![trigger devices@[y]]
                    0 <= y < b ==> devices@[a as int]@.id != devices@[y]@.id,
            decreases a - b,
        {
            if crate::registry::str_eq(devices[a].id.as_str(), devices[b].id.as_str()) {
                proof {
                    let ms = devices@.map_values(|d: DeviceInfo| d@);
                    assert(ms[a as int].id == ms[b as int].id);
                    assert(!ids_unique(ms));
                }
                return None;
            }
            b = b + 1;
        }
        a = a + 1;
    }
    proof {
        let ms = devices@.map_values(|d: DeviceInfo| d@);
        assert forall|x: int, y: int|
            0 <= x < ms.len() && 0 <= y < ms.len() && x != y implies ms[x].id != ms[y].id by {
            assert(ms[x].id == devices@[x]@.id);
            assert(ms[y].id == devices@[y]@.id);
        }
        assert(ids_unique(ms));
    }
    Some(
        AppState {
            devices,
            media_playing: media,
            zoom_enabled: zoom,
            auto_connect: auto,
            pending_mirror: None,
            mirroring_device: None,
        },
    )
}

} // verus!
