//! Smoothed pointer-state manager: one record per device, targets written by
//! network events, current position moved only by the fixed tick, overlay
//! datagrams emitted as pipe-delimited text. Coordinates are held in
//! ten-thousandths of the unit square, sizes and factors in hundredths.
use vstd::prelude::*;
use crate::fmt::fixed2_chars;
use crate::fmt::fixed4_chars;
use crate::fmt::dec_signed;
use crate::fmt::push_fixed2;
use crate::fmt::push_fixed4;
use crate::fmt::push_i64;
use crate::registry::str_eq;

verus! {

/// Mathematical model of one pointer record.
pub struct PointerModel {
    pub device_id: Seq<char>,
    pub active: bool,
    pub mode: i32,
    pub size_c: i32,
    pub current_x: i32,
    pub current_y: i32,
    pub target_x: i32,
    pub target_y: i32,
    pub color: Seq<char>,
    pub zoom_c: i32,
    pub particle: i32,
    pub stretch_c: i32,
    pub has_image: bool,
    pub zoom_enabled: bool,
    pub pulse_speed_c: i32,
    pub pulse_intensity_c: i32,
}

/// One device's pointer state.
pub struct PointerRecord {
    pub device_id: String,
    pub active: bool,
    pub mode: i32,
    pub size_c: i32,
    pub current_x: i32,
    pub current_y: i32,
    pub target_x: i32,
    pub target_y: i32,
    pub color: String,
    pub zoom_c: i32,
    pub particle: i32,
    pub stretch_c: i32,
    pub has_image: bool,
    pub zoom_enabled: bool,
    pub pulse_speed_c: i32,
    pub pulse_intensity_c: i32,
}

impl View for PointerRecord {
    type V = PointerModel;

    open spec fn view(&self) -> PointerModel {
        PointerModel {
            device_id: self.device_id@,
            active: self.active,
            mode: self.mode,
            size_c: self.size_c,
            current_x: self.current_x,
            current_y: self.current_y,
            target_x: self.target_x,
            target_y: self.target_y,
            color: self.color@,
            zoom_c: self.zoom_c,
            particle: self.particle,
            stretch_c: self.stretch_c,
            has_image: self.has_image,
            zoom_enabled: self.zoom_enabled,
            pulse_speed_c: self.pulse_speed_c,
            pulse_intensity_c: self.pulse_intensity_c,
        }
    }
}

/// One damping step of a single coordinate: moves `c` toward `t` by the
/// fraction `n / d` of the remaining distance, truncated, but at least one
/// ten-thousandth when any time has passed. Never overshoots.
pub open spec fn damp_step(c: int, t: int, n: int, d: int) -> int
    recommends
        0 <= n <= d,
        d > 0,
{
    let mag = if t >= c {
        t - c
    } else {
        c - t
    };
    let mv0 = mag * n / d;
    let mv = if mv0 == 0 && mag > 0 && n > 0 {
        1
    } else {
        mv0
    };
    if t >= c {
        c + mv
    } else {
        c - mv
    }
}

/// The damping step stays between the old position and the target: it
/// closes distance and never overshoots.
pub proof fn lemma_damp_step_bounds(c: int, t: int, n: int, d: int)
    requires
        0 <= n <= d,
        d > 0,
    ensures
        c <= t ==> c <= damp_step(c, t, n, d) <= t,
        c >= t ==> t <= damp_step(c, t, n, d) <= c,
{
    let mag = if t >= c {
        t - c
    } else {
        c - t
    };
    assert(mag >= 0);
    assert(mag * n / d >= 0) by (nonlinear_arith)
        requires
            mag >= 0,
            n >= 0,
            d > 0,
    ;
    assert(mag * n / d <= mag) by (nonlinear_arith)
        requires
            mag >= 0,
            0 <= n <= d,
            d > 0,
    ;
    if mag > 0 {
        assert(1 <= mag);
    }
}

/// Damping never overshoots in the plane: the squared Euclidean distance
/// from the old position to the new one is at most the squared distance
/// from the old position to the target.
pub proof fn lemma_damp_never_overshoots(cx: int, cy: int, tx: int, ty: int, n: int, d: int)
    requires
        0 <= n <= d,
        d > 0,
    ensures
        ({
            let nx = damp_step(cx, tx, n, d);
            let ny = damp_step(cy, ty, n, d);
            (nx - cx) * (nx - cx) + (ny - cy) * (ny - cy) <= (tx - cx) * (tx - cx) + (ty - cy) * (ty
                - cy)
        }),
{
    let nx = damp_step(cx, tx, n, d);
    let ny = damp_step(cy, ty, n, d);
    lemma_damp_step_bounds(cx, tx, n, d);
    lemma_damp_step_bounds(cy, ty, n, d);
    assert((nx - cx) * (nx - cx) <= (tx - cx) * (tx - cx)) by (nonlinear_arith)
        requires
            (cx <= nx <= tx) || (tx <= nx <= cx),
    ;
    assert((ny - cy) * (ny - cy) <= (ty - cy) * (ty - cy)) by (nonlinear_arith)
        requires
            (cy <= ny <= ty) || (ty <= ny <= cy),
    ;
}

/// The interpolation fraction for one pointer and one tick: faster damping
/// while far from the target, clamped to reach the target at large `dt`.
/// The fraction is `tick_num / TICK_DEN`.
pub open spec fn tick_num(p: PointerModel, dt_micros: nat) -> nat {
    let dx = p.target_x - p.current_x;
    let dy = p.target_y - p.current_y;
    let dist_sq = dx * dx + dy * dy;
    let factor: nat = if dist_sq > 100000 {
        120
    } else {
        75
    };
    let capped_dt: nat = if dt_micros > 1000000 {
        1000000
    } else {
        dt_micros
    };
    if factor * capped_dt > 1000000 {
        1000000
    } else {
        factor * capped_dt
    }
}

/// Denominator of the interpolation fraction: one second in microseconds.
pub const TICK_DEN: u64 = 1000000;

/// A pointer record after one tick: an active pointer's current position is
/// damped toward its target; an inactive record is untouched.
pub open spec fn ticked(p: PointerModel, dt_micros: nat) -> PointerModel {
    if p.active {
        let n = tick_num(p, dt_micros);
        PointerModel {
            current_x: damp_step(p.current_x as int, p.target_x as int, n as int, 1000000) as i32,
            current_y: damp_step(p.current_y as int, p.target_y as int, n as int, 1000000) as i32,
            ..p
        }
    } else {
        p
    }
}

/// The position datagram of one pointer record, as emitted to the overlay:
/// `id|x,y,mode,size,color,zoom,particle,has_image,stretch,pulse_speed,
/// pulse_intensity` with four fraction digits on coordinates and two on the
/// factors.
pub open spec fn pos_datagram(p: PointerModel) -> Seq<char> {
    p.device_id + seq!['|'] + fixed4_chars(p.current_x as int) + seq![','] + fixed4_chars(
        p.current_y as int,
    ) + seq![','] + dec_signed(p.mode as int) + seq![','] + fixed2_chars(p.size_c as int) + seq![
        ',',
    ] + p.color + seq![','] + fixed2_chars(p.zoom_c as int) + seq![','] + dec_signed(
        p.particle as int,
    ) + seq![','] + (if p.has_image {
        seq!['1']
    } else {
        seq!['0']
    }) + seq![','] + fixed2_chars(p.stretch_c as int) + seq![','] + fixed2_chars(
        p.pulse_speed_c as int,
    ) + seq![','] + fixed2_chars(p.pulse_intensity_c as int)
}

/// The datagrams one tick emits: one position datagram per active pointer,
/// in registry order.
pub open spec fn tick_datagrams(s: Seq<PointerModel>, dt_micros: nat) -> Seq<Seq<char>>
    decreases s.len(),
{
    if s.len() == 0 {
        Seq::empty()
    } else {
        (if s[0].active {
            seq![pos_datagram(ticked(s[0], dt_micros))]
        } else {
            Seq::<Seq<char>>::empty()
        }) + tick_datagrams(s.drop_first(), dt_micros)
    }
}

/// Tick datagrams distribute over concatenation of pointer lists.
proof fn lemma_tick_datagrams_concat(a: Seq<PointerModel>, b: Seq<PointerModel>, dt: nat)
    ensures
        tick_datagrams(a + b, dt) == tick_datagrams(a, dt) + tick_datagrams(b, dt),
    decreases a.len(),
{
    if a.len() == 0 {
        assert(a + b =~= b);
        assert(tick_datagrams(a, dt) + tick_datagrams(b, dt) =~= tick_datagrams(b, dt));
    } else {
        lemma_tick_datagrams_concat(a.drop_first(), b, dt);
        assert((a + b).drop_first() =~= a.drop_first() + b);
        assert((a + b)[0] == a[0]);
        assert(tick_datagrams(a + b, dt) =~= tick_datagrams(a, dt) + tick_datagrams(b, dt));
    }
}

/// The `id|START` control datagram.
pub open spec fn start_datagram(id: Seq<char>) -> Seq<char> {
    id + seq!['|', 'S', 'T', 'A', 'R', 'T']
}

/// The `id|STOP` control datagram.
pub open spec fn stop_datagram(id: Seq<char>) -> Seq<char> {
    id + seq!['|', 'S', 'T', 'O', 'P']
}

/// The `id|MODE:n` control datagram.
pub open spec fn mode_datagram(id: Seq<char>, mode: int) -> Seq<char> {
    id + seq!['|', 'M', 'O', 'D', 'E', ':'] + dec_signed(mode)
}

/// The `id|SIZE:x.xx` control datagram.
pub open spec fn size_datagram(id: Seq<char>, size_c: int) -> Seq<char> {
    id + seq!['|', 'S', 'I', 'Z', 'E', ':'] + fixed2_chars(size_c)
}

/// The `id|MONITOR:n` control datagram.
pub open spec fn monitor_datagram(id: Seq<char>, monitor: int) -> Seq<char> {
    id + seq!['|', 'M', 'O', 'N', 'I', 'T', 'O', 'R', ':'] + dec_signed(monitor)
}

/// The `id|TEST_SEQUENCE` control datagram.
pub open spec fn test_sequence_datagram(id: Seq<char>) -> Seq<char> {
    id + seq!['|', 'T', 'E', 'S', 'T', '_', 'S', 'E', 'Q', 'U', 'E', 'N', 'C', 'E']
}

/// The `id|START_CAPTURE` control datagram.
pub open spec fn start_capture_datagram(id: Seq<char>) -> Seq<char> {
    id + seq!['|', 'S', 'T', 'A', 'R', 'T', '_', 'C', 'A', 'P', 'T', 'U', 'R', 'E']
}

/// Clamps a wire coordinate into the unit square, in ten-thousandths.
pub open spec fn clamp_e4(v: int) -> int {
    if v < 0 {
        0
    } else if v > 10000 {
        10000
    } else {
        v
    }
}

/// Clamps a wire coordinate into the unit square, in ten-thousandths.
pub fn clamp_coord(v: i32) -> (r: i32)
    ensures
        r == clamp_e4(v as int),
{
    if v < 0 {
        0
    } else if v > 10000 {
        10000
    } else {
        v
    }
}

/// Formats the position datagram of one pointer record.
pub fn build_pos_datagram(p: &PointerRecord) -> (r: String)
    ensures
        r@ == pos_datagram(p@),
{
    proof {
        reveal_strlit("|");
        reveal_strlit(",");
        reveal_strlit("1");
        reveal_strlit("0");
    }
    let mut s = String::new();
    s.append(p.device_id.as_str());
    s.append("|");
    push_fixed4(&mut s, p.current_x);
    s.append(",");
    push_fixed4(&mut s, p.current_y);
    s.append(",");
    push_i64(&mut s, p.mode as i64);
    s.append(",");
    push_fixed2(&mut s, p.size_c);
    s.append(",");
    s.append(p.color.as_str());
    s.append(",");
    push_fixed2(&mut s, p.zoom_c);
    s.append(",");
    push_i64(&mut s, p.particle as i64);
    s.append(",");
    if p.has_image {
        s.append("1");
    } else {
        s.append("0");
    }
    s.append(",");
    push_fixed2(&mut s, p.stretch_c);
    s.append(",");
    push_fixed2(&mut s, p.pulse_speed_c);
    s.append(",");
    push_fixed2(&mut s, p.pulse_intensity_c);
    assert(s@ =~= pos_datagram(p@));
    s
}

/// Formats the `id|START` control datagram.
pub fn build_start_datagram(id: &str) -> (r: String)
    ensures
        r@ == start_datagram(id@),
{
    proof {
        reveal_strlit("|START");
    }
    let mut s = String::from_str(id);
    s.append("|START");
    assert(s@ =~= start_datagram(id@));
    s
}

/// Formats the `id|STOP` control datagram.
pub fn build_stop_datagram(id: &str) -> (r: String)
    ensures
        r@ == stop_datagram(id@),
{
    proof {
        reveal_strlit("|STOP");
    }
    let mut s = String::from_str(id);
    s.append("|STOP");
    assert(s@ =~= stop_datagram(id@));
    s
}

/// Formats the `id|MODE:n` control datagram.
pub fn build_mode_datagram(id: &str, mode: i32) -> (r: String)
    ensures
        r@ == mode_datagram(id@, mode as int),
{
    proof {
        reveal_strlit("|MODE:");
    }
    let mut s = String::from_str(id);
    s.append("|MODE:");
    push_i64(&mut s, mode as i64);
    assert(s@ =~= mode_datagram(id@, mode as int));
    s
}

/// Formats the `id|SIZE:x.xx` control datagram.
pub fn build_size_datagram(id: &str, size_c: i32) -> (r: String)
    ensures
        r@ == size_datagram(id@, size_c as int),
{
    proof {
        reveal_strlit("|SIZE:");
    }
    let mut s = String::from_str(id);
    s.append("|SIZE:");
    push_fixed2(&mut s, size_c);
    assert(s@ =~= size_datagram(id@, size_c as int));
    s
}

/// Formats the `id|MONITOR:n` control datagram.
pub fn build_monitor_datagram(id: &str, monitor: i32) -> (r: String)
    ensures
        r@ == monitor_datagram(id@, monitor as int),
{
    proof {
        reveal_strlit("|MONITOR:");
    }
    let mut s = String::from_str(id);
    s.append("|MONITOR:");
    push_i64(&mut s, monitor as i64);
    assert(s@ =~= monitor_datagram(id@, monitor as int));
    s
}

/// Formats the `id|TEST_SEQUENCE` control datagram.
pub fn build_test_sequence_datagram(id: &str) -> (r: String)
    ensures
        r@ == test_sequence_datagram(id@),
{
    proof {
        reveal_strlit("|TEST_SEQUENCE");
    }
    let mut s = String::from_str(id);
    s.append("|TEST_SEQUENCE");
    assert(s@ =~= test_sequence_datagram(id@));
    s
}

/// Formats the `id|START_CAPTURE` control datagram.
pub fn build_start_capture_datagram(id: &str) -> (r: String)
    ensures
        r@ == start_capture_datagram(id@),
{
    proof {
        reveal_strlit("|START_CAPTURE");
    }
    let mut s = String::from_str(id);
    s.append("|START_CAPTURE");
    assert(s@ =~= start_capture_datagram(id@));
    s
}

/// The fields a pointer-data message writes into a record.
pub struct PointerUpdate {
    pub active: bool,
    pub mode: i32,
    pub pitch_e4: i32,
    pub roll_e4: i32,
    pub size_c: i32,
    pub color: String,
    pub zoom_c: i32,
    pub particle: i32,
    pub stretch_c: i32,
    pub has_image: bool,
    pub pulse_speed_c: i32,
    pub pulse_intensity_c: i32,
}

/// The record a pointer-data message leaves behind, over the previous
/// record if the device had one. On the first `active` the current position
/// jumps to the target to avoid a visual sweep; afterwards only the tick
/// moves it. Targets are written by network events alone, and only while
/// active.
pub open spec fn update_model(
    prev: Option<PointerModel>,
    id: Seq<char>,
    u: PointerUpdate,
) -> PointerModel {
    let x = clamp_e4(u.roll_e4 as int) as i32;
    let y = clamp_e4(u.pitch_e4 as int) as i32;
    let base = match prev {
        Option::Some(p) => p,
        Option::None => PointerModel {
            device_id: id,
            active: false,
            mode: 0,
            size_c: 100,
            current_x: x,
            current_y: y,
            target_x: x,
            target_y: y,
            color: u.color@,
            zoom_c: 100,
            particle: 0,
            stretch_c: 100,
            has_image: false,
            zoom_enabled: false,
            pulse_speed_c: 100,
            pulse_intensity_c: 0,
        },
    };
    PointerModel {
        device_id: base.device_id,
        active: u.active,
        mode: u.mode,
        size_c: u.size_c,
        current_x: if u.active && !base.active {
            x
        } else {
            base.current_x
        },
        current_y: if u.active && !base.active {
            y
        } else {
            base.current_y
        },
        target_x: if u.active {
            x
        } else {
            base.target_x
        },
        target_y: if u.active {
            y
        } else {
            base.target_y
        },
        color: u.color@,
        zoom_c: u.zoom_c,
        particle: u.particle,
        stretch_c: u.stretch_c,
        has_image: u.has_image,
        zoom_enabled: base.zoom_enabled,
        pulse_speed_c: u.pulse_speed_c,
        pulse_intensity_c: u.pulse_intensity_c,
    }
}

/// The control datagrams a pointer-data message emits: one START on
/// activation, one STOP on deactivation, and discrete MODE and SIZE
/// datagrams only while inactive.
pub open spec fn update_datagrams(
    prev: Option<PointerModel>,
    id: Seq<char>,
    u: PointerUpdate,
) -> Seq<Seq<char>> {
    let was_active = match prev {
        Option::Some(p) => p.active,
        Option::None => false,
    };
    let old_mode = match prev {
        Option::Some(p) => p.mode,
        Option::None => 0,
    };
    let old_size = match prev {
        Option::Some(p) => p.size_c,
        Option::None => 100,
    };
    let mode_changed = old_mode != u.mode;
    let size_changed = old_size - u.size_c > 1 || u.size_c - old_size > 1;
    (if !was_active && u.active {
        seq![start_datagram(id)]
    } else if was_active && !u.active {
        seq![stop_datagram(id)]
    } else {
        Seq::<Seq<char>>::empty()
    }) + (if !u.active && mode_changed {
        seq![mode_datagram(id, u.mode as int)]
    } else {
        Seq::<Seq<char>>::empty()
    }) + (if !u.active && size_changed {
        seq![size_datagram(id, u.size_c as int)]
    } else {
        Seq::<Seq<char>>::empty()
    })
}

/// Per-device smoothed pointer state. Targets are written by network
/// events; current positions move only under `tick`.
pub struct PointerManager {
    pointers: Vec<PointerRecord>,
}

impl View for PointerManager {
    type V = Seq<PointerModel>;

    closed spec fn view(&self) -> Seq<PointerModel> {
        self.pointers@.map_values(|p: PointerRecord| p@)
    }
}

/// All coordinates of a pointer record lie in the unit square.
pub open spec fn coords_in_range(p: PointerModel) -> bool {
    0 <= p.current_x <= 10000 && 0 <= p.current_y <= 10000 && 0 <= p.target_x <= 10000 && 0
        <= p.target_y <= 10000
}

impl PointerManager {
    /// Device ids are unique and every coordinate lies in the unit square.
    pub open spec fn wf(&self) -> bool {
        (forall|i: int, j: int|
            0 <= i < self@.len() && 0 <= j < self@.len() && i != j ==> self@[i].device_id
                != self@[j].device_id) && (forall|i: int|
            0 <= i < self@.len() ==> coords_in_range(#[trigger] self@[i]))
    }

    /// A manager that tracks no pointers yet.
    pub fn new() -> (r: PointerManager)
        ensures
            r@.len() == 0,
            r.wf(),
    {
        PointerManager { pointers: Vec::new() }
    }

    /// The index of this device's record, if it has one.
    pub fn find(&self, device_id: &str) -> (r: Option<usize>)
        ensures
            r matches Some(i) ==> i < self@.len() && self@[i as int].device_id == device_id@,
            r is None ==> forall|k: int| 0 <= k < self@.len() ==> self@[k].device_id != device_id@,
    {
        let mut i: usize = 0;
        while i < self.pointers.len()
            invariant
                i <= self@.len(),
                forall|k: int| 0 <= k < i ==> self@[k].device_id != device_id@,
            decreases self@.len() - i,
        {
            if str_eq(self.pointers[i].device_id.as_str(), device_id) {
                return Some(i);
            }
            i = i + 1;
        }
        None
    }

    /// The zoom factor and current position of this device's pointer, with
    /// the centre of the screen at unit zoom for an unknown device.
    pub fn get_zoom_and_coords(&self, device_id: &str) -> (r: (i32, i32, i32))
        ensures
            (exists|i: int| 0 <= i < self@.len() && self@[i].device_id == device_id@) ==> exists|
                i: int,
            |
                0 <= i < self@.len() && self@[i].device_id == device_id@ && r == (
                    self@[i].zoom_c,
                    self@[i].current_x,
                    self@[i].current_y,
                ),
            !(exists|i: int| 0 <= i < self@.len() && self@[i].device_id == device_id@) ==> r == (
                100i32,
                5000i32,
                5000i32,
            ),
    {
        let idx = self.find(device_id);
        match idx {
            Some(i) => {
                let p = &self.pointers[i];
                (p.zoom_c, p.current_x, p.current_y)
            },
            None => (100, 5000, 5000),
        }
    }

    /// Applies one pointer-data message: writes the new targets and style,
    /// jumps the current position on first activation, and returns the
    /// control datagrams to emit, in order.
    pub fn update(&mut self, device_id: &str, u: PointerUpdate) -> (r: Vec<String>)
        requires
            old(self).wf(),
        ensures
            final(self).wf(),
            (exists|i: int| 0 <= i < old(self)@.len() && old(self)@[i].device_id == device_id@)
                ==> exists|i: int|
                0 <= i < old(self)@.len() && old(self)@[i].device_id == device_id@ && final(self)@
                    == old(self)@.update(i, update_model(Some(old(self)@[i]), device_id@, u))
                    && r@.map_values(|s: String| s@) == update_datagrams(
                    Some(old(self)@[i]),
                    device_id@,
                    u,
                ),
            !(exists|i: int| 0 <= i < old(self)@.len() && old(self)@[i].device_id == device_id@)
                ==> final(self)@ == old(self)@.push(update_model(None, device_id@, u))
                && r@.map_values(|s: String| s@) == update_datagrams(None, device_id@, u),
    {
        let x = clamp_coord(u.roll_e4);
        let y = clamp_coord(u.pitch_e4);
        let idx = self.find(device_id);
        let ghost prev: Option<PointerModel> = match idx {
            Some(i) => Some(old(self)@[i as int]),
            None => None,
        };
        let i: usize = match idx {
            Some(i) => i,
            None => {
                let fresh = PointerRecord {
                    device_id: String::from_str(device_id),
                    active: false,
                    mode: 0,
                    size_c: 100,
                    current_x: x,
                    current_y: y,
                    target_x: x,
                    target_y: y,
                    color: u.color.clone(),
                    zoom_c: 100,
                    particle: 0,
                    stretch_c: 100,
                    has_image: false,
                    zoom_enabled: false,
                    pulse_speed_c: 100,
                    pulse_intensity_c: 0,
                };
                let n = self.pointers.len();
                self.pointers.push(fresh);
                n
            },
        };
        let ghost mid = self@;
        let was_active = self.pointers[i].active;
        let old_mode = self.pointers[i].mode;
        let old_size = self.pointers[i].size_c;
        let mode_changed = old_mode != u.mode;
        let size_changed = (old_size as i64) - (u.size_c as i64) > 1 || (u.size_c as i64) - (
        old_size as i64) > 1;
        {
            let rec = &mut self.pointers[i];
            rec.active = u.active;
            rec.mode = u.mode;
            rec.size_c = u.size_c;
            rec.color = u.color.clone();
            rec.zoom_c = u.zoom_c;
            rec.particle = u.particle;
            rec.stretch_c = u.stretch_c;
            rec.has_image = u.has_image;
            rec.pulse_speed_c = u.pulse_speed_c;
            rec.pulse_intensity_c = u.pulse_intensity_c;
            if u.active {
                rec.target_x = x;
                rec.target_y = y;
                if !was_active {
                    rec.current_x = x;
                    rec.current_y = y;
                }
            }
        }
        proof {
            assert(self@ =~= mid.update(i as int, self@[i as int]));
            assert(self@[i as int] == update_model(prev, device_id@, u));
            if prev is Some {
                assert(self@ =~= old(self)@.update(i as int, update_model(prev, device_id@, u)));
            } else {
                assert(mid =~= old(self)@.push(mid[i as int]));
                assert(self@ =~= old(self)@.push(update_model(prev, device_id@, u)));
            }
            assert forall|a: int, b: int|
                0 <= a < self@.len() && 0 <= b < self@.len() && a != b implies self@[a].device_id
                != self@[b].device_id by {
                if prev is None {
                    if a < old(self)@.len() && b < old(self)@.len() {
                    } else if a < old(self)@.len() {
                        assert(old(self)@[a].device_id != device_id@);
                    } else if b < old(self)@.len() {
                        assert(old(self)@[b].device_id != device_id@);
                    }
                }
            }
        }
        let mut out: Vec<String> = Vec::new();
        if !was_active && u.active {
            out.push(build_start_datagram(device_id));
        } else if was_active && !u.active {
            out.push(build_stop_datagram(device_id));
        }
        if !u.active && mode_changed {
            out.push(build_mode_datagram(device_id, u.mode));
        }
        if !u.active && size_changed {
            out.push(build_size_datagram(device_id, u.size_c));
        }
        proof {
            assert(out@.map_values(|s: String| s@) =~= update_datagrams(prev, device_id@, u));
        }
        out
    }

    /// Latches this device's zoom-enabled flag; enabling it returns the
    /// capture-start control datagram to emit. Unknown devices are ignored.
    pub fn set_zoom_enabled(&mut self, device_id: &str, enabled: bool) -> (r: Option<String>)
        requires
            old(self).wf(),
        ensures
            final(self).wf(),
            final(self)@.len() == old(self)@.len(),
            forall|k: int|
                0 <= k < final(self)@.len() ==> {
                    let c = old(self)@[k];
                    let n = #[trigger] final(self)@[k];
                    if c.device_id == device_id@ {
                        n == PointerModel { zoom_enabled: enabled, ..c }
                    } else {
                        n == c
                    }
                },
            r matches Some(s) ==> s@ == start_capture_datagram(device_id@) && enabled && exists|
                k: int,
            | 0 <= k < old(self)@.len() && old(self)@[k].device_id == device_id@,
            r is None ==> !enabled || !(exists|k: int|
                0 <= k < old(self)@.len() && old(self)@[k].device_id == device_id@),
    {
        let idx = self.find(device_id);
        match idx {
            Some(i) => {
                let rec = &mut self.pointers[i];
                rec.zoom_enabled = enabled;
                proof {
                    assert(self@ =~= old(self)@.update(i as int, self@[i as int]));
                    assert forall|k: int|
                        0 <= k < self@.len() && old(self)@[k].device_id == device_id@ && k
                            != i implies false by {
                        assert(old(self)@[k].device_id == old(self)@[i as int].device_id);
                    }
                }
                if enabled {
                    Some(build_start_capture_datagram(device_id))
                } else {
                    None
                }
            },
            None => None,
        }
    }

    /// One damping step of a single coordinate.
    fn damp_coord(c: i32, t: i32, n: u64) -> (r: i32)
        requires
            n <= 1000000,
            0 <= c <= 10000,
            0 <= t <= 10000,
        ensures
            r == damp_step(c as int, t as int, n as int, 1000000),
            0 <= r <= 10000,
    {
        proof {
            lemma_damp_step_bounds(c as int, t as int, n as int, 1000000);
        }
        let ci: i64 = c as i64;
        let ti: i64 = t as i64;
        let mag: i64 = if ti >= ci {
            ti - ci
        } else {
            ci - ti
        };
        let mv0: i64 = mag * (n as i64) / 1000000;
        let mv: i64 = if mv0 == 0 && mag > 0 && n > 0 {
            1
        } else {
            mv0
        };
        if ti >= ci {
            (ci + mv) as i32
        } else {
            (ci - mv) as i32
        }
    }

    /// One tick of the interpolator: damps every active pointer toward its
    /// target and returns the position datagrams to emit, in registry
    /// order. `dt_micros` is the time since the previous tick.
    pub fn tick(&mut self, dt_micros: u64) -> (r: Vec<String>)
        requires
            old(self).wf(),
        ensures
            final(self).wf(),
            final(self)@ == old(self)@.map_values(
                |p: PointerModel| ticked(p, dt_micros as nat),
            ),
            r@.map_values(|s: String| s@) == tick_datagrams(old(self)@, dt_micros as nat),
    {
        let mut out: Vec<String> = Vec::new();
        let mut i: usize = 0;
        while i < self.pointers.len()
            invariant
                i <= self@.len(),
                self@.len() == old(self)@.len(),
                old(self).wf(),
                forall|k: int|
                    0 <= k < i ==> #[trigger] self@[k] == ticked(old(self)@[k], dt_micros as nat),
                forall|k: int| i <= k < self@.len() ==> #[trigger] self@[k] == old(self)@[k],
                out@.map_values(|s: String| s@) == tick_datagrams(
                    old(self)@.take(i as int),
                    dt_micros as nat,
                ),
            decreases self@.len() - i,
        {
            let ghost pre = self@;
            assert(pre[i as int] == old(self)@[i as int]);
            assert(coords_in_range(old(self)@[i as int]));
            if self.pointers[i].active {
                assert(self.pointers@[i as int]@ == self@[i as int]);
                assert(0 <= self@[i as int].target_x <= 10000);
                assert(0 <= self@[i as int].target_y <= 10000);
                assert(0 <= self@[i as int].current_x <= 10000);
                assert(0 <= self@[i as int].current_y <= 10000);
                let dx: i64 = (self.pointers[i].target_x as i64) - (
                self.pointers[i].current_x as i64);
                let dy: i64 = (self.pointers[i].target_y as i64) - (
                self.pointers[i].current_y as i64);
                assert(0 <= dx * dx <= 100000000) by (nonlinear_arith)
                    requires
                        -10000 <= dx <= 10000,
                ;
                assert(0 <= dy * dy <= 100000000) by (nonlinear_arith)
                    requires
                        -10000 <= dy <= 10000,
                ;
                let dist_sq: i64 = dx * dx + dy * dy;
                let factor: u64 = if dist_sq > 100000 {
                    120
                } else {
                    75
                };
                let capped_dt: u64 = if dt_micros > 1000000 {
                    1000000
                } else {
                    dt_micros
                };
                let n: u64 = if factor * capped_dt > 1000000 {
                    1000000
                } else {
                    factor * capped_dt
                };
                assert(n == tick_num(pre[i as int], dt_micros as nat));
                let nx = Self::damp_coord(self.pointers[i].current_x, self.pointers[i].target_x, n);
                let ny = Self::damp_coord(self.pointers[i].current_y, self.pointers[i].target_y, n);
                {
                    let rec = &mut self.pointers[i];
                    rec.current_x = nx;
                    rec.current_y = ny;
                }
                proof {
                    assert(self@ =~= pre.update(i as int, self@[i as int]));
                    assert(self@[i as int] == ticked(old(self)@[i as int], dt_micros as nat));
                }
                out.push(build_pos_datagram(&self.pointers[i]));
            } else {
                assert(self@[i as int] == ticked(old(self)@[i as int], dt_micros as nat));
            }
            i = i + 1;
            proof {
                let full = old(self)@;
                let dt = dt_micros as nat;
                assert(full.take(i as int) =~= full.take(i - 1) + seq![full[i - 1]]);
                lemma_tick_datagrams_concat(full.take(i - 1), seq![full[i - 1]], dt);
                assert(seq![full[i - 1]].drop_first() =~= Seq::<PointerModel>::empty());
                assert(tick_datagrams(Seq::<PointerModel>::empty(), dt) == Seq::<Seq<char>>::empty());
                assert(tick_datagrams(seq![full[i - 1]], dt) =~= (if full[i - 1].active {
                    seq![pos_datagram(ticked(full[i - 1], dt))]
                } else {
                    Seq::<Seq<char>>::empty()
                }));
                assert(out@.map_values(|s: String| s@) =~= tick_datagrams(full.take(i as int), dt));
            }
        }
        proof {
            assert(old(self)@.take(self@.len() as int) =~= old(self)@);
            assert(self@ =~= old(self)@.map_values(|p: PointerModel| ticked(p, dt_micros as nat)));
            assert forall|a: int, b: int|
                0 <= a < self@.len() && 0 <= b < self@.len() && a != b implies self@[a].device_id
                != self@[b].device_id by {
                assert(self@[a].device_id == old(self)@[a].device_id);
                assert(self@[b].device_id == old(self)@[b].device_id);
            }
            assert forall|k: int| 0 <= k < self@.len() implies coords_in_range(
                #[trigger] self@[k],
            ) by {
                assert(coords_in_range(old(self)@[k]));
                if old(self)@[k].active {
                    lemma_damp_step_bounds(
                        old(self)@[k].current_x as int,
                        old(self)@[k].target_x as int,
                        tick_num(old(self)@[k], dt_micros as nat) as int,
                        1000000,
                    );
                    lemma_damp_step_bounds(
                        old(self)@[k].current_y as int,
                        old(self)@[k].target_y as int,
                        tick_num(old(self)@[k], dt_micros as nat) as int,
                        1000000,
                    );
                }
            }
        }
        out
    }
}

} // verus!
