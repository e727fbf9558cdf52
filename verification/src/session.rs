//! Per-session decision logic around the socket: peer-IP normalisation, the
//! spectrum producer's edge-triggered idle, the frame producer's change
//! detection, the launch guard, and the discovery responder's token scan.
//! The I/O around these decisions lives outside the verified core.
use vstd::prelude::*;
use crate::handler::is_prefix;
use crate::handler::str_starts_with;
use crate::registry::str_eq;
use crate::types::AppInfo;

verus! {

/// A peer IP as sessions key it: the IPv4-mapped-IPv6 prefix stripped and
/// the IPv6 loopback collapsed to the IPv4 one.
pub open spec fn normalized_ip(s: Seq<char>) -> Seq<char> {
    if is_prefix("::ffff:"@, s) {
        s.skip(7)
    } else if s == "::1"@ {
        "127.0.0.1"@
    } else {
        s
    }
}

/// Normalises a peer IP: strips the IPv4-mapped-IPv6 prefix and collapses
/// the IPv6 loopback to the IPv4 one.
pub fn normalize_ip(ip: &str) -> (r: String)
    ensures
        r@ == normalized_ip(ip@),
{
    if str_starts_with(ip, "::ffff:") {
        proof {
            reveal_strlit("::ffff:");
        }
        let stripped = ip.substring_char(7, ip.unicode_len());
        assert(stripped@ =~= ip@.skip(7));
        String::from_str(stripped)
    } else if str_eq(ip, "::1") {
        String::from_str("127.0.0.1")
    } else {
        String::from_str(ip)
    }
}

/// What the spectrum producer does on one tick.
#[derive(Clone, Copy, Debug, PartialEq, Eq, Structural)]
pub enum SpectrumAction {
    /// Not Trusted, or media silent and already flushed: send nothing.
    Idle,
    /// Media just went silent: send one zeroed band vector, then idle.
    EmitZero,
    /// Media playing: send the current band vector.
    EmitBands,
}

/// The spectrum producer's tick decision: an untrusted peer gets nothing;
/// silence is flushed once with a zero vector when the previous emission
/// was non-zero; playing media streams the bands.
pub open spec fn spectrum_decision(
    trusted: bool,
    media_playing: bool,
    prev_nonzero: bool,
) -> SpectrumAction {
    if !trusted {
        SpectrumAction::Idle
    } else if media_playing {
        SpectrumAction::EmitBands
    } else if prev_nonzero {
        SpectrumAction::EmitZero
    } else {
        SpectrumAction::Idle
    }
}

/// Decides one spectrum tick. See `spectrum_decision`.
pub fn spectrum_step(trusted: bool, media_playing: bool, prev_nonzero: bool) -> (r: SpectrumAction)
    ensures
        r == spectrum_decision(trusted, media_playing, prev_nonzero),
{
    if !trusted {
        SpectrumAction::Idle
    } else if media_playing {
        SpectrumAction::EmitBands
    } else if prev_nonzero {
        SpectrumAction::EmitZero
    } else {
        SpectrumAction::Idle
    }
}

/// Whether any band magnitude is non-zero: the edge the zero flush
/// triggers on.
pub fn bands_nonzero(bands: &Vec<u32>) -> (r: bool)
    ensures
        r == exists|i: int| 0 <= i < bands@.len() && bands@[i] != 0,
{
    let mut i: usize = 0;
    while i < bands.len()
        invariant
            i <= bands@.len(),
            forall|k: int| 0 <= k < i ==> bands@[k] == 0,
        decreases bands@.len() - i,
    {
        if bands[i] != 0 {
            assert(bands@[i as int] != 0);
            return true;
        }
        i = i + 1;
    }
    false
}

/// The zeroed band vector sent once when media goes silent.
pub fn zero_bands() -> (r: Vec<u32>)
    ensures
        r@.len() == 7,
        forall|i: int| 0 <= i < 7 ==> r@[i] == 0,
{
    let mut v: Vec<u32> = Vec::new();
    let mut i: usize = 0;
    while i < 7
        invariant
            i <= 7,
            v@.len() == i,
            forall|k: int| 0 <= k < i ==> v@[k] == 0,
        decreases 7 - i,
    {
        v.push(0);
        i = i + 1;
    }
    v
}

/// The byte positions the frame comparison samples: every `len / 32 + 1`
/// bytes, so at most 32 probes however large the frame.
pub open spec fn frame_step(len: nat) -> nat {
    len / 32 + 1
}

/// Whether a new frame is worth sending: its length changed, or a sampled
/// byte window differs from the previous frame.
pub open spec fn frame_differs(last: Seq<u8>, new: Seq<u8>) -> bool {
    last.len() != new.len() || exists|j: nat|
        #![trigger j * frame_step(new.len())]
        j * frame_step(new.len()) < new.len() && last[(j * frame_step(new.len())) as int] != new[(j
            * frame_step(new.len())) as int]
}

/// Decides whether the frame producer enqueues this frame: it does when no
/// previous frame exists, or when the frame differs in length or in a
/// sampled byte window.
pub fn frame_changed(last: &Option<Vec<u8>>, new: &Vec<u8>) -> (r: bool)
    requires
        new@.len() <= crate::MAX_FRAME_LEN,
    ensures
        last is None ==> r,
        last matches Some(l) ==> r == frame_differs(l@, new@),
{
    let l: &Vec<u8> = match last {
        Some(l) => l,
        None => {
            return true;
        },
    };
    if l.len() != new.len() {
        assert(frame_differs(l@, new@));
        return true;
    }
    let step: usize = new.len() / 32 + 1;
    let mut pos: usize = 0;
    let ghost mut j: nat = 0nat;
    while pos < new.len()
        invariant
            last matches Some(ll) && ll@ == l@,
            step == frame_step(new@.len()),
            new@.len() <= crate::MAX_FRAME_LEN,
            l@.len() == new@.len(),
            pos == j * step,
            pos <= new@.len() + step,
            forall|k: nat|
                #![trigger k * frame_step(new@.len())]
                k < j && k * frame_step(new@.len()) < new@.len() ==> l@[(k * frame_step(
                    new@.len(),
                )) as int] == new@[(k * frame_step(new@.len())) as int],
        decreases new@.len() + step - pos,
    {
        if l[pos] != new[pos] {
            assert(frame_differs(l@, new@)) by {
                assert(j * frame_step(new@.len()) < new@.len());
            }
            return true;
        }
        proof {
            assert forall|k: nat|
                #![trigger k * frame_step(new@.len())]
                k < j + 1 && k * frame_step(new@.len()) < new@.len() implies l@[(k * frame_step(
                new@.len(),
            )) as int] == new@[(k * frame_step(new@.len())) as int] by {
                if k == j {
                    assert(j * frame_step(new@.len()) == pos);
                }
            }
            j = j + 1;
            assert((j - 1) * step + step == j * step) by (nonlinear_arith);
        }
        pos = pos + step;
    }
    proof {
        assert forall|k: nat|
            #![trigger k * frame_step(new@.len())]
            k * frame_step(new@.len()) < new@.len() implies l@[(k * frame_step(
            new@.len(),
        )) as int] == new@[(k * frame_step(new@.len())) as int] by {
            if k >= j {
                assert(k * step >= j * step) by (nonlinear_arith)
                    requires
                        k >= j,
                        step > 0,
                ;
            }
        }
    }
    false
}

/// Whether this command names an installed application: only then may it
/// be launched.
pub fn launch_allowed(apps: &Vec<AppInfo>, command: &str) -> (r: bool)
    ensures
        r == exists|i: int| 0 <= i < apps@.len() && apps@[i].exec_cmd@ == command@,
{
    let mut i: usize = 0;
    while i < apps.len()
        invariant
            i <= apps@.len(),
            forall|k: int| 0 <= k < i ==> apps@[k].exec_cmd@ != command@,
        decreases apps@.len() - i,
    {
        if str_eq(apps[i].exec_cmd.as_str(), command) {
            assert(apps@[i as int].exec_cmd@ == command@);
            return true;
        }
        i = i + 1;
    }
    false
}

/// The ASCII bytes of the token a discovery probe must carry.
pub open spec fn discovery_token() -> Seq<u8> {
    seq![100u8, 105u8, 115u8, 99u8, 111u8, 118u8, 101u8, 114u8, 121u8]
}

/// Whether the payload carries the discovery token at some position.
pub open spec fn has_discovery_token(payload: Seq<u8>) -> bool {
    exists|i: int|
        #![trigger payload.subrange(i, i + 9)]
        0 <= i && i + 9 <= payload.len() && payload.subrange(i, i + 9) == discovery_token()
}

/// One byte of the discovery token.
fn token_byte(m: usize) -> (r: u8)
    requires
        m < 9,
    ensures
        r == discovery_token()[m as int],
{
    if m == 0 {
        100u8
    } else if m == 1 {
        105u8
    } else if m == 2 {
        115u8
    } else if m == 3 {
        99u8
    } else if m == 4 {
        111u8
    } else if m == 5 {
        118u8
    } else if m == 6 {
        101u8
    } else if m == 7 {
        114u8
    } else {
        121u8
    }
}

/// Scans a datagram for the discovery token; only such probes are
/// answered.
pub fn contains_discovery_token(payload: &Vec<u8>) -> (r: bool)
    ensures
        r == has_discovery_token(payload@),
{
    if payload.len() < 9 {
        assert(!has_discovery_token(payload@));
        return false;
    }
    let limit: usize = payload.len() - 9;
    let mut i: usize = 0;
    while i <= limit
        invariant
            payload@.len() >= 9,
            payload@.len() <= usize::MAX,
            limit == payload@.len() - 9,
            i <= limit + 1,
            forall|k: int|
                #![trigger payload@.subrange(k, k + 9)]
                0 <= k < i ==> payload@.subrange(k, k + 9) != discovery_token(),
        decreases limit + 1 - i,
    {
        let mut m: usize = 0;
        let mut all: bool = true;
        while m < 9
            invariant
                i + 9 <= payload@.len(),
                payload@.len() <= usize::MAX,
                m <= 9,
                all ==> (forall|t: int|
                    #![trigger payload@[i + t]]
                    0 <= t < m ==> payload@[i + t] == discovery_token()[t]),
                !all ==> (m == 9 && exists|t: int|
                    #![trigger payload@[i + t]]
                    0 <= t < 9 && payload@[i + t] != discovery_token()[t]),
            decreases 9 - m,
        {
            if payload[i + m] != token_byte(m) {
                proof {
                    assert(payload@[i + m] != discovery_token()[m as int]);
                }
                all = false;
                m = 9;
            } else {
                proof {
                    if all {
                        assert forall|t: int|
                            #![trigger payload@[i + t]]
                            0 <= t < m + 1 implies payload@[i + t] == discovery_token()[t] by {}
                    }
                }
                m = m + 1;
            }
        }
        if all {
            proof {
                assert forall|t: int| 0 <= t < 9 implies payload@.subrange(i as int, i + 9)[t]
                    == discovery_token()[t] by {
                    assert(payload@[i + t] == discovery_token()[t]);
                }
                assert(payload@.subrange(i as int, i + 9) =~= discovery_token());
            }
            return true;
        }
        proof {
            let t = choose|t: int|
                #![trigger payload@[i + t]]
                0 <= t < 9 && payload@[i + t] != discovery_token()[t];
            assert(payload@.subrange(i as int, i + 9)[t] == payload@[i + t]);
            assert(payload@.subrange(i as int, i + 9) != discovery_token());
        }
        i = i + 1;
    }
    proof {
        if has_discovery_token(payload@) {
            let w = choose|k: int|
                #![trigger payload@.subrange(k, k + 9)]
                0 <= k && k + 9 <= payload@.len() && payload@.subrange(k, k + 9)
                    == discovery_token();
            assert(w < i);
        }
    }
    false
}

} // verus!
