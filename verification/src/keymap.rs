//! Translation of remote input messages into the raw event tuples the
//! platform injector writes: key names to key codes, buttons to button
//! codes, normalised coordinates to the injector's absolute range, with a
//! synchronisation event after each report.
use vstd::prelude::*;
use crate::messages::ClientMessage;

verus! {

/// One raw injector event: kind, code and value, as the device layer takes
/// them.
#[derive(Clone, Copy, Debug, PartialEq, Eq, Structural)]
pub struct RawInputEvent {
    pub kind: u16,
    pub code: u16,
    pub value: i32,
}

/// The key code a single character maps to, lower and upper case alike.
pub open spec fn char_code_of(c: char) -> Option<u16> {
    match c {
        'a' | 'A' => Option::Some(30u16),
        'b' | 'B' => Option::Some(48u16),
        'c' | 'C' => Option::Some(46u16),
        'd' | 'D' => Option::Some(32u16),
        'e' | 'E' => Option::Some(18u16),
        'f' | 'F' => Option::Some(33u16),
        'g' | 'G' => Option::Some(34u16),
        'h' | 'H' => Option::Some(35u16),
        'i' | 'I' => Option::Some(23u16),
        'j' | 'J' => Option::Some(36u16),
        'k' | 'K' => Option::Some(37u16),
        'l' | 'L' => Option::Some(38u16),
        'm' | 'M' => Option::Some(50u16),
        'n' | 'N' => Option::Some(49u16),
        'o' | 'O' => Option::Some(24u16),
        'p' | 'P' => Option::Some(25u16),
        'q' | 'Q' => Option::Some(16u16),
        'r' | 'R' => Option::Some(19u16),
        's' | 'S' => Option::Some(31u16),
        't' | 'T' => Option::Some(20u16),
        'u' | 'U' => Option::Some(22u16),
        'v' | 'V' => Option::Some(47u16),
        'w' | 'W' => Option::Some(17u16),
        'x' | 'X' => Option::Some(45u16),
        'y' | 'Y' => Option::Some(21u16),
        'z' | 'Z' => Option::Some(44u16),
        '1' => Option::Some(2u16),
        '2' => Option::Some(3u16),
        '3' => Option::Some(4u16),
        '4' => Option::Some(5u16),
        '5' => Option::Some(6u16),
        '6' => Option::Some(7u16),
        '7' => Option::Some(8u16),
        '8' => Option::Some(9u16),
        '9' => Option::Some(10u16),
        '0' => Option::Some(11u16),
        ',' => Option::Some(51u16),
        '.' => Option::Some(52u16),
        '/' => Option::Some(53u16),
        ';' => Option::Some(39u16),
        '\'' => Option::Some(40u16),
        '[' => Option::Some(26u16),
        ']' => Option::Some(27u16),
        '-' => Option::Some(12u16),
        '=' => Option::Some(13u16),
        '\\' => Option::Some(43u16),
        '`' => Option::Some(41u16),
        ' ' => Option::Some(57u16),
        _ => Option::None,
    }
}

/// The key code a key name maps to: named keys first, then single
/// characters.
pub open spec fn key_code_of(key: Seq<char>) -> Option<u16> {
    if key == "Enter"@ {
        Option::Some(28u16)
    } else if key == "Escape"@ {
        Option::Some(1u16)
    } else if key == "Backspace"@ {
        Option::Some(14u16)
    } else if key == "Tab"@ {
        Option::Some(15u16)
    } else if key == "Left"@ {
        Option::Some(105u16)
    } else if key == "Right"@ {
        Option::Some(106u16)
    } else if key == "Up"@ {
        Option::Some(103u16)
    } else if key == "Down"@ {
        Option::Some(108u16)
    } else if key == "Prior"@ || key == "PageUp"@ {
        Option::Some(104u16)
    } else if key == "Next"@ || key == "PageDown"@ {
        Option::Some(109u16)
    } else if key == "Home"@ {
        Option::Some(102u16)
    } else if key == "End"@ {
        Option::Some(107u16)
    } else if key == "Insert"@ {
        Option::Some(110u16)
    } else if key == "Delete"@ {
        Option::Some(111u16)
    } else if key.len() == 1 {
        char_code_of(key[0])
    } else {
        Option::None
    }
}

/// The key code a single character maps to.
pub fn char_code(c: char) -> (r: Option<u16>)
    ensures
        r == char_code_of(c),
{
    match c {
        'a' | 'A' => Some(30u16),
        'b' | 'B' => Some(48u16),
        'c' | 'C' => Some(46u16),
        'd' | 'D' => Some(32u16),
        'e' | 'E' => Some(18u16),
        'f' | 'F' => Some(33u16),
        'g' | 'G' => Some(34u16),
        'h' | 'H' => Some(35u16),
        'i' | 'I' => Some(23u16),
        'j' | 'J' => Some(36u16),
        'k' | 'K' => Some(37u16),
        'l' | 'L' => Some(38u16),
        'm' | 'M' => Some(50u16),
        'n' | 'N' => Some(49u16),
        'o' | 'O' => Some(24u16),
        'p' | 'P' => Some(25u16),
        'q' | 'Q' => Some(16u16),
        'r' | 'R' => Some(19u16),
        's' | 'S' => Some(31u16),
        't' | 'T' => Some(20u16),
        'u' | 'U' => Some(22u16),
        'v' | 'V' => Some(47u16),
        'w' | 'W' => Some(17u16),
        'x' | 'X' => Some(45u16),
        'y' | 'Y' => Some(21u16),
        'z' | 'Z' => Some(44u16),
        '1' => Some(2u16),
        '2' => Some(3u16),
        '3' => Some(4u16),
        '4' => Some(5u16),
        '5' => Some(6u16),
        '6' => Some(7u16),
        '7' => Some(8u16),
        '8' => Some(9u16),
        '9' => Some(10u16),
        '0' => Some(11u16),
        ',' => Some(51u16),
        '.' => Some(52u16),
        '/' => Some(53u16),
        ';' => Some(39u16),
        '\'' => Some(40u16),
        '[' => Some(26u16),
        ']' => Some(27u16),
        '-' => Some(12u16),
        '=' => Some(13u16),
        '\\' => Some(43u16),
        '`' => Some(41u16),
        ' ' => Some(57u16),
        _ => None,
    }
}

/// The key code a key name maps to.
pub fn keycode_for(key: &str) -> (r: Option<u16>)
    ensures
        r == key_code_of(key@),
{
    if crate::registry::str_eq(key, "Enter") {
        Some(28u16)
    } else if crate::registry::str_eq(key, "Escape") {
        Some(1u16)
    } else if crate::registry::str_eq(key, "Backspace") {
        Some(14u16)
    } else if crate::registry::str_eq(key, "Tab") {
        Some(15u16)
    } else if crate::registry::str_eq(key, "Left") {
        Some(105u16)
    } else if crate::registry::str_eq(key, "Right") {
        Some(106u16)
    } else if crate::registry::str_eq(key, "Up") {
        Some(103u16)
    } else if crate::registry::str_eq(key, "Down") {
        Some(108u16)
    } else if crate::registry::str_eq(key, "Prior") || crate::registry::str_eq(key, "PageUp") {
        Some(104u16)
    } else if crate::registry::str_eq(key, "Next") || crate::registry::str_eq(key, "PageDown") {
        Some(109u16)
    } else if crate::registry::str_eq(key, "Home") {
        Some(102u16)
    } else if crate::registry::str_eq(key, "End") {
        Some(107u16)
    } else if crate::registry::str_eq(key, "Insert") {
        Some(110u16)
    } else if crate::registry::str_eq(key, "Delete") {
        Some(111u16)
    } else if key.unicode_len() == 1 {
        char_code(key.get_char(0))
    } else {
        None
    }
}

/// The synchronisation event that closes each report.
pub open spec fn syn_event() -> RawInputEvent {
    RawInputEvent { kind: 0u16, code: 0u16, value: 0i32 }
}

/// A relative or key event followed by a synchronisation report, as the
/// injector's single-event write emits.
pub open spec fn raw_pair(kind: u16, code: u16, value: i32) -> Seq<RawInputEvent> {
    seq![RawInputEvent { kind, code, value }, syn_event()]
}

/// Truncating scale by 16/10000: relative motion in thousandths of a pixel
/// scaled by the mouse sensitivity, rounded toward zero.
pub open spec fn scale_motion(v: int) -> int {
    let mag = if v >= 0 {
        v
    } else {
        -v
    };
    let scaled = mag * 16 / 10000;
    if v >= 0 {
        scaled
    } else {
        -scaled
    }
}

/// Truncating scale by 16/10000, executable.
fn scale_motion_exec(v: i64) -> (r: i64)
    requires
        -1000000000 <= v <= 1000000000,
    ensures
        r == scale_motion(v as int),
        -1600000 <= r <= 1600000,
    {
    let mag: i64 = if v >= 0 {
        v
    } else {
        -v
    };
    let scaled: i64 = mag * 16 / 10000;
    assert(scaled * 10000 <= mag * 16 && mag * 16 < (scaled + 1) * 10000) by (nonlinear_arith)
        requires
            mag >= 0,
            scaled == mag * 16 / 10000,
    ;
    assert(scaled <= 1600000) by (nonlinear_arith)
        requires
            0 <= mag <= 1000000000,
            scaled * 10000 <= mag * 16,
    ;
    if v >= 0 {
        scaled
    } else {
        -scaled
    }
}

/// A normalised coordinate in ten-thousandths, clamped to the unit range
/// and scaled to the injector's absolute range of 32767.
pub open spec fn abs_coord(v: int) -> int {
    let c = if v < 0 {
        0
    } else if v > 10000 {
        10000
    } else {
        v
    };
    c * 32767 / 10000
}

/// Clamps and scales one coordinate to the injector's absolute range.
fn abs_coord_exec(v: i32) -> (r: i32)
    ensures
        r == abs_coord(v as int),
        0 <= r <= 32767,
{
    let c: i64 = if v < 0 {
        0
    } else if v > 10000 {
        10000
    } else {
        v as i64
    };
    let scaled: i64 = c * 32767 / 10000;
    assert(0 <= scaled <= 32767) by (nonlinear_arith)
        requires
            0 <= c <= 10000,
            scaled == c * 32767 / 10000,
    ;
    scaled as i32
}

/// The raw events an input message injects, in write order. Messages that
/// are not input messages, unknown buttons, states and keys inject nothing.
pub open spec fn events_of(msg: ClientMessage) -> Seq<RawInputEvent> {
    match msg {
        ClientMessage::Move { dx_milli, dy_milli } => {
            let dx = scale_motion(dx_milli as int);
            let dy = scale_motion(dy_milli as int);
            if dx == 0 && dy == 0 {
                Seq::empty()
            } else {
                seq![
                    RawInputEvent { kind: 2u16, code: 0u16, value: dx as i32 },
                    RawInputEvent { kind: 2u16, code: 1u16, value: dy as i32 },
                    syn_event(),
                ]
            }
        },
        ClientMessage::MoveAbsolute { x_e4, y_e4 } => raw_pair(
            3u16,
            0u16,
            abs_coord(x_e4 as int) as i32,
        ) + raw_pair(3u16, 1u16, abs_coord(y_e4 as int) as i32) + raw_pair(0u16, 0u16, 0i32),
        ClientMessage::Click { button } => {
            if button@ == "left"@ {
                raw_pair(1u16, 272u16, 1i32) + raw_pair(1u16, 272u16, 0i32)
            } else if button@ == "right"@ {
                raw_pair(1u16, 273u16, 1i32) + raw_pair(1u16, 273u16, 0i32)
            } else if button@ == "middle"@ {
                raw_pair(1u16, 274u16, 1i32) + raw_pair(1u16, 274u16, 0i32)
            } else {
                Seq::empty()
            }
        },
        ClientMessage::MouseClick { button, state } => {
            let code: u16 = if button@ == "left"@ {
                272u16
            } else if button@ == "right"@ {
                273u16
            } else if button@ == "middle"@ {
                274u16
            } else {
                0u16
            };
            let value: i32 = if state@ == "down"@ {
                1i32
            } else {
                0i32
            };
            if code == 0u16 || (state@ != "down"@ && state@ != "up"@) {
                Seq::empty()
            } else {
                raw_pair(1u16, code, value)
            }
        },
        ClientMessage::Scroll { dy_milli } => {
            let mag = if dy_milli >= 0 {
                dy_milli as int
            } else {
                -(dy_milli as int)
            };
            let steps = if dy_milli >= 0 {
                mag / 1000
            } else {
                -(mag / 1000)
            };
            raw_pair(2u16, 8u16, steps as i32)
        },
        ClientMessage::KeyPress { key } => {
            match key_code_of(key@) {
                Option::Some(code) => raw_pair(1u16, code, 1i32) + raw_pair(1u16, code, 0i32),
                Option::None => Seq::empty(),
            }
        },
        _ => Seq::empty(),
    }
}

/// Translates an input message into the raw events the injector writes.
pub fn events_for(msg: &ClientMessage) -> (r: Vec<RawInputEvent>)
    requires
        msg matches ClientMessage::Move { dx_milli, dy_milli } ==> (-1000000000 <= *dx_milli
            <= 1000000000 && -1000000000 <= *dy_milli <= 1000000000),
        msg matches ClientMessage::Scroll { dy_milli } ==> -1000000000 <= *dy_milli <= 1000000000,
    ensures
        r@ == events_of(*msg),
{
    let mut out: Vec<RawInputEvent> = Vec::new();
    match msg {
        ClientMessage::Move { dx_milli, dy_milli } => {
            let dx = scale_motion_exec(*dx_milli);
            let dy = scale_motion_exec(*dy_milli);
            if !(dx == 0 && dy == 0) {
                out.push(RawInputEvent { kind: 2u16, code: 0u16, value: dx as i32 });
                out.push(RawInputEvent { kind: 2u16, code: 1u16, value: dy as i32 });
                out.push(RawInputEvent { kind: 0u16, code: 0u16, value: 0i32 });
            }
            assert(out@ =~= events_of(*msg));
        },
        ClientMessage::MoveAbsolute { x_e4, y_e4 } => {
            let ax = abs_coord_exec(*x_e4);
            let ay = abs_coord_exec(*y_e4);
            out.push(RawInputEvent { kind: 3u16, code: 0u16, value: ax });
            out.push(RawInputEvent { kind: 0u16, code: 0u16, value: 0i32 });
            out.push(RawInputEvent { kind: 3u16, code: 1u16, value: ay });
            out.push(RawInputEvent { kind: 0u16, code: 0u16, value: 0i32 });
            out.push(RawInputEvent { kind: 0u16, code: 0u16, value: 0i32 });
            out.push(RawInputEvent { kind: 0u16, code: 0u16, value: 0i32 });
            assert(out@ =~= events_of(*msg));
        },
        ClientMessage::Click { button } => {
            let code: u16 = if crate::registry::str_eq(button.as_str(), "left") {
                272u16
            } else if crate::registry::str_eq(button.as_str(), "right") {
                273u16
            } else if crate::registry::str_eq(button.as_str(), "middle") {
                274u16
            } else {
                0u16
            };
            if code != 0u16 {
                out.push(RawInputEvent { kind: 1u16, code, value: 1i32 });
                out.push(RawInputEvent { kind: 0u16, code: 0u16, value: 0i32 });
                out.push(RawInputEvent { kind: 1u16, code, value: 0i32 });
                out.push(RawInputEvent { kind: 0u16, code: 0u16, value: 0i32 });
            }
            assert(out@ =~= events_of(*msg));
        },
        ClientMessage::MouseClick { button, state } => {
            let code: u16 = if crate::registry::str_eq(button.as_str(), "left") {
                272u16
            } else if crate::registry::str_eq(button.as_str(), "right") {
                273u16
            } else if crate::registry::str_eq(button.as_str(), "middle") {
                274u16
            } else {
                0u16
            };
            let down = crate::registry::str_eq(state.as_str(), "down");
            let up = crate::registry::str_eq(state.as_str(), "up");
            if code != 0u16 && (down || up) {
                out.push(
                    RawInputEvent {
                        kind: 1u16,
                        code,
                        value: if down {
                            1i32
                        } else {
                            0i32
                        },
                    },
                );
                out.push(RawInputEvent { kind: 0u16, code: 0u16, value: 0i32 });
            }
            assert(out@ =~= events_of(*msg));
        },
        ClientMessage::Scroll { dy_milli } => {
            let mag: i64 = if *dy_milli >= 0 {
                *dy_milli
            } else {
                -*dy_milli
            };
            let amount: i64 = if *dy_milli >= 0 {
                mag / 1000
            } else {
                -(mag / 1000)
            };
            out.push(RawInputEvent { kind: 2u16, code: 8u16, value: amount as i32 });
            out.push(RawInputEvent { kind: 0u16, code: 0u16, value: 0i32 });
            assert(out@ =~= events_of(*msg));
        },
        ClientMessage::KeyPress { key } => {
            let code = keycode_for(key.as_str());
            match code {
                Some(c) => {
                    out.push(RawInputEvent { kind: 1u16, code: c, value: 1i32 });
                    out.push(RawInputEvent { kind: 0u16, code: 0u16, value: 0i32 });
                    out.push(RawInputEvent { kind: 1u16, code: c, value: 0i32 });
                    out.push(RawInputEvent { kind: 0u16, code: 0u16, value: 0i32 });
                },
                None => {
                },
            }
            assert(out@ =~= events_of(*msg));
        },
        _ => {
            assert(out@ =~= events_of(*msg));
        },
    }
    out
}

} // verus!
