//! Pointer interpolation, overlay datagram text, the persisted registry
//! format, formatting, key mapping and the outside-call guards.
use wconnect::fmt::{fingerprint_string, push_fixed2, push_fixed4, push_i64, u64_string};
use wconnect::handler::{Effect, ServerCore};
use wconnect::keymap::{events_for, keycode_for, RawInputEvent};
use wconnect::messages::{
    default_color, default_fps, default_height, default_particle, default_true, default_width,
    ClientMessage,
};
use wconnect::outside::certificate_fingerprint;
use wconnect::persist::{decode_state, encode_state};
use wconnect::pointer::{PointerManager, PointerUpdate};
use wconnect::registry::{AppState, DeviceInfo, DeviceStatus, PendingMirror};
use wconnect::session::launch_allowed;
use wconnect::types::{AppInfo, DummyEncoder, MediaManager, WcError};

fn update(active: bool, x_e4: i32, y_e4: i32) -> PointerUpdate {
    PointerUpdate {
        active,
        mode: 1,
        pitch_e4: y_e4,
        roll_e4: x_e4,
        size_c: 150,
        color: "#ff0000ff".to_string(),
        zoom_c: 100,
        particle: 0,
        stretch_c: 100,
        has_image: false,
        pulse_speed_c: 100,
        pulse_intensity_c: 0,
    }
}

#[test]
fn first_activation_jumps_and_emits_start() {
    let mut pm = PointerManager::new();
    let dgs = pm.update("dev", update(true, 5000, 5000));
    assert_eq!(dgs, vec!["dev|START".to_string()]);
    // The current position jumped to the target: the tick emits it exactly.
    let dgs = pm.tick(4000);
    assert_eq!(
        dgs,
        vec!["dev|0.5000,0.5000,1,1.50,#ff0000ff,1.00,0,0,1.00,1.00,0.00".to_string()]
    );
}

#[test]
fn tick_damps_toward_target_without_overshoot() {
    let mut pm = PointerManager::new();
    pm.update("dev", update(true, 5000, 5000));
    pm.tick(4000);
    // New target to the right: far away, so the fast factor applies.
    pm.update("dev", update(true, 6000, 5000));
    let dgs = pm.tick(4000);
    // 120 per second over 4 ms closes 48% of the remaining 0.1.
    assert_eq!(
        dgs,
        vec!["dev|0.5480,0.5000,1,1.50,#ff0000ff,1.00,0,0,1.00,1.00,0.00".to_string()]
    );
    let (_, x, y) = pm.get_zoom_and_coords("dev");
    assert_eq!((x, y), (5480, 5000));
    // A huge tick clamps to the target, never past it.
    let dgs = pm.tick(10_000_000);
    assert_eq!(
        dgs,
        vec!["dev|0.6000,0.5000,1,1.50,#ff0000ff,1.00,0,0,1.00,1.00,0.00".to_string()]
    );
}

#[test]
fn deactivation_emits_stop_and_mutes_ticks() {
    let mut pm = PointerManager::new();
    pm.update("dev", update(true, 5000, 5000));
    let dgs = pm.update("dev", update(false, 5000, 5000));
    assert_eq!(dgs, vec!["dev|STOP".to_string()]);
    assert!(pm.tick(4000).is_empty());
}

#[test]
fn mode_and_size_datagrams_fire_only_while_inactive() {
    let mut pm = PointerManager::new();
    pm.update("dev", update(false, 0, 0));
    let mut u = update(false, 0, 0);
    u.mode = 4;
    u.size_c = 275;
    let dgs = pm.update("dev", u);
    assert_eq!(
        dgs,
        vec!["dev|MODE:4".to_string(), "dev|SIZE:2.75".to_string()]
    );
}

#[test]
fn control_datagrams_are_pipe_delimited() {
    let mut core = ServerCore::new(
        AppState::new_empty(),
        "Host".to_string(),
        "0.1".to_string(),
        "AA".to_string(),
    );
    core.handle_event(
        ClientMessage::PairRequest {
            device_name: "Pix".to_string(),
            id: "A".to_string(),
            version: "0.1".to_string(),
            auto_reconnect: None,
        },
        "10.9.9.9",
    );
    core.handle_operator_pair_decision("A", true);
    let fx = core.handle_event(ClientMessage::SetPointerMonitor { monitor: 2 }, "10.9.9.9");
    match &fx[0] {
        Effect::Overlay(s) => assert_eq!(s, "10.9.9.9|MONITOR:2"),
        other => panic!("expected overlay datagram, got {:?}", other),
    }
    let fx = core.handle_event(ClientMessage::TestOverlaySequence, "10.9.9.9");
    match &fx[0] {
        Effect::Overlay(s) => assert_eq!(s, "10.9.9.9|TEST_SEQUENCE"),
        other => panic!("expected overlay datagram, got {:?}", other),
    }
}

#[test]
fn registry_persists_and_reloads_identically() {
    let mut state = AppState::new_empty();
    state.zoom_enabled = true;
    state.media_playing = true;
    state.auto_connect = false;
    state.devices.push(DeviceInfo {
        id: "A".to_string(),
        name: "Pixel 7".to_string(),
        status: DeviceStatus::Trusted,
        ip: "192.168.1.2".to_string(),
        auto_reconnect: true,
        is_mirroring: false,
    });
    state.devices.push(DeviceInfo {
        id: "B".to_string(),
        name: "Tablet ü".to_string(),
        status: DeviceStatus::Blocked,
        ip: "::ffff:10.0.0.9".to_string(),
        auto_reconnect: false,
        is_mirroring: false,
    });
    // Transient fields are not persisted.
    state.pending_mirror = Some(PendingMirror {
        device_id: "A".to_string(),
        width: 854,
        height: 480,
        fps: 30,
        monitor: 0,
    });
    state.mirroring_device = Some("A".to_string());
    let text = encode_state(&state).unwrap();
    let reloaded = decode_state(text.as_str()).unwrap();
    assert_eq!(reloaded.zoom_enabled, true);
    assert_eq!(reloaded.auto_connect, false);
    assert_eq!(reloaded.media_playing, true);
    assert!(reloaded.pending_mirror.is_none());
    assert!(reloaded.mirroring_device.is_none());
    assert_eq!(reloaded.devices.len(), 2);
    assert_eq!(reloaded.devices[0].id, "A");
    assert_eq!(reloaded.devices[0].name, "Pixel 7");
    assert_eq!(reloaded.devices[0].status, DeviceStatus::Trusted);
    assert_eq!(reloaded.devices[0].ip, "192.168.1.2");
    assert!(reloaded.devices[0].auto_reconnect);
    assert_eq!(reloaded.devices[1].id, "B");
    assert_eq!(reloaded.devices[1].name, "Tablet ü");
    assert_eq!(reloaded.devices[1].status, DeviceStatus::Blocked);
}

#[test]
fn empty_registry_round_trips() {
    let state = AppState::new_empty();
    let text = encode_state(&state).unwrap();
    let reloaded = decode_state(text.as_str()).unwrap();
    assert_eq!(reloaded.devices.len(), 0);
    assert!(reloaded.auto_connect);
}

#[test]
fn malformed_or_trailing_text_is_refused() {
    assert!(decode_state("").is_none());
    assert!(decode_state("garbage").is_none());
    let state = AppState::new_empty();
    let mut text = encode_state(&state).unwrap();
    text.push('x');
    assert!(decode_state(text.as_str()).is_none());
}

#[test]
fn formatting_matches_the_wire_text() {
    assert_eq!(u64_string(0), "0");
    assert_eq!(u64_string(1234), "1234");
    let mut s = String::new();
    push_i64(&mut s, -42);
    assert_eq!(s, "-42");
    let mut s = String::new();
    push_fixed2(&mut s, 150);
    assert_eq!(s, "1.50");
    let mut s = String::new();
    push_fixed2(&mut s, -5);
    assert_eq!(s, "-0.05");
    let mut s = String::new();
    push_fixed4(&mut s, 5480);
    assert_eq!(s, "0.5480");
    let digest = vec![0xE3u8, 0xB0, 0xC4];
    assert_eq!(fingerprint_string(&digest), "E3:B0:C4");
}

#[test]
fn certificate_fingerprint_is_sha256_colon_hex() {
    // SHA-256 of the empty string, colon-separated upper-case hex.
    let fp = certificate_fingerprint(&Vec::new());
    assert_eq!(
        fp,
        "E3:B0:C4:42:98:FC:1C:14:9A:FB:F4:C8:99:6F:B9:24:\
         27:AE:41:E4:64:9B:93:4C:A4:95:99:1B:78:52:B8:55"
            .replace(" ", "")
    );
}

#[test]
fn key_mapping_covers_named_and_character_keys() {
    assert_eq!(keycode_for("Enter"), Some(28));
    assert_eq!(keycode_for("PageUp"), Some(104));
    assert_eq!(keycode_for("Prior"), Some(104));
    assert_eq!(keycode_for("a"), Some(30));
    assert_eq!(keycode_for("Z"), Some(44));
    assert_eq!(keycode_for(" "), Some(57));
    assert_eq!(keycode_for("F13"), None);
}

#[test]
fn motion_scaling_truncates_toward_zero() {
    // 3 pixels at the 1.6 sensitivity: 4.8 truncates to 4.
    let events = events_for(&ClientMessage::Move {
        dx_milli: 3000,
        dy_milli: -3000,
    });
    assert_eq!(
        events[0],
        RawInputEvent {
            kind: 2,
            code: 0,
            value: 4
        }
    );
    assert_eq!(
        events[1],
        RawInputEvent {
            kind: 2,
            code: 1,
            value: -4
        }
    );
    // No motion, no events.
    assert!(events_for(&ClientMessage::Move {
        dx_milli: 0,
        dy_milli: 0
    })
    .is_empty());
}

#[test]
fn absolute_motion_clamps_to_unit_range() {
    let events = events_for(&ClientMessage::MoveAbsolute {
        x_e4: 20000,
        y_e4: -5,
    });
    assert_eq!(
        events[0],
        RawInputEvent {
            kind: 3,
            code: 0,
            value: 32767
        }
    );
    assert_eq!(
        events[2],
        RawInputEvent {
            kind: 3,
            code: 1,
            value: 0
        }
    );
}

#[test]
fn unknown_buttons_and_states_inject_nothing() {
    assert!(events_for(&ClientMessage::Click {
        button: "fourth".to_string()
    })
    .is_empty());
    assert!(events_for(&ClientMessage::MouseClick {
        button: "left".to_string(),
        state: "held".to_string()
    })
    .is_empty());
    let events = events_for(&ClientMessage::MouseClick {
        button: "right".to_string(),
        state: "down".to_string(),
    });
    assert_eq!(
        events[0],
        RawInputEvent {
            kind: 1,
            code: 273,
            value: 1
        }
    );
}

#[test]
fn pointer_image_is_size_capped_and_clearable() {
    let mut core = ServerCore::new(
        AppState::new_empty(),
        "Host".to_string(),
        "0.1".to_string(),
        "AA".to_string(),
    );
    core.handle_event(
        ClientMessage::PairRequest {
            device_name: "Pix".to_string(),
            id: "A".to_string(),
            version: "".to_string(),
            auto_reconnect: None,
        },
        "10.8.8.8",
    );
    core.handle_operator_pair_decision("A", true);
    // Empty data clears the shared image.
    let fx = core.handle_event(
        ClientMessage::PointerImage {
            data: "".to_string(),
        },
        "10.8.8.8",
    );
    assert!(matches!(fx[0], Effect::ClearPointerImage));
    match &fx[1] {
        Effect::Overlay(s) => assert_eq!(s, "CLEAR_IMAGE"),
        other => panic!("expected overlay, got {:?}", other),
    }
    // Valid base64 writes the decoded bytes.
    let fx = core.handle_event(
        ClientMessage::PointerImage {
            data: "AAAA".to_string(),
        },
        "10.8.8.8",
    );
    match &fx[0] {
        Effect::WritePointerImage(bytes) => assert_eq!(bytes, &vec![0u8, 0, 0]),
        other => panic!("expected image write, got {:?}", other),
    }
    // Text that is not base64 does nothing.
    let fx = core.handle_event(
        ClientMessage::PointerImage {
            data: "!!!".to_string(),
        },
        "10.8.8.8",
    );
    assert!(fx.is_empty());
}

#[test]
fn launch_guard_accepts_only_installed_commands() {
    let apps = vec![AppInfo {
        name: "Files".to_string(),
        exec_cmd: "nautilus".to_string(),
        icon: "".to_string(),
        icon_base64: None,
    }];
    assert!(launch_allowed(&apps, "nautilus"));
    assert!(!launch_allowed(&apps, "rm"));
}

#[test]
fn protocol_defaults_match_the_wire() {
    assert_eq!(default_color(), "#ffffffff");
    assert_eq!(default_particle(), 0);
    assert_eq!(default_width(), 854);
    assert_eq!(default_height(), 480);
    assert_eq!(default_fps(), 15);
    assert!(default_true());
}

#[test]
fn dummy_encoder_hands_frames_back() {
    let mut enc = DummyEncoder;
    let frame = vec![1u8, 2, 3];
    assert_eq!(enc.encode(&frame).unwrap(), frame);
    assert!(enc.reconfigure(5000, 30).is_ok());
    let _ = MediaManager::new();
    let err = wconnect::types::map_err("uinput error".to_string());
    match err {
        WcError::Platform(msg) => assert_eq!(msg, "uinput error"),
        other => panic!("expected platform error, got {:?}", other),
    }
}
