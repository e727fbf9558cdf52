//! End-to-end flows through the authorisation state machine.
use wconnect::handler::{Effect, OperatorNotice, ServerCore};
use wconnect::keymap::{events_for, RawInputEvent};
use wconnect::messages::{ClientMessage, PairStatus, ServerMessage};
use wconnect::registry::{AppState, DeviceStatus};

fn fresh_core() -> ServerCore {
    ServerCore::new(
        AppState::new_empty(),
        "Host".to_string(),
        "0.1".to_string(),
        "AA:BB".to_string(),
    )
}

fn pair_request(id: &str, name: &str, auto: Option<bool>) -> ClientMessage {
    ClientMessage::PairRequest {
        device_name: name.to_string(),
        id: id.to_string(),
        version: "0.1".to_string(),
        auto_reconnect: auto,
    }
}

#[test]
fn fresh_pair_accept_command() {
    let mut core = fresh_core();
    // Client pairs: record created Pending, operator told, Pending answered.
    let fx = core.handle_event(pair_request("A", "Pix", Some(false)), "192.168.1.2");
    assert_eq!(fx.len(), 3);
    assert!(matches!(fx[0], Effect::SaveRegistry));
    match &fx[1] {
        Effect::NotifyOperator(OperatorNotice::PairRequest { id, name }) => {
            assert_eq!(id, "A");
            assert_eq!(name, "Pix");
        }
        other => panic!("expected operator notice, got {:?}", other),
    }
    match &fx[2] {
        Effect::Reply(ServerMessage::PairResponse {
            status, fingerprint, ..
        }) => {
            assert_eq!(*status, PairStatus::Pending);
            assert_eq!(fingerprint.as_deref(), Some("AA:BB"));
        }
        other => panic!("expected pair response, got {:?}", other),
    }
    assert_eq!(core.state.devices.len(), 1);
    assert_eq!(core.state.devices[0].status, DeviceStatus::Pending);
    // Operator approves: record Trusted, peer told.
    let fx = core.handle_operator_pair_decision("A", true);
    assert_eq!(fx.len(), 2);
    match &fx[1] {
        Effect::SendToIp(ip, ServerMessage::SecurityUpdate { status }) => {
            assert_eq!(ip, "192.168.1.2");
            assert_eq!(*status, DeviceStatus::Trusted);
        }
        other => panic!("expected security update, got {:?}", other),
    }
    // A key press now reaches the injector: Enter down, then Enter up.
    let fx = core.handle_event(
        ClientMessage::KeyPress {
            key: "Enter".to_string(),
        },
        "192.168.1.2",
    );
    assert_eq!(fx.len(), 1);
    match &fx[0] {
        Effect::Inject(msg) => {
            let events = events_for(msg);
            let syn = RawInputEvent {
                kind: 0,
                code: 0,
                value: 0,
            };
            assert_eq!(
                events,
                vec![
                    RawInputEvent {
                        kind: 1,
                        code: 28,
                        value: 1
                    },
                    syn,
                    RawInputEvent {
                        kind: 1,
                        code: 28,
                        value: 0
                    },
                    syn,
                ]
            );
        }
        other => panic!("expected injection, got {:?}", other),
    }
}

#[test]
fn untrusted_peer_is_silently_dropped() {
    let mut core = fresh_core();
    let fx = core.handle_event(
        ClientMessage::KeyPress {
            key: "Enter".to_string(),
        },
        "6.6.6.6",
    );
    assert!(fx.is_empty());
    assert_eq!(core.state.devices.len(), 0);
    let fx = core.handle_event(
        ClientMessage::MediaControl {
            action: "play".to_string(),
        },
        "6.6.6.6",
    );
    assert!(fx.is_empty());
}

#[test]
fn pair_request_is_idempotent() {
    let mut core = fresh_core();
    let fx1 = core.handle_event(pair_request("A", "Pix", Some(false)), "10.0.0.4");
    let status1 = match fx1.last().unwrap() {
        Effect::Reply(ServerMessage::PairResponse { status, .. }) => *status,
        _ => panic!("expected pair response"),
    };
    let devices_after_first: Vec<_> = core
        .state
        .devices
        .iter()
        .map(|d| (d.id.clone(), d.status, d.auto_reconnect))
        .collect();
    let fx2 = core.handle_event(pair_request("A", "Pix", Some(false)), "10.0.0.4");
    let status2 = match fx2.last().unwrap() {
        Effect::Reply(ServerMessage::PairResponse { status, .. }) => *status,
        _ => panic!("expected pair response"),
    };
    let devices_after_second: Vec<_> = core
        .state
        .devices
        .iter()
        .map(|d| (d.id.clone(), d.status, d.auto_reconnect))
        .collect();
    assert_eq!(status1, status2);
    assert_eq!(devices_after_first, devices_after_second);
    // The second request raises no second operator notice.
    assert!(!fx2
        .iter()
        .any(|e| matches!(e, Effect::NotifyOperator(_))));
}

#[test]
fn blocked_ip_preempts_pairing() {
    let mut core = fresh_core();
    core.handle_event(pair_request("A", "Pix", None), "7.7.7.7");
    let fx = core.handle_event(
        ClientMessage::BlockDevice {
            id: "A".to_string(),
        },
        "9.9.9.9",
    );
    assert!(matches!(fx[0], Effect::SaveRegistry));
    // A new id from the blocked IP is answered Blocked, nothing recorded.
    let fx = core.handle_event(pair_request("B", "Other", None), "7.7.7.7");
    match fx.last().unwrap() {
        Effect::Reply(ServerMessage::PairResponse { status, .. }) => {
            assert_eq!(*status, PairStatus::Blocked);
        }
        _ => panic!("expected pair response"),
    }
    assert_eq!(core.state.devices.len(), 1);
}

#[test]
fn version_mismatch_short_circuits() {
    let mut core = fresh_core();
    let fx = core.handle_event(
        ClientMessage::PairRequest {
            device_name: "Pix".to_string(),
            id: "A".to_string(),
            version: "2.0".to_string(),
            auto_reconnect: None,
        },
        "1.2.3.4",
    );
    assert_eq!(fx.len(), 1);
    match &fx[0] {
        Effect::Reply(ServerMessage::PairResponse { status, .. }) => {
            assert_eq!(*status, PairStatus::VersionMismatch);
        }
        _ => panic!("expected pair response"),
    }
    // No registry mutation happened.
    assert_eq!(core.state.devices.len(), 0);
}

#[test]
fn auto_reconnect_downgrade_requires_reapproval() {
    let mut core = fresh_core();
    core.handle_event(pair_request("A", "Pix", Some(false)), "10.0.0.8");
    core.handle_operator_pair_decision("A", true);
    assert_eq!(core.state.devices[0].status, DeviceStatus::Trusted);
    // Trusted with auto-reconnect off: a new pair request downgrades.
    let fx = core.handle_event(pair_request("A", "Pix", None), "10.0.0.8");
    match fx.last().unwrap() {
        Effect::Reply(ServerMessage::PairResponse { status, .. }) => {
            assert_eq!(*status, PairStatus::Pending);
        }
        _ => panic!("expected pair response"),
    }
    assert!(fx
        .iter()
        .any(|e| matches!(e, Effect::NotifyOperator(OperatorNotice::PairRequest { .. }))));
    assert_eq!(core.state.devices[0].status, DeviceStatus::Pending);
}

fn trusted_mirroring_core(ip: &str) -> ServerCore {
    let mut core = fresh_core();
    core.handle_event(pair_request("A", "Pix", Some(true)), ip);
    core.handle_operator_pair_decision("A", true);
    core.handle_event(
        ClientMessage::StartMirroring {
            width: 854,
            height: 480,
            fps: 30,
            monitor: 1,
        },
        ip,
    );
    let fx = core.handle_event(
        ClientMessage::MirrorResponse {
            device_id: "A".to_string(),
            accepted: true,
        },
        "operator",
    );
    assert!(fx
        .iter()
        .any(|e| matches!(e, Effect::StartCapture(cfg) if cfg.width == 854 && cfg.fps == 30)));
    assert_eq!(core.state.mirroring_device.as_deref(), Some("A"));
    core
}

#[test]
fn mirror_approval_starts_capture_with_stored_parameters() {
    let core = trusted_mirroring_core("10.1.1.1");
    assert!(core.state.pending_mirror.is_none());
}

#[test]
fn block_mid_mirror_stops_capture_and_notifies() {
    let mut core = trusted_mirroring_core("10.1.1.2");
    let fx = core.handle_event(
        ClientMessage::BlockDevice {
            id: "A".to_string(),
        },
        "operator",
    );
    assert!(matches!(fx[0], Effect::SaveRegistry));
    match &fx[1] {
        Effect::SendToIp(ip, ServerMessage::SecurityUpdate { status }) => {
            assert_eq!(ip, "10.1.1.2");
            assert_eq!(*status, DeviceStatus::Blocked);
        }
        other => panic!("expected security update, got {:?}", other),
    }
    assert!(matches!(fx.last().unwrap(), Effect::StopCapture));
    assert!(core.state.mirroring_device.is_none());
    // The frame producer's trust check now fails: no frames for this peer.
    assert!(!core.state.is_ip_trusted("10.1.1.2"));
}

#[test]
fn mirror_refusal_clears_pending_and_tells_peer() {
    let mut core = fresh_core();
    core.handle_event(pair_request("A", "Pix", Some(true)), "10.1.1.3");
    core.handle_operator_pair_decision("A", true);
    core.handle_event(
        ClientMessage::StartMirroring {
            width: 640,
            height: 360,
            fps: 15,
            monitor: 0,
        },
        "10.1.1.3",
    );
    assert!(core.state.pending_mirror.is_some());
    let fx = core.handle_event(
        ClientMessage::MirrorResponse {
            device_id: "A".to_string(),
            accepted: false,
        },
        "operator",
    );
    assert!(core.state.pending_mirror.is_none());
    assert!(core.state.mirroring_device.is_none());
    match &fx[0] {
        Effect::SendToIp(_, ServerMessage::MirrorStatus { allowed, message }) => {
            assert!(!allowed);
            assert_eq!(message, "Mirroring request declined by PC");
        }
        other => panic!("expected mirror status, got {:?}", other),
    }
}

#[test]
fn start_mirroring_broadcasts_to_dashboards() {
    let mut core = fresh_core();
    core.handle_event(pair_request("A", "Pix", Some(true)), "10.1.1.4");
    core.handle_operator_pair_decision("A", true);
    let fx = core.handle_event(
        ClientMessage::StartMirroring {
            width: 854,
            height: 480,
            fps: 15,
            monitor: 0,
        },
        "10.1.1.4",
    );
    match &fx[0] {
        Effect::BroadcastDashboards(ServerMessage::MirrorRequest {
            device_id,
            device_name,
        }) => {
            assert_eq!(device_id, "A");
            assert_eq!(device_name, "Pix");
        }
        other => panic!("expected dashboard broadcast, got {:?}", other),
    }
}

#[test]
fn register_dashboard_latches_and_confirms() {
    let mut core = fresh_core();
    let fx = core.handle_event(ClientMessage::RegisterDashboard, "8.8.8.8");
    assert_eq!(fx.len(), 2);
    assert!(matches!(fx[0], Effect::MarkDashboard));
    assert!(matches!(
        fx[1],
        Effect::Reply(ServerMessage::RegisterResponse { success: true })
    ));
}

#[test]
fn unblock_removes_the_record() {
    let mut core = fresh_core();
    core.handle_event(pair_request("A", "Pix", None), "10.2.2.2");
    core.handle_event(
        ClientMessage::BlockDevice {
            id: "A".to_string(),
        },
        "op",
    );
    assert_eq!(core.state.devices[0].status, DeviceStatus::Blocked);
    core.handle_event(
        ClientMessage::UnblockDevice {
            id: "A".to_string(),
        },
        "op",
    );
    assert_eq!(core.state.devices.len(), 0);
}

#[test]
fn disconnect_removes_pending_records_and_stops_own_mirror() {
    let mut core = trusted_mirroring_core("10.3.3.3");
    core.handle_event(pair_request("B", "Tab", None), "10.3.3.4");
    assert_eq!(core.state.devices.len(), 2);
    // The pending peer disconnects: its record goes, the mirror stays.
    let fx = core.handle_disconnect("10.3.3.4");
    assert_eq!(core.state.devices.len(), 1);
    assert!(matches!(fx[0], Effect::SaveRegistry));
    assert_eq!(core.state.mirroring_device.as_deref(), Some("A"));
    // The mirroring peer disconnects: the capture stops with it.
    let fx = core.handle_disconnect("10.3.3.3");
    assert!(matches!(fx.last().unwrap(), Effect::StopCapture));
    assert!(core.state.mirroring_device.is_none());
}

#[test]
fn discovery_reports_name_and_fingerprint() {
    let mut core = fresh_core();
    let fx = core.handle_event(ClientMessage::Discovery, "anyone");
    match &fx[0] {
        Effect::Reply(ServerMessage::DiscoveryResponse {
            server_name,
            fingerprint,
        }) => {
            assert_eq!(server_name, "Host");
            assert_eq!(fingerprint.as_deref(), Some("AA:BB"));
        }
        other => panic!("expected discovery response, got {:?}", other),
    }
}

#[test]
fn status_marks_exactly_the_mirroring_device() {
    let mut core = trusted_mirroring_core("10.4.4.4");
    core.handle_event(pair_request("B", "Tab", None), "10.4.4.5");
    let fx = core.handle_event(ClientMessage::GetStatus, "op");
    match &fx[0] {
        Effect::Reply(ServerMessage::StatusResponse { devices, .. }) => {
            let marked: Vec<_> = devices.iter().filter(|d| d.is_mirroring).collect();
            assert_eq!(marked.len(), 1);
            assert_eq!(marked[0].id, "A");
        }
        other => panic!("expected status response, got {:?}", other),
    }
}

#[test]
fn auto_reconnect_request_reaches_dashboards_and_operator() {
    let mut core = fresh_core();
    core.handle_event(pair_request("A", "Pix", None), "10.5.5.5");
    let fx = core.handle_event(
        ClientMessage::RequestAutoReconnect {
            id: "A".to_string(),
        },
        "10.5.5.5",
    );
    match &fx[0] {
        Effect::BroadcastDashboards(ServerMessage::AutoReconnectRequest {
            device_id,
            device_name,
        }) => {
            assert_eq!(device_id, "A");
            assert_eq!(device_name, "Pix");
        }
        other => panic!("expected broadcast, got {:?}", other),
    }
    assert!(matches!(
        fx[1],
        Effect::NotifyOperator(OperatorNotice::AutoReconnect { .. })
    ));
    // The operator's answer latches the flag.
    core.handle_event(
        ClientMessage::AutoReconnectResponse {
            id: "A".to_string(),
            accepted: true,
        },
        "op",
    );
    assert!(core.state.devices[0].auto_reconnect);
}

#[test]
fn presentation_control_maps_to_page_keys() {
    let mut core = fresh_core();
    core.handle_event(pair_request("A", "Pix", Some(true)), "10.6.6.6");
    core.handle_operator_pair_decision("A", true);
    let fx = core.handle_event(
        ClientMessage::PresentationControl {
            action: "next".to_string(),
        },
        "10.6.6.6",
    );
    match &fx[0] {
        Effect::Inject(ClientMessage::KeyPress { key }) => assert_eq!(key, "PageDown"),
        other => panic!("expected key injection, got {:?}", other),
    }
    let fx = core.handle_event(
        ClientMessage::PresentationControl {
            action: "sideways".to_string(),
        },
        "10.6.6.6",
    );
    assert!(fx.is_empty());
}

#[test]
fn repeated_pair_never_duplicates_a_record() {
    let mut core = fresh_core();
    for _ in 0..5 {
        core.handle_event(pair_request("A", "Pix", Some(true)), "10.7.7.7");
    }
    assert_eq!(core.state.devices.len(), 1);
}

#[test]
fn zoom_flag_persists_and_reaches_overlay() {
    let mut core = fresh_core();
    core.handle_event(pair_request("A", "Pix", Some(true)), "10.7.7.8");
    core.handle_operator_pair_decision("A", true);
    // The pointer record must exist before capture can start for it.
    core.handle_event(
        ClientMessage::PointerData {
            active: true,
            mode: 0,
            pitch_e4: 5000,
            roll_e4: 5000,
            size_c: 100,
            color: "#ffffffff".to_string(),
            zoom_c: 100,
            particle: 0,
            stretch_c: 100,
            has_image: false,
            pulse_speed_c: 100,
            pulse_intensity_c: 0,
        },
        "10.7.7.8",
    );
    let fx = core.handle_event(ClientMessage::SetZoomEnabled { enabled: true }, "10.7.7.8");
    assert!(core.state.zoom_enabled);
    assert!(matches!(fx[0], Effect::SaveRegistry));
    match &fx[1] {
        Effect::Overlay(s) => assert_eq!(s, "10.7.7.8|START_CAPTURE"),
        other => panic!("expected overlay datagram, got {:?}", other),
    }
}

#[test]
fn pc_stop_mirroring_notifies_the_device() {
    let mut core = trusted_mirroring_core("10.7.7.9");
    let fx = core.handle_event(
        ClientMessage::PCStopMirroring {
            id: "A".to_string(),
        },
        "op",
    );
    match &fx[0] {
        Effect::SendToIp(ip, ServerMessage::StopMirroring) => assert_eq!(ip, "10.7.7.9"),
        other => panic!("expected stop notice, got {:?}", other),
    }
    assert!(matches!(fx[1], Effect::StopCapture));
    assert!(core.state.mirroring_device.is_none());
}
