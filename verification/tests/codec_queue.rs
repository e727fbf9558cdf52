//! Frame codec, outbound queues and session decision tests.
use wconnect::codec::{encode_frame, FrameDecoder, FrameStep};
use wconnect::connreg::{ConnectionRegistry, DropOldestQueue, OutboundQueue};
use wconnect::session::{
    bands_nonzero, contains_discovery_token, frame_changed, normalize_ip, spectrum_step,
    zero_bands, SpectrumAction,
};
use wconnect::MAX_FRAME_LEN;

#[test]
fn frame_encodes_with_big_endian_length() {
    let payload = vec![1u8, 2, 3];
    let framed = encode_frame(&payload).unwrap();
    assert_eq!(framed, vec![0u8, 0, 0, 3, 1, 2, 3]);
}

#[test]
fn frame_round_trips_through_decoder() {
    let payload = vec![9u8, 8, 7, 6];
    let framed = encode_frame(&payload).unwrap();
    let mut dec = FrameDecoder::new();
    dec.push_bytes(&framed);
    match dec.next_frame() {
        FrameStep::Frame(p) => assert_eq!(p, payload),
        _ => panic!("expected a whole frame"),
    }
    assert!(matches!(dec.next_frame(), FrameStep::NeedMore));
}

#[test]
fn partial_frame_yields_nothing() {
    let payload = vec![1u8; 100];
    let framed = encode_frame(&payload).unwrap();
    let mut dec = FrameDecoder::new();
    // Every strict prefix leaves the decoder waiting.
    dec.push_bytes(&framed[..50].to_vec());
    assert!(matches!(dec.next_frame(), FrameStep::NeedMore));
    assert!(matches!(dec.next_frame(), FrameStep::NeedMore));
    dec.push_bytes(&framed[50..].to_vec());
    match dec.next_frame() {
        FrameStep::Frame(p) => assert_eq!(p, payload),
        _ => panic!("expected the frame after the rest arrived"),
    }
}

#[test]
fn oversize_length_is_rejected_without_consuming_payload() {
    // A 20 MiB announced length breaks the 10 MiB cap.
    let twenty_mib: u32 = 20 * 1024 * 1024;
    assert!(twenty_mib > MAX_FRAME_LEN);
    let mut bytes = twenty_mib.to_be_bytes().to_vec();
    bytes.extend_from_slice(&[1, 2, 3]);
    let mut dec = FrameDecoder::new();
    dec.push_bytes(&bytes);
    assert!(matches!(dec.next_frame(), FrameStep::Oversize));
    // The decision is stable: nothing was consumed.
    assert!(matches!(dec.next_frame(), FrameStep::Oversize));
}

#[test]
fn two_frames_in_one_buffer_come_out_in_order() {
    let a = encode_frame(&vec![1u8]).unwrap();
    let b = encode_frame(&vec![2u8, 3]).unwrap();
    let mut dec = FrameDecoder::new();
    let mut both = a.clone();
    both.extend_from_slice(&b);
    dec.push_bytes(&both);
    match dec.next_frame() {
        FrameStep::Frame(p) => assert_eq!(p, vec![1u8]),
        _ => panic!("first frame"),
    }
    match dec.next_frame() {
        FrameStep::Frame(p) => assert_eq!(p, vec![2u8, 3]),
        _ => panic!("second frame"),
    }
}

#[test]
fn full_queue_drops_new_frame_only() {
    let mut q = OutboundQueue::new(2);
    assert!(q.try_enqueue(&vec![1]));
    assert!(q.try_enqueue(&vec![2]));
    // The queue is full: the producer is never blocked, the new frame drops.
    assert!(!q.try_enqueue(&vec![3]));
    assert_eq!(q.len(), 2);
    assert_eq!(q.pop_front(), Some(vec![1]));
    assert_eq!(q.pop_front(), Some(vec![2]));
    assert_eq!(q.pop_front(), None);
}

#[test]
fn overflow_drop_keeps_sixty_four_and_resumes() {
    // A 30 fps producer against a stalled reader: at most 64 frames queue.
    let mut reg = ConnectionRegistry::new();
    reg.add("10.0.0.9:5".to_string(), "10.0.0.9".to_string(), 64);
    for i in 0..100u8 {
        reg.send_to("10.0.0.9", &vec![i]);
    }
    let mut drained = 0;
    while let Some(_) = reg.pop_outbound("10.0.0.9:5") {
        drained += 1;
    }
    assert_eq!(drained, 64);
    // On resume, the next successful enqueue delivers a current frame.
    reg.send_to("10.0.0.9", &vec![200]);
    assert_eq!(reg.pop_outbound("10.0.0.9:5"), Some(vec![200]));
}

#[test]
fn drop_oldest_queue_keeps_newest() {
    let mut q = DropOldestQueue::new(2);
    q.push(&vec![1]);
    q.push(&vec![2]);
    q.push(&vec![3]);
    assert_eq!(q.len(), 2);
    assert_eq!(q.pop_front(), Some(vec![2]));
    assert_eq!(q.pop_front(), Some(vec![3]));
}

#[test]
fn dashboard_fanout_reaches_only_dashboards() {
    let mut reg = ConnectionRegistry::new();
    reg.add("1.1.1.1:10".to_string(), "1.1.1.1".to_string(), 64);
    reg.add("2.2.2.2:20".to_string(), "2.2.2.2".to_string(), 64);
    reg.mark_dashboard("2.2.2.2:20");
    reg.broadcast_dashboard(&vec![42]);
    assert_eq!(reg.pop_outbound("2.2.2.2:20"), Some(vec![42]));
    assert_eq!(reg.pop_outbound("1.1.1.1:10"), None);
}

#[test]
fn unicast_by_ip_reaches_every_connection_of_that_ip() {
    let mut reg = ConnectionRegistry::new();
    reg.add("3.3.3.3:1".to_string(), "3.3.3.3".to_string(), 64);
    reg.add("3.3.3.3:2".to_string(), "3.3.3.3".to_string(), 64);
    reg.add("4.4.4.4:1".to_string(), "4.4.4.4".to_string(), 64);
    reg.send_to("3.3.3.3", &vec![7]);
    assert_eq!(reg.pop_outbound("3.3.3.3:1"), Some(vec![7]));
    assert_eq!(reg.pop_outbound("3.3.3.3:2"), Some(vec![7]));
    assert_eq!(reg.pop_outbound("4.4.4.4:1"), None);
}

#[test]
fn removed_connection_receives_nothing() {
    let mut reg = ConnectionRegistry::new();
    reg.add("5.5.5.5:1".to_string(), "5.5.5.5".to_string(), 64);
    reg.remove("5.5.5.5:1");
    assert_eq!(reg.len(), 0);
    reg.send_to("5.5.5.5", &vec![1]);
    assert_eq!(reg.pop_outbound("5.5.5.5:1"), None);
}

#[test]
fn ip_normalisation_strips_mapped_prefix_and_loopback() {
    assert_eq!(normalize_ip("::ffff:192.168.1.7"), "192.168.1.7");
    assert_eq!(normalize_ip("::1"), "127.0.0.1");
    assert_eq!(normalize_ip("10.1.2.3"), "10.1.2.3");
}

#[test]
fn spectrum_producer_is_edge_triggered() {
    assert_eq!(spectrum_step(false, true, true), SpectrumAction::Idle);
    assert_eq!(spectrum_step(true, true, false), SpectrumAction::EmitBands);
    assert_eq!(spectrum_step(true, false, true), SpectrumAction::EmitZero);
    assert_eq!(spectrum_step(true, false, false), SpectrumAction::Idle);
    let z = zero_bands();
    assert_eq!(z, vec![0u32; 7]);
    assert!(!bands_nonzero(&z));
    assert!(bands_nonzero(&vec![0, 0, 3, 0, 0, 0, 0]));
}

#[test]
fn frame_producer_detects_changes() {
    assert!(frame_changed(&None, &vec![1, 2, 3]));
    assert!(frame_changed(&Some(vec![1, 2]), &vec![1, 2, 3]));
    assert!(frame_changed(&Some(vec![9, 2, 3]), &vec![1, 2, 3]));
    assert!(!frame_changed(&Some(vec![1, 2, 3]), &vec![1, 2, 3]));
}

#[test]
fn discovery_token_is_found_anywhere() {
    assert!(contains_discovery_token(&b"discovery".to_vec()));
    assert!(contains_discovery_token(&b"xx discovery yy".to_vec()));
    assert!(!contains_discovery_token(&b"discover".to_vec()));
    assert!(!contains_discovery_token(&b"nothing here".to_vec()));
}
