use ali_vxlan_tap_forwarder::args::{Args, ConfigError};
use ali_vxlan_tap_forwarder::demux::{demux, AllowSet, Demux};
use ali_vxlan_tap_forwarder::link::{up_plan, LinkCommand, UpPlan};
use ali_vxlan_tap_forwarder::pipeline::{capture_step, process_frame, CaptureAction, CaptureEvent};
use ali_vxlan_tap_forwarder::stats::{EgressKind, SendOutcome, Stats};
use ali_vxlan_tap_forwarder::tap::{request_name, TapInterface, TapNameError};

/// Ethernet/IPv4/UDP to `port`, carrying an overlay header with `vni` and the
/// payload-type bit, followed by `inner`.
fn overlay_frame(port: u16, vni: u32, link_payload: bool, inner: &[u8]) -> Vec<u8> {
    let mut overlay = vec![0x08u8, if link_payload { 0x08 } else { 0x00 }, 0, 0];
    overlay.push((vni >> 16) as u8);
    overlay.push((vni >> 8) as u8);
    overlay.push(vni as u8);
    overlay.push(0);
    overlay.extend_from_slice(inner);
    udp_frame(0x0800, 17, port, &overlay)
}

fn udp_frame(ethertype: u16, protocol: u8, port: u16, udp_payload: &[u8]) -> Vec<u8> {
    let udp_len = 8 + udp_payload.len();
    let total = 20 + udp_len;
    let mut f = vec![0xaau8, 0xbb, 0xcc, 0xdd, 0xee, 0xff, 0x11, 0x22, 0x33, 0x44, 0x55, 0x66];
    f.push((ethertype >> 8) as u8);
    f.push(ethertype as u8);
    f.extend_from_slice(&[0x45, 0, (total >> 8) as u8, total as u8, 0, 0, 0, 0, 64, protocol, 0, 0]);
    f.extend_from_slice(&[10, 0, 0, 1, 10, 0, 0, 2]);
    f.extend_from_slice(&[0x30, 0x39, (port >> 8) as u8, port as u8]);
    f.extend_from_slice(&[(udp_len >> 8) as u8, udp_len as u8, 0, 0]);
    f.extend_from_slice(udp_payload);
    f
}

fn payload(n: usize) -> Vec<u8> {
    (0..n).map(|i| (i * 7 + 3) as u8).collect()
}

fn synthetic_header() -> Vec<u8> {
    vec![0x02, 0, 0, 0, 0, 1, 0x02, 0, 0, 0, 0, 2, 0x08, 0x00]
}

#[test]
fn end_to_end_allowed_vni_forwards_rebuilt_frame() {
    let inner = payload(28);
    let frame = overlay_frame(250, 500, false, &inner);
    let allow = AllowSet::from_vnis(&vec![500]);
    let mut stats = Stats::new();
    let out = process_frame(&frame, &allow, &mut stats).expect("forwarded");
    assert_eq!(out.len(), 42);
    let mut expected = synthetic_header();
    expected.extend_from_slice(&inner);
    assert_eq!(out, expected);
    stats.record_send(EgressKind::VirtualInterface, SendOutcome::Sent, out.len() as u64);
    assert_eq!(stats.get_total_tx(), 42);
    assert_eq!(stats.get_drop_count(), 0);
    assert_eq!(stats.get_total_rx(), frame.len() as u64);
}

#[test]
fn end_to_end_disallowed_vni_drops() {
    let frame = overlay_frame(250, 500, false, &payload(28));
    let allow = AllowSet::from_vnis(&vec![100]);
    let mut stats = Stats::new();
    assert!(process_frame(&frame, &allow, &mut stats).is_none());
    assert_eq!(stats.get_drop_count(), 1);
    assert_eq!(stats.get_total_tx(), 0);
    assert_eq!(stats.get_total_rx(), frame.len() as u64);
}

#[test]
fn empty_vni_list_admits_all() {
    let frame = overlay_frame(250, 0xff_ffff, false, &payload(20));
    let allow = AllowSet::from_vnis(&vec![]);
    assert!(allow.admits(7));
    assert!(matches!(demux(&frame, &allow), Demux::Forward(v) if v.len() == 34));
}

#[test]
fn link_payload_passes_unchanged() {
    let inner = payload(14);
    let frame = overlay_frame(250, 42, true, &inner);
    let allow = AllowSet::from_vnis(&vec![41, 42]);
    match demux(&frame, &allow) {
        Demux::Forward(v) => assert_eq!(v, inner),
        Demux::Drop => panic!("dropped"),
    }
}

#[test]
fn undersized_bare_payload_drops() {
    let frame = overlay_frame(250, 1, false, &payload(19));
    let mut stats = Stats::new();
    assert!(process_frame(&frame, &AllowSet::from_vnis(&vec![]), &mut stats).is_none());
    assert_eq!(stats.get_drop_count(), 1);
}

#[test]
fn undersized_link_payload_drops() {
    let frame = overlay_frame(250, 1, true, &payload(13));
    assert!(matches!(demux(&frame, &AllowSet::from_vnis(&vec![])), Demux::Drop));
}

#[test]
fn short_overlay_header_drops() {
    let frame = udp_frame(0x0800, 17, 250, &[0x08, 0, 0, 0, 0, 1, 0xf4]);
    assert!(matches!(demux(&frame, &AllowSet::from_vnis(&vec![])), Demux::Drop));
    assert!(matches!(demux(&frame, &AllowSet::from_vnis(&vec![500])), Demux::Drop));
}

#[test]
fn other_traffic_drops() {
    let allow = AllowSet::from_vnis(&vec![]);
    let mut body = vec![0x08u8, 0, 0, 0, 0, 0, 1, 0];
    body.extend_from_slice(&payload(20));
    assert!(matches!(demux(&udp_frame(0x86dd, 17, 250, &body), &allow), Demux::Drop));
    assert!(matches!(demux(&udp_frame(0x0800, 6, 250, &body), &allow), Demux::Drop));
    assert!(matches!(demux(&udp_frame(0x0800, 17, 4789, &body), &allow), Demux::Drop));
    assert!(matches!(demux(&udp_frame(0x0800, 17, 250, &body), &allow), Demux::Forward(_)));
    assert!(matches!(demux(&[0u8; 13], &allow), Demux::Drop));
}

#[test]
fn capture_step_backs_off_on_read_error() {
    let mut stats = Stats::new();
    let allow = AllowSet::from_vnis(&vec![]);
    assert!(matches!(capture_step(CaptureEvent::ReadError, &allow, &mut stats), CaptureAction::Backoff(10)));
    assert_eq!(stats.get_total_rx(), 0);
    let frame = overlay_frame(250, 3, true, &payload(60));
    assert!(matches!(capture_step(CaptureEvent::Frame(frame), &allow, &mut stats), CaptureAction::Forward(v) if v.len() == 60));
    assert!(matches!(capture_step(CaptureEvent::Frame(vec![1, 2, 3]), &allow, &mut stats), CaptureAction::Discard));
    assert_eq!(stats.get_drop_count(), 1);
}

#[test]
fn physical_send_failures_count_as_drops() {
    let mut stats = Stats::new();
    stats.record_send(EgressKind::PhysicalHandle, SendOutcome::Failed, 100);
    stats.record_send(EgressKind::PhysicalHandle, SendOutcome::NoResult, 100);
    stats.record_send(EgressKind::VirtualInterface, SendOutcome::Failed, 100);
    stats.record_send(EgressKind::PhysicalHandle, SendOutcome::Sent, 64);
    assert_eq!(stats.get_drop_count(), 2);
    assert_eq!(stats.get_total_tx(), 64);
}

#[test]
fn counters_saturate() {
    let mut stats = Stats::new();
    stats.add_rx_bytes(u64::MAX - 1);
    stats.add_rx_bytes(5);
    assert_eq!(stats.get_total_rx(), u64::MAX);
}

#[test]
fn update_prunes_samples_outside_window() {
    let mut stats = Stats::new();
    stats.update(0, 0, 0);
    stats.update(5_000, 100, 10);
    stats.update(11_000, 300, 30);
    // the sample at 0 is 11 s old and leaves; the one at 5 s stays
    let t = stats.window_totals().expect("two samples");
    assert_eq!(t.rx_bytes, 200);
    assert_eq!(t.tx_bytes, 20);
    assert_eq!(t.elapsed_ms, 6_000);
}

#[test]
fn window_totals_needs_elapsed_time() {
    let mut stats = Stats::new();
    assert!(stats.window_totals().is_none());
    stats.update(1_000, 10, 10);
    assert!(stats.window_totals().is_none());
    stats.update(1_000, 20, 20);
    assert!(stats.window_totals().is_none());
    stats.update(2_000, 15, 1_020);
    let t = stats.window_totals().unwrap();
    assert_eq!((t.rx_bytes, t.tx_bytes, t.elapsed_ms), (0, 1_000, 1_000));
}

#[test]
fn steady_rate_window_average() {
    let mut stats = Stats::new();
    for k in 0..30u64 {
        stats.update(k * 1_000, k * 1_250, k * 500);
    }
    let t = stats.window_totals().unwrap();
    assert_eq!(t.elapsed_ms, 10_000);
    assert_eq!(t.rx_bytes * 8 * 1_000 / t.elapsed_ms, 10_000);
    assert_eq!(t.tx_bytes * 8 * 1_000 / t.elapsed_ms, 4_000);
}

#[test]
fn request_name_pads_to_sixteen() {
    let v = request_name(b"tap0").unwrap();
    assert_eq!(v.len(), 16);
    assert_eq!(&v[..4], b"tap0");
    assert!(v[4..].iter().all(|&b| b == 0));
    assert!(request_name(b"fifteen-chars-x").is_ok());
    assert_eq!(request_name(b"sixteen-chars-xy"), Err(TapNameError::TooLong));
}

#[test]
fn teardown_runs_once() {
    let mut tap = TapInterface::created("tap0".to_string());
    assert_eq!(tap.teardown(), vec![LinkCommand::SetDown, LinkCommand::Delete]);
    assert!(!tap.is_live_now());
    assert_eq!(tap.teardown(), vec![]);
    assert_eq!(tap.name(), "tap0");
}

#[test]
fn validate_requires_exactly_one_egress() {
    let mut a = Args { input: "eth0".to_string(), tap: Some("tap0".to_string()), output: Some("eth1".to_string()), vni: vec![] };
    assert_eq!(a.validate(), Err(ConfigError::BothEgress));
    a.tap = None;
    assert_eq!(a.validate(), Ok(()));
    a.output = None;
    assert_eq!(a.validate(), Err(ConfigError::NoEgress));
}

#[test]
fn up_plan_cases() {
    assert_eq!(up_plan(false, true), UpPlan::Missing);
    assert_eq!(up_plan(true, true), UpPlan::Ready);
    assert_eq!(up_plan(true, false), UpPlan::BringUp);
}
