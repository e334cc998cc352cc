use knob_core::api::{ControlReply, HardwareApi, PollReply};
use knob_core::cache::ZoneCache;
use knob_core::html::{html_doc, nav_html};
use knob_core::image::{NowPlayingFrame, PlaybackState, Resolution};
use knob_core::router::{decide, resolve, ControlKind, EventDisposition, PlaybackCommand};
use knob_core::store::{ConfigDelta, DeviceStatus, DeviceStore};

fn api() -> HardwareApi {
    HardwareApi::new(60_000, 300_000, 0, Resolution { width: 240, height: 240 })
}

fn frame(title: &str) -> NowPlayingFrame {
    NowPlayingFrame {
        title: title.to_string(),
        artist: "Artist".to_string(),
        art: None,
        playback_state: PlaybackState::Playing,
        volume: 40,
    }
}

fn bind(api: &mut HardwareApi, id: &str, zone: &str) {
    api.handle_config_set(
        &id.to_string(),
        ConfigDelta {
            zone_binding: Some(Some(zone.to_string())),
            poll_interval_ms: None,
            brightness: None,
        },
    )
    .unwrap();
}

#[test]
fn register_then_poll_scenario() {
    let mut api = api();
    let id = "knob-01".to_string();
    let reply = api.handle_register("knob-01".to_string(), "1.2.0".to_string(), 0);
    assert_eq!(reply.poll_interval_ms, 1000);
    assert_eq!(api.store.list().len(), 1);
    assert_eq!(api.store.status(&id, 0), DeviceStatus::Online);

    bind(&mut api, "knob-01", "living-room");

    // the zone renders at generation 0 (epoch 0)
    let g = api.refresh_zone(&"living-room".to_string(), &frame("First Track")).unwrap();
    assert_eq!(g, 0);

    // device already holds generation 0: cheap unchanged answer, no image
    match api.handle_poll(&id, 0, 1_000) {
        PollReply::Unchanged => {},
        _ => panic!("expected Unchanged"),
    }

    // the track changes: generation becomes 1
    let g = api.refresh_zone(&"living-room".to_string(), &frame("Second Track")).unwrap();
    assert_eq!(g, 1);

    // the same poll now carries image bytes and generation 1
    match api.handle_poll(&id, 0, 2_000) {
        PollReply::Changed { generation, payload } => {
            assert_eq!(generation, 1);
            assert_eq!(payload.len(), 8 + 240 * 240 * 2);
        },
        _ => panic!("expected Changed"),
    }
}

#[test]
fn refresh_with_same_content_keeps_generation_and_bytes() {
    let mut api = api();
    let zone = "z".to_string();
    assert_eq!(api.refresh_zone(&zone, &frame("A")).unwrap(), 0);
    assert_eq!(api.refresh_zone(&zone, &frame("A")).unwrap(), 0);
    assert_eq!(api.refresh_zone(&zone, &frame("B")).unwrap(), 1);
    assert_eq!(api.refresh_zone(&zone, &frame("B")).unwrap(), 1);
    assert_eq!(api.refresh_zone(&zone, &frame("A")).unwrap(), 2);
}

#[test]
fn zones_have_independent_generations() {
    let mut api = api();
    assert_eq!(api.refresh_zone(&"a".to_string(), &frame("X")).unwrap(), 0);
    assert_eq!(api.refresh_zone(&"b".to_string(), &frame("X")).unwrap(), 0);
    assert_eq!(api.refresh_zone(&"a".to_string(), &frame("Y")).unwrap(), 1);
    assert_eq!(api.refresh_zone(&"b".to_string(), &frame("X")).unwrap(), 0);
}

#[test]
fn cache_epoch_offsets_generations() {
    let mut cache = ZoneCache::new(7_000, Resolution { width: 2, height: 2 });
    let zone = "z".to_string();
    assert_eq!(cache.refresh(&zone, &frame("A")).unwrap(), 7_000);
    assert_eq!(cache.refresh(&zone, &frame("B")).unwrap(), 7_001);
    assert_eq!(cache.generation_of(&zone), Some(7_001));
    assert_eq!(cache.generation_of(&"other".to_string()), None);
}

#[test]
fn poll_unknown_device_says_not_registered() {
    let mut api = api();
    match api.handle_poll(&"ghost".to_string(), 0, 0) {
        PollReply::NotRegistered => {},
        _ => panic!("expected NotRegistered"),
    }
}

#[test]
fn poll_unbound_device_says_no_zone() {
    let mut api = api();
    api.handle_register("knob-01".to_string(), "1.0.0".to_string(), 0);
    match api.handle_poll(&"knob-01".to_string(), 0, 0) {
        PollReply::NoZone => {},
        _ => panic!("expected NoZone"),
    }
}

#[test]
fn poll_counts_as_contact() {
    let mut api = api();
    let id = "knob-01".to_string();
    api.handle_register("knob-01".to_string(), "1.0.0".to_string(), 0);
    assert_eq!(api.store.status(&id, 400_000), DeviceStatus::Offline);
    api.handle_poll(&id, 0, 400_000);
    assert_eq!(api.store.status(&id, 400_000), DeviceStatus::Online);
}

#[test]
fn duplicate_control_applies_exactly_once() {
    let mut api = api();
    let id = "knob-01".to_string();
    api.handle_register("knob-01".to_string(), "1.0.0".to_string(), 0);
    bind(&mut api, "knob-01", "den");

    let mut applies: u32 = 0;

    // first delivery of sequence 1: accepted, applied, confirmed
    match api.handle_control(&id, ControlKind::VolumeUp, 1, 100) {
        ControlReply::Accepted { zone, kind } => {
            assert_eq!(zone, "den");
            assert_eq!(kind, ControlKind::VolumeUp);
            // the caller applies the resolved command exactly once
            assert_eq!(resolve(kind, 40), PlaybackCommand::SetVolume(45));
            applies += 1;
            api.confirm_applied(&id, 1).unwrap();
        },
        _ => panic!("expected Accepted"),
    }

    // second delivery of the same event: a duplicate, nothing applied
    match api.handle_control(&id, ControlKind::VolumeUp, 1, 200) {
        ControlReply::Duplicate => {},
        _ => panic!("expected Duplicate"),
    }
    assert_eq!(applies, 1);
}

#[test]
fn out_of_order_sequence_is_duplicate() {
    let mut api = api();
    let id = "knob-01".to_string();
    api.handle_register("knob-01".to_string(), "1.0.0".to_string(), 0);
    bind(&mut api, "knob-01", "den");

    match api.handle_control(&id, ControlKind::PlayPause, 5, 100) {
        ControlReply::Accepted { .. } => api.confirm_applied(&id, 5).unwrap(),
        _ => panic!("expected Accepted"),
    }
    // sequence 3 arrives after 5 was applied: rejected as duplicate
    match api.handle_control(&id, ControlKind::PlayPause, 3, 200) {
        ControlReply::Duplicate => {},
        _ => panic!("expected Duplicate"),
    }
    // gaps are tolerated: 9 is fresh even though 6..8 never arrived
    match api.handle_control(&id, ControlKind::PlayPause, 9, 300) {
        ControlReply::Accepted { .. } => {},
        _ => panic!("expected Accepted"),
    }
}

#[test]
fn control_unknown_device_and_unbound_device() {
    let mut api = api();
    match api.handle_control(&"ghost".to_string(), ControlKind::PlayPause, 1, 0) {
        ControlReply::NotRegistered => {},
        _ => panic!("expected NotRegistered"),
    }
    api.handle_register("knob-01".to_string(), "1.0.0".to_string(), 0);
    match api.handle_control(&"knob-01".to_string(), ControlKind::PlayPause, 1, 0) {
        ControlReply::NoZone => {},
        _ => panic!("expected NoZone"),
    }
}

#[test]
fn decide_against_watermark() {
    let mut s = DeviceStore::new(60_000, 300_000);
    let id = "knob-01".to_string();
    s.register(id.clone(), "1.0.0".to_string(), 0);
    s.commit_applied(&id, 5).unwrap();
    assert_eq!(decide(&s, &id, 5), EventDisposition::Duplicate);
    assert_eq!(decide(&s, &id, 3), EventDisposition::Duplicate);
    assert_eq!(decide(&s, &id, 6), EventDisposition::Fresh);
    assert_eq!(decide(&s, &"ghost".to_string(), 1), EventDisposition::NotRegistered);
}

#[test]
fn volume_resolution_clamps() {
    assert_eq!(resolve(ControlKind::VolumeUp, 50), PlaybackCommand::SetVolume(55));
    assert_eq!(resolve(ControlKind::VolumeUp, 98), PlaybackCommand::SetVolume(100));
    assert_eq!(resolve(ControlKind::VolumeUp, 255), PlaybackCommand::SetVolume(100));
    assert_eq!(resolve(ControlKind::VolumeDown, 50), PlaybackCommand::SetVolume(45));
    assert_eq!(resolve(ControlKind::VolumeDown, 3), PlaybackCommand::SetVolume(0));
    assert_eq!(resolve(ControlKind::VolumeDown, 5), PlaybackCommand::SetVolume(0));
    assert_eq!(resolve(ControlKind::VolumeAbsolute(70), 10), PlaybackCommand::SetVolume(70));
    assert_eq!(resolve(ControlKind::VolumeAbsolute(150), 10), PlaybackCommand::SetVolume(100));
    assert_eq!(resolve(ControlKind::PlayPause, 10), PlaybackCommand::TogglePlayPause);
}

#[test]
fn nav_marks_active_entry() {
    let nav = nav_html("zones");
    assert!(nav.contains(r#"<li><a href="/zones" aria-current="page"><strong>Zones</strong></a></li>"#));
    assert!(nav.contains(r#"<li><a href="/">Dashboard</a></li>"#));
    assert!(!nav.contains(r#"href="/" aria-current"#));
}

#[test]
fn html_doc_wraps_title_nav_and_content() {
    let doc = html_doc("Zones", "zones", "<h1>Zones</h1>");
    assert!(doc.starts_with("<!DOCTYPE html>"));
    assert!(doc.contains("<title>Zones - Unified Hi-Fi Control</title>"));
    assert!(doc.contains(r#"aria-current="page"><strong>Zones</strong>"#));
    assert!(doc.contains("<h1>Zones</h1>"));
    assert!(doc.ends_with("</html>"));
}
