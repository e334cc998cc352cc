use knob_core::store::{
    Config, ConfigDelta, DeviceStatus, DeviceStore, StoreError, DEFAULT_BRIGHTNESS,
    DEFAULT_POLL_INTERVAL_MS,
};

fn store() -> DeviceStore {
    // stale after 60 s, offline after 300 s
    DeviceStore::new(60_000, 300_000)
}

#[test]
fn register_creates_device_with_defaults() {
    let mut s = store();
    let d = s.register("knob-01".to_string(), "1.2.0".to_string(), 1_000);
    assert_eq!(d.device_id, "knob-01");
    assert_eq!(d.firmware_version, "1.2.0");
    assert_eq!(d.registered_at, 1_000);
    assert_eq!(d.last_seen_at, 1_000);
    assert_eq!(d.last_applied_sequence, 0);
    assert_eq!(d.battery_pct, None);
    assert_eq!(d.config.zone_binding, None);
    assert_eq!(d.config.poll_interval_ms, DEFAULT_POLL_INTERVAL_MS);
    assert_eq!(d.config.brightness, DEFAULT_BRIGHTNESS);
    assert_eq!(s.list().len(), 1);
}

#[test]
fn reregister_keeps_config_and_sequence() {
    let mut s = store();
    s.register("knob-01".to_string(), "1.0.0".to_string(), 1_000);
    s.update_config(
        &"knob-01".to_string(),
        ConfigDelta {
            zone_binding: Some(Some("living-room".to_string())),
            poll_interval_ms: Some(250),
            brightness: Some(200),
        },
    )
    .unwrap();
    s.commit_applied(&"knob-01".to_string(), 7).unwrap();

    // re-registering must refresh only last_seen_at and firmware_version
    let d = s.register("knob-01".to_string(), "2.0.0".to_string(), 5_000);
    assert_eq!(s.list().len(), 1);
    assert_eq!(d.firmware_version, "2.0.0");
    assert_eq!(d.last_seen_at, 5_000);
    assert_eq!(d.registered_at, 1_000);
    assert_eq!(d.last_applied_sequence, 7);
    assert_eq!(d.config.zone_binding, Some("living-room".to_string()));
    assert_eq!(d.config.poll_interval_ms, 250);
    assert_eq!(d.config.brightness, 200);
}

#[test]
fn last_seen_never_moves_backwards() {
    let mut s = store();
    s.register("knob-01".to_string(), "1.0.0".to_string(), 9_000);
    let d = s.register("knob-01".to_string(), "1.0.0".to_string(), 4_000);
    assert_eq!(d.last_seen_at, 9_000);
}

#[test]
fn status_thresholds() {
    let mut s = store();
    let id = "knob-01".to_string();
    s.register(id.clone(), "1.0.0".to_string(), 0);
    // silent 30 s: Online; 120 s: Stale; 400 s: Offline
    assert_eq!(s.status(&id, 30_000), DeviceStatus::Online);
    assert_eq!(s.status(&id, 120_000), DeviceStatus::Stale);
    assert_eq!(s.status(&id, 400_000), DeviceStatus::Offline);
    // boundaries
    assert_eq!(s.status(&id, 59_999), DeviceStatus::Online);
    assert_eq!(s.status(&id, 60_000), DeviceStatus::Stale);
    assert_eq!(s.status(&id, 299_999), DeviceStatus::Stale);
    assert_eq!(s.status(&id, 300_000), DeviceStatus::Offline);
    assert_eq!(s.status(&"nobody".to_string(), 0), DeviceStatus::NotRegistered);
}

#[test]
fn any_contact_returns_to_online() {
    let mut s = store();
    let id = "knob-01".to_string();
    s.register(id.clone(), "1.0.0".to_string(), 0);
    assert_eq!(s.status(&id, 400_000), DeviceStatus::Offline);
    s.heartbeat(&id, 80, 400_000).unwrap();
    assert_eq!(s.status(&id, 400_000), DeviceStatus::Online);
}

#[test]
fn heartbeat_updates_battery_and_liveness() {
    let mut s = store();
    let id = "knob-01".to_string();
    s.register(id.clone(), "1.0.0".to_string(), 0);
    let d = s.heartbeat(&id, 73, 10_000).unwrap();
    assert_eq!(d.battery_pct, Some(73));
    assert_eq!(d.last_seen_at, 10_000);
    assert!(matches!(
        s.heartbeat(&"ghost".to_string(), 50, 10_000),
        Err(StoreError::NotRegistered)
    ));
}

#[test]
fn update_config_merges_only_given_fields() {
    let mut s = store();
    let id = "knob-01".to_string();
    s.register(id.clone(), "1.0.0".to_string(), 0);
    s.update_config(
        &id,
        ConfigDelta {
            zone_binding: Some(Some("kitchen".to_string())),
            poll_interval_ms: None,
            brightness: None,
        },
    )
    .unwrap();
    let d = s
        .update_config(
            &id,
            ConfigDelta { zone_binding: None, poll_interval_ms: Some(500), brightness: None },
        )
        .unwrap();
    // the unbinding was kept, the interval changed, brightness untouched
    assert_eq!(d.config.zone_binding, Some("kitchen".to_string()));
    assert_eq!(d.config.poll_interval_ms, 500);
    assert_eq!(d.config.brightness, DEFAULT_BRIGHTNESS);
    assert!(matches!(
        s.update_config(
            &"ghost".to_string(),
            ConfigDelta { zone_binding: None, poll_interval_ms: None, brightness: None }
        ),
        Err(StoreError::NotRegistered)
    ));
}

#[test]
fn config_delta_can_clear_binding() {
    let mut s = store();
    let id = "knob-01".to_string();
    s.register(id.clone(), "1.0.0".to_string(), 0);
    s.update_config(
        &id,
        ConfigDelta {
            zone_binding: Some(Some("kitchen".to_string())),
            poll_interval_ms: None,
            brightness: None,
        },
    )
    .unwrap();
    let d = s
        .update_config(
            &id,
            ConfigDelta { zone_binding: Some(None), poll_interval_ms: None, brightness: None },
        )
        .unwrap();
    assert_eq!(d.config.zone_binding, None);
}

#[test]
fn commit_applied_never_moves_watermark_backwards() {
    let mut s = store();
    let id = "knob-01".to_string();
    s.register(id.clone(), "1.0.0".to_string(), 0);
    s.commit_applied(&id, 5).unwrap();
    assert_eq!(s.last_applied(&id), Some(5));
    s.commit_applied(&id, 3).unwrap();
    assert_eq!(s.last_applied(&id), Some(5));
    s.commit_applied(&id, 9).unwrap();
    assert_eq!(s.last_applied(&id), Some(9));
}

#[test]
fn gc_removes_only_long_offline_devices() {
    let mut s = store();
    s.register("old".to_string(), "1.0.0".to_string(), 0);
    s.register("fresh".to_string(), "1.0.0".to_string(), 900_000);
    // at t=1,000,000: "old" silent 1,000s (offline, retention 600s exceeded),
    // "fresh" silent 100s (stale at most)
    s.gc(1_000_000, 600_000);
    let left = s.list();
    assert_eq!(left.len(), 1);
    assert_eq!(left[0].device_id, "fresh");
}

#[test]
fn gc_keeps_offline_devices_within_retention() {
    let mut s = store();
    s.register("old".to_string(), "1.0.0".to_string(), 0);
    // offline (400s silent) but retention window is 600s
    s.gc(400_000, 600_000);
    assert_eq!(s.list().len(), 1);
}

#[test]
fn list_is_a_snapshot() {
    let mut s = store();
    s.register("a".to_string(), "1".to_string(), 0);
    s.register("b".to_string(), "1".to_string(), 0);
    let snap = s.list();
    s.register("c".to_string(), "1".to_string(), 0);
    assert_eq!(snap.len(), 2);
    assert_eq!(s.list().len(), 3);
}

#[test]
fn touch_refreshes_liveness_only() {
    let mut s = store();
    let id = "knob-01".to_string();
    s.register(id.clone(), "1.0.0".to_string(), 0);
    s.heartbeat(&id, 50, 1_000).unwrap();
    s.touch(&id, 200_000).unwrap();
    let d = s.get(&id).unwrap();
    assert_eq!(d.last_seen_at, 200_000);
    assert_eq!(d.battery_pct, Some(50));
    assert!(matches!(s.touch(&"ghost".to_string(), 0), Err(StoreError::NotRegistered)));
}

#[test]
fn note_image_generation_records_acknowledgement() {
    let mut s = store();
    let id = "knob-01".to_string();
    s.register(id.clone(), "1.0.0".to_string(), 0);
    assert_eq!(s.get(&id).unwrap().last_image_generation, 0);
    s.note_image_generation(&id, 42).unwrap();
    assert_eq!(s.get(&id).unwrap().last_image_generation, 42);
    assert!(s.get(&"ghost".to_string()).is_none());
}

#[test]
fn default_config_shape() {
    let c = Config {
        zone_binding: None,
        poll_interval_ms: DEFAULT_POLL_INTERVAL_MS,
        brightness: DEFAULT_BRIGHTNESS,
    };
    assert_eq!(c.poll_interval_ms, 1000);
    assert_eq!(c.brightness, 128);
}
