//! The protocol surface devices call, as pure state transitions.
//!
//! Each handler is one request's effect on the registry and the zone cache:
//! register, now-playing poll, control post, config get/set. Handlers take
//! every outside fact (the time, the collaborator's frame, the applied
//! volume) as a plain argument and perform no I/O, so the surrounding server
//! can run them under a short lock and keep network calls outside it. Every
//! non-register call on an unknown device answers `NotRegistered`, telling
//! the device to re-register.

use vstd::prelude::*;
use crate::cache::{spec_zone_get, spec_zone_has, CacheError, ZoneCache};
use crate::image::{spec_header, NowPlayingFrame, Resolution};
use crate::router::{spec_decide, ControlKind, EventDisposition};
use crate::store::{
    others_unchanged, spec_get, spec_has, spec_touched, Config, ConfigDelta, Device, DeviceStore,
    StoreError,
};

verus! {

/// What `register` answers: the device's configuration as stored.
pub struct RegisterReply {
    pub zone_binding: Option<String>,
    pub poll_interval_ms: u64,
    pub brightness: u8,
}

/// What a now-playing poll answers.
pub enum PollReply {
    /// Unknown device: re-register.
    NotRegistered,
    /// The device is not bound to any zone; nothing to display.
    NoZone,
    /// The device already holds the current generation; no image is sent.
    Unchanged,
    /// New content: the full wire payload (header, then pixels).
    Changed { generation: u64, payload: Vec<u8> },
}

/// What a control post answers.
pub enum ControlReply {
    /// Fresh event for this bound zone: the caller fetches the zone's
    /// current volume, resolves `kind` into one playback command, applies it
    /// to the collaborator, and then confirms with `confirm_applied`.
    Accepted { zone: String, kind: ControlKind },
    /// Sequence already applied: dropped, not an error.
    Duplicate,
    /// Unknown device: re-register.
    NotRegistered,
    /// Fresh event, but the device is bound to no zone.
    NoZone,
}

/// The hardware control surface: the registry and the per-zone image cache,
/// composed per request. One instance is constructed at process start and
/// owned by the server.
pub struct HardwareApi {
    pub store: DeviceStore,
    pub cache: ZoneCache,
}

impl HardwareApi {
    pub open spec fn wf(self) -> bool {
        self.store.wf() && self.cache.wf()
    }

    pub fn new(stale_after_ms: u64, offline_after_ms: u64, epoch: u64, resolution: Resolution) -> (r:
        HardwareApi)
        requires
            stale_after_ms < offline_after_ms,
            (resolution.width as int) * (resolution.height as int) * 2 <= usize::MAX as int,
        ensures
            r.wf(),
            r.store@ == Seq::<Device>::empty(),
            r.store.stale_after() == stale_after_ms,
            r.store.offline_after() == offline_after_ms,
            r.cache@.len() == 0,
            r.cache.spec_epoch() == epoch,
            r.cache.spec_resolution() == resolution,
    {
        HardwareApi {
            store: DeviceStore::new(stale_after_ms, offline_after_ms),
            cache: ZoneCache::new(epoch, resolution),
        }
    }

    /// Register (or re-register) a device and hand back its stored
    /// configuration. Idempotent: an existing device keeps its config and
    /// applied-sequence watermark; only liveness and firmware move.
    pub fn handle_register(&mut self, device_id: String, firmware_version: String, now: u64) -> (r:
        RegisterReply)
        requires
            old(self).wf(),
        ensures
            final(self).wf(),
            final(self).cache == old(self).cache,
            final(self).store.stale_after() == old(self).store.stale_after(),
            final(self).store.offline_after() == old(self).store.offline_after(),
            spec_has(final(self).store@, device_id@),
            others_unchanged(old(self).store@, final(self).store@, device_id@),
            ({
                let d1 = spec_get(final(self).store@, device_id@);
                &&& r.zone_binding == d1.config.zone_binding
                &&& r.poll_interval_ms == d1.config.poll_interval_ms
                &&& r.brightness == d1.config.brightness
            }),
            spec_has(old(self).store@, device_id@) ==> {
                let d0 = spec_get(old(self).store@, device_id@);
                let d1 = spec_get(final(self).store@, device_id@);
                &&& final(self).store@.len() == old(self).store@.len()
                &&& d1.config == d0.config
                &&& d1.last_applied_sequence == d0.last_applied_sequence
                &&& d1.last_image_generation == d0.last_image_generation
                &&& d1.registered_at == d0.registered_at
                &&& d1.battery_pct == d0.battery_pct
                &&& d1.firmware_version@ == firmware_version@
                &&& d1.last_seen_at == spec_touched(d0.last_seen_at, now)
            },
            !spec_has(old(self).store@, device_id@) ==> {
                let d1 = spec_get(final(self).store@, device_id@);
                &&& final(self).store@.len() == old(self).store@.len() + 1
                &&& d1.config == Config::spec_default()
                &&& d1.last_applied_sequence == 0
                &&& d1.registered_at == now
                &&& d1.last_seen_at == now
                &&& d1.firmware_version@ == firmware_version@
            },
    {
        let d = self.store.register(device_id, firmware_version, now);
        RegisterReply {
            zone_binding: d.config.zone_binding,
            poll_interval_ms: d.config.poll_interval_ms,
            brightness: d.config.brightness,
        }
    }

    /// Answer a now-playing poll. Side effect: the poll counts as contact.
    /// Unknown device: `NotRegistered`. Unbound device: `NoZone`. If the
    /// bound zone's current generation equals what the device already holds
    /// (or the zone was never rendered): a cheap `Unchanged` with no image.
    /// Otherwise the full payload, and the device's acknowledged generation
    /// is recorded.
    pub fn handle_poll(&mut self, device_id: &String, last_known_generation: u64, now: u64) -> (r:
        PollReply)
        requires
            old(self).wf(),
        ensures
            final(self).wf(),
            final(self).cache == old(self).cache,
            final(self).store.stale_after() == old(self).store.stale_after(),
            final(self).store.offline_after() == old(self).store.offline_after(),
            !spec_has(old(self).store@, device_id@) ==> final(self).store@ == old(self).store@
                && (r matches PollReply::NotRegistered),
            spec_has(old(self).store@, device_id@) ==> {
                let d0 = spec_get(old(self).store@, device_id@);
                let d1 = spec_get(final(self).store@, device_id@);
                &&& spec_has(final(self).store@, device_id@)
                &&& final(self).store@.len() == old(self).store@.len()
                &&& others_unchanged(old(self).store@, final(self).store@, device_id@)
                &&& d1.last_seen_at == spec_touched(d0.last_seen_at, now)
                &&& d1.config == d0.config
                &&& d1.last_applied_sequence == d0.last_applied_sequence
                &&& d1.firmware_version == d0.firmware_version
                &&& d1.battery_pct == d0.battery_pct
                &&& d1.registered_at == d0.registered_at
                &&& match d0.config.zone_binding {
                    None => (r matches PollReply::NoZone) && d1.last_image_generation
                        == d0.last_image_generation,
                    Some(z) => {
                        if !spec_zone_has(old(self).cache@, z@) {
                            &&& r matches PollReply::Unchanged
                            &&& d1.last_image_generation == d0.last_image_generation
                        } else {
                            let e = spec_zone_get(old(self).cache@, z@);
                            if e.generation == last_known_generation {
                                &&& r matches PollReply::Unchanged
                                &&& d1.last_image_generation == d0.last_image_generation
                            } else {
                                &&& (r matches PollReply::Changed { generation, payload } ==> {
                                    &&& generation == e.generation
                                    &&& payload@ == spec_header(
                                        old(self).cache.spec_resolution().width,
                                        old(self).cache.spec_resolution().height,
                                        (e.generation as int % 0x100000000) as u32,
                                    ) + e.bytes@
                                })
                                &&& (r matches PollReply::Changed { generation, payload })
                                &&& d1.last_image_generation == e.generation
                            }
                        }
                    },
                }
            },
    {
        let d = match self.store.get(device_id) {
            Some(d) => d,
            None => {
                return PollReply::NotRegistered;
            },
        };
        let touched = self.store.touch(device_id, now);
        proof {
            assert(touched is Ok);
        }
        let zone = match d.config.zone_binding {
            Some(z) => z,
            None => {
                return PollReply::NoZone;
            },
        };
        match self.cache.snapshot(&zone) {
            None => PollReply::Unchanged,
            Some((generation, payload)) => {
                if generation == last_known_generation {
                    PollReply::Unchanged
                } else {
                    let noted = self.store.note_image_generation(device_id, generation);
                    proof {
                        assert(noted is Ok);
                    }
                    PollReply::Changed { generation, payload }
                }
            },
        }
    }

    /// Route a control post. Side effect: the post counts as contact. The
    /// event is decided against the device's applied-sequence watermark:
    /// at or below it is a `Duplicate` and is dropped; above it, and with a
    /// zone bound, it is `Accepted` and the caller applies it, then calls
    /// `confirm_applied`. Nothing is buffered or reordered.
    pub fn handle_control(&mut self, device_id: &String, kind: ControlKind, sequence: u64, now: u64)
        -> (r: ControlReply)
        requires
            old(self).wf(),
        ensures
            final(self).wf(),
            final(self).cache == old(self).cache,
            final(self).store.stale_after() == old(self).store.stale_after(),
            final(self).store.offline_after() == old(self).store.offline_after(),
            !spec_has(old(self).store@, device_id@) ==> final(self).store@ == old(self).store@
                && (r matches ControlReply::NotRegistered),
            spec_has(old(self).store@, device_id@) ==> {
                let d0 = spec_get(old(self).store@, device_id@);
                let d1 = spec_get(final(self).store@, device_id@);
                &&& spec_has(final(self).store@, device_id@)
                &&& final(self).store@.len() == old(self).store@.len()
                &&& others_unchanged(old(self).store@, final(self).store@, device_id@)
                &&& d1 == Device { last_seen_at: spec_touched(d0.last_seen_at, now), ..d0 }
                &&& (spec_decide(old(self).store, device_id@, sequence)
                    == EventDisposition::Duplicate ==> (r matches ControlReply::Duplicate))
                &&& (spec_decide(old(self).store, device_id@, sequence) == EventDisposition::Fresh
                    ==> match d0.config.zone_binding {
                    None => r matches ControlReply::NoZone,
                    Some(z) => (r matches ControlReply::Accepted { zone, kind: k } ==> zone@ == z@
                        && k == kind) && (r matches ControlReply::Accepted { .. }),
                })
            },
    {
        let d = match self.store.get(device_id) {
            Some(d) => d,
            None => {
                return ControlReply::NotRegistered;
            },
        };
        let touched = self.store.touch(device_id, now);
        proof {
            assert(touched is Ok);
        }
        if sequence <= d.last_applied_sequence {
            ControlReply::Duplicate
        } else {
            match d.config.zone_binding {
                Some(zone) => ControlReply::Accepted { zone, kind },
                None => ControlReply::NoZone,
            }
        }
    }

    /// Record that an accepted event was successfully applied to the
    /// collaborator: the device's watermark advances to its sequence (never
    /// backwards), after which the same or any earlier sequence is a
    /// duplicate.
    pub fn confirm_applied(&mut self, device_id: &String, sequence: u64) -> (r: Result<
        (),
        StoreError,
    >)
        requires
            old(self).wf(),
        ensures
            final(self).wf(),
            final(self).cache == old(self).cache,
            final(self).store.stale_after() == old(self).store.stale_after(),
            final(self).store.offline_after() == old(self).store.offline_after(),
            r is Ok <==> spec_has(old(self).store@, device_id@),
            r is Err ==> final(self).store@ == old(self).store@,
            r is Ok ==> {
                let d0 = spec_get(old(self).store@, device_id@);
                let d1 = spec_get(final(self).store@, device_id@);
                &&& spec_has(final(self).store@, device_id@)
                &&& final(self).store@.len() == old(self).store@.len()
                &&& others_unchanged(old(self).store@, final(self).store@, device_id@)
                &&& d1 == Device {
                    last_applied_sequence: if d0.last_applied_sequence >= sequence {
                        d0.last_applied_sequence
                    } else {
                        sequence
                    },
                    ..d0
                }
                &&& d1.last_applied_sequence >= sequence
                &&& spec_decide(final(self).store, device_id@, sequence)
                    == EventDisposition::Duplicate
            },
    {
        self.store.commit_applied(device_id, sequence)
    }

    /// A device (or an administrator) reads a device's configuration.
    pub fn handle_config_get(&self, device_id: &String) -> (r: Option<Config>)
        requires
            self.wf(),
        ensures
            match r {
                Some(c) => spec_has(self.store@, device_id@) && c == spec_get(
                    self.store@,
                    device_id@,
                ).config,
                None => !spec_has(self.store@, device_id@),
            },
    {
        match self.store.get(device_id) {
            Some(d) => Some(d.config),
            None => None,
        }
    }

    /// An administrative caller pushes a configuration change (for example a
    /// zone binding), independent of device polling. Fields the delta leaves
    /// out keep their value; liveness does not move.
    pub fn handle_config_set(&mut self, device_id: &String, delta: ConfigDelta) -> (r: Result<
        Config,
        StoreError,
    >)
        requires
            old(self).wf(),
        ensures
            final(self).wf(),
            final(self).cache == old(self).cache,
            final(self).store.stale_after() == old(self).store.stale_after(),
            final(self).store.offline_after() == old(self).store.offline_after(),
            r is Ok <==> spec_has(old(self).store@, device_id@),
            r is Err ==> final(self).store@ == old(self).store@,
            r is Ok ==> {
                let d0 = spec_get(old(self).store@, device_id@);
                let d1 = spec_get(final(self).store@, device_id@);
                &&& spec_has(final(self).store@, device_id@)
                &&& final(self).store@.len() == old(self).store@.len()
                &&& others_unchanged(old(self).store@, final(self).store@, device_id@)
                &&& d1 == Device { config: d0.config.spec_merged(delta), ..d0 }
                &&& r == Ok::<Config, StoreError>(d1.config)
            },
    {
        match self.store.update_config(device_id, delta) {
            Ok(d) => Ok(d.config),
            Err(e) => Err(e),
        }
    }

    /// Bring a zone's render up to date with the collaborator's current
    /// frame (the caller fetches the frame outside any lock). The zone's
    /// generation moves exactly when the content fingerprint moves.
    pub fn refresh_zone(&mut self, zone: &String, frame: &NowPlayingFrame) -> (r: Result<
        u64,
        CacheError,
    >)
        requires
            old(self).wf(),
        ensures
            final(self).wf(),
            final(self).store == old(self).store,
            final(self).cache.spec_epoch() == old(self).cache.spec_epoch(),
            final(self).cache.spec_resolution() == old(self).cache.spec_resolution(),
            ({
                let fp = crate::image::spec_fingerprint(crate::image::spec_content(*frame));
                if !spec_zone_has(old(self).cache@, zone@) {
                    &&& r == Ok::<u64, CacheError>(old(self).cache.spec_epoch())
                    &&& spec_zone_has(final(self).cache@, zone@)
                    &&& spec_zone_get(final(self).cache@, zone@).generation == old(
                        self,
                    ).cache.spec_epoch()
                    &&& spec_zone_get(final(self).cache@, zone@).fingerprint == fp
                } else if spec_zone_get(old(self).cache@, zone@).fingerprint == fp {
                    &&& r == Ok::<u64, CacheError>(
                        spec_zone_get(old(self).cache@, zone@).generation,
                    )
                    &&& final(self).cache@ == old(self).cache@
                } else if spec_zone_get(old(self).cache@, zone@).generation == u64::MAX {
                    &&& r == Err::<u64, CacheError>(CacheError::GenerationExhausted)
                    &&& final(self).cache@ == old(self).cache@
                } else {
                    &&& r == Ok::<u64, CacheError>(
                        (spec_zone_get(old(self).cache@, zone@).generation + 1) as u64,
                    )
                    &&& spec_zone_has(final(self).cache@, zone@)
                    &&& spec_zone_get(final(self).cache@, zone@).generation == spec_zone_get(
                        old(self).cache@,
                        zone@,
                    ).generation + 1
                    &&& spec_zone_get(final(self).cache@, zone@).fingerprint == fp
                }
            }),
    {
        self.cache.refresh(zone, frame)
    }
}

} // verus!
