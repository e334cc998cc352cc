//! In-memory device registry.
//!
//! Tracks every knob that ever registered: its configuration, battery,
//! firmware, the last control sequence applied for it, and when it was last
//! heard from. Liveness is never stored: `status` derives it at read time
//! from `now - last_seen_at` against the two thresholds the store was built
//! with, so no background sweeper is needed for correctness. A periodic
//! `gc` call is the only path that ever removes a device.

use vstd::prelude::*;
use vstd::pervasive::VecAdditionalExecFns;

verus! {

/// Poll interval a device receives until an administrator changes it.
pub const DEFAULT_POLL_INTERVAL_MS: u64 = 1000;

/// Display brightness a device receives until an administrator changes it.
pub const DEFAULT_BRIGHTNESS: u8 = 128;

/// Per-device configuration, owned by the store at runtime.
pub struct Config {
    /// Logical playback endpoint this device displays and controls, if bound.
    pub zone_binding: Option<String>,
    /// How often the device should poll, in milliseconds.
    pub poll_interval_ms: u64,
    /// LCD backlight level.
    pub brightness: u8,
}

/// A partial configuration: `None` fields are left unchanged by a merge.
pub struct ConfigDelta {
    /// `Some(None)` clears the binding; `Some(Some(z))` rebinds; `None` keeps it.
    pub zone_binding: Option<Option<String>>,
    pub poll_interval_ms: Option<u64>,
    pub brightness: Option<u8>,
}

/// One registered knob.
pub struct Device {
    /// Stable, externally assigned, unique within the store.
    pub device_id: String,
    /// When the device first registered (milliseconds).
    pub registered_at: u64,
    /// Last contact; never decreases.
    pub last_seen_at: u64,
    pub firmware_version: String,
    /// Last reported battery percentage, if any heartbeat carried one.
    pub battery_pct: Option<u8>,
    pub config: Config,
    /// Highest control-event sequence applied for this device; never decreases.
    pub last_applied_sequence: u64,
    /// Image generation last acknowledged by the device on a poll.
    pub last_image_generation: u64,
}

/// Liveness derived at read time; `NotRegistered` means the id is unknown.
#[derive(Clone, Copy, Debug, PartialEq, Eq, Structural)]
pub enum DeviceStatus {
    Online,
    Stale,
    Offline,
    NotRegistered,
}

/// The one error ordinary store operations can report.
#[derive(Clone, Copy, Debug, PartialEq, Eq, Structural)]
pub enum StoreError {
    NotRegistered,
}

/// How long a device has been silent at time `now`, treating a clock that
/// reads earlier than the last contact as no silence at all.
pub open spec fn spec_silence(now: u64, last_seen: u64) -> int {
    if now >= last_seen {
        now - last_seen
    } else {
        0
    }
}

/// The liveness rule: silent less than `stale_after` is `Online`, less than
/// `offline_after` is `Stale`, anything longer is `Offline`.
pub open spec fn spec_status_of(
    now: u64,
    last_seen: u64,
    stale_after: u64,
    offline_after: u64,
) -> DeviceStatus {
    if spec_silence(now, last_seen) < stale_after {
        DeviceStatus::Online
    } else if spec_silence(now, last_seen) < offline_after {
        DeviceStatus::Stale
    } else {
        DeviceStatus::Offline
    }
}

/// A contact at `now` never moves `last_seen_at` backwards.
pub open spec fn spec_touched(last_seen: u64, now: u64) -> u64 {
    if last_seen >= now {
        last_seen
    } else {
        now
    }
}

/// No two devices share an id.
pub open spec fn ids_unique(devs: Seq<Device>) -> bool {
    forall|i: int, j: int|
        0 <= i < j < devs.len() ==> #[trigger] devs[i].device_id@ != #[trigger] devs[j].device_id@
}

/// Some device in `devs` has this id.
pub open spec fn spec_has(devs: Seq<Device>, id: Seq<char>) -> bool {
    exists|i: int| 0 <= i < devs.len() && #[trigger] devs[i].device_id@ == id
}

/// Index of the device with this id (meaningful only under `spec_has`).
pub open spec fn spec_index(devs: Seq<Device>, id: Seq<char>) -> int {
    choose|i: int| 0 <= i < devs.len() && #[trigger] devs[i].device_id@ == id
}

/// The device with this id (meaningful only under `spec_has`).
pub open spec fn spec_get(devs: Seq<Device>, id: Seq<char>) -> Device {
    devs[spec_index(devs, id)]
}

/// Devices other than `id` are exactly the same before and after.
pub open spec fn others_unchanged(pre: Seq<Device>, post: Seq<Device>, id: Seq<char>) -> bool {
    forall|oid: Seq<char>|
        oid != id ==> (#[trigger] spec_has(post, oid) == spec_has(pre, oid) && (spec_has(
            pre,
            oid,
        ) ==> spec_get(post, oid) == spec_get(pre, oid)))
}

/// Every element of a filtered sequence comes from the unfiltered one.
proof fn lemma_filter_elem(devs: Seq<Device>, pred: spec_fn(Device) -> bool, k: int)
    requires
        0 <= k < devs.filter(pred).len(),
    ensures
        exists|j: int| 0 <= j < devs.len() && devs[j] == devs.filter(pred)[k],
    decreases devs.len(),
{
    reveal(Seq::filter);
    if devs.len() > 0 {
        let sub = devs.drop_last().filter(pred);
        if pred(devs.last()) && k == sub.len() {
            assert(devs[devs.len() - 1] == devs.filter(pred)[k]);
        } else {
            lemma_filter_elem(devs.drop_last(), pred, k);
            let j = choose|j: int|
                0 <= j < devs.drop_last().len() && devs.drop_last()[j] == devs.drop_last().filter(
                    pred,
                )[k];
            assert(devs[j] == devs.filter(pred)[k]);
        }
    }
}

/// Filtering a sequence of unique ids keeps the ids unique.
proof fn lemma_filter_unique(devs: Seq<Device>, pred: spec_fn(Device) -> bool)
    requires
        ids_unique(devs),
    ensures
        ids_unique(devs.filter(pred)),
    decreases devs.len(),
{
    reveal(Seq::filter);
    if devs.len() > 0 {
        let pre = devs.drop_last();
        assert(ids_unique(pre)) by {
            assert forall|p: int, q: int| 0 <= p < q < pre.len() implies pre[p].device_id@
                != pre[q].device_id@ by {
                assert(devs[p].device_id@ != devs[q].device_id@);
            }
        }
        lemma_filter_unique(pre, pred);
        let sub = pre.filter(pred);
        let out = devs.filter(pred);
        if pred(devs.last()) {
            assert forall|p: int, q: int| 0 <= p < q < out.len() implies out[p].device_id@
                != out[q].device_id@ by {
                if q < sub.len() {
                    assert(sub[p].device_id@ != sub[q].device_id@);
                } else {
                    lemma_filter_elem(pre, pred, p);
                    let j = choose|j: int| 0 <= j < pre.len() && pre[j] == sub[p];
                    assert(devs[j] == sub[p]);
                    assert(devs[j].device_id@ != devs[devs.len() - 1].device_id@);
                }
            }
        }
    }
}

/// With unique ids, the device found at `i` is the one `spec_get` names.
pub proof fn lemma_at_index(devs: Seq<Device>, i: int)
    requires
        ids_unique(devs),
        0 <= i < devs.len(),
    ensures
        spec_has(devs, devs[i].device_id@),
        spec_index(devs, devs[i].device_id@) == i,
        spec_get(devs, devs[i].device_id@) == devs[i],
{
    let id = devs[i].device_id@;
    assert(spec_has(devs, id));
    let k = spec_index(devs, id);
    assert(0 <= k < devs.len() && devs[k].device_id@ == id);
    if k < i {
        assert(devs[k].device_id@ != devs[i].device_id@);
    } else if i < k {
        assert(devs[i].device_id@ != devs[k].device_id@);
    }
}

/// Replacing the device at `i` by one with the same id disturbs nothing else.
pub proof fn lemma_update_entry(pre: Seq<Device>, d: Device, i: int)
    requires
        ids_unique(pre),
        0 <= i < pre.len(),
        d.device_id@ == pre[i].device_id@,
    ensures
        ids_unique(pre.update(i, d)),
        spec_has(pre.update(i, d), d.device_id@),
        spec_get(pre.update(i, d), d.device_id@) == d,
        others_unchanged(pre, pre.update(i, d), d.device_id@),
{
    let post = pre.update(i, d);
    let id = d.device_id@;
    assert(ids_unique(post)) by {
        assert forall|p: int, q: int| 0 <= p < q < post.len() implies post[p].device_id@
            != post[q].device_id@ by {
            assert(pre[p].device_id@ != pre[q].device_id@);
        }
    }
    lemma_at_index(post, i);
    assert forall|oid: Seq<char>| oid != id implies (spec_has(post, oid) == spec_has(pre, oid)
        && (spec_has(pre, oid) ==> spec_get(post, oid) == spec_get(pre, oid))) by {
        if spec_has(pre, oid) {
            let k = spec_index(pre, oid);
            lemma_at_index(pre, k);
            assert(k != i);
            assert(post[k].device_id@ == oid);
            assert(spec_has(post, oid));
            lemma_at_index(post, k);
        }
        if spec_has(post, oid) {
            let k = spec_index(post, oid);
            lemma_at_index(post, k);
            assert(k != i);
            assert(pre[k].device_id@ == oid);
            assert(spec_has(pre, oid));
        }
    }
}

/// Appending a device with a fresh id disturbs nothing else.
pub proof fn lemma_push_entry(pre: Seq<Device>, d: Device)
    requires
        ids_unique(pre),
        !spec_has(pre, d.device_id@),
    ensures
        ids_unique(pre.push(d)),
        spec_has(pre.push(d), d.device_id@),
        spec_get(pre.push(d), d.device_id@) == d,
        others_unchanged(pre, pre.push(d), d.device_id@),
{
    let post = pre.push(d);
    let id = d.device_id@;
    let n = pre.len() as int;
    assert(ids_unique(post)) by {
        assert forall|p: int, q: int| 0 <= p < q < post.len() implies post[p].device_id@
            != post[q].device_id@ by {
            if q < n {
                assert(pre[p].device_id@ != pre[q].device_id@);
            } else {
                assert(post[q] == d);
                assert(pre[p].device_id@ == post[p].device_id@);
            }
        }
    }
    lemma_at_index(post, n);
    assert forall|oid: Seq<char>| oid != id implies (spec_has(post, oid) == spec_has(pre, oid)
        && (spec_has(pre, oid) ==> spec_get(post, oid) == spec_get(pre, oid))) by {
        if spec_has(pre, oid) {
            let k = spec_index(pre, oid);
            lemma_at_index(pre, k);
            assert(post[k].device_id@ == oid);
            assert(spec_has(post, oid));
            lemma_at_index(post, k);
        }
        if spec_has(post, oid) {
            let k = spec_index(post, oid);
            lemma_at_index(post, k);
            assert(k != n);
            assert(pre[k].device_id@ == oid);
            assert(spec_has(pre, oid));
        }
    }
}

impl Config {
    /// The configuration a brand-new device starts with.
    pub open spec fn spec_default() -> Config {
        Config {
            zone_binding: None,
            poll_interval_ms: DEFAULT_POLL_INTERVAL_MS,
            brightness: DEFAULT_BRIGHTNESS,
        }
    }

    /// Deep copy.
    pub fn duplicate(&self) -> (r: Config)
        ensures
            r == *self,
    {
        Config {
            zone_binding: match &self.zone_binding {
                Some(z) => Some(z.clone()),
                None => None,
            },
            poll_interval_ms: self.poll_interval_ms,
            brightness: self.brightness,
        }
    }

    /// Field-by-field merge: every `Some` in `delta` wins, every `None`
    /// leaves the current value in place.
    pub open spec fn spec_merged(self, delta: ConfigDelta) -> Config {
        Config {
            zone_binding: match delta.zone_binding {
                Some(z) => z,
                None => self.zone_binding,
            },
            poll_interval_ms: match delta.poll_interval_ms {
                Some(p) => p,
                None => self.poll_interval_ms,
            },
            brightness: match delta.brightness {
                Some(b) => b,
                None => self.brightness,
            },
        }
    }
}

impl Device {
    /// Deep copy, so callers get a snapshot and never a handle into the store.
    pub fn duplicate(&self) -> (r: Device)
        ensures
            r == *self,
    {
        Device {
            device_id: self.device_id.clone(),
            registered_at: self.registered_at,
            last_seen_at: self.last_seen_at,
            firmware_version: self.firmware_version.clone(),
            battery_pct: self.battery_pct,
            config: self.config.duplicate(),
            last_applied_sequence: self.last_applied_sequence,
            last_image_generation: self.last_image_generation,
        }
    }
}

/// The registry. `devices` is the whole state; the two thresholds are fixed
/// at construction and order every `status` answer.
pub struct DeviceStore {
    devices: Vec<Device>,
    stale_after_ms: u64,
    offline_after_ms: u64,
}

impl View for DeviceStore {
    type V = Seq<Device>;

    closed spec fn view(&self) -> Seq<Device> {
        self.devices@
    }
}

impl DeviceStore {
    /// Threshold below which a silent device still counts as `Online`.
    pub closed spec fn stale_after(self) -> u64 {
        self.stale_after_ms
    }

    /// Threshold at and beyond which a silent device counts as `Offline`.
    pub closed spec fn offline_after(self) -> u64 {
        self.offline_after_ms
    }

    /// Store invariant: ids unique, thresholds ordered.
    pub open spec fn wf(self) -> bool {
        &&& ids_unique(self@)
        &&& self.stale_after() < self.offline_after()
    }

    /// The status the store derives for a known device at time `now`.
    pub open spec fn spec_status(self, id: Seq<char>, now: u64) -> DeviceStatus {
        if spec_has(self@, id) {
            spec_status_of(
                now,
                spec_get(self@, id).last_seen_at,
                self.stale_after(),
                self.offline_after(),
            )
        } else {
            DeviceStatus::NotRegistered
        }
    }

    pub fn new(stale_after_ms: u64, offline_after_ms: u64) -> (r: DeviceStore)
        requires
            stale_after_ms < offline_after_ms,
        ensures
            r.wf(),
            r@ == Seq::<Device>::empty(),
            r.stale_after() == stale_after_ms,
            r.offline_after() == offline_after_ms,
    {
        let r = DeviceStore { devices: Vec::new(), stale_after_ms, offline_after_ms };
        proof {
            assert(r@ =~= Seq::<Device>::empty());
        }
        r
    }

    /// Index of the device with this id, if it is registered.
    fn find(&self, device_id: &String) -> (r: Option<usize>)
        ensures
            match r {
                Some(i) => i < self@.len() && self@[i as int].device_id@ == device_id@,
                None => !spec_has(self@, device_id@),
            },
    {
        let n = self.devices.len();
        let mut i: usize = 0;
        while i < n
            invariant
                n == self@.len(),
                i <= n,
                forall|j: int| 0 <= j < i ==> #[trigger] self@[j].device_id@ != device_id@,
            decreases n - i,
        {
            if self.devices[i].device_id.eq(device_id) {
                return Some(i);
            }
            i = i + 1;
        }
        None
    }

    /// Create the device on first contact; on re-registration refresh only
    /// `last_seen_at` and `firmware_version`, keeping configuration and the
    /// applied-sequence watermark untouched. Returns a snapshot of the
    /// device as stored. Idempotent in everything but liveness.
    pub fn register(&mut self, device_id: String, firmware_version: String, now: u64) -> (r:
        Device)
        requires
            old(self).wf(),
        ensures
            final(self).wf(),
            final(self).stale_after() == old(self).stale_after(),
            final(self).offline_after() == old(self).offline_after(),
            spec_has(final(self)@, device_id@),
            r == spec_get(final(self)@, device_id@),
            others_unchanged(old(self)@, final(self)@, device_id@),
            spec_has(old(self)@, device_id@) ==> {
                let d0 = spec_get(old(self)@, device_id@);
                let d1 = spec_get(final(self)@, device_id@);
                &&& final(self)@.len() == old(self)@.len()
                &&& d1.config == d0.config
                &&& d1.last_applied_sequence == d0.last_applied_sequence
                &&& d1.last_image_generation == d0.last_image_generation
                &&& d1.registered_at == d0.registered_at
                &&& d1.battery_pct == d0.battery_pct
                &&& d1.firmware_version@ == firmware_version@
                &&& d1.last_seen_at == spec_touched(d0.last_seen_at, now)
            },
            !spec_has(old(self)@, device_id@) ==> {
                let d1 = spec_get(final(self)@, device_id@);
                &&& final(self)@.len() == old(self)@.len() + 1
                &&& d1.config == Config::spec_default()
                &&& d1.last_applied_sequence == 0
                &&& d1.last_image_generation == 0
                &&& d1.registered_at == now
                &&& d1.battery_pct is None
                &&& d1.firmware_version@ == firmware_version@
                &&& d1.last_seen_at == now
            },
    {
        match self.find(&device_id) {
            Some(i) => {
                let old_d = &self.devices[i];
                let updated = Device {
                    device_id,
                    registered_at: old_d.registered_at,
                    last_seen_at: if old_d.last_seen_at >= now {
                        old_d.last_seen_at
                    } else {
                        now
                    },
                    firmware_version,
                    battery_pct: old_d.battery_pct,
                    config: old_d.config.duplicate(),
                    last_applied_sequence: old_d.last_applied_sequence,
                    last_image_generation: old_d.last_image_generation,
                };
                let snapshot = updated.duplicate();
                proof {
                    lemma_at_index(old(self)@, i as int);
                    lemma_update_entry(old(self)@, updated, i as int);
                }
                self.devices.set(i, updated);
                snapshot
            },
            None => {
                let fresh = Device {
                    device_id,
                    registered_at: now,
                    last_seen_at: now,
                    firmware_version,
                    battery_pct: None,
                    config: Config {
                        zone_binding: None,
                        poll_interval_ms: DEFAULT_POLL_INTERVAL_MS,
                        brightness: DEFAULT_BRIGHTNESS,
                    },
                    last_applied_sequence: 0,
                    last_image_generation: 0,
                };
                let snapshot = fresh.duplicate();
                proof {
                    lemma_push_entry(old(self)@, fresh);
                }
                self.devices.push(fresh);
                snapshot
            },
        }
    }

    /// Liveness, derived lazily: nothing in the store changes on a read.
    pub fn status(&self, device_id: &String, now: u64) -> (r: DeviceStatus)
        requires
            self.wf(),
        ensures
            r == self.spec_status(device_id@, now),
    {
        match self.find(device_id) {
            Some(i) => {
                proof {
                    lemma_at_index(self@, i as int);
                }
                let d = &self.devices[i];
                let silence = if now >= d.last_seen_at {
                    now - d.last_seen_at
                } else {
                    0
                };
                if silence < self.stale_after_ms {
                    DeviceStatus::Online
                } else if silence < self.offline_after_ms {
                    DeviceStatus::Stale
                } else {
                    DeviceStatus::Offline
                }
            },
            None => DeviceStatus::NotRegistered,
        }
    }

    /// Record a contact: refresh `last_seen_at` (never backwards) and the
    /// battery reading. Unknown ids are the device's cue to re-register.
    pub fn heartbeat(&mut self, device_id: &String, battery_pct: u8, now: u64) -> (r: Result<
        Device,
        StoreError,
    >)
        requires
            old(self).wf(),
        ensures
            final(self).wf(),
            final(self).stale_after() == old(self).stale_after(),
            final(self).offline_after() == old(self).offline_after(),
            r is Ok <==> spec_has(old(self)@, device_id@),
            r is Err ==> r == Err::<Device, StoreError>(StoreError::NotRegistered) && final(self)@
                == old(self)@,
            r is Ok ==> {
                let d0 = spec_get(old(self)@, device_id@);
                let d1 = spec_get(final(self)@, device_id@);
                &&& spec_has(final(self)@, device_id@)
                &&& final(self)@.len() == old(self)@.len()
                &&& others_unchanged(old(self)@, final(self)@, device_id@)
                &&& r == Ok::<Device, StoreError>(d1)
                &&& d1 == Device {
                    last_seen_at: spec_touched(d0.last_seen_at, now),
                    battery_pct: Some(battery_pct),
                    ..d0
                }
            },
    {
        match self.find(device_id) {
            Some(i) => {
                let old_d = &self.devices[i];
                let updated = Device {
                    device_id: old_d.device_id.clone(),
                    registered_at: old_d.registered_at,
                    last_seen_at: if old_d.last_seen_at >= now {
                        old_d.last_seen_at
                    } else {
                        now
                    },
                    firmware_version: old_d.firmware_version.clone(),
                    battery_pct: Some(battery_pct),
                    config: old_d.config.duplicate(),
                    last_applied_sequence: old_d.last_applied_sequence,
                    last_image_generation: old_d.last_image_generation,
                };
                let snapshot = updated.duplicate();
                proof {
                    lemma_at_index(old(self)@, i as int);
                    lemma_update_entry(old(self)@, updated, i as int);
                }
                self.devices.set(i, updated);
                Ok(snapshot)
            },
            None => Err(StoreError::NotRegistered),
        }
    }

    /// Record a contact that carries no battery reading: refresh only
    /// `last_seen_at` (never backwards).
    pub fn touch(&mut self, device_id: &String, now: u64) -> (r: Result<(), StoreError>)
        requires
            old(self).wf(),
        ensures
            final(self).wf(),
            final(self).stale_after() == old(self).stale_after(),
            final(self).offline_after() == old(self).offline_after(),
            r is Ok <==> spec_has(old(self)@, device_id@),
            r is Err ==> r == Err::<(), StoreError>(StoreError::NotRegistered) && final(self)@
                == old(self)@,
            r is Ok ==> {
                let d0 = spec_get(old(self)@, device_id@);
                let d1 = spec_get(final(self)@, device_id@);
                &&& spec_has(final(self)@, device_id@)
                &&& final(self)@.len() == old(self)@.len()
                &&& others_unchanged(old(self)@, final(self)@, device_id@)
                &&& d1 == Device { last_seen_at: spec_touched(d0.last_seen_at, now), ..d0 }
            },
    {
        match self.find(device_id) {
            Some(i) => {
                let old_d = &self.devices[i];
                let updated = Device {
                    device_id: old_d.device_id.clone(),
                    registered_at: old_d.registered_at,
                    last_seen_at: if old_d.last_seen_at >= now {
                        old_d.last_seen_at
                    } else {
                        now
                    },
                    firmware_version: old_d.firmware_version.clone(),
                    battery_pct: old_d.battery_pct,
                    config: old_d.config.duplicate(),
                    last_applied_sequence: old_d.last_applied_sequence,
                    last_image_generation: old_d.last_image_generation,
                };
                proof {
                    lemma_at_index(old(self)@, i as int);
                    lemma_update_entry(old(self)@, updated, i as int);
                }
                self.devices.set(i, updated);
                Ok(())
            },
            None => Err(StoreError::NotRegistered),
        }
    }

    /// Merge a partial configuration into a device's config; fields the
    /// delta leaves out keep their value. An administrative write, not a
    /// device contact: liveness does not move.
    pub fn update_config(&mut self, device_id: &String, delta: ConfigDelta) -> (r: Result<
        Device,
        StoreError,
    >)
        requires
            old(self).wf(),
        ensures
            final(self).wf(),
            final(self).stale_after() == old(self).stale_after(),
            final(self).offline_after() == old(self).offline_after(),
            r is Ok <==> spec_has(old(self)@, device_id@),
            r is Err ==> r == Err::<Device, StoreError>(StoreError::NotRegistered) && final(self)@
                == old(self)@,
            r is Ok ==> {
                let d0 = spec_get(old(self)@, device_id@);
                let d1 = spec_get(final(self)@, device_id@);
                &&& spec_has(final(self)@, device_id@)
                &&& final(self)@.len() == old(self)@.len()
                &&& others_unchanged(old(self)@, final(self)@, device_id@)
                &&& r == Ok::<Device, StoreError>(d1)
                &&& d1 == Device { config: d0.config.spec_merged(delta), ..d0 }
            },
    {
        match self.find(device_id) {
            Some(i) => {
                let old_d = &self.devices[i];
                let merged = Config {
                    zone_binding: match delta.zone_binding {
                        Some(z) => z,
                        None => match &old_d.config.zone_binding {
                            Some(s) => Some(s.clone()),
                            None => None,
                        },
                    },
                    poll_interval_ms: match delta.poll_interval_ms {
                        Some(p) => p,
                        None => old_d.config.poll_interval_ms,
                    },
                    brightness: match delta.brightness {
                        Some(b) => b,
                        None => old_d.config.brightness,
                    },
                };
                let updated = Device {
                    device_id: old_d.device_id.clone(),
                    registered_at: old_d.registered_at,
                    last_seen_at: old_d.last_seen_at,
                    firmware_version: old_d.firmware_version.clone(),
                    battery_pct: old_d.battery_pct,
                    config: merged,
                    last_applied_sequence: old_d.last_applied_sequence,
                    last_image_generation: old_d.last_image_generation,
                };
                let snapshot = updated.duplicate();
                proof {
                    lemma_at_index(old(self)@, i as int);
                    lemma_update_entry(old(self)@, updated, i as int);
                }
                self.devices.set(i, updated);
                Ok(snapshot)
            },
            None => Err(StoreError::NotRegistered),
        }
    }

    /// Advance the applied-sequence watermark after a control event was
    /// successfully applied. The watermark never moves backwards.
    pub fn commit_applied(&mut self, device_id: &String, sequence: u64) -> (r: Result<
        (),
        StoreError,
    >)
        requires
            old(self).wf(),
        ensures
            final(self).wf(),
            final(self).stale_after() == old(self).stale_after(),
            final(self).offline_after() == old(self).offline_after(),
            r is Ok <==> spec_has(old(self)@, device_id@),
            r is Err ==> r == Err::<(), StoreError>(StoreError::NotRegistered) && final(self)@
                == old(self)@,
            r is Ok ==> {
                let d0 = spec_get(old(self)@, device_id@);
                let d1 = spec_get(final(self)@, device_id@);
                &&& spec_has(final(self)@, device_id@)
                &&& final(self)@.len() == old(self)@.len()
                &&& others_unchanged(old(self)@, final(self)@, device_id@)
                &&& d1 == Device {
                    last_applied_sequence: if d0.last_applied_sequence >= sequence {
                        d0.last_applied_sequence
                    } else {
                        sequence
                    },
                    ..d0
                }
            },
    {
        match self.find(device_id) {
            Some(i) => {
                let old_d = &self.devices[i];
                let updated = Device {
                    device_id: old_d.device_id.clone(),
                    registered_at: old_d.registered_at,
                    last_seen_at: old_d.last_seen_at,
                    firmware_version: old_d.firmware_version.clone(),
                    battery_pct: old_d.battery_pct,
                    config: old_d.config.duplicate(),
                    last_applied_sequence: if old_d.last_applied_sequence >= sequence {
                        old_d.last_applied_sequence
                    } else {
                        sequence
                    },
                    last_image_generation: old_d.last_image_generation,
                };
                proof {
                    lemma_at_index(old(self)@, i as int);
                    lemma_update_entry(old(self)@, updated, i as int);
                }
                self.devices.set(i, updated);
                Ok(())
            },
            None => Err(StoreError::NotRegistered),
        }
    }

    /// Record the image generation a device last acknowledged on a poll.
    pub fn note_image_generation(&mut self, device_id: &String, generation: u64) -> (r: Result<
        (),
        StoreError,
    >)
        requires
            old(self).wf(),
        ensures
            final(self).wf(),
            final(self).stale_after() == old(self).stale_after(),
            final(self).offline_after() == old(self).offline_after(),
            r is Ok <==> spec_has(old(self)@, device_id@),
            r is Err ==> r == Err::<(), StoreError>(StoreError::NotRegistered) && final(self)@
                == old(self)@,
            r is Ok ==> {
                let d0 = spec_get(old(self)@, device_id@);
                let d1 = spec_get(final(self)@, device_id@);
                &&& spec_has(final(self)@, device_id@)
                &&& final(self)@.len() == old(self)@.len()
                &&& others_unchanged(old(self)@, final(self)@, device_id@)
                &&& d1 == Device { last_image_generation: generation, ..d0 }
            },
    {
        match self.find(device_id) {
            Some(i) => {
                let old_d = &self.devices[i];
                let updated = Device {
                    device_id: old_d.device_id.clone(),
                    registered_at: old_d.registered_at,
                    last_seen_at: old_d.last_seen_at,
                    firmware_version: old_d.firmware_version.clone(),
                    battery_pct: old_d.battery_pct,
                    config: old_d.config.duplicate(),
                    last_applied_sequence: old_d.last_applied_sequence,
                    last_image_generation: generation,
                };
                proof {
                    lemma_at_index(old(self)@, i as int);
                    lemma_update_entry(old(self)@, updated, i as int);
                }
                self.devices.set(i, updated);
                Ok(())
            },
            None => Err(StoreError::NotRegistered),
        }
    }

    /// Read a device's applied-sequence watermark without touching anything.
    pub fn last_applied(&self, device_id: &String) -> (r: Option<u64>)
        requires
            self.wf(),
        ensures
            match r {
                Some(s) => spec_has(self@, device_id@) && s == spec_get(
                    self@,
                    device_id@,
                ).last_applied_sequence,
                None => !spec_has(self@, device_id@),
            },
    {
        match self.find(device_id) {
            Some(i) => {
                proof {
                    lemma_at_index(self@, i as int);
                }
                Some(self.devices[i].last_applied_sequence)
            },
            None => None,
        }
    }

    /// Snapshot of a single device.
    pub fn get(&self, device_id: &String) -> (r: Option<Device>)
        requires
            self.wf(),
        ensures
            match r {
                Some(d) => spec_has(self@, device_id@) && d == spec_get(self@, device_id@),
                None => !spec_has(self@, device_id@),
            },
    {
        match self.find(device_id) {
            Some(i) => {
                proof {
                    lemma_at_index(self@, i as int);
                }
                Some(self.devices[i].duplicate())
            },
            None => None,
        }
    }

    /// A consistent point-in-time copy of every device, usable for
    /// iteration without holding any lock during I/O.
    pub fn list(&self) -> (r: Vec<Device>)
        ensures
            r@ == self@,
    {
        let n = self.devices.len();
        let mut out: Vec<Device> = Vec::new();
        let mut i: usize = 0;
        while i < n
            invariant
                n == self@.len(),
                i <= n,
                out@ =~= self@.subrange(0, i as int),
            decreases n - i,
        {
            out.push(self.devices[i].duplicate());
            i = i + 1;
        }
        proof {
            assert(out@ =~= self@);
        }
        out
    }

    /// Whether `gc` at time `now` evicts this device: it is `Offline` and
    /// has been silent longer than the retention window.
    pub open spec fn spec_evicts(self, d: Device, now: u64, retention_ms: u64) -> bool {
        &&& spec_status_of(now, d.last_seen_at, self.stale_after(), self.offline_after())
            == DeviceStatus::Offline
        &&& spec_silence(now, d.last_seen_at) > retention_ms
    }

    /// The predicate `gc` keeps a device by.
    pub open spec fn spec_keeps(self, now: u64, retention_ms: u64) -> spec_fn(Device) -> bool {
        |d: Device| !self.spec_evicts(d, now, retention_ms)
    }

    /// Eviction sweep: drop every device that is `Offline` and has been
    /// silent beyond the retention window; keep everything else, in order.
    pub fn gc(&mut self, now: u64, retention_ms: u64)
        requires
            old(self).wf(),
        ensures
            final(self).wf(),
            final(self).stale_after() == old(self).stale_after(),
            final(self).offline_after() == old(self).offline_after(),
            final(self)@ == old(self)@.filter(old(self).spec_keeps(now, retention_ms)),
    {
        let n = self.devices.len();
        let mut out: Vec<Device> = Vec::new();
        let mut i: usize = 0;
        proof {
            reveal(Seq::filter);
            assert(old(self)@.subrange(0, 0).len() == 0);
            assert(out@ =~= old(self)@.subrange(0, 0).filter(
                old(self).spec_keeps(now, retention_ms),
            ));
        }
        while i < n
            invariant
                old(self).wf(),
                n == old(self)@.len(),
                i <= n,
                self@ == old(self)@,
                self.stale_after() == old(self).stale_after(),
                self.offline_after() == old(self).offline_after(),
                out@ == old(self)@.subrange(0, i as int).filter(
                    old(self).spec_keeps(now, retention_ms),
                ),
            decreases n - i,
        {
            let d = &self.devices[i];
            let silence = if now >= d.last_seen_at {
                now - d.last_seen_at
            } else {
                0
            };
            let offline = silence >= self.offline_after_ms;
            let evict = offline && silence > retention_ms;
            proof {
                let keep = old(self).spec_keeps(now, retention_ms);
                let pre = old(self)@.subrange(0, i as int);
                let cur = old(self)@.subrange(0, i as int + 1);
                assert(cur.drop_last() =~= pre);
                assert(cur.last() == old(self)@[i as int]);
                reveal(Seq::filter);
                assert(cur.filter(keep) == if keep(cur.last()) {
                    pre.filter(keep).push(cur.last())
                } else {
                    pre.filter(keep)
                });
                assert(silence == spec_silence(now, old(self)@[i as int].last_seen_at));
                assert(keep(old(self)@[i as int]) == !evict);
            }
            if !evict {
                out.push(self.devices[i].duplicate());
            }
            i = i + 1;
        }
        proof {
            assert(old(self)@.subrange(0, n as int) =~= old(self)@);
            lemma_filter_unique(old(self)@, old(self).spec_keeps(now, retention_ms));
        }
        self.devices = out;
    }
}

} // verus!
