//! Control-event routing with at-most-once semantics.
//!
//! A device reports encoder and button input as `ControlEvent`s, each with a
//! device-assigned, strictly increasing sequence number. The router decides
//! per event whether it is fresh, a duplicate, or from an unknown device; a
//! fresh event is resolved against the current volume into one playback
//! command, and after a successful apply the device's watermark advances, so
//! the same `(device, sequence)` can never be applied twice. Gaps are
//! tolerated; nothing is buffered or replayed.

use vstd::prelude::*;
use crate::store::{spec_get, spec_has, DeviceStore};

verus! {

/// How far one encoder detent moves the volume, in percent.
pub const VOLUME_STEP: u8 = 5;

/// What a device input event asks for.
#[derive(Clone, Copy, Debug, PartialEq, Eq, Structural)]
pub enum ControlKind {
    VolumeUp,
    VolumeDown,
    PlayPause,
    VolumeAbsolute(u8),
}

/// One device-originated input event.
pub struct ControlEvent {
    pub device_id: String,
    pub kind: ControlKind,
    /// Device-assigned, strictly increasing per device.
    pub sequence: u64,
    pub received_at: u64,
}

/// The one command vocabulary the playback collaborator is asked in.
#[derive(Clone, Copy, Debug, PartialEq, Eq, Structural)]
pub enum PlaybackCommand {
    SetVolume(u8),
    TogglePlayPause,
}

/// What the router decides for an incoming event.
#[derive(Clone, Copy, Debug, PartialEq, Eq, Structural)]
pub enum EventDisposition {
    /// Not seen before: resolve and apply it.
    Fresh,
    /// Sequence at or below the device's watermark: drop, report `duplicate`.
    Duplicate,
    /// Unknown device: it must re-register.
    NotRegistered,
}

/// The routing rule: unknown device, already-applied sequence, or fresh.
pub open spec fn spec_decide(store: DeviceStore, id: Seq<char>, sequence: u64) -> EventDisposition {
    if !spec_has(store@, id) {
        EventDisposition::NotRegistered
    } else if sequence <= spec_get(store@, id).last_applied_sequence {
        EventDisposition::Duplicate
    } else {
        EventDisposition::Fresh
    }
}

/// Clamp to the 0..=100 percent range.
pub open spec fn spec_clamp_volume(v: int) -> u8 {
    if v > 100 {
        100
    } else if v < 0 {
        0
    } else {
        v as u8
    }
}

/// The command a fresh event resolves to. Volume deltas are resolved against
/// the volume fetched at apply time, never a cached value.
pub open spec fn spec_resolve(kind: ControlKind, current_volume: u8) -> PlaybackCommand {
    match kind {
        ControlKind::VolumeUp => PlaybackCommand::SetVolume(
            spec_clamp_volume(current_volume + VOLUME_STEP),
        ),
        ControlKind::VolumeDown => PlaybackCommand::SetVolume(
            spec_clamp_volume(current_volume - VOLUME_STEP),
        ),
        ControlKind::PlayPause => PlaybackCommand::TogglePlayPause,
        ControlKind::VolumeAbsolute(v) => PlaybackCommand::SetVolume(spec_clamp_volume(v as int)),
    }
}

/// Decide an event against the store without touching it.
pub fn decide(store: &DeviceStore, device_id: &String, sequence: u64) -> (r: EventDisposition)
    requires
        store.wf(),
    ensures
        r == spec_decide(*store, device_id@, sequence),
{
    match store.last_applied(device_id) {
        Some(watermark) => {
            if sequence <= watermark {
                EventDisposition::Duplicate
            } else {
                EventDisposition::Fresh
            }
        },
        None => EventDisposition::NotRegistered,
    }
}

/// Resolve a fresh event into the command to hand the playback collaborator.
/// `current_volume` is the collaborator's volume at apply time.
pub fn resolve(kind: ControlKind, current_volume: u8) -> (r: PlaybackCommand)
    ensures
        r == spec_resolve(kind, current_volume),
{
    match kind {
        ControlKind::VolumeUp => {
            let v: u16 = current_volume as u16 + VOLUME_STEP as u16;
            PlaybackCommand::SetVolume(
                if v > 100 {
                    100
                } else {
                    v as u8
                },
            )
        },
        ControlKind::VolumeDown => {
            let v: u8 = if current_volume > VOLUME_STEP {
                current_volume - VOLUME_STEP
            } else {
                0
            };
            PlaybackCommand::SetVolume(
                if v > 100 {
                    100
                } else {
                    v
                },
            )
        },
        ControlKind::PlayPause => PlaybackCommand::TogglePlayPause,
        ControlKind::VolumeAbsolute(v) => PlaybackCommand::SetVolume(
            if v > 100 {
                100
            } else {
                v
            },
        ),
    }
}

/// Exactly-once application. `commit_applied` guarantees that after a
/// successful apply the device's watermark is at least the applied sequence;
/// from then on the same `(device, sequence)` — and every earlier sequence,
/// such as one arriving out of order — is decided `Duplicate`, so the
/// playback collaborator is never handed the same event twice.
pub proof fn lemma_second_delivery_is_duplicate(store: DeviceStore, id: Seq<char>, sequence: u64)
    requires
        spec_has(store@, id),
        sequence <= spec_get(store@, id).last_applied_sequence,
    ensures
        spec_decide(store, id, sequence) == EventDisposition::Duplicate,
{
}

/// A fresh decision means the event was genuinely above the watermark, and
/// a duplicate decision means it was not: dispositions are mutually
/// exclusive and total for registered devices.
pub proof fn lemma_decide_partitions(store: DeviceStore, id: Seq<char>, sequence: u64)
    requires
        spec_has(store@, id),
    ensures
        spec_decide(store, id, sequence) == EventDisposition::Fresh <==> sequence > spec_get(
            store@,
            id,
        ).last_applied_sequence,
        spec_decide(store, id, sequence) == EventDisposition::Duplicate <==> sequence <= spec_get(
            store@,
            id,
        ).last_applied_sequence,
{
}

} // verus!
