//! Per-zone rendered-image cache with generation counting.
//!
//! Rendered frames are cached per zone and keyed by the frame's content
//! fingerprint, not per device: many devices may bind to one zone. The
//! generation for a zone moves exactly when the content fingerprint moves —
//! a refresh with unchanged content reuses the cached bytes and generation,
//! so a polling device sees "unchanged" and no image is re-sent. Generations
//! start from the epoch the cache was built with; a randomized per-process
//! epoch keeps a restarted server from colliding with generations devices
//! still hold.

use vstd::prelude::*;
use crate::image::{
    encode, frame_payload, spec_content, spec_encode, spec_fingerprint, spec_header, NowPlayingFrame,
    Resolution,
};

verus! {

/// A cache refresh that cannot proceed.
#[derive(Clone, Copy, Debug, PartialEq, Eq, Structural)]
pub enum CacheError {
    /// The zone's generation counter cannot be advanced any further.
    GenerationExhausted,
}

/// One zone's cached render.
pub struct ZoneEntry {
    pub zone: String,
    /// Fingerprint of the content the bytes were rendered from.
    pub fingerprint: u64,
    /// Moves exactly when the fingerprint moves.
    pub generation: u64,
    /// The rendered RGB565 frame.
    pub bytes: Vec<u8>,
}

/// No two entries describe the same zone.
pub open spec fn zones_unique(entries: Seq<ZoneEntry>) -> bool {
    forall|i: int, j: int|
        0 <= i < j < entries.len() ==> #[trigger] entries[i].zone@ != #[trigger] entries[j].zone@
}

/// Some entry describes this zone.
pub open spec fn spec_zone_has(entries: Seq<ZoneEntry>, zone: Seq<char>) -> bool {
    exists|i: int| 0 <= i < entries.len() && #[trigger] entries[i].zone@ == zone
}

/// Index of the entry for this zone (meaningful only under `spec_zone_has`).
pub open spec fn spec_zone_index(entries: Seq<ZoneEntry>, zone: Seq<char>) -> int {
    choose|i: int| 0 <= i < entries.len() && #[trigger] entries[i].zone@ == zone
}

/// The entry for this zone (meaningful only under `spec_zone_has`).
pub open spec fn spec_zone_get(entries: Seq<ZoneEntry>, zone: Seq<char>) -> ZoneEntry {
    entries[spec_zone_index(entries, zone)]
}

/// Entries for other zones are exactly the same before and after.
pub open spec fn zone_others_unchanged(
    pre: Seq<ZoneEntry>,
    post: Seq<ZoneEntry>,
    zone: Seq<char>,
) -> bool {
    forall|oz: Seq<char>|
        oz != zone ==> (#[trigger] spec_zone_has(post, oz) == spec_zone_has(pre, oz) && (
        spec_zone_has(pre, oz) ==> spec_zone_get(post, oz) == spec_zone_get(pre, oz)))
}

/// With unique zones, the entry found at `i` is the one `spec_zone_get` names.
pub proof fn lemma_zone_at_index(entries: Seq<ZoneEntry>, i: int)
    requires
        zones_unique(entries),
        0 <= i < entries.len(),
    ensures
        spec_zone_has(entries, entries[i].zone@),
        spec_zone_index(entries, entries[i].zone@) == i,
        spec_zone_get(entries, entries[i].zone@) == entries[i],
{
    let z = entries[i].zone@;
    assert(spec_zone_has(entries, z));
    let k = spec_zone_index(entries, z);
    assert(0 <= k < entries.len() && entries[k].zone@ == z);
    if k < i {
        assert(entries[k].zone@ != entries[i].zone@);
    } else if i < k {
        assert(entries[i].zone@ != entries[k].zone@);
    }
}

/// Replacing the entry at `i` by one for the same zone disturbs nothing else.
pub proof fn lemma_zone_update_entry(pre: Seq<ZoneEntry>, e: ZoneEntry, i: int)
    requires
        zones_unique(pre),
        0 <= i < pre.len(),
        e.zone@ == pre[i].zone@,
    ensures
        zones_unique(pre.update(i, e)),
        spec_zone_has(pre.update(i, e), e.zone@),
        spec_zone_get(pre.update(i, e), e.zone@) == e,
        zone_others_unchanged(pre, pre.update(i, e), e.zone@),
{
    let post = pre.update(i, e);
    let z = e.zone@;
    assert(zones_unique(post)) by {
        assert forall|p: int, q: int| 0 <= p < q < post.len() implies post[p].zone@
            != post[q].zone@ by {
            assert(pre[p].zone@ != pre[q].zone@);
        }
    }
    lemma_zone_at_index(post, i);
    assert forall|oz: Seq<char>| oz != z implies (spec_zone_has(post, oz) == spec_zone_has(pre, oz)
        && (spec_zone_has(pre, oz) ==> spec_zone_get(post, oz) == spec_zone_get(pre, oz))) by {
        if spec_zone_has(pre, oz) {
            let k = spec_zone_index(pre, oz);
            lemma_zone_at_index(pre, k);
            assert(k != i);
            assert(post[k].zone@ == oz);
            assert(spec_zone_has(post, oz));
            lemma_zone_at_index(post, k);
        }
        if spec_zone_has(post, oz) {
            let k = spec_zone_index(post, oz);
            lemma_zone_at_index(post, k);
            assert(k != i);
            assert(pre[k].zone@ == oz);
            assert(spec_zone_has(pre, oz));
        }
    }
}

/// Appending an entry for a fresh zone disturbs nothing else.
pub proof fn lemma_zone_push_entry(pre: Seq<ZoneEntry>, e: ZoneEntry)
    requires
        zones_unique(pre),
        !spec_zone_has(pre, e.zone@),
    ensures
        zones_unique(pre.push(e)),
        spec_zone_has(pre.push(e), e.zone@),
        spec_zone_get(pre.push(e), e.zone@) == e,
        zone_others_unchanged(pre, pre.push(e), e.zone@),
{
    let post = pre.push(e);
    let z = e.zone@;
    let n = pre.len() as int;
    assert(zones_unique(post)) by {
        assert forall|p: int, q: int| 0 <= p < q < post.len() implies post[p].zone@
            != post[q].zone@ by {
            if q < n {
                assert(pre[p].zone@ != pre[q].zone@);
            } else {
                assert(post[q] == e);
                assert(pre[p].zone@ == post[p].zone@);
            }
        }
    }
    lemma_zone_at_index(post, n);
    assert forall|oz: Seq<char>| oz != z implies (spec_zone_has(post, oz) == spec_zone_has(pre, oz)
        && (spec_zone_has(pre, oz) ==> spec_zone_get(post, oz) == spec_zone_get(pre, oz))) by {
        if spec_zone_has(pre, oz) {
            let k = spec_zone_index(pre, oz);
            lemma_zone_at_index(pre, k);
            assert(post[k].zone@ == oz);
            assert(spec_zone_has(post, oz));
            lemma_zone_at_index(post, k);
        }
        if spec_zone_has(post, oz) {
            let k = spec_zone_index(post, oz);
            lemma_zone_at_index(post, k);
            assert(k != n);
            assert(pre[k].zone@ == oz);
            assert(spec_zone_has(pre, oz));
        }
    }
}

/// The cache: one entry per zone, all rendered at one resolution, with
/// generations counted from one per-process epoch.
pub struct ZoneCache {
    entries: Vec<ZoneEntry>,
    epoch: u64,
    resolution: Resolution,
}

impl View for ZoneCache {
    type V = Seq<ZoneEntry>;

    closed spec fn view(&self) -> Seq<ZoneEntry> {
        self.entries@
    }
}

impl ZoneCache {
    /// Where this cache's generations start.
    pub closed spec fn spec_epoch(self) -> u64 {
        self.epoch
    }

    /// The one resolution every entry is rendered at.
    pub closed spec fn spec_resolution(self) -> Resolution {
        self.resolution
    }

    /// Cache invariant: zones unique, every entry's bytes are a full frame
    /// at the cache resolution, and the whole frame fits in memory.
    pub open spec fn wf(self) -> bool {
        &&& zones_unique(self@)
        &&& (self.spec_resolution().width as int) * (self.spec_resolution().height as int) * 2
            <= usize::MAX as int
        &&& forall|i: int|
            0 <= i < self@.len() ==> (#[trigger] self@[i].bytes@).len() == (
            self.spec_resolution().width as int) * (self.spec_resolution().height as int) * 2
    }

    pub fn new(epoch: u64, resolution: Resolution) -> (r: ZoneCache)
        requires
            (resolution.width as int) * (resolution.height as int) * 2 <= usize::MAX as int,
        ensures
            r.wf(),
            r@ == Seq::<ZoneEntry>::empty(),
            r.spec_epoch() == epoch,
            r.spec_resolution() == resolution,
    {
        let r = ZoneCache { entries: Vec::new(), epoch, resolution };
        proof {
            assert(r@ =~= Seq::<ZoneEntry>::empty());
        }
        r
    }

    /// Index of the entry for this zone, if any.
    fn find(&self, zone: &String) -> (r: Option<usize>)
        ensures
            match r {
                Some(i) => i < self@.len() && self@[i as int].zone@ == zone@,
                None => !spec_zone_has(self@, zone@),
            },
    {
        let n = self.entries.len();
        let mut i: usize = 0;
        while i < n
            invariant
                n == self@.len(),
                i <= n,
                forall|j: int| 0 <= j < i ==> #[trigger] self@[j].zone@ != zone@,
            decreases n - i,
        {
            if self.entries[i].zone.eq(zone) {
                return Some(i);
            }
            i = i + 1;
        }
        None
    }

    /// Bring a zone's render up to date with the collaborator's current
    /// frame. The generation moves exactly when the content fingerprint
    /// moves: unchanged content reuses the cached generation and bytes; new
    /// content re-renders and advances the generation by one (a brand-new
    /// zone starts at the epoch). Returns the zone's generation.
    pub fn refresh(&mut self, zone: &String, frame: &NowPlayingFrame) -> (r: Result<
        u64,
        CacheError,
    >)
        requires
            old(self).wf(),
        ensures
            final(self).wf(),
            final(self).spec_epoch() == old(self).spec_epoch(),
            final(self).spec_resolution() == old(self).spec_resolution(),
            ({
                let fp = spec_fingerprint(spec_content(*frame));
                if !spec_zone_has(old(self)@, zone@) {
                    // first sight of the zone: render at the epoch
                    &&& r == Ok::<u64, CacheError>(old(self).spec_epoch())
                    &&& spec_zone_has(final(self)@, zone@)
                    &&& final(self)@.len() == old(self)@.len() + 1
                    &&& spec_zone_get(final(self)@, zone@).fingerprint == fp
                    &&& spec_zone_get(final(self)@, zone@).generation == old(self).spec_epoch()
                    &&& spec_zone_get(final(self)@, zone@).bytes@ == spec_encode(
                        spec_content(*frame),
                        old(self).spec_resolution(),
                    )
                    &&& zone_others_unchanged(old(self)@, final(self)@, zone@)
                } else if spec_zone_get(old(self)@, zone@).fingerprint == fp {
                    // unchanged content: nothing moves
                    &&& r == Ok::<u64, CacheError>(spec_zone_get(old(self)@, zone@).generation)
                    &&& final(self)@ == old(self)@
                } else if spec_zone_get(old(self)@, zone@).generation == u64::MAX {
                    // counter exhausted: refuse rather than reuse a generation
                    &&& r == Err::<u64, CacheError>(CacheError::GenerationExhausted)
                    &&& final(self)@ == old(self)@
                } else {
                    // changed content: re-render, advance the generation
                    &&& r == Ok::<u64, CacheError>(
                        (spec_zone_get(old(self)@, zone@).generation + 1) as u64,
                    )
                    &&& spec_zone_has(final(self)@, zone@)
                    &&& final(self)@.len() == old(self)@.len()
                    &&& spec_zone_get(final(self)@, zone@).fingerprint == fp
                    &&& spec_zone_get(final(self)@, zone@).generation == spec_zone_get(
                        old(self)@,
                        zone@,
                    ).generation + 1
                    &&& spec_zone_get(final(self)@, zone@).bytes@ == spec_encode(
                        spec_content(*frame),
                        old(self).spec_resolution(),
                    )
                    &&& zone_others_unchanged(old(self)@, final(self)@, zone@)
                }
            }),
    {
        let fp = crate::image::fingerprint(frame);
        match self.find(zone) {
            Some(i) => {
                proof {
                    lemma_zone_at_index(old(self)@, i as int);
                }
                if self.entries[i].fingerprint == fp {
                    Ok(self.entries[i].generation)
                } else if self.entries[i].generation == u64::MAX {
                    Err(CacheError::GenerationExhausted)
                } else {
                    let bytes = encode(frame, self.resolution);
                    let updated = ZoneEntry {
                        zone: zone.clone(),
                        fingerprint: fp,
                        generation: self.entries[i].generation + 1,
                        bytes,
                    };
                    let generation = updated.generation;
                    proof {
                        lemma_zone_update_entry(old(self)@, updated, i as int);
                    }
                    self.entries.set(i, updated);
                    Ok(generation)
                }
            },
            None => {
                let bytes = encode(frame, self.resolution);
                let fresh = ZoneEntry { zone: zone.clone(), fingerprint: fp, generation: self.epoch, bytes };
                proof {
                    lemma_zone_push_entry(old(self)@, fresh);
                }
                self.entries.push(fresh);
                Ok(self.epoch)
            },
        }
    }

    /// The zone's current generation, if it has ever been rendered.
    pub fn generation_of(&self, zone: &String) -> (r: Option<u64>)
        requires
            self.wf(),
        ensures
            match r {
                Some(g) => spec_zone_has(self@, zone@) && g == spec_zone_get(
                    self@,
                    zone@,
                ).generation,
                None => !spec_zone_has(self@, zone@),
            },
    {
        match self.find(zone) {
            Some(i) => {
                proof {
                    lemma_zone_at_index(self@, i as int);
                }
                Some(self.entries[i].generation)
            },
            None => None,
        }
    }

    /// The zone's generation and full wire payload (header, then pixels).
    /// The header carries the low 32 bits of the generation.
    pub fn snapshot(&self, zone: &String) -> (r: Option<(u64, Vec<u8>)>)
        requires
            self.wf(),
        ensures
            match r {
                Some(s) => {
                    let e = spec_zone_get(self@, zone@);
                    &&& spec_zone_has(self@, zone@)
                    &&& s.0 == e.generation
                    &&& s.1@ == spec_header(
                        self.spec_resolution().width,
                        self.spec_resolution().height,
                        (e.generation as int % 0x100000000) as u32,
                    ) + e.bytes@
                },
                None => !spec_zone_has(self@, zone@),
            },
    {
        match self.find(zone) {
            Some(i) => {
                proof {
                    lemma_zone_at_index(self@, i as int);
                }
                let e = &self.entries[i];
                let g32: u32 = (e.generation % 0x100000000) as u32;
                let payload = frame_payload(self.resolution.width, self.resolution.height, g32, &e.bytes);
                Some((e.generation, payload))
            },
            None => None,
        }
    }
}

} // verus!
