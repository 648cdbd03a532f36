//! The tile download cache: full tile bitmaps keyed by grid position,
//! each stamped with the time it was fetched. Entries older than the
//! 360-second time-to-live are swept before every lookup, so a hit is
//! never staler than that; a miss tells the caller to fetch the tile and
//! insert it. The clock is injected: every operation takes the current
//! time in seconds.

use vstd::prelude::*;

use crate::mosaic::TileImage;

verus! {

/// The time-to-live of a cached tile, in seconds.
pub const TILE_CACHE_TTL_SECONDS: u64 = 360;

/// A tile's grid position, the cache key.
#[derive(Clone, Copy, PartialEq, Eq, Structural, Debug)]
pub struct Tile {
    pub x: u16,
    pub y: u16,
}

impl Tile {
    /// Builds a tile key from its grid position.
    pub fn new(x: u16, y: u16) -> (r: Tile)
        ensures
            r == (Tile { x, y }),
    {
        Tile { x, y }
    }
}

/// A cached tile bitmap and the time it was downloaded.
pub struct DownloadData {
    /// The decoded tile bitmap.
    pub image: TileImage,
    /// When the tile was fetched, in seconds.
    pub last_download: u64,
}

/// Whether a cache entry is still within its time-to-live at `now`.
/// An entry stamped in the future counts as stale, as a fetch time that
/// cannot be trusted.
pub open spec fn entry_fresh(d: DownloadData, now: u64) -> bool {
    d.last_download <= now && now - d.last_download < TILE_CACHE_TTL_SECONDS
}

/// No two entries share a tile key.
pub open spec fn keys_unique(s: Seq<(Tile, DownloadData)>) -> bool {
    forall|a: int, b: int| 0 <= a < b < s.len() ==> (#[trigger] s[a]).0 != (#[trigger] s[b]).0
}

/// The data of the first entry with the given key, if any.
pub open spec fn find_entry(s: Seq<(Tile, DownloadData)>, t: Tile) -> Option<DownloadData>
    decreases s.len(),
{
    if s.len() == 0 {
        None
    } else if s[0].0 == t {
        Some(s[0].1)
    } else {
        find_entry(s.drop_first(), t)
    }
}

/// Whether any entry has the given key.
pub open spec fn contains_key(s: Seq<(Tile, DownloadData)>, t: Tile) -> bool {
    exists|i: int| 0 <= i < s.len() && (#[trigger] s[i]).0 == t
}

/// The entries that survive a sweep at `now`: the fresh ones, in order.
pub open spec fn purge_entries(s: Seq<(Tile, DownloadData)>, now: u64) -> Seq<(Tile, DownloadData)>
    decreases s.len(),
{
    if s.len() == 0 {
        s
    } else {
        let rest = purge_entries(s.drop_first(), now);
        if entry_fresh(s[0].1, now) {
            seq![s[0]] + rest
        } else {
            rest
        }
    }
}

/// The tile download cache. It holds the fetched bitmaps; the network
/// fetch itself is the caller's job, on a miss.
pub struct TileDownloader {
    /// The cached entries, one per tile key.
    pub entries: Vec<(Tile, DownloadData)>,
}

proof fn lemma_purge_concat(a: Seq<(Tile, DownloadData)>, b: Seq<(Tile, DownloadData)>, now: u64)
    ensures
        purge_entries(a + b, now) == purge_entries(a, now) + purge_entries(b, now),
    decreases a.len(),
{
    if a.len() == 0 {
        assert(a + b =~= b);
        assert(purge_entries(a, now) + purge_entries(b, now) =~= purge_entries(b, now));
    } else {
        assert((a + b)[0] == a[0]);
        assert((a + b).drop_first() =~= a.drop_first() + b);
        lemma_purge_concat(a.drop_first(), b, now);
        if entry_fresh(a[0].1, now) {
            assert(seq![a[0]] + (purge_entries(a.drop_first(), now) + purge_entries(b, now)) =~= (
            seq![a[0]] + purge_entries(a.drop_first(), now)) + purge_entries(b, now));
        }
    }
}

/// Every entry that survives a sweep was in the cache before it, fresh.
proof fn lemma_purge_membership(s: Seq<(Tile, DownloadData)>, now: u64)
    ensures
        forall|k: int|
            0 <= k < purge_entries(s, now).len() ==> exists|m: int|
                0 <= m < s.len() && #[trigger] purge_entries(s, now)[k] == s[m],
        forall|k: int|
            0 <= k < purge_entries(s, now).len() ==> entry_fresh(
                #[trigger] purge_entries(s, now)[k].1,
                now,
            ),
    decreases s.len(),
{
    if s.len() > 0 {
        lemma_purge_membership(s.drop_first(), now);
        let rest = purge_entries(s.drop_first(), now);
        assert forall|k: int| 0 <= k < purge_entries(s, now).len() implies exists|m: int|
            0 <= m < s.len() && #[trigger] purge_entries(s, now)[k] == s[m] by {
            if entry_fresh(s[0].1, now) {
                if k == 0 {
                    assert(purge_entries(s, now)[0] == s[0]);
                } else {
                    let m0 = choose|m0: int|
                        0 <= m0 < s.drop_first().len() && rest[k - 1] == s.drop_first()[m0];
                    assert(purge_entries(s, now)[k] == s[m0 + 1]);
                }
            } else {
                let m0 = choose|m0: int|
                    0 <= m0 < s.drop_first().len() && rest[k] == s.drop_first()[m0];
                assert(purge_entries(s, now)[k] == s[m0 + 1]);
            }
        }
    }
}

/// A sweep keeps keys unique.
proof fn lemma_purge_keys_unique(s: Seq<(Tile, DownloadData)>, now: u64)
    requires
        keys_unique(s),
    ensures
        keys_unique(purge_entries(s, now)),
    decreases s.len(),
{
    if s.len() > 0 {
        assert(keys_unique(s.drop_first())) by {
            assert(forall|a: int, b: int|
                0 <= a < b < s.drop_first().len() ==> (#[trigger] s.drop_first()[a]).0 != (
                #[trigger] s.drop_first()[b]).0);
        }
        lemma_purge_keys_unique(s.drop_first(), now);
        lemma_purge_membership(s.drop_first(), now);
        let rest = purge_entries(s.drop_first(), now);
        if entry_fresh(s[0].1, now) {
            let p = purge_entries(s, now);
            assert forall|a: int, b: int| 0 <= a < b < p.len() implies (#[trigger] p[a]).0 != (
            #[trigger] p[b]).0 by {
                if a == 0 {
                    let m0 = choose|m0: int|
                        0 <= m0 < s.drop_first().len() && rest[b - 1] == s.drop_first()[m0];
                    assert(s.drop_first()[m0] == s[m0 + 1]);
                    assert(p[b] == rest[b - 1]);
                } else {
                    assert(p[a] == rest[a - 1] && p[b] == rest[b - 1]);
                }
            }
        }
    }
}

/// What a sweep does to a lookup: a key whose entry is fresh is still
/// found, with the same data; one whose entry is stale is gone.
proof fn lemma_find_purge(s: Seq<(Tile, DownloadData)>, now: u64, t: Tile)
    requires
        keys_unique(s),
    ensures
        find_entry(s, t) is None ==> find_entry(purge_entries(s, now), t) is None,
        find_entry(s, t) matches Some(d) ==> find_entry(purge_entries(s, now), t) == (if entry_fresh(
            d,
            now,
        ) {
            Some(d)
        } else {
            None::<DownloadData>
        }),
    decreases s.len(),
{
    if s.len() > 0 {
        assert(keys_unique(s.drop_first())) by {
            assert(forall|a: int, b: int|
                0 <= a < b < s.drop_first().len() ==> (#[trigger] s.drop_first()[a]).0 != (
                #[trigger] s.drop_first()[b]).0);
        }
        lemma_find_purge(s.drop_first(), now, t);
        let rest = purge_entries(s.drop_first(), now);
        if s[0].0 == t {
            if entry_fresh(s[0].1, now) {
                assert(find_entry(purge_entries(s, now), t) == Some(s[0].1)) by {
                    assert((seq![s[0]] + rest)[0] == s[0]);
                }
            } else {
                assert(!contains_key(s.drop_first(), t)) by {
                    assert(forall|i: int|
                        0 <= i < s.drop_first().len() ==> (#[trigger] s.drop_first()[i]).0 == s[i
                            + 1].0);
                }
                lemma_find_none(s.drop_first(), t);
                assert(find_entry(rest, t) is None);
            }
        } else {
            if entry_fresh(s[0].1, now) {
                assert((seq![s[0]] + rest)[0] == s[0]);
                assert((seq![s[0]] + rest).drop_first() =~= rest);
            }
        }
    }
}

/// A key is found exactly when some entry holds it.
proof fn lemma_find_none(s: Seq<(Tile, DownloadData)>, t: Tile)
    ensures
        find_entry(s, t) is None <==> !contains_key(s, t),
    decreases s.len(),
{
    if s.len() > 0 {
        lemma_find_none(s.drop_first(), t);
        if s[0].0 == t {
            assert(contains_key(s, t));
        } else {
            assert(contains_key(s, t) <==> contains_key(s.drop_first(), t)) by {
                if contains_key(s, t) {
                    let i = choose|i: int| 0 <= i < s.len() && s[i].0 == t;
                    assert(s.drop_first()[i - 1] == s[i]);
                }
                if contains_key(s.drop_first(), t) {
                    let i = choose|i: int|
                        0 <= i < s.drop_first().len() && s.drop_first()[i].0 == t;
                    assert(s[i + 1] == s.drop_first()[i]);
                }
            }
        }
    }
}

/// A cached entry still within its time-to-live survives the sweep: a
/// second request for the tile before the time-to-live has passed is
/// served from the cache, without a fetch.
pub proof fn lemma_cache_hit_within_ttl(s: Seq<(Tile, DownloadData)>, now: u64, t: Tile)
    requires
        keys_unique(s),
        find_entry(s, t) matches Some(d) && entry_fresh(d, now),
    ensures
        find_entry(purge_entries(s, now), t) == find_entry(s, t),
{
    lemma_find_purge(s, now, t);
}

/// A cached entry past its time-to-live is evicted by the sweep: the
/// lookup then misses and the caller fetches the tile anew.
pub proof fn lemma_cache_expired_entry_evicted(s: Seq<(Tile, DownloadData)>, now: u64, t: Tile)
    requires
        keys_unique(s),
        find_entry(s, t) matches Some(d) && !entry_fresh(d, now),
    ensures
        find_entry(purge_entries(s, now), t) is None,
{
    lemma_find_purge(s, now, t);
}

impl TileDownloader {
    /// The cache invariant: one entry per tile key, every bitmap a full
    /// tile.
    pub open spec fn wf(self) -> bool {
        &&& keys_unique(self.entries@)
        &&& forall|k: int| 0 <= k < self.entries@.len() ==> (#[trigger] self.entries@[k]).1.image.wf()
    }

    /// An empty cache.
    pub fn new() -> (r: TileDownloader)
        ensures
            r.wf(),
            r.entries@.len() == 0,
    {
        TileDownloader { entries: Vec::new() }
    }

    /// Sweeps out every entry older than the time-to-live; the rest keep
    /// their order.
    pub fn clean_cache(&mut self, now: u64)
        requires
            old(self).wf(),
        ensures
            final(self).wf(),
            final(self).entries@ == purge_entries(old(self).entries@, now),
    {
        let ghost orig: Seq<(Tile, DownloadData)> = self.entries@;
        let mut src: Vec<(Tile, DownloadData)> = Vec::new();
        core::mem::swap(&mut self.entries, &mut src);
        let mut out: Vec<(Tile, DownloadData)> = Vec::new();
        proof {
            assert(orig.skip(0) =~= orig);
            assert(orig.take(0) =~= Seq::<(Tile, DownloadData)>::empty());
        }
        let n: usize = src.len();
        let mut i: usize = 0;
        while src.len() > 0
            invariant
                0 <= i <= orig.len() == n,
                src@ == orig.skip(i as int),
                out@ == purge_entries(orig.take(i as int), now),
            decreases src@.len(),
        {
            let e = src.remove(0);
            proof {
                assert(e == orig[i as int]);
                assert(orig.skip(i as int).remove(0) =~= orig.skip(i + 1));
                lemma_purge_concat(orig.take(i as int), seq![orig[i as int]], now);
                assert(orig.take(i as int) + seq![orig[i as int]] =~= orig.take(i + 1));
                assert(seq![orig[i as int]].drop_first() =~= Seq::<(Tile, DownloadData)>::empty());
                assert(purge_entries(Seq::<(Tile, DownloadData)>::empty(), now) == Seq::<(
                    Tile,
                    DownloadData,
                )>::empty());
                if entry_fresh(orig[i as int].1, now) {
                    assert(purge_entries(seq![orig[i as int]], now) =~= seq![orig[i as int]]);
                } else {
                    assert(purge_entries(seq![orig[i as int]], now) =~= Seq::<(
                        Tile,
                        DownloadData,
                    )>::empty());
                }
            }
            let fresh = e.1.last_download <= now && now - e.1.last_download
                < TILE_CACHE_TTL_SECONDS;
            if fresh {
                out.push(e);
                proof {
                    assert(purge_entries(orig.take(i as int), now) + purge_entries(
                        seq![orig[i as int]],
                        now,
                    ) =~= purge_entries(orig.take(i as int), now).push(orig[i as int]));
                }
            } else {
                proof {
                    assert(purge_entries(orig.take(i as int), now) + purge_entries(
                        seq![orig[i as int]],
                        now,
                    ) =~= purge_entries(orig.take(i as int), now));
                }
            }
            i += 1;
        }
        proof {
            assert(orig.take(orig.len() as int) =~= orig);
            lemma_purge_keys_unique(orig, now);
            lemma_purge_membership(orig, now);
        }
        self.entries = out;
    }

    /// Returns the cached bitmap for a tile, without sweeping.
    pub fn get_from_cache(&self, tile: Tile) -> (r: Option<&TileImage>)
        requires
            self.wf(),
        ensures
            r matches Some(img) ==> (find_entry(self.entries@, tile) matches Some(d) && *img
                == d.image && img.wf()),
            r is None <==> find_entry(self.entries@, tile) is None,
    {
        let n = self.entries.len();
        let mut i: usize = 0;
        proof {
            assert(self.entries@.skip(0) =~= self.entries@);
        }
        while i < n
            invariant
                0 <= i <= n == self.entries@.len(),
                self.wf(),
                find_entry(self.entries@, tile) == find_entry(
                    self.entries@.skip(i as int),
                    tile,
                ),
            decreases n - i,
        {
            proof {
                assert(self.entries@.skip(i as int)[0] == self.entries@[i as int]);
                assert(self.entries@.skip(i as int).drop_first() =~= self.entries@.skip(i + 1));
            }
            let e = &self.entries[i];
            if e.0.x == tile.x && e.0.y == tile.y {
                return Some(&e.1.image);
            }
            i += 1;
        }
        proof {
            assert(self.entries@.skip(n as int) =~= Seq::<(Tile, DownloadData)>::empty());
        }
        None
    }

    /// Stores a freshly fetched tile bitmap, stamped `now`. A tile that
    /// is already cached is left as it is: entries are never refreshed in
    /// place, they expire and are fetched anew.
    /// Whether a tile key is in the cache.
    pub fn contains_tile(&self, tile: Tile) -> (r: bool)
        ensures
            r == contains_key(self.entries@, tile),
    {
        let n = self.entries.len();
        let mut i: usize = 0;
        while i < n
            invariant
                0 <= i <= n == self.entries@.len(),
                forall|k: int| 0 <= k < i ==> (#[trigger] self.entries@[k]).0 != tile,
            decreases n - i,
        {
            let e = &self.entries[i];
            if e.0.x == tile.x && e.0.y == tile.y {
                proof {
                    assert(contains_key(self.entries@, tile));
                }
                return true;
            }
            i += 1;
        }
        proof {
            assert(!contains_key(self.entries@, tile));
        }
        false
    }

    /// Stores a freshly fetched tile bitmap, stamped `now`. A tile that
    /// is already cached is left as it is: entries are never refreshed in
    /// place, they expire and are fetched anew.
    pub fn insert_tile(&mut self, tile: Tile, image: TileImage, now: u64)
        requires
            old(self).wf(),
            image.wf(),
        ensures
            final(self).wf(),
            contains_key(old(self).entries@, tile) ==> *final(self) == *old(self),
            !contains_key(old(self).entries@, tile) ==> final(self).entries@ == old(
                self,
            ).entries@.push((tile, DownloadData { image, last_download: now })),
    {
        if self.contains_tile(tile) {
            return ;
        }
        let ghost orig: Seq<(Tile, DownloadData)> = self.entries@;
        self.entries.push((tile, DownloadData { image, last_download: now }));
        proof {
            assert forall|a: int, b: int|
                0 <= a < b < self.entries@.len() implies (#[trigger] self.entries@[a]).0 != (
            #[trigger] self.entries@[b]).0 by {
                if b == self.entries@.len() - 1 {
                    assert(self.entries@[a] == orig[a]);
                }
            }
        }
    }
}

} // verus!
