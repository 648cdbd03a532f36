//! The reverse-geocode resolver's verified core: a cache of resolved place
//! records keyed by region polygons, swept by a 1200-second time-to-live;
//! an exact ray-casting point-in-polygon test over fixed-point
//! coordinates; and the one-second spacing gate for outbound requests.
//! The network fetch, the JSON parsing, and the conversion of floating
//! point coordinates into fixed-point ones are the caller's job.

use vstd::prelude::*;
use vstd::string::StringSliceAdditionalSpecFns;

verus! {

/// The time-to-live of a cached polygon entry, in seconds.
pub const GEOCODE_CACHE_TTL_SECONDS: u64 = 1200;

/// The least time between two outbound geocode requests, in seconds.
pub const GEOCODE_MIN_REQUEST_SPACING_SECONDS: u64 = 1;

/// A geographic position in fixed point: longitude and latitude in
/// ten-millionths of a degree.
#[derive(Clone, Copy, PartialEq, Eq, Structural, Debug)]
pub struct GeoPoint {
    /// Longitude, in ten-millionths of a degree.
    pub lng: i32,
    /// Latitude, in ten-millionths of a degree.
    pub lat: i32,
}

/// A resolved place record.
pub struct NominatimData {
    /// The place's human-readable name.
    pub display_name: String,
}

impl NominatimData {
    /// Builds a record from a place name.
    pub fn new(display_name: String) -> (r: NominatimData)
        ensures
            r.display_name == display_name,
    {
        NominatimData { display_name }
    }

    /// The place's human-readable name.
    pub fn get_display_name(&self) -> (r: &str)
        ensures
            r@ == self.display_name@,
    {
        self.display_name.as_str()
    }

    /// An owned copy of the record.
    pub fn duplicate(&self) -> (r: NominatimData)
        ensures
            r == *self,
    {
        NominatimData { display_name: self.display_name.clone() }
    }
}

/// Where a template's location came from: a name the user provided, or a
/// resolved geocode record.
pub enum LocationData {
    /// A location name given directly.
    Name(String),
    /// A record the resolver returned.
    Nominatim(NominatimData),
}

impl LocationData {
    /// The location's name, wherever it came from.
    pub fn get_name(&self) -> (r: &str)
        ensures
            r@ == match self {
                LocationData::Name(v) => v@,
                LocationData::Nominatim(d) => d.display_name@,
            },
    {
        match self {
            LocationData::Name(v) => v.as_str(),
            LocationData::Nominatim(d) => d.display_name.as_str(),
        }
    }
}

/// Whether the slope dy1/dx1 is at least the slope dy2/dx2, comparing
/// exact rationals; a zero run (dx == 0) counts as an infinite slope, at
/// least every other.
pub open spec fn slope_ge(dy1: int, dx1: int, dy2: int, dx2: int) -> bool {
    if dx1 == 0 {
        true
    } else if dx2 == 0 {
        false
    } else if dx1 * dx2 > 0 {
        dy1 * dx2 >= dy2 * dx1
    } else {
        dy1 * dx2 <= dy2 * dx1
    }
}

/// Whether a rightward ray from `q` crosses the edge between `e1` and
/// `e2`: order the endpoints by latitude, skip edges that cannot bracket
/// the query latitude or lie entirely to its left, and otherwise compare
/// the slope of the ray from the lower endpoint to `q` against the edge's
/// slope.
pub open spec fn spec_edge_crosses(q: GeoPoint, e1: GeoPoint, e2: GeoPoint) -> bool {
    let below = if e2.lat < e1.lat {
        e2
    } else {
        e1
    };
    let above = if e2.lat < e1.lat {
        e1
    } else {
        e2
    };
    let maxlng = if above.lng >= below.lng {
        above.lng
    } else {
        below.lng
    };
    if q.lat < below.lat || q.lat > above.lat || q.lng > maxlng {
        false
    } else {
        slope_ge(
            q.lat - below.lat,
            q.lng - below.lng,
            above.lat - below.lat,
            above.lng - below.lng,
        )
    }
}

/// How many of the ring's first `upto` edges a rightward ray from `q`
/// crosses; the edges join consecutive ring points.
pub open spec fn spec_crossings(q: GeoPoint, ring: Seq<GeoPoint>, upto: int) -> int
    decreases upto,
{
    if upto <= 0 {
        0
    } else {
        spec_crossings(q, ring, upto - 1) + if spec_edge_crosses(q, ring[upto - 1], ring[upto]) {
            1int
        } else {
            0int
        }
    }
}

/// Whether `q` lies inside the ring: an odd number of edge crossings.
pub open spec fn spec_in_ring(q: GeoPoint, ring: Seq<GeoPoint>) -> bool {
    ring.len() > 0 && spec_crossings(q, ring, ring.len() - 1) % 2 == 1
}

/// Whether `q` lies inside the polygon's outer ring; a polygon with no
/// rings contains nothing.
pub open spec fn spec_polygon_contains(polygon: Seq<Vec<GeoPoint>>, q: GeoPoint) -> bool {
    polygon.len() > 0 && spec_in_ring(q, polygon[0]@)
}

/// Compares two slopes as exact rationals, a zero run counting as
/// infinite.
fn slope_ge_exec(dy1: i64, dx1: i64, dy2: i64, dx2: i64) -> (r: bool)
    ensures
        r == slope_ge(dy1 as int, dx1 as int, dy2 as int, dx2 as int),
{
    if dx1 == 0 {
        true
    } else if dx2 == 0 {
        false
    } else {
        proof {
            assert(-0x40000000000000000000000000000000 <= (dy1 as int) * (dx2 as int)
                <= 0x40000000000000000000000000000000 && -0x40000000000000000000000000000000 <= (
            dy2 as int) * (dx1 as int) <= 0x40000000000000000000000000000000) by (nonlinear_arith)
                requires
                    -0x8000000000000000 <= dy1 as int <= 0x7fffffffffffffff,
                    -0x8000000000000000 <= dx1 as int <= 0x7fffffffffffffff,
                    -0x8000000000000000 <= dy2 as int <= 0x7fffffffffffffff,
                    -0x8000000000000000 <= dx2 as int <= 0x7fffffffffffffff,
            ;
        }
        let lhs: i128 = (dy1 as i128) * (dx2 as i128);
        let rhs: i128 = (dy2 as i128) * (dx1 as i128);
        let same_sign = (dx1 > 0) == (dx2 > 0);
        proof {
            assert(((dx1 as int) * (dx2 as int) > 0) <==> ((dx1 > 0) == (dx2 > 0)))
                by (nonlinear_arith)
                requires
                    dx1 as int != 0,
                    dx2 as int != 0,
            ;
        }
        if same_sign {
            lhs >= rhs
        } else {
            lhs <= rhs
        }
    }
}

/// Decides one edge of the ray cast.
fn edge_crosses(q: GeoPoint, e1: GeoPoint, e2: GeoPoint) -> (r: bool)
    ensures
        r == spec_edge_crosses(q, e1, e2),
{
    let (below, above) = if e2.lat < e1.lat {
        (e2, e1)
    } else {
        (e1, e2)
    };
    let maxlng = if above.lng >= below.lng {
        above.lng
    } else {
        below.lng
    };
    if q.lat < below.lat || q.lat > above.lat || q.lng > maxlng {
        return false;
    }
    slope_ge_exec(
        (q.lat as i64) - (below.lat as i64),
        (q.lng as i64) - (below.lng as i64),
        (above.lat as i64) - (below.lat as i64),
        (above.lng as i64) - (below.lng as i64),
    )
}

/// Runs the ray cast over the ring's consecutive point pairs.
pub fn ring_contains(ring: &Vec<GeoPoint>, q: GeoPoint) -> (r: bool)
    ensures
        r == spec_in_ring(q, ring@),
{
    let n = ring.len();
    if n == 0 {
        return false;
    }
    let mut count: u64 = 0;
    let mut i: usize = 0;
    while i < n - 1
        invariant
            1 <= n == ring@.len(),
            0 <= i <= n - 1,
            count <= i,
            count == spec_crossings(q, ring@, i as int),
        decreases n - 1 - i,
    {
        if edge_crosses(q, ring[i], ring[i + 1]) {
            count += 1;
        }
        i += 1;
    }
    count % 2 == 1
}

/// One cached region: a polygon, the record resolved for it, and when it
/// was cached. A multi-polygon response makes one entry per polygon, all
/// sharing the record.
pub struct GeoCacheEntry {
    /// The region's rings; the first is the outer ring.
    pub polygon: Vec<Vec<GeoPoint>>,
    /// The resolved place record.
    pub data: NominatimData,
    /// When the entry was cached, in seconds.
    pub cached_at: u64,
}

/// Whether a cache entry is still within its time-to-live at `now`.
/// An entry stamped in the future counts as stale.
pub open spec fn geo_entry_fresh(e: GeoCacheEntry, now: u64) -> bool {
    e.cached_at <= now && now - e.cached_at < GEOCODE_CACHE_TTL_SECONDS
}

/// The entries that survive a sweep at `now`: the fresh ones, in order.
pub open spec fn purge_geo_entries(s: Seq<GeoCacheEntry>, now: u64) -> Seq<GeoCacheEntry>
    decreases s.len(),
{
    if s.len() == 0 {
        s
    } else {
        let rest = purge_geo_entries(s.drop_first(), now);
        if geo_entry_fresh(s[0], now) {
            seq![s[0]] + rest
        } else {
            rest
        }
    }
}

/// The record of the first entry whose polygon contains the point.
pub open spec fn spec_first_hit(s: Seq<GeoCacheEntry>, q: GeoPoint) -> Option<NominatimData>
    decreases s.len(),
{
    if s.len() == 0 {
        None
    } else if spec_polygon_contains(s[0].polygon@, q) {
        Some(s[0].data)
    } else {
        spec_first_hit(s.drop_first(), q)
    }
}

proof fn lemma_purge_geo_concat(a: Seq<GeoCacheEntry>, b: Seq<GeoCacheEntry>, now: u64)
    ensures
        purge_geo_entries(a + b, now) == purge_geo_entries(a, now) + purge_geo_entries(b, now),
    decreases a.len(),
{
    if a.len() == 0 {
        assert(a + b =~= b);
        assert(purge_geo_entries(a, now) + purge_geo_entries(b, now) =~= purge_geo_entries(
            b,
            now,
        ));
    } else {
        assert((a + b)[0] == a[0]);
        assert((a + b).drop_first() =~= a.drop_first() + b);
        lemma_purge_geo_concat(a.drop_first(), b, now);
        if geo_entry_fresh(a[0], now) {
            assert(seq![a[0]] + (purge_geo_entries(a.drop_first(), now) + purge_geo_entries(
                b,
                now,
            )) =~= (seq![a[0]] + purge_geo_entries(a.drop_first(), now)) + purge_geo_entries(
                b,
                now,
            ));
        }
    }
}

/// Every entry that survives a sweep is fresh.
pub proof fn lemma_purge_geo_fresh(s: Seq<GeoCacheEntry>, now: u64)
    ensures
        forall|k: int|
            0 <= k < purge_geo_entries(s, now).len() ==> geo_entry_fresh(
                #[trigger] purge_geo_entries(s, now)[k],
                now,
            ),
    decreases s.len(),
{
    if s.len() > 0 {
        lemma_purge_geo_fresh(s.drop_first(), now);
        let rest = purge_geo_entries(s.drop_first(), now);
        assert forall|k: int| 0 <= k < purge_geo_entries(s, now).len() implies geo_entry_fresh(
            #[trigger] purge_geo_entries(s, now)[k],
            now,
        ) by {
            if geo_entry_fresh(s[0], now) {
                if k > 0 {
                    assert(purge_geo_entries(s, now)[k] == rest[k - 1]);
                }
            } else {
                assert(purge_geo_entries(s, now)[k] == rest[k]);
            }
        }
    }
}

/// The geocode resolver's shared state: the polygon cache and the time of
/// the last outbound request.
pub struct NominatimCache {
    /// The cached polygon entries, in insertion order.
    pub entries: Vec<GeoCacheEntry>,
    /// When the last outbound geocode request was made, in seconds;
    /// zero before any request.
    pub last_request: u64,
}

impl NominatimCache {
    /// An empty cache that has never made a request.
    pub fn new() -> (r: NominatimCache)
        ensures
            r.entries@.len() == 0,
            r.last_request == 0,
    {
        NominatimCache { entries: Vec::new(), last_request: 0 }
    }

    /// Sweeps out every entry older than the time-to-live; the rest keep
    /// their order. The request gate is untouched.
    pub fn purge(&mut self, now: u64)
        ensures
            final(self).entries@ == purge_geo_entries(old(self).entries@, now),
            final(self).last_request == old(self).last_request,
    {
        let ghost orig: Seq<GeoCacheEntry> = self.entries@;
        let mut src: Vec<GeoCacheEntry> = Vec::new();
        core::mem::swap(&mut self.entries, &mut src);
        let mut out: Vec<GeoCacheEntry> = Vec::new();
        proof {
            assert(orig.skip(0) =~= orig);
            assert(orig.take(0) =~= Seq::<GeoCacheEntry>::empty());
        }
        let n: usize = src.len();
        let mut i: usize = 0;
        while src.len() > 0
            invariant
                0 <= i <= orig.len() == n,
                src@ == orig.skip(i as int),
                out@ == purge_geo_entries(orig.take(i as int), now),
            decreases src@.len(),
        {
            let e = src.remove(0);
            proof {
                assert(e == orig[i as int]);
                assert(orig.skip(i as int).remove(0) =~= orig.skip(i + 1));
                lemma_purge_geo_concat(orig.take(i as int), seq![orig[i as int]], now);
                assert(orig.take(i as int) + seq![orig[i as int]] =~= orig.take(i + 1));
                assert(seq![orig[i as int]].drop_first() =~= Seq::<GeoCacheEntry>::empty());
                assert(purge_geo_entries(Seq::<GeoCacheEntry>::empty(), now) == Seq::<
                    GeoCacheEntry,
                >::empty());
                if geo_entry_fresh(orig[i as int], now) {
                    assert(purge_geo_entries(seq![orig[i as int]], now) =~= seq![orig[i as int]]);
                } else {
                    assert(purge_geo_entries(seq![orig[i as int]], now) =~= Seq::<
                        GeoCacheEntry,
                    >::empty());
                }
            }
            let fresh = e.cached_at <= now && now - e.cached_at < GEOCODE_CACHE_TTL_SECONDS;
            if fresh {
                out.push(e);
                proof {
                    assert(purge_geo_entries(orig.take(i as int), now) + seq![orig[i as int]]
                        =~= purge_geo_entries(orig.take(i as int), now).push(orig[i as int]));
                }
            }
            i += 1;
        }
        proof {
            assert(orig.take(orig.len() as int) =~= orig);
        }
        self.entries = out;
    }

    /// The spatial cache probe: sweeps expired entries, then returns the
    /// record of the first remaining entry whose outer ring contains the
    /// query point. A hit means the caller needs no network request.
    pub fn probe(&mut self, q: GeoPoint, now: u64) -> (r: Option<NominatimData>)
        ensures
            final(self).entries@ == purge_geo_entries(old(self).entries@, now),
            final(self).last_request == old(self).last_request,
            r == spec_first_hit(purge_geo_entries(old(self).entries@, now), q),
    {
        self.purge(now);
        let n = self.entries.len();
        let mut i: usize = 0;
        proof {
            assert(self.entries@.skip(0) =~= self.entries@);
        }
        while i < n
            invariant
                0 <= i <= n == self.entries@.len(),
                self.entries@ == purge_geo_entries(old(self).entries@, now),
                self.last_request == old(self).last_request,
                spec_first_hit(self.entries@, q) == spec_first_hit(
                    self.entries@.skip(i as int),
                    q,
                ),
            decreases n - i,
        {
            proof {
                assert(self.entries@.skip(i as int)[0] == self.entries@[i as int]);
                assert(self.entries@.skip(i as int).drop_first() =~= self.entries@.skip(i + 1));
            }
            let entry = &self.entries[i];
            if entry.polygon.len() > 0 {
                if ring_contains(&entry.polygon[0], q) {
                    return Some(entry.data.duplicate());
                }
            }
            i += 1;
        }
        proof {
            assert(self.entries@.skip(n as int) =~= Seq::<GeoCacheEntry>::empty());
        }
        None
    }

    /// How long the caller must still wait before the next outbound
    /// request: requests are spaced at least one second apart, counted
    /// from the previous one.
    pub fn seconds_until_ready(&self, now: u64) -> (r: u64)
        requires
            self.last_request < u64::MAX,
        ensures
            r == 0 <==> now >= self.last_request + GEOCODE_MIN_REQUEST_SPACING_SECONDS,
            r as int == if now >= self.last_request + GEOCODE_MIN_REQUEST_SPACING_SECONDS {
                0
            } else {
                self.last_request + GEOCODE_MIN_REQUEST_SPACING_SECONDS - now
            },
    {
        if now > self.last_request {
            0
        } else {
            (self.last_request - now) + GEOCODE_MIN_REQUEST_SPACING_SECONDS
        }
    }

    /// Notes that an outbound request was made at `now`; the next one
    /// must wait for the spacing gate again.
    pub fn note_request(&mut self, now: u64)
        ensures
            final(self).last_request == now,
            final(self).entries@ == old(self).entries@,
    {
        self.last_request = now;
    }

    /// Stores a resolved response: one cache entry per polygon, all
    /// sharing the record, stamped `now`. A record whose address type is
    /// "country" is too coarse to cache usefully and adds nothing.
    pub fn store_response(
        &mut self,
        addresstype: &str,
        data: &NominatimData,
        polygons: Vec<Vec<Vec<GeoPoint>>>,
        now: u64,
    )
        ensures
            addresstype@ == "country"@ ==> *final(self) == *old(self),
            addresstype@ != "country"@ ==> final(self).entries@ == old(self).entries@ + Seq::new(
                polygons@.len(),
                |i: int|
                    GeoCacheEntry { polygon: polygons@[i], data: *data, cached_at: now },
            ) && final(self).last_request == old(self).last_request,
    {
        if str_eq_country(addresstype) {
            return ;
        }
        let ghost orig: Seq<GeoCacheEntry> = self.entries@;
        let ghost polys: Seq<Vec<Vec<GeoPoint>>> = polygons@;
        let mut rest = polygons;
        let n: usize = rest.len();
        let mut i: usize = 0;
        while rest.len() > 0
            invariant
                0 <= i <= polys.len() == n,
                rest@ == polys.skip(i as int),
                self.entries@ == orig + Seq::new(
                    i as nat,
                    |k: int| GeoCacheEntry { polygon: polys[k], data: *data, cached_at: now },
                ),
                self.last_request == old(self).last_request,
            decreases rest@.len(),
        {
            let p = rest.remove(0);
            proof {
                assert(p == polys[i as int]);
                assert(polys.skip(i as int).remove(0) =~= polys.skip(i + 1));
            }
            self.entries.push(GeoCacheEntry { polygon: p, data: data.duplicate(), cached_at: now });
            proof {
                assert(self.entries@ =~= orig + Seq::new(
                    (i + 1) as nat,
                    |k: int| GeoCacheEntry { polygon: polys[k], data: *data, cached_at: now },
                ));
            }
            i += 1;
        }
        proof {
            assert(self.entries@ =~= orig + Seq::new(
                polys.len(),
                |k: int| GeoCacheEntry { polygon: polys[k], data: *data, cached_at: now },
            ));
        }
    }
}

/// Compares a string's bytes against the literal "country".
fn str_eq_country(s: &str) -> (r: bool)
    ensures
        r == (s@ == "country"@),
{
    let bytes: &[u8] = s.as_bytes();
    let needle: &[u8] = "country".as_bytes();
    if bytes_eq(bytes, needle) {
        proof {
            vstd::utf8::encode_utf8_decode_utf8(s@);
            vstd::utf8::encode_utf8_decode_utf8("country"@);
        }
        true
    } else {
        proof {
            if s@ == "country"@ {
                assert(s.spec_bytes() == "country".spec_bytes());
            }
        }
        false
    }
}

/// Compares two byte slices for equality.
fn bytes_eq(a: &[u8], b: &[u8]) -> (r: bool)
    ensures
        r == (a@ == b@),
{
    if a.len() != b.len() {
        proof {
            assert(a@.len() != b@.len());
        }
        return false;
    }
    let n = a.len();
    let mut i: usize = 0;
    while i < n
        invariant
            0 <= i <= n == a@.len() == b@.len(),
            forall|k: int| 0 <= k < i ==> a@[k] == b@[k],
        decreases n - i,
    {
        if a[i] != b[i] {
            return false;
        }
        i += 1;
    }
    proof {
        assert(a@ =~= b@);
    }
    true
}

/// Whether the needle occurs as a contiguous run of the haystack.
pub open spec fn spec_contains_sub(h: Seq<u8>, n: Seq<u8>) -> bool {
    exists|i: int| 0 <= i <= h.len() - n.len() && #[trigger] h.subrange(i, i + n.len()) == n
}

/// Searches the haystack for the needle.
fn contains_sub(h: &[u8], n: &[u8]) -> (r: bool)
    ensures
        r == spec_contains_sub(h@, n@),
{
    let hl = h.len();
    let nl = n.len();
    if nl > hl {
        proof {
            assert(!spec_contains_sub(h@, n@));
        }
        return false;
    }
    let mut i: usize = 0;
    while i <= hl - nl
        invariant
            0 <= i <= hl - nl + 1,
            nl <= hl,
            hl == h@.len(),
            nl == n@.len(),
            forall|i2: int| 0 <= i2 < i ==> #[trigger] h@.subrange(i2, i2 + n@.len()) != n@,
        decreases hl - nl + 1 - i,
    {
        let mut j: usize = 0;
        let mut matched = true;
        while j < nl
            invariant
                0 <= j <= nl,
                0 <= i <= hl - nl,
                nl <= hl,
                hl == h@.len(),
                nl == n@.len(),
                matched <==> (forall|k: int| 0 <= k < j ==> #[trigger] h@[i + k] == n@[k]),
            decreases nl - j,
        {
            if h[i + j] != n[j] {
                matched = false;
                proof {
                    assert(h@[i + j] != n@[j as int]);
                }
                j = nl;
            } else {
                j += 1;
            }
        }
        if matched {
            proof {
                assert forall|k: int|
                    0 <= k < n@.len() implies h@.subrange(i as int, i + n@.len())[k] == n@[k] by {
                    assert(h@[i + k] == n@[k]);
                }
                assert(h@.subrange(i as int, i + n@.len()) =~= n@);
            }
            return true;
        }
        proof {
            assert(h@.subrange(i as int, i + n@.len()) != n@) by {
                let k = choose|k: int| 0 <= k < n@.len() && h@[i + k] != n@[k];
                assert(h@.subrange(i as int, i + n@.len())[k] == h@[i + k]);
            }
        }
        i += 1;
    }
    proof {
        assert(!spec_contains_sub(h@, n@));
    }
    false
}

/// Whether a geocode response body reports that the location could not
/// be geocoded; the caller then uses a placeholder "Unknown" location
/// instead of failing.
pub fn response_indicates_unknown(body: &[u8]) -> (r: bool)
    ensures
        r == spec_contains_sub(body@, "Unable to geocode".spec_bytes()),
{
    contains_sub(body, "Unable to geocode".as_bytes())
}

/// The spatial cache probe hits exactly when some entry that survives
/// the sweep has an outer ring containing the query point: such a point
/// is answered from the cache with no network request, and a point
/// inside no fresh polygon leaves the probe empty, so the caller makes
/// one rate-gated request.
pub proof fn lemma_probe_hit(s: Seq<GeoCacheEntry>, q: GeoPoint, now: u64)
    ensures
        (spec_first_hit(purge_geo_entries(s, now), q) is Some) <==> (exists|i: int|
            0 <= i < s.len() && geo_entry_fresh(#[trigger] s[i], now) && spec_polygon_contains(
                s[i].polygon@,
                q,
            )),
    decreases s.len(),
{
    if s.len() > 0 {
        lemma_probe_hit(s.drop_first(), q, now);
        let rest = purge_geo_entries(s.drop_first(), now);
        let hit_s = spec_first_hit(purge_geo_entries(s, now), q);
        if geo_entry_fresh(s[0], now) {
            assert((seq![s[0]] + rest)[0] == s[0]);
            assert((seq![s[0]] + rest).drop_first() =~= rest);
        }
        if hit_s is Some {
            if geo_entry_fresh(s[0], now) && spec_polygon_contains(s[0].polygon@, q) {
                assert(geo_entry_fresh(s[0], now) && spec_polygon_contains(s[0].polygon@, q));
            } else {
                assert(spec_first_hit(rest, q) is Some);
                let i0 = choose|i0: int|
                    0 <= i0 < s.drop_first().len() && geo_entry_fresh(s.drop_first()[i0], now)
                        && spec_polygon_contains(s.drop_first()[i0].polygon@, q);
                assert(s[i0 + 1] == s.drop_first()[i0]);
            }
        }
        if exists|i: int|
            0 <= i < s.len() && geo_entry_fresh(#[trigger] s[i], now) && spec_polygon_contains(
                s[i].polygon@,
                q,
            ) {
            let i0 = choose|i0: int|
                0 <= i0 < s.len() && geo_entry_fresh(#[trigger] s[i0], now)
                    && spec_polygon_contains(s[i0].polygon@, q);
            if i0 > 0 {
                assert(s.drop_first()[i0 - 1] == s[i0]);
                assert(spec_first_hit(rest, q) is Some);
            }
            assert(hit_s is Some);
        }
    }
}

} // verus!
