//! The response cache: content IDs, the keys they are computed from, which
//! entries an overfull cache gives up, and when an entry has expired.
use vstd::prelude::*;
use crate::api::request::{
    Filters, Lens, LensView, Personalizations, SearchRequest, SearchRequestView,
};
use crate::api::response::{ExtractData, SearchResponse};

verus! {

// ---------------------------------------------------------------------------
// Content IDs
// ---------------------------------------------------------------------------

/// A 16-byte content ID.
pub type Cid = [u8; 16];

/// The salt byte put before the serialized key; changing it retires every
/// existing entry.
pub const CACHE_KEY_VERSION: u8 = 1;

/// The XXH3 128-bit hash of `data`, as `xxhash_rust` computes it.
pub uninterp spec fn xxh3_128_of(data: Seq<u8>) -> u128;

/// `xxhash_rust::xxh3::xxh3_128`: its result is a function of the bytes alone,
/// named `xxh3_128_of`; the hash algorithm is not restated here.
#[verifier::external_body]
fn xxh3_128(data: &[u8]) -> (h: u128)
    ensures
        h == xxh3_128_of(data@),
{
    xxhash_rust::xxh3::xxh3_128(data)
}

/// The little-endian bytes of a 128-bit value.
pub open spec fn le_bytes(h: u128) -> Seq<u8> {
    Seq::new(16, |i: int| (h >> ((8 * i) as u128)) as u8)
}

/// The bytes that are hashed: the version salt, then the serialized key.
pub open spec fn salted(serialized: Seq<u8>) -> Seq<u8> {
    seq![CACHE_KEY_VERSION] + serialized
}

/// The content ID of a serialized key.
pub open spec fn cid_of(serialized: Seq<u8>) -> Seq<u8> {
    le_bytes(xxh3_128_of(salted(serialized)))
}

/// The content ID of a key, from its JSON serialization: the XXH3-128 hash
/// of the version byte followed by the JSON, in little-endian order.
pub fn generate_cid(serialized: &[u8]) -> (cid: Cid)
    ensures
        cid@ == cid_of(serialized@),
{
    let mut data: Vec<u8> = Vec::new();
    data.push(CACHE_KEY_VERSION);
    let mut i: usize = 0;
    while i < serialized.len()
        invariant
            0 <= i <= serialized.len(),
            data@ == seq![CACHE_KEY_VERSION] + serialized@.take(i as int),
        decreases serialized.len() - i,
    {
        data.push(serialized[i]);
        i += 1;
        assert(data@ =~= seq![CACHE_KEY_VERSION] + serialized@.take(i as int));
    }
    assert(serialized@.take(serialized.len() as int) =~= serialized@);
    let h = xxh3_128(data.as_slice());
    let cid: Cid = [
        (h >> 0u128) as u8,
        (h >> 8u128) as u8,
        (h >> 16u128) as u8,
        (h >> 24u128) as u8,
        (h >> 32u128) as u8,
        (h >> 40u128) as u8,
        (h >> 48u128) as u8,
        (h >> 56u128) as u8,
        (h >> 64u128) as u8,
        (h >> 72u128) as u8,
        (h >> 80u128) as u8,
        (h >> 88u128) as u8,
        (h >> 96u128) as u8,
        (h >> 104u128) as u8,
        (h >> 112u128) as u8,
        (h >> 120u128) as u8,
    ];
    assert(cid@ =~= le_bytes(h));
    cid
}

// ---------------------------------------------------------------------------
// Keys
// ---------------------------------------------------------------------------

/// The cache key of a search: the fields of the request that change what the
/// API answers. The output format, the timeout and the extract settings are
/// left out, so requests that differ only in those share an entry.
#[derive(Debug, Clone, PartialEq, Eq)]
pub struct SearchCacheKey {
    pub query: String,
    pub workflow: Option<String>,
    pub page: Option<u32>,
    pub limit: Option<u32>,
    pub safe_search: Option<bool>,
    pub region: Option<String>,
    pub filters: Option<Filters>,
    pub lens_id: Option<String>,
    pub lens: Option<Lens>,
    pub personalizations: Option<Personalizations>,
}

/// The values a [`SearchCacheKey`] holds.
pub struct SearchCacheKeyView {
    pub query: Seq<char>,
    pub workflow: Option<Seq<char>>,
    pub page: Option<u32>,
    pub limit: Option<u32>,
    pub safe_search: Option<bool>,
    pub region: Option<Seq<char>>,
    pub filters: Option<(Option<Seq<char>>, Option<Seq<char>>, Option<Seq<char>>)>,
    pub lens_id: Option<Seq<char>>,
    pub lens: Option<LensView>,
    pub personalizations: Option<<Personalizations as DeepView>::V>,
}

impl DeepView for SearchCacheKey {
    type V = SearchCacheKeyView;

    open spec fn deep_view(&self) -> SearchCacheKeyView {
        SearchCacheKeyView {
            query: self.query@,
            workflow: self.workflow.deep_view(),
            page: self.page,
            limit: self.limit,
            safe_search: self.safe_search,
            region: self.region.deep_view(),
            filters: self.filters.deep_view(),
            lens_id: self.lens_id.deep_view(),
            lens: self.lens.deep_view(),
            personalizations: self.personalizations.deep_view(),
        }
    }
}

/// The cache key of a search request.
pub open spec fn search_key_of(r: SearchRequestView) -> SearchCacheKeyView {
    SearchCacheKeyView {
        query: r.query,
        workflow: r.workflow,
        page: r.page,
        limit: r.limit,
        safe_search: r.safe_search,
        region: r.region,
        filters: r.filters,
        lens_id: r.lens_id,
        lens: r.lens,
        personalizations: r.personalizations,
    }
}

fn owned_opt_str(o: Option<&str>) -> (r: Option<String>)
    ensures
        r.deep_view() == o.deep_view(),
{
    match o {
        Some(s) => Some(s.to_owned()),
        None => None,
    }
}

impl SearchCacheKey {
    /// The key of `request`: its result-impacting fields.
    pub fn from_request(request: &SearchRequest) -> (k: SearchCacheKey)
        ensures
            k.deep_view() == search_key_of(request.deep_view()),
    {
        let filters = match request.filters() {
            Some(f) => Some(f.copy()),
            None => None,
        };
        let lens = match request.lens() {
            Some(l) => Some(l.copy()),
            None => None,
        };
        let personalizations = match request.personalizations() {
            Some(p) => Some(p.copy()),
            None => None,
        };
        SearchCacheKey {
            query: request.query().to_owned(),
            workflow: owned_opt_str(request.workflow()),
            page: request.page(),
            limit: request.limit(),
            safe_search: request.safe_search(),
            region: owned_opt_str(request.region()),
            filters,
            lens_id: owned_opt_str(request.lens_id()),
            lens,
            personalizations,
        }
    }
}

/// Two requests get the same cache key exactly when they agree on every field
/// that changes the answer; the output format, the timeout and the extract
/// settings play no part.
pub proof fn lemma_search_key_fields(a: SearchRequestView, b: SearchRequestView)
    ensures
        search_key_of(a) == search_key_of(b) <==> (a.query == b.query && a.workflow == b.workflow
            && a.page == b.page && a.limit == b.limit && a.safe_search == b.safe_search
            && a.region == b.region && a.filters == b.filters && a.lens_id == b.lens_id
            && a.lens == b.lens && a.personalizations == b.personalizations),
{
}

/// The cache key of an extraction: the page URL alone.
#[derive(Debug, Clone, PartialEq, Eq)]
pub struct ExtractCacheKey {
    pub url: String,
}

/// A cached search answer.
#[derive(Debug, Clone)]
pub struct SearchCachedResult {
    pub response: SearchResponse,
}

/// A cached extraction of one page.
#[derive(Debug, Clone)]
pub struct ExtractCachedResult {
    pub data: ExtractData,
}

// ---------------------------------------------------------------------------
// Eviction
// ---------------------------------------------------------------------------

/// The bytes an overfull cache must give up: the excess of the stored total
/// over the limit, when there is one.
pub open spec fn excess_bytes(total: nat, max_size_bytes: nat) -> Option<nat> {
    if total <= max_size_bytes {
        None
    } else {
        Some((total - max_size_bytes) as nat)
    }
}

/// How many bytes must be freed, if any.
pub fn needs_eviction(total: u64, max_size_bytes: u64) -> (r: Option<u64>)
    ensures
        match r {
            Some(n) => excess_bytes(total as nat, max_size_bytes as nat) == Some(n as nat),
            None => excess_bytes(total as nat, max_size_bytes as nat) is None,
        },
{
    if total <= max_size_bytes {
        None
    } else {
        Some(total - max_size_bytes)
    }
}

/// The size a cache row counts for: its stored size read as a `u64`.
pub open spec fn entry_size(e: (Vec<u8>, i64)) -> nat {
    (e.1 as u64) as nat
}

/// The total size of the first `k` rows.
pub open spec fn prefix_size(entries: Seq<(Vec<u8>, i64)>, k: nat) -> nat
    decreases k,
{
    if k == 0 || k > entries.len() {
        0
    } else {
        prefix_size(entries, (k - 1) as nat) + entry_size(entries[k - 1])
    }
}

/// Walking the rows oldest first with `freed` bytes freed so far: how many
/// rows are deleted, the bytes freed in the end, and whether the walk stopped
/// on a row whose ID is not 16 bytes long. The walk stops as soon as `need`
/// bytes are freed; until then each row is deleted, once its ID is checked.
pub open spec fn eviction_steps(entries: Seq<(Vec<u8>, i64)>, need: nat, freed: nat) -> (
    nat,
    nat,
    bool,
)
    decreases entries.len(),
{
    if entries.len() == 0 || freed >= need {
        (0, freed, false)
    } else if entries[0].0@.len() != 16 {
        (0, freed, true)
    } else {
        let (n, f, c) = eviction_steps(entries.drop_first(), need, freed + entry_size(entries[0]));
        (n + 1, f, c)
    }
}

/// The running count of freed bytes fits in a `u64` along the walk.
pub open spec fn eviction_fits(entries: Seq<(Vec<u8>, i64)>, need: nat, freed: nat) -> bool
    decreases entries.len(),
{
    if entries.len() == 0 || freed >= need || entries[0].0@.len() != 16 {
        true
    } else {
        freed + entry_size(entries[0]) <= u64::MAX && eviction_fits(
            entries.drop_first(),
            need,
            freed + entry_size(entries[0]),
        )
    }
}

/// The deletions an overfull cache performs, in order, and what they free.
pub struct EvictionPlan {
    /// The IDs of the rows to delete, oldest first.
    pub deletions: Vec<Cid>,
    /// The bytes the deletions free.
    pub freed: u64,
    /// The walk stopped on a row whose ID is not 16 bytes long; after the
    /// deletions the eviction fails.
    pub corrupt: bool,
}

fn cid_from_bytes(bytes: &Vec<u8>) -> (c: Cid)
    requires
        bytes.len() == 16,
    ensures
        c@ == bytes@,
{
    let c: Cid = [
        bytes[0],
        bytes[1],
        bytes[2],
        bytes[3],
        bytes[4],
        bytes[5],
        bytes[6],
        bytes[7],
        bytes[8],
        bytes[9],
        bytes[10],
        bytes[11],
        bytes[12],
        bytes[13],
        bytes[14],
        bytes[15],
    ];
    assert(c@ =~= bytes@);
    c
}

/// Plans the eviction of the oldest rows until `bytes_to_free` bytes are
/// freed. `entries` are the cache rows, ID and stored size, oldest first.
pub fn plan_eviction(bytes_to_free: u64, entries: &[(Vec<u8>, i64)]) -> (plan: EvictionPlan)
    requires
        eviction_fits(entries@, bytes_to_free as nat, 0),
    ensures
        ({
            let (n, f, c) = eviction_steps(entries@, bytes_to_free as nat, 0);
            &&& plan.deletions.len() == n
            &&& forall|i: int| 0 <= i < n ==> (#[trigger] plan.deletions@[i])@ == entries@[i].0@
            &&& plan.freed == f
            &&& plan.corrupt == c
        }),
{
    let ghost need = bytes_to_free as nat;
    let mut deletions: Vec<Cid> = Vec::new();
    let mut freed: u64 = 0;
    let mut i: usize = 0;
    let mut corrupt = false;
    assert(entries@.skip(0) =~= entries@);
    while i < entries.len()
        invariant_except_break
            0 <= i <= entries.len(),
            need == bytes_to_free as nat,
            deletions.len() == i,
            forall|k: int| 0 <= k < i ==> (#[trigger] deletions@[k])@ == entries@[k].0@,
            !corrupt,
            eviction_fits(entries@.skip(i as int), need, freed as nat),
            ({
                let (n, f, c) = eviction_steps(entries@.skip(i as int), need, freed as nat);
                eviction_steps(entries@, need, 0) == ((n + i) as nat, f, c)
            }),
        ensures
            eviction_steps(entries@, need, 0) == (deletions.len() as nat, freed as nat, corrupt),
            forall|k: int| 0 <= k < deletions.len() ==> (#[trigger] deletions@[k])@
                == entries@[k].0@,
        decreases entries.len() - i,
    {
        let ghost rest = entries@.skip(i as int);
        assert(rest[0] == entries@[i as int]);
        assert(rest.drop_first() =~= entries@.skip(i + 1));
        let entry = &entries[i];
        if freed >= bytes_to_free {
            break;
        }
        if entry.0.len() != 16 {
            corrupt = true;
            break;
        }
        let cid = cid_from_bytes(&entry.0);
        deletions.push(cid);
        freed = freed + (entry.1 as u64);
        i += 1;
    }
    EvictionPlan { deletions, freed, corrupt }
}

/// Eviction frees enough: unless it stops on a corrupt row, it either frees
/// at least the bytes asked for or deletes every row.
pub proof fn lemma_eviction_frees_enough(entries: Seq<(Vec<u8>, i64)>, need: nat, freed: nat)
    ensures
        ({
            let (n, f, c) = eviction_steps(entries, need, freed);
            &&& n <= entries.len()
            &&& (!c ==> f >= need || n == entries.len())
        }),
    decreases entries.len(),
{
    if entries.len() > 0 && freed < need && entries[0].0@.len() == 16 {
        lemma_eviction_frees_enough(
            entries.drop_first(),
            need,
            freed + entry_size(entries[0]),
        );
    }
}

proof fn lemma_prefix_size_shift(entries: Seq<(Vec<u8>, i64)>, k: nat)
    requires
        0 < entries.len(),
        k < entries.len(),
    ensures
        prefix_size(entries, k + 1) == entry_size(entries[0]) + prefix_size(entries.drop_first(), k),
    decreases k,
{
    let rest = entries.drop_first();
    if k > 0 {
        lemma_prefix_size_shift(entries, (k - 1) as nat);
        assert(rest[k - 1] == entries[k as int]);
        assert(prefix_size(rest, k) == prefix_size(rest, (k - 1) as nat) + entry_size(rest[k - 1]));
        assert(prefix_size(entries, k + 1) == prefix_size(entries, k) + entry_size(entries[k as int]));
    } else {
        assert(prefix_size(entries, 0) == 0);
        assert(prefix_size(rest, 0) == 0);
        assert(prefix_size(entries, 1) == prefix_size(entries, 0) + entry_size(entries[0]));
    }
}

/// Eviction takes the oldest rows and no more of them than it needs: the
/// freed bytes are those of the deleted prefix, and before its last deletion
/// fewer than the bytes asked for were freed.
pub proof fn lemma_eviction_takes_oldest_needed(
    entries: Seq<(Vec<u8>, i64)>,
    need: nat,
    freed: nat,
)
    ensures
        ({
            let (n, f, c) = eviction_steps(entries, need, freed);
            &&& n <= entries.len()
            &&& f == freed + prefix_size(entries, n)
            &&& (n > 0 ==> freed + prefix_size(entries, (n - 1) as nat) < need)
        }),
    decreases entries.len(),
{
    if entries.len() > 0 && entries[0].0@.len() == 16 && freed < need {
        let rest = entries.drop_first();
        let more = freed + entry_size(entries[0]);
        lemma_eviction_takes_oldest_needed(rest, need, more);
        let (n, f, c) = eviction_steps(rest, need, more);
        lemma_prefix_size_shift(entries, n);
        if n > 0 {
            lemma_prefix_size_shift(entries, (n - 1) as nat);
        }
    }
}

/// Whether the eviction of `entries` for `bytes_to_free` bytes can count its
/// freed bytes in a `u64`; `plan_eviction` is defined exactly then.
pub fn eviction_fits_check(bytes_to_free: u64, entries: &[(Vec<u8>, i64)]) -> (b: bool)
    ensures
        b == eviction_fits(entries@, bytes_to_free as nat, 0),
{
    let ghost need = bytes_to_free as nat;
    let mut freed: u64 = 0;
    let mut i: usize = 0;
    assert(entries@.skip(0) =~= entries@);
    while i < entries.len()
        invariant
            0 <= i <= entries.len(),
            need == bytes_to_free as nat,
            eviction_fits(entries@, need, 0) == eviction_fits(entries@.skip(i as int), need, freed as nat),
        decreases entries.len() - i,
    {
        let ghost rest = entries@.skip(i as int);
        assert(rest[0] == entries@[i as int]);
        assert(rest.drop_first() =~= entries@.skip(i + 1));
        let entry = &entries[i];
        if freed >= bytes_to_free || entry.0.len() != 16 {
            return true;
        }
        let size = entry.1 as u64;
        if size > u64::MAX - freed {
            return false;
        }
        freed = freed + size;
        i += 1;
    }
    true
}

// ---------------------------------------------------------------------------
// Expiry
// ---------------------------------------------------------------------------

/// The lifetime in seconds of a lifetime in days.
pub fn ttl_seconds_of(ttl_days: u64) -> (r: u64)
    requires
        ttl_days * 86400 <= u64::MAX,
    ensures
        r == ttl_days * 86400,
{
    ttl_days * 24 * 60 * 60
}

/// A `u64` read as an `i64` of the same bits.
pub open spec fn as_signed(x: u64) -> int {
    if x <= i64::MAX {
        x as int
    } else {
        x - 0x1_0000_0000_0000_0000
    }
}

/// `a - b` clamped to the range of `i64`, as `i64::saturating_sub` computes it.
pub open spec fn saturating_difference(a: int, b: int) -> int {
    if a - b < i64::MIN {
        i64::MIN as int
    } else if a - b > i64::MAX {
        i64::MAX as int
    } else {
        a - b
    }
}

/// An entry made at `created_at` has expired at `now` (both in seconds since
/// the Unix epoch) under a lifetime of `ttl_seconds`: it was made before
/// `now - ttl_seconds`.
pub open spec fn expired(created_at: int, now: int, ttl_seconds: u64) -> bool {
    created_at < saturating_difference(now, as_signed(ttl_seconds))
}

/// Whether a cache entry has outlived its lifetime.
pub fn is_expired(created_at: i64, now: i64, ttl_seconds: u64) -> (r: bool)
    ensures
        r == expired(created_at as int, now as int, ttl_seconds),
{
    let ttl: i64 = if ttl_seconds <= 9223372036854775807 {
        ttl_seconds as i64
    } else {
        ((ttl_seconds - 9223372036854775808) as i64) - 9223372036854775807 - 1
    };
    let cutoff: i64 = if ttl >= 0 {
        if now < i64::MIN + ttl {
            i64::MIN
        } else {
            now - ttl
        }
    } else {
        if now > i64::MAX + ttl {
            i64::MAX
        } else {
            now - ttl
        }
    };
    created_at < cutoff
}

/// An entry read back at the moment it was written has not expired, for any
/// lifetime that fits in an `i64`.
pub proof fn lemma_fresh_entry_not_expired(now: i64, ttl_seconds: u64)
    requires
        ttl_seconds <= i64::MAX,
    ensures
        !expired(now as int, now as int, ttl_seconds),
{
}

/// An entry outlives its lifetime: one made more than `ttl_seconds` before
/// `now` has expired, and one made at or after `now - ttl_seconds` has not.
pub proof fn lemma_expiry_threshold(created_at: i64, now: i64, ttl_seconds: u64)
    requires
        ttl_seconds <= i64::MAX,
        i64::MIN <= now - ttl_seconds,
    ensures
        expired(created_at as int, now as int, ttl_seconds) <==> created_at + ttl_seconds < now,
{
}

/// After a completed eviction the stored total is within the limit, unless
/// every row was deleted.
pub proof fn lemma_eviction_reaches_limit(
    total: nat,
    max_size_bytes: nat,
    entries: Seq<(Vec<u8>, i64)>,
)
    requires
        total > max_size_bytes,
    ensures
        ({
            let (n, f, c) = eviction_steps(entries, (total - max_size_bytes) as nat, 0);
            !c ==> (total - f <= max_size_bytes || n == entries.len())
        }),
{
    lemma_eviction_frees_enough(entries, (total - max_size_bytes) as nat, 0);
}

} // verus!
