//! Bounded cache of rendered pages, evicted by distance from the page in view.

use vstd::prelude::*;

verus! {

/// The most pages the cache holds after an insertion.
pub const CACHE_CAPACITY: usize = 10;

/// A rendered page: `pixels` holds `width * height` pixels of four bytes
/// each, red first, alpha last.
#[derive(Debug)]
pub struct RenderImage {
    pub width: u32,
    pub height: u32,
    pub pixels: Vec<u8>,
}

/// What a `RenderImage` holds.
pub struct RenderImageView {
    pub width: u32,
    pub height: u32,
    pub pixels: Seq<u8>,
}

impl View for RenderImage {
    type V = RenderImageView;

    open spec fn view(&self) -> RenderImageView {
        RenderImageView { width: self.width, height: self.height, pixels: self.pixels@ }
    }
}

impl Clone for RenderImage {
    fn clone(&self) -> (r: Self)
        ensures
            r@ == self@,
    {
        RenderImage { width: self.width, height: self.height, pixels: self.pixels.clone() }
    }
}

/// The zoom factor a cache slot is keyed by: never zero.
pub open spec fn quantized(scale: u32) -> u32 {
    if scale == 0 {
        1
    } else {
        scale
    }
}

/// Turns a zoom factor in thousandths into the number a cache slot is keyed by.
pub fn quantize_scale(scale: u32) -> (r: u32)
    ensures
        r == quantized(scale),
        r >= 1,
{
    if scale == 0 {
        1
    } else {
        scale
    }
}

/// What a rendered page is cached under.
#[derive(Clone, Copy, Debug, Hash, PartialEq, Eq, Structural)]
pub struct CacheKey {
    pub page_index: usize,
    pub scale_milli: u32,
    pub dark_mode: bool,
}

impl CacheKey {
    /// How many pages lie between this key's page and `reference_page`.
    pub open spec fn spec_distance(self, reference_page: usize) -> int {
        if self.page_index >= reference_page {
            self.page_index - reference_page
        } else {
            reference_page - self.page_index
        }
    }

    /// The key of a page at a zoom factor in thousandths.
    pub fn new(page_index: usize, scale: u32, dark_mode: bool) -> (r: Self)
        ensures
            r == (CacheKey { page_index, scale_milli: quantized(scale), dark_mode }),
    {
        CacheKey { page_index, scale_milli: quantize_scale(scale), dark_mode }
    }

    /// How many pages lie between this key's page and `reference_page`.
    pub fn distance(&self, reference_page: usize) -> (r: usize)
        ensures
            r == self.spec_distance(reference_page),
    {
        if self.page_index >= reference_page {
            self.page_index - reference_page
        } else {
            reference_page - self.page_index
        }
    }
}

/// The contents of a cache: keys with their images, oldest insertion first.
pub type CacheEntries = Seq<(CacheKey, RenderImageView)>;

/// Whether some entry is stored under `key`.
pub open spec fn has_key(entries: CacheEntries, key: CacheKey) -> bool {
    exists|i: int| 0 <= i < entries.len() && (#[trigger] entries[i]).0 == key
}

/// Whether no key is stored twice.
pub open spec fn distinct_keys(entries: CacheEntries) -> bool {
    forall|i: int, j: int|
        0 <= i < j < entries.len() ==> (#[trigger] entries[i]).0 != (#[trigger] entries[j]).0
}

/// The image stored under `key`.
pub open spec fn lookup(entries: CacheEntries, key: CacheKey) -> Option<RenderImageView> {
    if has_key(entries, key) {
        let i = choose|i: int| 0 <= i < entries.len() && (#[trigger] entries[i]).0 == key;
        Some(entries[i].1)
    } else {
        None
    }
}

/// The contents after storing `image` under `key`, before anything is
/// evicted: an image already there is replaced in place, a new key goes last.
pub open spec fn stored(entries: CacheEntries, key: CacheKey, image: RenderImageView) -> CacheEntries {
    if has_key(entries, key) {
        let i = choose|i: int| 0 <= i < entries.len() && (#[trigger] entries[i]).0 == key;
        entries.update(i, (key, image))
    } else {
        entries.push((key, image))
    }
}

/// Whether `at` is the entry to evict first: none is farther from
/// `reference_page`, and none behind it is as far.
pub open spec fn is_farthest(entries: CacheEntries, reference_page: usize, at: int) -> bool {
    &&& 0 <= at < entries.len()
    &&& forall|i: int|
        0 <= i < entries.len() ==> (#[trigger] entries[i]).0.spec_distance(reference_page)
            <= entries[at].0.spec_distance(reference_page)
    &&& forall|i: int|
        at < i < entries.len() ==> (#[trigger] entries[i]).0.spec_distance(reference_page)
            < entries[at].0.spec_distance(reference_page)
}

/// The index of the entry to evict first.
pub open spec fn farthest(entries: CacheEntries, reference_page: usize) -> int {
    choose|at: int| is_farthest(entries, reference_page, at)
}

/// The contents after evicting, farthest first, until at most `capacity`
/// entries are left.
pub open spec fn evicted(entries: CacheEntries, reference_page: usize, capacity: nat) -> CacheEntries
    decreases entries.len(),
{
    if entries.len() <= capacity {
        entries
    } else {
        let at = farthest(entries, reference_page);
        if 0 <= at < entries.len() {
            evicted(entries.remove(at), reference_page, capacity)
        } else {
            entries
        }
    }
}

/// At most one index is the one to evict first.
pub proof fn lemma_farthest_unique(entries: CacheEntries, reference_page: usize, a: int, b: int)
    requires
        is_farthest(entries, reference_page, a),
        is_farthest(entries, reference_page, b),
    ensures
        a == b,
{
    if a < b {
        assert(entries[b].0.spec_distance(reference_page) < entries[a].0.spec_distance(
            reference_page,
        ));
        assert(entries[a].0.spec_distance(reference_page) <= entries[b].0.spec_distance(
            reference_page,
        ));
    } else if b < a {
        assert(entries[a].0.spec_distance(reference_page) < entries[b].0.spec_distance(
            reference_page,
        ));
        assert(entries[b].0.spec_distance(reference_page) <= entries[a].0.spec_distance(
            reference_page,
        ));
    }
}

/// Eviction keeps the nearest: of more than `capacity` entries with
/// distinct keys exactly `capacity` survive, every survivor was there
/// before, and no survivor lies farther from `reference_page` than an
/// entry that was evicted.
pub proof fn lemma_eviction_keeps_nearest(
    entries: CacheEntries,
    reference_page: usize,
    capacity: nat,
)
    requires
        distinct_keys(entries),
    ensures
        ({
            let out = evicted(entries, reference_page, capacity);
            &&& distinct_keys(out)
            &&& out.len() == if entries.len() <= capacity {
                entries.len()
            } else {
                capacity
            }
            &&& forall|j: int| 0 <= j < out.len() ==> entries.contains(#[trigger] out[j])
            &&& forall|i: int, j: int|
                0 <= i < entries.len() && 0 <= j < out.len() && !out.contains(entries[i])
                    ==> (#[trigger] out[j]).0.spec_distance(reference_page) <= (
                #[trigger] entries[i]).0.spec_distance(reference_page)
        }),
    decreases entries.len(),
{
    let out = evicted(entries, reference_page, capacity);
    if entries.len() <= capacity {
        assert forall|j: int| 0 <= j < out.len() implies entries.contains(#[trigger] out[j]) by {
            assert(entries[j] == out[j]);
        }
        assert forall|i: int, j: int|
            0 <= i < entries.len() && 0 <= j < out.len() && !out.contains(
                entries[i],
            ) implies (#[trigger] out[j]).0.spec_distance(reference_page) <= (
        #[trigger] entries[i]).0.spec_distance(reference_page) by {
            assert(out[i] == entries[i]);
        }
    } else {
        lemma_farthest_exists(entries, reference_page);
        let at = farthest(entries, reference_page);
        let rest = entries.remove(at);
        assert(distinct_keys(rest)) by {
            assert forall|i: int, j: int| 0 <= i < j < rest.len() implies (#[trigger] rest[i]).0 != (
            #[trigger] rest[j]).0 by {
                let si = if i < at { i } else { i + 1 };
                let sj = if j < at { j } else { j + 1 };
                assert(rest[i] == entries[si]);
                assert(rest[j] == entries[sj]);
            }
        }
        lemma_eviction_keeps_nearest(rest, reference_page, capacity);
        assert forall|j: int| 0 <= j < out.len() implies entries.contains(#[trigger] out[j]) by {
            assert(rest.contains(out[j]));
            let k = choose|k: int| 0 <= k < rest.len() && rest[k] == out[j];
            let sk = if k < at { k } else { k + 1 };
            assert(entries[sk] == out[j]);
        }
        assert forall|i: int, j: int|
            0 <= i < entries.len() && 0 <= j < out.len() && !out.contains(
                entries[i],
            ) implies (#[trigger] out[j]).0.spec_distance(reference_page) <= (
        #[trigger] entries[i]).0.spec_distance(reference_page) by {
            if i == at {
                assert(entries.contains(out[j]));
                let k = choose|k: int| 0 <= k < entries.len() && entries[k] == out[j];
                assert(entries[k].0.spec_distance(reference_page) <= entries[at].0.spec_distance(
                    reference_page,
                ));
            } else {
                let ri = if i < at { i } else { i - 1 };
                assert(rest[ri] == entries[i]);
            }
        }
    }
}

/// Storing an image keeps the keys distinct and makes the image the one
/// found under its key.
pub proof fn lemma_stored(entries: CacheEntries, key: CacheKey, image: RenderImageView)
    requires
        distinct_keys(entries),
    ensures
        distinct_keys(stored(entries, key, image)),
        lookup(stored(entries, key, image), key) == Some(image),
        stored(entries, key, image).len() == if has_key(entries, key) {
            entries.len()
        } else {
            entries.len() + 1
        },
{
    let merged = stored(entries, key, image);
    if has_key(entries, key) {
        let at = choose|i: int| 0 <= i < entries.len() && (#[trigger] entries[i]).0 == key;
        assert forall|a: int, b: int| 0 <= a < b < merged.len() implies (#[trigger] merged[a]).0 != (
        #[trigger] merged[b]).0 by {
            assert(merged[a].0 == entries[a].0);
            assert(merged[b].0 == entries[b].0);
        }
        assert(merged[at].0 == key);
        let found = choose|i: int| 0 <= i < merged.len() && (#[trigger] merged[i]).0 == key;
        if found < at {
            assert(merged[found].0 != merged[at].0);
        } else if at < found {
            assert(merged[at].0 != merged[found].0);
        }
    } else {
        let last = merged.len() - 1;
        assert forall|a: int, b: int| 0 <= a < b < merged.len() implies (#[trigger] merged[a]).0 != (
        #[trigger] merged[b]).0 by {
            assert(merged[a] == entries[a]);
            if b < last {
                assert(merged[b] == entries[b]);
            }
        }
        assert(merged[last].0 == key);
        let found = choose|i: int| 0 <= i < merged.len() && (#[trigger] merged[i]).0 == key;
        if found < last {
            assert(merged[found].0 != merged[last].0);
        }
    }
}

/// What is cached after a page was put: at most the capacity; every
/// page that is cached was there before or was put; and no page that is
/// cached lies farther from the reference page than one that was dropped.
pub proof fn lemma_put_keeps_nearest(
    entries: CacheEntries,
    key: CacheKey,
    image: RenderImageView,
    reference_page: usize,
)
    requires
        distinct_keys(entries),
    ensures
        ({
            let merged = stored(entries, key, image);
            let out = evicted(merged, reference_page, CACHE_CAPACITY as nat);
            &&& distinct_keys(out)
            &&& out.len() == if merged.len() <= CACHE_CAPACITY {
                merged.len()
            } else {
                CACHE_CAPACITY as nat
            }
            &&& forall|j: int| 0 <= j < out.len() ==> merged.contains(#[trigger] out[j])
            &&& forall|i: int, j: int|
                0 <= i < merged.len() && 0 <= j < out.len() && !out.contains(merged[i])
                    ==> (#[trigger] out[j]).0.spec_distance(reference_page) <= (
                #[trigger] merged[i]).0.spec_distance(reference_page)
        }),
{
    lemma_stored(entries, key, image);
    lemma_eviction_keeps_nearest(
        stored(entries, key, image),
        reference_page,
        CACHE_CAPACITY as nat,
    );
}

/// A cache that is not empty has an entry to evict first.
pub proof fn lemma_farthest_exists(entries: CacheEntries, reference_page: usize)
    requires
        entries.len() > 0,
    ensures
        is_farthest(entries, reference_page, farthest(entries, reference_page)),
    decreases entries.len(),
{
    if entries.len() == 1 {
        assert(is_farthest(entries, reference_page, 0));
    } else {
        let front = entries.drop_last();
        lemma_farthest_exists(front, reference_page);
        let at = farthest(front, reference_page);
        let last = entries.len() - 1;
        if entries[last].0.spec_distance(reference_page) >= front[at].0.spec_distance(
            reference_page,
        ) {
            assert forall|i: int| 0 <= i < entries.len() implies (#[trigger] entries[i]).0.spec_distance(
                reference_page,
            ) <= entries[last].0.spec_distance(reference_page) by {
                if i < last {
                    assert(front[i] == entries[i]);
                }
            }
            assert(is_farthest(entries, reference_page, last));
        } else {
            assert forall|i: int| 0 <= i < entries.len() implies (#[trigger] entries[i]).0.spec_distance(
                reference_page,
            ) <= entries[at].0.spec_distance(reference_page) by {
                if i < last {
                    assert(front[i] == entries[i]);
                }
            }
            assert forall|i: int| at < i < entries.len() implies (#[trigger] entries[i]).0.spec_distance(
                reference_page,
            ) < entries[at].0.spec_distance(reference_page) by {
                if i < last {
                    assert(front[i] == entries[i]);
                }
            }
            assert(is_farthest(entries, reference_page, at));
        }
    }
}

/// In a cache whose keys are distinct every page is found under its
/// key, with its own image.
pub proof fn lemma_found_under_key(entries: CacheEntries, at: int)
    requires
        distinct_keys(entries),
        0 <= at < entries.len(),
    ensures
        lookup(entries, entries[at].0) == Some(entries[at].1),
{
    let key = entries[at].0;
    assert(has_key(entries, key));
    let found = choose|i: int| 0 <= i < entries.len() && (#[trigger] entries[i]).0 == key;
    if found < at {
        assert(entries[found].0 != entries[at].0);
    } else if at < found {
        assert(entries[at].0 != entries[found].0);
    }
}

/// Whether the first `n` of `items` have keys that differ from one
/// another.
pub open spec fn distinct_items(items: CacheEntries, n: int) -> bool {
    forall|i: int, j: int| 0 <= i < j < n ==> (#[trigger] items[i]).0 != (#[trigger] items[j]).0
}

/// The contents of a cache that was empty after the first `n` of `items`
/// were put one by one, each time with the same reference page.
pub open spec fn put_all(items: CacheEntries, reference_page: usize, n: int) -> CacheEntries
    decreases n,
{
    if n <= 0 {
        Seq::empty()
    } else {
        evicted(
            stored(put_all(items, reference_page, n - 1), items[n - 1].0, items[n - 1].1),
            reference_page,
            CACHE_CAPACITY as nat,
        )
    }
}

/// What holds of a cache after a run of puts: the keys are distinct;
/// as many pages are cached as were put, but no more than the capacity;
/// every cached page is one that was put, with its own image; and no
/// cached page lies farther from the reference page than one that was
/// put and is gone.
pub open spec fn keeps_nearest(
    items: CacheEntries,
    reference_page: usize,
    n: int,
    out: CacheEntries,
) -> bool {
    &&& distinct_keys(out)
    &&& out.len() == if n <= CACHE_CAPACITY {
        n
    } else {
        CACHE_CAPACITY as int
    }
    &&& forall|j: int| 0 <= j < out.len() ==> items.take(n).contains(#[trigger] out[j])
    &&& forall|i: int, j: int|
        0 <= i < n && 0 <= j < out.len() && !out.contains(items[i]) ==> (
        #[trigger] out[j]).0.spec_distance(reference_page) <= (#[trigger] items[i]).0.spec_distance(
            reference_page,
        )
}

/// As long as the cache is not full, it holds what was put, in the
/// order in which it was put.
pub proof fn lemma_put_all_fills(items: CacheEntries, reference_page: usize, n: int)
    requires
        0 <= n <= items.len(),
        n <= CACHE_CAPACITY,
        distinct_items(items, n),
    ensures
        put_all(items, reference_page, n) == items.take(n),
    decreases n,
{
    if n > 0 {
        lemma_put_all_fills(items, reference_page, n - 1);
        let before = items.take(n - 1);
        let key = items[n - 1].0;
        assert(!has_key(before, key)) by {
            assert forall|i: int| 0 <= i < before.len() implies (#[trigger] before[i]).0 != key by {
                assert(before[i] == items[i]);
            }
        }
        assert(before.push(items[n - 1]) =~= items.take(n));
    } else {
        assert(items.take(0) =~= Seq::<(CacheKey, RenderImageView)>::empty());
    }
}

/// A cache that was empty keeps, of the pages that are put into it one
/// by one under keys that differ and with one reference page, the
/// nearest: it holds as many as were put, but no more than its capacity;
/// every page it holds was put, and has the image that was put with it;
/// and no page it holds lies farther from the reference page than one
/// that was put and is no longer there.
pub proof fn lemma_run_keeps_nearest(items: CacheEntries, reference_page: usize, n: int)
    requires
        0 <= n <= items.len(),
        distinct_items(items, n),
    ensures
        keeps_nearest(items, reference_page, n, put_all(items, reference_page, n)),
    decreases n,
{
    let out = put_all(items, reference_page, n);
    if n <= CACHE_CAPACITY {
        lemma_put_all_fills(items, reference_page, n);
        let all = items.take(n);
        assert forall|i: int, j: int| 0 <= i < j < all.len() implies (#[trigger] all[i]).0 != (
        #[trigger] all[j]).0 by {
            assert(all[i] == items[i]);
            assert(all[j] == items[j]);
        }
        assert forall|j: int| 0 <= j < out.len() implies all.contains(#[trigger] out[j]) by {
            assert(all[j] == out[j]);
        }
        assert forall|i: int, j: int|
            0 <= i < n && 0 <= j < out.len() && !out.contains(items[i]) implies (
        #[trigger] out[j]).0.spec_distance(reference_page) <= (#[trigger] items[i]).0.spec_distance(
            reference_page,
        ) by {
            assert(out[i] == items[i]);
        }
    } else {
        lemma_run_keeps_nearest(items, reference_page, n - 1);
        let before = put_all(items, reference_page, n - 1);
        let item = items[n - 1];
        assert(before.len() == CACHE_CAPACITY);
        let earlier = items.take(n - 1);
        assert forall|i: int| 0 <= i < before.len() implies (#[trigger] before[i]).0 != item.0 by {
            assert(earlier.contains(before[i]));
            let k = choose|k: int| 0 <= k < earlier.len() && earlier[k] == before[i];
            assert(items[k] == before[i]);
        }
        assert(!has_key(before, item.0));
        let merged = before.push(item);
        assert(merged == stored(before, item.0, item.1));
        let last = merged.len() - 1;
        assert(distinct_keys(merged)) by {
            assert forall|a: int, b: int| 0 <= a < b < merged.len() implies (#[trigger] merged[a]).0
                != (#[trigger] merged[b]).0 by {
                assert(merged[a] == before[a]);
                if b < last {
                    assert(merged[b] == before[b]);
                }
            }
        }
        lemma_eviction_keeps_nearest(merged, reference_page, CACHE_CAPACITY as nat);
        lemma_farthest_exists(merged, reference_page);
        let at = farthest(merged, reference_page);
        let rest = merged.remove(at);
        assert(rest.len() == CACHE_CAPACITY);
        assert(evicted(rest, reference_page, CACHE_CAPACITY as nat) == rest);
        assert(evicted(merged, reference_page, CACHE_CAPACITY as nat) == evicted(
            rest,
            reference_page,
            CACHE_CAPACITY as nat,
        ));
        assert(out == rest);
        assert forall|j: int| 0 <= j < out.len() implies items.take(n).contains(#[trigger] out[j]) by {
            let from = if j < at { j } else { j + 1 };
            assert(out[j] == merged[from]);
            if from < last {
                assert(earlier.contains(before[from]));
                let k = choose|k: int| 0 <= k < earlier.len() && earlier[k] == before[from];
                assert(items.take(n)[k] == out[j]);
            } else {
                assert(items.take(n)[n - 1] == out[j]);
            }
        }
        assert forall|i: int, j: int|
            0 <= i < n && 0 <= j < out.len() && !out.contains(items[i]) implies (
        #[trigger] out[j]).0.spec_distance(reference_page) <= (#[trigger] items[i]).0.spec_distance(
            reference_page,
        ) by {
            let from = if j < at { j } else { j + 1 };
            assert(out[j] == merged[from]);
            if i == n - 1 || before.contains(items[i]) {
                let k = if i == n - 1 {
                    last
                } else {
                    choose|k: int| 0 <= k < before.len() && before[k] == items[i]
                };
                assert(merged[k] == items[i]);
            } else {
                let gone = merged[at];
                assert(merged[from].0.spec_distance(reference_page) <= gone.0.spec_distance(
                    reference_page,
                ));
                if at < last {
                    assert(gone == before[at]);
                } else {
                    assert(from < last);
                    assert(merged[from] == before[from]);
                }
            }
        }
    }
}

/// One cached page.
#[derive(Debug)]
struct CacheEntry {
    key: CacheKey,
    image: RenderImage,
}

/// The keys and images of `entries`.
spec fn contents(entries: Seq<CacheEntry>) -> CacheEntries {
    entries.map_values(|e: CacheEntry| (e.key, e.image@))
}

/// The index of the entry to evict first.
fn farthest_index(entries: &Vec<CacheEntry>, reference_page: usize) -> (r: usize)
    requires
        entries.len() > 0,
    ensures
        is_farthest(contents(entries@), reference_page, r as int),
{
    let ghost view = contents(entries@);
    let mut best: usize = 0;
    let mut best_distance: usize = entries[0].key.distance(reference_page);
    let mut i: usize = 1;
    while i < entries.len()
        invariant
            1 <= i <= entries.len(),
            view == contents(entries@),
            best < i,
            best_distance == view[best as int].0.spec_distance(reference_page),
            forall|k: int|
                0 <= k < i ==> (#[trigger] view[k]).0.spec_distance(reference_page)
                    <= best_distance,
            forall|k: int|
                best < k < i ==> (#[trigger] view[k]).0.spec_distance(reference_page)
                    < best_distance,
        decreases entries.len() - i,
    {
        let d: usize = entries[i].key.distance(reference_page);
        if d >= best_distance {
            best = i;
            best_distance = d;
        }
        i += 1;
    }
    best
}

/// Rendered pages by key, in the order in which their keys were first stored.
#[derive(Debug)]
pub struct RenderCache {
    entries: Vec<CacheEntry>,
}

impl View for RenderCache {
    type V = CacheEntries;

    closed spec fn view(&self) -> CacheEntries {
        contents(self.entries@)
    }
}

impl RenderCache {
    #[verifier::type_invariant]
    spec fn keys_are_distinct(self) -> bool {
        distinct_keys(self@)
    }

    /// An empty cache.
    pub fn new() -> (r: Self)
        ensures
            r@.len() == 0,
    {
        RenderCache { entries: Vec::new() }
    }

    /// How many pages are cached.
    pub fn len(&self) -> (r: usize)
        ensures
            r == self@.len(),
            distinct_keys(self@),
    {
        proof {
            use_type_invariant(self);
        }
        self.entries.len()
    }

    /// Forgets every cached page.
    pub fn clear(&mut self)
        ensures
            final(self)@.len() == 0,
    {
        self.entries = Vec::new();
    }

    /// Where `key` is stored.
    fn position(&self, key: &CacheKey) -> (r: Option<usize>)
        ensures
            match r {
                Some(i) => i < self@.len() && self@[i as int].0 == *key,
                None => !has_key(self@, *key),
            },
    {
        let mut i: usize = 0;
        while i < self.entries.len()
            invariant
                i <= self.entries.len(),
                forall|k: int| 0 <= k < i ==> (#[trigger] self@[k]).0 != *key,
            decreases self.entries.len() - i,
        {
            if self.entries[i].key == *key {
                return Some(i);
            }
            i += 1;
        }
        None
    }

    /// A copy of the image cached under `key`.
    pub fn get(&self, key: &CacheKey) -> (r: Option<RenderImage>)
        ensures
            distinct_keys(self@),
            match r {
                Some(image) => lookup(self@, *key) == Some(image@),
                None => lookup(self@, *key) is None,
            },
    {
        proof {
            use_type_invariant(self);
        }
        match self.position(key) {
            Some(i) => {
                let image = self.entries[i].image.clone();
                proof {
                    let c = choose|c: int| 0 <= c < self@.len() && (#[trigger] self@[c]).0 == *key;
                    assert(self@[i as int].0 == self@[c].0);
                    assert(c == i);
                }
                Some(image)
            },
            None => None,
        }
    }

    /// Caches `image` under `key`, then evicts the pages farthest from
    /// `reference_page` until at most `CACHE_CAPACITY` are left. Of pages
    /// equally far, the one whose key was stored first stays longest.
    pub fn put(&mut self, key: CacheKey, image: RenderImage, reference_page: usize)
        ensures
            final(self)@ == evicted(
                stored(old(self)@, key, image@),
                reference_page,
                CACHE_CAPACITY as nat,
            ),
            distinct_keys(old(self)@),
            distinct_keys(final(self)@),
    {
        proof {
            use_type_invariant(&*self);
        }
        let ghost before = self@;
        let ghost merged = stored(before, key, image@);
        let found = self.position(&key);
        let mut entries: Vec<CacheEntry> = Vec::new();
        core::mem::swap(&mut entries, &mut self.entries);
        assert(contents(entries@) == before);
        match found {
            Some(i) => {
                proof {
                    let c = choose|c: int| 0 <= c < before.len() && (#[trigger] before[c]).0 == key;
                    assert(before[i as int].0 == before[c].0);
                    assert(c == i);
                }
                entries.set(i, CacheEntry { key, image });
                assert(contents(entries@) =~= merged);
                assert(distinct_keys(merged)) by {
                    assert forall|a: int, b: int| 0 <= a < b < merged.len() implies (
                    #[trigger] merged[a]).0 != (#[trigger] merged[b]).0 by {
                        assert(merged[a].0 == before[a].0);
                        assert(merged[b].0 == before[b].0);
                    }
                }
            },
            None => {
                entries.push(CacheEntry { key, image });
                assert(contents(entries@) =~= merged);
                assert(distinct_keys(merged)) by {
                    assert forall|a: int, b: int| 0 <= a < b < merged.len() implies (
                    #[trigger] merged[a]).0 != (#[trigger] merged[b]).0 by {
                        if b < before.len() {
                            assert(merged[a] == before[a]);
                            assert(merged[b] == before[b]);
                        } else {
                            assert(merged[a] == before[a]);
                        }
                    }
                }
            },
        }
        while entries.len() > CACHE_CAPACITY
            invariant
                distinct_keys(contents(entries@)),
                evicted(contents(entries@), reference_page, CACHE_CAPACITY as nat) == evicted(
                    merged,
                    reference_page,
                    CACHE_CAPACITY as nat,
                ),
            decreases entries.len(),
        {
            let at: usize = farthest_index(&entries, reference_page);
            let ghost current = contents(entries@);
            proof {
                lemma_farthest_exists(current, reference_page);
                lemma_farthest_unique(
                    current,
                    reference_page,
                    at as int,
                    farthest(current, reference_page),
                );
            }
            entries.remove(at);
            assert(contents(entries@) =~= current.remove(at as int));
            assert(distinct_keys(current.remove(at as int))) by {
                let rest = current.remove(at as int);
                assert forall|a: int, b: int| 0 <= a < b < rest.len() implies (#[trigger] rest[a]).0
                    != (#[trigger] rest[b]).0 by {
                    let sa = if a < at { a } else { a + 1 };
                    let sb = if b < at { b } else { b + 1 };
                    assert(rest[a] == current[sa]);
                    assert(rest[b] == current[sb]);
                }
            }
        }
        self.entries = entries;
    }
}

} // verus!
