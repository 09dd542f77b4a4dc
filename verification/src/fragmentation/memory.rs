//! Storage of fragments under a memory limit, with pools of reusable buffers.
use vstd::prelude::*;
use std::collections::HashMap;
use vstd::std_specs::hash::spec_hash_map_iter;
use vstd::std_specs::iter::IteratorSpec;
use crate::error::FragmentationError;
use crate::values::{FragmentId, FragmentIndex, FragmentTimeout, SessionId, Timestamp};

verus! {

broadcast use vstd::std_specs::hash::group_hash_axioms;

/// Settings of fragment storage.
#[derive(Clone, Debug)]
pub struct MemoryConfig {
    /// Most bytes of fragment data stored at once.
    pub max_memory_usage: usize,
    /// Buffer pools: the buffer size of each and how many buffers it keeps.
    pub pool_sizes: Vec<(usize, usize)>,
    /// How long a stored fragment is kept, in seconds.
    pub fragment_timeout_sec: FragmentTimeout,
    /// Whether buffers are pooled.
    pub enable_pooling: bool,
    /// Whether stored data is marked compressed.
    pub enable_compression: bool,
}

impl Default for MemoryConfig {
    /// 64 MiB of fragments, pools of 64, 256, 1024 and 1400-byte buffers,
    /// fragments kept 30 seconds, pooling on, compression off.
    fn default() -> (r: MemoryConfig)
        ensures
            r.max_memory_usage == 64 * 1024 * 1024,
            r.pool_sizes@ == seq![(64usize, 1000usize), (256usize, 500usize), (1024usize, 200usize), (1400usize, 100usize)],
            r.fragment_timeout_sec.0 == 30,
            r.enable_pooling,
            !r.enable_compression,
    {
        let mut pool_sizes: Vec<(usize, usize)> = Vec::new();
        pool_sizes.push((64, 1000));
        pool_sizes.push((256, 500));
        pool_sizes.push((1024, 200));
        pool_sizes.push((1400, 100));
        MemoryConfig {
            max_memory_usage: 64 * 1024 * 1024,
            pool_sizes,
            fragment_timeout_sec: FragmentTimeout::new(30),
            enable_pooling: true,
            enable_compression: false,
        }
    }
}

/// A pool of cleared buffers of one size, with its counters.
#[derive(Clone, Debug)]
pub struct MemoryPool {
    pub fragment_size: usize,
    pub available_buffers: Vec<Vec<u8>>,
    pub max_size: usize,
    pub current_size: usize,
    pub allocations: u64,
    pub deallocations: u64,
    pub hits: u64,
    pub misses: u64,
}

/// A stored fragment.
#[derive(Clone, Debug)]
pub struct StoredFragment {
    pub data: Vec<u8>,
    pub stored_at: Timestamp,
    pub size: usize,
    pub compressed: bool,
}

/// Counters of one buffer pool.
#[derive(Clone, Copy, Debug)]
pub struct PoolStats {
    pub fragment_size: usize,
    pub current_size: usize,
    pub max_size: usize,
    pub allocations: u64,
    pub deallocations: u64,
    pub hits: u64,
    pub misses: u64,
}

/// Counters of fragment storage; the allocation counts wrap around.
#[derive(Clone, Debug)]
pub struct FragmentMemoryStats {
    pub total_memory_usage: usize,
    pub stored_fragments: usize,
    pub pool_stats: Vec<PoolStats>,
    pub total_allocations: u64,
    pub total_deallocations: u64,
}

/// The number a fragment is stored under: session, fragment identifier and index.
pub open spec fn fragment_key(session_id: u64, fragment_id: u16, fragment_index: u16) -> u128 {
    (session_id as int * 0x1_0000_0000 + fragment_id as int * 0x1_0000 + fragment_index as int) as u128
}

fn fragment_key_of(session_id: SessionId, fragment_id: FragmentId, fragment_index: FragmentIndex) -> (r: u128)
    ensures
        r == fragment_key(session_id.0, fragment_id.0, fragment_index.0),
{
    session_id.0 as u128 * 0x1_0000_0000 + fragment_id.0 as u128 * 0x1_0000 + fragment_index.0 as u128
}

/// What is known of a stored fragment: its number, data, storage time,
/// size and whether it is marked compressed.
pub type EntryView = (u128, Seq<u8>, Timestamp, usize, bool);

pub open spec fn entry_view(e: (u128, StoredFragment)) -> EntryView {
    (e.0, e.1.data@, e.1.stored_at, e.1.size, e.1.compressed)
}

/// The bytes held by the stored fragments.
pub open spec fn usage(entries: Seq<EntryView>) -> int
    decreases entries.len(),
{
    if entries.len() == 0 {
        0
    } else {
        usage(entries.drop_last()) + entries.last().3
    }
}

/// The pools that `sizes` asks for: each size with the count of its last entry.
pub open spec fn pools_asked(sizes: Seq<(usize, usize)>) -> Map<usize, usize>
    decreases sizes.len(),
{
    if sizes.len() == 0 {
        Map::empty()
    } else {
        pools_asked(sizes.drop_last()).insert(sizes.last().0, sizes.last().1)
    }
}

/// The pool a buffer of `size` bytes goes to: the first pool at least that
/// large, else `size` itself.
pub open spec fn best_pool(sizes: Seq<(usize, usize)>, size: usize) -> usize
    decreases sizes.len(),
{
    if sizes.len() == 0 {
        size
    } else if sizes[0].0 >= size {
        sizes[0].0
    } else {
        best_pool(sizes.drop_first(), size)
    }
}

/// Fresh counters of a pool of `size`-byte buffers keeping at most `max` of them.
pub open spec fn fresh_pool(p: MemoryPool, size: usize, max: usize) -> bool {
    &&& p.fragment_size == size
    &&& p.available_buffers@.len() == 0
    &&& p.max_size == max
    &&& p.current_size == 0
    &&& p.allocations == 0 && p.deallocations == 0 && p.hits == 0 && p.misses == 0
}

proof fn lemma_usage_nonneg(entries: Seq<EntryView>)
    ensures
        usage(entries) >= 0,
    decreases entries.len(),
{
    if entries.len() > 0 {
        lemma_usage_nonneg(entries.drop_last());
    }
}

proof fn lemma_usage_concat(a: Seq<EntryView>, b: Seq<EntryView>)
    ensures
        usage(a + b) == usage(a) + usage(b),
    decreases b.len(),
{
    if b.len() > 0 {
        lemma_usage_concat(a, b.drop_last());
        assert((a + b).drop_last() =~= a + b.drop_last());
    } else {
        assert(a + b =~= a);
    }
}

/// A fragment stored at `stored_at` is still kept at `now`: less than the
/// timeout (in seconds) has passed (a time in the future counts as none).
pub open spec fn fragment_live(stored_at: Timestamp, now: Timestamp, timeout_sec: u64) -> bool {
    (if now.0 >= stored_at.0 { now.0 - stored_at.0 } else { 0 }) < timeout_sec as int * 1_000_000_000
}

/// A copy of `v`.
fn copy_bytes(v: &Vec<u8>) -> (r: Vec<u8>)
    ensures
        r@ == v@,
{
    crate::codec::read_bytes(v.as_slice(), 0, v.len())
}

/// The counters that `get_stats` reports for a pool.
pub open spec fn pool_stats_of(p: MemoryPool) -> PoolStats {
    PoolStats {
        fragment_size: p.fragment_size,
        current_size: p.available_buffers@.len() as usize,
        max_size: p.max_size,
        allocations: p.allocations,
        deallocations: p.deallocations,
        hits: p.hits,
        misses: p.misses,
    }
}

/// A copy of a list of pool counters.
fn copy_pool_stats(v: &Vec<PoolStats>) -> (r: Vec<PoolStats>)
    ensures
        r@ == v@,
{
    let mut out: Vec<PoolStats> = Vec::new();
    let mut i: usize = 0;
    while i < v.len()
        invariant
            i <= v@.len(),
            out@ == v@.subrange(0, i as int),
        decreases v@.len() - i,
    {
        out.push(v[i]);
        proof {
            assert(out@ =~= v@.subrange(0, i + 1));
        }
        i = i + 1;
    }
    proof {
        assert(v@.subrange(0, v@.len() as int) =~= v@);
    }
    out
}

/// Calls `Vec::capacity`, which std documents to be at least the length.
#[verifier::external_body]
fn buffer_capacity(v: &Vec<u8>) -> (r: usize)
    ensures
        r >= v@.len(),
{
    v.capacity()
}

/// Which stored fragments a sweep keeps.
pub enum EntryFilter {
    /// Those stored under another number.
    OtherThan(u128),
    /// Those still kept at the time, with the timeout in seconds.
    LiveAt(Timestamp, u64),
}

pub open spec fn kept_by(f: EntryFilter, e: EntryView) -> bool {
    match f {
        EntryFilter::OtherThan(k) => e.0 != k,
        EntryFilter::LiveAt(now, t) => fragment_live(e.2, now, t),
    }
}

/// The entries of `s` that `f` keeps, in order.
pub open spec fn keep(s: Seq<EntryView>, f: EntryFilter) -> Seq<EntryView>
    decreases s.len(),
{
    if s.len() == 0 {
        s
    } else if kept_by(f, s.last()) {
        keep(s.drop_last(), f).push(s.last())
    } else {
        keep(s.drop_last(), f)
    }
}

/// No number occurs twice in `s`.
pub open spec fn keys_unique(s: Seq<EntryView>) -> bool {
    forall|i: int, j: int| 0 <= i < j < s.len() ==> #[trigger] s[i].0 != #[trigger] s[j].0
}

/// Keeping some entries takes nothing new in, keeps numbers unique and holds no more bytes.
proof fn lemma_keep_props(s: Seq<EntryView>, f: EntryFilter)
    ensures
        usage(keep(s, f)) <= usage(s),
        keys_unique(s) ==> keys_unique(keep(s, f)),
        forall|j: int| 0 <= j < keep(s, f).len() ==> exists|i: int| 0 <= i < s.len() && #[trigger] keep(s, f)[j] == s[i],
        forall|j: int| 0 <= j < keep(s, f).len() ==> kept_by(f, #[trigger] keep(s, f)[j]),
    decreases s.len(),
{
    if s.len() > 0 {
        let d = s.drop_last();
        lemma_keep_props(d, f);
        lemma_usage_nonneg(keep(d, f));
        let k = keep(s, f);
        assert forall|j: int| 0 <= j < k.len() implies exists|i: int| 0 <= i < s.len() && #[trigger] k[j] == s[i] by {
            if j < keep(d, f).len() {
                let i = choose|i: int| 0 <= i < d.len() && keep(d, f)[j] == d[i];
                assert(k[j] == s[i]);
            } else {
                assert(k[j] == s[s.len() - 1]);
            }
        }
        if kept_by(f, s.last()) {
            assert(keep(d, f).push(s.last()).drop_last() =~= keep(d, f));
            if keys_unique(s) {
                assert(keys_unique(d));
                assert forall|a: int, b: int| 0 <= a < b < k.len() implies #[trigger] k[a].0 != #[trigger] k[b].0 by {
                    if b == k.len() - 1 {
                        let i = choose|i: int| 0 <= i < d.len() && keep(d, f)[a] == d[i];
                        assert(s[i].0 != s[s.len() - 1].0);
                    }
                }
            }
        }
    }
}

/// A filter that keeps every entry of `s` keeps `s`.
proof fn lemma_keep_everything(s: Seq<EntryView>, f: EntryFilter)
    requires
        forall|i: int| 0 <= i < s.len() ==> kept_by(f, #[trigger] s[i]),
    ensures
        keep(s, f) == s,
    decreases s.len(),
{
    if s.len() > 0 {
        lemma_keep_everything(s.drop_last(), f);
        assert(s.drop_last().push(s.last()) =~= s);
    }
}

/// Removing the one entry stored under `key`, at `i`, leaves the others in order.
proof fn lemma_keep_removes(s: Seq<EntryView>, key: u128, i: int)
    requires
        keys_unique(s),
        0 <= i < s.len(),
        s[i].0 == key,
    ensures
        keep(s, EntryFilter::OtherThan(key)) == s.subrange(0, i) + s.subrange(i + 1, s.len() as int),
    decreases s.len(),
{
    let d = s.drop_last();
    if i == s.len() - 1 {
        assert forall|j: int| 0 <= j < d.len() implies kept_by(EntryFilter::OtherThan(key), #[trigger] d[j]) by {
            assert(s[j].0 != s[i].0);
        }
        lemma_keep_everything(d, EntryFilter::OtherThan(key));
        assert(d =~= s.subrange(0, i) + s.subrange(i + 1, s.len() as int));
    } else {
        assert(s.last().0 != key) by {
            assert(s[i].0 != s[s.len() - 1].0);
        }
        lemma_keep_removes(d, key, i);
        assert((d.subrange(0, i) + d.subrange(i + 1, d.len() as int)).push(s.last()) =~= s.subrange(0, i)
            + s.subrange(i + 1, s.len() as int));
    }
}

/// Stores fragments under a memory limit and lends buffers from pools.
pub struct FragmentMemoryManager {
    memory_pools: HashMap<usize, MemoryPool>,
    fragment_storage: Vec<(u128, StoredFragment)>,
    config: MemoryConfig,
    stats: FragmentMemoryStats,
}

/// The manager `s1` and answer `r` after `s0` stored `data` for a fragment at
/// `now` (see `store_fragment_at`).
pub open spec fn store_outcome(
    s0: FragmentMemoryManager,
    s1: FragmentMemoryManager,
    session_id: SessionId,
    fragment_id: FragmentId,
    fragment_index: FragmentIndex,
    data: Seq<u8>,
    now: Timestamp,
    r: Result<(), FragmentationError>,
) -> bool {
    &&& s1.wf()
    &&& s1.spec_config() == s0.spec_config()
    &&& s1.pools() =~= s0.pools()
    &&& usage(s0.entries()) + data.len() > s0.spec_config().max_memory_usage ==> r
        == Err::<(), FragmentationError>(FragmentationError::ReassemblyMemoryExhausted { session_id })
        && s1.entries() =~= s0.entries()
    &&& usage(s0.entries()) + data.len() <= s0.spec_config().max_memory_usage ==> {
        let k = fragment_key(session_id.0, fragment_id.0, fragment_index.0);
        &&& r is Ok
        &&& s1.entries().last().0 == k
        &&& s1.entries().last().1 == data
        &&& s1.entries().last().3 == data.len()
        &&& s1.entries().last().2 == now
        &&& s1.entries().last().4 == s0.spec_config().enable_compression
        &&& s1.entries().drop_last() =~= keep(s0.entries(), EntryFilter::OtherThan(k))
    }
    &&& s1.spec_stats().stored_fragments == s1.entries().len()
    &&& s1.spec_stats().total_memory_usage == usage(s1.entries())
}

/// The manager `s1` after `s0` dropped the fragments expired at `now`.
pub open spec fn fragments_cleanup_outcome(
    s0: FragmentMemoryManager,
    s1: FragmentMemoryManager,
    now: Timestamp,
) -> bool {
    &&& s1.wf()
    &&& s1.spec_config() == s0.spec_config()
    &&& s1.pools() =~= s0.pools()
    &&& s1.entries() =~= keep(s0.entries(), EntryFilter::LiveAt(now, s0.spec_config().fragment_timeout_sec.0))
    &&& s1.spec_stats().stored_fragments == s1.entries().len()
    &&& s1.spec_stats().total_memory_usage == usage(s1.entries())
    &&& s1.spec_stats().total_allocations == s0.spec_stats().total_allocations
    &&& s1.spec_stats().total_deallocations == s0.spec_stats().total_deallocations
}

/// The manager `s1` after `s0` dropped the fragments expired at `now` and
/// trimmed each pool to half its size.
pub open spec fn optimize_outcome(
    s0: FragmentMemoryManager,
    s1: FragmentMemoryManager,
    now: Timestamp,
) -> bool {
    &&& s1.wf()
    &&& s1.spec_config() == s0.spec_config()
    &&& s1.entries() =~= keep(s0.entries(), EntryFilter::LiveAt(now, s0.spec_config().fragment_timeout_sec.0))
    &&& s1.spec_stats().stored_fragments == s1.entries().len()
    &&& s1.spec_stats().total_memory_usage == usage(s1.entries())
    &&& s1.spec_stats().total_allocations == s0.spec_stats().total_allocations
    &&& s1.spec_stats().total_deallocations == s0.spec_stats().total_deallocations
    &&& s1.pools().dom() == s0.pools().dom()
    &&& forall|k: usize| #[trigger] s0.pools().contains_key(k) ==> {
        let p = s0.pools()[k];
        let q = s1.pools()[k];
        &&& q.available_buffers@.len() == (if p.available_buffers@.len() > p.max_size / 2 {
            (p.max_size / 2) as int
        } else {
            p.available_buffers@.len() as int
        })
        &&& q.max_size == p.max_size
        &&& q.allocations == p.allocations && q.hits == p.hits && q.misses == p.misses
        &&& q.deallocations == p.deallocations
    }
}

impl FragmentMemoryManager {
    pub closed spec fn spec_config(&self) -> MemoryConfig {
        self.config
    }

    /// The buffer pools by buffer size.
    pub closed spec fn pools(&self) -> Map<usize, MemoryPool> {
        self.memory_pools@
    }

    /// The stored fragments with the numbers they are stored under, oldest first.
    pub closed spec fn entries(&self) -> Seq<EntryView> {
        self.fragment_storage@.map_values(|e: (u128, StoredFragment)| entry_view(e))
    }

    pub closed spec fn spec_stats(&self) -> FragmentMemoryStats {
        self.stats
    }

    /// No number is stored twice, the stored bytes are within the limit and
    /// pooled buffers are empty.
    pub open spec fn wf(&self) -> bool {
        &&& keys_unique(self.entries())
        &&& usage(self.entries()) <= self.spec_config().max_memory_usage
        &&& forall|k: usize| #[trigger] self.pools().contains_key(k) ==> forall|i: int|
            0 <= i < self.pools()[k].available_buffers@.len() ==> #[trigger] self.pools()[k].available_buffers@[i]@.len() == 0
    }

    pub fn new() -> (r: FragmentMemoryManager)
        ensures
            r.wf(),
            r.entries().len() == 0,
            r.spec_config().max_memory_usage == 64 * 1024 * 1024,
    {
        Self::with_config(MemoryConfig::default())
    }

    /// A manager with nothing stored; with pooling, one empty pool per size
    /// that the configuration names (the last count named for a size wins).
    pub fn with_config(config: MemoryConfig) -> (r: FragmentMemoryManager)
        ensures
            r.wf(),
            r.entries().len() == 0,
            r.spec_config() == config,
            r.pools().dom() == (if config.enable_pooling {
                pools_asked(config.pool_sizes@).dom()
            } else {
                Set::<usize>::empty()
            }),
            forall|k: usize| #[trigger] r.pools().contains_key(k) ==> fresh_pool(
                r.pools()[k],
                k,
                pools_asked(config.pool_sizes@)[k],
            ),
            r.spec_stats().total_allocations == 0,
            r.spec_stats().total_deallocations == 0,
    {
        let mut memory_pools: HashMap<usize, MemoryPool> = HashMap::new();
        if config.enable_pooling {
            let n = config.pool_sizes.len();
            let mut i: usize = 0;
            while i < n
                invariant
                    n == config.pool_sizes@.len(),
                    i <= n,
                    memory_pools@.dom() == pools_asked(config.pool_sizes@.subrange(0, i as int)).dom(),
                    forall|k: usize| #[trigger] memory_pools@.contains_key(k) ==> fresh_pool(
                        memory_pools@[k],
                        k,
                        pools_asked(config.pool_sizes@.subrange(0, i as int))[k],
                    ),
                decreases n - i,
            {
                let (fragment_size, pool_size) = config.pool_sizes[i];
                memory_pools.insert(
                    fragment_size,
                    MemoryPool {
                        fragment_size,
                        available_buffers: Vec::new(),
                        max_size: pool_size,
                        current_size: 0,
                        allocations: 0,
                        deallocations: 0,
                        hits: 0,
                        misses: 0,
                    },
                );
                proof {
                    assert(config.pool_sizes@.subrange(0, i + 1).drop_last() =~= config.pool_sizes@.subrange(0, i as int));
                }
                i = i + 1;
            }
            proof {
                assert(config.pool_sizes@.subrange(0, n as int) =~= config.pool_sizes@);
            }
        }
        FragmentMemoryManager {
            memory_pools,
            fragment_storage: Vec::new(),
            config,
            stats: FragmentMemoryStats {
                total_memory_usage: 0,
                stored_fragments: 0,
                pool_stats: Vec::new(),
                total_allocations: 0,
                total_deallocations: 0,
            },
        }
    }

    /// The first configured pool size at least `size`, else `size`.
    fn find_best_pool_size(&self, size: usize) -> (r: usize)
        ensures
            r == best_pool(self.spec_config().pool_sizes@, size),
    {
        let n = self.config.pool_sizes.len();
        let mut i: usize = 0;
        proof {
            assert(self.config.pool_sizes@.subrange(0, n as int) =~= self.config.pool_sizes@);
        }
        while i < n
            invariant
                n == self.config.pool_sizes@.len(),
                i <= n,
                best_pool(self.config.pool_sizes@, size) == best_pool(
                    self.config.pool_sizes@.subrange(i as int, n as int),
                    size,
                ),
            decreases n - i,
        {
            let (pool_size, _) = self.config.pool_sizes[i];
            proof {
                let rest = self.config.pool_sizes@.subrange(i as int, n as int);
                assert(rest[0] == self.config.pool_sizes@[i as int]);
                assert(rest.drop_first() =~= self.config.pool_sizes@.subrange(i + 1, n as int));
            }
            if pool_size >= size {
                return pool_size;
            }
            i = i + 1;
        }
        proof {
            assert(self.config.pool_sizes@.subrange(n as int, n as int).len() == 0);
        }
        size
    }

    /// An empty buffer for `size` bytes, taken from the best pool when it has
    /// one. The pool counts the allocation and whether it was a hit.
    pub fn allocate_buffer(&mut self, size: usize) -> (r: Vec<u8>)
        requires
            old(self).wf(),
        ensures
            final(self).wf(),
            r@.len() == 0,
            final(self).spec_config() == old(self).spec_config(),
            final(self).entries() == old(self).entries(),
            final(self).pools().dom() == old(self).pools().dom(),
            final(self).spec_stats().total_allocations == vstd::wrapping::u64_specs::wrapping_add(
                old(self).spec_stats().total_allocations,
                1,
            ),
            ({
                let k = best_pool(old(self).spec_config().pool_sizes@, size);
                old(self).spec_config().enable_pooling && old(self).pools().contains_key(k) ==> {
                    let p = old(self).pools()[k];
                    let q = final(self).pools()[k];
                    &&& q.allocations == vstd::wrapping::u64_specs::wrapping_add(p.allocations, 1)
                    &&& p.available_buffers@.len() > 0 ==> q.hits == vstd::wrapping::u64_specs::wrapping_add(p.hits, 1)
                        && q.misses == p.misses && q.available_buffers@ == p.available_buffers@.drop_last()
                    &&& p.available_buffers@.len() == 0 ==> q.misses == vstd::wrapping::u64_specs::wrapping_add(p.misses, 1)
                        && q.hits == p.hits && q.available_buffers@ == p.available_buffers@
                }
            }),
    {
        self.stats.total_allocations = self.stats.total_allocations.wrapping_add(1);
        assert(self.pools() == old(self).pools());
        if !self.config.enable_pooling {
            return Vec::new();
        }
        let pool_size = self.find_best_pool_size(size);
        if let Some(mut pool) = self.memory_pools.remove(&pool_size) {
            pool.allocations = pool.allocations.wrapping_add(1);
            let taken = pool.available_buffers.pop();
            match taken {
                Some(buffer) => {
                    pool.hits = pool.hits.wrapping_add(1);
                    self.memory_pools.insert(pool_size, pool);
                    return buffer;
                },
                None => {
                    pool.misses = pool.misses.wrapping_add(1);
                    self.memory_pools.insert(pool_size, pool);
                },
            }
        }
        Vec::new()
    }

    /// Returns a buffer to the pool for its capacity, cleared, while the pool
    /// has room; the pool counts the return either way.
    pub fn deallocate_buffer(&mut self, buffer: Vec<u8>)
        requires
            old(self).wf(),
        ensures
            final(self).wf(),
            final(self).spec_config() == old(self).spec_config(),
            final(self).entries() == old(self).entries(),
            final(self).pools().dom() == old(self).pools().dom(),
            final(self).spec_stats().total_deallocations == vstd::wrapping::u64_specs::wrapping_add(
                old(self).spec_stats().total_deallocations,
                1,
            ),
            forall|k: usize| #[trigger] old(self).pools().contains_key(k) ==> {
                let p = old(self).pools()[k];
                let q = final(self).pools()[k];
                ||| q.allocations == p.allocations && q.hits == p.hits && q.misses == p.misses
                    && q.max_size == p.max_size && q.deallocations == p.deallocations
                    && q.available_buffers@ == p.available_buffers@
                ||| old(self).spec_config().enable_pooling && q.allocations == p.allocations && q.hits == p.hits
                    && q.misses == p.misses && q.max_size == p.max_size
                    && q.deallocations == vstd::wrapping::u64_specs::wrapping_add(p.deallocations, 1)
                    && q.available_buffers@.len() == (if p.available_buffers@.len() < p.max_size {
                    (p.available_buffers@.len() + 1) as int
                } else {
                    p.available_buffers@.len() as int
                })
            },
    {
        if !self.config.enable_pooling {
            self.stats.total_deallocations = self.stats.total_deallocations.wrapping_add(1);
            assert(self.pools() == old(self).pools());
            return;
        }
        let mut buffer = buffer;
        let capacity = buffer_capacity(&buffer);
        let pool_size = self.find_best_pool_size(capacity);
        buffer.truncate(0);
        if let Some(mut pool) = self.memory_pools.remove(&pool_size) {
            assert(old(self).pools().contains_key(pool_size));
            assert(forall|i: int| 0 <= i < pool.available_buffers@.len() ==> #[trigger] pool.available_buffers@[i]@.len() == 0);
            pool.deallocations = pool.deallocations.wrapping_add(1);
            if pool.available_buffers.len() < pool.max_size {
                pool.available_buffers.push(buffer);
            }
            assert(forall|i: int| 0 <= i < pool.available_buffers@.len() ==> #[trigger] pool.available_buffers@[i]@.len() == 0);
            self.memory_pools.insert(pool_size, pool);
            assert forall|k: usize| #[trigger] self.pools().contains_key(k) implies forall|i: int|
                0 <= i < self.pools()[k].available_buffers@.len() ==> #[trigger] self.pools()[k].available_buffers@[i]@.len() == 0 by {
                if k != pool_size {
                    assert(self.pools()[k] == old(self).pools()[k]);
                }
            }
        } else {
            assert(self.pools() =~= old(self).pools());
        }
        self.stats.total_deallocations = self.stats.total_deallocations.wrapping_add(1);
    }

    /// The bytes held by the stored fragments.
    fn get_current_memory_usage(&self) -> (r: usize)
        requires
            self.wf(),
        ensures
            r == usage(self.entries()),
    {
        let n = self.fragment_storage.len();
        let ghost es = self.entries();
        let mut total: usize = 0;
        let mut i: usize = 0;
        while i < n
            invariant
                n == self.fragment_storage@.len(),
                es == self.entries(),
                es.len() == n,
                i <= n,
                total == usage(es.subrange(0, i as int)),
                usage(es) <= self.config.max_memory_usage,
            decreases n - i,
        {
            proof {
                assert(es.subrange(0, i + 1).drop_last() =~= es.subrange(0, i as int));
                lemma_usage_concat(es.subrange(0, i + 1), es.subrange(i + 1, n as int));
                assert(es.subrange(0, i + 1) + es.subrange(i + 1, n as int) =~= es);
                lemma_usage_nonneg(es.subrange(i + 1, n as int));
                assert(es[i as int] == entry_view(self.fragment_storage@[i as int]));
            }
            total = total + self.fragment_storage[i].1.size;
            i = i + 1;
        }
        proof {
            assert(es.subrange(0, n as int) =~= es);
        }
        total
    }

    /// Stores `data` for a fragment received at `now`, replacing what was
    /// stored for the same fragment, unless the stored bytes and `data` would
    /// exceed the memory limit.
    pub fn store_fragment_at(
        &mut self,
        session_id: SessionId,
        fragment_id: FragmentId,
        fragment_index: FragmentIndex,
        data: Vec<u8>,
        now: Timestamp,
    ) -> (r: Result<(), FragmentationError>)
        requires
            old(self).wf(),
        ensures
            store_outcome(*old(self), *final(self), session_id, fragment_id, fragment_index, data@, now, r),
    {
        let current_usage = self.get_current_memory_usage();
        if data.len() > self.config.max_memory_usage - current_usage {
            self.update_storage_stats();
            return Err(FragmentationError::ReassemblyMemoryExhausted { session_id });
        }
        let key = fragment_key_of(session_id, fragment_id, fragment_index);
        self.remove_entry(key);
        let size = data.len();
        let stored = StoredFragment {
            size,
            data: if self.config.enable_compression { self.compress_data(data) } else { data },
            stored_at: now,
            compressed: self.config.enable_compression,
        };
        let ghost before = self.entries();
        self.fragment_storage.push((key, stored));
        proof {
            assert(self.entries().drop_last() =~= before);
            lemma_keep_props(old(self).entries(), EntryFilter::OtherThan(key));
            let s2 = self.entries();
            let kk = keep(old(self).entries(), EntryFilter::OtherThan(key));
            assert(before == kk);
            assert(s2[s2.len() - 1].0 == key);
            assert forall|a: int, b: int| 0 <= a < b < s2.len() implies #[trigger] s2[a].0 != #[trigger] s2[b].0 by {
                assert(s2[a] == kk[a]);
                assert(kept_by(EntryFilter::OtherThan(key), kk[a]));
                if b < s2.len() - 1 {
                    assert(s2[b] == kk[b]);
                    assert(kk[a].0 != kk[b].0);
                }
            }
            lemma_usage_nonneg(before);
            assert(self.pools() == old(self).pools());
        }
        self.update_storage_stats();
        Ok(())
    }

    /// Stores `data` for a fragment at the current time, as `store_fragment_at` does.
    pub fn store_fragment(
        &mut self,
        session_id: SessionId,
        fragment_id: FragmentId,
        fragment_index: FragmentIndex,
        data: Vec<u8>,
    ) -> (r: Result<(), FragmentationError>)
        requires
            old(self).wf(),
        ensures
            final(self).wf(),
            exists|now: Timestamp| store_outcome(*old(self), *final(self), session_id, fragment_id, fragment_index, data@, now, r),
    {
        let now = Timestamp::now();
        self.store_fragment_at(session_id, fragment_id, fragment_index, data, now)
    }

    /// Removes what is stored under `key`, if anything; the rest keeps its order.
    fn remove_entry(&mut self, key: u128) -> (r: bool)
        requires
            old(self).wf(),
        ensures
            final(self).wf(),
            final(self).spec_config() == old(self).spec_config(),
            final(self).pools() == old(self).pools(),
            final(self).spec_stats() == old(self).spec_stats(),
            final(self).entries() == keep(old(self).entries(), EntryFilter::OtherThan(key)),
            r == exists|i: int| 0 <= i < old(self).entries().len() && old(self).entries()[i].0 == key,
    {
        let n = self.fragment_storage.len();
        let ghost es = self.entries();
        let mut i: usize = 0;
        while i < n
            invariant
                n == self.fragment_storage@.len(),
                es == self.entries(),
                es == old(self).entries(),
                es.len() == n,
                i <= n,
                keys_unique(es),
                usage(es) <= self.config.max_memory_usage,
                old(self).wf(),
                self.fragment_storage@ == old(self).fragment_storage@,
                self.config == old(self).config,
                self.memory_pools@ == old(self).memory_pools@,
                self.stats == old(self).stats,
                forall|j: int| 0 <= j < i ==> es[j].0 != key,
            decreases n - i,
        {
            proof {
                assert(es[i as int] == entry_view(self.fragment_storage@[i as int]));
            }
            if self.fragment_storage[i].0 == key {
                let ghost v = self.fragment_storage@;
                self.fragment_storage.remove(i);
                proof {
                    lemma_keep_removes(es, key, i as int);
                    let now_es = self.entries();
                    assert(now_es =~= es.subrange(0, i as int) + es.subrange(i + 1, n as int));
                    lemma_usage_concat(es.subrange(0, i as int), es.subrange(i + 1, n as int));
                    lemma_usage_concat(es.subrange(0, i as int), es.subrange(i as int, n as int));
                    assert(es =~= es.subrange(0, i as int) + es.subrange(i as int, n as int));
                    assert(es.subrange(i as int, n as int) =~= seq![es[i as int]] + es.subrange(i + 1, n as int));
                    lemma_usage_concat(seq![es[i as int]], es.subrange(i + 1, n as int));
                    assert(seq![es[i as int]].drop_last() =~= Seq::<EntryView>::empty());
                    lemma_usage_nonneg(seq![es[i as int]].drop_last());
                    assert forall|a: int, b: int|
                        0 <= a < b < now_es.len() implies #[trigger] now_es[a].0 != #[trigger] now_es[b].0 by {
                        let a2 = if a < i { a } else { a + 1 };
                        let b2 = if b < i { b } else { b + 1 };
                        assert(es[a2].0 != es[b2].0);
                    }
                    assert(self.pools() == old(self).pools());
                    assert(keys_unique(now_es));
                    assert(usage(now_es) <= self.config.max_memory_usage);
                    assert(self.wf());
                }
                return true;
            }
            i = i + 1;
        }
        proof {
            lemma_keep_everything(es, EntryFilter::OtherThan(key));
            assert(self.pools() == old(self).pools());
            assert(self.wf());
        }
        false
    }

    /// The data stored for a fragment, if any.
    pub fn retrieve_fragment(
        &self,
        session_id: SessionId,
        fragment_id: FragmentId,
        fragment_index: FragmentIndex,
    ) -> (r: Option<Vec<u8>>)
        requires
            self.wf(),
        ensures
            r is None <==> (forall|i: int|
                0 <= i < self.entries().len() ==> self.entries()[i].0 != fragment_key(
                    session_id.0,
                    fragment_id.0,
                    fragment_index.0,
                )),
            r matches Some(d) ==> (exists|i: int|
                0 <= i < self.entries().len() && self.entries()[i].0 == fragment_key(
                    session_id.0,
                    fragment_id.0,
                    fragment_index.0,
                ) && d@ == self.entries()[i].1),
    {
        let key = fragment_key_of(session_id, fragment_id, fragment_index);
        let n = self.fragment_storage.len();
        let ghost es = self.entries();
        let mut i: usize = 0;
        while i < n
            invariant
                n == self.fragment_storage@.len(),
                es == self.entries(),
                es.len() == n,
                i <= n,
                key == fragment_key(session_id.0, fragment_id.0, fragment_index.0),
                forall|j: int| 0 <= j < i ==> es[j].0 != key,
            decreases n - i,
        {
            proof {
                assert(es[i as int] == entry_view(self.fragment_storage@[i as int]));
            }
            if self.fragment_storage[i].0 == key {
                let stored = &self.fragment_storage[i].1;
                if stored.compressed {
                    let d = self.decompress_data(copy_bytes(&stored.data));
                    proof {
                        assert(es[i as int].0 == key && d@ == es[i as int].1);
                        assert(exists|j: int| 0 <= j < self.entries().len() && self.entries()[j].0 == key && d@ == self.entries()[j].1);
                        assert(!(forall|j: int| 0 <= j < self.entries().len() ==> self.entries()[j].0 != key));

                    }
                    return Some(d);
                } else {
                    let d = copy_bytes(&stored.data);
                    proof {
                        assert(es[i as int].0 == key && d@ == es[i as int].1);
                        assert(exists|j: int| 0 <= j < self.entries().len() && self.entries()[j].0 == key && d@ == self.entries()[j].1);
                        assert(!(forall|j: int| 0 <= j < self.entries().len() ==> self.entries()[j].0 != key));

                    }
                    return Some(d);
                }
            }
            i = i + 1;
        }
        assert(forall|j: int| 0 <= j < es.len() ==> es[j].0 != key);
        assert(key == fragment_key(session_id.0, fragment_id.0, fragment_index.0));
        assert(forall|j: int| 0 <= j < self.entries().len() ==> self.entries()[j].0 != key);
        None
    }

    /// Removes what is stored for a fragment; tells whether anything was.
    pub fn remove_fragment(
        &mut self,
        session_id: SessionId,
        fragment_id: FragmentId,
        fragment_index: FragmentIndex,
    ) -> (r: bool)
        requires
            old(self).wf(),
        ensures
            final(self).wf(),
            ({
                let k = fragment_key(session_id.0, fragment_id.0, fragment_index.0);
                &&& final(self).entries() == keep(old(self).entries(), EntryFilter::OtherThan(k))
                &&& r == exists|i: int| 0 <= i < old(self).entries().len() && old(self).entries()[i].0 == k
            }),
    {
        let key = fragment_key_of(session_id, fragment_id, fragment_index);
        let removed = self.remove_entry(key);
        if removed {
            self.update_storage_stats();
        }
        removed
    }

    /// Drops, at `now`, the fragments stored for the fragment timeout or longer.
    pub fn cleanup_expired_fragments_at(&mut self, now: Timestamp)
        requires
            old(self).wf(),
        ensures
            fragments_cleanup_outcome(*old(self), *final(self), now),
    {
        let timeout = self.config.fragment_timeout_sec.as_u64();
        let n = self.fragment_storage.len();
        let ghost es = self.entries();
        let ghost f = EntryFilter::LiveAt(now, timeout);
        let mut kept: Vec<(u128, StoredFragment)> = Vec::new();
        let mut i: usize = 0;
        while i < n
            invariant
                n == self.fragment_storage@.len(),
                es == self.entries(),
                es.len() == n,
                i <= n,
                timeout == self.config.fragment_timeout_sec.0,
                f == EntryFilter::LiveAt(now, timeout),
                keys_unique(es),
                usage(es) <= self.config.max_memory_usage,
                self.config == old(self).config,
                self.memory_pools@ == old(self).memory_pools@,
                es == old(self).entries(),
                kept@.map_values(|e: (u128, StoredFragment)| entry_view(e)) == keep(es.subrange(0, i as int), f),
            decreases n - i,
        {
            let e = &self.fragment_storage[i];
            let elapsed: u64 = if now.0 >= e.1.stored_at.0 { now.0 - e.1.stored_at.0 } else { 0 };
            proof {
                assert(es.subrange(0, i + 1).drop_last() =~= es.subrange(0, i as int));
                assert(es[i as int] == entry_view(self.fragment_storage@[i as int]));
            }
            if (elapsed as u128) < (timeout as u128) * 1_000_000_000 {
                let copy = StoredFragment {
                    data: copy_bytes(&e.1.data),
                    stored_at: e.1.stored_at,
                    size: e.1.size,
                    compressed: e.1.compressed,
                };
                let ghost before = kept@;
                kept.push((e.0, copy));
                proof {
                    assert(kept@.map_values(|e: (u128, StoredFragment)| entry_view(e)) =~= before.map_values(
                        |e: (u128, StoredFragment)| entry_view(e),
                    ).push(es[i as int]));
                }
            }
            i = i + 1;
        }
        proof {
            assert(es.subrange(0, n as int) =~= es);
            lemma_keep_props(es, f);
        }
        self.fragment_storage = kept;
        proof {
            assert(self.pools() == old(self).pools());
        }
        self.update_storage_stats();
    }

    /// Drops the fragments stored for the fragment timeout or longer, at the current time.
    pub fn cleanup_expired_fragments(&mut self)
        requires
            old(self).wf(),
        ensures
            final(self).wf(),
            exists|now: Timestamp| fragments_cleanup_outcome(*old(self), *final(self), now),
    {
        let now = Timestamp::now();
        self.cleanup_expired_fragments_at(now);
    }

    /// Stored data is kept as it is: compression is a pass-through.
    fn compress_data(&self, data: Vec<u8>) -> (r: Vec<u8>)
        ensures
            r@ == data@,
    {
        data
    }

    /// Stored data is read as it is: decompression is a pass-through.
    fn decompress_data(&self, data: Vec<u8>) -> (r: Vec<u8>)
        ensures
            r@ == data@,
    {
        data
    }

    /// Brings the storage counters up to date.
    fn update_storage_stats(&mut self)
        requires
            old(self).wf(),
        ensures
            final(self).wf(),
            final(self).spec_config() == old(self).spec_config(),
            final(self).pools() == old(self).pools(),
            final(self).entries() == old(self).entries(),
            final(self).spec_stats().stored_fragments == old(self).entries().len(),
            final(self).spec_stats().total_memory_usage == usage(old(self).entries()),
            final(self).spec_stats().total_allocations == old(self).spec_stats().total_allocations,
            final(self).spec_stats().total_deallocations == old(self).spec_stats().total_deallocations,
    {
        let total = self.get_current_memory_usage();
        self.stats.total_memory_usage = total;
        self.stats.stored_fragments = self.fragment_storage.len();
        assert(self.pools() == old(self).pools());
        assert(self.entries() == old(self).entries());
    }

    /// The storage counters and, for each pool, its counters; the pools come
    /// in no particular order.
    pub fn get_stats(&mut self) -> (r: FragmentMemoryStats)
        requires
            old(self).wf(),
        ensures
            final(self).wf(),
            final(self).spec_config() == old(self).spec_config(),
            final(self).pools() == old(self).pools(),
            final(self).entries() == old(self).entries(),
            r.pool_stats@.len() == old(self).pools().len(),
            forall|k: usize| #[trigger] old(self).pools().contains_key(k) ==> exists|i: int|
                0 <= i < r.pool_stats@.len() && r.pool_stats@[i] == pool_stats_of(old(self).pools()[k]),
            r.total_memory_usage == old(self).spec_stats().total_memory_usage,
            r.stored_fragments == old(self).spec_stats().stored_fragments,
            r.total_allocations == old(self).spec_stats().total_allocations,
            r.total_deallocations == old(self).spec_stats().total_deallocations,
    {
        let ghost m = self.memory_pools@;
        let mut pool_stats: Vec<PoolStats> = Vec::new();
        for (k, pool) in it: self.memory_pools.iter()
            invariant
                m == self.memory_pools@,
                it.seq() == spec_hash_map_iter(&self.memory_pools).remaining(),
                pool_stats@.len() == it.index(),
                forall|j: int| 0 <= j < it.index() ==> #[trigger] pool_stats@[j] == pool_stats_of(*it.seq()[j].1),
        {
            pool_stats.push(PoolStats {
                fragment_size: pool.fragment_size,
                current_size: pool.available_buffers.len(),
                max_size: pool.max_size,
                allocations: pool.allocations,
                deallocations: pool.deallocations,
                hits: pool.hits,
                misses: pool.misses,
            });
        }
        let ghost ps = pool_stats@;
        self.stats.pool_stats = pool_stats;
        let r = FragmentMemoryStats {
            total_memory_usage: self.stats.total_memory_usage,
            stored_fragments: self.stats.stored_fragments,
            pool_stats: copy_pool_stats(&self.stats.pool_stats),
            total_allocations: self.stats.total_allocations,
            total_deallocations: self.stats.total_deallocations,
        };
        proof {
            assert(self.pools() == old(self).pools());
            assert(m == old(self).pools());
            assert(r.pool_stats@ == ps);
            let v = spec_hash_map_iter(&self.memory_pools).remaining();
            assert(m.dom().len() == m.len());
            assert forall|k: usize| #[trigger] old(self).pools().contains_key(k) implies exists|i: int|
                0 <= i < r.pool_stats@.len() && r.pool_stats@[i] == pool_stats_of(old(self).pools()[k]) by {
                assert(m.contains_key(k));
                assert(v.contains((&k, &m[k])));
                let i = choose|i: int| 0 <= i < v.len() && v[i] == (&k, &m[k]);
                assert(r.pool_stats@[i] == pool_stats_of(m[k]));
            }
        }
        r
    }

    /// Drops, at `now`, the expired fragments, then trims each pool to half its size.
    pub fn optimize_memory_at(&mut self, now: Timestamp)
        requires
            old(self).wf(),
        ensures
            optimize_outcome(*old(self), *final(self), now),
    {
        self.cleanup_expired_fragments_at(now);
        let ghost m = self.memory_pools@;
        let ghost mid = self.fragment_storage@;
        let ghost st = self.stats;
        assert(m == old(self).pools());
        let mut keys: Vec<usize> = Vec::new();
        for (k, pool) in it: self.memory_pools.iter()
            invariant
                m == self.memory_pools@,
                it.seq() == spec_hash_map_iter(&self.memory_pools).remaining(),
                keys@.len() == it.index(),
                forall|j: int| 0 <= j < it.index() ==> #[trigger] keys@[j] == *it.seq()[j].0,
        {
            keys.push(*k);
        }
        proof {
            let v = spec_hash_map_iter(&self.memory_pools).remaining();
            assert forall|k: usize| #[trigger] m.contains_key(k) implies keys@.contains(k) by {
                assert(v.contains((&k, &m[k])));
                let i = choose|i: int| 0 <= i < v.len() && v[i] == (&k, &m[k]);
                assert(keys@[i] == k);
            }
            assert forall|j: int| 0 <= j < keys@.len() implies m.contains_key(#[trigger] keys@[j]) by {
                assert(m.contains_key(*v[j].0));
            }
        }
        let n = keys.len();
        let mut i: usize = 0;
        let ghost trimmed: Set<usize> = Set::empty();
        while i < n
            invariant
                n == keys@.len(),
                i <= n,
                self.memory_pools@.dom() == m.dom(),
                forall|j: int| 0 <= j < n ==> m.contains_key(#[trigger] keys@[j]),
                forall|k: usize| #[trigger] m.contains_key(k) ==> keys@.contains(k),
                forall|k: usize| #[trigger] m.contains_key(k) ==> {
                    let p = m[k];
                    let q = self.memory_pools@[k];
                    &&& (exists|j: int| 0 <= j < i && keys@[j] == k) ==> q.available_buffers@.len() == (if p.available_buffers@.len() > p.max_size / 2 {
                        (p.max_size / 2) as int
                    } else {
                        p.available_buffers@.len() as int
                    })
                    &&& !(exists|j: int| 0 <= j < i && keys@[j] == k) ==> q.available_buffers@ == p.available_buffers@
                    &&& forall|b: int| 0 <= b < q.available_buffers@.len() ==> #[trigger] q.available_buffers@[b]@.len() == 0
                    &&& q.max_size == p.max_size
                    &&& q.allocations == p.allocations && q.hits == p.hits && q.misses == p.misses
                    &&& q.deallocations == p.deallocations
                },
                forall|k: usize| #[trigger] m.contains_key(k) ==> forall|b: int|
                    0 <= b < m[k].available_buffers@.len() ==> #[trigger] m[k].available_buffers@[b]@.len() == 0,
                self.fragment_storage@ == mid,
                self.stats == st,
                self.config == old(self).config,
                keys_unique(mid.map_values(|e: (u128, StoredFragment)| entry_view(e))),
                usage(mid.map_values(|e: (u128, StoredFragment)| entry_view(e))) <= self.config.max_memory_usage,
                mid.map_values(|e: (u128, StoredFragment)| entry_view(e)) == keep(old(self).entries(), EntryFilter::LiveAt(now, old(self).spec_config().fragment_timeout_sec.0)),
            decreases n - i,
        {
            let k = keys[i];
            if let Some(mut pool) = self.memory_pools.remove(&k) {
                let target_size = pool.max_size / 2;
                if pool.available_buffers.len() > target_size {
                    pool.available_buffers.truncate(target_size);
                }
                self.memory_pools.insert(k, pool);
            }
            i = i + 1;
        }
    }

    /// Drops the expired fragments and trims the pools, at the current time.
    pub fn optimize_memory(&mut self)
        requires
            old(self).wf(),
        ensures
            final(self).wf(),
            exists|now: Timestamp| optimize_outcome(*old(self), *final(self), now),
    {
        let now = Timestamp::now();
        self.optimize_memory_at(now);
    }

    /// The counters of each pool, in no particular order.
    pub fn get_pool_info(&mut self) -> (r: Vec<PoolStats>)
        requires
            old(self).wf(),
        ensures
            final(self).wf(),
            r@.len() == old(self).pools().len(),
            forall|k: usize| #[trigger] old(self).pools().contains_key(k) ==> exists|i: int|
                0 <= i < r@.len() && r@[i] == pool_stats_of(old(self).pools()[k]),
    {
        self.get_stats().pool_stats
    }
}
impl Default for FragmentMemoryManager {
    /// The same manager as `new` gives.
    fn default() -> (r: FragmentMemoryManager)
        ensures
            r.wf(),
            r.entries().len() == 0,
    {
        FragmentMemoryManager::new()
    }
}


/// A read gives back the last write: when the newest stored fragment is
/// stored under `k`, it is the only one under `k`, so retrieving `k` finds it.
pub proof fn lemma_stored_fragment_is_found(m: FragmentMemoryManager, k: u128)
    requires
        m.wf(),
        m.entries().len() > 0,
        m.entries().last().0 == k,
    ensures
        forall|i: int| 0 <= i < m.entries().len() && #[trigger] m.entries()[i].0 == k ==> m.entries()[i]
            == m.entries().last(),
{
    assert forall|i: int| 0 <= i < m.entries().len() && #[trigger] m.entries()[i].0 == k implies m.entries()[i]
        == m.entries().last() by {
        if i < m.entries().len() - 1 {
            assert(m.entries()[i].0 != m.entries()[m.entries().len() - 1].0);
        }
    }
}

} // verus!
