//! TTL-bounded DNS cache with jittered expiry and random address selection.
//! The cache itself is a sequential value: the caller performs the actual
//! lookup when [`SimpleCachingDnsResolver::try_find`] misses and hands the
//! addresses back through [`SimpleCachingDnsResolver::resolve_with`],
//! together with the clock reading `now_ms` (milliseconds from any fixed
//! origin).
use crate::addr::SockAddrV4;
use crate::rng::rand_below;
use vstd::prelude::*;

verus! {

/// Why a lookup result could not be cached.
#[derive(Clone, Copy, Debug, PartialEq, Eq, Structural)]
pub enum ResolveError {
    /// The lookup returned no address at all.
    AddrNotAvailable,
}

/// One cached resolution: the addresses a target resolved to, kept until
/// `expiry_ms` (plus a per-read random jitter below [`JITTER_BOUND_MS`]).
pub struct CacheEntry {
    pub key: String,
    pub addrs: Vec<SockAddrV4>,
    pub expiry_ms: u64,
}

/// A read past expiry may still hit for up to this many milliseconds: the
/// jitter desynchronises expiry waves when many connections share a host.
pub const JITTER_BOUND_MS: u64 = 5000;

/// Index of the first entry whose key reads `key`, searching from `from`.
pub open spec fn find_key(c: Seq<CacheEntry>, key: Seq<char>, from: int) -> Option<int>
    decreases c.len() - from,
{
    if from < 0 || from >= c.len() {
        None
    } else if c[from].key@ == key {
        Some(from)
    } else {
        find_key(c, key, from + 1)
    }
}

/// Index of the entry that caches `key`, if one does.
pub open spec fn spec_lookup(c: Seq<CacheEntry>, key: Seq<char>) -> Option<int> {
    find_key(c, key, 0)
}

pub proof fn lemma_find_key_some(c: Seq<CacheEntry>, key: Seq<char>, from: int)
    requires
        find_key(c, key, from) is Some,
    ensures
        from <= find_key(c, key, from).unwrap() < c.len(),
        c[find_key(c, key, from).unwrap()].key@ == key,
        forall|j: int| from <= j < find_key(c, key, from).unwrap() ==> (#[trigger] c[j]).key@
            != key,
    decreases c.len() - from,
{
    if from < 0 || from >= c.len() {
    } else if c[from].key@ == key {
    } else {
        lemma_find_key_some(c, key, from + 1);
    }
}

pub proof fn lemma_find_key_none(c: Seq<CacheEntry>, key: Seq<char>, from: int)
    requires
        find_key(c, key, from) is None,
        0 <= from,
    ensures
        forall|j: int| from <= j < c.len() ==> (#[trigger] c[j]).key@ != key,
    decreases c.len() - from,
{
    if from < c.len() {
        lemma_find_key_none(c, key, from + 1);
    }
}

/// Hostname-to-address cache with one entry per target.
pub struct SimpleCachingDnsResolver {
    pub cache: Vec<CacheEntry>,
    pub ttl_ms: u64,
}

impl SimpleCachingDnsResolver {
    /// Every cached key is unique and every cached set is non-empty.
    pub open spec fn wf(&self) -> bool {
        &&& forall|i: int|
            0 <= i < self.cache@.len() ==> (#[trigger] self.cache@[i]).addrs@.len() > 0
        &&& forall|i: int, j: int|
            0 <= i < j < self.cache@.len() ==> (#[trigger] self.cache@[i]).key@ != (
            #[trigger] self.cache@[j]).key@
    }

    /// An empty cache whose positive entries will live `ttl_ms`.
    pub fn new(ttl_ms: u64) -> (r: Self)
        ensures
            r.wf(),
            r.ttl_ms == ttl_ms,
            r.cache@.len() == 0,
    {
        SimpleCachingDnsResolver { cache: Vec::new(), ttl_ms }
    }

    /// Index of the entry caching `target`, if one does.
    fn find_entry(&self, target: &str) -> (r: Option<usize>)
        ensures
            spec_lookup(self.cache@, target@) == match r {
                Some(i) => Some(i as int),
                None => None::<int>,
            },
            r matches Some(i) ==> i < self.cache@.len(),
    {
        let key = target.to_owned();
        let n = self.cache.len();
        let mut i: usize = 0;
        while i < n
            invariant
                0 <= i <= n == self.cache@.len(),
                key@ == target@,
                find_key(self.cache@, target@, 0) == find_key(self.cache@, target@, i as int),
            decreases n - i,
        {
            if self.cache[i].key == key {
                return Some(i);
            }
            i = i + 1;
        }
        None
    }

    /// A cached address for `target`, drawn at random from the cached set.
    /// A hit is certain before `expiry_ms` and impossible from
    /// `expiry_ms + JITTER_BOUND_MS` on; in between, the jitter decides.
    /// Whatever comes back was cached for `target`: reads never mix hosts
    /// and never invent addresses.
    pub fn try_find(&self, target: &str, now_ms: u64) -> (r: Option<SockAddrV4>)
        requires
            self.wf(),
        ensures
            match spec_lookup(self.cache@, target@) {
                None => r is None,
                Some(i) => {
                    &&& (now_ms < self.cache@[i].expiry_ms ==> r is Some)
                    &&& (r is Some ==> now_ms < self.cache@[i].expiry_ms + JITTER_BOUND_MS)
                    &&& (r matches Some(a) ==> self.cache@[i].addrs@.contains(a))
                },
            },
    {
        match self.find_entry(target) {
            None => None,
            Some(i) => {
                let jitter = rand_below(JITTER_BOUND_MS);
                let expiry = self.cache[i].expiry_ms;
                if now_ms < expiry || now_ms - expiry < jitter {
                    let len = self.cache[i].addrs.len();
                    let pick = rand_below(len as u64) as usize;
                    let a = self.cache[i].addrs[pick];
                    proof {
                        assert(self.cache@[i as int].addrs@.contains(
                            self.cache@[i as int].addrs@[pick as int],
                        ));
                    }
                    Some(a)
                } else {
                    None
                }
            },
        }
    }

    /// Caches a fresh lookup result for `target` (upserting its entry, all
    /// others untouched) and returns a random pick from it; an empty
    /// result is rejected and caches nothing.
    pub fn resolve_with(&mut self, target: &str, resolved: Vec<SockAddrV4>, now_ms: u64) -> (r:
        Result<SockAddrV4, ResolveError>)
        requires
            old(self).wf(),
        ensures
            final(self).wf(),
            final(self).ttl_ms == old(self).ttl_ms,
            resolved@.len() == 0 ==> (r matches Err(e) && e == ResolveError::AddrNotAvailable
                && final(self).cache@ == old(self).cache@),
            resolved@.len() > 0 ==> {
                &&& (r matches Ok(a) && resolved@.contains(a))
                &&& match spec_lookup(old(self).cache@, target@) {
                    None => {
                        &&& final(self).cache@.len() == old(self).cache@.len() + 1
                        &&& final(self).cache@ == old(self).cache@.push(
                            final(self).cache@.last(),
                        )
                        &&& entry_caches(final(self).cache@.last(), target@, resolved@, now_ms, old(self).ttl_ms)
                    },
                    Some(i) => {
                        &&& final(self).cache@ == old(self).cache@.update(
                            i,
                            final(self).cache@[i],
                        )
                        &&& entry_caches(final(self).cache@[i], target@, resolved@, now_ms, old(self).ttl_ms)
                    },
                }
            },
    {
        if resolved.is_empty() {
            return Err(ResolveError::AddrNotAvailable);
        }
        let expiry_ms = now_ms.saturating_add(self.ttl_ms);
        let pick = rand_below(resolved.len() as u64) as usize;
        let a = resolved[pick];
        proof {
            assert(resolved@.contains(resolved@[pick as int]));
        }
        let found = self.find_entry(target);
        let entry = CacheEntry { key: target.to_owned(), addrs: resolved, expiry_ms };
        match found {
            None => {
                proof {
                    lemma_find_key_none(self.cache@, target@, 0);
                }
                self.cache.push(entry);
            },
            Some(i) => {
                proof {
                    lemma_find_key_some(self.cache@, target@, 0);
                }
                self.cache[i] = entry;
            },
        }
        Ok(a)
    }
}

/// The entry holds exactly this lookup result for this key, expiring a TTL
/// past the clock reading at which it was stored.
pub open spec fn entry_caches(
    e: CacheEntry,
    key: Seq<char>,
    addrs: Seq<SockAddrV4>,
    now_ms: u64,
    ttl_ms: u64,
) -> bool {
    &&& e.key@ == key
    &&& e.addrs@ == addrs
    &&& e.expiry_ms == if now_ms + ttl_ms <= u64::MAX {
        (now_ms + ttl_ms) as u64
    } else {
        u64::MAX
    }
}

} // verus!
