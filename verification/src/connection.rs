//! The connection registry: a mapping from logical datasource id to a
//! connection pool, installed exactly once and read-only afterwards, except
//! that a pool can be closed. It is an explicit object handed to whoever
//! needs a pool; the only-succeeds-once rule is an explicit guard, not
//! hidden module state.

use vstd::prelude::*;
use crate::error::DbError;

verus! {

/// Configuration of one pool: the connection URL and the optional knobs
/// that tune it. Durations are in seconds.
pub struct PoolConfig {
    pub url: String,
    pub test_before_acquire: Option<bool>,
    pub max_connections: Option<u32>,
    pub min_connections: Option<u32>,
    pub connect_timeout: Option<u64>,
    pub max_lifetime: Option<u64>,
    pub idle_timeout: Option<u64>,
    pub log_statements_level: Option<String>,
    pub log_slow_queries_level: Option<String>,
    pub log_slow_queries_duration: Option<u64>,
}

/// The pool options actually applied: every knob the configuration sets,
/// carried over unchanged, and nothing else.
#[derive(Clone, Copy, Debug)]
pub struct PoolOptions {
    pub test_before_acquire: Option<bool>,
    pub max_connections: Option<u32>,
    pub min_connections: Option<u32>,
    pub connect_timeout: Option<u64>,
    pub max_lifetime: Option<u64>,
    pub idle_timeout: Option<u64>,
}

impl PoolConfig {
    /// The options a pool is built with: each set knob of the
    /// configuration, unchanged.
    pub fn pool_options(&self) -> (r: PoolOptions)
        ensures
            r.test_before_acquire == self.test_before_acquire,
            r.max_connections == self.max_connections,
            r.min_connections == self.min_connections,
            r.connect_timeout == self.connect_timeout,
            r.max_lifetime == self.max_lifetime,
            r.idle_timeout == self.idle_timeout,
    {
        PoolOptions {
            test_before_acquire: match self.test_before_acquire {
                Some(v) => Some(v),
                None => None,
            },
            max_connections: match self.max_connections {
                Some(v) => Some(v),
                None => None,
            },
            min_connections: match self.min_connections {
                Some(v) => Some(v),
                None => None,
            },
            connect_timeout: match self.connect_timeout {
                Some(v) => Some(v),
                None => None,
            },
            max_lifetime: match self.max_lifetime {
                Some(v) => Some(v),
                None => None,
            },
            idle_timeout: match self.idle_timeout {
                Some(v) => Some(v),
                None => None,
            },
        }
    }
}

/// One installed pool: the options it was built with, its connection URL,
/// and whether it has been closed. A closed pool stays in the registry;
/// using it fails at the pool, not at lookup.
#[derive(Debug)]
pub struct Pool {
    pub url: String,
    pub options: PoolOptions,
    pub closed: bool,
}

/// The process-wide registry: uninitialized until `setup_pools` installs
/// the full mapping, immutable afterwards except for closing a pool.
pub struct Registry {
    pub initialized: bool,
    pub entries: Vec<(u64, Pool)>,
}

/// The first entry for `id`, if any.
pub open spec fn spec_registry_find(entries: Seq<(u64, Pool)>, id: u64) -> Option<int>
    decreases entries.len(),
{
    if entries.len() == 0 {
        None
    } else if spec_registry_find(entries.drop_last(), id) is Some {
        spec_registry_find(entries.drop_last(), id)
    } else if entries.last().0 == id {
        Some(entries.len() - 1)
    } else {
        None
    }
}

impl Registry {
    /// A fresh registry: not yet initialized, holding nothing.
    pub fn new() -> (r: Registry)
        ensures
            !r.initialized,
            r.entries@.len() == 0,
    {
        Registry { initialized: false, entries: Vec::new() }
    }
}

/// Install one pool per datasource, exactly once. A second call fails,
/// unless `test_mode` is set, in which case it is a silent no-op that
/// leaves the installed pools untouched.
pub fn setup_pools(r: &mut Registry, configs: Vec<(u64, PoolConfig)>, test_mode: bool) -> (res:
    Result<(), DbError>)
    ensures
        !old(r).initialized ==> res is Ok && final(r).initialized && final(r).entries@.len()
            == configs@.len() && (forall|i: int|
            0 <= i < configs@.len() ==> (#[trigger] final(r).entries@[i]).0 == configs@[i].0
                && final(r).entries@[i].1.closed == false),
        old(r).initialized && test_mode ==> res is Ok && *final(r) == *old(r),
        old(r).initialized && !test_mode ==> res == Result::<(), DbError>::Err(
            DbError::AlreadyInitialized,
        ) && *final(r) == *old(r),
{
    if r.initialized {
        if test_mode {
            return Ok(());
        }
        return Err(DbError::AlreadyInitialized);
    }
    let mut entries: Vec<(u64, Pool)> = Vec::new();
    let mut i: usize = 0;
    let n = configs.len();
    while i < n
        invariant
            0 <= i <= n,
            n == configs@.len(),
            entries@.len() == i,
            forall|j: int|
                0 <= j < i ==> (#[trigger] entries@[j]).0 == configs@[j].0 && entries@[j].1.closed
                    == false,
        decreases n - i,
    {
        let (id, cfg) = (configs[i].0, &configs[i].1);
        let pool = Pool { url: cfg.url.clone(), options: cfg.pool_options(), closed: false };
        entries.push((id, pool));
        i = i + 1;
    }
    r.entries = entries;
    r.initialized = true;
    Ok(())
}

/// Look up the pool of a datasource: fails with a not-initialized error
/// before any installation, and with a no-pool error for an id the
/// registry does not hold.
pub fn get<'a>(r: &'a Registry, datasource: u64) -> (res: Result<&'a Pool, DbError>)
    ensures
        !r.initialized ==> res == Result::<&'a Pool, DbError>::Err(DbError::NotInitialized),
        r.initialized && spec_registry_find(r.entries@, datasource) is None ==> res == Result::<
            &'a Pool,
            DbError,
        >::Err(DbError::NoPoolFound),
        (r.initialized && spec_registry_find(r.entries@, datasource) matches Some(i)) ==> (
        res matches Ok(p) && *p == r.entries@[spec_registry_find(r.entries@, datasource).unwrap()].1),
{
    if !r.initialized {
        return Err(DbError::NotInitialized);
    }
    let ghost es = r.entries@;
    let mut i: usize = 0;
    let n = r.entries.len();
    while i < n
        invariant
            0 <= i <= n,
            r.initialized,
            n == r.entries@.len(),
            es == r.entries@,
            spec_registry_find(es.take(i as int), datasource) is None,
        decreases n - i,
    {
        proof {
            assert(es.take(i + 1).drop_last() =~= es.take(i as int));
            assert(es.take(i + 1).last() == es[i as int]);
        }
        if r.entries[i].0 == datasource {
            proof {
                lemma_registry_find_extend(es, i as int, datasource);
            }
            return Ok(&r.entries[i].1);
        }
        i = i + 1;
    }
    proof {
        assert(es.take(n as int) =~= es);
    }
    Err(DbError::NoPoolFound)
}

/// A find that resolves within a prefix resolves identically on the whole.
pub proof fn lemma_registry_find_extend(entries: Seq<(u64, Pool)>, i: int, id: u64)
    requires
        0 <= i < entries.len(),
        spec_registry_find(entries.take(i), id) is None,
        entries[i].0 == id,
    ensures
        spec_registry_find(entries, id) == Some(i),
    decreases entries.len(),
{
    if entries.len() - 1 == i {
        assert(entries.take(i) =~= entries.drop_last());
    } else {
        assert(entries.drop_last().take(i) =~= entries.take(i));
        lemma_registry_find_extend(entries.drop_last(), i, id);
    }
}

/// Close the pool of a datasource and report whether it is now closed. The
/// mapping itself is untouched: the closed pool remains present, and later
/// lookups still find it.
pub fn close(r: &mut Registry, datasource: u64) -> (res: Result<bool, DbError>)
    ensures
        !old(r).initialized ==> res == Result::<bool, DbError>::Err(DbError::NotInitialized)
            && *final(r) == *old(r),
        old(r).initialized && spec_registry_find(old(r).entries@, datasource) is None ==> res
            == Result::<bool, DbError>::Err(DbError::NoPoolFound) && final(r).initialized == old(
            r,
        ).initialized && final(r).entries@ == old(r).entries@,
        (old(r).initialized && spec_registry_find(old(r).entries@, datasource) is Some) ==> {
            let i = spec_registry_find(old(r).entries@, datasource).unwrap();
            &&& res == Result::<bool, DbError>::Ok(true)
            &&& final(r).initialized == old(r).initialized
            &&& final(r).entries@.len() == old(r).entries@.len()
            &&& final(r).entries@[i].0 == old(r).entries@[i].0
            &&& final(r).entries@[i].1.closed == true
            &&& (forall|j: int|
                0 <= j < old(r).entries@.len() && j != i ==> #[trigger] final(r).entries@[j]
                    == old(r).entries@[j])
        },
{
    if !r.initialized {
        return Err(DbError::NotInitialized);
    }
    let ghost es = old(r).entries@;
    let mut i: usize = 0;
    let n = r.entries.len();
    while i < n
        invariant
            0 <= i <= n,
            r.initialized == old(r).initialized,
            old(r).initialized,
            n == r.entries@.len(),
            r.entries@ == es,
            es == old(r).entries@,
            spec_registry_find(es.take(i as int), datasource) is None,
        decreases n - i,
    {
        proof {
            assert(es.take(i + 1).drop_last() =~= es.take(i as int));
            assert(es.take(i + 1).last() == es[i as int]);
        }
        if r.entries[i].0 == datasource {
            proof {
                lemma_registry_find_extend(es, i as int, datasource);
            }
            let id = r.entries[i].0;
            let url = r.entries[i].1.url.clone();
            let options = r.entries[i].1.options;
            r.entries.set(i, (id, Pool { url, options, closed: true }));
            return Ok(true);
        }
        i = i + 1;
    }
    proof {
        assert(es.take(n as int) =~= es);
    }
    Err(DbError::NoPoolFound)
}

} // verus!
