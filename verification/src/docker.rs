//! The runtime state cache: the last snapshot of the daemon's container
//! listing, refreshed at most once per time-to-live window.
//!
//! The cache itself performs no network access.  A caller that holds the
//! cache under exclusive access drives it with a clock reading and, when the
//! cache decides a query is due, with the listing the daemon returned;
//! concurrency reduces to callers taking turns on that lock, so the
//! freshness lemmas below speak for any number of queued callers.

use vstd::prelude::*;

use crate::containers::admissible;
use crate::containers::container_from;
use crate::containers::wf_container;
use crate::containers::Container;
use crate::containers::ContainerInfo;
use crate::text::is_prefix_of;
use crate::text::str_starts_with;

verus! {

/// Maximum age of a snapshot, in milliseconds, before the next access asks
/// the daemon again.
pub const TTL_MS: u64 = 5000;

/// How a whole snapshot is derived from a daemon listing: one entry per
/// admissible record, in listing order.
pub open spec fn snapshot_from(snap: Seq<Container>, infos: Seq<ContainerInfo>) -> bool
    decreases infos.len(),
{
    if infos.len() == 0 {
        snap.len() == 0
    } else if admissible(infos.last()) {
        &&& snap.len() > 0
        &&& container_from(snap.last(), infos.last())
        &&& snapshot_from(snap.drop_last(), infos.drop_last())
    } else {
        snapshot_from(snap, infos.drop_last())
    }
}

/// Every entry of a snapshot derived from a listing is well-formed: its
/// identifier is the codec's encoding of its identity.
pub proof fn lemma_snapshot_wf(snap: Seq<Container>, infos: Seq<ContainerInfo>)
    requires
        snapshot_from(snap, infos),
    ensures
        forall|i: int| 0 <= i < snap.len() ==> wf_container(#[trigger] snap[i]),
    decreases infos.len(),
{
    if infos.len() == 0 {
    } else if admissible(infos.last()) {
        lemma_snapshot_wf(snap.drop_last(), infos.drop_last());
        assert(forall|i: int|
            0 <= i < snap.len() - 1 ==> #[trigger] snap[i] == snap.drop_last()[i]);
    } else {
        lemma_snapshot_wf(snap, infos.drop_last());
    }
}

/// The position of the first snapshot entry carrying the given filesystem
/// identifier, or `-1` when none does.
pub open spec fn first_index_with_ino(snap: Seq<Container>, ino: u64) -> int
    decreases snap.len(),
{
    if snap.len() == 0 {
        -1
    } else if snap[0].ino == ino {
        0
    } else {
        let r = first_index_with_ino(snap.drop_first(), ino);
        if r == -1 {
            -1
        } else {
            r + 1
        }
    }
}

pub proof fn lemma_first_index_with_ino(snap: Seq<Container>, ino: u64)
    ensures
        ({
            let r = first_index_with_ino(snap, ino);
            ||| (r == -1 && forall|i: int|
                0 <= i < snap.len() ==> (#[trigger] snap[i]).ino != ino)
            ||| (0 <= r < snap.len() && snap[r].ino == ino && forall|i: int|
                0 <= i < r ==> (#[trigger] snap[i]).ino != ino)
        }),
    decreases snap.len(),
{
    if snap.len() == 0 {
    } else if snap[0].ino == ino {
    } else {
        lemma_first_index_with_ino(snap.drop_first(), ino);
        assert(forall|i: int|
            1 <= i < snap.len() ==> #[trigger] snap[i] == snap.drop_first()[i - 1]);
    }
}

/// The predicate selecting snapshot entries whose display name starts with
/// `name`.
pub open spec fn name_prefix_pred(name: Seq<char>) -> spec_fn(Container) -> bool {
    |c: Container| is_prefix_of(name, c.name@)
}

/// Name resolution is first-match-wins over snapshot order: when any entry's
/// display name starts with the queried name, the front of the filtered
/// sequence is the first such entry of the snapshot itself.
pub proof fn lemma_first_prefix_match(snap: Seq<Container>, name: Seq<char>)
    requires
        snap.filter(name_prefix_pred(name)).len() > 0,
    ensures
        exists|i: int|
            {
                &&& 0 <= i < snap.len()
                &&& snap.filter(name_prefix_pred(name))[0] == snap[i]
                &&& name_prefix_pred(name)(#[trigger] snap[i])
                &&& forall|j: int| 0 <= j < i ==> !name_prefix_pred(name)(#[trigger] snap[j])
            },
    decreases snap.len(),
{
    reveal(Seq::filter);
    let pred = name_prefix_pred(name);
    let pre = snap.drop_last();
    if pre.filter(pred).len() > 0 {
        lemma_first_prefix_match(pre, name);
        let i = choose|i: int|
            {
                &&& 0 <= i < pre.len()
                &&& pre.filter(pred)[0] == pre[i]
                &&& pred(#[trigger] pre[i])
                &&& forall|j: int| 0 <= j < i ==> !pred(#[trigger] pre[j])
            };
        assert(snap[i] == pre[i]);
        assert(snap.filter(pred)[0] == pre.filter(pred)[0]);
        assert(forall|j: int| 0 <= j < i ==> snap[j] == pre[j]);
    } else {
        let i = snap.len() - 1;
        assert(pred(snap[i]));
        assert(snap.filter(pred) == pre.filter(pred).push(snap.last()));
        assert forall|j: int| 0 <= j < i implies !pred(#[trigger] snap[j]) by {
            if pred(snap[j]) {
                pre.lemma_filter_contains(pred, j);
            }
        }
    }
}

/// The cache: the last admitted snapshot and the instant it was taken.
pub struct Docker {
    containers: Vec<Container>,
    last_refresh_ms: u64,
    refreshed_once: bool,
}

impl Docker {
    /// The current snapshot, in daemon listing order.
    pub closed spec fn snapshot(self) -> Seq<Container> {
        self.containers@
    }

    /// The clock reading recorded by the last successful refresh.
    pub closed spec fn last_refresh(self) -> u64 {
        self.last_refresh_ms
    }

    /// Whether any refresh has completed since construction.
    pub closed spec fn refreshed_once(self) -> bool {
        self.refreshed_once
    }

    /// The snapshot is young enough to serve without asking the daemon.
    pub open spec fn spec_is_fresh(self, now_ms: u64) -> bool {
        &&& self.refreshed_once()
        &&& self.last_refresh() <= now_ms
        &&& now_ms - self.last_refresh() < TTL_MS
    }

    /// An empty cache whose first access always refreshes.
    pub fn new() -> (d: Docker)
        ensures
            d.snapshot() == Seq::<Container>::empty(),
            !d.refreshed_once(),
            d.last_refresh() == 0,
    {
        Docker { containers: Vec::new(), last_refresh_ms: 0, refreshed_once: false }
    }

    /// Whether the next access must query the daemon.
    pub fn needs_refresh(&self, now_ms: u64) -> (b: bool)
        ensures
            b == !self.spec_is_fresh(now_ms),
    {
        !(self.refreshed_once && self.last_refresh_ms <= now_ms && now_ms - self.last_refresh_ms
            < TTL_MS)
    }

    /// Replaces the snapshot wholesale from a fetched listing and records the
    /// completion instant.
    pub fn apply_refresh(&mut self, infos: &Vec<ContainerInfo>, now_ms: u64)
        ensures
            snapshot_from(final(self).snapshot(), infos@),
            final(self).last_refresh() == now_ms,
            final(self).refreshed_once(),
    {
        let mut snap: Vec<Container> = Vec::new();
        let mut i: usize = 0;
        while i < infos.len()
            invariant
                i <= infos@.len(),
                snapshot_from(snap@, infos@.take(i as int)),
            decreases infos@.len() - i,
        {
            let ghost prev = snap@;
            let ghost prefix1 = infos@.take(i as int + 1);
            proof {
                assert(prefix1.drop_last() =~= infos@.take(i as int));
                assert(prefix1.last() == infos@[i as int]);
            }
            match Container::try_from_info(&infos[i]) {
                Some(c) => {
                    snap.push(c);
                    proof {
                        assert(snap@.drop_last() =~= prev);
                        assert(snapshot_from(snap@, prefix1));
                    }
                },
                None => {
                    proof {
                        assert(snapshot_from(snap@, prefix1));
                    }
                },
            }
            i += 1;
        }
        proof {
            assert(infos@.take(infos@.len() as int) =~= infos@);
        }
        self.containers = snap;
        self.last_refresh_ms = now_ms;
        self.refreshed_once = true;
    }

    /// Ensures the snapshot is fresh, querying the daemon at most once: a
    /// fresh cache is served as it is with no query; a stale cache runs
    /// `fetch` once, admits the listing on success, and on failure keeps
    /// both the old snapshot and the old refresh instant, so the next access
    /// retries immediately instead of waiting out the window.
    ///
    /// Returns `Ok(true)` after a refresh, `Ok(false)` when no query was
    /// due, and the daemon's error after a failed query.
    pub fn update_containers<E, F: FnOnce() -> Result<Vec<ContainerInfo>, E>>(
        &mut self,
        now_ms: u64,
        fetch: F,
    ) -> (r: Result<bool, E>)
        requires
            call_requires(fetch, ()),
        ensures
            old(self).spec_is_fresh(now_ms) ==> r == Ok::<bool, E>(false) && *final(self) == *old(
                self,
            ),
            !old(self).spec_is_fresh(now_ms) ==> exists|out: Result<Vec<ContainerInfo>, E>|
                {
                    &&& #[trigger] call_ensures(fetch, (), out)
                    &&& match out {
                        Ok(infos) => r == Ok::<bool, E>(true) && snapshot_from(
                            final(self).snapshot(),
                            infos@,
                        ) && final(self).last_refresh() == now_ms && final(self).refreshed_once(),
                        Err(e) => r == Err::<bool, E>(e) && *final(self) == *old(self),
                    }
                },
    {
        if self.needs_refresh(now_ms) {
            let ret = fetch();
            match ret {
                Ok(infos) => {
                    self.apply_refresh(&infos, now_ms);
                    proof {
                        assert(call_ensures(fetch, (), Ok::<Vec<ContainerInfo>, E>(infos)));
                    }
                    Ok(true)
                },
                Err(e) => {
                    proof {
                        assert(call_ensures(fetch, (), Err::<Vec<ContainerInfo>, E>(e)));
                    }
                    Err(e)
                },
            }
        } else {
            Ok(false)
        }
    }

    /// The full snapshot, in stable iteration order.
    pub fn get_containers(&self) -> (v: &Vec<Container>)
        ensures
            v@ == self.snapshot(),
    {
        &self.containers
    }

    /// The first snapshot entry carrying the given filesystem identifier.
    /// No implicit refresh is performed.
    pub fn get_child(&self, inode: u64) -> (r: Option<&Container>)
        ensures
            ({
                let idx = first_index_with_ino(self.snapshot(), inode);
                match r {
                    Some(c) => 0 <= idx < self.snapshot().len() && *c == self.snapshot()[idx],
                    None => idx == -1,
                }
            }),
    {
        let mut i: usize = 0;
        while i < self.containers.len()
            invariant
                i <= self.snapshot().len(),
                forall|j: int| 0 <= j < i ==> (#[trigger] self.snapshot()[j]).ino != inode,
            decreases self.snapshot().len() - i,
        {
            if self.containers[i].ino == inode {
                proof {
                    lemma_first_index_with_ino(self.snapshot(), inode);
                }
                return Some(&self.containers[i]);
            }
            i += 1;
        }
        proof {
            lemma_first_index_with_ino(self.snapshot(), inode);
        }
        None
    }

    /// Every snapshot entry whose display name starts with `name`, in
    /// snapshot order.  No implicit refresh is performed.
    pub fn find_by_name_prefix(&self, name: &str) -> (v: Vec<Container>)
        ensures
            v@ == self.snapshot().filter(name_prefix_pred(name@)),
    {
        let mut v: Vec<Container> = Vec::new();
        let mut i: usize = 0;
        while i < self.containers.len()
            invariant
                i <= self.snapshot().len(),
                v@ == self.snapshot().take(i as int).filter(name_prefix_pred(name@)),
            decreases self.snapshot().len() - i,
        {
            let c = &self.containers[i];
            proof {
                reveal(Seq::filter);
                assert(self.snapshot().take(i as int + 1).drop_last() =~= self.snapshot().take(
                    i as int,
                ));
                assert(self.snapshot().take(i as int + 1).last() == self.snapshot()[i as int]);
            }
            if str_starts_with(c.name.as_str(), name) {
                v.push(c.clone());
            }
            i += 1;
        }
        proof {
            assert(self.snapshot().take(self.snapshot().len() as int) =~= self.snapshot());
        }
        v
    }
}

/// Cache freshness over the time-to-live window: a cache refreshed at `t1`
/// is still fresh at any instant `t2` within the window, so an access at
/// `t2` issues no query and serves the same snapshot unchanged.
pub proof fn lemma_refresh_fresh_within_ttl(c: Docker, t1: u64, t2: u64)
    requires
        c.refreshed_once(),
        c.last_refresh() == t1,
        t1 <= t2 < t1 + TTL_MS,
    ensures
        c.spec_is_fresh(t2),
{
}

/// Single-flight: callers serialize on the cache's exclusive lock, so
/// "concurrent" stale accesses become a first caller that refreshes and a
/// queue of later callers.  Once the first has refreshed at `t1`, every
/// queued caller whose turn comes within the window finds the cache fresh:
/// it issues no query of its own and observes the snapshot the single
/// outbound query produced.
pub proof fn lemma_single_flight(
    pre: Docker,
    post: Docker,
    infos: Seq<ContainerInfo>,
    t1: u64,
    times: Seq<u64>,
)
    requires
        !pre.spec_is_fresh(t1),
        snapshot_from(post.snapshot(), infos),
        post.last_refresh() == t1,
        post.refreshed_once(),
        forall|i: int| 0 <= i < times.len() ==> t1 <= #[trigger] times[i] < t1 + TTL_MS,
    ensures
        forall|i: int| 0 <= i < times.len() ==> post.spec_is_fresh(#[trigger] times[i]),
{
}

} // verus!
