//! Which Unity projects are being opened, and the short-lived cache of the
//! projects whose editor window is ready.
//!
//! Times are monotonic timestamps in nanoseconds; the caller reads the clock
//! and hands the reading in. A project that was marked as opening stays so
//! for [`UNITY_OPENING_TIMEOUT`] nanoseconds, unless it is cleared earlier.

use vstd::prelude::*;
use crate::win_path::{
    PathComponent, ComponentView, path_view, path_equal, same_project_path, paths_match,
};

verus! {

/// How long a project stays marked as opening: 120 seconds.
pub const UNITY_OPENING_TIMEOUT: u64 = 120_000_000_000;

/// How long the list of ready editors is reused before it is refreshed:
/// 1 second.
pub const UNITY_RUNTIME_CACHE_TTL: u64 = 1_000_000_000;

/// The time from `since` to `now`, or zero when `now` is earlier.
pub open spec fn elapsed(now: u64, since: u64) -> nat {
    if now >= since {
        (now - since) as nat
    } else {
        0
    }
}

/// Whether an opening that started at `started_at` has expired at `now`.
pub open spec fn is_expired(started_at: u64, now: u64) -> bool {
    elapsed(now, started_at) >= UNITY_OPENING_TIMEOUT
}

/// The openings of `opening` that have not expired at `now`.
pub open spec fn live_openings(opening: Map<Seq<ComponentView>, u64>, now: u64) -> Map<
    Seq<ComponentView>,
    u64,
> {
    opening.restrict(Set::new(|k: Seq<ComponentView>| opening.contains_key(k) && !is_expired(opening[k], now)))
}

/// Whether marking the project `key` as opening at `now` succeeds: it does
/// unless the project is already opening and that has not expired.
pub open spec fn mark_succeeds(opening: Map<Seq<ComponentView>, u64>, key: Seq<ComponentView>, now: u64) -> bool {
    !live_openings(opening, now).contains_key(key)
}

/// The openings after marking the project `key` at `now`: the expired ones
/// are dropped, and the project is recorded as started at `now` when the
/// mark succeeds.
pub open spec fn opening_after_mark(
    opening: Map<Seq<ComponentView>, u64>,
    key: Seq<ComponentView>,
    now: u64,
) -> Map<Seq<ComponentView>, u64> {
    if mark_succeeds(opening, key, now) {
        live_openings(opening, now).insert(key, now)
    } else {
        live_openings(opening, now)
    }
}

/// The openings held by a list of entries.
pub open spec fn entries_map(entries: Seq<(Vec<PathComponent>, u64)>) -> Map<Seq<ComponentView>, u64>
    decreases entries.len(),
{
    if entries.len() == 0 {
        Map::empty()
    } else {
        entries_map(entries.drop_last()).insert(path_view(entries.last().0@), entries.last().1)
    }
}

/// No project occurs twice in the list.
pub open spec fn distinct_keys(entries: Seq<(Vec<PathComponent>, u64)>) -> bool {
    forall|i: int, j: int|
        0 <= i < entries.len() && 0 <= j < entries.len() && i != j ==> path_view(
            #[trigger] entries[i].0@,
        ) != path_view(#[trigger] entries[j].0@)
}

proof fn lemma_entries_map_keys(entries: Seq<(Vec<PathComponent>, u64)>, k: Seq<ComponentView>)
    ensures
        entries_map(entries).contains_key(k) <==> exists|i: int|
            0 <= i < entries.len() && path_view(#[trigger] entries[i].0@) == k,
    decreases entries.len(),
{
    if entries.len() > 0 {
        let rest = entries.drop_last();
        lemma_entries_map_keys(rest, k);
        if entries_map(entries).contains_key(k) && path_view(entries.last().0@) != k {
            let i = choose|i: int| 0 <= i < rest.len() && path_view(#[trigger] rest[i].0@) == k;
            assert(entries[i] == rest[i]);
        }
        if exists|i: int| 0 <= i < entries.len() && path_view(#[trigger] entries[i].0@) == k {
            let i = choose|i: int| 0 <= i < entries.len() && path_view(#[trigger] entries[i].0@) == k;
            if i < entries.len() - 1 {
                assert(rest[i] == entries[i]);
            }
        }
    }
}

proof fn lemma_entries_map_value(entries: Seq<(Vec<PathComponent>, u64)>, i: int)
    requires
        distinct_keys(entries),
        0 <= i < entries.len(),
    ensures
        entries_map(entries).contains_key(path_view(entries[i].0@)),
        entries_map(entries)[path_view(entries[i].0@)] == entries[i].1,
    decreases entries.len(),
{
    if i < entries.len() - 1 {
        let rest = entries.drop_last();
        assert(rest[i] == entries[i]);
        assert(distinct_keys(rest)) by {
            assert forall|a: int, b: int|
                0 <= a < rest.len() && 0 <= b < rest.len() && a != b implies path_view(
                #[trigger] rest[a].0@,
            ) != path_view(#[trigger] rest[b].0@) by {
                assert(rest[a] == entries[a]);
                assert(rest[b] == entries[b]);
            }
        }
        lemma_entries_map_value(rest, i);
        assert(path_view(entries[i].0@) != path_view(entries[entries.len() - 1].0@));
    }
}

/// Keeps the entries that satisfy `keep`, one loop step at a time: the kept
/// entries stay distinct and hold the kept openings.
proof fn lemma_filter_step(
    kept: Seq<(Vec<PathComponent>, u64)>,
    seen: Seq<(Vec<PathComponent>, u64)>,
    e: (Vec<PathComponent>, u64),
    keep_it: bool,
    target: Map<Seq<ComponentView>, u64>,
    next_target: Map<Seq<ComponentView>, u64>,
)
    requires
        distinct_keys(seen.push(e)),
        distinct_keys(kept),
        entries_map(kept) == target,
        target.dom().subset_of(entries_map(seen).dom()),
        keep_it ==> next_target == target.insert(path_view(e.0@), e.1),
        !keep_it ==> next_target == target,
    ensures
        keep_it ==> distinct_keys(kept.push(e)) && entries_map(kept.push(e)) == next_target,
        !keep_it ==> entries_map(kept) == next_target,
        next_target.dom().subset_of(entries_map(seen.push(e)).dom()),
{
    let k = path_view(e.0@);
    let all = seen.push(e);
    assert(all.drop_last() =~= seen);
    lemma_entries_map_keys(seen, k);
    if entries_map(seen).contains_key(k) {
        let i = choose|i: int| 0 <= i < seen.len() && path_view(#[trigger] seen[i].0@) == k;
        assert(all[i] == seen[i]);
        assert(all[seen.len() as int] == e);
        assert(false);
    }
    if keep_it {
        let pushed = kept.push(e);
        assert(pushed.drop_last() =~= kept);
        assert forall|a: int, b: int|
            0 <= a < pushed.len() && 0 <= b < pushed.len() && a != b implies path_view(
            #[trigger] pushed[a].0@,
        ) != path_view(#[trigger] pushed[b].0@) by {
            if a < kept.len() && b < kept.len() {
                assert(pushed[a] == kept[a]);
                assert(pushed[b] == kept[b]);
            } else if a < kept.len() {
                assert(pushed[a] == kept[a]);
                lemma_entries_map_keys(kept, path_view(kept[a].0@));
            } else if b < kept.len() {
                assert(pushed[b] == kept[b]);
                lemma_entries_map_keys(kept, path_view(kept[b].0@));
            }
        }
    }
}

/// The key of an optional project.
pub open spec fn project_key(project: Option<&[PathComponent]>) -> Option<Seq<ComponentView>> {
    match project {
        Some(p) => Some(path_view(p@)),
        None => None,
    }
}

/// The openings of `opening` that have not expired at `expired_at` (when
/// given) and are not of the project `dropped` (when given).
pub open spec fn retained_openings(
    opening: Map<Seq<ComponentView>, u64>,
    expired_at: Option<u64>,
    dropped: Option<Seq<ComponentView>>,
) -> Map<Seq<ComponentView>, u64> {
    opening.restrict(
        Set::new(
            |k: Seq<ComponentView>|
                opening.contains_key(k) && (expired_at is None || !is_expired(opening[k], expired_at->0)) && (
                dropped is None || k != dropped->0),
        ),
    )
}

/// Whether the list of ready editors should be refreshed at `now`: it has
/// never been filled, or it is at least [`UNITY_RUNTIME_CACHE_TTL`] old.
pub open spec fn cache_is_stale(refreshed_at: Option<u64>, now: u64) -> bool {
    match refreshed_at {
        None => true,
        Some(t) => elapsed(now, t) >= UNITY_RUNTIME_CACHE_TTL,
    }
}

/// The projects whose Unity editor window was found ready at the last
/// refresh, and when that refresh was.
pub struct UnityRuntimeCache {
    refreshed_at: Option<u64>,
    editor_ready_projects: Vec<Vec<u8>>,
}

impl UnityRuntimeCache {
    /// When the list was last refreshed, if it was since it was last
    /// invalidated.
    pub closed spec fn spec_refreshed_at(&self) -> Option<u64> {
        self.refreshed_at
    }

    /// The projects (as the encoded bytes of their paths) found ready at the
    /// last refresh.
    pub closed spec fn spec_ready_projects(&self) -> Seq<Seq<u8>> {
        self.editor_ready_projects@.map_values(|p: Vec<u8>| p@)
    }

    /// An empty cache that has never been refreshed.
    pub fn new() -> (r: Self)
        ensures
            r.spec_refreshed_at() is None,
            r.spec_ready_projects() == Seq::<Seq<u8>>::empty(),
    {
        let r = UnityRuntimeCache { refreshed_at: None, editor_ready_projects: Vec::new() };
        assert(r.spec_ready_projects() =~= Seq::<Seq<u8>>::empty());
        r
    }

    /// Whether the list should be refreshed before it is used at `now`.
    pub fn should_refresh(&self, now: u64) -> (r: bool)
        ensures
            r == cache_is_stale(self.spec_refreshed_at(), now),
    {
        match self.refreshed_at {
            None => true,
            Some(refreshed_at) => now.saturating_sub(refreshed_at) >= UNITY_RUNTIME_CACHE_TTL,
        }
    }

    /// Records the outcome of a refresh made at `now`: the projects found
    /// ready, or `None` when looking for them failed, which leaves the list
    /// empty.
    pub fn complete_refresh(&mut self, projects: Option<Vec<Vec<u8>>>, now: u64)
        ensures
            final(self).spec_refreshed_at() == Some(now),
            final(self).spec_ready_projects() == match projects {
                Some(p) => p@.map_values(|q: Vec<u8>| q@),
                None => Seq::<Seq<u8>>::empty(),
            },
    {
        self.editor_ready_projects = match projects {
            Some(p) => p,
            None => Vec::new(),
        };
        self.refreshed_at = Some(now);
        assert(projects is None ==> self.spec_ready_projects() =~= Seq::<Seq<u8>>::empty());
    }

    /// Forgets the list, so that the next use refreshes it.
    pub fn invalidate(&mut self)
        ensures
            final(self).spec_refreshed_at() is None,
            final(self).spec_ready_projects() == Seq::<Seq<u8>>::empty(),
    {
        self.refreshed_at = None;
        self.editor_ready_projects.clear();
        assert(self.spec_ready_projects() =~= Seq::<Seq<u8>>::empty());
    }

    /// When the list was last refreshed.
    pub fn refreshed_at(&self) -> (r: Option<u64>)
        ensures
            r == self.spec_refreshed_at(),
    {
        self.refreshed_at
    }

    /// The projects found ready at the last refresh.
    pub fn editor_ready_projects(&self) -> (r: &Vec<Vec<u8>>)
        ensures
            r@.map_values(|p: Vec<u8>| p@) == self.spec_ready_projects(),
    {
        &self.editor_ready_projects
    }
}

/// Whether any of the ready projects (canonicalized and split into
/// components) is the project `project`.
pub fn any_path_matches(ready: &[Vec<PathComponent>], project: &[PathComponent]) -> (r: bool)
    ensures
        r == exists|i: int| 0 <= i < ready@.len() && same_project_path(#[trigger] ready@[i]@, project@),
{
    let n = ready.len();
    let mut i: usize = 0;
    while i < n
        invariant
            n == ready@.len(),
            i <= n,
            forall|j: int| 0 <= j < i ==> !same_project_path(#[trigger] ready@[j]@, project@),
        decreases n - i,
    {
        if paths_match(ready[i].as_slice(), project) {
            return true;
        }
        i = i + 1;
    }
    false
}

/// What [`UnityProjectState`] holds, as plain values.
pub struct UnityProjectStateView {
    /// For each project being opened, when its opening started.
    pub opening: Map<Seq<ComponentView>, u64>,
    /// When the list of ready editors was last refreshed.
    pub refreshed_at: Option<u64>,
    /// The projects found ready at that refresh.
    pub ready_projects: Seq<Seq<u8>>,
}

/// The projects being opened, and the cache of ready editors.
pub struct UnityProjectState {
    opening: Vec<(Vec<PathComponent>, u64)>,
    runtime_cache: UnityRuntimeCache,
}

impl View for UnityProjectState {
    type V = UnityProjectStateView;

    closed spec fn view(&self) -> UnityProjectStateView {
        UnityProjectStateView {
            opening: entries_map(self.opening@),
            refreshed_at: self.runtime_cache.spec_refreshed_at(),
            ready_projects: self.runtime_cache.spec_ready_projects(),
        }
    }
}

impl UnityProjectState {
    /// No project is recorded twice.
    #[verifier::type_invariant]
    spec fn wf(&self) -> bool {
        distinct_keys(self.opening@)
    }

    /// No project is opening and the cache is empty.
    pub fn new() -> (r: Self)
        ensures
            r@.opening == Map::<Seq<ComponentView>, u64>::empty(),
            r@.refreshed_at is None,
            r@.ready_projects == Seq::<Seq<u8>>::empty(),
    {
        UnityProjectState { opening: Vec::new(), runtime_cache: UnityRuntimeCache::new() }
    }

    /// Keeps the openings that have not expired at `expired_at` (when one is
    /// given) and are not for `project` (when one is given), and drops the
    /// others.
    fn retain_openings(&mut self, expired_at: Option<u64>, project: Option<&[PathComponent]>)
        ensures
            final(self)@.opening == retained_openings(old(self)@.opening, expired_at, project_key(project)),
            final(self)@.refreshed_at == old(self)@.refreshed_at,
            final(self)@.ready_projects == old(self)@.ready_projects,
    {
        proof {
            use_type_invariant(&*self);
        }
        let ghost all = self.opening@;
        let mut old_entries: Vec<(Vec<PathComponent>, u64)> = Vec::new();
        std::mem::swap(&mut old_entries, &mut self.opening);
        let mut kept: Vec<(Vec<PathComponent>, u64)> = Vec::new();
        let n = old_entries.len();
        let mut i: usize = 0;
        while i < n
            invariant
                n == all.len(),
                old_entries@ == all,
                distinct_keys(all),
                i <= n,
                distinct_keys(kept@),
                entries_map(kept@) == retained_openings(entries_map(all.take(i as int)), expired_at, project_key(project)),
                entries_map(kept@).dom().subset_of(entries_map(all.take(i as int)).dom()),
            decreases n - i,
        {
            let ghost seen = all.take(i as int);
            let ghost cur = retained_openings(entries_map(seen), expired_at, project_key(project));
            let e = &old_entries[i];
            let fresh = match expired_at {
                Some(now) => now.saturating_sub(e.1) < UNITY_OPENING_TIMEOUT,
                None => true,
            };
            let other = match project {
                Some(p) => !path_equal(e.0.as_slice(), p),
                None => true,
            };
            let keep_it = fresh && other;
            let ghost next_all = all.take(i as int + 1);
            proof {
                assert(next_all =~= seen.push(all[i as int]));
                assert(next_all.drop_last() =~= seen);
                assert(distinct_keys(next_all)) by {
                    assert forall|a: int, b: int|
                        0 <= a < next_all.len() && 0 <= b < next_all.len() && a != b implies path_view(
                        #[trigger] next_all[a].0@,
                    ) != path_view(#[trigger] next_all[b].0@) by {
                        assert(next_all[a] == all[a]);
                        assert(next_all[b] == all[b]);
                    }
                }
                let k = path_view(all[i as int].0@);
                lemma_entries_map_keys(seen, k);
                if entries_map(seen).contains_key(k) {
                    let j = choose|j: int| 0 <= j < seen.len() && path_view(#[trigger] seen[j].0@) == k;
                    assert(all[j] == seen[j]);
                    assert(false);
                }
                let next_target = retained_openings(entries_map(next_all), expired_at, project_key(project));
                if keep_it {
                    assert(next_target =~= cur.insert(k, all[i as int].1));
                } else {
                    assert(next_target =~= cur);
                }
                lemma_filter_step(kept@, seen, all[i as int], keep_it, cur, next_target);
            }
            if keep_it {
                let entry = (crate::win_path::clone_path(e.0.as_slice()), e.1);
                proof {
                    assert(path_view(entry.0@) == path_view(all[i as int].0@));
                    let pushed_real = kept@.push(all[i as int]);
                    let pushed_copy = kept@.push(entry);
                    assert(pushed_real.drop_last() =~= kept@);
                    assert(pushed_copy.drop_last() =~= kept@);
                    assert(entries_map(pushed_copy) == entries_map(pushed_real));
                    assert forall|a: int, b: int|
                        0 <= a < pushed_copy.len() && 0 <= b < pushed_copy.len() && a != b implies path_view(
                        #[trigger] pushed_copy[a].0@,
                    ) != path_view(#[trigger] pushed_copy[b].0@) by {
                        assert(path_view(pushed_copy[a].0@) == path_view(pushed_real[a].0@));
                        assert(path_view(pushed_copy[b].0@) == path_view(pushed_real[b].0@));
                    }
                }
                kept.push(entry);
            }
            i = i + 1;
        }
        assert(all.take(n as int) =~= all);
        self.opening = kept;
    }

    /// Drops the openings that have expired at `now`.
    fn remove_expired(&mut self, now: u64)
        ensures
            final(self)@.opening == live_openings(old(self)@.opening, now),
            final(self)@.refreshed_at == old(self)@.refreshed_at,
            final(self)@.ready_projects == old(self)@.ready_projects,
    {
        let ghost before = self@.opening;
        self.retain_openings(Some(now), None);
        assert(retained_openings(before, Some(now), None) =~= live_openings(before, now));
    }

    /// Whether `project` is recorded, and where.
    fn find(&self, project: &[PathComponent]) -> (r: Option<usize>)
        ensures
            match r {
                Some(i) => i < self.opening@.len() && path_view(self.opening@[i as int].0@) == path_view(
                    project@,
                ),
                None => !entries_map(self.opening@).contains_key(path_view(project@)),
            },
    {
        let n = self.opening.len();
        let mut i: usize = 0;
        while i < n
            invariant
                n == self.opening@.len(),
                i <= n,
                forall|j: int| 0 <= j < i ==> path_view(#[trigger] self.opening@[j].0@) != path_view(project@),
            decreases n - i,
        {
            if path_equal(self.opening[i].0.as_slice(), project) {
                return Some(i);
            }
            i = i + 1;
        }
        proof {
            lemma_entries_map_keys(self.opening@, path_view(project@));
        }
        None
    }

    /// Marks `project` as being opened at `now`, unless it already is;
    /// says whether it did. Openings that have expired are forgotten first,
    /// and a successful mark also invalidates the cache of ready editors.
    pub fn try_mark_opening_at(&mut self, project: Vec<PathComponent>, now: u64) -> (r: bool)
        ensures
            r == mark_succeeds(old(self)@.opening, path_view(project@), now),
            final(self)@.opening == opening_after_mark(old(self)@.opening, path_view(project@), now),
            r ==> final(self)@.refreshed_at is None && final(self)@.ready_projects == Seq::<Seq<u8>>::empty(),
            !r ==> final(self)@.refreshed_at == old(self)@.refreshed_at && final(self)@.ready_projects
                == old(self)@.ready_projects,
    {
        self.remove_expired(now);
        proof {
            use_type_invariant(&*self);
        }
        let ghost live = self.opening@;
        let ghost key = path_view(project@);
        match self.find(project.as_slice()) {
            Some(i) => {
                proof {
                    lemma_entries_map_keys(live, key);
                }
                false
            },
            None => {
                let ghost pushed = live.push((project, now));
                proof {
                    assert(pushed.drop_last() =~= live);
                    assert(distinct_keys(pushed)) by {
                        assert forall|a: int, b: int|
                            0 <= a < pushed.len() && 0 <= b < pushed.len() && a != b implies path_view(
                            #[trigger] pushed[a].0@,
                        ) != path_view(#[trigger] pushed[b].0@) by {
                            if a < live.len() && b < live.len() {
                                assert(pushed[a] == live[a]);
                                assert(pushed[b] == live[b]);
                            } else if a < live.len() {
                                assert(pushed[a] == live[a]);
                                lemma_entries_map_keys(live, path_view(live[a].0@));
                            } else if b < live.len() {
                                assert(pushed[b] == live[b]);
                                lemma_entries_map_keys(live, path_view(live[b].0@));
                            }
                        }
                    }
                }
                let mut entries: Vec<(Vec<PathComponent>, u64)> = Vec::new();
                std::mem::swap(&mut entries, &mut self.opening);
                entries.push((project, now));
                self.opening = entries;
                let mut cache = UnityRuntimeCache::new();
                std::mem::swap(&mut cache, &mut self.runtime_cache);
                cache.invalidate();
                self.runtime_cache = cache;
                true
            },
        }
    }

    /// Whether `project` is being opened at `now`. Openings that have
    /// expired are forgotten first.
    pub fn is_opening_at(&mut self, project: &[PathComponent], now: u64) -> (r: bool)
        ensures
            r == live_openings(old(self)@.opening, now).contains_key(path_view(project@)),
            final(self)@.opening == live_openings(old(self)@.opening, now),
            final(self)@.refreshed_at == old(self)@.refreshed_at,
            final(self)@.ready_projects == old(self)@.ready_projects,
    {
        self.remove_expired(now);
        let found = self.find(project);
        proof {
            lemma_entries_map_keys(self.opening@, path_view(project@));
        }
        found.is_some()
    }

    /// Forgets that `project` is being opened.
    pub fn clear_opening(&mut self, project: &[PathComponent])
        ensures
            final(self)@.opening == old(self)@.opening.remove(path_view(project@)),
            final(self)@.refreshed_at == old(self)@.refreshed_at,
            final(self)@.ready_projects == old(self)@.ready_projects,
    {
        let ghost before = self@.opening;
        self.retain_openings(None, Some(project));
        assert(retained_openings(before, None, Some(path_view(project@))) =~= before.remove(
            path_view(project@),
        ));
    }

    /// Whether the list of ready editors should be refreshed before it is
    /// used at `now`.
    pub fn should_refresh_runtime_cache(&self, now: u64) -> (r: bool)
        ensures
            r == cache_is_stale(self@.refreshed_at, now),
    {
        self.runtime_cache.should_refresh(now)
    }

    /// Records the outcome of a refresh of the list of ready editors made
    /// at `now`; `None` means that looking for them failed.
    pub fn complete_runtime_refresh(&mut self, projects: Option<Vec<Vec<u8>>>, now: u64)
        ensures
            final(self)@.opening == old(self)@.opening,
            final(self)@.refreshed_at == Some(now),
            final(self)@.ready_projects == match projects {
                Some(p) => p@.map_values(|q: Vec<u8>| q@),
                None => Seq::<Seq<u8>>::empty(),
            },
    {
        proof {
            use_type_invariant(&*self);
        }
        let mut cache = UnityRuntimeCache::new();
        std::mem::swap(&mut cache, &mut self.runtime_cache);
        cache.complete_refresh(projects, now);
        self.runtime_cache = cache;
    }

    /// The cache of ready editors.
    pub fn runtime_cache(&self) -> (r: &UnityRuntimeCache)
        ensures
            r.spec_refreshed_at() == self@.refreshed_at,
            r.spec_ready_projects() == self@.ready_projects,
    {
        &self.runtime_cache
    }
}

/// Right after a mark at `now`, whether it succeeded or not, the project is
/// being opened at `now`.
pub proof fn lemma_marked_project_is_opening(
    opening: Map<Seq<ComponentView>, u64>,
    key: Seq<ComponentView>,
    now: u64,
)
    ensures
        live_openings(opening_after_mark(opening, key, now), now).contains_key(key),
        !mark_succeeds(opening_after_mark(opening, key, now), key, now),
{
    let after = opening_after_mark(opening, key, now);
    assert(after.contains_key(key));
    if mark_succeeds(opening, key, now) {
        assert(after[key] == now);
    } else {
        assert(live_openings(opening, now).contains_key(key));
    }
    assert(!is_expired(after[key], now));
}

/// A project is marked as opening only once: after a successful mark at
/// `t`, marking it again fails until the timeout has passed.
pub proof fn lemma_mark_only_once(
    opening: Map<Seq<ComponentView>, u64>,
    key: Seq<ComponentView>,
    t: u64,
    later: u64,
)
    requires
        mark_succeeds(opening, key, t),
        elapsed(later, t) < UNITY_OPENING_TIMEOUT,
    ensures
        !mark_succeeds(opening_after_mark(opening, key, t), key, later),
{
    let after = opening_after_mark(opening, key, t);
    assert(after[key] == t);
    assert(live_openings(after, later).contains_key(key));
}

/// A refused mark keeps the project's opening as it was: it still starts
/// at the time of the mark that succeeded.
pub proof fn lemma_refused_mark_keeps_start(
    opening: Map<Seq<ComponentView>, u64>,
    key: Seq<ComponentView>,
    now: u64,
)
    requires
        !mark_succeeds(opening, key, now),
    ensures
        opening_after_mark(opening, key, now).contains_key(key),
        opening_after_mark(opening, key, now)[key] == opening[key],
{
}

/// After a successful mark at `t`, marks are refused until the timeout has
/// passed since `t`, however many were tried in between, and the first mark
/// at or after `t` plus the timeout succeeds.
pub proof fn lemma_refused_marks_do_not_extend_the_opening(
    opening: Map<Seq<ComponentView>, u64>,
    key: Seq<ComponentView>,
    t: u64,
    retry: u64,
    later: u64,
)
    requires
        mark_succeeds(opening, key, t),
        t <= retry,
        retry - t < UNITY_OPENING_TIMEOUT,
        t <= later,
        later - t >= UNITY_OPENING_TIMEOUT,
    ensures
        !mark_succeeds(opening_after_mark(opening, key, t), key, retry),
        opening_after_mark(opening_after_mark(opening, key, t), key, retry)[key] == t,
        mark_succeeds(opening_after_mark(opening_after_mark(opening, key, t), key, retry), key, later),
{
    let m1 = opening_after_mark(opening, key, t);
    assert(m1[key] == t);
    lemma_mark_only_once(opening, key, t, retry);
    lemma_refused_mark_keeps_start(m1, key, retry);
}

/// Clearing a project allows it to be marked again at once.
pub proof fn lemma_clear_allows_mark(opening: Map<Seq<ComponentView>, u64>, key: Seq<ComponentView>, now: u64)
    ensures
        mark_succeeds(opening.remove(key), key, now),
{
}

/// An opening expires: after a successful mark at `t`, the project is being
/// opened at a later time exactly when less than the timeout has passed.
pub proof fn lemma_opening_expires(
    opening: Map<Seq<ComponentView>, u64>,
    key: Seq<ComponentView>,
    t: u64,
    later: u64,
)
    requires
        mark_succeeds(opening, key, t),
        t <= later,
    ensures
        live_openings(opening_after_mark(opening, key, t), later).contains_key(key) <==> later - t
            < UNITY_OPENING_TIMEOUT,
{
    let after = opening_after_mark(opening, key, t);
    assert(after[key] == t);
}

/// Marking one project changes nothing for any other project, beyond the
/// forgetting of expired openings.
pub proof fn lemma_mark_leaves_other_projects(
    opening: Map<Seq<ComponentView>, u64>,
    key: Seq<ComponentView>,
    other: Seq<ComponentView>,
    now: u64,
)
    requires
        other != key,
    ensures
        opening_after_mark(opening, key, now).contains_key(other) == live_openings(opening, now).contains_key(other),
        live_openings(opening, now).contains_key(other) ==> opening_after_mark(opening, key, now)[other]
            == opening[other],
{
}

/// The list of ready editors is reused until it is [`UNITY_RUNTIME_CACHE_TTL`]
/// old and refreshed from then on; once invalidated, it is refreshed at any
/// time.
pub proof fn lemma_cache_expires_after_ttl(refreshed_at: u64, now: u64)
    requires
        refreshed_at <= now,
    ensures
        cache_is_stale(Some(refreshed_at), now) <==> now - refreshed_at >= UNITY_RUNTIME_CACHE_TTL,
        cache_is_stale(None, now),
{
}

} // verus!
