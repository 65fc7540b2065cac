//! minipot.lock: the reproducible state of the server (exact Paper build and
//! pinned plugins), and the decisions `prepare` takes from it.

use vstd::prelude::*;
use vstd::string::StringExecFns;
use crate::downloadable::{
    cache_view, derive_cache_strategy, derived_cache, distinct_keys, opt_view, CacheStrategy,
    Downloadable, ResolvedFile, ResolvedView, SourceView,
};
use crate::paper::PaperBuild;

verus! {

pub const LOCK_FILE: &'static str = "minipot.lock";

/// Pinned version of one dependency plugin.
pub struct LockedPlugin {
    /// The source declared in minipot.yml; when it changes the plugin is resolved again.
    pub source: Downloadable,
    pub filename: String,
    pub url: String,
    /// SHA-256 computed when the file was downloaded.
    pub sha256: Option<String>,
    pub size: Option<u64>,
    /// The cache location the resolution of `source` chose, so that it can
    /// be found again without calling the registry (`Uncached` for direct
    /// URLs, and for entries written without one).
    pub cache: CacheStrategy,
}

/// Exact Paper build plus pinned plugins; committed next to minipot.yml.
pub struct MinipotLock {
    /// Minecraft version the lock refers to; when minipot.yml names another
    /// one the build is resolved again.
    pub paper_version: String,
    pub paper_build: u32,
    pub paper_sha256: String,
    pub paper_url: String,
    pub plugins: Vec<LockedPlugin>,
}

/// What to do about the Paper jar.
pub enum PaperPlan {
    /// The lock pins a build of the configured version: use it.
    UseLocked { build: u32, url: String, sha256: String },
    /// Ask the API for the latest stable build.  `previous_version` is the
    /// version the lock pinned when the configured version changed, `None`
    /// when nothing was pinned.
    Resolve { previous_version: Option<String> },
}

pub enum PaperPlanView {
    UseLocked { build: u32, url: Seq<char>, sha256: Seq<char> },
    Resolve { previous_version: Option<Seq<char>> },
}

impl View for PaperPlan {
    type V = PaperPlanView;

    open spec fn view(&self) -> PaperPlanView {
        match self {
            PaperPlan::UseLocked { build, url, sha256 } => PaperPlanView::UseLocked {
                build: *build,
                url: url@,
                sha256: sha256@,
            },
            PaperPlan::Resolve { previous_version } => PaperPlanView::Resolve {
                previous_version: opt_view(*previous_version),
            },
        }
    }
}

/// The plan for the configured `version`: a lock that pins a build (build
/// number other than 0) of that very version is used as is; otherwise the
/// build is resolved again.
pub open spec fn paper_plan_spec(lock: MinipotLock, version: Seq<char>) -> PaperPlanView {
    if lock.paper_build != 0 && lock.paper_version@ == version {
        PaperPlanView::UseLocked {
            build: lock.paper_build,
            url: lock.paper_url@,
            sha256: lock.paper_sha256@,
        }
    } else {
        PaperPlanView::Resolve {
            previous_version: if lock.paper_build != 0 {
                Some(lock.paper_version@)
            } else {
                None
            },
        }
    }
}

/// The file names of a list of locked plugins, in order.
pub open spec fn file_names(ps: Seq<LockedPlugin>) -> Seq<Seq<char>> {
    ps.map_values(|p: LockedPlugin| p.filename@)
}

/// File names of `old` that `keep` does not hold, in the order of `old`.
pub open spec fn stale_spec(old: Seq<LockedPlugin>, keep: Seq<Seq<char>>) -> Seq<Seq<char>>
    decreases old.len(),
{
    if old.len() == 0 {
        seq![]
    } else {
        let rest = stale_spec(old.drop_last(), keep);
        if keep.contains(old.last().filename@) {
            rest
        } else {
            rest.push(old.last().filename@)
        }
    }
}

/// Index of the first locked plugin declared with source `src`, or -1.
pub open spec fn locked_index(ps: Seq<LockedPlugin>, src: SourceView) -> int
    decreases ps.len(),
{
    if ps.len() == 0 {
        -1
    } else if ps[0].source@ == src {
        0
    } else {
        let r = locked_index(ps.drop_first(), src);
        if r < 0 {
            -1
        } else {
            r + 1
        }
    }
}

impl MinipotLock {
    /// The lock used when minipot.lock does not exist yet: nothing pinned.
    pub fn empty() -> (r: Self)
        ensures
            r.paper_version@ == Seq::<char>::empty(),
            r.paper_build == 0,
            r.paper_sha256@ == Seq::<char>::empty(),
            r.paper_url@ == Seq::<char>::empty(),
            r.plugins@.len() == 0,
    {
        MinipotLock {
            paper_version: String::new(),
            paper_build: 0,
            paper_sha256: String::new(),
            paper_url: String::new(),
            plugins: Vec::new(),
        }
    }

    /// Decides whether the pinned Paper build can be used for `version`.
    pub fn paper_plan(&self, version: &String) -> (r: PaperPlan)
        ensures
            r@ == paper_plan_spec(*self, version@),
    {
        let version_changed = !(self.paper_version == *version);
        if self.paper_build != 0 && !version_changed {
            PaperPlan::UseLocked {
                build: self.paper_build,
                url: self.paper_url.clone(),
                sha256: self.paper_sha256.clone(),
            }
        } else if self.paper_build != 0 {
            PaperPlan::Resolve { previous_version: Some(self.paper_version.clone()) }
        } else {
            PaperPlan::Resolve { previous_version: None }
        }
    }

    /// Pins a freshly resolved Paper build for `version`.
    pub fn pin_paper_build(&mut self, version: &String, build: &PaperBuild)
        ensures
            final(self).paper_version@ == version@,
            final(self).paper_build == build.build,
            final(self).paper_sha256@ == build.sha256@,
            final(self).paper_url@ == build.url@,
            final(self).plugins == old(self).plugins,
    {
        self.paper_version = version.clone();
        self.paper_build = build.build;
        self.paper_sha256 = build.sha256.clone();
        self.paper_url = build.url.clone();
    }
}

/// Read after write: once a build (number other than 0) is pinned for a
/// version, the plan for that same version uses exactly that build, whatever
/// the lock held before.
pub proof fn pinned_build_is_reused(before: MinipotLock, after: MinipotLock, version: Seq<char>, build: PaperBuild)
    requires
        build.build != 0,
        after.paper_version@ == version,
        after.paper_build == build.build,
        after.paper_sha256@ == build.sha256@,
        after.paper_url@ == build.url@,
    ensures
        paper_plan_spec(after, version) == (PaperPlanView::UseLocked {
            build: build.build,
            url: build.url@,
            sha256: build.sha256@,
        }),
{
}

/// A lock never serves a build of another version: when minipot.yml names a
/// version the lock was not made for, the build is resolved again.
pub proof fn version_change_forces_resolution(lock: MinipotLock, version: Seq<char>)
    requires
        lock.paper_version@ != version,
    ensures
        paper_plan_spec(lock, version) is Resolve,
{
}


pub proof fn lemma_locked_index(ps: Seq<LockedPlugin>, src: SourceView)
    ensures
        -1 <= locked_index(ps, src) < ps.len(),
        locked_index(ps, src) >= 0 ==> ps[locked_index(ps, src)].source@ == src,
        forall|j: int|
            0 <= j < ps.len() && (locked_index(ps, src) < 0 || j < locked_index(ps, src))
                ==> ps[j].source@ != src,
    decreases ps.len(),
{
    if ps.len() > 0 && ps[0].source@ != src {
        lemma_locked_index(ps.drop_first(), src);
        assert forall|j: int|
            0 <= j < ps.len() && (locked_index(ps, src) < 0 || j < locked_index(ps, src))
                implies ps[j].source@ != src by {
            if j > 0 {
                assert(ps[j] == ps.drop_first()[j - 1]);
            }
        }
    }
}

/// The locked entry, if any, pinned for a declared source: the first one
/// whose declared source is the same.
pub fn find_locked(locked: &Vec<LockedPlugin>, plugin: &Downloadable) -> (r: Option<usize>)
    ensures
        match r {
            Some(i) => locked_index(locked@, plugin@) == i as int,
            None => locked_index(locked@, plugin@) == -1,
        },
        r matches Some(i) ==> i < locked@.len() && locked@[i as int].source@ == plugin@,
        r is None ==> forall|j: int| 0 <= j < locked@.len() ==> locked@[j].source@ != plugin@,
{
    proof {
        lemma_locked_index(locked@, plugin@);
    }
    let n = locked.len();
    let mut i: usize = 0;
    while i < n
        invariant
            n == locked@.len(),
            i <= n,
            forall|j: int| 0 <= j < i ==> locked@[j].source@ != plugin@,
            -1 <= locked_index(locked@, plugin@) < locked@.len(),
            locked_index(locked@, plugin@) >= 0 ==> locked@[locked_index(
                locked@,
                plugin@,
            )].source@ == plugin@,
            forall|j: int|
                0 <= j < locked@.len() && (locked_index(locked@, plugin@) < 0 || j < locked_index(
                    locked@,
                    plugin@,
                )) ==> locked@[j].source@ != plugin@,
        decreases n - i,
    {
        if locked[i].source.same_source(plugin) {
            return Some(i);
        }
        i = i + 1;
    }
    None
}

/// The hash map recorded for a lock entry: its SHA-256 when known.
pub open spec fn lock_hashes(sha256: Option<Seq<char>>) -> Seq<(Seq<char>, Seq<char>)> {
    match sha256 {
        Some(h) => seq![("sha256"@, h)],
        None => seq![],
    }
}

/// The file a locked plugin stands for, rebuilt without calling the registry.
pub open spec fn resolved_from_lock_spec(plugin: SourceView, lock: LockedPlugin) -> ResolvedView {
    ResolvedView {
        url: lock.url@,
        filename: lock.filename@,
        size: lock.size,
        hashes: lock_hashes(opt_view(lock.sha256)),
        cache: derived_cache(plugin, cache_view(lock.cache)),
    }
}

/// The file a locked plugin stands for: its pinned URL, name, size and
/// SHA-256, and the cache location derived from the declared source.
pub fn resolved_from_lock(plugin: &Downloadable, lock: &LockedPlugin) -> (r: ResolvedFile)
    ensures
        r@ == resolved_from_lock_spec(plugin@, *lock),
        distinct_keys(r@.hashes),
{
    let mut hashes: Vec<(String, String)> = Vec::new();
    match &lock.sha256 {
        Some(sha) => {
            hashes.push((String::from_str("sha256"), sha.clone()));
        },
        None => {},
    }
    let r = ResolvedFile {
        url: lock.url.clone(),
        filename: lock.filename.clone(),
        size: lock.size,
        hashes,
        cache: derive_cache_strategy(plugin, &lock.cache),
    };
    assert(r@.hashes =~= lock_hashes(opt_view(lock.sha256)));
    r
}

impl LockedPlugin {
    /// The lock entry written after `resolved` was downloaded for `plugin`
    /// and found to have digest `sha256`.
    pub fn from_download(plugin: &Downloadable, resolved: ResolvedFile, sha256: String) -> (r:
        LockedPlugin)
        ensures
            r.source == *plugin,
            r.filename == resolved.filename,
            r.url == resolved.url,
            r.sha256 == Some(sha256),
            r.size == resolved.size,
            r.cache == resolved.cache,
    {
        LockedPlugin {
            source: plugin.clone(),
            filename: resolved.filename,
            url: resolved.url,
            sha256: Some(sha256),
            size: resolved.size,
            cache: resolved.cache,
        }
    }
}

/// Whether some entry of `ps` has file name `name`.
pub fn has_file_name(ps: &Vec<LockedPlugin>, name: &String) -> (r: bool)
    ensures
        r == file_names(ps@).contains(name@),
{
    let n = ps.len();
    let mut i: usize = 0;
    while i < n
        invariant
            n == ps@.len(),
            i <= n,
            forall|j: int| 0 <= j < i ==> ps@[j].filename@ != name@,
        decreases n - i,
    {
        if ps[i].filename == *name {
            assert(file_names(ps@)[i as int] == name@);
            return true;
        }
        i = i + 1;
    }
    assert forall|j: int| 0 <= j < file_names(ps@).len() implies file_names(ps@)[j] != name@ by {
        assert(file_names(ps@)[j] == ps@[j].filename@);
    }
    false
}

/// The jars to delete after plugins were re-pinned: file names of the old
/// lock that the new lock no longer holds, in the order of the old lock.
pub fn stale_plugin_files(old: &Vec<LockedPlugin>, new: &Vec<LockedPlugin>) -> (r: Vec<String>)
    ensures
        r@.map_values(|s: String| s@) == stale_spec(old@, file_names(new@)),
{
    let n = old.len();
    let mut r: Vec<String> = Vec::new();
    let mut i: usize = 0;
    while i < n
        invariant
            n == old@.len(),
            i <= n,
            r@.map_values(|s: String| s@) == stale_spec(old@.take(i as int), file_names(new@)),
        decreases n - i,
    {
        let ghost before = r@;
        assert(old@.take(i + 1).drop_last() =~= old@.take(i as int));
        assert(old@.take(i + 1).last() == old@[i as int]);
        if !has_file_name(new, &old[i].filename) {
            r.push(old[i].filename.clone());
            assert(r@.map_values(|s: String| s@) =~= before.map_values(|s: String| s@).push(
                old@[i as int].filename@,
            ));
        }
        i = i + 1;
    }
    assert(old@.take(n as int) =~= old@);
    r
}

/// Clean-up after re-pinning removes exactly the old files that the new
/// lock does not hold: never one that it holds, and every one that it does
/// not.
pub proof fn stale_files_exact(old: Seq<LockedPlugin>, keep: Seq<Seq<char>>, name: Seq<char>)
    ensures
        stale_spec(old, keep).contains(name) <==> (file_names(old).contains(name)
            && !keep.contains(name)),
    decreases old.len(),
{
    if old.len() > 0 {
        let rest = old.drop_last();
        stale_files_exact(rest, keep, name);
        assert(file_names(old) =~= file_names(rest).push(old.last().filename@));
        vstd::seq_lib::lemma_seq_contains_after_push(file_names(rest), old.last().filename@, name);
        vstd::seq_lib::lemma_seq_contains_after_push(
            stale_spec(rest, keep),
            old.last().filename@,
            name,
        );
    } else {
        assert(file_names(old) =~= Seq::<Seq<char>>::empty());
    }
}

/// What a re-download pins is what the next run reads back: the entry
/// written for a download, turned back into a file, has the downloaded
/// URL, name, size and cache location (the key the resolver built), and its
/// recorded SHA-256 as the only hash.  A direct URL resolves uncached.
pub proof fn relock_round_trip(plugin: SourceView, lock: LockedPlugin, resolved: ResolvedView, sha256: Seq<char>)
    requires
        lock.source@ == plugin,
        lock.filename@ == resolved.filename,
        lock.url@ == resolved.url,
        opt_view(lock.sha256) == Some(sha256),
        lock.size == resolved.size,
        cache_view(lock.cache) == resolved.cache,
        plugin is Url ==> resolved.cache is None,
    ensures
        resolved_from_lock_spec(plugin, lock).url == resolved.url,
        resolved_from_lock_spec(plugin, lock).filename == resolved.filename,
        resolved_from_lock_spec(plugin, lock).size == resolved.size,
        resolved_from_lock_spec(plugin, lock).hashes == seq![("sha256"@, sha256)],
        resolved_from_lock_spec(plugin, lock).cache == resolved.cache,
{
}

} // verus!
