//! Plugin sources as declared in `minipot.yml`, and the file a source
//! resolves to.

use vstd::prelude::*;
use vstd::string::StringExecFns;
use crate::text::{after_last, after_last_exec, before_first, before_first_exec};

verus! {

/// Where a resolved file may be cached between projects.
pub enum CacheStrategy {
    File { namespace: String, path: String },
    /// Not cached; the file is fetched again each time it is needed.
    Uncached,
}

impl Default for CacheStrategy {
    fn default() -> (r: Self)
        ensures
            r is Uncached,
    {
        CacheStrategy::Uncached
    }
}

/// A file resolved from a source: where to download it, its name, its size
/// and hashes when the source publishes them, and how to cache it.
/// `hashes` holds the entries of a map from algorithm name to digest; the
/// resolvers build it with no algorithm twice (`distinct_keys`), and
/// lookups read it as a map when that holds.
pub struct ResolvedFile {
    pub url: String,
    pub filename: String,
    pub size: Option<u64>,
    pub hashes: Vec<(String, String)>,
    pub cache: CacheStrategy,
}

/// The contents of a `ResolvedFile`, strings taken as character sequences.
pub struct ResolvedView {
    pub url: Seq<char>,
    pub filename: Seq<char>,
    pub size: Option<u64>,
    pub hashes: Seq<(Seq<char>, Seq<char>)>,
    pub cache: Option<(Seq<char>, Seq<char>)>,
}

impl View for ResolvedFile {
    type V = ResolvedView;

    open spec fn view(&self) -> ResolvedView {
        ResolvedView {
            url: self.url@,
            filename: self.filename@,
            size: self.size,
            hashes: hashes_view(self.hashes@),
            cache: cache_view(self.cache),
        }
    }
}

/// Declared source of a dependency plugin.
pub enum Downloadable {
    /// Direct URL: no API call, no cache.
    Url { url: String, filename: Option<String> },
    /// Modrinth project.
    Modrinth { id: String, version: String },
    /// Hangar project (official PaperMC registry).
    Hangar { id: String, version: String },
    /// GitHub release asset.
    GithubRelease { repo: String, tag: String, asset: String },
}

/// The contents of a `Downloadable`, strings taken as character sequences.
pub enum SourceView {
    Url { url: Seq<char>, filename: Option<Seq<char>> },
    Modrinth { id: Seq<char>, version: Seq<char> },
    Hangar { id: Seq<char>, version: Seq<char> },
    GithubRelease { repo: Seq<char>, tag: Seq<char>, asset: Seq<char> },
}

pub open spec fn opt_view(o: Option<String>) -> Option<Seq<char>> {
    match o {
        Some(s) => Some(s@),
        None => None,
    }
}

impl View for Downloadable {
    type V = SourceView;

    open spec fn view(&self) -> SourceView {
        match self {
            Downloadable::Url { url, filename } => SourceView::Url {
                url: url@,
                filename: opt_view(*filename),
            },
            Downloadable::Modrinth { id, version } => SourceView::Modrinth {
                id: id@,
                version: version@,
            },
            Downloadable::Hangar { id, version } => SourceView::Hangar { id: id@, version: version@ },
            Downloadable::GithubRelease { repo, tag, asset } => SourceView::GithubRelease {
                repo: repo@,
                tag: tag@,
                asset: asset@,
            },
        }
    }
}

pub fn clone_opt_string(o: &Option<String>) -> (r: Option<String>)
    ensures
        r == *o,
{
    match o {
        Some(s) => Some(s.clone()),
        None => None,
    }
}

impl Clone for Downloadable {
    fn clone(&self) -> (r: Self)
        ensures
            r == *self,
    {
        match self {
            Downloadable::Url { url, filename } => Downloadable::Url {
                url: url.clone(),
                filename: clone_opt_string(filename),
            },
            Downloadable::Modrinth { id, version } => Downloadable::Modrinth {
                id: id.clone(),
                version: version.clone(),
            },
            Downloadable::Hangar { id, version } => Downloadable::Hangar {
                id: id.clone(),
                version: version.clone(),
            },
            Downloadable::GithubRelease { repo, tag, asset } => Downloadable::GithubRelease {
                repo: repo.clone(),
                tag: tag.clone(),
                asset: asset.clone(),
            },
        }
    }
}


/// The cache location of a strategy: `Some((namespace, path))` for a file
/// cache, `None` when uncached.
pub open spec fn cache_view(c: CacheStrategy) -> Option<(Seq<char>, Seq<char>)> {
    match c {
        CacheStrategy::File { namespace, path } => Some((namespace@, path@)),
        CacheStrategy::Uncached => None,
    }
}

pub open spec fn hashes_view(h: Seq<(String, String)>) -> Seq<(Seq<char>, Seq<char>)> {
    h.map_values(|e: (String, String)| (e.0@, e.1@))
}

/// Default version of a registry source: "latest".
pub fn latest() -> (r: String)
    ensures
        r@ == "latest"@,
{
    String::from_str("latest")
}

/// Default asset of a GitHub release source: "first".
pub fn first() -> (r: String)
    ensures
        r@ == "first"@,
{
    String::from_str("first")
}

/// How a source is shown to the user.
pub open spec fn display_spec(d: SourceView) -> Seq<char> {
    match d {
        SourceView::Url { url, .. } => url,
        SourceView::Modrinth { id, version } => "modrinth:"@ + id + "@"@ + version,
        SourceView::Hangar { id, version } => "hangar:"@ + id + "@"@ + version,
        SourceView::GithubRelease { repo, tag, asset } => "github:"@ + repo + "@"@ + tag + "/"@
            + asset,
    }
}

/// The file name a direct URL is saved under: the last path segment of the
/// URL with its query string removed.
pub open spec fn url_file_name(url: Seq<char>) -> Seq<char> {
    after_last(before_first(url, '?'), '/')
}

/// The cache location of a locked plugin, rebuilt without calling the
/// registry: the location its resolution recorded in the lock.  A direct
/// URL is never cached.
pub open spec fn derived_cache(d: SourceView, recorded: Option<(Seq<char>, Seq<char>)>) -> Option<
    (Seq<char>, Seq<char>),
> {
    match d {
        SourceView::Url { .. } => None,
        _ => recorded,
    }
}

fn join3(a: &str, b: &str, c: &str) -> (r: String)
    ensures
        r@ == a@ + b@ + c@,
{
    let mut r = String::from_str(a);
    r.append(b);
    r.append(c);
    r
}

impl Downloadable {
    /// The text shown for this source (`Display` in the command-line tool).
    pub fn to_display_string(&self) -> (r: String)
        ensures
            r@ == display_spec(self@),
    {
        match self {
            Downloadable::Url { url, .. } => url.clone(),
            Downloadable::Modrinth { id, version } => {
                let mut r = join3("modrinth:", id.as_str(), "@");
                r.append(version.as_str());
                r
            },
            Downloadable::Hangar { id, version } => {
                let mut r = join3("hangar:", id.as_str(), "@");
                r.append(version.as_str());
                r
            },
            Downloadable::GithubRelease { repo, tag, asset } => {
                let mut r = join3("github:", repo.as_str(), "@");
                r.append(tag.as_str());
                r.append("/");
                r.append(asset.as_str());
                r
            },
        }
    }

    /// Two declarations name the same source.
    pub fn same_source(&self, other: &Downloadable) -> (r: bool)
        ensures
            r == (self@ == other@),
    {
        match (self, other) {
            (
                Downloadable::Url { url: u1, filename: f1 },
                Downloadable::Url { url: u2, filename: f2 },
            ) => {
                let same_name = match (f1, f2) {
                    (Some(a), Some(b)) => *a == *b,
                    (None, None) => true,
                    _ => false,
                };
                *u1 == *u2 && same_name
            },
            (
                Downloadable::Modrinth { id: i1, version: v1 },
                Downloadable::Modrinth { id: i2, version: v2 },
            ) => *i1 == *i2 && *v1 == *v2,
            (
                Downloadable::Hangar { id: i1, version: v1 },
                Downloadable::Hangar { id: i2, version: v2 },
            ) => *i1 == *i2 && *v1 == *v2,
            (
                Downloadable::GithubRelease { repo: r1, tag: t1, asset: a1 },
                Downloadable::GithubRelease { repo: r2, tag: t2, asset: a2 },
            ) => *r1 == *r2 && *t1 == *t2 && *a1 == *a2,
            _ => false,
        }
    }

    /// Resolves a source that needs no registry lookup: a direct URL
    /// resolves to itself, uncached, with no size or hashes, saved under the
    /// declared file name or else the URL's last path segment.  Registry
    /// sources give `None`: they are resolved through their API.
    pub fn resolve_direct(&self) -> (r: Option<ResolvedFile>)
        ensures
            match self@ {
                SourceView::Url { url, filename } => r matches Some(f) && f.url@ == url
                    && f.filename@ == (match filename {
                    Some(n) => n,
                    None => url_file_name(url),
                }) && f.size is None && f.hashes@.len() == 0 && f.cache is Uncached,
                _ => r is None,
            },
            r matches Some(f) ==> distinct_keys(f@.hashes),
    {
        match self {
            Downloadable::Url { url, filename } => {
                let name = match filename {
                    Some(f) => f.clone(),
                    None => {
                        let clean = before_first_exec(url.as_str(), '?');
                        after_last_exec(clean.as_str(), '/')
                    },
                };
                Some(
                    ResolvedFile {
                        url: url.clone(),
                        filename: name,
                        cache: CacheStrategy::Uncached,
                        size: None,
                        hashes: Vec::new(),
                    },
                )
            },
            _ => None,
        }
    }
}

/// Rebuilds the cache location of a locked plugin from its source and the
/// location its resolution recorded, without calling the registry: the
/// same key the resolver built, so the file cached at resolution is found
/// again.
pub fn derive_cache_strategy(plugin: &Downloadable, recorded: &CacheStrategy) -> (r: CacheStrategy)
    ensures
        cache_view(r) == derived_cache(plugin@, cache_view(*recorded)),
{
    match plugin {
        Downloadable::Url { .. } => CacheStrategy::Uncached,
        _ => match recorded {
            CacheStrategy::File { namespace, path } => CacheStrategy::File {
                namespace: namespace.clone(),
                path: path.clone(),
            },
            CacheStrategy::Uncached => CacheStrategy::Uncached,
        },
    }
}

/// The digest a hash map records for `algorithm` (the first entry of that name).
pub open spec fn hash_lookup(hashes: Seq<(Seq<char>, Seq<char>)>, algorithm: Seq<char>) -> Option<
    Seq<char>,
>
    decreases hashes.len(),
{
    if hashes.len() == 0 {
        None
    } else if hashes[0].0 == algorithm {
        Some(hashes[0].1)
    } else {
        hash_lookup(hashes.drop_first(), algorithm)
    }
}

/// No two entries share a key: the entries of a map.
pub open spec fn distinct_keys<K, V>(entries: Seq<(K, V)>) -> bool {
    forall|i: int, j: int| 0 <= i < j < entries.len() ==> entries[i].0 != entries[j].0
}

/// In the entries of a map, the lookup of a key gives the value of the
/// entry that holds it.
pub proof fn lemma_hash_lookup_entry(hashes: Seq<(Seq<char>, Seq<char>)>, algorithm: Seq<char>, i: int)
    requires
        distinct_keys(hashes),
        0 <= i < hashes.len(),
        hashes[i].0 == algorithm,
    ensures
        hash_lookup(hashes, algorithm) == Some(hashes[i].1),
    decreases hashes.len(),
{
    if i > 0 {
        assert(hashes[0].0 != hashes[i].0);
        let rest = hashes.drop_first();
        assert(distinct_keys(rest)) by {
            assert forall|a: int, b: int| 0 <= a < b < rest.len() implies rest[a].0 != rest[b].0 by {
                assert(rest[a] == hashes[a + 1] && rest[b] == hashes[b + 1]);
            }
        }
        assert(rest[i - 1] == hashes[i]);
        lemma_hash_lookup_entry(rest, algorithm, i - 1);
    }
}

/// A copy of a hash map's entries.
pub fn clone_hashes(v: &Vec<(String, String)>) -> (r: Vec<(String, String)>)
    ensures
        r@ == v@,
{
    let mut r: Vec<(String, String)> = Vec::new();
    let n = v.len();
    let mut i: usize = 0;
    while i < n
        invariant
            n == v@.len(),
            i <= n,
            r@ == v@.take(i as int),
        decreases n - i,
    {
        let e = (v[i].0.clone(), v[i].1.clone());
        r.push(e);
        assert(r@ =~= v@.take(i + 1));
        i = i + 1;
    }
    assert(v@.take(n as int) =~= v@);
    r
}

/// Looks up the digest recorded for `algorithm`.
pub fn find_hash(hashes: &Vec<(String, String)>, algorithm: &str) -> (r: Option<String>)
    ensures
        opt_view(r) == hash_lookup(hashes_view(hashes@), algorithm@),
        distinct_keys(hashes_view(hashes@)) ==> forall|i: int|
            0 <= i < hashes@.len() && #[trigger] hashes@[i].0@ == algorithm@ ==> opt_view(r) == Some(
                hashes@[i].1@),
{
    proof {
        let hv = hashes_view(hashes@);
        if distinct_keys(hv) {
            assert forall|i: int| 0 <= i < hashes@.len() && #[trigger] hashes@[i].0@ == algorithm@
                implies hash_lookup(hv, algorithm@) == Some(hashes@[i].1@) by {
                assert(hv[i] == (hashes@[i].0@, hashes@[i].1@));
                lemma_hash_lookup_entry(hv, algorithm@, i);
            }
        }
    }
    let n = hashes.len();
    let mut i: usize = 0;
    let ghost hv = hashes_view(hashes@);
    assert(hv.skip(0) =~= hv);
    while i < n
        invariant
            n == hashes@.len(),
            hv == hashes_view(hashes@),
            i <= n,
            hash_lookup(hv, algorithm@) == hash_lookup(hv.skip(i as int), algorithm@),
            distinct_keys(hv) ==> forall|k: int|
                0 <= k < hashes@.len() && #[trigger] hashes@[k].0@ == algorithm@ ==> hash_lookup(
                    hv,
                    algorithm@,
                ) == Some(hashes@[k].1@),
        decreases n - i,
    {
        let ghost rest = hv.skip(i as int);
        assert(rest[0] == (hashes@[i as int].0@, hashes@[i as int].1@));
        if crate::text::str_eq(hashes[i].0.as_str(), algorithm) {
            return Some(hashes[i].1.clone());
        }
        assert(rest.drop_first() =~= hv.skip(i + 1));
        i = i + 1;
    }
    None
}


impl ResolvedFile {
    /// The SHA-256 the source published for this file, if any.
    pub fn expected_sha256(&self) -> (r: Option<String>)
        ensures
            opt_view(r) == hash_lookup(self@.hashes, "sha256"@),
            distinct_keys(self@.hashes) ==> forall|i: int|
                0 <= i < self@.hashes.len() && #[trigger] self@.hashes[i].0 == "sha256"@
                    ==> opt_view(r) == Some(self@.hashes[i].1),
    {
        proof {
            if distinct_keys(self@.hashes) {
                assert forall|i: int|
                    0 <= i < self@.hashes.len() && #[trigger] self@.hashes[i].0 == "sha256"@
                    implies hash_lookup(self@.hashes, "sha256"@) == Some(self@.hashes[i].1) by {
                    lemma_hash_lookup_entry(self@.hashes, "sha256"@, i);
                }
            }
        }
        find_hash(&self.hashes, "sha256")
    }
}

} // verus!
