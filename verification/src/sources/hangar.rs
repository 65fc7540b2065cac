//! Hangar (the official PaperMC registry) as a plugin source.

use vstd::prelude::*;
use vstd::string::StringExecFns;
use crate::downloadable::{distinct_keys, CacheStrategy, ResolvedFile, ResolvedView};
use crate::text::{
    fill, lemma_fill_plain, lemma_replace_fill, lemma_replace_fill_other, lemma_replace_plain,
    no_dollar, plain_pieces, contains, contains_char, contains_char_exec, contains_exec, index_result, replace_all,
    replace_exec, shift, split_once, split_once_exec, str_eq, views,
};

verus! {

pub const API_V1: &'static str = "https://hangar.papermc.io/api/v1";

#[derive(PartialEq, Eq, Structural)]
pub enum Platform {
    Paper,
    Waterfall,
    Velocity,
}

/// A version of a Hangar project.  The maps of the API are held as their
/// entries, so a platform occurs at most once in each (`version_wf`).
pub struct ProjectVersion {
    pub name: String,
    pub downloads: Vec<(Platform, PlatformVersionDownload)>,
    pub platform_dependencies: Vec<(Platform, Vec<String>)>,
}

pub enum PlatformVersionDownload {
    Hangar { file_info: FileInfo, download_url: String },
    External { file_info: FileInfo, external_url: String },
}

pub struct FileInfo {
    pub name: String,
    pub size_bytes: u64,
    pub sha256_hash: String,
}

/// A release channel; `flags` holds the members of the set, so none occurs
/// twice (`channel_wf`).
pub struct ProjectChannel {
    pub name: String,
    pub flags: Vec<ChannelFlag>,
}

pub enum ChannelFlag {
    Frozen,
    Unstable,
    Pinned,
    SendsNotifications,
}

pub struct Pagination {
    pub limit: u64,
    pub offset: u64,
    pub count: u64,
}

pub struct ProjectVersionsResponse {
    pub pagination: Pagination,
    pub result: Vec<ProjectVersion>,
}

/// Query of the versions endpoint.
pub struct PlatformFilter {
    pub limit: u64,
    pub offset: u64,
    pub channel: Option<String>,
    pub platform: Option<Platform>,
}

/// Why a Hangar source could not be resolved.
pub enum HangarError {
    /// The chosen version has no download for Paper.
    PlatformUnavailable { id: String },
}

impl Clone for FileInfo {
    fn clone(&self) -> (r: Self)
        ensures
            r == *self,
    {
        FileInfo {
            name: self.name.clone(),
            size_bytes: self.size_bytes,
            sha256_hash: self.sha256_hash.clone(),
        }
    }
}

impl Clone for Platform {
    fn clone(&self) -> (r: Self)
        ensures
            r == *self,
    {
        match self {
            Platform::Paper => Platform::Paper,
            Platform::Waterfall => Platform::Waterfall,
            Platform::Velocity => Platform::Velocity,
        }
    }
}

impl Default for PlatformFilter {
    /// The first page of 25 versions, on any channel and platform.
    fn default() -> (r: Self)
        ensures
            r.limit == 25,
            r.offset == 0,
            r.channel is None,
            r.platform is None,
    {
        PlatformFilter { limit: 25, offset: 0, channel: None, platform: None }
    }
}

/// The maps of a version hold each platform at most once.
pub open spec fn version_wf(v: ProjectVersion) -> bool {
    distinct_keys(v.downloads@) && distinct_keys(v.platform_dependencies@)
}

/// The flag set of a channel holds each flag at most once.
pub open spec fn channel_wf(c: ProjectChannel) -> bool {
    c.flags@.no_duplicates()
}

pub open spec fn download_url_of(d: PlatformVersionDownload) -> Seq<char> {
    match d {
        PlatformVersionDownload::Hangar { download_url, .. } => download_url@,
        PlatformVersionDownload::External { external_url, .. } => external_url@,
    }
}

pub open spec fn file_info_of(d: PlatformVersionDownload) -> FileInfo {
    match d {
        PlatformVersionDownload::Hangar { file_info, .. } => file_info,
        PlatformVersionDownload::External { file_info, .. } => file_info,
    }
}

impl PlatformVersionDownload {
    /// Where the file is downloaded: Hangar's own URL or the external one.
    pub fn get_url(&self) -> (r: String)
        ensures
            r@ == download_url_of(*self),
    {
        match self {
            PlatformVersionDownload::Hangar { download_url, .. } => download_url.clone(),
            PlatformVersionDownload::External { external_url, .. } => external_url.clone(),
        }
    }

    /// The name, size and digest of the file.
    pub fn get_file_info(&self) -> (r: FileInfo)
        ensures
            r == file_info_of(*self),
    {
        match self {
            PlatformVersionDownload::Hangar { file_info, .. } => file_info.clone(),
            PlatformVersionDownload::External { file_info, .. } => file_info.clone(),
        }
    }
}

/// minipot only runs Paper servers.
pub fn platform() -> (r: Platform)
    ensures
        r == Platform::Paper,
{
    Platform::Paper
}

/// The query used for version searches: Paper versions, default paging.
pub fn platform_filter() -> (r: PlatformFilter)
    ensures
        r.limit == 25,
        r.offset == 0,
        r.channel is None,
        r.platform == Some(Platform::Paper),
{
    PlatformFilter { platform: Some(platform()), ..Default::default() }
}

/// The project part of an id written "owner/slug" (the whole id otherwise).
pub open spec fn slug_spec(id: Seq<char>) -> Seq<char> {
    match split_once(id, '/') {
        Some((_, s)) => s,
        None => id,
    }
}

pub fn hangar_slug(id: &str) -> (r: String)
    ensures
        r@ == slug_spec(id@),
{
    match split_once_exec(id, '/') {
        Some((_, s)) => s,
        None => String::from_str(id),
    }
}

/// `{API_V1}/projects/{slug}/versions`
pub fn versions_url(id: &str) -> (r: String)
    ensures
        r@ == API_V1@ + "/projects/"@ + slug_spec(id@) + "/versions"@,
{
    let mut r = String::from_str(API_V1);
    r.append("/projects/");
    let slug = hangar_slug(id);
    r.append(slug.as_str());
    r.append("/versions");
    r
}

/// `{API_V1}/projects/{slug}/versions/{name}`
pub fn version_url(id: &str, name: &str) -> (r: String)
    ensures
        r@ == API_V1@ + "/projects/"@ + slug_spec(id@) + "/versions/"@ + name@,
{
    let mut r = String::from_str(API_V1);
    r.append("/projects/");
    let slug = hangar_slug(id);
    r.append(slug.as_str());
    r.append("/versions/");
    r.append(name);
    r
}

/// How a requested version is looked up.
pub enum VersionQuery {
    /// Search the paged version list, for a name when one is given.
    Search { plugin_version: Option<String> },
    /// Fetch the version of this exact name.
    Direct { name: String },
}

pub open spec fn query_spec(version: Seq<char>, mc: Seq<char>) -> (int, Seq<char>) {
    if version == "latest"@ {
        (0, seq![])
    } else if contains_char(version, '$') {
        (1, replace_all(replace_all(version, "${mcver}"@, mc), "${mcversion}"@, mc))
    } else {
        (2, version)
    }
}

/// A requested version that is a template, plain pieces around `${mcver}`
/// or around `${mcversion}` placeholders, is searched for under the
/// template with every placeholder replaced by the Minecraft version.
pub proof fn hangar_version_template_filled(pieces: Seq<Seq<char>>, mc: Seq<char>)
    requires
        pieces.len() >= 2,
        plain_pieces(pieces),
        no_dollar(mc),
    ensures
        query_spec(fill(pieces, "${mcver}"@), mc) == (1int, fill(pieces, mc)),
        query_spec(fill(pieces, "${mcversion}"@), mc) == (1int, fill(pieces, mc)),
{
    reveal_strlit("${mcver}");
    reveal_strlit("${mcversion}");
    reveal_strlit("latest");
    let short = "${mcver}"@;
    let long = "${mcversion}"@;
    assert(no_dollar(short.drop_first()));
    assert(no_dollar(long.drop_first()));
    lemma_fill_plain(pieces, mc);
    assert(no_dollar(pieces[0]));
    // Both templates hold a '$' just after the first piece, so neither is "latest".
    let a = fill(pieces, short);
    let b = fill(pieces, long);
    assert(a =~= pieces[0] + short + fill(pieces.drop_first(), short));
    assert(b =~= pieces[0] + long + fill(pieces.drop_first(), long));
    assert(a[pieces[0].len() as int] == '$');
    assert(b[pieces[0].len() as int] == '$');
    assert(contains_char(a, '$'));
    assert(contains_char(b, '$'));
    assert(a != "latest"@) by {
        if a == "latest"@ {
            assert(a[pieces[0].len() as int] == "latest"@[pieces[0].len() as int]);
        }
    }
    assert(b != "latest"@) by {
        if b == "latest"@ {
            assert(b[pieces[0].len() as int] == "latest"@[pieces[0].len() as int]);
        }
    }
    lemma_replace_fill(pieces, short, mc);
    lemma_replace_plain(fill(pieces, mc), long, mc);
    lemma_replace_fill_other(pieces, long, short, mc, 7);
    lemma_replace_fill(pieces, long, mc);
}

/// "latest" searches for any compatible version; a name holding `$` has the
/// Minecraft version substituted and is searched for; any other name is
/// fetched directly.
pub fn version_query(version: &str, mc: &str) -> (r: VersionQuery)
    ensures
        ({
            let (kind, name) = query_spec(version@, mc@);
            match r {
                VersionQuery::Search { plugin_version: None } => kind == 0,
                VersionQuery::Search { plugin_version: Some(v) } => kind == 1 && v@ == name,
                VersionQuery::Direct { name: n } => kind == 2 && n@ == name,
            }
        }),
{
    if str_eq(version, "latest") {
        VersionQuery::Search { plugin_version: None }
    } else if contains_char_exec(version, '$') {
        proof {
            reveal_strlit("${mcver}");
            reveal_strlit("${mcversion}");
        }
        let a = replace_exec(version, "${mcver}", mc);
        let b = replace_exec(a.as_str(), "${mcversion}", mc);
        VersionQuery::Search { plugin_version: Some(b) }
    } else {
        VersionQuery::Direct { name: String::from_str(version) }
    }
}

/// The dependency list a version declares for platform `p`.
pub open spec fn deps_for(deps: Seq<(Platform, Vec<String>)>, p: Platform) -> Option<Seq<Seq<char>>>
    decreases deps.len(),
{
    if deps.len() == 0 {
        None
    } else if deps[0].0 == p {
        Some(views(deps[0].1@))
    } else {
        deps_for(deps.drop_first(), p)
    }
}

/// The download a version offers for platform `p`.
pub open spec fn download_for(ds: Seq<(Platform, PlatformVersionDownload)>, p: Platform) -> Option<
    PlatformVersionDownload,
>
    decreases ds.len(),
{
    if ds.len() == 0 {
        None
    } else if ds[0].0 == p {
        Some(ds[0].1)
    } else {
        download_for(ds.drop_first(), p)
    }
}

/// In a map of downloads, the download for a platform is that of the entry
/// that holds it.
pub proof fn lemma_download_for_entry(ds: Seq<(Platform, PlatformVersionDownload)>, p: Platform, i: int)
    requires
        distinct_keys(ds),
        0 <= i < ds.len(),
        ds[i].0 == p,
    ensures
        download_for(ds, p) == Some(ds[i].1),
    decreases ds.len(),
{
    if i > 0 {
        assert(ds[0].0 != ds[i].0);
        let rest = ds.drop_first();
        assert(distinct_keys(rest)) by {
            assert forall|a: int, b: int| 0 <= a < b < rest.len() implies rest[a].0 != rest[b].0 by {
                assert(rest[a] == ds[a + 1] && rest[b] == ds[b + 1]);
            }
        }
        assert(rest[i - 1] == ds[i]);
        lemma_download_for_entry(rest, p, i - 1);
    }
}

/// In a map of dependencies, the list for a platform is that of the entry
/// that holds it.
pub proof fn lemma_deps_for_entry(deps: Seq<(Platform, Vec<String>)>, p: Platform, i: int)
    requires
        distinct_keys(deps),
        0 <= i < deps.len(),
        deps[i].0 == p,
    ensures
        deps_for(deps, p) == Some(views(deps[i].1@)),
    decreases deps.len(),
{
    if i > 0 {
        assert(deps[0].0 != deps[i].0);
        let rest = deps.drop_first();
        assert(distinct_keys(rest)) by {
            assert forall|a: int, b: int| 0 <= a < b < rest.len() implies rest[a].0 != rest[b].0 by {
                assert(rest[a] == deps[a + 1] && rest[b] == deps[b + 1]);
            }
        }
        assert(rest[i - 1] == deps[i]);
        lemma_deps_for_entry(rest, p, i - 1);
    }
}

/// A version is compatible when, if both a platform and a platform version
/// are asked for, it lists that platform version among its dependencies
/// for the platform.
pub open spec fn compatible(v: ProjectVersion, plat: Option<Platform>, pv: Option<Seq<char>>) -> bool {
    match (plat, pv) {
        (Some(p), Some(x)) => match deps_for(v.platform_dependencies@, p) {
            Some(ds) => ds.contains(x),
            None => false,
        },
        _ => true,
    }
}

/// Of a well-formed version, compatibility with platform `p` and platform
/// version `x` reads the one dependency entry for `p`: the version is
/// compatible exactly when that entry lists `x`.
pub proof fn compatible_reads_entry(v: ProjectVersion, p: Platform, x: Seq<char>, i: int)
    requires
        version_wf(v),
        0 <= i < v.platform_dependencies@.len(),
        v.platform_dependencies@[i].0 == p,
    ensures
        compatible(v, Some(p), Some(x)) == views(v.platform_dependencies@[i].1@).contains(x),
{
    lemma_deps_for_entry(v.platform_dependencies@, p, i);
}

/// The three searches of a page: 0 = compatible, 1 = compatible and named
/// exactly `t`, 2 = any version whose name contains `t`.
pub open spec fn hangar_pred(
    v: ProjectVersion,
    plat: Option<Platform>,
    pv: Option<Seq<char>>,
    t: Seq<char>,
    mode: int,
) -> bool {
    if mode == 0 {
        compatible(v, plat, pv)
    } else if mode == 1 {
        compatible(v, plat, pv) && v.name@ == t
    } else {
        contains(v.name@, t)
    }
}

pub open spec fn first_match(
    list: Seq<ProjectVersion>,
    plat: Option<Platform>,
    pv: Option<Seq<char>>,
    t: Seq<char>,
    mode: int,
) -> int
    decreases list.len(),
{
    if list.len() == 0 {
        -1
    } else if hangar_pred(list[0], plat, pv, t, mode) {
        0
    } else {
        shift(first_match(list.drop_first(), plat, pv, t, mode), 1)
    }
}

/// The version chosen in a page: with a requested name, the first
/// compatible version of exactly that name, or else the first version (of
/// the whole page) whose name contains it; without one, the first
/// compatible version.
pub open spec fn page_choice(
    list: Seq<ProjectVersion>,
    plat: Option<Platform>,
    pv: Option<Seq<char>>,
    wanted: Option<Seq<char>>,
) -> int {
    match wanted {
        Some(t) => if first_match(list, plat, pv, t, 1) >= 0 {
            first_match(list, plat, pv, t, 1)
        } else {
            first_match(list, plat, pv, t, 2)
        },
        None => first_match(list, plat, pv, seq![], 0),
    }
}

pub open spec fn opt_chars(o: Option<String>) -> Option<Seq<char>> {
    match o {
        Some(s) => Some(s@),
        None => None,
    }
}

fn deps_contain(deps: &Vec<(Platform, Vec<String>)>, p: &Platform, x: &String) -> (r: bool)
    ensures
        r == (match deps_for(deps@, *p) {
            Some(ds) => ds.contains(x@),
            None => false,
        }),
{
    let n = deps.len();
    let mut i: usize = 0;
    assert(deps@.skip(0) =~= deps@);
    while i < n
        invariant
            n == deps@.len(),
            i <= n,
            deps_for(deps@, *p) == deps_for(deps@.skip(i as int), *p),
        decreases n - i,
    {
        assert(deps@.skip(i as int)[0] == deps@[i as int]);
        assert(deps@.skip(i as int).drop_first() =~= deps@.skip(i + 1));
        if deps[i].0 == *p {
            let list = &deps[i].1;
            assert(deps_for(deps@, *p) == Some(views(list@)));
            let m = list.len();
            let mut j: usize = 0;
            while j < m
                invariant
                    m == list@.len(),
                    deps_for(deps@, *p) == Some(views(list@)),
                    j <= m,
                    forall|k: int| 0 <= k < j ==> list@[k]@ != x@,
                decreases m - j,
            {
                if list[j] == *x {
                    assert(views(list@)[j as int] == x@);
                    return true;
                }
                j = j + 1;
            }
            assert forall|k: int| 0 <= k < views(list@).len() implies views(list@)[k] != x@ by {
                assert(views(list@)[k] == list@[k]@);
            }
            return false;
        }
        i = i + 1;
    }
    false
}

fn compatible_exec(v: &ProjectVersion, plat: &Option<Platform>, pv: &Option<String>) -> (r: bool)
    ensures
        r == compatible(*v, *plat, opt_chars(*pv)),
{
    match (plat, pv) {
        (Some(p), Some(x)) => deps_contain(&v.platform_dependencies, p, x),
        _ => true,
    }
}

fn pred_exec(v: &ProjectVersion, plat: &Option<Platform>, pv: &Option<String>, t: &str, mode: u8) -> (r:
    bool)
    requires
        mode <= 2,
    ensures
        r == hangar_pred(*v, *plat, opt_chars(*pv), t@, mode as int),
{
    if mode == 0 {
        compatible_exec(v, plat, pv)
    } else if mode == 1 {
        compatible_exec(v, plat, pv) && str_eq(v.name.as_str(), t)
    } else {
        contains_exec(v.name.as_str(), t)
    }
}

fn find_match(list: &Vec<ProjectVersion>, plat: &Option<Platform>, pv: &Option<String>, t: &str, mode: u8) -> (r:
    Option<usize>)
    requires
        mode <= 2,
    ensures
        index_result(first_match(list@, *plat, opt_chars(*pv), t@, mode as int), r),
        r matches Some(i) ==> i < list@.len(),
{
    let n = list.len();
    let mut i: usize = 0;
    assert(list@.skip(0) =~= list@);
    while i < n
        invariant
            n == list@.len(),
            i <= n,
            mode <= 2,
            first_match(list@, *plat, opt_chars(*pv), t@, mode as int) == shift(
                first_match(list@.skip(i as int), *plat, opt_chars(*pv), t@, mode as int),
                i as int,
            ),
        decreases n - i,
    {
        assert(list@.skip(i as int)[0] == list@[i as int]);
        assert(list@.skip(i as int).drop_first() =~= list@.skip(i + 1));
        if pred_exec(&list[i], plat, pv, t, mode) {
            return Some(i);
        }
        i = i + 1;
    }
    None
}

/// Finds the version to use in one page of the version list.
pub fn find_version(
    versions: &Vec<ProjectVersion>,
    plat: &Option<Platform>,
    platform_version: &Option<String>,
    plugin_version: &Option<String>,
) -> (r: Option<usize>)
    ensures
        index_result(
            page_choice(versions@, *plat, opt_chars(*platform_version), opt_chars(*plugin_version)),
            r,
        ),
        r matches Some(i) ==> i < versions@.len(),
{
    match plugin_version {
        Some(t) => match find_match(versions, plat, platform_version, t.as_str(), 1) {
            Some(i) => Some(i),
            None => find_match(versions, plat, platform_version, t.as_str(), 2),
        },
        None => {
            let r = find_match(versions, plat, platform_version, "", 0);
            proof {
                reveal_strlit("");
                assert(""@ =~= Seq::<char>::empty());
            }
            r
        },
    }
}

/// The next step of a paged version search.
pub enum PageStep {
    /// This version of the page is the one.
    Found { index: usize },
    /// Fetch the next page with this query.
    NextPage { filter: PlatformFilter },
    /// The last page was read: no version fits.
    Exhausted,
    /// The page was full and held no fit, but the next offset does not fit
    /// in a `u64`.
    OffsetOverflow,
}

/// Decides on one page of a version search made with `filter`: the version
/// chosen in the page if any; otherwise the next page (offset advanced by
/// the limit) when the page was full, or the end of the search.  Only a
/// next page whose offset would not fit in a `u64` is refused.
pub fn page_step(
    filter: &PlatformFilter,
    platform_version: &Option<String>,
    plugin_version: &Option<String>,
    page: &Vec<ProjectVersion>,
) -> (r: PageStep)
    ensures
        ({
            let c = page_choice(
                page@,
                filter.platform,
                opt_chars(*platform_version),
                opt_chars(*plugin_version),
            );
            if c >= 0 {
                r matches PageStep::Found { index } && index as int == c
            } else if page@.len() < filter.limit {
                r is Exhausted
            } else if filter.offset + filter.limit > u64::MAX {
                r is OffsetOverflow
            } else {
                r matches PageStep::NextPage { filter: next } && next.offset == filter.offset
                    + filter.limit && next.limit == filter.limit && next.platform
                    == filter.platform && opt_chars(next.channel) == opt_chars(filter.channel)
            }
        }),
{
    match find_version(page, &filter.platform, platform_version, plugin_version) {
        Some(i) => PageStep::Found { index: i },
        None => {
            if (page.len() as u64) < filter.limit {
                PageStep::Exhausted
            } else if filter.offset > u64::MAX - filter.limit {
                PageStep::OffsetOverflow
            } else {
                let channel = match &filter.channel {
                    Some(c) => Some(c.clone()),
                    None => None,
                };
                let platform = match &filter.platform {
                    Some(p) => Some(p.clone()),
                    None => None,
                };
                PageStep::NextPage {
                    filter: PlatformFilter {
                        limit: filter.limit,
                        offset: filter.offset + filter.limit,
                        channel,
                        platform,
                    },
                }
            }
        },
    }
}

/// The file of a version's Paper download.
pub open spec fn hangar_file_spec(id: Seq<char>, version: Seq<char>, d: PlatformVersionDownload) -> ResolvedView {
    let info = file_info_of(d);
    ResolvedView {
        url: download_url_of(d),
        filename: info.name@,
        size: Some(info.size_bytes),
        hashes: seq![("sha256"@, info.sha256_hash@)],
        cache: Some(("hangar"@, id + "/"@ + version + "/"@ + info.name@)),
    }
}

fn download_index(ds: &Vec<(Platform, PlatformVersionDownload)>, p: &Platform) -> (r: Option<usize>)
    ensures
        match r {
            Some(i) => i < ds@.len() && download_for(ds@, *p) == Some(ds@[i as int].1),
            None => download_for(ds@, *p) is None,
        },
{
    let n = ds.len();
    let mut i: usize = 0;
    assert(ds@.skip(0) =~= ds@);
    while i < n
        invariant
            n == ds@.len(),
            i <= n,
            download_for(ds@, *p) == download_for(ds@.skip(i as int), *p),
        decreases n - i,
    {
        assert(ds@.skip(i as int)[0] == ds@[i as int]);
        assert(ds@.skip(i as int).drop_first() =~= ds@.skip(i + 1));
        if ds[i].0 == *p {
            return Some(i);
        }
        i = i + 1;
    }
    None
}

/// Resolves the chosen version of Hangar project `id` to its Paper file,
/// with the SHA-256 Hangar publishes.
pub fn hangar_resolved_file(id: &str, version: &ProjectVersion) -> (r: Result<ResolvedFile, HangarError>)
    ensures
        match download_for(version.downloads@, Platform::Paper) {
            Some(d) => r matches Ok(f) && f@ == hangar_file_spec(id@, version.name@, d),
            None => r matches Err(HangarError::PlatformUnavailable { id: i }) && i@ == id@,
        },
        r matches Ok(f) ==> distinct_keys(f@.hashes),
        version_wf(*version) ==> forall|i: int|
            0 <= i < version.downloads@.len() && #[trigger] version.downloads@[i].0 == Platform::Paper
                ==> (r is Ok && r->Ok_0@ == hangar_file_spec(
                id@,
                version.name@,
                version.downloads@[i].1,
            )),
{
    proof {
        if version_wf(*version) {
            assert forall|i: int|
                0 <= i < version.downloads@.len() && #[trigger] version.downloads@[i].0
                    == Platform::Paper implies download_for(version.downloads@, Platform::Paper)
                == Some(version.downloads@[i].1) by {
                lemma_download_for_entry(version.downloads@, Platform::Paper, i);
            }
        }
    }
    match download_index(&version.downloads, &platform()) {
        None => Err(HangarError::PlatformUnavailable { id: String::from_str(id) }),
        Some(k) => {
            let download = &version.downloads[k].1;
            let info = download.get_file_info();
            let mut path = String::from_str(id);
            path.append("/");
            path.append(version.name.as_str());
            path.append("/");
            path.append(info.name.as_str());
            let mut hashes: Vec<(String, String)> = Vec::new();
            hashes.push((String::from_str("sha256"), info.sha256_hash.clone()));
            let f = ResolvedFile {
                url: download.get_url(),
                filename: info.name.clone(),
                cache: CacheStrategy::File { namespace: String::from_str("hangar"), path },
                size: Some(info.size_bytes),
                hashes,
            };
            assert(f@.hashes =~= seq![("sha256"@, info.sha256_hash@)]);
            Ok(f)
        },
    }
}

} // verus!
