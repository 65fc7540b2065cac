//! GitHub releases as a plugin source.

use vstd::prelude::*;
use vstd::string::StringExecFns;
use crate::downloadable::{distinct_keys, opt_view, ResolvedFile, ResolvedView};
use crate::lines::{ascii_chars, decode_utf8};
use vstd::string::StrSliceExecFns;
use crate::text::{
    fill, first_equal, lemma_fill_plain, lemma_first_equal_is_first, lemma_replace_fill,
    lemma_replace_fill_other, lemma_replace_plain, no_dollar, plain_pieces, contains_char, contains_char_exec, exact_or_containing, find_exact_or_containing,
    index_result, replace_all, replace_exec, str_eq, views,
};

verus! {

pub const CACHE_NAMESPACE: &'static str = "github";

pub const GITHUB_API_BASE: &'static str = "https://api.github.com";

pub const GITHUB_API_VERSION: &'static str = "2022-11-28";

/// An API reply kept in the cache together with its ETag.
pub struct CachedData<T> {
    pub data: T,
    pub etag: String,
}

/// `http::HeaderValue::from_str` accepts a text when every character is a
/// tab, or at least a space and not DEL (characters beyond ASCII are
/// encoded in bytes of 128 and more, which it accepts).
pub open spec fn header_value_ok(s: Seq<char>) -> bool {
    forall|i: int|
        0 <= i < s.len() ==> s[i] == '\t' || ((s[i] as u32) >= 32 && (s[i] as u32) != 127)
}

/// The `If-None-Match` value sent for a cached ETag: the ETag itself when
/// it is a valid header value; nothing without a cached reply.
pub open spec fn sent_etag(cached_etag: Option<Seq<char>>) -> Option<Seq<char>> {
    match cached_etag {
        Some(e) => if header_value_ok(e) {
            Some(e)
        } else {
            None
        },
        None => None,
    }
}

/// `http::HeaderValue::to_str` reads a header as text when every byte is a
/// tab or visible ASCII.
pub open spec fn visible_ascii(b: Seq<u8>) -> bool {
    forall|i: int| 0 <= i < b.len() ==> b[i] == 9 || (32 <= b[i] && b[i] < 127)
}

/// The ETag stored for a reply's `ETag` header: its text, or the empty
/// text when the header is not visible ASCII.
pub open spec fn etag_text(b: Seq<u8>) -> Seq<char> {
    if visible_ascii(b) {
        ascii_chars(b)
    } else {
        seq![]
    }
}

/// The ETag to send with a request, from the cached reply if there is one.
pub fn request_etag<T>(cached: &Option<CachedData<T>>) -> (r: Option<String>)
    ensures
        opt_view(r) == sent_etag(
            match cached {
                Some(c) => Some(c.etag@),
                None => None,
            },
        ),
{
    match cached {
        None => None,
        Some(c) => {
            let e = c.etag.as_str();
            let n = e.unicode_len();
            let mut i: usize = 0;
            while i < n
                invariant
                    n == e@.len(),
                    e@ == c.etag@,
                    *cached == Some(*c),
                    i <= n,
                    forall|j: int|
                        0 <= j < i ==> e@[j] == '\t' || ((e@[j] as u32) >= 32 && (e@[j] as u32)
                            != 127),
                decreases n - i,
            {
                let ch = e.get_char(i);
                if !(ch == '\t' || ((ch as u32) >= 32 && (ch as u32) != 127)) {
                    assert(!header_value_ok(c.etag@)) by {
                        assert(e@[i as int] == ch);
                    }
                    return None;
                }
                i = i + 1;
            }
            Some(c.etag.clone())
        },
    }
}

/// The text of a reply's `ETag` header, as the cache stores it.
pub fn etag_from_header(b: &[u8]) -> (r: String)
    ensures
        r@ == etag_text(b@),
{
    let n = b.len();
    let mut i: usize = 0;
    while i < n
        invariant
            n == b@.len(),
            i <= n,
            forall|j: int| 0 <= j < i ==> b@[j] == 9 || (32 <= b@[j] && b@[j] < 127),
        decreases n - i,
    {
        if !(b[i] == 9 || (32 <= b[i] && b[i] < 127)) {
            return String::new();
        }
        i = i + 1;
    }
    match decode_utf8(b) {
        Some(s) => s,
        None => String::new(),
    }
}

/// What to do with the reply to an API request.
pub enum ApiReply<T> {
    /// Not modified: the cached data is the answer.
    UseCached { data: T },
    /// A fresh body: read it, and cache it under this ETag when there is one.
    UseBody { store_etag: Option<String> },
    /// "Not modified" although nothing was cached.
    NotModifiedWithoutCache,
}

/// Decides on a reply of status `status` to a request made with the cached
/// reply `cached` (if any), whose `ETag` header is `reply_etag`: a 304
/// answers with the cached data; any other status has its body read and
/// stored with the reply's ETag.
pub fn api_reply<T>(status: u16, cached: Option<CachedData<T>>, reply_etag: &Option<Vec<u8>>) -> (r:
    ApiReply<T>)
    ensures
        status == 304 ==> match cached {
            Some(c) => r == ApiReply::UseCached { data: c.data },
            None => r is NotModifiedWithoutCache,
        },
        status != 304 ==> (r matches ApiReply::UseBody { store_etag } && opt_view(store_etag)
            == match reply_etag {
            Some(b) => Some(etag_text(b@)),
            None => None,
        }),
{
    if status == 304 {
        match cached {
            Some(c) => ApiReply::UseCached { data: c.data },
            None => ApiReply::NotModifiedWithoutCache,
        }
    } else {
        match reply_etag {
            Some(b) => ApiReply::UseBody { store_etag: Some(etag_from_header(b.as_slice())) },
            None => ApiReply::UseBody { store_etag: None },
        }
    }
}

/// An ETag stored from a reply is sent back unchanged with the next request
/// for the same data, so a reply that did not change is answered from the
/// cache.
pub proof fn stored_etag_is_sent_back(reply_etag: Seq<u8>)
    ensures
        sent_etag(Some(etag_text(reply_etag))) == Some(etag_text(reply_etag)),
{
    let t = etag_text(reply_etag);
    assert forall|i: int| 0 <= i < t.len() implies t[i] == '\t' || ((t[i] as u32) >= 32 && (t[i]
        as u32) != 127) by {
        assert(t[i] == (reply_etag[i] as char));
    }
}

pub struct GithubRelease {
    pub tag_name: String,
    pub name: String,
    pub assets: Vec<GithubAsset>,
}

pub struct GithubAsset {
    pub url: String,
    pub name: String,
    pub size: u64,
}

/// Why a GitHub source could not be resolved.
pub enum GithubError {
    /// No release matches the requested tag.
    ReleaseNotFound { tag: String, repo: String },
    /// The chosen release has no matching asset.
    AssetNotFound { asset: String, release_tag: String, repo: String },
}

pub open spec fn tag_names(rs: Seq<GithubRelease>) -> Seq<Seq<char>> {
    rs.map_values(|r: GithubRelease| r.tag_name@)
}

pub open spec fn asset_names(assets: Seq<GithubAsset>) -> Seq<Seq<char>> {
    assets.map_values(|a: GithubAsset| a.name@)
}

/// A tag with `${mcver}` and then `${mcversion}` replaced by the Minecraft version.
pub open spec fn tag_for_mc(tag: Seq<char>, mc: Seq<char>) -> Seq<char> {
    replace_all(replace_all(tag, "${mcver}"@, mc), "${mcversion}"@, mc)
}

/// The release chosen for a (substituted) tag: "latest" is the first
/// release listed; any other tag is the first release with exactly that
/// tag, or else the first whose tag contains it.  -1 when none.
pub open spec fn release_index(tags: Seq<Seq<char>>, tag: Seq<char>) -> int {
    if tag == "latest"@ {
        if tags.len() > 0 {
            0
        } else {
            -1
        }
    } else {
        exact_or_containing(tags, tag)
    }
}

/// An asset name with `${version}` and `${tag}` replaced by the release tag
/// and `${mcver}` by the Minecraft version, when it holds a `$`.
pub open spec fn asset_pattern(name: Seq<char>, tag: Seq<char>, mc: Seq<char>) -> Seq<char> {
    if contains_char(name, '$') {
        replace_all(replace_all(replace_all(name, "${version}"@, tag), "${tag}"@, tag), "${mcver}"@, mc)
    } else {
        name
    }
}

/// The asset chosen in a release: "", "first" and "any" pick the first
/// asset; any other name the first asset with exactly that name (after
/// substitution), or else the first whose name contains it.  -1 when none.
pub open spec fn asset_index(names: Seq<Seq<char>>, asset: Seq<char>, tag: Seq<char>, mc: Seq<char>) -> int {
    if asset == ""@ || asset == "first"@ || asset == "any"@ {
        if names.len() > 0 {
            0
        } else {
            -1
        }
    } else {
        exact_or_containing(names, asset_pattern(asset, tag, mc))
    }
}

/// An asset name that is a template, plain pieces around `${tag}`,
/// `${version}` or `${mcver}` placeholders, is matched with every
/// placeholder replaced: `${tag}` and `${version}` by the release tag,
/// `${mcver}` by the Minecraft version.
pub proof fn asset_template_filled(pieces: Seq<Seq<char>>, tag: Seq<char>, mc: Seq<char>)
    requires
        pieces.len() >= 2,
        plain_pieces(pieces),
        no_dollar(tag),
        no_dollar(mc),
    ensures
        asset_pattern(fill(pieces, "${tag}"@), tag, mc) == fill(pieces, tag),
        asset_pattern(fill(pieces, "${version}"@), tag, mc) == fill(pieces, tag),
        asset_pattern(fill(pieces, "${mcver}"@), tag, mc) == fill(pieces, mc),
{
    reveal_strlit("${tag}");
    reveal_strlit("${version}");
    reveal_strlit("${mcver}");
    let t = "${tag}"@;
    let v = "${version}"@;
    let m = "${mcver}"@;
    assert(no_dollar(t.drop_first()));
    assert(no_dollar(v.drop_first()));
    assert(no_dollar(m.drop_first()));
    assert(no_dollar(pieces[0]));
    lemma_template_has_dollar(pieces, t);
    lemma_template_has_dollar(pieces, v);
    lemma_template_has_dollar(pieces, m);
    lemma_fill_plain(pieces, tag);
    lemma_fill_plain(pieces, mc);
    // `${tag}` placeholders.
    lemma_replace_fill_other(pieces, t, v, tag, 2);
    lemma_replace_fill(pieces, t, tag);
    lemma_replace_plain(fill(pieces, tag), m, mc);
    // `${version}` placeholders.
    lemma_replace_fill(pieces, v, tag);
    lemma_replace_plain(fill(pieces, tag), t, tag);
    // `${mcver}` placeholders.
    lemma_replace_fill_other(pieces, m, v, tag, 2);
    lemma_replace_fill_other(pieces, m, t, tag, 2);
    lemma_replace_fill(pieces, m, mc);
}

/// A tag that is a template, plain pieces around `${mcver}` or around
/// `${mcversion}` placeholders, has every placeholder replaced by the
/// Minecraft version.
pub proof fn tag_template_filled(pieces: Seq<Seq<char>>, mc: Seq<char>)
    requires
        plain_pieces(pieces),
        no_dollar(mc),
    ensures
        tag_for_mc(fill(pieces, "${mcver}"@), mc) == fill(pieces, mc),
        tag_for_mc(fill(pieces, "${mcversion}"@), mc) == fill(pieces, mc),
{
    reveal_strlit("${mcver}");
    reveal_strlit("${mcversion}");
    let short = "${mcver}"@;
    let long = "${mcversion}"@;
    assert(no_dollar(short.drop_first()));
    assert(no_dollar(long.drop_first()));
    lemma_fill_plain(pieces, mc);
    lemma_replace_fill(pieces, short, mc);
    lemma_replace_plain(fill(pieces, mc), long, mc);
    lemma_replace_fill_other(pieces, long, short, mc, 7);
    lemma_replace_fill(pieces, long, mc);
}

/// The release used for a (substituted) tag: "latest" is the first release
/// listed; another tag is the first release carrying exactly that tag when
/// one does.
pub proof fn release_for_tag(tags: Seq<Seq<char>>, tag: Seq<char>, j: int)
    requires
        0 <= j < tags.len(),
        tag == "latest"@ || tags[j] == tag,
    ensures
        tag == "latest"@ ==> release_index(tags, tag) == 0,
        tag != "latest"@ ==> {
            let i = release_index(tags, tag);
            &&& 0 <= i <= j
            &&& tags[i] == tag
            &&& forall|k: int| 0 <= k < i ==> tags[k] != tag
        },
{
    lemma_first_equal_is_first(tags, tag);
}

proof fn lemma_template_has_dollar(pieces: Seq<Seq<char>>, hole: Seq<char>)
    requires
        pieces.len() >= 2,
        hole.len() > 0,
        hole[0] == '$',
    ensures
        contains_char(fill(pieces, hole), '$'),
{
    let f = fill(pieces, hole);
    assert(f =~= pieces[0] + hole + fill(pieces.drop_first(), hole));
    assert(f[pieces[0].len() as int] == '$');
}

/// Of a release whose assets are named `names`, an asset template (plain
/// pieces around placeholders of one kind) chooses the first asset named
/// exactly as the filled-in template, when there is one.
pub proof fn asset_named_by_template_is_chosen(
    names: Seq<Seq<char>>,
    pieces: Seq<Seq<char>>,
    hole: Seq<char>,
    value: Seq<char>,
    tag: Seq<char>,
    mc: Seq<char>,
    j: int,
)
    requires
        pieces.len() >= 2,
        plain_pieces(pieces),
        no_dollar(tag),
        no_dollar(mc),
        (hole == "${tag}"@ && value == tag) || (hole == "${version}"@ && value == tag) || (hole
            == "${mcver}"@ && value == mc),
        0 <= j < names.len(),
        names[j] == fill(pieces, value),
    ensures
        ({
            let i = asset_index(names, fill(pieces, hole), tag, mc);
            &&& 0 <= i <= j
            &&& names[i] == fill(pieces, value)
            &&& forall|k: int| 0 <= k < i ==> names[k] != fill(pieces, value)
        }),
{
    reveal_strlit("${tag}");
    reveal_strlit("${version}");
    reveal_strlit("${mcver}");
    reveal_strlit("");
    reveal_strlit("first");
    reveal_strlit("any");
    asset_template_filled(pieces, tag, mc);
    let a = fill(pieces, hole);
    lemma_template_has_dollar(pieces, hole);
    let w = choose|w: int| 0 <= w < a.len() && a[w] == '$';
    assert(a != ""@);
    assert(a != "first"@) by {
        if a == "first"@ {
            assert(a[w] == "first"@[w]);
        }
    }
    assert(a != "any"@) by {
        if a == "any"@ {
            assert(a[w] == "any"@[w]);
        }
    }
    let target = fill(pieces, value);
    assert(asset_pattern(a, tag, mc) == target);
    lemma_first_equal_is_first(names, target);
    assert(first_equal(names, target) >= 0);
}

/// The file of asset `a` of release tag `tag` in `repo`.
pub open spec fn github_file_spec(repo: Seq<char>, tag: Seq<char>, a: GithubAsset) -> ResolvedView {
    ResolvedView {
        url: "https://github.com/"@ + repo + "/releases/download/"@ + tag + "/"@ + a.name@,
        filename: a.name@,
        size: Some(a.size),
        hashes: seq![],
        cache: Some((CACHE_NAMESPACE@, repo + "/releases/"@ + tag + "/"@ + a.name@)),
    }
}

/// Substitutes the Minecraft version into a tag.
pub fn resolve_tag(tag: &str, mc: &str) -> (r: String)
    ensures
        r@ == tag_for_mc(tag@, mc@),
{
    proof {
        reveal_strlit("${mcver}");
        reveal_strlit("${mcversion}");
    }
    let first = replace_exec(tag, "${mcver}", mc);
    replace_exec(first.as_str(), "${mcversion}", mc)
}

fn release_tags(releases: &Vec<GithubRelease>) -> (r: Vec<String>)
    ensures
        views(r@) == tag_names(releases@),
{
    let mut r: Vec<String> = Vec::new();
    let n = releases.len();
    let mut i: usize = 0;
    while i < n
        invariant
            n == releases@.len(),
            i <= n,
            views(r@) == tag_names(releases@).take(i as int),
        decreases n - i,
    {
        let ghost before = r@;
        r.push(releases[i].tag_name.clone());
        assert(views(r@) =~= views(before).push(releases@[i as int].tag_name@));
        assert(views(r@) =~= tag_names(releases@).take(i + 1));
        i = i + 1;
    }
    assert(tag_names(releases@).take(n as int) =~= tag_names(releases@));
    r
}

fn names_of_assets(assets: &Vec<GithubAsset>) -> (r: Vec<String>)
    ensures
        views(r@) == asset_names(assets@),
{
    let mut r: Vec<String> = Vec::new();
    let n = assets.len();
    let mut i: usize = 0;
    while i < n
        invariant
            n == assets@.len(),
            i <= n,
            views(r@) == asset_names(assets@).take(i as int),
        decreases n - i,
    {
        let ghost before = r@;
        r.push(assets[i].name.clone());
        assert(views(r@) =~= views(before).push(assets@[i as int].name@));
        assert(views(r@) =~= asset_names(assets@).take(i + 1));
        i = i + 1;
    }
    assert(asset_names(assets@).take(n as int) =~= asset_names(assets@));
    r
}

/// Chooses the release for an already substituted tag.
pub fn select_release(releases: &Vec<GithubRelease>, tag: &str) -> (r: Option<usize>)
    ensures
        index_result(release_index(tag_names(releases@), tag@), r),
        r matches Some(i) ==> i < releases@.len(),
{
    if str_eq(tag, "latest") {
        if releases.len() > 0 {
            Some(0)
        } else {
            None
        }
    } else {
        let tags = release_tags(releases);
        find_exact_or_containing(&tags, tag)
    }
}

/// Chooses the asset of a release.
pub fn select_asset(release: &GithubRelease, asset_name: &str, mc: &str) -> (r: Option<usize>)
    ensures
        index_result(
            asset_index(asset_names(release.assets@), asset_name@, release.tag_name@, mc@),
            r,
        ),
        r matches Some(i) ==> i < release.assets@.len(),
{
    if str_eq(asset_name, "") || str_eq(asset_name, "first") || str_eq(asset_name, "any") {
        if release.assets.len() > 0 {
            Some(0)
        } else {
            None
        }
    } else {
        let pattern = if contains_char_exec(asset_name, '$') {
            proof {
                reveal_strlit("${version}");
                reveal_strlit("${tag}");
                reveal_strlit("${mcver}");
            }
            let a = replace_exec(asset_name, "${version}", release.tag_name.as_str());
            let b = replace_exec(a.as_str(), "${tag}", release.tag_name.as_str());
            replace_exec(b.as_str(), "${mcver}", mc)
        } else {
            String::from_str(asset_name)
        };
        let names = names_of_assets(&release.assets);
        find_exact_or_containing(&names, pattern.as_str())
    }
}

/// The downloadable file of a release asset.
pub fn github_resolved_file(repo: &str, release: &GithubRelease, asset: &GithubAsset) -> (r:
    ResolvedFile)
    ensures
        r@ == github_file_spec(repo@, release.tag_name@, *asset),
        distinct_keys(r@.hashes),
{
    let tag = release.tag_name.as_str();
    let name = asset.name.as_str();
    let mut url = String::from_str("https://github.com/");
    url.append(repo);
    url.append("/releases/download/");
    url.append(tag);
    url.append("/");
    url.append(name);
    let mut path = String::from_str(repo);
    path.append("/releases/");
    path.append(tag);
    path.append("/");
    path.append(name);
    let r = ResolvedFile {
        url,
        filename: asset.name.clone(),
        cache: crate::downloadable::CacheStrategy::File {
            namespace: String::from_str(CACHE_NAMESPACE),
            path,
        },
        size: Some(asset.size),
        hashes: Vec::new(),
    };
    assert(r@.hashes =~= Seq::<(Seq<char>, Seq<char>)>::empty());
    r
}

/// Resolves `repo@tag/asset` against the releases the API listed: the
/// release chosen for the substituted tag, then its chosen asset.
pub fn resolve_github_source(
    repo: &str,
    tag: &str,
    asset_name: &str,
    mc: &str,
    releases: &Vec<GithubRelease>,
) -> (r: Result<ResolvedFile, GithubError>)
    ensures
        ({
            let ri = release_index(tag_names(releases@), tag_for_mc(tag@, mc@));
            if ri < 0 {
                r matches Err(GithubError::ReleaseNotFound { tag: t, repo: rp }) && t@ == tag@
                    && rp@ == repo@
            } else {
                let rel = releases@[ri];
                let ai = asset_index(asset_names(rel.assets@), asset_name@, rel.tag_name@, mc@);
                if ai < 0 {
                    r matches Err(GithubError::AssetNotFound { asset: a, release_tag: t, repo: rp })
                        && a@ == asset_name@ && t@ == rel.tag_name@ && rp@ == repo@
                } else {
                    r matches Ok(f) && f@ == github_file_spec(repo@, rel.tag_name@, rel.assets@[ai])
                }
            }
        }),
{
    let resolved_tag = resolve_tag(tag, mc);
    match select_release(releases, resolved_tag.as_str()) {
        None => Err(
            GithubError::ReleaseNotFound { tag: String::from_str(tag), repo: String::from_str(repo) },
        ),
        Some(ri) => {
            let release = &releases[ri];
            match select_asset(release, asset_name, mc) {
                None => Err(
                    GithubError::AssetNotFound {
                        asset: String::from_str(asset_name),
                        release_tag: release.tag_name.clone(),
                        repo: String::from_str(repo),
                    },
                ),
                Some(ai) => Ok(github_resolved_file(repo, release, &release.assets[ai])),
            }
        },
    }
}


/// The release used for a tag other than "latest" carries that tag, or a
/// tag that contains it; an exact match is preferred.
pub proof fn chosen_release_matches_tag(tags: Seq<Seq<char>>, tag: Seq<char>)
    ensures
        ({
            let i = release_index(tags, tag);
            i >= 0 && tag != "latest"@ ==> i < tags.len() && crate::text::contains(tags[i], tag)
                && (crate::text::first_equal(tags, tag) >= 0 ==> tags[i] == tag)
        }),
{
    crate::text::lemma_exact_or_containing(tags, tag);
}

} // verus!
