//! The JetBrains Runtime used for hot-swap debugging: where it is
//! installed, which release to fetch and under which names.

use vstd::prelude::*;
use vstd::string::StringExecFns;
use crate::text::{
    append_decimal, decimal, join_path, join_path_exec, shift, split_once, split_once_exec,
    starts_with, starts_with_exec, views,
};
use vstd::string::StrSliceExecFns;

verus! {

pub const GITHUB_RELEASES_URL: &'static str =
    "https://api.github.com/repos/JetBrains/JetBrainsRuntime/releases";

pub const CACHE_REDIRECTOR_BASE: &'static str = "https://cache-redirector.jetbrains.com/intellij-jbr";

pub const MAX_PAGES: u32 = 5;

pub const PER_PAGE: u32 = 100;

/// The operating system the tool runs on, as far as file names differ.
#[derive(Clone, Copy)]
pub enum HostOs {
    Windows,
    Unix,
}

pub enum JbrError {
    /// The home directory is unknown.
    NoHomeDir,
}

/// A release tag that is not of the form `jbr-release-<java>b<build>`.
pub enum TagError {
    UnexpectedFormat { tag: String },
    NoBuildNumber { tag: String },
}

/// `dirs::home_dir`, as text.  It reads the environment, so nothing is
/// stated of the result; a home directory that is not valid UTF-8 counts as
/// unknown.
#[verifier::external_body]
fn home_dir() -> (r: Option<String>) {
    dirs::home_dir().and_then(|p| p.into_os_string().into_string().ok())
}

/// `std::path::Path::exists`.  It reads the file system, so nothing is
/// stated of the result.
#[verifier::external_body]
fn path_exists(path: &str) -> (r: bool) {
    std::path::Path::new(path).exists()
}

/// `<home>/.minipot/jbr/jbr-<java_version>`
pub open spec fn jbr_dir_spec(home: Seq<char>, java_version: u32) -> Seq<char> {
    join_path(
        join_path(join_path(home, ".minipot"@), "jbr"@),
        "jbr-"@ + decimal(java_version as nat),
    )
}

pub open spec fn java_exe_name(os: HostOs) -> Seq<char> {
    match os {
        HostOs::Windows => "java.exe"@,
        HostOs::Unix => "java"@,
    }
}

/// `<jbr dir>/bin/java` (`java.exe` on Windows).
pub open spec fn java_bin_spec(home: Seq<char>, java_version: u32, os: HostOs) -> Seq<char> {
    join_path(join_path(jbr_dir_spec(home, java_version), "bin"@), java_exe_name(os))
}

/// The installation directory of JBR `java_version` under a home directory
/// (kept apart from the plugin cache).
pub fn jbr_dir_in(home: &str, java_version: u32) -> (r: String)
    ensures
        r@ == jbr_dir_spec(home@, java_version),
{
    let a = join_path_exec(home, ".minipot");
    let b = join_path_exec(a.as_str(), "jbr");
    let mut name = String::from_str("jbr-");
    append_decimal(&mut name, java_version as u64);
    join_path_exec(b.as_str(), name.as_str())
}

/// The installation directory of JBR `java_version` for a home directory
/// that may be unknown: an unknown home is an error.
pub fn jbr_dir_from(home: Option<String>, java_version: u32) -> (r: Result<String, JbrError>)
    ensures
        match home {
            Some(h) => r matches Ok(p) && p@ == jbr_dir_spec(h@, java_version),
            None => r matches Err(JbrError::NoHomeDir),
        },
{
    match home {
        Some(h) => Ok(jbr_dir_in(h.as_str(), java_version)),
        None => Err(JbrError::NoHomeDir),
    }
}

/// The installation directory of JBR `java_version` under the user's home.
pub fn jbr_dir(java_version: u32) -> (r: Result<String, JbrError>)
    ensures
        r matches Ok(p) ==> exists|h: Seq<char>| p@ == jbr_dir_spec(h, java_version),
{
    jbr_dir_from(home_dir(), java_version)
}

/// The `java` binary inside the JBR installation directory `dir`.
pub fn java_bin_in(dir: &str, os: HostOs) -> (r: String)
    ensures
        r@ == join_path(join_path(dir@, "bin"@), java_exe_name(os)),
{
    let b = join_path_exec(dir, "bin");
    match os {
        HostOs::Windows => join_path_exec(b.as_str(), "java.exe"),
        HostOs::Unix => join_path_exec(b.as_str(), "java"),
    }
}

/// The `java` binary for the outcome of looking up a JBR directory: the
/// binary inside the directory, or the same error.
pub fn java_bin_from(dir: Result<String, JbrError>, os: HostOs) -> (r: Result<String, JbrError>)
    ensures
        match dir {
            Ok(d) => r matches Ok(p) && p@ == join_path(join_path(d@, "bin"@), java_exe_name(os)),
            Err(e) => r == Err::<String, JbrError>(e),
        },
{
    match dir {
        Ok(d) => Ok(java_bin_in(d.as_str(), os)),
        Err(e) => Err(e),
    }
}

/// The `java` binary of JBR `java_version` under the user's home.
pub fn java_bin(java_version: u32, os: HostOs) -> (r: Result<String, JbrError>)
    ensures
        r matches Ok(p) ==> exists|h: Seq<char>| p@ == java_bin_spec(h, java_version, os),
{
    let dir = jbr_dir(java_version);
    let ghost d = dir;
    let r = java_bin_from(dir, os);
    proof {
        if let Ok(dd) = d {
            let h = choose|h: Seq<char>| dd@ == jbr_dir_spec(h, java_version);
            assert(r matches Ok(p) && p@ == java_bin_spec(h, java_version, os));
        }
    }
    r
}

/// Whether JBR is installed, given the outcome of locating its `java`
/// binary and whether that binary exists: only a located binary that exists
/// counts.
pub fn installed_from(bin: &Result<String, JbrError>, binary_exists: bool) -> (r: bool)
    ensures
        r == (bin is Ok && binary_exists),
{
    match bin {
        Ok(_) => binary_exists,
        Err(_) => false,
    }
}

/// Whether JBR `java_version` is installed: its `java` binary exists.  The
/// answer depends on the environment and the disk, so it is not stated; it
/// is `installed_from` of `java_bin` and of the disk's answer for that path,
/// and an unknown home directory counts as not installed.
pub fn is_installed(java_version: u32, os: HostOs) -> (r: bool) {
    let bin = java_bin(java_version, os);
    let exists = match &bin {
        Ok(p) => path_exists(p.as_str()),
        Err(_) => false,
    };
    installed_from(&bin, exists)
}

pub open spec fn tag_prefix() -> Seq<char> {
    "jbr-release-"@
}

/// Reads a tag like "jbr-release-21.0.10b1163.110" as ("21.0.10", "1163.110"):
/// after the prefix, the Java version runs up to the first 'b' and the build
/// number follows it.
pub fn parse_tag(tag: &str) -> (r: Result<(String, String), TagError>)
    ensures
        !starts_with(tag@, tag_prefix()) ==> (r matches Err(TagError::UnexpectedFormat { tag: t })
            && t@ == tag@),
        starts_with(tag@, tag_prefix()) ==> match split_once(
            tag@.skip(tag_prefix().len() as int),
            'b',
        ) {
            None => r matches Err(TagError::NoBuildNumber { tag: t }) && t@ == tag@,
            Some((j, b)) => r matches Ok((jr, br)) && jr@ == j && br@ == b,
        },
{
    if !starts_with_exec(tag, "jbr-release-") {
        return Err(TagError::UnexpectedFormat { tag: String::from_str(tag) });
    }
    let n = tag.unicode_len();
    let k = "jbr-release-".unicode_len();
    let rest = tag.substring_char(k, n);
    assert(rest@ =~= tag@.skip(tag_prefix().len() as int));
    match split_once_exec(rest, 'b') {
        Some((j, b)) => Ok((j, b)),
        None => Err(TagError::NoBuildNumber { tag: String::from_str(tag) }),
    }
}

/// Reading back a tag written in the JBR format gives its parts: for a
/// Java version without 'b', `jbr-release-<java>b<build>` reads as
/// (`<java>`, `<build>`).
pub proof fn tag_round_trip(java: Seq<char>, build: Seq<char>)
    requires
        forall|i: int| 0 <= i < java.len() ==> java[i] != 'b',
    ensures
        ({
            let tag = tag_prefix() + java + seq!['b'] + build;
            &&& starts_with(tag, tag_prefix())
            &&& split_once(tag.skip(tag_prefix().len() as int), 'b') == Some((java, build))
        }),
{
    let tag = tag_prefix() + java + seq!['b'] + build;
    let rest = tag.skip(tag_prefix().len() as int);
    assert(tag.subrange(0, tag_prefix().len() as int) =~= tag_prefix());
    assert(rest =~= java + seq!['b'] + build);
    crate::text::lemma_index_of(rest, 'b');
    assert(rest[java.len() as int] == 'b');
    assert(crate::text::index_of(rest, 'b') == java.len()) by {
        if crate::text::index_of(rest, 'b') < java.len() {
            if crate::text::index_of(rest, 'b') >= 0 {
                assert(rest[crate::text::index_of(rest, 'b')] == java[crate::text::index_of(rest, 'b')]);
            }
        }
    }
    assert(rest.take(java.len() as int) =~= java);
    assert(rest.skip(java.len() as int + 1) =~= build);
}

/// `jbr-release-<java_version>.`: the tags of one Java major version.
pub open spec fn release_prefix(java_version: u32) -> Seq<char> {
    tag_prefix() + decimal(java_version as nat) + "."@
}

/// Index of the first tag that starts with `prefix`, or -1.
pub open spec fn first_with_prefix(tags: Seq<Seq<char>>, prefix: Seq<char>) -> int
    decreases tags.len(),
{
    if tags.len() == 0 {
        -1
    } else if starts_with(tags[0], prefix) {
        0
    } else {
        shift(first_with_prefix(tags.drop_first(), prefix), 1)
    }
}

/// On a page of tags (newest first), the release searched for is the first
/// tag starting with `jbr-release-<java_version>.`: no tag before it starts
/// so, and none is found only when no tag of the page starts so.
pub proof fn release_search_takes_first(tags: Seq<Seq<char>>, java_version: u32)
    ensures
        ({
            let p = "jbr-release-"@ + decimal(java_version as nat) + "."@;
            let i = first_with_prefix(tags, release_prefix(java_version));
            &&& -1 <= i < tags.len()
            &&& i == -1 <==> forall|k: int| 0 <= k < tags.len() ==> !starts_with(tags[k], p)
            &&& i >= 0 ==> starts_with(tags[i], p)
            &&& forall|k: int| 0 <= k < i ==> !starts_with(tags[k], p)
        }),
    decreases tags.len(),
{
    let p = "jbr-release-"@ + decimal(java_version as nat) + "."@;
    assert(release_prefix(java_version) == p);
    if tags.len() > 0 && !starts_with(tags[0], p) {
        release_search_takes_first(tags.drop_first(), java_version);
        assert forall|k: int| 0 < k < tags.len() implies tags[k] == tags.drop_first()[k - 1] by {}
    }
}

/// The next step of the paged release search.
pub enum ReleaseSearch {
    /// The newest release of the wanted Java version: its parts.
    Found { java: String, build: String },
    /// The newest release of the wanted Java version has a malformed tag.
    BadTag { error: TagError },
    /// Read the next page of releases.
    NextPage { page: u32 },
    /// No release of that version among the pages searched.
    NotFound,
}

/// `{GITHUB_RELEASES_URL}?per_page=100&page=<page>`
pub fn releases_page_url(page: u32) -> (r: String)
    ensures
        r@ == GITHUB_RELEASES_URL@ + "?per_page="@ + decimal(PER_PAGE as nat) + "&page="@
            + decimal(page as nat),
{
    let mut r = String::from_str(GITHUB_RELEASES_URL);
    r.append("?per_page=");
    append_decimal(&mut r, PER_PAGE as u64);
    r.append("&page=");
    append_decimal(&mut r, page as u64);
    r
}

/// Decides on page `page` (1-based) of the release list, whose tags are
/// `tags` newest first: the first tag of the wanted Java major version is
/// the release; an empty page, or the last of `MAX_PAGES` pages without
/// one, ends the search.
pub fn release_search_step(java_version: u32, page: u32, tags: &Vec<String>) -> (r: ReleaseSearch)
    requires
        1 <= page <= MAX_PAGES,
    ensures
        ({
            let i = first_with_prefix(views(tags@), release_prefix(java_version));
            if tags@.len() == 0 {
                r is NotFound
            } else if i >= 0 {
                let tag = tags@[i]@;
                match split_once(tag.skip(tag_prefix().len() as int), 'b') {
                    Some((j, b)) => r matches ReleaseSearch::Found { java, build } && java@ == j
                        && build@ == b,
                    None => r matches ReleaseSearch::BadTag {
                        error: TagError::NoBuildNumber { tag: t },
                    } && t@ == tag,
                }
            } else if page < MAX_PAGES {
                r matches ReleaseSearch::NextPage { page: p } && p == page + 1
            } else {
                r is NotFound
            }
        }),
{
    if tags.len() == 0 {
        return ReleaseSearch::NotFound;
    }
    let mut prefix = String::from_str("jbr-release-");
    append_decimal(&mut prefix, java_version as u64);
    prefix.append(".");
    let ghost v = views(tags@);
    let n = tags.len();
    let mut i: usize = 0;
    assert(v.skip(0) =~= v);
    while i < n
        invariant
            n == tags@.len(),
            v == views(tags@),
            prefix@ == release_prefix(java_version),
            i <= n,
            first_with_prefix(v, prefix@) == shift(first_with_prefix(v.skip(i as int), prefix@), i as int),
        decreases n - i,
    {
        assert(v.skip(i as int)[0] == tags@[i as int]@);
        assert(v.skip(i as int).drop_first() =~= v.skip(i + 1));
        if starts_with_exec(tags[i].as_str(), prefix.as_str()) {
            proof {
                assert(tags@[i as int]@.subrange(0, tag_prefix().len() as int) =~= tag_prefix()) by {
                    assert(prefix@.subrange(0, tag_prefix().len() as int) =~= tag_prefix());
                    assert(tags@[i as int]@.subrange(0, prefix@.len() as int) == prefix@);
                    assert(tags@[i as int]@.subrange(0, tag_prefix().len() as int) =~= tags@[i as int]@.subrange(0, prefix@.len() as int).subrange(0, tag_prefix().len() as int));
                }
            }
            return match parse_tag(tags[i].as_str()) {
                Ok((java, build)) => ReleaseSearch::Found { java, build },
                Err(error) => ReleaseSearch::BadTag { error },
            };
        }
        i = i + 1;
    }
    if page < MAX_PAGES {
        ReleaseSearch::NextPage { page: page + 1 }
    } else {
        ReleaseSearch::NotFound
    }
}

pub open spec fn os_part(os: HostOs) -> Seq<char> {
    match os {
        HostOs::Windows => "windows"@,
        HostOs::Unix => "linux"@,
    }
}

pub open spec fn archive_ext(os: HostOs) -> Seq<char> {
    match os {
        HostOs::Windows => "zip"@,
        HostOs::Unix => "tar.gz"@,
    }
}

/// `jbr-<java>-<os>-x64-b<build>.<ext>`: a zip on Windows, a tar.gz elsewhere.
pub fn jbr_archive_name(java: &str, build: &str, os: HostOs) -> (r: String)
    ensures
        r@ == "jbr-"@ + java@ + "-"@ + os_part(os) + "-x64-b"@ + build@ + "."@ + archive_ext(os),
{
    let mut r = String::from_str("jbr-");
    r.append(java);
    r.append("-");
    match os {
        HostOs::Windows => r.append("windows"),
        HostOs::Unix => r.append("linux"),
    }
    r.append("-x64-b");
    r.append(build);
    r.append(".");
    match os {
        HostOs::Windows => r.append("zip"),
        HostOs::Unix => r.append("tar.gz"),
    }
    r
}

/// Download URL of an archive.
pub fn jbr_download_url(archive: &str) -> (r: String)
    ensures
        r@ == CACHE_REDIRECTOR_BASE@ + "/"@ + archive@,
{
    let mut r = String::from_str(CACHE_REDIRECTOR_BASE);
    r.append("/");
    r.append(archive);
    r
}

/// Name of the temporary download: `jbr-<v>-download.tmp`.
pub fn jbr_download_tmp_name(java_version: u32) -> (r: String)
    ensures
        r@ == "jbr-"@ + decimal(java_version as nat) + "-download.tmp"@,
{
    let mut r = String::from_str("jbr-");
    append_decimal(&mut r, java_version as u64);
    r.append("-download.tmp");
    r
}

/// Name of the temporary extraction directory: `jbr-<v>-extract-tmp`.
pub fn jbr_extract_tmp_name(java_version: u32) -> (r: String)
    ensures
        r@ == "jbr-"@ + decimal(java_version as nat) + "-extract-tmp"@,
{
    let mut r = String::from_str("jbr-");
    append_decimal(&mut r, java_version as u64);
    r.append("-extract-tmp");
    r
}

} // verus!
