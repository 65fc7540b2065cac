//! Modrinth as a plugin source.

use vstd::prelude::*;
use vstd::string::StringExecFns;
use crate::downloadable::{
    clone_hashes, distinct_keys, hashes_view, CacheStrategy, ResolvedFile, ResolvedView,
};
use crate::text::{str_eq, views};

verus! {

pub const API_URL: &'static str = "https://api.modrinth.com/v2";

pub struct ModrinthVersion {
    pub name: String,
    pub version_number: String,
    pub changelog: String,
    pub dependencies: Vec<ModrinthDependency>,
    pub game_versions: Vec<String>,
    pub version_type: VersionType,
    pub loaders: Vec<String>,
    pub featured: bool,
    pub status: ModrinthStatus,
    pub id: String,
    pub project_id: String,
    pub files: Vec<ModrinthFile>,
}

pub struct ModrinthDependency {
    pub version_id: Option<String>,
    pub project_id: Option<String>,
    pub file_name: Option<String>,
    pub dependency_type: Option<DependencyType>,
}

pub enum DependencyType {
    Required,
    Optional,
    Incompatible,
    Embedded,
    Unsupported,
    Unknown,
}

pub enum VersionType {
    Release,
    Beta,
    Alpha,
}

pub enum ModrinthStatus {
    Listed,
    Archived,
    Draft,
    Unlisted,
    Scheduled,
    Unknown,
}

/// A file of a version; `hashes` holds the entries of the API's map from
/// algorithm name to digest (no algorithm twice, `distinct_keys`, as the
/// map it is read from guarantees).
pub struct ModrinthFile {
    pub hashes: Vec<(String, String)>,
    pub url: String,
    pub filename: String,
    pub primary: bool,
    pub size: u64,
}

/// Why a Modrinth source could not be resolved.
pub enum ModrinthError {
    /// No version matches, even without the compatibility filter.
    VersionNotFound { version: String, id: String },
    /// The chosen version has no file.
    NoFile { id: String, version_id: String },
}

/// Loaders that run on a Paper server.
pub open spec fn is_supported_loader(l: Seq<char>) -> bool {
    l == "paper"@ || l == "spigot"@ || l == "bukkit"@ || l == "purpur"@ || l == "folia"@
}

/// A version made for Minecraft `mc` and for a loader Paper can run.
pub open spec fn is_compatible(v: ModrinthVersion, mc: Seq<char>) -> bool {
    &&& views(v.game_versions@).contains(mc)
    &&& exists|k: int| 0 <= k < v.loaders@.len() && is_supported_loader(#[trigger] v.loaders@[k]@)
}

/// A requested version names `v` by its id, its name or its version number.
pub open spec fn names_version(v: ModrinthVersion, ver: Seq<char>) -> bool {
    v.id@ == ver || v.name@ == ver || v.version_number@ == ver
}

/// `v` answers the request: compatible when `filtered`, and named by `ver`
/// unless `ver` is "latest".
pub open spec fn wanted(v: ModrinthVersion, mc: Seq<char>, ver: Seq<char>, filtered: bool) -> bool {
    (!filtered || is_compatible(v, mc)) && (ver == "latest"@ || names_version(v, ver))
}

/// Index of the first wanted version (the API lists newest first), or -1.
pub open spec fn pick_version(
    list: Seq<ModrinthVersion>,
    mc: Seq<char>,
    ver: Seq<char>,
    filtered: bool,
) -> int
    decreases list.len(),
{
    if list.len() == 0 {
        -1
    } else if wanted(list[0], mc, ver, filtered) {
        0
    } else {
        crate::text::shift(pick_version(list.drop_first(), mc, ver, filtered), 1)
    }
}

/// The version used: the first wanted one among compatible versions, or,
/// failing that, among all versions (the second component says whether the
/// compatibility filter had to be dropped).  -1 when there is none.
pub open spec fn chosen_version(list: Seq<ModrinthVersion>, mc: Seq<char>, ver: Seq<char>) -> (
    int,
    bool,
) {
    if pick_version(list, mc, ver, true) >= 0 {
        (pick_version(list, mc, ver, true), false)
    } else {
        (pick_version(list, mc, ver, false), true)
    }
}

/// Index of the first primary file, or -1.
pub open spec fn first_primary(files: Seq<ModrinthFile>) -> int
    decreases files.len(),
{
    if files.len() == 0 {
        -1
    } else if files[0].primary {
        0
    } else {
        crate::text::shift(first_primary(files.drop_first()), 1)
    }
}

/// Index of the first primary file, else 0 when there are files, else -1.
pub open spec fn primary_index(files: Seq<ModrinthFile>) -> int {
    if first_primary(files) >= 0 {
        first_primary(files)
    } else if files.len() > 0 {
        0
    } else {
        -1
    }
}

/// The file of `f` in version `version_id` of project `id`.
pub open spec fn modrinth_file_spec(id: Seq<char>, version_id: Seq<char>, f: ModrinthFile) -> ResolvedView {
    ResolvedView {
        url: f.url@,
        filename: f.filename@,
        size: Some(f.size),
        hashes: hashes_view(f.hashes@),
        cache: Some(("modrinth"@, id + "/"@ + version_id + "/"@ + f.filename@)),
    }
}

fn contains_string(list: &Vec<String>, t: &str) -> (r: bool)
    ensures
        r == views(list@).contains(t@),
{
    let n = list.len();
    let mut i: usize = 0;
    while i < n
        invariant
            n == list@.len(),
            i <= n,
            forall|j: int| 0 <= j < i ==> list@[j]@ != t@,
        decreases n - i,
    {
        if str_eq(list[i].as_str(), t) {
            assert(views(list@)[i as int] == t@);
            return true;
        }
        i = i + 1;
    }
    assert forall|j: int| 0 <= j < views(list@).len() implies views(list@)[j] != t@ by {
        assert(views(list@)[j] == list@[j]@);
    }
    false
}

fn supported_loader(l: &str) -> (r: bool)
    ensures
        r == is_supported_loader(l@),
{
    str_eq(l, "paper") || str_eq(l, "spigot") || str_eq(l, "bukkit") || str_eq(l, "purpur")
        || str_eq(l, "folia")
}

/// Whether a version is made for Minecraft `mc` and a loader Paper runs
/// (paper, spigot, bukkit, purpur or folia).
pub fn is_compatible_exec(v: &ModrinthVersion, mc: &str) -> (r: bool)
    ensures
        r == is_compatible(*v, mc@),
{
    if !contains_string(&v.game_versions, mc) {
        return false;
    }
    let n = v.loaders.len();
    let mut i: usize = 0;
    while i < n
        invariant
            n == v.loaders@.len(),
            i <= n,
            views(v.game_versions@).contains(mc@),
            forall|j: int| 0 <= j < i ==> !is_supported_loader(#[trigger] v.loaders@[j]@),
        decreases n - i,
    {
        if supported_loader(v.loaders[i].as_str()) {
            return true;
        }
        i = i + 1;
    }
    false
}

fn wanted_exec(v: &ModrinthVersion, mc: &str, ver: &str, filtered: bool) -> (r: bool)
    ensures
        r == wanted(*v, mc@, ver@, filtered),
{
    if filtered && !is_compatible_exec(v, mc) {
        return false;
    }
    str_eq(ver, "latest") || str_eq(v.id.as_str(), ver) || str_eq(v.name.as_str(), ver) || str_eq(
        v.version_number.as_str(),
        ver,
    )
}

/// Finds the first wanted version.
pub fn find_version(list: &Vec<ModrinthVersion>, mc: &str, ver: &str, filtered: bool) -> (r:
    Option<usize>)
    ensures
        crate::text::index_result(pick_version(list@, mc@, ver@, filtered), r),
        r matches Some(i) ==> i < list@.len(),
{
    let n = list.len();
    let mut i: usize = 0;
    assert(list@.skip(0) =~= list@);
    while i < n
        invariant
            n == list@.len(),
            i <= n,
            pick_version(list@, mc@, ver@, filtered) == crate::text::shift(
                pick_version(list@.skip(i as int), mc@, ver@, filtered),
                i as int,
            ),
        decreases n - i,
    {
        assert(list@.skip(i as int)[0] == list@[i as int]);
        assert(list@.skip(i as int).drop_first() =~= list@.skip(i + 1));
        if wanted_exec(&list[i], mc, ver, filtered) {
            return Some(i);
        }
        i = i + 1;
    }
    None
}

/// The file to download from a version: the first primary file, else the
/// first file.
pub fn select_file(files: &Vec<ModrinthFile>) -> (r: Option<usize>)
    ensures
        crate::text::index_result(primary_index(files@), r),
        r matches Some(i) ==> i < files@.len(),
{
    let n = files.len();
    let mut i: usize = 0;
    assert(files@.skip(0) =~= files@);
    while i < n
        invariant
            n == files@.len(),
            i <= n,
            first_primary(files@) == crate::text::shift(first_primary(files@.skip(i as int)), i as int),
        decreases n - i,
    {
        assert(files@.skip(i as int)[0] == files@[i as int]);
        assert(files@.skip(i as int).drop_first() =~= files@.skip(i + 1));
        if files[i].primary {
            return Some(i);
        }
        i = i + 1;
    }
    if n > 0 {
        Some(0)
    } else {
        None
    }
}

/// The downloadable file `f` of version `version_id` of project `id`.
pub fn modrinth_resolved_file(id: &str, version_id: &str, f: &ModrinthFile) -> (r: ResolvedFile)
    ensures
        r@ == modrinth_file_spec(id@, version_id@, *f),
        distinct_keys(hashes_view(f.hashes@)) ==> distinct_keys(r@.hashes),
{
    let mut path = String::from_str(id);
    path.append("/");
    path.append(version_id);
    path.append("/");
    path.append(f.filename.as_str());
    ResolvedFile {
        url: f.url.clone(),
        filename: f.filename.clone(),
        cache: CacheStrategy::File { namespace: String::from_str("modrinth"), path },
        size: Some(f.size),
        hashes: clone_hashes(&f.hashes),
    }
}

/// Resolves `modrinth:id@version` against the versions the API listed for
/// the project.  The flag tells that no compatible version matched and the
/// compatibility filter was dropped (the tool warns about it).
pub fn resolve_modrinth_source(id: &str, version: &str, mc: &str, all_versions: &Vec<ModrinthVersion>) -> (r:
    Result<(ResolvedFile, bool), ModrinthError>)
    ensures
        ({
            let (vi, unfiltered) = chosen_version(all_versions@, mc@, version@);
            if vi < 0 {
                r matches Err(ModrinthError::VersionNotFound { version: v, id: i }) && v@
                    == version@ && i@ == id@
            } else {
                let chosen = all_versions@[vi];
                let fi = primary_index(chosen.files@);
                if fi < 0 {
                    r matches Err(ModrinthError::NoFile { id: i, version_id: v }) && i@ == id@
                        && v@ == chosen.id@
                } else {
                    r matches Ok((f, u)) && u == unfiltered && f@ == modrinth_file_spec(
                        id@,
                        chosen.id@,
                        chosen.files@[fi],
                    )
                }
            }
        }),
{
    let (vi, unfiltered) = match find_version(all_versions, mc, version, true) {
        Some(i) => (i, false),
        None => match find_version(all_versions, mc, version, false) {
            Some(i) => (i, true),
            None => {
                return Err(
                    ModrinthError::VersionNotFound {
                        version: String::from_str(version),
                        id: String::from_str(id),
                    },
                );
            },
        },
    };
    let chosen = &all_versions[vi];
    match select_file(&chosen.files) {
        None => Err(ModrinthError::NoFile { id: String::from_str(id), version_id: chosen.id.clone() }),
        Some(fi) => Ok((modrinth_resolved_file(id, chosen.id.as_str(), &chosen.files[fi]), unfiltered)),
    }
}


proof fn lemma_pick_version(list: Seq<ModrinthVersion>, mc: Seq<char>, ver: Seq<char>, filtered: bool)
    ensures
        -1 <= pick_version(list, mc, ver, filtered) < list.len(),
        pick_version(list, mc, ver, filtered) >= 0 ==> wanted(
            list[pick_version(list, mc, ver, filtered)],
            mc,
            ver,
            filtered,
        ),
    decreases list.len(),
{
    if list.len() > 0 && !wanted(list[0], mc, ver, filtered) {
        lemma_pick_version(list.drop_first(), mc, ver, filtered);
    }
}

/// The version used answers the request: it carries the requested id, name
/// or version number (unless "latest" was asked for), and it is made for
/// the Minecraft version and a Paper-compatible loader unless the tool had
/// to drop that filter (and says so).
pub proof fn chosen_version_answers_request(list: Seq<ModrinthVersion>, mc: Seq<char>, ver: Seq<char>)
    ensures
        ({
            let (i, unfiltered) = chosen_version(list, mc, ver);
            i >= 0 ==> {
                &&& i < list.len()
                &&& (ver != "latest"@ ==> names_version(list[i], ver))
                &&& (!unfiltered ==> is_compatible(list[i], mc))
            }
        }),
{
    lemma_pick_version(list, mc, ver, true);
    lemma_pick_version(list, mc, ver, false);
}


/// The first index of `list` for which `wanted` holds, or -1.
proof fn lemma_pick_is_first(list: Seq<ModrinthVersion>, mc: Seq<char>, ver: Seq<char>, filtered: bool)
    ensures
        -1 <= pick_version(list, mc, ver, filtered) < list.len(),
        pick_version(list, mc, ver, filtered) >= 0 ==> wanted(
            list[pick_version(list, mc, ver, filtered)],
            mc,
            ver,
            filtered,
        ),
        forall|j: int|
            0 <= j < list.len() && j < pick_version(list, mc, ver, filtered) ==> !wanted(
                #[trigger] list[j],
                mc,
                ver,
                filtered,
            ),
        pick_version(list, mc, ver, filtered) == -1 ==> forall|j: int|
            0 <= j < list.len() ==> !wanted(#[trigger] list[j], mc, ver, filtered),
    decreases list.len(),
{
    if list.len() > 0 && !wanted(list[0], mc, ver, filtered) {
        lemma_pick_is_first(list.drop_first(), mc, ver, filtered);
        assert forall|j: int| 0 < j < list.len() implies list[j] == list.drop_first()[j - 1] by {}
    }
}

/// Which version a Modrinth source resolves to, for every version list.  A
/// version answers a request `ver` when `ver` is "latest" or its id, its
/// name or its version number; it fits Minecraft `mc` when it lists `mc`
/// among its game versions and paper, spigot, bukkit, purpur or folia among
/// its loaders.  The first version that answers and fits is chosen with the
/// filter kept; when none fits, the first that answers, with the filter
/// dropped; nothing only when no version answers.
pub proof fn modrinth_version_resolution(list: Seq<ModrinthVersion>, mc: Seq<char>, ver: Seq<char>)
    ensures
        -1 <= chosen_version(list, mc, ver).0 < list.len(),
        chosen_version(list, mc, ver).0 >= 0 <==> exists|j: int|
            0 <= j < list.len() && (ver == "latest"@ || list[j].id@ == ver || list[j].name@ == ver || list[j].version_number@ == ver),
        chosen_version(list, mc, ver).0 >= 0 ==> (ver == "latest"@ || list[chosen_version(list, mc, ver).0].id@ == ver || list[chosen_version(list, mc, ver).0].name@ == ver || list[chosen_version(list, mc, ver).0].version_number@ == ver),
        !chosen_version(list, mc, ver).1 <==> exists|j: int|
            0 <= j < list.len() && (ver == "latest"@ || list[j].id@ == ver || list[j].name@ == ver || list[j].version_number@ == ver) && (views(list[j].game_versions@).contains(mc) && exists|k: int| 0 <= k < list[j].loaders@.len() && (list[j].loaders@[k]@ == "paper"@ || list[j].loaders@[k]@ == "spigot"@ || list[j].loaders@[k]@ == "bukkit"@ || list[j].loaders@[k]@ == "purpur"@ || list[j].loaders@[k]@ == "folia"@)),
        !chosen_version(list, mc, ver).1 ==> (views(list[chosen_version(list, mc, ver).0].game_versions@).contains(mc) && exists|k: int| 0 <= k < list[chosen_version(list, mc, ver).0].loaders@.len() && (list[chosen_version(list, mc, ver).0].loaders@[k]@ == "paper"@ || list[chosen_version(list, mc, ver).0].loaders@[k]@ == "spigot"@ || list[chosen_version(list, mc, ver).0].loaders@[k]@ == "bukkit"@ || list[chosen_version(list, mc, ver).0].loaders@[k]@ == "purpur"@ || list[chosen_version(list, mc, ver).0].loaders@[k]@ == "folia"@)),
        !chosen_version(list, mc, ver).1 ==> forall|j: int|
            0 <= j < chosen_version(list, mc, ver).0 ==> !((ver == "latest"@ || list[j].id@ == ver || list[j].name@ == ver || list[j].version_number@ == ver) && (views(list[j].game_versions@).contains(mc) && exists|k: int| 0 <= k < list[j].loaders@.len() && (list[j].loaders@[k]@ == "paper"@ || list[j].loaders@[k]@ == "spigot"@ || list[j].loaders@[k]@ == "bukkit"@ || list[j].loaders@[k]@ == "purpur"@ || list[j].loaders@[k]@ == "folia"@))),
        chosen_version(list, mc, ver).1 ==> forall|j: int|
            0 <= j < chosen_version(list, mc, ver).0 ==> !(ver == "latest"@ || list[j].id@ == ver || list[j].name@ == ver || list[j].version_number@ == ver),
{
    reveal_strlit("paper");
    reveal_strlit("spigot");
    reveal_strlit("bukkit");
    reveal_strlit("purpur");
    reveal_strlit("folia");
    lemma_pick_is_first(list, mc, ver, true);
    lemma_pick_is_first(list, mc, ver, false);
    assert forall|v: ModrinthVersion| #[trigger] wanted(v, mc, ver, true) <==> ((ver == "latest"@ || v.id@ == ver || v.name@ == ver || v.version_number@ == ver) && (views(v.game_versions@).contains(mc) && exists|k: int| 0 <= k < v.loaders@.len() && (v.loaders@[k]@ == "paper"@ || v.loaders@[k]@ == "spigot"@ || v.loaders@[k]@ == "bukkit"@ || v.loaders@[k]@ == "purpur"@ || v.loaders@[k]@ == "folia"@))) by {
        if is_compatible(v, mc) {
            let k = choose|k: int| 0 <= k < v.loaders@.len() && is_supported_loader(#[trigger] v.loaders@[k]@);
            assert((views(v.game_versions@).contains(mc) && exists|k: int| 0 <= k < v.loaders@.len() && (v.loaders@[k]@ == "paper"@ || v.loaders@[k]@ == "spigot"@ || v.loaders@[k]@ == "bukkit"@ || v.loaders@[k]@ == "purpur"@ || v.loaders@[k]@ == "folia"@)));
        }
        if (views(v.game_versions@).contains(mc) && exists|k: int| 0 <= k < v.loaders@.len() && (v.loaders@[k]@ == "paper"@ || v.loaders@[k]@ == "spigot"@ || v.loaders@[k]@ == "bukkit"@ || v.loaders@[k]@ == "purpur"@ || v.loaders@[k]@ == "folia"@)) {
            let k = choose|k: int| 0 <= k < v.loaders@.len() && (v.loaders@[k]@ == "paper"@ || v.loaders@[k]@ == "spigot"@ || v.loaders@[k]@ == "bukkit"@ || v.loaders@[k]@ == "purpur"@ || v.loaders@[k]@ == "folia"@);
            assert(is_supported_loader(v.loaders@[k]@));
        }
    }
    assert forall|v: ModrinthVersion| #[trigger] wanted(v, mc, ver, false) <==> (ver == "latest"@ || v.id@ == ver || v.name@ == ver || v.version_number@ == ver) by {}
}


/// The file downloaded from a version: the first file marked primary, or
/// the first file when none is; none only when the version has no file.
pub proof fn modrinth_file_choice(files: Seq<ModrinthFile>)
    ensures
        -1 <= primary_index(files) < files.len(),
        primary_index(files) == -1 <==> files.len() == 0,
        (exists|j: int| 0 <= j < files.len() && files[j].primary) ==> files[primary_index(
            files,
        )].primary && forall|j: int| 0 <= j < primary_index(files) ==> !files[j].primary,
        (forall|j: int| 0 <= j < files.len() ==> !files[j].primary) && files.len() > 0
            ==> primary_index(files) == 0,
{
    lemma_first_primary_is_first(files);
}

proof fn lemma_first_primary_is_first(files: Seq<ModrinthFile>)
    ensures
        -1 <= first_primary(files) < files.len(),
        first_primary(files) >= 0 ==> files[first_primary(files)].primary,
        forall|j: int| 0 <= j < files.len() && j < first_primary(files) ==> !files[j].primary,
        first_primary(files) == -1 ==> forall|j: int| 0 <= j < files.len() ==> !files[j].primary,
    decreases files.len(),
{
    if files.len() > 0 && !files[0].primary {
        lemma_first_primary_is_first(files.drop_first());
        assert forall|j: int| 0 < j < files.len() implies files[j] == files.drop_first()[j - 1] by {}
    }
}

} // verus!
