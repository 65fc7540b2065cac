use minipot::sources::github::{
    resolve_github_source, resolve_tag, select_asset, select_release, GithubAsset, GithubError,
    GithubRelease,
};
use minipot::sources::hangar::{
    find_version, hangar_resolved_file, hangar_slug, page_step, platform_filter, version_query,
    version_url, versions_url, FileInfo, HangarError, PageStep, Platform, PlatformFilter,
    PlatformVersionDownload, ProjectVersion, VersionQuery,
};
use minipot::sources::modrinth::{
    find_version as modrinth_find_version, resolve_modrinth_source, select_file, DependencyType,
    ModrinthError, ModrinthFile, ModrinthStatus, ModrinthVersion, VersionType,
};
use minipot::sources::{ratelimit_action, RateLimitAction};
use minipot::downloadable::{CacheStrategy, Downloadable};
use minipot::lock::{resolved_from_lock, LockedPlugin};

fn s(x: &str) -> String {
    x.to_string()
}

fn release(tag: &str, assets: &[&str]) -> GithubRelease {
    GithubRelease {
        tag_name: s(tag),
        name: s(tag),
        assets: assets.iter().map(|a| GithubAsset { url: format!("api/{a}"), name: s(a), size: 10 }).collect(),
    }
}

#[test]
fn github_tag_substitution() {
    assert_eq!(resolve_tag("v${mcver}-x-${mcversion}", "1.21"), "v1.21-x-1.21");
}

#[test]
fn github_release_and_asset_choice() {
    let rs = vec![release("v2.0-beta", &["a.jar"]), release("v1.7.3", &["Vault.jar", "Vault-src.zip"])];
    assert_eq!(select_release(&rs, "latest"), Some(0));
    assert_eq!(select_release(&rs, "v1.7.3"), Some(1));
    assert_eq!(select_release(&rs, "beta"), Some(0));
    assert_eq!(select_release(&rs, "v9"), None);
    assert_eq!(select_release(&vec![], "latest"), None);
    assert_eq!(select_asset(&rs[1], "first", "1.21"), Some(0));
    assert_eq!(select_asset(&rs[1], "", "1.21"), Some(0));
    assert_eq!(select_asset(&rs[1], "src", "1.21"), Some(1));
    let templ = release("7", &["Plugin-7.jar"]);
    assert_eq!(select_asset(&templ, "Plugin-${version}.jar", "1.21"), Some(0));
}

#[test]
fn github_source_resolution() {
    let rs = vec![release("v1.7.3", &["Vault.jar"])];
    let f = resolve_github_source("MilkBowl/Vault", "latest", "Vault.jar", "1.21", &rs).ok().unwrap();
    assert_eq!(f.url, "https://github.com/MilkBowl/Vault/releases/download/v1.7.3/Vault.jar");
    assert_eq!(f.filename, "Vault.jar");
    assert_eq!(f.size, Some(10));
    assert!(f.hashes.is_empty());
    match f.cache {
        CacheStrategy::File { namespace, path } => {
            assert_eq!(namespace, "github");
            assert_eq!(path, "MilkBowl/Vault/releases/v1.7.3/Vault.jar");
        }
        _ => panic!("github files are cached"),
    }
    assert!(matches!(
        resolve_github_source("a/b", "v9", "x", "1.21", &rs),
        Err(GithubError::ReleaseNotFound { .. })
    ));
    assert!(matches!(
        resolve_github_source("a/b", "latest", "nothing", "1.21", &rs),
        Err(GithubError::AssetNotFound { .. })
    ));
}

#[test]
fn ratelimit_decisions() {
    assert!(matches!(ratelimit_action(&None, &None, 0, true), Ok(RateLimitAction::CheckStatus)));
    assert!(matches!(ratelimit_action(&Some(s("42")), &None, 0, true), Ok(RateLimitAction::Proceed)));
    assert!(matches!(
        ratelimit_action(&Some(s("1")), &Some(s("30")), 0, true),
        Ok(RateLimitAction::Wait { seconds: 30 })
    ));
    assert!(matches!(
        ratelimit_action(&Some(s("1")), &Some(s("1000")), 990, false),
        Ok(RateLimitAction::Wait { seconds: 10 })
    ));
    assert!(matches!(
        ratelimit_action(&Some(s("1")), &Some(s("900")), 990, false),
        Ok(RateLimitAction::Wait { seconds: 0 })
    ));
    assert!(ratelimit_action(&Some(s("1")), &Some(s("soon")), 0, true).is_err());
}

fn mv(id: &str, name: &str, mc: &[&str], loaders: &[&str], files: Vec<ModrinthFile>) -> ModrinthVersion {
    ModrinthVersion {
        name: s(name),
        version_number: format!("{name}-n"),
        changelog: s(""),
        dependencies: vec![],
        game_versions: mc.iter().map(|x| s(x)).collect(),
        version_type: VersionType::Release,
        loaders: loaders.iter().map(|x| s(x)).collect(),
        featured: false,
        status: ModrinthStatus::Listed,
        id: s(id),
        project_id: s("p"),
        files,
    }
}

fn mf(name: &str, primary: bool) -> ModrinthFile {
    ModrinthFile { hashes: vec![(s("sha1"), s("1")), (s("sha512"), s("5"))], url: format!("cdn/{name}"), filename: s(name), primary, size: 7 }
}

#[test]
fn modrinth_version_choice() {
    let list = vec![
        mv("A", "fabric-build", &["1.21"], &["fabric"], vec![mf("a.jar", true)]),
        mv("B", "paper-build", &["1.21"], &["paper"], vec![mf("b1.jar", false), mf("b2.jar", true)]),
        mv("C", "old", &["1.20"], &["spigot"], vec![]),
    ];
    assert_eq!(modrinth_find_version(&list, "1.21", "latest", true), Some(1));
    assert_eq!(modrinth_find_version(&list, "1.21", "latest", false), Some(0));
    assert_eq!(modrinth_find_version(&list, "1.21", "old", true), None);
    assert_eq!(modrinth_find_version(&list, "1.21", "old", false), Some(2));
    assert_eq!(select_file(&list[1].files), Some(1));
    assert_eq!(select_file(&vec![mf("x", false)]), Some(0));
    assert_eq!(select_file(&vec![]), None);
    let _ = DependencyType::Required;
}

#[test]
fn modrinth_source_resolution() {
    let list = vec![
        mv("B", "paper-build", &["1.21"], &["paper"], vec![mf("b1.jar", false), mf("b2.jar", true)]),
        mv("C", "old", &["1.20"], &["spigot"], vec![]),
    ];
    let (f, unfiltered) = resolve_modrinth_source("vault", "latest", "1.21", &list).ok().unwrap();
    assert!(!unfiltered);
    assert_eq!(f.url, "cdn/b2.jar");
    assert_eq!(f.filename, "b2.jar");
    assert_eq!(f.hashes.len(), 2);
    match f.cache {
        CacheStrategy::File { namespace, path } => {
            assert_eq!(namespace, "modrinth");
            assert_eq!(path, "vault/B/b2.jar");
        }
        _ => panic!("modrinth files are cached"),
    }
    assert!(matches!(resolve_modrinth_source("vault", "C", "1.21", &list), Err(ModrinthError::NoFile { .. })));
    assert!(matches!(resolve_modrinth_source("vault", "zzz", "1.21", &list), Err(ModrinthError::VersionNotFound { .. })));
}

fn pv(name: &str, mc: &[&str]) -> ProjectVersion {
    ProjectVersion {
        name: s(name),
        downloads: vec![(
            Platform::Paper,
            PlatformVersionDownload::Hangar {
                file_info: FileInfo { name: format!("{name}.jar"), size_bytes: 5, sha256_hash: s("ff") },
                download_url: format!("dl/{name}"),
            },
        )],
        platform_dependencies: vec![(Platform::Paper, mc.iter().map(|x| s(x)).collect())],
    }
}

#[test]
fn hangar_queries_and_urls() {
    assert!(matches!(version_query("latest", "1.21"), VersionQuery::Search { plugin_version: None }));
    match version_query("5.${mcver}", "1.21") {
        VersionQuery::Search { plugin_version: Some(v) } => assert_eq!(v, "5.1.21"),
        _ => panic!("templated names are searched"),
    }
    match version_query("5.4.1", "1.21") {
        VersionQuery::Direct { name } => assert_eq!(name, "5.4.1"),
        _ => panic!("plain names are fetched"),
    }
    assert_eq!(hangar_slug("LuckPerms/LuckPerms"), "LuckPerms");
    assert_eq!(hangar_slug("ViaVersion"), "ViaVersion");
    assert_eq!(versions_url("a/b"), "https://hangar.papermc.io/api/v1/projects/b/versions");
    assert_eq!(version_url("b", "1.0"), "https://hangar.papermc.io/api/v1/projects/b/versions/1.0");
    let d = PlatformFilter::default();
    assert_eq!((d.limit, d.offset), (25, 0));
    assert!(platform_filter().platform == Some(Platform::Paper));
}

#[test]
fn hangar_page_search() {
    let page = vec![pv("2.0", &["1.20"]), pv("1.9", &["1.21"]), pv("1.8-beta", &["1.21"])];
    let plat = Some(Platform::Paper);
    let mc = Some(s("1.21"));
    assert_eq!(find_version(&page, &plat, &mc, &None), Some(1));
    assert_eq!(find_version(&page, &plat, &mc, &Some(s("1.8-beta"))), Some(2));
    assert_eq!(find_version(&page, &plat, &mc, &Some(s("2.0"))), Some(0));
    assert_eq!(find_version(&page, &plat, &mc, &Some(s("3"))), None);
    let mut filter = platform_filter();
    filter.limit = 3;
    assert!(matches!(page_step(&filter, &mc, &None, &page), PageStep::Found { index: 1 }));
    match page_step(&filter, &mc, &Some(s("3")), &page) {
        PageStep::NextPage { filter: next } => assert_eq!((next.offset, next.limit), (3, 3)),
        _ => panic!("a full page leads to the next"),
    }
    filter.limit = 25;
    assert!(matches!(page_step(&filter, &mc, &Some(s("3")), &page), PageStep::Exhausted));
}

#[test]
fn hangar_page_search_near_the_offset_limit() {
    let page = vec![pv("2.0", &["1.20"]), pv("1.9", &["1.21"]), pv("1.8-beta", &["1.21"])];
    let mc = Some(s("1.21"));
    let mut filter = platform_filter();
    filter.limit = 3;
    filter.offset = u64::MAX - 1;
    assert!(matches!(page_step(&filter, &mc, &None, &page), PageStep::Found { index: 1 }));
    assert!(matches!(page_step(&filter, &mc, &Some(s("3")), &page), PageStep::OffsetOverflow));
    filter.offset = u64::MAX - 3;
    match page_step(&filter, &mc, &Some(s("3")), &page) {
        PageStep::NextPage { filter: next } => assert_eq!(next.offset, u64::MAX),
        _ => panic!("the last offset that fits is taken"),
    }
}

#[test]
fn hangar_file_resolution() {
    let f = hangar_resolved_file("Owner/Proj", &pv("1.9", &["1.21"])).ok().unwrap();
    assert_eq!(f.url, "dl/1.9");
    assert_eq!(f.filename, "1.9.jar");
    assert_eq!(f.hashes, vec![(s("sha256"), s("ff"))]);
    match f.cache {
        CacheStrategy::File { namespace, path } => assert_eq!((namespace.as_str(), path.as_str()), ("hangar", "Owner/Proj/1.9/1.9.jar")),
        _ => panic!("hangar files are cached"),
    }
    let mut none = pv("1", &[]);
    none.downloads = vec![];
    assert!(matches!(hangar_resolved_file("x", &none), Err(HangarError::PlatformUnavailable { .. })));
    let ext = PlatformVersionDownload::External {
        file_info: FileInfo { name: s("e.jar"), size_bytes: 1, sha256_hash: s("0") },
        external_url: s("https://ext/e.jar"),
    };
    assert_eq!(ext.get_url(), "https://ext/e.jar");
    assert_eq!(ext.get_file_info().name, "e.jar");
}

#[test]
fn locked_modrinth_plugin_finds_its_resolution_cache() {
    let list = vec![mv("B", "paper-build", &["1.21"], &["paper"], vec![mf("b2.jar", true)])];
    let plugin = Downloadable::Modrinth { id: s("vault"), version: s("latest") };
    let (f, _) = resolve_modrinth_source("vault", "latest", "1.21", &list).ok().unwrap();
    let entry = LockedPlugin::from_download(&plugin, f, s("d1"));
    let again = resolved_from_lock(&plugin, &entry);
    match again.cache {
        CacheStrategy::File { namespace, path } => {
            assert_eq!(namespace, "modrinth");
            assert_eq!(path, "vault/B/b2.jar");
        }
        CacheStrategy::Uncached => panic!("the resolution's cache key is kept"),
    }
}
