use minipot::downloadable::{derive_cache_strategy, find_hash, first, latest, CacheStrategy, Downloadable, ResolvedFile};
use minipot::lock::{find_locked, resolved_from_lock, stale_plugin_files, LockedPlugin, MinipotLock, PaperPlan};
use minipot::paper::{builds_url, select_latest_build, ApplicationDownload, BuildEntry, Downloads, PaperBuild};

fn s(x: &str) -> String {
    x.to_string()
}

fn modrinth(id: &str) -> Downloadable {
    Downloadable::Modrinth { id: s(id), version: s("latest") }
}

fn locked(src: Downloadable, file: &str) -> LockedPlugin {
    LockedPlugin {
        source: src,
        filename: s(file),
        url: format!("https://x/{file}"),
        sha256: Some(s("ab")),
        size: Some(3),
        cache: CacheStrategy::File { namespace: s("modrinth"), path: format!("vault/V1/{file}") },
    }
}

#[test]
fn defaults_of_registry_sources() {
    assert_eq!(latest(), "latest");
    assert_eq!(first(), "first");
}

#[test]
fn display_of_sources() {
    assert_eq!(modrinth("vault").to_display_string(), "modrinth:vault@latest");
    assert_eq!(
        Downloadable::Hangar { id: s("LuckPerms/LuckPerms"), version: s("5.4") }.to_display_string(),
        "hangar:LuckPerms/LuckPerms@5.4"
    );
    assert_eq!(
        Downloadable::GithubRelease { repo: s("MilkBowl/Vault"), tag: s("latest"), asset: s("Vault.jar") }
            .to_display_string(),
        "github:MilkBowl/Vault@latest/Vault.jar"
    );
    assert_eq!(
        Downloadable::Url { url: s("https://e.com/p.jar"), filename: None }.to_display_string(),
        "https://e.com/p.jar"
    );
}

#[test]
fn direct_url_resolution() {
    let d = Downloadable::Url { url: s("https://example.com/dl/myplugin.jar?token=1"), filename: None };
    let f: ResolvedFile = d.resolve_direct().unwrap();
    assert_eq!(f.filename, "myplugin.jar");
    assert_eq!(f.url, "https://example.com/dl/myplugin.jar?token=1");
    assert!(f.size.is_none() && f.hashes.is_empty());
    assert!(matches!(f.cache, CacheStrategy::Uncached));
    let named = Downloadable::Url { url: s("https://e.com/x"), filename: Some(s("y.jar")) };
    assert_eq!(named.resolve_direct().unwrap().filename, "y.jar");
    assert!(modrinth("vault").resolve_direct().is_none());
}

#[test]
fn cache_strategy_from_source() {
    let recorded = CacheStrategy::File { namespace: s("modrinth"), path: s("vault/V1/Vault.jar") };
    match derive_cache_strategy(&modrinth("vault"), &recorded) {
        CacheStrategy::File { namespace, path } => {
            assert_eq!(namespace, "modrinth");
            assert_eq!(path, "vault/V1/Vault.jar");
        }
        CacheStrategy::Uncached => panic!("expected a file cache"),
    }
    let gh = Downloadable::GithubRelease { repo: s("a/b"), tag: s("t"), asset: s("x") };
    let recorded = CacheStrategy::File { namespace: s("github"), path: s("a/b/releases/t/f.jar") };
    match derive_cache_strategy(&gh, &recorded) {
        CacheStrategy::File { namespace, path } => {
            assert_eq!((namespace.as_str(), path.as_str()), ("github", "a/b/releases/t/f.jar"))
        }
        CacheStrategy::Uncached => panic!("expected a file cache"),
    }
    assert!(matches!(derive_cache_strategy(&gh, &CacheStrategy::Uncached), CacheStrategy::Uncached));
    let url = Downloadable::Url { url: s("u"), filename: None };
    assert!(matches!(derive_cache_strategy(&url, &recorded), CacheStrategy::Uncached));
    assert!(matches!(CacheStrategy::default(), CacheStrategy::Uncached));
}

#[test]
fn sources_compare_by_contents() {
    assert!(modrinth("a").same_source(&modrinth("a")));
    assert!(!modrinth("a").same_source(&modrinth("b")));
    let h = Downloadable::Hangar { id: s("a"), version: s("latest") };
    assert!(!modrinth("a").same_source(&h));
}

#[test]
fn paper_plan_uses_lock_for_same_version() {
    let mut lock = MinipotLock::empty();
    assert!(matches!(lock.paper_plan(&s("1.21.4")), PaperPlan::Resolve { previous_version: None }));
    let build = PaperBuild { build: 120, sha256: s("abc"), url: s("https://p/120") };
    lock.pin_paper_build(&s("1.21.4"), &build);
    match lock.paper_plan(&s("1.21.4")) {
        PaperPlan::UseLocked { build, url, sha256 } => {
            assert_eq!(build, 120);
            assert_eq!(url, "https://p/120");
            assert_eq!(sha256, "abc");
        }
        _ => panic!("pinned build should be used"),
    }
    match lock.paper_plan(&s("1.20.6")) {
        PaperPlan::Resolve { previous_version } => assert_eq!(previous_version, Some(s("1.21.4"))),
        _ => panic!("version change must re-resolve"),
    }
}

#[test]
fn locked_plugins_round_trip() {
    let lp = locked(modrinth("vault"), "Vault.jar");
    let list = vec![locked(modrinth("other"), "O.jar"), lp];
    assert_eq!(find_locked(&list, &modrinth("vault")), Some(1));
    assert_eq!(find_locked(&list, &modrinth("none")), None);
    let r = resolved_from_lock(&modrinth("vault"), &list[1]);
    assert_eq!(r.url, "https://x/Vault.jar");
    assert_eq!(r.filename, "Vault.jar");
    assert_eq!(r.size, Some(3));
    assert_eq!(r.hashes, vec![(s("sha256"), s("ab"))]);
    assert_eq!(r.expected_sha256(), Some(s("ab")));
    let back = LockedPlugin::from_download(&modrinth("vault"), r, s("cd"));
    assert_eq!(back.sha256, Some(s("cd")));
    assert_eq!(back.filename, "Vault.jar");
    assert!(back.source.same_source(&modrinth("vault")));
}

#[test]
fn stale_plugins_are_exactly_the_dropped_ones() {
    let old = vec![locked(modrinth("a"), "A.jar"), locked(modrinth("b"), "B.jar"), locked(modrinth("c"), "C.jar")];
    let new = vec![locked(modrinth("b"), "B.jar"), locked(modrinth("d"), "D.jar")];
    assert_eq!(stale_plugin_files(&old, &new), vec![s("A.jar"), s("C.jar")]);
    assert!(stale_plugin_files(&new, &new).is_empty());
}

fn entry(build: u32, channel: &str) -> BuildEntry {
    BuildEntry {
        build,
        channel: s(channel),
        downloads: Downloads { application: ApplicationDownload { name: format!("paper-{build}.jar"), sha256: format!("h{build}") } },
    }
}

#[test]
fn latest_stable_paper_build() {
    let builds = vec![entry(1, "default"), entry(2, "default"), entry(3, "experimental")];
    let b = select_latest_build(&builds, "1.21.4").unwrap();
    assert_eq!(b.build, 2);
    assert_eq!(b.sha256, "h2");
    assert_eq!(
        b.url,
        "https://api.papermc.io/v2/projects/paper/versions/1.21.4/builds/2/downloads/paper-2.jar"
    );
    assert!(select_latest_build(&vec![entry(3, "experimental")], "1.21.4").is_none());
    assert_eq!(builds_url("1.20.6"), "https://api.papermc.io/v2/projects/paper/versions/1.20.6/builds");
}

#[test]
fn find_hash_reads_the_entry_of_the_algorithm() {
    let hashes = vec![
        ("sha1".to_string(), "aa".to_string()),
        ("sha256".to_string(), "bb".to_string()),
        ("sha512".to_string(), "cc".to_string()),
    ];
    assert_eq!(find_hash(&hashes, "sha256"), Some("bb".to_string()));
    assert_eq!(find_hash(&hashes, "sha512"), Some("cc".to_string()));
    assert_eq!(find_hash(&hashes, "md5"), None);
}
