use minipot::java::java_version_for_paper;
use minipot::jbr::{
    installed_from, java_bin_from, java_bin_in, jbr_archive_name, jbr_dir_from, jbr_dir_in,
    JbrError, jbr_download_tmp_name, jbr_download_url,
    jbr_extract_tmp_name, parse_tag, release_search_step, releases_page_url, HostOs,
    ReleaseSearch, TagError,
};

#[test]
fn java_version_edge_cases() {
    assert_eq!(java_version_for_paper("1.20.5"), 21);
    assert_eq!(java_version_for_paper("1.17.1"), 17);
    assert_eq!(java_version_for_paper(""), 17);
    assert_eq!(java_version_for_paper("1.30"), 25);
    assert_eq!(java_version_for_paper("1.x.21"), 21);
    assert_eq!(java_version_for_paper("1.20.6.1"), 17);
}

#[test]
fn java_version_is_monotone_on_examples() {
    let versions = ["1.16.5", "1.20.4", "1.20.5", "1.21", "1.25.9", "1.26", "1.27.1"];
    for w in versions.windows(2) {
        assert!(java_version_for_paper(w[0]) <= java_version_for_paper(w[1]));
    }
}

#[test]
fn parse_tag_examples() {
    match parse_tag("jbr-release-21.0.10b1163.110") {
        Ok((j, b)) => {
            assert_eq!(j, "21.0.10");
            assert_eq!(b, "1163.110");
        }
        Err(_) => panic!("tag should parse"),
    }
    assert!(matches!(parse_tag("release-21"), Err(TagError::UnexpectedFormat { .. })));
    assert!(matches!(parse_tag("jbr-release-21.0.10"), Err(TagError::NoBuildNumber { .. })));
}

#[test]
fn parse_tag_round_trip() {
    let tag = format!("jbr-release-{}b{}", "17.0.12", "1000.54");
    match parse_tag(&tag) {
        Ok((j, b)) => assert_eq!((j.as_str(), b.as_str()), ("17.0.12", "1000.54")),
        Err(_) => panic!("round trip failed"),
    }
}

#[test]
fn release_search_steps() {
    let tags = vec!["jbr-release-17.0.1b1".to_string(), "jbr-release-21.0.5b631.8".to_string()];
    match release_search_step(21, 1, &tags) {
        ReleaseSearch::Found { java, build } => {
            assert_eq!(java, "21.0.5");
            assert_eq!(build, "631.8");
        }
        _ => panic!("should be found"),
    }
    assert!(matches!(release_search_step(25, 1, &tags), ReleaseSearch::NextPage { page: 2 }));
    assert!(matches!(release_search_step(25, 5, &tags), ReleaseSearch::NotFound));
    assert!(matches!(release_search_step(21, 1, &vec![]), ReleaseSearch::NotFound));
    let bad = vec!["jbr-release-21.0.5".to_string()];
    assert!(matches!(release_search_step(21, 1, &bad), ReleaseSearch::BadTag { .. }));
    // a tag of Java 2 must not match a search for Java 21's prefix and vice versa
    let other = vec!["jbr-release-210.1b1".to_string()];
    assert!(matches!(release_search_step(21, 1, &other), ReleaseSearch::NextPage { page: 2 }));
}

#[test]
fn jbr_names_and_paths() {
    assert_eq!(jbr_dir_in("/home/u", 21), "/home/u/.minipot/jbr/jbr-21");
    assert_eq!(java_bin_in("/x/jbr-21", HostOs::Unix), "/x/jbr-21/bin/java");
    assert_eq!(java_bin_in("/x/jbr-21", HostOs::Windows), "/x/jbr-21/bin/java.exe");
    assert_eq!(
        jbr_archive_name("21.0.10", "1163.110", HostOs::Unix),
        "jbr-21.0.10-linux-x64-b1163.110.tar.gz"
    );
    assert_eq!(
        jbr_archive_name("21.0.10", "1163.110", HostOs::Windows),
        "jbr-21.0.10-windows-x64-b1163.110.zip"
    );
    assert_eq!(
        jbr_download_url("a.zip"),
        "https://cache-redirector.jetbrains.com/intellij-jbr/a.zip"
    );
    assert_eq!(jbr_download_tmp_name(17), "jbr-17-download.tmp");
    assert_eq!(jbr_extract_tmp_name(17), "jbr-17-extract-tmp");
    assert_eq!(
        releases_page_url(3),
        "https://api.github.com/repos/JetBrains/JetBrainsRuntime/releases?per_page=100&page=3"
    );
}

#[test]
fn jbr_dir_from_known_and_unknown_home() {
    match jbr_dir_from(Some("/home/u".to_string()), 21) {
        Ok(p) => assert_eq!(p, "/home/u/.minipot/jbr/jbr-21"),
        Err(_) => panic!("a known home gives a directory"),
    }
    assert!(matches!(jbr_dir_from(None, 21), Err(JbrError::NoHomeDir)));
}

#[test]
fn java_bin_from_keeps_directory_or_error() {
    match java_bin_from(Ok("/j".to_string()), HostOs::Unix) {
        Ok(p) => assert_eq!(p, "/j/bin/java"),
        Err(_) => panic!("a directory gives a binary"),
    }
    match java_bin_from(Ok("/j".to_string()), HostOs::Windows) {
        Ok(p) => assert_eq!(p, "/j/bin/java.exe"),
        Err(_) => panic!("a directory gives a binary"),
    }
    assert!(matches!(java_bin_from(Err(JbrError::NoHomeDir), HostOs::Unix), Err(JbrError::NoHomeDir)));
}

#[test]
fn installed_only_when_located_and_present() {
    assert!(installed_from(&Ok("/j/bin/java".to_string()), true));
    assert!(!installed_from(&Ok("/j/bin/java".to_string()), false));
    assert!(!installed_from(&Err(JbrError::NoHomeDir), true));
}
