use minipot::text::{
    after_last_exec, before_first_exec, contains_exec, decimal_string, eq_ignore_ascii_case_exec,
    find_exact_or_containing, join_path_exec, parse_u32_exec, parse_u64_exec, replace_exec,
    split_once_exec, trim_matches_str, trim_str,
};

#[test]
fn trim_removes_unicode_white_space() {
    assert_eq!(trim_str("  \t hello \n"), "hello");
    assert_eq!(trim_str("\u{3000}x\u{a0}"), "x");
    assert_eq!(trim_str("   "), "");
    assert_eq!(trim_matches_str("\"\"name\"", '"'), "name");
}

#[test]
fn parse_follows_std_rules() {
    assert_eq!(parse_u32_exec("42"), Some(42));
    assert_eq!(parse_u32_exec("+7"), Some(7));
    assert_eq!(parse_u32_exec("007"), Some(7));
    assert_eq!(parse_u32_exec("4294967295"), Some(u32::MAX));
    assert_eq!(parse_u32_exec("4294967296"), None);
    assert_eq!(parse_u32_exec(""), None);
    assert_eq!(parse_u32_exec("+"), None);
    assert_eq!(parse_u32_exec("-1"), None);
    assert_eq!(parse_u32_exec("1a"), None);
    assert_eq!(parse_u64_exec("18446744073709551615"), Some(u64::MAX));
    assert_eq!(parse_u64_exec("18446744073709551616"), None);
    for s in ["0", "12", "+3", "99999", "x", " 1"] {
        assert_eq!(parse_u32_exec(s), s.parse::<u32>().ok());
    }
}

#[test]
fn decimal_matches_to_string() {
    for n in [0u64, 7, 10, 99, 100, 5005, u64::MAX] {
        assert_eq!(decimal_string(n), n.to_string());
    }
}

#[test]
fn split_and_replace_match_std() {
    assert_eq!(split_once_exec("a/b/c", '/'), Some(("a".to_string(), "b/c".to_string())));
    assert_eq!(split_once_exec("abc", '/'), None);
    assert_eq!(before_first_exec("x.jar?dl=1", '?'), "x.jar");
    assert_eq!(after_last_exec("https://h/p/x.jar", '/'), "x.jar");
    assert_eq!(after_last_exec("plain", '/'), "plain");
    assert_eq!(replace_exec("a${mcver}b${mcver}", "${mcver}", "1.21"), "a1.21b1.21");
    assert_eq!(replace_exec("aaa", "aa", "b"), "aaa".replace("aa", "b"));
    assert!(contains_exec("hello", "ell"));
    assert!(contains_exec("hello", ""));
    assert!(!contains_exec("hello", "world"));
    assert!(eq_ignore_ascii_case_exec("Vault", "vAULT"));
    assert!(!eq_ignore_ascii_case_exec("Vault", "Vaul"));
}

#[test]
fn lookup_prefers_exact_names() {
    let names = vec!["v1.0-beta".to_string(), "v1.0".to_string()];
    assert_eq!(find_exact_or_containing(&names, "v1.0"), Some(1));
    assert_eq!(find_exact_or_containing(&names, "beta"), Some(0));
    assert_eq!(find_exact_or_containing(&names, "v2"), None);
}

#[test]
fn join_path_puts_one_separator() {
    assert_eq!(join_path_exec("/home/u", ".minipot"), "/home/u/.minipot");
    assert_eq!(join_path_exec("/home/u/", ".minipot"), "/home/u/.minipot");
    assert_eq!(join_path_exec("", "x"), "x");
}
