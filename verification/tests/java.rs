use minipot::java::java_version_for_paper;

#[test]
fn test_java_version_mapping() {
    assert_eq!(java_version_for_paper("1.18.2"), 17);
    assert_eq!(java_version_for_paper("1.19.4"), 17);
    assert_eq!(java_version_for_paper("1.20.4"), 17);
    assert_eq!(java_version_for_paper("1.20.6"), 21);
    assert_eq!(java_version_for_paper("1.21.4"), 21);
    assert_eq!(java_version_for_paper("1.25.1"), 21);
    assert_eq!(java_version_for_paper("1.26.0"), 25);
}
