use dgrlauncher::system_java::{parse_java_major, probe_result, quoted_version, sort_javas, unique_candidates, SystemJava};

#[test]
fn parses_java_versions() {
    assert_eq!(parse_java_major("25.0.1"), Some(25));
    assert_eq!(parse_java_major("21.0.12.1"), Some(21));
    assert_eq!(parse_java_major("17.0.9"), Some(17));
    assert_eq!(parse_java_major("1.8.0_442"), Some(8));
    assert_eq!(parse_java_major("11.0.22"), Some(11));
    assert_eq!(parse_java_major("garbage"), None);
}

#[test]
fn version_from_probe_output() {
    let out = "openjdk version \"25.0.1\" 2025-09-16\nOpenJDK Runtime Environment\n";
    assert_eq!(quoted_version(out), Some("25.0.1".to_string()));
    let j = probe_result("/usr/bin/java", "java version \"1.8.0_442\"\n").unwrap();
    assert_eq!((j.path.as_str(), j.version.as_str(), j.major), ("/usr/bin/java", "1.8.0_442", 8));
    assert!(probe_result("/x", "no quotes here").is_none());
}

#[test]
fn javas_listed_newest_first() {
    let j = |p: &str, m: u64| SystemJava { path: p.to_string(), version: String::new(), major: m };
    let r = sort_javas(vec![j("/b", 17), j("/z", 21), j("/a", 17)]);
    let got: Vec<(String, u64)> = r.into_iter().map(|x| (x.path, x.major)).collect();
    assert_eq!(got, vec![("/z".to_string(), 21), ("/a".to_string(), 17), ("/b".to_string(), 17)]);
}

#[test]
fn duplicate_candidates_dropped() {
    let keys = vec!["/a".to_string(), "/b".to_string(), "/a".to_string(), "/c".to_string(), "/b".to_string()];
    assert_eq!(unique_candidates(&keys), vec![0, 1, 3]);
}
