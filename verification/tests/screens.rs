use dgrlauncher::json::Json;
use dgrlauncher::screens::{instance_details, short_desc, short_mc, JavaLine};
use dgrlauncher::digest::{generate_uuid, sha512_hex, to_hex_lower};

#[test]
fn one_line_descriptions() {
    assert_eq!(short_desc("A  mod\nthat   does\tthings", 100), "A mod that does things");
    assert_eq!(short_desc("abcdef", 3), "abc…");
    assert_eq!(short_desc("abc", 3), "abc");
}

#[test]
fn short_version_lists() {
    let v = |s: &[&str]| s.iter().map(|x| x.to_string()).collect::<Vec<_>>();
    assert_eq!(short_mc(&v(&["1.21.1", "1.21"])), "1.21.1, 1.21");
    assert_eq!(short_mc(&v(&["a", "b", "c", "d"])), "a, b, c, …");
    assert_eq!(short_mc(&v(&[])), "?");
}

#[test]
fn details_lines() {
    let j = Json::Object(vec![
        ("inheritsFrom".to_string(), Json::Str("1.16.5".to_string())),
        ("mainClass".to_string(), Json::Str("net.fabricmc.loader.impl.launch.knot.KnotClient".to_string())),
    ]);
    assert_eq!(instance_details("Pack", Some(&j), "Automatic"), ("Minecraft 1.16.5 \u{2022} Fabric".to_string(), JavaLine::Auto(8)));
    assert_eq!(instance_details("Pack", Some(&j), "Custom"), ("Minecraft 1.16.5 \u{2022} Fabric".to_string(), JavaLine::Named("Custom".to_string())));
    assert_eq!(instance_details("Pack", None, "Automatic"), ("Minecraft Pack".to_string(), JavaLine::Unknown));
}

#[test]
fn offline_uuid_and_hashes() {
    assert_eq!(generate_uuid("a"), "0cc175b9-c0f1-b6a8-31c3-99e269772661");
    assert_eq!(to_hex_lower(&[0, 15, 255]), "000fff");
    assert_eq!(sha512_hex(b"abc").len(), 128);
    assert!(sha512_hex(b"abc").starts_with("ddaf35a193617aba"));
}
