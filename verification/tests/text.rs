use lode::loader::Loader;
use lode::provider::{DownloadMode, Provider};
use lode::text::{
    decimal_text, has_text, is_before, join, parse_number, replace, signed_text, split_on,
    strip_prefix, strip_suffix, to_lower, to_upper, trim, trim_end,
};

#[test]
fn splitting_and_joining_undo_each_other() {
    for (s, pieces) in [
        ("a/b//c", vec!["a", "b", "", "c"]),
        ("", vec![""]),
        ("/", vec!["", ""]),
        ("plain", vec!["plain"]),
    ] {
        let got = split_on(s, '/');
        assert_eq!(got, pieces);
        assert_eq!(join(&got, "/"), s);
    }
}

#[test]
fn text_is_ordered_like_its_characters() {
    assert!(is_before("a", "b"));
    assert!(is_before("a", "aa"));
    assert!(is_before("", "a"));
    assert!(is_before("B", "a"));
    assert!(!is_before("a", "a"));
    assert!(!is_before("é", "z"));
}

#[test]
fn affixes_are_stripped() {
    assert_eq!(strip_prefix("https://x", "https://").as_deref(), Some("x"));
    assert_eq!(strip_prefix("http://x", "https://"), None);
    assert_eq!(strip_suffix("a.jar", ".jar").as_deref(), Some("a"));
    assert_eq!(strip_suffix("jar", ".jar"), None);
    assert_eq!(trim_end("a///", "/"), "a");
    assert_eq!(trim(" \t a b \n"), "a b");
    assert!(has_text("abc", "bc") && has_text("abc", "") && !has_text("abc", "cb"));
    assert_eq!(replace("a b c", ' ', "--"), "a--b--c");
}

#[test]
fn letters_change_case_in_the_ascii_range() {
    assert_eq!(to_lower("AbC-É"), "abc-É");
    assert_eq!(to_upper("abC-é"), "ABC-é");
}

#[test]
fn numbers_are_written_and_read() {
    assert_eq!(decimal_text(0), "0");
    assert_eq!(decimal_text(u64::MAX), u64::MAX.to_string());
    assert_eq!(signed_text(i64::MIN), i64::MIN.to_string());
    assert_eq!(signed_text(-7), "-7");
    for n in [0, 7, 10, 4_294_967_295] {
        assert_eq!(parse_number(&decimal_text(n), u32::MAX as u64), Some(n));
    }
    assert_eq!(parse_number("4294967296", u32::MAX as u64), None);
    assert_eq!(parse_number("+7", 100), "+7".parse::<u32>().ok().map(u64::from));
    for bad in ["", "-1", "1a", " 1", "+"] {
        assert_eq!(parse_number(bad, u32::MAX as u64), None, "{bad:?}");
    }
}

#[test]
fn loaders_and_providers_are_named() {
    for loader in [Loader::Forge, Loader::Neoforge, Loader::Fabric, Loader::Quilt] {
        assert_eq!(Loader::from_token(loader.modrinth_facet()), Some(loader));
    }
    assert_eq!(Loader::from_token("Forge"), None);
    assert_eq!(Loader::Neoforge.packwiz_version_key(), "neoforge");
    assert_eq!(Loader::Quilt.compatible_facets(), ["quilt", "fabric"]);
    assert_eq!(Loader::Forge.compatible_facets(), ["forge"]);
    for provider in [
        Provider::Modrinth,
        Provider::Curseforge,
        Provider::Url,
        Provider::Github,
        Provider::Local,
    ] {
        assert_eq!(Provider::from_token(provider.token()), Some(provider));
    }
    assert_eq!(Provider::from_token("none"), None);
    assert_eq!(DownloadMode::MetadataCurseforge.token(), "metadata:curseforge");
}
