use std::path::Path;

use indexmap::IndexMap;
use lode::cli::AddArgs;
use lode::commands::add::{
    declare_mod, exact_slug, is_local_jar, local_slug, normalize_query, prepare_local,
    prepare_remote, resolve_slug, truncate, uses_curseforge, AddError, Prepared, SearchChoice,
};
use lode::commands::init::new_manifest;
use lode::loader::Loader;
use lode::manifest::ModSpec;
use lode::provider::Provider;
use lode::providers::modrinth::SearchHit;
use lode::side::Side;

fn args(query: &str) -> AddArgs {
    AddArgs {
        query: query.to_string(),
        version: None,
        side: None,
        search: false,
        curseforge: false,
        lock_only: false,
    }
}

fn hit(slug: &str, title: &str) -> SearchHit {
    SearchHit {
        slug: slug.to_string(),
        title: title.to_string(),
        description: "d".repeat(100),
        downloads: 12,
    }
}

#[test]
fn normalize_query_extracts_slug_from_modrinth_urls() {
    // Both the bare project page and a versioned URL collapse to the slug.
    assert_eq!(normalize_query("https://modrinth.com/mod/sodium"), "sodium");
    assert_eq!(
        normalize_query("https://modrinth.com/mod/sodium/version/AbCdEf12"),
        "sodium"
    );
}

#[test]
fn normalize_query_extracts_slug_from_curseforge_urls() {
    // The last path segment is the slug; a query string, fragment, or trailing slash is stripped.
    assert_eq!(
        normalize_query("https://www.curseforge.com/minecraft/mc-mods/jei"),
        "jei"
    );
    assert_eq!(
        normalize_query("https://www.curseforge.com/minecraft/mc-mods/jei/"),
        "jei"
    );
    assert_eq!(
        normalize_query("https://www.curseforge.com/minecraft/mc-mods/jei?page=1#files"),
        "jei"
    );
}

#[test]
fn normalize_query_passes_through_a_bare_slug() {
    // A plain slug (not a URL) is returned untouched — the common `lode add sodium` case.
    assert_eq!(normalize_query("sodium"), "sodium");
}

#[test]
fn truncate_leaves_short_and_exact_length_strings_untouched() {
    // At or under the limit, nothing is cut and no ellipsis is appended.
    assert_eq!(truncate("hello", 5), "hello");
    assert_eq!(truncate("hi", 5), "hi");
}

#[test]
fn truncate_cuts_over_length_input_and_appends_an_ellipsis() {
    // 6 chars, max 5 -> first 5 chars plus the ellipsis.
    assert_eq!(truncate("hello!", 5), "hello…");
}

#[test]
fn truncate_counts_characters_not_bytes() {
    // Multibyte input must be measured and sliced by char, never by byte — a byte-based
    // truncate would miscount the length (and could panic splitting a multibyte char).
    // "café" is 4 chars but 5 bytes.
    assert_eq!(truncate("café", 4), "café");
    assert_eq!(truncate("café latte", 4), "café…");
}

#[test]
fn local_slug_strips_jar_lowercases_and_dashes_spaces() {
    assert_eq!(local_slug("Cool Mod.jar"), "cool-mod");
    assert_eq!(local_slug("sodium.jar"), "sodium");
    assert_eq!(local_slug("Multi Word Name.jar"), "multi-word-name");
}

#[test]
fn local_slug_without_a_jar_suffix_keeps_the_whole_name() {
    // No `.jar` to strip -> the full name is lowercased/dashed as-is.
    assert_eq!(local_slug("NoExt"), "noext");
}

/// The last component of a path.
fn name(path: &str) -> Option<&str> {
    Path::new(path).file_name()?.to_str()
}

#[test]
fn is_local_jar_true_for_an_existing_jar_file() {
    assert!(is_local_jar(name("/tmp/d/mod.jar"), true));
}

#[test]
fn is_local_jar_extension_check_is_case_insensitive() {
    assert!(is_local_jar(name("/tmp/d/MOD.JAR"), true));
}

#[test]
fn is_local_jar_false_for_non_jar_and_for_a_missing_path() {
    // Wrong extension, even though the file exists.
    assert!(!is_local_jar(name("/tmp/d/notes.txt"), true));
    // Right extension but no such file -> must route to a provider, not local bundling.
    assert!(!is_local_jar(name("/tmp/d/ghost.jar"), false));
    // A bare slug is neither a jar nor a file.
    assert!(!is_local_jar(name("sodium"), false));
}

#[test]
fn a_local_jar_is_declared_by_its_file_name() {
    let query = "dir/Cool Mod.jar";
    let prepared = prepare_local(&args(query), name(query)).unwrap();
    assert_eq!(prepared.slug, "cool-mod");
    assert_eq!(prepared.spec.provider(), Some(Provider::Local));
    assert_eq!(prepared.spec.project_id(), Some("Cool Mod.jar"));
    assert_eq!(prepared.spec.constraint(), "local");
    assert!(matches!(prepare_local(&args("dir/.."), name("dir/..")), Err(AddError::InvalidPath)));
}

#[test]
fn a_mod_without_details_is_declared_by_its_constraint() {
    let prepared = prepare_remote(&args("sodium"), "sodium".to_string());
    assert!(matches!(&prepared.spec, ModSpec::Constraint(c) if c == "*"));

    let mut detailed = args("sodium");
    detailed.version = Some("^0.5".to_string());
    detailed.side = Some(Side::Client);
    let prepared = prepare_remote(&detailed, "sodium".to_string());
    assert_eq!(prepared.spec.constraint(), "^0.5");
    assert_eq!(prepared.spec.side(), Some(Side::Client));
    assert_eq!(prepared.spec.provider(), None);

    let mut cf = args("jei");
    cf.curseforge = true;
    let prepared = prepare_remote(&cf, "jei".to_string());
    assert_eq!(prepared.spec.provider(), Some(Provider::Curseforge));
}

#[test]
fn a_curseforge_link_asks_curseforge() {
    assert!(uses_curseforge(&args("https://www.curseforge.com/minecraft/mc-mods/jei")));
    assert!(!uses_curseforge(&args("https://modrinth.com/mod/sodium")));
    assert!(!uses_curseforge(&args("sodium")));
}

#[test]
fn without_an_exact_match_only_an_explicit_search_goes_on() {
    assert_eq!(
        exact_slug(Some("sodium".to_string()), &args("sodium")).unwrap().as_deref(),
        Some("sodium")
    );
    assert!(matches!(exact_slug(None, &args("sodum")), Err(AddError::NoExactMatch)));
    let mut search = args("sodum");
    search.search = true;
    assert_eq!(exact_slug(None, &search).unwrap(), None);
}

#[test]
fn a_single_hit_is_taken_and_several_are_offered() {
    assert!(matches!(resolve_slug(&vec![]), Err(AddError::NoHits)));
    match resolve_slug(&vec![hit("sodium", "Sodium")]).unwrap() {
        SearchChoice::Take(slug) => assert_eq!(slug, "sodium"),
        other => panic!("{other:?}"),
    }
    match resolve_slug(&vec![hit("sodium", "Sodium"), hit("iris", "Iris")]).unwrap() {
        SearchChoice::Pick(labels) => {
            assert_eq!(labels.len(), 2);
            assert_eq!(labels[1], format!("Iris — {}…", "d".repeat(60)));
        }
        other => panic!("{other:?}"),
    }
}

#[test]
fn declaring_replaces_in_place_and_appends_otherwise() {
    let mut manifest = new_manifest(
        "t".into(),
        "a".into(),
        "0".into(),
        Loader::Fabric,
        "1.20.1".into(),
        "0.16.0".into(),
    );
    let mut expected: IndexMap<String, String> = IndexMap::new();
    for (slug, version) in [("a", "1"), ("b", "2"), ("a", "3")] {
        declare_mod(
            &mut manifest,
            Prepared {
                slug: slug.to_string(),
                spec: ModSpec::Constraint(version.to_string()),
            },
        );
        expected.insert(slug.to_string(), version.to_string());
    }
    let got: Vec<(&str, &str)> = (0..manifest.len())
        .map(|i| (manifest.entry(i).0.as_str(), manifest.entry(i).1.constraint()))
        .collect();
    let wanted: Vec<(&str, &str)> =
        expected.iter().map(|(k, v)| (k.as_str(), v.as_str())).collect();
    assert_eq!(got, wanted);
    assert_eq!(got, [("a", "3"), ("b", "2")]);
}
