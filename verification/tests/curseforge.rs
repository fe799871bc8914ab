use lode::loader::Loader;
use lode::lock::DepKind;
use lode::providers::curseforge::{
    CfDep, CfFile, CfHash, CfLinks, CfLookup, CfMod, Curseforge, CurseforgeError, FilePages,
    FILES_INDEX_CAP, FILES_PAGE_SIZE,
};
use lode::side::Side;

/// A minimal file over the fields the selection logic reads.
fn file(id: u32, date: &str, release_type: u32, display: &str, name: &str) -> CfFile {
    CfFile {
        id,
        display_name: display.to_string(),
        file_name: name.to_string(),
        download_url: None,
        hashes: Vec::new(),
        file_length: None,
        file_date: date.to_string(),
        release_type,
        dependencies: Vec::new(),
    }
}

fn hashed(hashes: &[(&str, u32)]) -> CfFile {
    let mut f = file(1, "2024-01-01", 1, "v", "a.jar");
    f.hashes = hashes
        .iter()
        .map(|(value, algo)| CfHash {
            value: value.to_string(),
            algo: *algo,
        })
        .collect();
    f
}

fn jei() -> CfMod {
    CfMod {
        id: 238222,
        name: "JEI".to_string(),
        slug: "jei".to_string(),
        links: CfLinks {
            website_url: Some("https://cf/jei".to_string()),
        },
    }
}

#[test]
fn best_hash_prefers_sha1_even_when_md5_listed_first() {
    let f = hashed(&[("MD5VAL", 2), ("SHA1VAL", 1)]);

    let picked = Curseforge::best_hash(&f);

    assert_eq!(picked, Some(("sha1".to_string(), "SHA1VAL".to_string())));
}

#[test]
fn best_hash_falls_back_to_md5_when_no_sha1() {
    let f = hashed(&[("MD5VAL", 2)]);

    let picked = Curseforge::best_hash(&f);

    assert_eq!(picked, Some(("md5".to_string(), "MD5VAL".to_string())));
}

#[test]
fn best_hash_is_none_without_sha1_or_md5() {
    let empty = hashed(&[]);
    let unknown_algo = hashed(&[("OTHER", 9)]);

    assert_eq!(Curseforge::best_hash(&empty), None);
    assert_eq!(Curseforge::best_hash(&unknown_algo), None);
}

#[test]
fn loader_type_maps_each_loader_to_its_curseforge_id() {
    assert_eq!(Curseforge::loader_type(Loader::Forge), 1);
    assert_eq!(Curseforge::loader_type(Loader::Fabric), 4);
    assert_eq!(Curseforge::loader_type(Loader::Quilt), 5);
    assert_eq!(Curseforge::loader_type(Loader::Neoforge), 6);
}

#[test]
fn next_page_index_advances_after_a_full_page() {
    assert_eq!(
        Curseforge::next_page_index(FILES_PAGE_SIZE, 0),
        Some(FILES_PAGE_SIZE)
    );
}

#[test]
fn next_page_index_stops_on_a_short_or_empty_page() {
    assert_eq!(Curseforge::next_page_index(FILES_PAGE_SIZE - 1, 0), None);
    assert_eq!(Curseforge::next_page_index(0, 0), None);
}

#[test]
fn next_page_index_stops_before_paging_past_the_index_cap() {
    let last_ok = FILES_INDEX_CAP - 2 * FILES_PAGE_SIZE;
    let at_cap_edge = FILES_INDEX_CAP - FILES_PAGE_SIZE;

    assert_eq!(
        Curseforge::next_page_index(FILES_PAGE_SIZE, last_ok),
        Some(FILES_INDEX_CAP - FILES_PAGE_SIZE)
    );
    assert_eq!(
        Curseforge::next_page_index(FILES_PAGE_SIZE, at_cap_edge),
        None
    );
}

#[test]
fn sort_orders_newest_first() {
    let mut files = vec![
        file(10, "2024-01-01T00:00:00Z", 1, "old", "old.jar"),
        file(20, "2024-03-01T00:00:00Z", 1, "new", "new.jar"),
        file(30, "2024-02-01T00:00:00Z", 1, "mid", "mid.jar"),
    ];

    Curseforge::sort_files_newest_first(&mut files);

    assert_eq!(
        files.iter().map(|f| f.id).collect::<Vec<_>>(),
        vec![20, 30, 10]
    );
}

#[test]
fn sort_breaks_equal_dates_by_higher_file_id() {
    let mut files = vec![
        file(100, "2024-01-01T00:00:00Z", 1, "a", "a.jar"),
        file(200, "2024-01-01T00:00:00Z", 1, "b", "b.jar"),
    ];

    Curseforge::sort_files_newest_first(&mut files);

    assert_eq!(files[0].id, 200);
    assert_eq!(files[1].id, 100);
}

#[test]
fn choose_star_prefers_the_stable_release_over_a_newer_beta() {
    let files = vec![
        file(3, "2024-03-01", 2, "0.6.0-beta", "mod-0.6.0-beta.jar"),
        file(2, "2024-02-01", 1, "0.5.9", "mod-0.5.9.jar"),
        file(1, "2024-01-01", 1, "0.5.8", "mod-0.5.8.jar"),
    ];

    let chosen = Curseforge::choose_matching(&files, "*").expect("some file matches *");

    assert_eq!(
        chosen.id, 2,
        "should pick the newest stable, not the newer beta"
    );
}

#[test]
fn choose_star_falls_back_to_first_when_no_stable_exists() {
    let files = vec![
        file(3, "2024-03-01", 2, "0.6.0-beta", "mod-0.6.0-beta.jar"),
        file(1, "2024-01-01", 3, "0.5.0-alpha", "mod-0.5.0-alpha.jar"),
    ];

    let chosen = Curseforge::choose_matching(&files, "*").expect("some file matches *");

    assert_eq!(
        chosen.id, 3,
        "no stable release -> first (newest) matching file"
    );
}

#[test]
fn choose_plain_constraint_is_a_substring_match_on_names() {
    let files = vec![
        file(2, "2024-02-01", 1, "Sodium 0.5.9", "sodium-0.5.9.jar"),
        file(1, "2024-01-01", 1, "Sodium 0.5.8", "sodium-0.5.8.jar"),
    ];

    let by_filename = Curseforge::choose_matching(&files, "0.5.8").unwrap();
    let no_match = Curseforge::choose_matching(&files, "9.9.9");

    assert_eq!(by_filename.id, 1);
    assert!(no_match.is_none());
}

#[test]
fn choose_matches_substring_against_display_name_too() {
    let files = vec![file(
        1,
        "2024-01-01",
        1,
        "Fancy Build QUUX",
        "fancy-1.0.jar",
    )];

    let chosen = Curseforge::choose_matching(&files, "QUUX").unwrap();

    assert_eq!(chosen.id, 1);
}

#[test]
fn is_range_switches_between_substring_and_semver_matching() {
    let files = vec![file(1, "2024-01-01", 1, "0.9.0", "mod-0.9.0.jar")];

    let substring = Curseforge::choose_matching(&files, "0.9");
    let range_excludes = Curseforge::choose_matching(&files, "^1.0.0");

    assert!(
        substring.is_some(),
        "plain '0.9' is a substring of display name '0.9.0'"
    );
    assert!(
        range_excludes.is_none(),
        "range '^1.0.0' is a semver requirement 0.9.0 does not satisfy"
    );
}

#[test]
fn choose_range_selects_the_semver_satisfying_file() {
    let files = vec![
        file(2, "2024-02-01", 1, "2.5.0", "mod-2.5.0.jar"),
        file(1, "2024-01-01", 1, "0.9.0", "mod-0.9.0.jar"),
    ];

    let chosen = Curseforge::choose_matching(&files, "^2.0.0").unwrap();

    assert_eq!(
        chosen.id, 2,
        "only 2.5.0 satisfies ^2.0.0 (0.9.0 is excluded)"
    );
}

#[test]
fn sort_then_choose_reproduces_resolve_latest_release() {
    let mut files = vec![
        file(1, "2024-01-01", 1, "0.5.0", "mod-0.5.0.jar"),
        file(3, "2024-03-01", 2, "0.7.0-beta", "mod-0.7.0-beta.jar"),
        file(2, "2024-02-01", 1, "0.6.0", "mod-0.6.0.jar"),
    ];

    Curseforge::sort_files_newest_first(&mut files);
    let chosen = Curseforge::choose_matching(&files, "*").unwrap();

    assert_eq!(chosen.id, 2, "latest stable release across the sorted set");
}

#[test]
fn resolve_takes_the_newest_release_and_its_required_dependencies() {
    let mut newest = file(3, "2024-03-01", 1, "JEI 15.3", "jei-15.3.jar");
    newest.hashes = hashed(&[("S", 1)]).hashes;
    newest.file_length = Some(7);
    newest.download_url = Some("https://edge/jei.jar".to_string());
    newest.dependencies = vec![
        CfDep { mod_id: 9, relation_type: 3 },
        CfDep { mod_id: 8, relation_type: 2 },
        CfDep { mod_id: 7, relation_type: 6 },
    ];
    let files = vec![
        file(1, "2024-01-01", 1, "JEI 15.1", "jei-15.1.jar"),
        newest,
        file(4, "2024-04-01", 2, "JEI 15.4", "jei-15.4.jar"),
    ];

    let out = Curseforge::resolve(&jei(), files, "*").unwrap();

    assert_eq!(out.project_id, "238222");
    assert_eq!(out.slug, "jei");
    assert_eq!(out.project_name, "JEI");
    assert_eq!(out.file_id, "3");
    assert_eq!(out.version, "JEI 15.3");
    assert_eq!(out.filename, "jei-15.3.jar");
    assert_eq!(out.hash_format, "sha1");
    assert_eq!(out.hash, "S");
    assert_eq!(out.size, Some(7));
    assert_eq!(out.url, None, "the address is looked up again at install time");
    assert_eq!(out.side, Side::Both);
    assert_eq!(out.dependencies.len(), 1, "only required relations are followed");
    assert_eq!(out.dependencies[0].project_id, "9");
    assert_eq!(out.dependencies[0].kind, DepKind::Required);
}

#[test]
fn curseforge_resolve_says_what_was_missing() {
    assert!(matches!(
        Curseforge::resolve(&jei(), vec![], "*"),
        Err(CurseforgeError::NoFile)
    ));
    assert!(matches!(
        Curseforge::resolve(&jei(), vec![hashed(&[("S", 1)])], "9.9"),
        Err(CurseforgeError::NoMatch)
    ));
    assert!(matches!(
        Curseforge::resolve(&jei(), vec![hashed(&[])], "*"),
        Err(CurseforgeError::NoHash(_))
    ));
    assert!(matches!(Curseforge::find_mod(vec![]), Err(CurseforgeError::NoMod)));
    assert!(matches!(Curseforge::from_config(None), Err(CurseforgeError::NoKey)));
    assert_eq!(Curseforge::from_config(Some("k".to_string())).unwrap().key, "k");
}

#[test]
fn a_number_is_an_id_and_anything_else_a_slug() {
    assert_eq!(Curseforge::lookup("238222"), CfLookup::ById(238222));
    assert_eq!(Curseforge::lookup("jei"), CfLookup::BySlug);
    assert_eq!(Curseforge::lookup("99999999999"), CfLookup::BySlug);
    assert_eq!(Curseforge::lookup(""), CfLookup::BySlug);
    assert_eq!(Curseforge::find_mod(vec![jei()]).unwrap().slug, "jei");
    assert_eq!(Curseforge::slug_of(jei()), "jei");
}

#[test]
fn pages_are_read_until_a_short_one() {
    let page = |len: usize| {
        (0..len)
            .map(|i| file(i as u32, "2024-01-01", 1, "v", "a.jar"))
            .collect::<Vec<CfFile>>()
    };
    let mut pages = FilePages::start();
    assert!(pages.take_page(page(50)));
    assert_eq!(pages.index, 50);
    assert!(!pages.take_page(page(3)));
    assert_eq!(pages.files.len(), 53);
}

#[test]
fn a_download_falls_back_to_the_project_page() {
    let mut f = hashed(&[("S", 1)]);
    f.download_url = Some("https://edge/a.jar".to_string());
    let out = Curseforge::file_download(f, Some(jei()));
    assert_eq!(out.url.as_deref(), Some("https://edge/a.jar"));
    assert_eq!(out.filename, "a.jar");
    assert_eq!((out.hash_format.as_str(), out.hash.as_str()), ("sha1", "S"));

    let out = Curseforge::file_download(hashed(&[]), Some(jei()));
    assert_eq!(out.url, None);
    assert_eq!(out.website_url.as_deref(), Some("https://cf/jei"));
    assert_eq!((out.hash_format.as_str(), out.hash.as_str()), ("", ""));
}

#[test]
fn curseforge_urls() {
    assert_eq!(Curseforge::mod_url(5), "https://api.curseforge.com/v1/mods/5");
    assert_eq!(Curseforge::search_url(), "https://api.curseforge.com/v1/mods/search");
    assert_eq!(Curseforge::files_url(5), "https://api.curseforge.com/v1/mods/5/files");
    assert_eq!(
        Curseforge::file_url("5", "7"),
        "https://api.curseforge.com/v1/mods/5/files/7"
    );
    assert_eq!(Curseforge::project_url("5"), "https://api.curseforge.com/v1/mods/5");
}

#[test]
fn the_answer_does_not_depend_on_the_order_of_the_files() {
    let listing = || {
        let mut files = vec![
            file(1, "2024-01-01", 1, "a", "a.jar"),
            file(2, "2024-01-01", 1, "b", "b.jar"),
            file(3, "2023-01-01", 1, "c", "c.jar"),
        ];
        for f in &mut files {
            f.hashes = hashed(&[("S", 1)]).hashes;
        }
        files
    };
    let mut reversed = listing();
    reversed.reverse();
    assert_eq!(Curseforge::resolve(&jei(), listing(), "*").unwrap().file_id, "2");
    assert_eq!(Curseforge::resolve(&jei(), reversed, "*").unwrap().file_id, "2");
}
