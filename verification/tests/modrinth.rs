use lode::loader::Loader;
use lode::lock::DepKind;
use lode::providers::modrinth::{
    choose_version, collect_deps, dep_kind, pick_hash, select_file, sort_versions_newest_first,
    version_supports_loader, EnvSupport, FileHashes, Modrinth, ModrinthError, ProjectResp,
    VersionDep, VersionFile, VersionResp,
};
use lode::providers::prefer_stable;
use lode::side::Side;

fn dep(project_id: Option<&str>, dependency_type: &str) -> VersionDep {
    VersionDep {
        project_id: project_id.map(String::from),
        dependency_type: dependency_type.to_string(),
    }
}

fn project(client: EnvSupport, server: EnvSupport) -> ProjectResp {
    ProjectResp {
        slug: "sodium".to_string(),
        title: "Sodium".to_string(),
        client_side: client,
        server_side: server,
    }
}

fn hashes(sha512: Option<&str>, sha1: Option<&str>) -> FileHashes {
    FileHashes {
        sha512: sha512.map(String::from),
        sha1: sha1.map(String::from),
    }
}

fn file(filename: &str, primary: bool) -> VersionFile {
    VersionFile {
        url: format!("https://cdn.modrinth.com/{filename}"),
        filename: filename.to_string(),
        size: Some(1),
        hashes: hashes(Some("deadbeef"), None),
        primary,
    }
}

fn ver(
    id: &str,
    date_published: &str,
    version_type: &str,
    version_number: &str,
) -> VersionResp {
    VersionResp {
        id: id.to_string(),
        project_id: "proj".to_string(),
        version_number: version_number.to_string(),
        version_type: version_type.to_string(),
        date_published: date_published.to_string(),
        loaders: Vec::new(),
        files: Vec::new(),
        dependencies: Vec::new(),
    }
}

#[test]
fn dep_kind_maps_the_four_modelled_types() {
    assert_eq!(dep_kind("required"), Some(DepKind::Required));
    assert_eq!(dep_kind("optional"), Some(DepKind::Optional));
    assert_eq!(dep_kind("incompatible"), Some(DepKind::Incompatible));
    assert_eq!(dep_kind("embedded"), Some(DepKind::Embedded));
}

#[test]
fn dep_kind_rejects_unknown_and_miscased_types() {
    // Modrinth always sends lowercase tokens; casing is not normalized, so a miscased or
    // unmodelled value must fall through to None rather than being silently coerced.
    assert_eq!(dep_kind("Required"), None);
    assert_eq!(dep_kind("recommended"), None);
    assert_eq!(dep_kind(""), None);
}

#[test]
fn collect_deps_maps_known_kinds_and_preserves_order() {
    let deps = vec![
        dep(Some("aaa"), "required"),
        dep(Some("bbb"), "optional"),
        dep(Some("ccc"), "incompatible"),
        dep(Some("ddd"), "embedded"),
    ];

    let out = collect_deps(&deps);

    assert_eq!(out.len(), 4);
    assert_eq!(out[0].project_id, "aaa");
    assert_eq!(out[0].kind, DepKind::Required);
    assert_eq!(out[1].kind, DepKind::Optional);
    assert_eq!(out[2].kind, DepKind::Incompatible);
    assert_eq!(out[3].project_id, "ddd");
    assert_eq!(out[3].kind, DepKind::Embedded);
}

#[test]
fn collect_deps_drops_unknown_kinds_and_projectless_edges() {
    let deps = vec![
        dep(Some("keep"), "required"),
        dep(Some("drop-kind"), "recommended"),
        dep(None, "required"),
    ];

    let out = collect_deps(&deps);

    assert_eq!(
        out.len(),
        1,
        "only the mapped edge with a project id survives"
    );
    assert_eq!(out[0].project_id, "keep");
    assert_eq!(out[0].kind, DepKind::Required);
}

#[test]
fn collect_deps_on_empty_is_empty() {
    assert!(collect_deps(&[]).is_empty());
}

#[test]
fn env_support_present_only_for_required_or_optional() {
    assert!(EnvSupport::Required.present());
    assert!(EnvSupport::Optional.present());
    assert!(!EnvSupport::Unsupported.present());
    assert!(!EnvSupport::Unknown.present());
}

#[test]
fn side_from_maps_the_client_server_matrix() {
    assert_eq!(
        Modrinth::side_from(&project(EnvSupport::Required, EnvSupport::Required)),
        Side::Both
    );
    assert_eq!(
        Modrinth::side_from(&project(EnvSupport::Required, EnvSupport::Unsupported)),
        Side::Client
    );
    assert_eq!(
        Modrinth::side_from(&project(EnvSupport::Unsupported, EnvSupport::Required)),
        Side::Server
    );
    assert_eq!(
        Modrinth::side_from(&project(EnvSupport::Unsupported, EnvSupport::Unknown)),
        Side::Neither
    );
}

#[test]
fn side_from_treats_optional_as_present_and_unknown_as_absent() {
    // "optional" on a side still counts that side in; "unknown" does not.
    assert_eq!(
        Modrinth::side_from(&project(EnvSupport::Optional, EnvSupport::Unknown)),
        Side::Client
    );
    assert_eq!(
        Modrinth::side_from(&project(EnvSupport::Unknown, EnvSupport::Optional)),
        Side::Server
    );
}

#[test]
fn sort_orders_by_date_then_breaks_ties_on_version_id_descending() {
    let mut versions = vec![
        ver("aaa", "2024-01-01T00:00:00Z", "release", "1.0.0"),
        ver("zzz", "2024-01-01T00:00:00Z", "release", "1.0.0"),
        ver("mmm", "2024-02-01T00:00:00Z", "release", "1.1.0"),
    ];

    sort_versions_newest_first(&mut versions);

    // Newest publish date wins; the same-instant pair is ordered by descending id so the
    // resolution is deterministic regardless of the order the API returned them.
    assert_eq!(versions[0].id, "mmm");
    assert_eq!(versions[1].id, "zzz");
    assert_eq!(versions[2].id, "aaa");
}

#[test]
fn choose_prefers_newest_stable_release_over_a_newer_prerelease() {
    let mut versions = vec![
        ver("beta", "2024-03-01T00:00:00Z", "beta", "2.0.0-beta"),
        ver("rel", "2024-02-01T00:00:00Z", "release", "1.9.0"),
    ];
    sort_versions_newest_first(&mut versions);

    let chosen = choose_version(&versions, "*").unwrap();

    assert_eq!(
        chosen.id, "rel",
        "a stable release is preferred even when a newer beta exists"
    );
}

#[test]
fn choose_falls_back_to_newest_match_when_no_release_exists() {
    let mut versions = vec![
        ver("older-beta", "2024-01-01T00:00:00Z", "beta", "1.0.0-beta"),
        ver("newer-beta", "2024-05-01T00:00:00Z", "beta", "1.1.0-beta"),
    ];
    sort_versions_newest_first(&mut versions);

    let chosen = choose_version(&versions, "*").unwrap();

    assert_eq!(chosen.id, "newer-beta");
}

#[test]
fn choose_filters_by_constraint_and_returns_none_when_nothing_matches() {
    let versions = vec![
        ver("a", "2024-01-01T00:00:00Z", "release", "1.0.0"),
        ver("b", "2024-02-01T00:00:00Z", "release", "2.0.0"),
    ];

    assert_eq!(choose_version(&versions, "1.0.0").unwrap().id, "a");
    assert!(choose_version(&versions, "9.9.9").is_none());
}

#[test]
fn select_file_prefers_the_primary_then_the_first() {
    let with_primary = vec![file("first.jar", false), file("primary.jar", true)];
    assert_eq!(select_file(&with_primary).unwrap().filename, "primary.jar");

    let no_primary = vec![file("a.jar", false), file("b.jar", false)];
    assert_eq!(select_file(&no_primary).unwrap().filename, "a.jar");

    assert!(select_file(&[]).is_none());
}

#[test]
fn pick_hash_prefers_sha512_then_sha1_then_none() {
    assert_eq!(
        pick_hash(&hashes(Some("SHA512VAL"), Some("sha1val"))),
        Some(("sha512".to_string(), "SHA512VAL".to_string()))
    );
    assert_eq!(
        pick_hash(&hashes(None, Some("only-sha1"))),
        Some(("sha1".to_string(), "only-sha1".to_string()))
    );
    assert_eq!(pick_hash(&hashes(None, None)), None);
}

#[test]
fn version_supports_loader_matches_compatible_facets() {
    let mut v = ver("a", "2024-01-01T00:00:00Z", "release", "1.0.0");
    v.loaders = vec!["fabric".to_string()];

    assert!(version_supports_loader(&v, Loader::Fabric));
    assert!(
        version_supports_loader(&v, Loader::Quilt),
        "a Quilt pack accepts a fabric-loader build (compatible_facets)"
    );
    assert!(
        !version_supports_loader(&v, Loader::Forge),
        "a fabric-only build must not satisfy a Forge pack"
    );
}

#[test]
fn version_supports_loader_is_false_when_loaders_absent() {
    // A version listing no loaders can't be assumed compatible with any pack loader.
    let v = ver("a", "2024-01-01T00:00:00Z", "release", "1.0.0");
    assert!(!version_supports_loader(&v, Loader::Fabric));
}

fn sodium() -> ProjectResp {
    project(EnvSupport::Required, EnvSupport::Unsupported)
}

fn fabric_build(id: &str, date: &str, version_type: &str, number: &str) -> VersionResp {
    let mut v = ver(id, date, version_type, number);
    v.loaders = vec!["fabric".to_string()];
    v.files = vec![file("sodium.jar", true)];
    v.dependencies = vec![dep(Some("lib"), "required")];
    v
}

#[test]
fn resolve_takes_the_newest_release_for_the_loader() {
    let mut forge = fabric_build("f", "2024-09-01T00:00:00Z", "release", "9.0.0");
    forge.loaders = vec!["forge".to_string()];
    let versions = vec![
        fabric_build("a", "2024-01-01T00:00:00Z", "release", "1.0.0"),
        fabric_build("b", "2024-03-01T00:00:00Z", "beta", "1.2.0"),
        fabric_build("c", "2024-02-01T00:00:00Z", "release", "1.1.0"),
        forge,
    ];

    let out = Modrinth::resolve(&sodium(), versions, Loader::Fabric, "*").unwrap();

    assert_eq!(out.version, "1.1.0");
    assert_eq!(out.file_id, "c");
    assert_eq!(out.project_id, "proj");
    assert_eq!(out.slug, "sodium");
    assert_eq!(out.project_name, "Sodium");
    assert_eq!(out.filename, "sodium.jar");
    assert_eq!(out.url.as_deref(), Some("https://cdn.modrinth.com/sodium.jar"));
    assert_eq!(out.hash_format, "sha512");
    assert_eq!(out.hash, "deadbeef");
    assert_eq!(out.size, Some(1));
    assert_eq!(out.side, Side::Client);
    assert_eq!(out.dependencies.len(), 1);
    assert_eq!(out.dependencies[0].project_id, "lib");
}

#[test]
fn resolve_says_what_was_missing() {
    let build = || fabric_build("a", "2024-01-01T00:00:00Z", "release", "1.0.0");
    assert!(matches!(
        Modrinth::resolve(&sodium(), vec![build()], Loader::Forge, "*"),
        Err(ModrinthError::NoBuild)
    ));
    assert!(matches!(
        Modrinth::resolve(&sodium(), vec![build()], Loader::Fabric, "2.0.0"),
        Err(ModrinthError::NoMatch)
    ));
    let mut bare = build();
    bare.files = vec![];
    assert!(matches!(
        Modrinth::resolve(&sodium(), vec![bare], Loader::Fabric, "*"),
        Err(ModrinthError::NoFile)
    ));
    let mut unhashed = build();
    unhashed.files[0].hashes = hashes(None, None);
    match Modrinth::resolve(&sodium(), vec![unhashed], Loader::Fabric, "*") {
        Err(ModrinthError::NoHash(name)) => assert_eq!(name, "sodium.jar"),
        other => panic!("{other:?}"),
    }
}

#[test]
fn the_answer_does_not_depend_on_the_order_of_the_listing() {
    let listing = || {
        vec![
            fabric_build("a", "2024-01-01T00:00:00Z", "release", "1.0.0"),
            fabric_build("b", "2024-01-01T00:00:00Z", "release", "1.0.1"),
            fabric_build("c", "2023-01-01T00:00:00Z", "release", "0.9.0"),
        ]
    };
    let mut reversed = listing();
    reversed.reverse();
    let one = Modrinth::resolve(&sodium(), listing(), Loader::Fabric, "*").unwrap();
    let two = Modrinth::resolve(&sodium(), reversed, Loader::Fabric, "*").unwrap();
    assert_eq!(one.file_id, "b");
    assert_eq!(two.file_id, "b");
}

#[test]
fn an_exact_slug_counts_only_with_a_build_for_the_loader() {
    let versions = vec![fabric_build("a", "2024-01-01T00:00:00Z", "release", "1.0.0")];
    assert_eq!(
        Modrinth::compatible_slug(Some(sodium()), &versions, Loader::Quilt).as_deref(),
        Some("sodium")
    );
    assert_eq!(Modrinth::compatible_slug(Some(sodium()), &versions, Loader::Forge), None);
    assert_eq!(Modrinth::compatible_slug(None, &versions, Loader::Fabric), None);
}

#[test]
fn a_stable_one_is_preferred_among_the_admitted() {
    assert_eq!(prefer_stable(&vec![true, true, true], &vec![false, true, true]), Some(1));
    assert_eq!(prefer_stable(&vec![false, true, true], &vec![true, false, false]), Some(1));
    assert_eq!(prefer_stable(&vec![false, false], &vec![true, true]), None);
}

#[test]
fn urls_and_facets() {
    let api = Modrinth::new();
    assert_eq!(api.project_url("sodium"), "https://api.modrinth.com/v2/project/sodium");
    assert_eq!(
        api.versions_url("sodium"),
        "https://api.modrinth.com/v2/project/sodium/version"
    );
    assert_eq!(api.version_url("abc"), "https://api.modrinth.com/v2/version/abc");
    assert_eq!(api.search_url(), "https://api.modrinth.com/v2/search");
    assert_eq!(Modrinth::loaders_facet(Loader::Quilt), "[\"quilt\",\"fabric\"]");
    assert_eq!(Modrinth::loaders_facet(Loader::Forge), "[\"forge\"]");
    assert_eq!(Modrinth::versions_facet("1.20.1"), "[\"1.20.1\"]");
}
