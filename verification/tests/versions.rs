use lode::loader::Loader;
use lode::versions::{
    builds_to_versions, forge_minecraft_versions, neoforge_minecraft_versions, neoforge_prefix,
    neoforge_version_to_mc, select_forge_versions, select_minecraft_versions,
    select_neoforge_legacy_versions, select_neoforge_versions, Build, Catalog, CatalogPage, Tag,
    Versions,
};

fn tag(version: &str, version_type: &str, date: &str) -> Tag {
    Tag {
        version: version.to_string(),
        version_type: version_type.to_string(),
        date: date.to_string(),
    }
}

fn build(version: &str, stable: bool) -> Build {
    Build {
        version: version.to_string(),
        stable,
    }
}

fn promos(pairs: &[(&str, &str)]) -> Vec<(String, String)> {
    pairs
        .iter()
        .map(|(k, v)| (k.to_string(), v.to_string()))
        .collect()
}

#[test]
fn neoforge_prefix_maps_mc_major_minor_to_the_maven_prefix() {
    assert_eq!(
        neoforge_prefix("1.20.1"),
        "20.1.",
        "MC 1.X.Y must map to NeoForge prefix X.Y."
    );
}

#[test]
fn neoforge_prefix_defaults_missing_patch_to_zero() {
    // MC releases like `1.21` carry no third component; NeoForge still tags them `21.0.*`.
    assert_eq!(
        neoforge_prefix("1.21"),
        "21.0.",
        "an absent patch component must default to 0, not be dropped"
    );
}

#[test]
fn select_minecraft_keeps_only_releases() {
    let tags = vec![
        tag("1.20.1", "release", "2023-06-12T00:00:00Z"),
        tag("23w31a", "snapshot", "2023-08-02T00:00:00Z"),
        tag("1.20", "release", "2023-06-07T00:00:00Z"),
        tag("1.20-pre1", "beta", "2023-05-30T00:00:00Z"),
    ];

    let out = select_minecraft_versions(tags);

    assert_eq!(
        out,
        vec!["1.20.1", "1.20"],
        "snapshots and betas must be filtered out, leaving only releases"
    );
}

#[test]
fn select_minecraft_orders_newest_release_first_regardless_of_input_order() {
    // Modrinth does not guarantee ordering, so selection must sort by publish date descending.
    let tags = vec![
        tag("1.19.2", "release", "2022-08-05T00:00:00Z"),
        tag("1.20.1", "release", "2023-06-12T00:00:00Z"),
        tag("1.20", "release", "2023-06-07T00:00:00Z"),
    ];

    let out = select_minecraft_versions(tags);

    assert_eq!(
        out,
        vec!["1.20.1", "1.20", "1.19.2"],
        "versions must come out newest publish-date first"
    );
}

#[test]
fn builds_to_versions_notes_only_stable_builds() {
    let builds = vec![build("0.16.10", true), build("0.16.11-beta", false)];

    let out = builds_to_versions(builds);

    assert_eq!(out[0].version, "0.16.10");
    assert_eq!(
        out[0].note.as_deref(),
        Some("stable"),
        "a stable build must be annotated \"stable\""
    );
    assert_eq!(out[1].version, "0.16.11-beta");
    assert_eq!(out[1].note, None, "a non-stable build must carry no note");
}

#[test]
fn builds_to_versions_preserves_upstream_order() {
    // Fabric/Quilt already return newest-first; selection must not reorder them.
    let builds = vec![build("c", false), build("b", false), build("a", true)];

    let out = builds_to_versions(builds);

    let versions: Vec<&str> = out.iter().map(|v| v.version.as_str()).collect();
    assert_eq!(
        versions,
        vec!["c", "b", "a"],
        "loader build order from upstream must be kept intact"
    );
}

#[test]
fn select_forge_offers_latest_then_recommended_when_distinct() {
    let p = promos(&[
        ("1.20.1-latest", "47.3.0"),
        ("1.20.1-recommended", "47.2.0"),
    ]);

    let out = select_forge_versions(&p, "1.20.1");

    assert_eq!(
        out.len(),
        2,
        "distinct latest + recommended must yield two entries"
    );
    assert_eq!(out[0].version, "47.3.0");
    assert_eq!(
        out[0].note.as_deref(),
        Some("latest"),
        "latest must come first"
    );
    assert_eq!(out[1].version, "47.2.0");
    assert_eq!(out[1].note.as_deref(), Some("recommended"));
}

#[test]
fn select_forge_dedupes_when_recommended_equals_latest() {
    // Forge routinely promotes the same build to both slots; it must appear once, as "latest".
    let p = promos(&[
        ("1.20.1-latest", "47.3.0"),
        ("1.20.1-recommended", "47.3.0"),
    ]);

    let out = select_forge_versions(&p, "1.20.1");

    assert_eq!(
        out.len(),
        1,
        "an identical recommended build must be deduped away"
    );
    assert_eq!(out[0].version, "47.3.0");
    assert_eq!(out[0].note.as_deref(), Some("latest"));
}

#[test]
fn select_forge_returns_recommended_alone_when_no_latest() {
    let p = promos(&[("1.20.1-recommended", "47.2.0")]);

    let out = select_forge_versions(&p, "1.20.1");

    assert_eq!(out.len(), 1);
    assert_eq!(out[0].version, "47.2.0");
    assert_eq!(
        out[0].note.as_deref(),
        Some("recommended"),
        "a lone recommended build must still be offered"
    );
}

#[test]
fn select_forge_ignores_promos_for_other_minecraft_versions() {
    let p = promos(&[("1.19.2-latest", "43.4.0"), ("1.20.1-latest", "47.3.0")]);

    let out = select_forge_versions(&p, "1.20.1");

    assert_eq!(
        out.len(),
        1,
        "only the requested MC version's promos are relevant"
    );
    assert_eq!(out[0].version, "47.3.0");
}

#[test]
fn select_forge_is_empty_when_nothing_matches_the_version() {
    let p = promos(&[("1.19.2-latest", "43.4.0")]);

    let out = select_forge_versions(&p, "1.20.1");

    assert!(
        out.is_empty(),
        "no promo for the MC version means no offered builds"
    );
}

#[test]
fn select_neoforge_filters_to_the_version_prefix_and_reverses_to_newest_first() {
    // Maven returns ascending; only builds for the requested MC prefix are relevant, newest first.
    let versions = vec![
        "20.1.1".to_string(),
        "20.1.20".to_string(),
        "20.2.5".to_string(),
        "21.0.0".to_string(),
    ];

    let out = select_neoforge_versions(versions, "1.20.1");

    let picked: Vec<&str> = out.iter().map(|v| v.version.as_str()).collect();
    assert_eq!(
        picked,
        vec!["20.1.20", "20.1.1"],
        "only 20.1.* builds survive, and maven ascending order is reversed to newest-first"
    );
}

#[test]
fn select_neoforge_carries_no_note() {
    let versions = vec!["20.1.1".to_string()];

    let out = select_neoforge_versions(versions, "1.20.1");

    assert_eq!(out.len(), 1);
    assert_eq!(
        out[0].note, None,
        "NeoForge builds are unannotated (no latest/recommended distinction)"
    );
}

#[test]
fn select_neoforge_is_empty_when_no_build_matches_the_version() {
    let versions = vec!["20.2.5".to_string(), "21.0.0".to_string()];

    let out = select_neoforge_versions(versions, "1.20.1");

    assert!(
        out.is_empty(),
        "no build under the 20.1. prefix means nothing is offered"
    );
}

#[test]
fn forge_minecraft_versions_extracts_unique_mc_from_promo_keys() {
    let p = promos(&[
        ("1.20.1-latest", "47.3.0"),
        ("1.20.1-recommended", "47.2.0"),
        ("1.19.2-latest", "43.4.0"),
    ]);

    let out = forge_minecraft_versions(&p);

    assert_eq!(
        out,
        vec!["1.20.1".to_string(), "1.19.2".to_string()],
        "latest+recommended of one MC must collapse to a single MC entry"
    );
}

#[test]
fn neoforge_version_to_mc_maps_the_modern_line() {
    assert_eq!(
        neoforge_version_to_mc("20.4.190").as_deref(),
        Some("1.20.4")
    );
    assert_eq!(
        neoforge_version_to_mc("21.0.169").as_deref(),
        Some("1.21"),
        "a zero minor must drop the patch: 21.0.x is Minecraft 1.21, not 1.21.0"
    );
    assert_eq!(
        neoforge_version_to_mc("21.1.100").as_deref(),
        Some("1.21.1")
    );
}

#[test]
fn neoforge_version_to_mc_rejects_non_xyz_inputs() {
    // Missing patch (the 1.20.1 legacy string) or non-numeric parts must not map here.
    assert_eq!(neoforge_version_to_mc("47.1"), None);
    assert_eq!(neoforge_version_to_mc("1.20.1-47.1.106"), None);
    assert_eq!(neoforge_version_to_mc("beta.1.0"), None);
}

#[test]
fn select_neoforge_legacy_keeps_1_20_1_builds_newest_first() {
    let versions = vec![
        "1.20.1-47.1.5".to_string(),
        "1.20.1-47.1.106".to_string(),
        "20.2.0".to_string(),
    ];

    let out = select_neoforge_legacy_versions(versions);

    let picked: Vec<&str> = out.iter().map(|v| v.version.as_str()).collect();
    assert_eq!(
        picked,
        vec!["1.20.1-47.1.106", "1.20.1-47.1.5"],
        "only 1.20.1- builds survive, reversed from maven-ascending to newest-first"
    );
}

#[test]
fn each_loader_has_its_catalog() {
    assert_eq!(Versions::catalog(Loader::Fabric, "1.20.1"), Catalog::FabricBuilds);
    assert_eq!(Versions::catalog(Loader::Quilt, "1.20.1"), Catalog::QuiltBuilds);
    assert_eq!(Versions::catalog(Loader::Forge, "1.20.1"), Catalog::ForgePromotions);
    assert_eq!(Versions::catalog(Loader::Neoforge, "1.20.4"), Catalog::NeoforgeReleases);
    assert_eq!(
        Versions::catalog(Loader::Neoforge, "1.20.1"),
        Catalog::NeoforgeLegacyReleases,
        "the first NeoForge line is published under the forge artifact"
    );
}

#[test]
fn a_catalog_page_is_read_for_the_minecraft_version() {
    let page = CatalogPage::Releases(vec!["20.4.1".to_string(), "20.4.2".to_string()]);
    let out = Versions::loader(page, "1.20.4");
    assert_eq!(out[0].version, "20.4.2");

    let page = CatalogPage::LegacyReleases(vec!["1.20.1-47.1.5".to_string()]);
    assert_eq!(Versions::loader(page, "1.20.1")[0].version, "1.20.1-47.1.5");

    let page = CatalogPage::Promotions(promos(&[("1.20.1-latest", "47.3.0")]));
    assert_eq!(Versions::loader(page, "1.20.1")[0].version, "47.3.0");

    let page = CatalogPage::Builds(vec![build("0.16.10", true)]);
    assert_eq!(Versions::loader(page, "1.20.1")[0].version, "0.16.10");
}

#[test]
fn only_supported_minecraft_versions_are_offered_in_release_order() {
    let releases = vec!["1.21".to_string(), "1.20.4".to_string(), "1.20.1".to_string()];
    let supported = vec!["1.20.1".to_string(), "1.21".to_string(), "23w31a".to_string()];
    assert_eq!(Versions::minecraft_for(releases, &supported), vec!["1.21", "1.20.1"]);
}

#[test]
fn neoforge_supports_what_its_releases_and_the_legacy_line_name() {
    let releases = vec!["20.4.1".to_string(), "20.4.2-beta".to_string(), "21.0.3".to_string()];
    let legacy = vec!["1.20.1-47.1.5".to_string()];
    let out = neoforge_minecraft_versions(&releases, &legacy);
    for mc in ["1.20.4", "1.21", "1.20.1"] {
        assert!(out.iter().any(|v| v == mc), "{mc} in {out:?}");
    }
    assert!(neoforge_minecraft_versions(&vec![], &vec![]).is_empty());
}

#[test]
fn an_offered_pair_never_dead_ends() {
    // Whatever version the list offers, the same releases yield a build for it.
    let releases = vec!["20.4.1".to_string(), "21.0.3".to_string()];
    for mc in neoforge_minecraft_versions(&releases, &vec![]) {
        assert!(!select_neoforge_versions(releases.clone(), &mc).is_empty(), "{mc}");
    }
    let p = promos(&[("1.20.1-latest", "47.3.0"), ("1.19.2-recommended", "43.4.0")]);
    for mc in forge_minecraft_versions(&p) {
        assert!(!select_forge_versions(&p, &mc).is_empty(), "{mc}");
    }
}
