use lode::loader::Loader;
use lode::provision::{
    candidates_for_java, fabric_server_url, forge_installer_args, forge_installer_url,
    neoforge_installer_url, quilt_installer_args, quilt_installer_url, resolve_java_core,
    InstallerVersion, LoaderProvisioner, PathDir, ServerStep,
};

fn strings(items: &[&str]) -> Vec<String> {
    items.iter().map(|s| s.to_string()).collect()
}

fn dirs(items: &[(&str, bool)]) -> Vec<PathDir> {
    items
        .iter()
        .map(|(dir, absolute)| PathDir {
            dir: dir.to_string(),
            absolute: *absolute,
        })
        .collect()
}

/// The Java that is picked where `exists` says which candidates are files.
fn java(home: Option<&str>, path: &[(&str, bool)], exists: &dyn Fn(&str) -> bool) -> String {
    let candidates = candidates_for_java(home, &dirs(path), "java");
    let there = candidates.iter().map(|c| exists(c)).collect();
    resolve_java_core(&candidates, &there)
}

#[test]
fn forge_installer_url_embeds_mc_and_version_in_both_places() {
    let url = forge_installer_url("1.20.1", "47.3.0");
    assert_eq!(
        url,
        "https://maven.minecraftforge.net/net/minecraftforge/forge/1.20.1-47.3.0/forge-1.20.1-47.3.0-installer.jar",
        "forge URL must interpolate mc-version into both the directory and the jar file name"
    );
}

#[test]
fn neoforge_installer_url_embeds_version_in_both_places() {
    let url = neoforge_installer_url("20.4.190");
    assert_eq!(
        url,
        "https://maven.neoforged.net/releases/net/neoforged/neoforge/20.4.190/neoforge-20.4.190-installer.jar",
        "neoforge URL must interpolate the version into both the directory and the jar file name"
    );
}

#[test]
fn neoforge_installer_url_routes_1_20_1_to_the_legacy_forge_artifact() {
    let url = neoforge_installer_url("1.20.1-47.1.106");
    assert_eq!(
        url,
        "https://maven.neoforged.net/releases/net/neoforged/forge/1.20.1-47.1.106/forge-1.20.1-47.1.106-installer.jar",
        "a hyphenated 1.20.1 version must resolve to the legacy forge artifact and forge- jar prefix"
    );
}

#[test]
fn fabric_server_url_orders_mc_loader_and_installer() {
    let url = fabric_server_url("1.20.1", "0.16.9", "1.0.1");
    assert_eq!(
        url, "https://meta.fabricmc.net/v2/versions/loader/1.20.1/0.16.9/1.0.1/server/jar",
        "fabric server URL must place mc, loader, and installer versions in that order"
    );
}

#[test]
fn quilt_installer_url_repeats_the_installer_version() {
    let url = quilt_installer_url("0.9.2");
    assert_eq!(
        url,
        "https://maven.quiltmc.org/repository/release/org/quiltmc/quilt-installer/0.9.2/quilt-installer-0.9.2.jar",
        "quilt installer URL must use the installer version in both the path segment and the jar name"
    );
}

#[test]
fn resolve_java_core_prefers_java_home_over_a_path_match() {
    let got = java(Some("/home"), &[("/path", true)], &|p| {
        p == "/home/bin/java" || p == "/path/java"
    });

    assert_eq!(
        got, "/home/bin/java",
        "JAVA_HOME/bin/java must win even when PATH also has a java"
    );
}

#[test]
fn resolve_java_core_falls_through_when_java_home_has_no_binary() {
    // Only the PATH candidate "exists"; the JAVA_HOME candidate does not.
    let got = java(Some("/home"), &[("/path", true)], &|p| p == "/path/java");

    assert_eq!(
        got, "/path/java",
        "a JAVA_HOME without bin/java must fall through to an absolute PATH match"
    );
}

#[test]
fn resolve_java_core_uses_an_absolute_path_entry() {
    let got = java(None, &[("/path", true)], &|p| p == "/path/java");

    assert_eq!(got, "/path/java", "an absolute PATH entry containing java must resolve");
}

#[test]
fn resolve_java_core_skips_relative_entries_in_favor_of_absolute() {
    // Both candidates "exist"; the relative one comes first but must be skipped.
    let got = java(None, &[("planted-dir", false), ("/abs", true)], &|_| true);

    assert_eq!(
        got, "/abs/java",
        "a relative PATH entry must be skipped so the absolute one is chosen"
    );
}

#[test]
fn resolve_java_core_never_resolves_a_cwd_relative_java() {
    // "." is the CWD; even if a java sits there it must never be returned — the whole point of
    // the absolute-only rule. With no other entry, resolution falls back to the bare name.
    let got = java(None, &[(".", false)], &|_| true);
    assert_eq!(
        got, "java",
        "a '.' PATH entry must never resolve to a CWD java; it must fall back to bare java"
    );
}

#[test]
fn resolve_java_core_falls_back_to_bare_java_when_nothing_resolves() {
    let got = java(None, &[], &|_| false);
    assert_eq!(
        got, "java",
        "with no JAVA_HOME and no usable PATH entry, resolution falls back to bare java"
    );
}

#[test]
fn an_explicit_java_is_taken_as_given() {
    assert_eq!(LoaderProvisioner::new(Some("/opt/java".into()), "java".into()).java, "/opt/java");
    assert_eq!(LoaderProvisioner::new(None, "/usr/bin/java".into()).java, "/usr/bin/java");
}

#[test]
fn already_provisioned_is_false_for_an_empty_dir() {
    for loader in [
        Loader::Forge,
        Loader::Neoforge,
        Loader::Fabric,
        Loader::Quilt,
    ] {
        assert!(
            !LoaderProvisioner::already_provisioned(loader, &vec![], &vec![]),
            "an empty dir must not look provisioned for {loader:?}"
        );
    }
}

#[test]
fn already_provisioned_detects_each_loaders_marker() {
    let dirs = strings(&["libraries/net/minecraftforge/forge", "libraries/net/neoforged/neoforge"]);
    let files = strings(&["fabric-server-launch.jar", "quilt-server-launch.jar"]);

    assert!(
        LoaderProvisioner::already_provisioned(Loader::Forge, &dirs, &files),
        "the forge library dir must count as provisioned"
    );
    assert!(
        LoaderProvisioner::already_provisioned(Loader::Neoforge, &dirs, &files),
        "the neoforge library dir must count as provisioned"
    );
    assert!(
        LoaderProvisioner::already_provisioned(Loader::Fabric, &dirs, &files),
        "the fabric launch jar must count as provisioned"
    );
    assert!(
        LoaderProvisioner::already_provisioned(Loader::Quilt, &dirs, &files),
        "the quilt launch jar must count as provisioned"
    );
}

#[test]
fn already_provisioned_requires_the_right_marker_kind() {
    // Forge's marker is a directory, Fabric's a file: each the other way round must not satisfy it.
    let dirs = strings(&["fabric-server-launch.jar"]);
    let files = strings(&["libraries/net/minecraftforge/forge"]);

    assert!(
        !LoaderProvisioner::already_provisioned(Loader::Forge, &dirs, &files),
        "a file at the forge library path must not satisfy the directory marker"
    );
    assert!(
        !LoaderProvisioner::already_provisioned(Loader::Fabric, &dirs, &files),
        "a directory at the fabric jar path must not satisfy the file marker"
    );
}

#[test]
fn already_provisioned_does_not_cross_detect_between_loaders() {
    let dirs = strings(&["libraries/net/minecraftforge/forge"]);

    assert!(
        !LoaderProvisioner::already_provisioned(Loader::Fabric, &dirs, &vec![]),
        "a forge marker must not make a fabric server look provisioned"
    );
    assert!(
        !LoaderProvisioner::already_provisioned(Loader::Neoforge, &dirs, &vec![]),
        "the forge marker path must not be mistaken for the neoforge one"
    );
}

#[test]
fn the_legacy_neoforge_line_has_a_marker_of_its_own() {
    assert!(LoaderProvisioner::already_provisioned(
        Loader::Neoforge,
        &strings(&["libraries/net/neoforged/forge"]),
        &vec![]
    ));
}

#[test]
fn the_server_step_goes_by_loader() {
    let step = |loader, there| LoaderProvisioner::ensure_server(loader, "1.20.1", "47.3.0", there);
    assert!(matches!(step(Loader::Forge, true), ServerStep::Present));
    match step(Loader::Forge, false) {
        ServerStep::RunInstaller(url) => assert_eq!(url, forge_installer_url("1.20.1", "47.3.0")),
        other => panic!("{other:?}"),
    }
    match step(Loader::Neoforge, false) {
        ServerStep::RunInstaller(url) => assert_eq!(url, neoforge_installer_url("47.3.0")),
        other => panic!("{other:?}"),
    }
    assert!(matches!(step(Loader::Fabric, false), ServerStep::FabricLauncher));
    assert!(matches!(step(Loader::Quilt, false), ServerStep::QuiltInstaller));
}

#[test]
fn the_first_stable_installer_is_preferred() {
    let installer = |version: &str, stable| InstallerVersion {
        version: version.to_string(),
        stable,
    };
    assert_eq!(
        LoaderProvisioner::latest_installer(&vec![
            installer("1.1", false),
            installer("1.0", true),
            installer("0.9", true),
        ])
        .as_deref(),
        Some("1.0")
    );
    assert_eq!(
        LoaderProvisioner::latest_installer(&vec![installer("1.1", false), installer("1.0", false)])
            .as_deref(),
        Some("1.1")
    );
    assert_eq!(LoaderProvisioner::latest_installer(&vec![]), None);
}

#[test]
fn installers_get_fixed_arguments() {
    assert_eq!(forge_installer_args(), ["--installServer"]);
    assert_eq!(
        quilt_installer_args("1.20.1", "0.23.1", "/srv"),
        [
            "install",
            "server",
            "1.20.1",
            "0.23.1",
            "--download-server",
            "--install-dir=/srv",
        ]
    );
}
