use lode::cli::InitArgs;
use lode::commands::init::{
    dead_end, first_loader_version, git_author, label_of, nearby_supported, new_manifest,
    pack_author, pack_name, pick_loader_version, same_series, select_versions, InitAction,
    InitError, InitEvent, InitStage,
};
use lode::loader::Loader;
use lode::side::Side;
use lode::versions::LoaderVersion;

fn args() -> InitArgs {
    InitArgs {
        name: None,
        author: None,
        version: "0.1.0".to_string(),
        minecraft: None,
        loader: None,
        loader_version: None,
        yes: false,
    }
}

fn build(version: &str, note: Option<&str>) -> LoaderVersion {
    LoaderVersion {
        version: version.to_string(),
        note: note.map(String::from),
    }
}

fn strings(items: &[&str]) -> Vec<String> {
    items.iter().map(|s| s.to_string()).collect()
}

#[test]
fn same_series_prefixes_a_patch_version_and_skips_short_ones() {
    assert_eq!(same_series("1.20.5").as_deref(), Some("1.20."));
    assert_eq!(same_series("1.21.4").as_deref(), Some("1.21."));
    // No patch component to anchor "nearby" on — caller falls back to the newest handful.
    assert_eq!(same_series("1.21"), None);
    assert_eq!(same_series("26.2"), None);
}

#[test]
fn complete_flags_leave_nothing_to_ask() {
    let mut full = args();
    full.loader = Some(Loader::Fabric);
    full.minecraft = Some("1.20.1".to_string());
    full.loader_version = Some("0.16.0".to_string());
    match select_versions(&full, false, InitStage::Begin, InitEvent::Started) {
        (InitStage::Over, InitAction::Done(loader, mc, version)) => {
            assert_eq!((loader, mc.as_str(), version.as_str()), (Loader::Fabric, "1.20.1", "0.16.0"));
        }
        other => panic!("{other:?}"),
    }
}

#[test]
fn without_a_terminal_the_newest_versions_are_taken() {
    let mut yes = args();
    yes.yes = true;
    yes.loader = Some(Loader::Fabric);
    let (stage, action) = select_versions(&yes, false, InitStage::Begin, InitEvent::Started);
    assert!(matches!(action, InitAction::ListMinecraft(Loader::Fabric)));
    let listed = InitEvent::MinecraftListed(strings(&["1.21", "1.20.1"]));
    let (stage, action) = select_versions(&yes, false, stage, listed);
    match &action {
        InitAction::ListVersions(Loader::Fabric, mc) => assert_eq!(mc, "1.21"),
        other => panic!("{other:?}"),
    }
    let builds =
        InitEvent::VersionsListed(vec![build("0.17-beta", None), build("0.16", Some("stable"))]);
    match select_versions(&yes, false, stage, builds) {
        (InitStage::Over, InitAction::Done(_, mc, version)) => {
            assert_eq!((mc.as_str(), version.as_str()), ("1.21", "0.16"));
        }
        other => panic!("{other:?}"),
    }
}

#[test]
fn at_a_terminal_every_open_choice_is_asked() {
    let open = args();
    let (stage, action) = select_versions(&open, true, InitStage::Begin, InitEvent::Started);
    assert!(matches!(action, InitAction::AskLoader));
    let (stage, _) = select_versions(&open, true, stage, InitEvent::LoaderPicked(Loader::Forge));
    let listed = InitEvent::MinecraftListed(strings(&["1.20.1"]));
    let (stage, action) = select_versions(&open, true, stage, listed);
    assert!(matches!(action, InitAction::AskMinecraft(_)));
    let picked = InitEvent::MinecraftPicked("1.20.1".to_string());
    let (stage, _) = select_versions(&open, true, stage, picked);
    let builds = InitEvent::VersionsListed(vec![build("47.3.0", Some("latest"))]);
    let (stage, action) = select_versions(&open, true, stage, builds);
    match action {
        InitAction::AskVersion(list) => assert_eq!(list[0].version, "47.3.0"),
        other => panic!("{other:?}"),
    }
    match select_versions(&open, true, stage, InitEvent::VersionPicked("47.3.0".to_string())) {
        (InitStage::Over, InitAction::Done(Loader::Forge, mc, version)) => {
            assert_eq!((mc.as_str(), version.as_str()), ("1.20.1", "47.3.0"));
        }
        other => panic!("{other:?}"),
    }
}

#[test]
fn each_way_to_get_stuck() {
    let fault = |action: InitAction| match action {
        InitAction::Fail(error) => error,
        other => panic!("{other:?}"),
    };
    let begin = |args: &InitArgs, interactive| {
        fault(select_versions(args, interactive, InitStage::Begin, InitEvent::Started).1)
    };
    let mut yes = args();
    yes.yes = true;
    assert!(matches!(begin(&yes, false), InitError::LoaderRequired));
    assert!(matches!(begin(&args(), false), InitError::NeedsTerminal));

    let nothing = |interactive| {
        let stage = InitStage::WantMinecraftList(Loader::Quilt);
        fault(
            select_versions(&args(), interactive, stage, InitEvent::MinecraftListed(vec![])).1,
        )
    };
    assert!(matches!(nothing(true), InitError::NoMinecraft(Loader::Quilt)));
    assert!(matches!(nothing(false), InitError::NothingFetched));

    let stage = InitStage::WantVersionList(Loader::Neoforge, "1.12".to_string());
    match fault(select_versions(&args(), true, stage, InitEvent::VersionsListed(vec![])).1) {
        InitError::DeadEnd(Loader::Neoforge, mc) => assert_eq!(mc, "1.12"),
        other => panic!("{other:?}"),
    }
}

#[test]
fn stable_builds_come_first() {
    let list = || {
        vec![
            build("3-beta", None),
            build("2", Some("stable")),
            build("1", Some("stable")),
        ]
    };
    assert_eq!(first_loader_version(&list()).as_deref(), Some("2"));
    let shown: Vec<String> = pick_loader_version(list()).into_iter().map(|v| v.version).collect();
    assert_eq!(shown, ["2", "1"]);
    let unmarked = || vec![build("47.3.0", Some("latest")), build("47.2.0", Some("recommended"))];
    assert_eq!(first_loader_version(&unmarked()).as_deref(), Some("47.3.0"));
    assert_eq!(pick_loader_version(unmarked()).len(), 2);
    assert_eq!(first_loader_version(&vec![]), None);
}

#[test]
fn a_dead_end_names_versions_nearby() {
    let supported = strings(&["1.21.1", "1.20.6", "1.20.4", "1.20.1", "1.19.2", "1.18.2"]);
    assert_eq!(
        nearby_supported(&supported, "1.20.5").as_deref(),
        Some("1.20.6, 1.20.4, 1.20.1")
    );
    assert_eq!(
        nearby_supported(&supported, "1.7.10").as_deref(),
        Some("1.21.1, 1.20.6, 1.20.4, 1.20.1, 1.19.2")
    );
    assert_eq!(nearby_supported(&vec![], "1.20.5"), None);
    assert_eq!(
        dead_end(Loader::Forge, "1.20.5", &Some("1.20.6".to_string())),
        "Forge has no build for Minecraft 1.20.5. Supported nearby: 1.20.6. \
         Pass --loader-version <ver> if you know one."
    );
    assert_eq!(
        dead_end(Loader::Quilt, "1.2", &None),
        "Quilt has no build for Minecraft 1.2. Pass --loader-version <ver> if you know one."
    );
    assert_eq!(label_of(Loader::Neoforge), "NeoForge");
}

#[test]
fn names_fall_back_in_order() {
    let some = |s: &str| Some(s.to_string());
    let mut given = args();
    given.name = some("flag");
    given.author = some("flag");
    assert_eq!(pack_name(&given, some("typed"), some("dir")), "flag");
    assert_eq!(pack_name(&args(), some("typed"), some("dir")), "typed");
    assert_eq!(pack_name(&args(), None, some("dir")), "dir");
    assert_eq!(pack_name(&args(), None, None), "pack");
    assert_eq!(pack_author(&given, some("typed"), some("git")), "flag");
    assert_eq!(pack_author(&args(), None, some("git")), "git");
    assert_eq!(pack_author(&args(), None, None), "");
    assert_eq!(git_author("Some One\n").as_deref(), Some("Some One"));
    assert_eq!(git_author(" \n"), None);
}

#[test]
fn a_new_manifest_declares_nothing() {
    let manifest = new_manifest(
        "t".into(),
        "a".into(),
        "0.1.0".into(),
        Loader::Fabric,
        "1.20.1".into(),
        "0.16.0".into(),
    );
    assert_eq!(manifest.len(), 0);
    assert!(manifest.overlays.is_empty());
    assert_eq!(manifest.defaults.side, Side::Both);
    assert_eq!(manifest.pack.description, None);
    assert_eq!(manifest.loader.version, "0.16.0");
}
