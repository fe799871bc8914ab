use lode::cli::{
    ConfigAction, ConfigArgs, DelArgs, ExportArgs, ExportTarget, PinArgs, UpdateArgs, WhyArgs,
};
use lode::commands::add::{declare_mod, locked_version, Prepared};
use lode::commands::config::{ConfigResult, CURSEFORGE_KEY};
use lode::commands::del::{dropped_files, remove};
use lode::commands::export::ExportStep;
use lode::commands::init::new_manifest;
use lode::commands::list::{name_width, rows};
use lode::commands::pin::{pin, unpin, NotDeclared};
use lode::commands::update::{changes, update_mode};
use lode::commands::verify::{check_mod, check_mods, tally, Status};
use lode::commands::why::explain;
use lode::commands::{count_kinds, is_fresh};
use lode::config::{curseforge_key, Config, CurseforgeConfig};
use lode::hash::{md5_hex, sha256_hex};
use lode::loader::Loader;
use lode::lock::{DepEdge, DepKind, Download, Lock, LockedMod, ResolverMeta, LOCKFILE_VERSION};
use lode::manifest::{LoaderSpec, Manifest, ModSpec, ModSpecDetailed, Overlay};
use lode::overlay::{collect, found, overlay_dir, overlay_side};
use lode::provider::{DownloadMode, Provider};
use lode::resolve::{manifest_hash, ResolveMode, ROOT_REQUESTER};
use lode::side::Side;
use lode::ui::is_interactive;

fn node(slug: &str, requested_by: &[&str]) -> LockedMod {
    LockedMod {
        slug: slug.to_string(),
        name: slug.to_string(),
        provider: Provider::Modrinth,
        project_id: "x".into(),
        file_id: None,
        version: "1.0".into(),
        filename: format!("{slug}.jar"),
        download: Download {
            url: None,
            mode: DownloadMode::Url,
            hash_format: "sha512".into(),
            hash: "h".into(),
            size: None,
        },
        side: Side::Both,
        optional: false,
        dependencies: Vec::new(),
        requested_by: requested_by.iter().map(|s| s.to_string()).collect(),
    }
}

fn lock_with(mods: Vec<LockedMod>) -> Lock {
    Lock {
        lockfile_version: LOCKFILE_VERSION,
        manifest_hash: "sha256:x".into(),
        loader: LoaderSpec {
            name: Loader::Forge,
            minecraft: "1.20.1".into(),
            version: "47.0.0".into(),
        },
        resolver: ResolverMeta {
            lode_version: "0".into(),
        },
        mods,
    }
}

fn locked(filename: &str, hash_format: &str, hash: &str) -> LockedMod {
    let mut m = node(filename.trim_end_matches(".jar"), &[]);
    m.filename = filename.to_string();
    m.download.hash_format = hash_format.to_string();
    m.download.hash = hash.to_string();
    m
}

fn manifest(mods: &[(&str, &str)]) -> Manifest {
    let mut out = new_manifest(
        "t".into(),
        "a".into(),
        "0".into(),
        Loader::Fabric,
        "1.20.1".into(),
        "0.16.0".into(),
    );
    for (slug, constraint) in mods {
        declare_mod(
            &mut out,
            Prepared {
                slug: slug.to_string(),
                spec: ModSpec::Constraint(constraint.to_string()),
            },
        );
    }
    out
}

fn named(name: &str) -> PinArgs {
    PinArgs {
        name: name.to_string(),
    }
}

#[test]
fn count_kinds_splits_direct_declarations_from_transitive_deps() {
    let root = ROOT_REQUESTER;
    let lock = lock_with(vec![
        node("sodium", &[root]),           // directly declared
        node("fabric-api", &["sodium"]),   // pulled in only as a dependency
        node("shared", &[root, "sodium"]), // declared AND pulled in -> still counts as direct
    ]);

    let (direct, deps) = count_kinds(&lock);

    assert_eq!(direct, 2, "sodium and shared are directly declared");
    assert_eq!(deps, 1, "fabric-api is only a transitive dependency");
}

#[test]
fn classifies_ok_missing_mismatch_and_unsupported() {
    let mods = vec![
        locked("good.jar", "sha256", &sha256_hex(b"good bytes")),
        locked("bad.jar", "sha256", &sha256_hex(b"the original bytes")),
        locked("gone.jar", "sha256", &sha256_hex(b"absent")),
        locked("md5.jar", "md5", &md5_hex(b"cf bytes")),
        locked("weird.jar", "crc32", "deadbeef"),
    ];
    let contents = vec![
        Some(b"good bytes".to_vec()),
        Some(b"tampered bytes".to_vec()),
        None,
        Some(b"cf bytes".to_vec()),
        Some(b"whatever".to_vec()),
    ];

    let results = check_mods(&mods, &contents);
    let status = |slug: &str| {
        results
            .iter()
            .find(|checked| checked.slug == slug)
            .expect("present")
            .status
    };
    assert_eq!(status("good"), Status::Intact);
    assert_eq!(status("bad"), Status::Mismatch);
    assert_eq!(status("gone"), Status::Missing);
    assert_eq!(status("md5"), Status::Intact);
    assert_eq!(status("weird"), Status::Unsupported);

    let count = tally(&results);
    assert_eq!(
        (count.ok, count.missing, count.mismatch, count.unsupported),
        (2, 1, 1, 1)
    );
    assert_eq!(check_mod(&mods[0], &None), Status::Missing);
}

#[test]
fn a_lock_is_fresh_for_the_manifest_it_was_made_from() {
    let mut lock = lock_with(vec![]);
    assert!(!is_fresh(Some(&lock), "{}"));
    lock.manifest_hash = manifest_hash("{}");
    assert!(is_fresh(Some(&lock), "{}"));
    assert!(!is_fresh(Some(&lock), "{} "));
    assert!(!is_fresh(None, "{}"));

    let args = ExportArgs {
        target: ExportTarget::Packwiz,
    };
    assert_eq!(lode::commands::export::run(&args, Some(&lock), "{}"), ExportStep::UseLock);
    assert_eq!(lode::commands::export::run(&args, Some(&lock), "[]"), ExportStep::Resolve);
}

#[test]
fn pinning_and_unpinning_go_there_and_back() {
    let mut m = manifest(&[("a", "^1"), ("b", "*")]);
    assert!(pin(&mut m, &named("a")).is_ok());
    assert!(m.find("a").unwrap().pin());
    assert_eq!(m.find("a").unwrap().constraint(), "^1");
    assert!(!m.find("b").unwrap().pin());
    assert!(unpin(&mut m, &named("a")).is_ok());
    assert!(!m.find("a").unwrap().pin());
    assert_eq!(m.find("a").unwrap().constraint(), "^1");
    assert_eq!(pin(&mut m, &named("c")), Err(NotDeclared));
    assert_eq!(unpin(&mut m, &named("c")), Err(NotDeclared));
}

#[test]
fn removing_keeps_the_order_of_the_rest() {
    let mut m = manifest(&[("a", "1"), ("b", "2"), ("c", "3")]);
    let args = DelArgs {
        name: "b".to_string(),
    };
    assert!(remove(&mut m, &args).is_ok());
    let left: Vec<&str> = (0..m.len()).map(|i| m.entry(i).0.as_str()).collect();
    assert_eq!(left, ["a", "c"]);
    assert!(remove(&mut m, &args).is_err());
}

#[test]
fn only_files_that_nothing_needs_any_more_are_dropped() {
    let before = vec![node("a", &[]), node("b", &[]), node("lib", &[])];
    let now = vec![node("a", &[]), node("lib", &[])];
    assert_eq!(dropped_files(&before, &now), ["b.jar"]);
}

#[test]
fn a_pinned_mod_is_not_updated_by_name() {
    let mut m = manifest(&[("a", "*")]);
    let args = |name: Option<&str>| UpdateArgs {
        name: name.map(String::from),
        all: false,
    };
    assert!(matches!(
        update_mode(&m, &args(Some("a"))),
        Ok(ResolveMode::Update { only: Some(slug) }) if slug == "a"
    ));
    assert!(matches!(
        update_mode(&m, &args(None)),
        Ok(ResolveMode::Update { only: None })
    ));
    pin(&mut m, &named("a")).unwrap();
    assert!(update_mode(&m, &args(Some("a"))).is_err());
    assert!(update_mode(&m, &args(None)).is_ok());
}

#[test]
fn all_updates_everything_whatever_is_named() {
    let mut m = manifest(&[("a", "*"), ("b", "*")]);
    let args = |name: Option<&str>| UpdateArgs {
        name: name.map(String::from),
        all: true,
    };
    let everything = |m: &Manifest, name: Option<&str>| {
        matches!(update_mode(m, &args(name)), Ok(ResolveMode::Update { only: None }))
    };
    assert!(everything(&m, None));
    assert!(everything(&m, Some("a")));
    assert!(everything(&m, Some("nothing")));
    pin(&mut m, &named("a")).unwrap();
    assert!(everything(&m, Some("a")), "a pin is refused only where one mod is named");
}

#[test]
fn an_update_reports_what_moved() {
    let lock = lock_with(vec![node("a", &[]), node("b", &[])]);
    let mut now = vec![node("a", &[]), node("b", &[]), node("c", &[])];
    now[1].version = "2.0".to_string();
    let moved = changes(Some(&lock), &now);
    assert_eq!(moved.len(), 2);
    assert_eq!(
        (moved[0].slug.as_str(), moved[0].old.as_deref(), moved[0].new.as_str()),
        ("b", Some("1.0"), "2.0")
    );
    assert_eq!((moved[1].slug.as_str(), moved[1].old.as_deref()), ("c", None));
}

#[test]
fn a_listing_shows_every_mod() {
    let mut server = node("server-only", &["x"]);
    server.side = Side::Neither;
    let mods = vec![node("a", &[ROOT_REQUESTER]), server];
    let listed = rows(&mods);
    assert!(listed[0].direct);
    assert_eq!((listed[0].slug.as_str(), listed[0].version.as_str()), ("a", "1.0"));
    assert_eq!(listed[0].side, "both");
    assert!(!listed[1].direct);
    assert_eq!(listed[1].side, "");
    assert_eq!(name_width(&mods), 11);
    assert_eq!(name_width(&vec![]), 4, "never narrower than four columns");
}

#[test]
fn why_names_requesters_and_dependencies() {
    let mut lib = node("lib", &[ROOT_REQUESTER, "a", "b"]);
    lib.dependencies = vec![DepEdge {
        slug: "core".to_string(),
        kind: DepKind::Required,
    }];
    let lock = lock_with(vec![lib]);
    let why = |name: &str| {
        explain(
            &lock,
            &WhyArgs {
                name: name.to_string(),
            },
        )
    };
    let told = why("lib").unwrap();
    assert!(told.direct);
    assert_eq!(told.version, "1.0");
    assert_eq!(told.required_by, ["a", "b"]);
    assert_eq!(told.depends_on, ["core"]);
    assert!(why("nope").is_none());
    assert_eq!(locked_version(&lock, "lib"), "1.0");
    assert_eq!(locked_version(&lock, "nope"), "?");
}

#[test]
fn configuration_has_one_key() {
    let stored = |key: Option<&str>| Config {
        curseforge: Some(CurseforgeConfig {
            key: key.map(String::from),
        }),
    };
    let run = |action: ConfigAction, config: Config| {
        lode::commands::config::run(ConfigArgs { action }, config)
    };
    let get = |key: &str| ConfigAction::Get {
        key: key.to_string(),
    };
    let set = ConfigAction::Store {
        key: CURSEFORGE_KEY.to_string(),
        value: "k".to_string(),
    };
    match run(set, Config { curseforge: None }).unwrap() {
        ConfigResult::Store(config) => {
            // What was set is what a later look-up finds.
            match run(get(CURSEFORGE_KEY), config).unwrap() {
                ConfigResult::Value(value) => assert_eq!(value.as_deref(), Some("k")),
                other => panic!("{other:?}"),
            }
        }
        other => panic!("{other:?}"),
    }
    match run(get(CURSEFORGE_KEY), stored(Some("k"))).unwrap() {
        ConfigResult::Value(value) => assert_eq!(value.as_deref(), Some("k")),
        other => panic!("{other:?}"),
    }
    assert_eq!(run(get("nope"), stored(None)).unwrap_err().key, "nope");
    let set = ConfigAction::Store {
        key: "nope".to_string(),
        value: "k".to_string(),
    };
    assert_eq!(run(set, stored(None)).unwrap_err().key, "nope");

    assert_eq!(
        curseforge_key(Some("env".to_string()), Some(stored(Some("k")))).as_deref(),
        Some("env")
    );
    assert_eq!(curseforge_key(None, Some(stored(Some("k")))).as_deref(), Some("k"));
    assert_eq!(curseforge_key(None, None), None);
}

#[test]
fn overlays_take_their_side_from_the_manifest() {
    let mut m = manifest(&[]);
    m.defaults.side = Side::Client;
    let overlay = |path: &str, side| Overlay {
        path: path.to_string(),
        side,
    };
    assert_eq!(overlay_side(&overlay("config/**", None), &m), Side::Client);
    assert_eq!(overlay_side(&overlay("config/**", Some(Side::Server)), &m), Side::Server);
    assert_eq!(overlay_dir(&overlay("config/**", None)), "config");
    assert_eq!(overlay_dir(&overlay("kubejs/", None)), "kubejs");

    let files = collect(vec![
        found("config/b", "/p/config/b", Side::Both),
        found("config/a", "/p/config/a", Side::Both),
    ]);
    let rels: Vec<&str> = files.iter().map(|f| f.rel.as_str()).collect();
    assert_eq!(rels, ["config/a", "config/b"]);
}

#[test]
fn overlays_of_one_name_keep_their_order() {
    let file = |rel: &str, abs: &str| found(rel, abs, Side::Both);
    let sorted = collect(vec![file("b", "1"), file("a", "2"), file("b", "3"), file("a", "4")]);
    let order: Vec<(&str, &str)> =
        sorted.iter().map(|f| (f.rel.as_str(), f.abs.as_str())).collect();
    assert_eq!(order, [("a", "2"), ("a", "4"), ("b", "1"), ("b", "3")]);
}

#[test]
fn prompts_need_a_terminal_and_no_yes() {
    assert!(is_interactive(false, true));
    assert!(!is_interactive(true, true));
    assert!(!is_interactive(false, false));
}

#[test]
fn a_detailed_spec_keeps_its_details_when_pinned() {
    let mut m = manifest(&[]);
    declare_mod(
        &mut m,
        Prepared {
            slug: "a".to_string(),
            spec: ModSpec::Detailed(ModSpecDetailed {
                version: "^2".to_string(),
                side: Some(Side::Server),
                provider: Some(Provider::Curseforge),
                project_id: None,
                optional: true,
                pin: false,
            }),
        },
    );
    pin(&mut m, &named("a")).unwrap();
    let spec = m.find("a").unwrap();
    assert!(spec.pin() && spec.is_optional());
    assert_eq!(spec.constraint(), "^2");
    assert_eq!(spec.side(), Some(Side::Server));
    assert_eq!(spec.provider(), Some(Provider::Curseforge));
}

#[test]
fn unpinning_leaves_the_manifest_as_it_was() {
    let detailed = || ModSpecDetailed {
        version: "^2".to_string(),
        side: Some(Side::Server),
        provider: None,
        project_id: None,
        optional: false,
        pin: false,
    };
    let mut m = manifest(&[("a", "^1"), ("c", "*")]);
    declare_mod(
        &mut m,
        Prepared {
            slug: "b".to_string(),
            spec: ModSpec::Detailed(detailed()),
        },
    );
    let before: Vec<String> = (0..m.len()).map(|i| m.entry(i).0.clone()).collect();
    for slug in ["a", "b"] {
        pin(&mut m, &named(slug)).unwrap();
        unpin(&mut m, &named(slug)).unwrap();
    }
    let after: Vec<String> = (0..m.len()).map(|i| m.entry(i).0.clone()).collect();
    assert_eq!(after, before);
    assert!(matches!(m.find("a"), Some(ModSpec::Constraint(text)) if text == "^1"));
    assert!(matches!(m.find("c"), Some(ModSpec::Constraint(text)) if text == "*"));
    match m.find("b") {
        Some(ModSpec::Detailed(d)) => {
            assert_eq!(d.version, "^2");
            assert_eq!(d.side, Some(Side::Server));
            assert_eq!(d.provider, None);
            assert!(!d.optional && !d.pin);
        }
        other => panic!("{other:?}"),
    }
}

#[test]
fn removing_a_new_mod_undoes_declaring_it() {
    let mut m = manifest(&[("a", "1"), ("b", "2"), ("c", "3")]);
    let args = DelArgs {
        name: "c".to_string(),
    };
    assert!(remove(&mut m, &args).is_ok());
    let before = manifest(&[("a", "1"), ("b", "2")]);
    assert_eq!(m.len(), before.len());
    for i in 0..m.len() {
        assert_eq!(m.entry(i).0, before.entry(i).0);
        assert_eq!(m.entry(i).1.constraint(), before.entry(i).1.constraint());
    }
}
