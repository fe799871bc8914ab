use indexmap::IndexMap;
use lode::hash::sha512_hex;
use lode::loader::Loader;
use lode::lock::{DepKind, Lock, UnsafeName, LOCKFILE_VERSION};
use lode::manifest::{Defaults, LoaderSpec, Manifest, ModSpec, ModSpecDetailed, PackMeta};
use lode::packwiz::mod_pw_toml;
use lode::provider::{DownloadMode, Provider};
use lode::providers::{ResolvedDep, ResolvedVersion};
use lode::resolve::{
    declared_constraint, dependency_constraint, is_local_spec, local_filename, manifest_hash,
    resolve, Frozen, ResolveError, ResolveMode, Resolver, LODE_VERSION, ROOT_REQUESTER,
};
use lode::side::Side;

fn frozen() -> Frozen {
    let mut f = Frozen::nothing();
    f.by_slug.push(("sodium".into(), "0.5.8".into()));
    f.by_project.push(("AABB".into(), "1.0.0".into()));
    f
}

fn update_all() -> ResolveMode {
    ResolveMode::Update { only: None }
}

fn manifest(mods: Vec<(&str, ModSpec)>) -> Manifest {
    let mut map = IndexMap::new();
    for (slug, spec) in mods {
        map.insert(slug.to_string(), spec);
    }
    Manifest {
        pack: PackMeta {
            name: "t".into(),
            author: "a".into(),
            version: "0".into(),
            description: None,
        },
        loader: LoaderSpec {
            name: Loader::Fabric,
            minecraft: "1.20.1".into(),
            version: "0.16.0".into(),
        },
        defaults: Defaults { side: Side::Both },
        overlays: Vec::new(),
        mods: map,
    }
}

fn constraint(text: &str) -> ModSpec {
    ModSpec::Constraint(text.to_string())
}

fn local(path: Option<&str>) -> ModSpec {
    ModSpec::Detailed(ModSpecDetailed {
        version: "local".into(),
        side: None,
        provider: Some(Provider::Local),
        project_id: path.map(String::from),
        optional: false,
        pin: false,
    })
}

fn from(provider: Provider) -> ModSpec {
    ModSpec::Detailed(ModSpecDetailed {
        version: "*".into(),
        side: Some(Side::Client),
        provider: Some(provider),
        project_id: None,
        optional: true,
        pin: false,
    })
}

fn answer(project: &str, slug: &str, deps: &[(&str, DepKind)]) -> ResolvedVersion {
    ResolvedVersion {
        project_id: project.into(),
        slug: slug.into(),
        project_name: slug.to_uppercase(),
        file_id: format!("{project}-file"),
        version: "1.0.0".into(),
        filename: format!("{slug}.jar"),
        url: Some(format!("https://cdn/{slug}.jar")),
        hash_format: "sha512".into(),
        hash: "h".into(),
        size: Some(1),
        side: Side::Both,
        dependencies: deps
            .iter()
            .map(|(id, kind)| ResolvedDep {
                project_id: id.to_string(),
                kind: *kind,
            })
            .collect(),
    }
}

/// Answer every task by looking its identifier up, by project or by slug.
fn run(resolver: &mut Resolver, answers: &dyn Fn(&str) -> ResolvedVersion) -> Vec<(String, String)> {
    let mut asked = Vec::new();
    loop {
        let next = match resolver.next_task().unwrap() {
            Some(task) => (task.id.clone(), task.constraint.clone()),
            None => return asked,
        };
        resolver.record(answers(&next.0));
        asked.push(next);
    }
}

/// A small catalog: `a` needs `lib`, `b` needs `lib` and offers `extra`, `lib` needs `a` back.
fn catalog(id: &str) -> ResolvedVersion {
    match id {
        "a" | "A" => answer("A", "a", &[("L", DepKind::Required)]),
        "b" | "B" => answer("B", "b", &[("L", DepKind::Required), ("E", DepKind::Optional)]),
        "L" => answer("L", "lib", &[("A", DepKind::Required)]),
        other => panic!("nothing is called {other}"),
    }
}

#[test]
fn locked_keeps_the_locked_version_and_resolves_new_mods_fresh() {
    let f = frozen();
    assert_eq!(
        declared_constraint("sodium", "^0.6", false, &f, &ResolveMode::Locked),
        "0.5.8"
    );
    assert_eq!(
        declared_constraint("new", "^0.6", false, &f, &ResolveMode::Locked),
        "^0.6"
    );
}

#[test]
fn update_all_bumps_unpinned_but_freezes_pinned() {
    let f = frozen();
    assert_eq!(
        declared_constraint("sodium", "^0.6", false, &f, &update_all()),
        "^0.6"
    );
    assert_eq!(
        declared_constraint("sodium", "^0.6", true, &f, &update_all()),
        "0.5.8"
    );
}

#[test]
fn targeted_update_bumps_only_the_named_mod() {
    let f = frozen();
    let only_sodium = ResolveMode::Update {
        only: Some("sodium".into()),
    };
    assert_eq!(
        declared_constraint("sodium", "^0.6", false, &f, &only_sodium),
        "^0.6"
    );
    let only_other = ResolveMode::Update {
        only: Some("other".into()),
    };
    assert_eq!(
        declared_constraint("sodium", "^0.6", false, &f, &only_other),
        "0.5.8"
    );
}

#[test]
fn local_jar_with_a_traversing_path_is_rejected_before_any_read() {
    // A local mod's file path comes straight from the manifest. A `..` component must be refused
    // by the choke point before any read — and with only a local mod declared, resolving asks no
    // provider to get there.
    let manifest = manifest(vec![("evil", local(Some("../escape.jar")))]);
    let resolver = Resolver::start(&manifest, None, ResolveMode::Locked);
    assert!(resolver.next_task().unwrap().is_none());
    match local_filename("evil", manifest.find("evil").unwrap()) {
        Err(ResolveError::UnsafePath(slug, fault)) => {
            assert_eq!(slug, "evil");
            assert_eq!(fault, UnsafeName::Separator);
        }
        other => panic!("{other:?}"),
    }
    assert!(resolve(&manifest, "{}", &resolver, &vec![b"jar".to_vec()]).is_err());
}

#[test]
fn dependencies_freeze_unless_a_full_update() {
    let f = frozen();
    assert_eq!(
        dependency_constraint("AABB", &f, &ResolveMode::Locked),
        "1.0.0"
    );
    assert_eq!(dependency_constraint("AABB", &f, &update_all()), "*");
    assert_eq!(dependency_constraint("NEW", &f, &ResolveMode::Locked), "*");
}

#[test]
fn every_mod_is_resolved_once_and_keeps_all_its_requesters() {
    let m = manifest(vec![("a", constraint("^1")), ("b", constraint("*"))]);
    let mut resolver = Resolver::start(&m, None, ResolveMode::Locked);
    let asked = run(&mut resolver, &catalog);
    assert_eq!(asked[0], ("a".to_string(), "^1".to_string()));
    assert_eq!(asked[1], ("b".to_string(), "*".to_string()));

    let lock: Lock = resolve(&m, "{}", &resolver, &vec![]).unwrap();
    let slugs: Vec<&str> = lock.mods.iter().map(|m| m.slug.as_str()).collect();
    assert_eq!(slugs, ["a", "b", "lib"], "no mod is locked twice, and each stands where it was resolved");
    let lib = lock.find("lib").unwrap();
    assert_eq!(lib.requested_by, ["a", "b"]);
    let a = lock.find("a").unwrap();
    assert!(a.requested_by.iter().any(|r| r == ROOT_REQUESTER));
    assert!(a.requested_by.iter().any(|r| r == "lib"));
    // Whatever is in the graph leads back to the manifest by way of earlier entries.
    for (i, m) in lock.mods.iter().enumerate() {
        let first = &m.requested_by[0];
        assert!(
            first == ROOT_REQUESTER || lock.mods[..i].iter().any(|earlier| &earlier.slug == first),
            "{} is requested by {first}",
            m.slug
        );
    }
    // A dependency edge names the slug of a mod of the pack; an optional one outside it is dropped.
    let b = lock.find("b").unwrap();
    assert_eq!(b.dependencies.len(), 1);
    assert_eq!(b.dependencies[0].slug, "lib");
    assert_eq!(b.dependencies[0].kind, DepKind::Required);
}

#[test]
fn the_lock_records_what_was_resolved() {
    let m = manifest(vec![("a", constraint("*")), ("b", from(Provider::Curseforge))]);
    let mut resolver = Resolver::start(&m, None, ResolveMode::Locked);
    run(&mut resolver, &catalog);
    let lock = resolve(&m, "{}", &resolver, &vec![]).unwrap();
    assert_eq!(lock.lockfile_version, LOCKFILE_VERSION);
    assert_eq!(lock.manifest_hash, manifest_hash("{}"));
    assert_eq!(lock.loader.minecraft, "1.20.1");
    assert_eq!(lock.resolver.lode_version, LODE_VERSION);
    let a = lock.find("a").unwrap();
    assert_eq!(a.name, "A");
    assert_eq!(a.provider, Provider::Modrinth);
    assert_eq!(a.file_id.as_deref(), Some("A-file"));
    assert_eq!(a.download.mode, DownloadMode::Url);
    assert_eq!(a.download.url.as_deref(), Some("https://cdn/a.jar"));
    assert_eq!(a.side, Side::Both);
    let b = lock.find("b").unwrap();
    assert_eq!(b.provider, Provider::Curseforge);
    assert_eq!(b.side, Side::Client, "the manifest's side wins over the project's");
    assert!(b.optional);
}

#[test]
fn a_curseforge_file_is_locked_by_its_ids() {
    let m = manifest(vec![("b", from(Provider::Curseforge))]);
    let mut resolver = Resolver::start(&m, None, ResolveMode::Locked);
    run(&mut resolver, &catalog);
    let lock = resolve(&m, "{}", &resolver, &vec![]).unwrap();
    let b = lock.find("b").unwrap();
    assert_eq!(b.provider, Provider::Curseforge);
    assert_eq!(b.download.mode, DownloadMode::MetadataCurseforge);
    assert_eq!(b.download.url, None);
    assert_eq!(b.project_id, "B");
    assert_eq!(b.file_id.as_deref(), Some("B-file"));
    assert_eq!((b.download.hash_format.as_str(), b.download.hash.as_str()), ("sha512", "h"));
    let pw = mod_pw_toml(b);
    assert!(pw.contains("mode = \"metadata:curseforge\""), "{pw}");
    assert!(!pw.contains("url = "), "{pw}");
}

#[test]
fn the_manifest_hash_is_the_digest_of_its_json() {
    assert_eq!(
        manifest_hash("abc"),
        "sha256:ba7816bf8f01cfea414140de5dae2223b00361a396177a9cb410ff61f20015ad"
    );
}

#[test]
fn a_lock_freezes_what_is_not_updated() {
    let m = manifest(vec![("a", constraint("^2"))]);
    let mut resolver = Resolver::start(&m, None, ResolveMode::Locked);
    run(&mut resolver, &catalog);
    let lock = resolve(&m, "{}", &resolver, &vec![]).unwrap();

    let mut again = Resolver::start(&m, Some(&lock), ResolveMode::Locked);
    let asked = run(&mut again, &catalog);
    assert_eq!(asked[0], ("a".to_string(), "1.0.0".to_string()));
    assert_eq!(asked[1], ("L".to_string(), "1.0.0".to_string()));

    let mut update = Resolver::start(&m, Some(&lock), update_all());
    let asked = run(&mut update, &catalog);
    assert_eq!(asked[0], ("a".to_string(), "^2".to_string()));
    assert_eq!(asked[1], ("L".to_string(), "*".to_string()));
}

#[test]
fn a_local_jar_is_locked_by_its_bytes() {
    let m = manifest(vec![("mine", local(Some("mine.jar")))]);
    assert!(is_local_spec(m.find("mine").unwrap()));
    let resolver = Resolver::start(&m, None, ResolveMode::Locked);
    let lock = resolve(&m, "{}", &resolver, &vec![b"jar bytes".to_vec()]).unwrap();
    let mine = lock.find("mine").unwrap();
    assert_eq!(mine.provider, Provider::Local);
    assert_eq!(mine.filename, "mine.jar");
    assert_eq!(mine.version, "local");
    assert_eq!(mine.download.url, None);
    assert_eq!(mine.download.hash_format, "sha512");
    assert_eq!(mine.download.hash, sha512_hex(b"jar bytes"));
    assert_eq!(mine.download.size, Some(9));
    assert_eq!(mine.requested_by, [ROOT_REQUESTER]);
}

#[test]
fn a_local_mod_needs_a_path() {
    match local_filename("mine", &local(None)) {
        Err(ResolveError::MissingPath(slug)) => assert_eq!(slug, "mine"),
        other => panic!("{other:?}"),
    }
    assert_eq!(local_filename("mine", &local(Some("m.jar"))).unwrap(), "m.jar");
}

#[test]
fn a_provider_that_cannot_resolve_is_an_error() {
    let m = manifest(vec![("g", from(Provider::Github))]);
    let resolver = Resolver::start(&m, None, ResolveMode::Locked);
    match resolver.next_task() {
        Err(ResolveError::UnsupportedProvider(provider)) => assert_eq!(provider, Provider::Github),
        other => panic!("{other:?}"),
    }
}

#[test]
fn an_unsafe_filename_never_reaches_the_lock() {
    let m = manifest(vec![("a", constraint("*"))]);
    let mut resolver = Resolver::start(&m, None, ResolveMode::Locked);
    let mut bad = answer("A", "a", &[]);
    bad.filename = "../a.jar".into();
    resolver.next_task().unwrap().unwrap();
    resolver.record(bad);
    match resolve(&m, "{}", &resolver, &vec![]) {
        Err(ResolveError::UnsafeEntry(fault)) => assert_eq!(fault.fault, UnsafeName::Separator),
        other => panic!("{other:?}"),
    }
}
