use lode::cli::{ImportArgs, ImportSource};
use lode::commands::import::{
    import_packwiz, imported_lock, loader_from, manifest_spec, may_write, metafile_slug,
    pack_target, read_metafiles, run, value_to_id, ImportError, PackToml, PwCurseforge,
    PwDownload, PwId, PwMod, PwModrinth, PwRecord, PwUpdate,
};
use lode::loader::Loader;
use lode::lock::{DepKind, LockedMod};
use lode::manifest::ModSpec;
use lode::packwiz::mod_pw_toml;
use lode::provider::{DownloadMode, Provider};
use lode::providers::{ImportedVersion, ResolvedDep};
use lode::resolve::manifest_hash;
use lode::side::Side;
use toml::{Table, Value};

const MODRINTH_PW: &str = r#"
name = "Just Enough Items (JEI)"
filename = "jei-1.20.1-forge-15.20.0.132.jar"
side = "both"

[download]
url = "https://cdn.modrinth.com/data/u6dRKJwZ/versions/p5mYHvjx/jei.jar"
hash-format = "sha512"
hash = "abc123"

[update]
[update.modrinth]
mod-id = "u6dRKJwZ"
version = "p5mYHvjx"
"#;

const CURSEFORGE_PW: &str = r#"
name = "FTB Quests"
filename = "ftb-quests-forge-2001.jar"

[download]
hash-format = "sha1"
hash = "def456"
mode = "metadata:curseforge"

[update]
[update.curseforge]
project-id = 289412
file-id = 5678901
"#;

fn text(table: &Table, key: &str) -> Option<String> {
    Some(table.get(key)?.as_str()?.to_string())
}

fn id(table: &Table, key: &str) -> PwId {
    match &table[key] {
        Value::Integer(n) => PwId::Integer(*n),
        Value::String(s) => PwId::Text(s.clone()),
        _ => PwId::Other,
    }
}

/// The metafile that a TOML text holds.
fn metafile(toml_text: &str) -> PwMod {
    let top: Table = toml::from_str(toml_text).unwrap();
    let empty = Table::new();
    let download = top["download"].as_table().unwrap();
    let update = top.get("update").and_then(Value::as_table).unwrap_or(&empty);
    PwMod {
        name: text(&top, "name").unwrap(),
        filename: text(&top, "filename").unwrap(),
        side: text(&top, "side"),
        download: PwDownload {
            url: text(download, "url"),
            hash_format: text(download, "hash-format").unwrap(),
            hash: text(download, "hash").unwrap(),
        },
        update: PwUpdate {
            modrinth: update.get("modrinth").and_then(Value::as_table).map(|t| PwModrinth {
                mod_id: text(t, "mod-id").unwrap(),
                version: text(t, "version").unwrap(),
            }),
            curseforge: update.get("curseforge").and_then(Value::as_table).map(|t| PwCurseforge {
                project_id: id(t, "project-id"),
                file_id: id(t, "file-id"),
            }),
        },
    }
}

fn pairs(items: &[(&str, &str)]) -> Vec<(String, String)> {
    items.iter().map(|(k, v)| (k.to_string(), v.to_string())).collect()
}

fn pack(versions: &[(&str, &str)]) -> PackToml {
    PackToml {
        name: "Pack".to_string(),
        author: None,
        version: Some("2.0".to_string()),
        description: None,
        versions: pairs(versions),
    }
}

fn record(slug: &str) -> PwRecord {
    PwRecord::from_pw(slug.to_string(), metafile(MODRINTH_PW)).unwrap()
}

#[test]
fn maps_a_modrinth_metafile() {
    let pw: PwMod = metafile(MODRINTH_PW);
    let r = PwRecord::from_pw("jei".into(), pw).unwrap();
    assert_eq!(r.provider, Provider::Modrinth);
    assert_eq!(r.project_id, "u6dRKJwZ");
    assert_eq!(r.file_id, "p5mYHvjx");
    assert_eq!(r.side, Side::Both);
    assert_eq!(r.mode, DownloadMode::Url);
    assert!(r.url.is_some());
}

#[test]
fn maps_a_curseforge_metafile_with_integer_ids_and_no_url() {
    let pw: PwMod = metafile(CURSEFORGE_PW);
    let r = PwRecord::from_pw("ftb-quests-forge".into(), pw).unwrap();
    assert_eq!(r.provider, Provider::Curseforge);
    assert_eq!(r.project_id, "289412");
    assert_eq!(r.file_id, "5678901");
    // packwiz omits `side` -> both; the URL is never persisted for CurseForge.
    assert_eq!(r.side, Side::Both);
    assert_eq!(r.mode, DownloadMode::MetadataCurseforge);
    assert!(r.url.is_none());
}

#[test]
fn side_omitted_is_both_and_empty_is_none() {
    let base = "name=\"x\"\nfilename=\"x.jar\"\n[download]\nhash-format=\"sha1\"\nhash=\"h\"\n[update.modrinth]\nmod-id=\"a\"\nversion=\"b\"\n";
    let both: PwMod = metafile(base);
    assert_eq!(
        PwRecord::from_pw("x".into(), both).unwrap().side,
        Side::Both
    );

    let with_none: PwMod =
        metafile(&base.replace("filename=\"x.jar\"", "filename=\"x.jar\"\nside=\"\""));
    assert_eq!(
        PwRecord::from_pw("x".into(), with_none).unwrap().side,
        Side::Neither
    );
}

#[test]
fn manifest_spec_is_bare_for_plain_modrinth_and_detailed_otherwise() {
    let cf = PwRecord {
        slug: "q".into(),
        name: "Q".into(),
        provider: Provider::Curseforge,
        project_id: "1".into(),
        file_id: "2".into(),
        filename: "q.jar".into(),
        url: None,
        hash_format: "sha1".into(),
        hash: "h".into(),
        mode: DownloadMode::MetadataCurseforge,
        side: Side::Both,
    };
    assert!(matches!(manifest_spec(&cf), ModSpec::Detailed(_)));

    let mr = PwRecord {
        provider: Provider::Modrinth,
        mode: DownloadMode::Url,
        ..cf
    };
    assert!(matches!(manifest_spec(&mr), ModSpec::Constraint(c) if c == "*"));
}

#[test]
fn loader_extracted_from_versions_table() {
    let versions = pairs(&[("minecraft", "1.20.1"), ("forge", "47.3.0")]);
    let (loader, version) = loader_from(&versions).unwrap();
    assert_eq!(loader, Loader::Forge);
    assert_eq!(version, "47.3.0");
}

#[test]
fn a_pack_names_minecraft_and_a_loader() {
    let target = pack_target(&pack(&[("minecraft", "1.20.1"), ("quilt", "0.23.1")])).unwrap();
    assert_eq!(target.name, Loader::Quilt);
    assert_eq!(target.minecraft, "1.20.1");
    assert_eq!(target.version, "0.23.1");
    assert!(matches!(pack_target(&pack(&[("forge", "47")])), Err(ImportError::NoMinecraft)));
    assert!(matches!(
        pack_target(&pack(&[("minecraft", "1.20.1")])),
        Err(ImportError::NoLoader)
    ));
}

#[test]
fn metafiles_are_told_by_their_name() {
    assert_eq!(metafile_slug("jei.pw.toml").as_deref(), Some("jei"));
    assert_eq!(metafile_slug("jei.toml"), None);
}

#[test]
fn an_id_is_an_integer_or_a_text() {
    assert_eq!(value_to_id(&PwId::Integer(-12)).unwrap(), "-12");
    assert_eq!(value_to_id(&PwId::Text("x".to_string())).unwrap(), "x");
    assert!(matches!(value_to_id(&PwId::Other), Err(ImportError::BadId)));
}

#[test]
fn a_metafile_needs_a_known_side_and_an_update_section() {
    let mut odd = metafile(MODRINTH_PW);
    odd.side = Some("up".to_string());
    match PwRecord::from_pw("x".into(), odd) {
        Err(ImportError::UnknownSide(side)) => assert_eq!(side, "up"),
        other => panic!("{other:?}"),
    }
    let mut bare = metafile(MODRINTH_PW);
    bare.update.modrinth = None;
    assert!(matches!(PwRecord::from_pw("x".into(), bare), Err(ImportError::NoUpdate)));
}

#[test]
fn metafiles_are_read_in_the_order_of_their_slugs() {
    let sorted = read_metafiles(vec![record("b"), record("a"), record("c")]).unwrap();
    let slugs: Vec<&str> = sorted.iter().map(|r| r.slug.as_str()).collect();
    assert_eq!(slugs, ["a", "b", "c"]);
    assert!(matches!(read_metafiles(vec![]), Err(ImportError::NoMods)));
}

#[test]
fn an_existing_manifest_is_overwritten_only_by_force() {
    let mut args = ImportArgs {
        source: ImportSource::Packwiz,
        path: Some("old".to_string()),
        out: None,
        force: false,
    };
    assert!(may_write(&args, false).is_ok());
    assert!(matches!(may_write(&args, true), Err(ImportError::Exists)));
    args.force = true;
    assert!(may_write(&args, true).is_ok());
    let plan = run(&args);
    assert_eq!(plan.pack_toml, "old/pack.toml");
    assert_eq!(plan.manifest, "./lode.json");
    assert_eq!(plan.lock, "./lode.lock");
}

#[test]
fn an_import_keeps_the_pinned_files() {
    let found = vec![
        Some(ImportedVersion {
            version_number: "15.20".to_string(),
            size: Some(7),
            dependencies: vec![
                ResolvedDep {
                    project_id: "289412".to_string(),
                    kind: DepKind::Required,
                },
                ResolvedDep {
                    project_id: "outside".to_string(),
                    kind: DepKind::Required,
                },
            ],
        }),
        None,
    ];
    let records = vec![
        record("jei"),
        PwRecord::from_pw("quests".into(), metafile(CURSEFORGE_PW)).unwrap(),
    ];
    let loader = pack_target(&pack(&[("minecraft", "1.20.1"), ("forge", "47.3.0")])).unwrap();
    let out = import_packwiz(
        pack(&[("minecraft", "1.20.1"), ("forge", "47.3.0")]),
        loader,
        &records,
        &found,
    );

    assert_eq!(out.manifest.pack.name, "Pack");
    assert_eq!(out.manifest.len(), 2);
    assert_eq!(out.locked[0].filename, "jei-1.20.1-forge-15.20.0.132.jar");
    assert_eq!(out.locked[0].download.hash, "abc123");
    assert_eq!(out.locked[0].version, "15.20");
    assert_eq!(out.locked[0].file_id.as_deref(), Some("p5mYHvjx"));
    assert_eq!(out.locked[1].download.url, None);
    // Only a dependency inside the pack becomes an edge, under its slug there.
    assert_eq!(out.locked[0].dependencies.len(), 1);
    assert_eq!(out.locked[0].dependencies[0].slug, "quests");

    let lock = imported_lock(&out.manifest, "{}", out.locked);
    assert_eq!(lock.manifest_hash, manifest_hash("{}"));
    assert_eq!(lock.mods.len(), 2);
}

/// What an import of one record locks.
fn locked(record: PwRecord) -> LockedMod {
    let versions = [("minecraft", "1.20.1"), ("forge", "47.3.0")];
    let target = pack_target(&pack(&versions)).unwrap();
    import_packwiz(pack(&versions), target, &vec![record], &vec![None]).locked.remove(0)
}

#[test]
fn an_exported_side_reads_back() {
    for side in [Side::Client, Side::Server, Side::Both, Side::Neither] {
        let mut m = locked(record("jei"));
        m.side = side;
        let back = PwRecord::from_pw("jei".into(), metafile(&mod_pw_toml(&m))).unwrap();
        assert_eq!(back.side, side);
    }
}

#[test]
fn an_exported_mod_reads_back() {
    let mut m = locked(record("jei"));
    m.name = "A \"quoted\" \\ name".to_string();
    let back = PwRecord::from_pw("jei".into(), metafile(&mod_pw_toml(&m))).unwrap();
    assert_eq!((back.slug, back.name), (m.slug, m.name));
    assert_eq!((back.project_id, Some(back.file_id)), (m.project_id, m.file_id));
    assert_eq!((back.filename, back.url), (m.filename, m.download.url));
    assert_eq!((back.hash_format, back.hash), (m.download.hash_format, m.download.hash));
    assert_eq!((back.provider, back.mode), (Provider::Modrinth, DownloadMode::Url));

    let quests = PwRecord::from_pw("quests".into(), metafile(CURSEFORGE_PW)).unwrap();
    let m = locked(quests);
    let back = PwRecord::from_pw("quests".into(), metafile(&mod_pw_toml(&m))).unwrap();
    assert_eq!((back.slug, back.name, back.filename), (m.slug, m.name, m.filename));
    assert_eq!((back.project_id.as_str(), back.file_id.as_str()), ("289412", "5678901"));
    assert_eq!((back.hash_format, back.hash), (m.download.hash_format, m.download.hash));
    assert_eq!(back.url, None);
    assert_eq!(back.mode, DownloadMode::MetadataCurseforge);
}
