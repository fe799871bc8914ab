use lode::hash::sha256_hex;
use lode::loader::Loader;
use lode::lock::{Download, Lock, LockedMod, ResolverMeta, LOCKFILE_VERSION};
use lode::manifest::{Defaults, LoaderSpec, Manifest, PackMeta};
use lode::packwiz::{emit, jar_name_in_tree, mod_pw_toml, toml_string, ShippedFile};
use lode::provider::{DownloadMode, Provider};
use lode::side::Side;
use toml::Table;

fn loader() -> LoaderSpec {
    LoaderSpec {
        name: Loader::Forge,
        minecraft: "1.20.1".into(),
        version: "47.3.0".into(),
    }
}

fn sample() -> (Manifest, Lock) {
    let manifest = Manifest {
        pack: PackMeta {
            name: "Test Pack".into(),
            author: "A".into(),
            version: "0.1.0".into(),
            description: None,
        },
        loader: loader(),
        defaults: Defaults { side: Side::Both },
        overlays: Vec::new(),
        mods: Default::default(),
    };

    let sodium = LockedMod {
        slug: "sodium".into(),
        name: "Sodium".into(),
        provider: Provider::Modrinth,
        project_id: "AANobbMI".into(),
        file_id: Some("abcd1234".into()),
        version: "0.5.8".into(),
        filename: "sodium-fabric-0.5.8.jar".into(),
        download: Download {
            url: Some("https://cdn.modrinth.com/data/AANobbMI/versions/abcd1234/sodium.jar".into()),
            mode: DownloadMode::Url,
            hash_format: "sha512".into(),
            hash: "deadbeef".into(),
            size: Some(1234),
        },
        side: Side::Client,
        optional: false,
        dependencies: Vec::new(),
        requested_by: vec!["manifest".into()],
    };

    let lock = Lock {
        lockfile_version: LOCKFILE_VERSION,
        manifest_hash: "sha256:0".into(),
        loader: loader(),
        resolver: ResolverMeta {
            lode_version: "0.1.0".into(),
        },
        mods: vec![sodium],
    };

    (manifest, lock)
}

fn local_jar() -> LockedMod {
    LockedMod {
        slug: "mymod".into(),
        name: "mymod".into(),
        provider: Provider::Local,
        project_id: "mymod.jar".into(),
        file_id: None,
        version: "local".into(),
        filename: "mymod.jar".into(),
        download: Download {
            url: None,
            mode: DownloadMode::Url,
            hash_format: "sha512".into(),
            hash: "x".into(),
            size: Some(9),
        },
        side: Side::Both,
        optional: false,
        dependencies: Vec::new(),
        requested_by: vec!["manifest".into()],
    }
}

#[test]
fn emits_a_packwiz_metafile_with_the_interop_fields() {
    let (manifest, lock) = sample();

    let tree = emit(&manifest, &lock, &vec![], &vec![]);

    assert_eq!(tree.metafiles[0].rel, "mods/sodium.pw.toml");
    let pw = &tree.metafiles[0].contents;
    assert!(pw.contains("name = \"Sodium\""), "{pw}");
    assert!(pw.contains("filename = \"sodium-fabric-0.5.8.jar\""));
    assert!(pw.contains("side = \"client\""));
    assert!(pw.contains("[download]"));
    assert!(pw.contains("hash-format = \"sha512\""));
    assert!(pw.contains("[update.modrinth]"));
    assert!(pw.contains("mod-id = \"AANobbMI\""));
    assert!(pw.contains("version = \"abcd1234\""));
}

#[test]
fn pack_toml_references_the_real_index_hash() {
    let (manifest, lock) = sample();

    let tree = emit(&manifest, &lock, &vec![], &vec![]);

    let index_hash = sha256_hex(tree.index.as_bytes());
    let pack = &tree.pack;
    assert!(
        pack.contains(&format!("hash = \"{index_hash}\"")),
        "pack.toml:\n{pack}"
    );
    assert!(pack.contains("pack-format = \"packwiz:1.1.0\""));
    assert!(pack.contains("forge = \"47.3.0\""));
}

#[test]
fn index_lists_the_metafile_with_its_sha256() {
    let (manifest, lock) = sample();

    let tree = emit(&manifest, &lock, &vec![], &vec![]);

    assert!(tree.index.contains("file = \"mods/sodium.pw.toml\""));
    assert!(tree.index.contains("metafile = true"));
    assert!(tree.index.contains(&sha256_hex(tree.metafiles[0].contents.as_bytes())));
}

#[test]
fn overlay_files_are_copied_and_indexed_without_metafile() {
    let (manifest, lock) = sample();
    let overlay = ShippedFile {
        rel: "config/example.toml".to_string(),
        bytes: b"greeting = \"hi\"\n".to_vec(),
    };

    let index = emit(&manifest, &lock, &vec![], &vec![overlay]).index;

    assert!(index.contains("file = \"config/example.toml\""), "{index}");
    assert!(index.contains(&sha256_hex(b"greeting = \"hi\"\n")));
    // Overlay files are plain files, not metafiles — check only this entry's own block.
    let after = index
        .split("file = \"config/example.toml\"")
        .nth(1)
        .unwrap();
    let config_block = after.split("[[files]]").next().unwrap();
    assert!(!config_block.contains("metafile"), "{index}");
}

#[test]
fn local_jars_are_bundled_as_raw_files() {
    let (manifest, mut lock) = sample();
    lock.mods.push(local_jar());

    let tree = emit(&manifest, &lock, &vec![b"jar bytes".to_vec()], &vec![]);

    assert_eq!(jar_name_in_tree("mymod.jar"), "mods/mymod.jar");
    assert!(tree.index.contains("file = \"mods/mymod.jar\""), "{}", tree.index);
    assert!(tree.index.contains(&sha256_hex(b"jar bytes")));
    assert_eq!(tree.metafiles.len(), 1, "a local jar has no metafile");
}

#[test]
fn every_emitted_file_is_valid_toml() {
    let (mut manifest, mut lock) = sample();
    manifest.pack.name = "Quoted \"name\"\\ with\ttabs".into();
    lock.mods[0].name = "A — and é".into();

    let tree = emit(&manifest, &lock, &vec![], &vec![]);

    let pack: Table = toml::from_str(&tree.pack).unwrap();
    assert_eq!(pack["name"].as_str(), Some(manifest.pack.name.as_str()));
    assert_eq!(pack["versions"]["minecraft"].as_str(), Some("1.20.1"));
    assert_eq!(pack["index"]["file"].as_str(), Some("index.toml"));
    let pw: Table = toml::from_str(&tree.metafiles[0].contents).unwrap();
    assert_eq!(pw["name"].as_str(), Some(lock.mods[0].name.as_str()));
    assert_eq!(pw["download"]["hash"].as_str(), Some("deadbeef"));
    let index: Table = toml::from_str(&tree.index).unwrap();
    assert_eq!(index["hash-format"].as_str(), Some("sha256"));
    assert_eq!(index["files"].as_array().unwrap().len(), 1);
}

#[test]
fn a_curseforge_metafile_is_resolved_by_its_ids() {
    let (_, mut lock) = sample();
    let m = &mut lock.mods[0];
    m.provider = Provider::Curseforge;
    m.project_id = "238222".into();
    m.file_id = Some("4712868".into());
    m.download.url = None;
    m.download.mode = DownloadMode::MetadataCurseforge;
    let pw: Table = toml::from_str(&mod_pw_toml(m)).unwrap();
    assert_eq!(pw["download"]["mode"].as_str(), Some("metadata:curseforge"));
    assert!(pw["download"].get("url").is_none());
    assert_eq!(pw["update"]["curseforge"]["project-id"].as_integer(), Some(238222));
    assert_eq!(pw["update"]["curseforge"]["file-id"].as_integer(), Some(4712868));
}

#[test]
fn every_side_is_written() {
    let (_, mut lock) = sample();
    let m = &mut lock.mods[0];
    for (side, token) in [
        (Side::Client, "client"),
        (Side::Server, "server"),
        (Side::Both, "both"),
        (Side::Neither, ""),
    ] {
        m.side = side;
        let pw: Table = toml::from_str(&mod_pw_toml(m)).unwrap();
        assert_eq!(pw["side"].as_str(), Some(token));
    }
}

#[test]
fn strings_are_quoted_so_that_nothing_is_lost() {
    assert_eq!(toml_string("plain"), "\"plain\"");
    assert_eq!(toml_string("a\"b\\c"), "\"a\\\"b\\\\c\"");
    for tricky in ["", "\\", "\"\\\"", "tab\t", "\\u0041", "é—日本"] {
        let doc: Table = toml::from_str(&format!("v = {}\n", toml_string(tricky))).unwrap();
        assert_eq!(doc["v"].as_str(), Some(tricky));
    }
}

#[test]
fn the_index_is_sorted_by_file() {
    let (manifest, lock) = sample();
    let file = |rel: &str| ShippedFile {
        rel: rel.to_string(),
        bytes: vec![],
    };
    let index = emit(&manifest, &lock, &vec![], &vec![file("z"), file("a"), file("config/b")]).index;
    let index: Table = toml::from_str(&index).unwrap();
    let files: Vec<&str> = index["files"]
        .as_array()
        .unwrap()
        .iter()
        .map(|f| f["file"].as_str().unwrap())
        .collect();
    assert_eq!(files, ["a", "config/b", "mods/sodium.pw.toml", "z"]);
}
