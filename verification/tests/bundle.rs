use std::io::Read;

use lode::commands::bundle::{archive, build_archive, stem, ArchiveError};
use lode::commands::get::{check_archive, fetch_github, parse_checksum, Asset, Release};
use lode::commands::init::new_manifest;
use lode::commands::publish::uploads;
use lode::hash::sha256_hex;
use lode::loader::Loader;
use lode::manifest::Manifest;
use lode::packwiz::ShippedFile;

fn files(entries: &[(&str, &[u8])]) -> Vec<ShippedFile> {
    entries
        .iter()
        .map(|(rel, bytes)| ShippedFile {
            rel: rel.to_string(),
            bytes: bytes.to_vec(),
        })
        .collect()
}

/// What is in an archive: the name, contents, permissions and time of each entry, in order.
fn unpacked(targz: &[u8]) -> Vec<(String, Vec<u8>, u32, u64)> {
    let mut tar = tar::Archive::new(flate2::read::GzDecoder::new(targz));
    let mut out = Vec::new();
    for entry in tar.entries().unwrap() {
        let mut entry = entry.unwrap();
        let name = entry.path().unwrap().to_string_lossy().into_owned();
        let mut bytes = Vec::new();
        entry.read_to_end(&mut bytes).unwrap();
        let header = entry.header();
        out.push((name, bytes, header.mode().unwrap(), header.mtime().unwrap()));
    }
    out
}

fn manifest() -> Manifest {
    new_manifest(
        "My Pack!".into(),
        "a".into(),
        "1.0.0".into(),
        Loader::Fabric,
        "1.20.1".into(),
        "0.16.0".into(),
    )
}

#[test]
fn archive_is_deterministic_and_order_independent() {
    let entries: Vec<(&str, &[u8])> = vec![
        ("lode.lock", b"lockbytes"),
        ("lode.jsonc", b"manifestbytes"),
        ("config/a.toml", b"aaa"),
    ];
    let first = archive(files(&entries)).unwrap();
    // Same input, and input in a different order, must both be byte-identical.
    assert_eq!(archive(files(&entries)).unwrap(), first);
    let mut shuffled = entries.clone();
    shuffled.reverse();
    assert_eq!(archive(files(&shuffled)).unwrap(), first);
}

#[test]
fn archive_round_trips_every_entry() {
    let entries: Vec<(&str, &[u8])> =
        vec![("lode.jsonc", b"m"), ("lode.lock", b"l"), ("config/a.toml", b"aaa")];
    let targz = archive(files(&entries)).unwrap();
    let mut got: Vec<String> = unpacked(&targz).into_iter().map(|e| e.0).collect();
    got.sort();
    assert_eq!(got, vec!["config/a.toml", "lode.jsonc", "lode.lock"]);
}

#[test]
fn entries_are_sorted_and_carry_fixed_permissions_and_time() {
    let targz = archive(files(&[("b", b"2"), ("a/c", b"3"), ("a", b"1")])).unwrap();
    assert_eq!(
        unpacked(&targz),
        vec![
            ("a".to_string(), b"1".to_vec(), 0o644, 0),
            ("a/c".to_string(), b"3".to_vec(), 0o644, 0),
            ("b".to_string(), b"2".to_vec(), 0o644, 0),
        ]
    );
}

#[test]
fn a_name_that_leads_upwards_is_refused() {
    match archive(files(&[("ok", b""), ("../up", b"")])) {
        Err(ArchiveError::Entry(name)) => assert_eq!(name, "../up"),
        other => panic!("{other:?}"),
    }
}

#[test]
fn names_that_no_system_takes_are_refused() {
    let deep = format!("/{}", "d/".repeat(90));
    for bad in ["", "/abs", "a/../b", "a/..", "nul\0", deep.as_str()] {
        match archive(files(&[("ok", b""), (bad, b"")])) {
            Err(ArchiveError::Entry(name)) => assert_eq!(name, bad),
            other => panic!("{bad}: {other:?}"),
        }
    }
}

#[test]
fn stem_is_filesystem_safe() {
    assert_eq!(stem("My Pack!", "1.0.0"), "my-pack-1.0.0");
    assert_eq!(stem("Vestige", "0.1.0"), "vestige-0.1.0");
    assert_eq!(stem("***", "2"), "pack-2");
}

#[test]
fn a_bundle_holds_the_definition_of_the_pack() {
    let built = build_archive(
        &manifest(),
        b"{}".to_vec(),
        Some(b"lock".to_vec()),
        files(&[("config/x.toml", b"cfg")]),
    )
    .unwrap();
    assert_eq!(built.filename, "my-pack-1.0.0.tar.gz");
    assert_eq!(built.overlay_count, 1);
    assert_eq!(built.digest, sha256_hex(&built.targz));
    let held: Vec<(String, Vec<u8>)> =
        unpacked(&built.targz).into_iter().map(|e| (e.0, e.1)).collect();
    assert_eq!(
        held,
        vec![
            ("config/x.toml".to_string(), b"cfg".to_vec()),
            ("lode.json".to_string(), b"{}".to_vec()),
            ("lode.lock".to_string(), b"lock".to_vec()),
        ]
    );
}

#[test]
fn a_bundle_needs_a_lock() {
    assert!(matches!(
        build_archive(&manifest(), b"{}".to_vec(), None, vec![]),
        Err(ArchiveError::NoLock)
    ));
}

#[test]
fn a_published_checksum_is_accepted_by_the_reader() {
    let built =
        build_archive(&manifest(), b"{}".to_vec(), Some(b"lock".to_vec()), vec![]).unwrap();
    assert_eq!(built.checksum_filename(), "my-pack-1.0.0.tar.gz.sha256");
    let line = built.checksum_file();
    assert_eq!(line, format!("{}  my-pack-1.0.0.tar.gz\n", built.digest));
    let checksum = parse_checksum(&line);
    assert_eq!(check_archive(&built.targz, &checksum), Ok(()));
    assert!(check_archive(b"other", &checksum).is_err());
}

#[test]
fn the_archive_its_checksum_and_its_signature_are_uploaded() {
    let build =
        || build_archive(&manifest(), b"{}".to_vec(), Some(b"lock".to_vec()), vec![]).unwrap();
    let unsigned: Vec<String> = uploads(build(), None).into_iter().map(|u| u.name).collect();
    assert_eq!(unsigned, ["my-pack-1.0.0.tar.gz", "my-pack-1.0.0.tar.gz.sha256"]);
    let signed = uploads(build(), Some(b"bundle".to_vec()));
    assert_eq!(signed.len(), 3);
    assert_eq!(signed[0].body, build().targz);
    assert_eq!(signed[1].body, build().checksum_file().into_bytes());
    assert_eq!(signed[2].name, "my-pack-1.0.0.tar.gz.sigstore");
    assert_eq!(signed[2].body, b"bundle");
}

#[test]
fn a_published_release_is_found_again() {
    let built =
        build_archive(&manifest(), b"{}".to_vec(), Some(b"lock".to_vec()), vec![]).unwrap();
    let assets = uploads(built, Some(b"bundle".to_vec()))
        .into_iter()
        .map(|u| Asset {
            url: format!("https://api/{}", u.name),
            name: u.name,
        })
        .rev()
        .collect();
    let found = fetch_github(&Release { assets }).unwrap();
    assert_eq!(found.archive, "https://api/my-pack-1.0.0.tar.gz");
    assert_eq!(found.checksum.as_deref(), Some("https://api/my-pack-1.0.0.tar.gz.sha256"));
    assert_eq!(found.signature.as_deref(), Some("https://api/my-pack-1.0.0.tar.gz.sigstore"));
}

#[test]
fn ordinary_names_of_any_length_are_archived() {
    let long = format!("config/{}/{}.toml", "d".repeat(90), "é".repeat(80));
    let targz = archive(files(&[(&long, b"x"), ("a.b/..c/...", b"y")])).unwrap();
    let names: Vec<String> = unpacked(&targz).into_iter().map(|e| e.0).collect();
    assert_eq!(names, ["a.b/..c/...".to_string(), long]);
    for name in ["config/a:b.toml", "abc:d", "a//b", "./a/./b", "."] {
        assert!(archive(files(&[(name, b"x")])).is_ok(), "{name}");
    }
}
