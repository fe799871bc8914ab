use lode::loader::Loader;
use lode::lock::{
    is_windows_reserved, safe_component, Download, EntryFault, Lock, LockedMod, NameField,
    ResolverMeta, UnsafeName, LOCKFILE_VERSION,
};
use lode::manifest::LoaderSpec;
use lode::provider::{DownloadMode, Provider};
use lode::side::Side;

fn locked(slug: &str, filename: &str) -> LockedMod {
    LockedMod {
        slug: slug.to_string(),
        name: slug.to_string(),
        provider: Provider::Modrinth,
        project_id: "x".into(),
        file_id: None,
        version: "1.0".into(),
        filename: filename.to_string(),
        download: Download {
            url: None,
            mode: DownloadMode::Url,
            hash_format: "sha512".into(),
            hash: "h".into(),
            size: None,
        },
        side: Side::Both,
        optional: false,
        dependencies: Vec::new(),
        requested_by: Vec::new(),
    }
}

fn lock_with(mods: Vec<LockedMod>) -> Lock {
    Lock {
        lockfile_version: LOCKFILE_VERSION,
        manifest_hash: "sha256:x".into(),
        loader: LoaderSpec {
            name: Loader::Forge,
            minecraft: "1.20.1".into(),
            version: "47.0.0".into(),
        },
        resolver: ResolverMeta {
            lode_version: "0".into(),
        },
        mods,
    }
}

#[test]
fn safe_component_rejects_traversal_absolute_and_special_forms() {
    for bad in [
        "", "..", ".", "../x", "/abs", "..\\x", "a/b", "C:\\x", "C:evil", "NUL", "con.txt", "COM1",
        "lpt9.jar",
    ] {
        assert!(safe_component(bad).is_err(), "should reject {bad:?}");
    }
}

#[test]
fn safe_component_accepts_plain_filenames() {
    for good in [
        "mod.jar",
        "sodium-fabric-0.5.8.jar",
        "a.b.c.jar",
        "COM0.jar",
    ] {
        assert!(safe_component(good).is_ok(), "should accept {good:?}");
    }
}

#[test]
fn safe_component_names_what_is_wrong() {
    assert_eq!(safe_component(""), Err(UnsafeName::Empty));
    assert_eq!(safe_component("."), Err(UnsafeName::DirectoryReference));
    assert_eq!(safe_component(".."), Err(UnsafeName::DirectoryReference));
    assert_eq!(safe_component("a/b"), Err(UnsafeName::Separator));
    assert_eq!(safe_component("a\\b"), Err(UnsafeName::Separator));
    assert_eq!(safe_component("C:evil"), Err(UnsafeName::DriveLetter));
    assert_eq!(safe_component("aux.txt"), Err(UnsafeName::ReservedDevice));
    assert_eq!(safe_component("..."), Ok(()));
}

#[test]
fn reserved_device_names_ignore_case_and_extension() {
    for reserved in ["con", "PRN", "Aux.jar", "nul.a.b", "com9", "LPT1.txt"] {
        assert!(is_windows_reserved(reserved), "{reserved}");
    }
    for plain in ["console", "com", "com0", "com10", "lpt", "xnul", ""] {
        assert!(!is_windows_reserved(plain), "{plain}");
    }
}

#[test]
fn validate_points_at_the_first_unsafe_entry() {
    assert_eq!(
        lock_with(vec![locked("a", "a.jar"), locked("b", "b.jar")]).validate(),
        Ok(())
    );
    assert_eq!(
        lock_with(vec![locked("a", "a.jar"), locked("b", "../b.jar"), locked("", "c")]).validate(),
        Err(EntryFault {
            entry: 1,
            field: NameField::Filename,
            fault: UnsafeName::Separator,
        })
    );
    assert_eq!(
        lock_with(vec![locked("..", "con")]).validate(),
        Err(EntryFault {
            entry: 0,
            field: NameField::Slug,
            fault: UnsafeName::DirectoryReference,
        })
    );
}

#[test]
fn find_returns_the_first_entry_of_the_slug() {
    let lock = lock_with(vec![locked("a", "a.jar"), locked("b", "b.jar"), locked("b", "c.jar")]);
    assert_eq!(lock.find("b").unwrap().filename, "b.jar");
    assert!(lock.find("c").is_none());
}
