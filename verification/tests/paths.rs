use lode::lock::LOCK_FILENAME;
use lode::manifest::MANIFEST_FILENAME;
use lode::paths::{join_path, PackPaths};

fn strings(items: &[&str]) -> Vec<String> {
    items.iter().map(|s| s.to_string()).collect()
}

#[test]
fn discover_finds_manifest_in_the_start_directory_itself() {
    let paths = PackPaths::discover(&strings(&["/p", "/"]), &vec![true, false]).unwrap();

    assert_eq!(paths.root, "/p");
}

#[test]
fn discover_walks_up_from_a_nested_subdirectory() {
    let dirs = strings(&["/p/pack/kubejs/server_scripts", "/p/pack/kubejs", "/p/pack", "/p", "/"]);

    let paths = PackPaths::discover(&dirs, &vec![false, false, false, true, false]).unwrap();

    assert_eq!(paths.root, "/p");
}

#[test]
fn discover_returns_the_nearest_manifest_not_an_outer_one() {
    let dirs = strings(&["/o/sub-pack/a/b", "/o/sub-pack/a", "/o/sub-pack", "/o", "/"]);

    let paths = PackPaths::discover(&dirs, &vec![false, false, true, true, false]).unwrap();

    assert_eq!(paths.root, "/o/sub-pack");
}

#[test]
fn discover_errors_when_no_manifest_exists_in_any_ancestor() {
    assert!(PackPaths::discover(&strings(&["/a/b", "/a", "/"]), &vec![false, false, false]).is_none());
    assert!(PackPaths::discover(&vec![], &vec![]).is_none());
}

#[test]
fn manifest_accessor_joins_the_manifest_filename_onto_root() {
    let paths = PackPaths {
        root: "/tmp/pack".to_string(),
    };

    assert_eq!(paths.manifest(), format!("/tmp/pack/{MANIFEST_FILENAME}"));
}

#[test]
fn lock_accessor_joins_the_lock_filename_onto_root() {
    let paths = PackPaths {
        root: "/tmp/pack".to_string(),
    };

    assert_eq!(paths.lock(), format!("/tmp/pack/{LOCK_FILENAME}"));
}

#[test]
fn pack_dir_accessor_points_at_the_generated_distribution_tree() {
    let paths = PackPaths {
        root: "/tmp/pack".to_string(),
    };

    assert_eq!(paths.pack_dir(), "/tmp/pack/pack");
}

#[test]
fn accessors_all_hang_off_the_discovered_root() {
    let paths = PackPaths::discover(&strings(&["/p"]), &vec![true]).unwrap();

    assert_eq!(paths.manifest(), format!("/p/{MANIFEST_FILENAME}"));
    assert_eq!(paths.lock(), format!("/p/{LOCK_FILENAME}"));
    assert_eq!(paths.pack_dir(), "/p/pack");
}

#[test]
fn names_are_joined_with_one_separator() {
    assert_eq!(join_path("/a", "b"), "/a/b");
    assert_eq!(join_path("/a/", "b"), "/a/b");
    assert_eq!(join_path("", "b"), "b");
}
