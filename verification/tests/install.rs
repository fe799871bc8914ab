use lode::commands::install::{
    copies_overlay, download_cap, expected_files, has_jar_extension, install_one, install_pack,
    prune_mods, side_wanted, Action, Event, InstallFault, InstallOpts, InstallRun, KeyState,
    Outcome, Stage,
};
use lode::commands::verify::{check_mod, Status};
use lode::hash::sha256_hex;
use lode::http::{DEFAULT_MAX_DOWNLOAD, SIZE_MARGIN};
use lode::lock::{Download, LockedMod};
use lode::overlay::found;
use lode::provider::{DownloadMode, Provider};
use lode::providers::curseforge::CfDownload;
use lode::side::Side;

fn locked(slug: &str, provider: Provider, url: Option<&str>, side: Side) -> LockedMod {
    LockedMod {
        slug: slug.to_string(),
        name: slug.to_uppercase(),
        provider,
        project_id: "7".into(),
        file_id: Some("9".to_string()),
        version: "1".into(),
        filename: format!("{slug}.jar"),
        download: Download {
            url: url.map(String::from),
            mode: DownloadMode::Url,
            hash_format: "sha256".into(),
            hash: sha256_hex(b"good"),
            size: Some(4),
        },
        side,
        optional: false,
        dependencies: Vec::new(),
        requested_by: Vec::new(),
    }
}

fn modrinth() -> LockedMod {
    locked("a", Provider::Modrinth, Some("https://cdn/a.jar"), Side::Both)
}

fn curseforge() -> LockedMod {
    locked("c", Provider::Curseforge, None, Side::Both)
}

fn opts(server: bool) -> InstallOpts {
    InstallOpts {
        into: None,
        server,
        skip_loader: false,
        java: None,
    }
}

fn strings(items: &[&str]) -> Vec<String> {
    items.iter().map(|s| s.to_string()).collect()
}

/// Run the installation of a mod on the events in turn, and return the last action.
fn play(m: &LockedMod, key: &mut KeyState, events: Vec<Event>) -> Action {
    let (mut stage, mut action) = install_one(m, Stage::Begin, key, Event::Started);
    for event in events {
        let next = install_one(m, stage, key, event);
        stage = next.0;
        action = next.1;
    }
    action
}

#[test]
fn prune_removes_only_unexpected_jars() {
    let names = strings(&["keep-1.0.jar", "stale-0.9.jar", "notes.txt"]);

    let pruned = prune_mods(&names, &strings(&["keep-1.0.jar"]));

    // Non-jar files are never touched — configs and the like live in mods/ for some packs.
    assert_eq!(pruned, ["stale-0.9.jar"]);
}

#[test]
fn prune_on_a_missing_dir_is_a_no_op() {
    assert_eq!(prune_mods(&vec![], &vec![]).len(), 0);
}

#[test]
fn a_fresh_mod_is_fetched_checked_and_written() {
    let m = modrinth();
    let mut key = KeyState::Untried;
    match play(&m, &mut key, vec![Event::Existing(None)]) {
        Action::Fetch(url, cap) => {
            assert_eq!(url, "https://cdn/a.jar");
            assert_eq!(cap, 4 + SIZE_MARGIN);
        }
        other => panic!("{other:?}"),
    }
    match play(&m, &mut key, vec![Event::Existing(None), Event::Body(Some(b"good".to_vec()))]) {
        Action::Write(bytes) => {
            assert_eq!(bytes, b"good");
            // What is written passes a later check.
            assert_eq!(check_mod(&m, &Some(bytes)), Status::Intact);
        }
        other => panic!("{other:?}"),
    }
    let events = vec![
        Event::Existing(Some(b"old".to_vec())),
        Event::Body(Some(b"good".to_vec())),
        Event::Stored(true),
    ];
    assert!(matches!(play(&m, &mut key, events), Action::Finish(Outcome::Installed)));
    assert_eq!(key, KeyState::Untried);
}

#[test]
fn a_file_with_the_locked_hash_is_left_alone() {
    let events = vec![Event::Existing(Some(b"good".to_vec()))];
    assert!(matches!(
        play(&modrinth(), &mut KeyState::Untried, events),
        Action::Finish(Outcome::UpToDate)
    ));
}

#[test]
fn nothing_else_is_ever_written() {
    let m = modrinth();
    let after = |body: Option<Vec<u8>>| {
        play(&m, &mut KeyState::Untried, vec![Event::Existing(None), Event::Body(body)])
    };
    match after(Some(b"evil".to_vec())) {
        Action::Fail(InstallFault::HashMismatch(got)) => assert_eq!(got, sha256_hex(b"evil")),
        other => panic!("{other:?}"),
    }
    assert!(matches!(after(None), Action::Fail(InstallFault::DownloadFailed)));
    let mut odd = modrinth();
    odd.download.hash_format = "crc32".to_string();
    let events = vec![Event::Existing(None), Event::Body(Some(b"good".to_vec()))];
    assert!(matches!(
        play(&odd, &mut KeyState::Untried, events),
        Action::Fail(InstallFault::UnsupportedFormat)
    ));
    let events = vec![
        Event::Existing(None),
        Event::Body(Some(b"good".to_vec())),
        Event::Stored(false),
    ];
    assert!(matches!(
        play(&m, &mut KeyState::Untried, events),
        Action::Fail(InstallFault::WriteFailed)
    ));
}

#[test]
fn a_local_jar_is_copied() {
    let m = locked("l", Provider::Local, None, Side::Both);
    let mut key = KeyState::Untried;
    assert!(matches!(play(&m, &mut key, vec![]), Action::ReadLocal));
    let good = || Event::Local(Some(b"good".to_vec()));
    match play(&m, &mut key, vec![good()]) {
        Action::Write(bytes) => assert_eq!(bytes, b"good"),
        other => panic!("{other:?}"),
    }
    assert!(matches!(
        play(&m, &mut key, vec![good(), Event::Stored(true)]),
        Action::Finish(Outcome::InstalledLocal)
    ));
    assert!(matches!(
        play(&m, &mut key, vec![good(), Event::Stored(false)]),
        Action::Fail(InstallFault::CopyFailed)
    ));
    assert!(matches!(
        play(&m, &mut key, vec![Event::Local(None)]),
        Action::Fail(InstallFault::CopyFailed)
    ));
}

#[test]
fn a_changed_local_jar_is_never_written() {
    let m = locked("l", Provider::Local, None, Side::Both);
    let mut key = KeyState::Untried;
    match play(&m, &mut key, vec![Event::Local(Some(b"evil".to_vec()))]) {
        Action::Fail(InstallFault::HashMismatch(got)) => assert_eq!(got, sha256_hex(b"evil")),
        other => panic!("{other:?}"),
    }
    let mut odd = locked("l", Provider::Local, None, Side::Both);
    odd.download.hash_format = "crc32".to_string();
    assert!(matches!(
        play(&odd, &mut key, vec![Event::Local(Some(b"good".to_vec()))]),
        Action::Fail(InstallFault::UnsupportedFormat)
    ));
}

#[test]
fn the_key_is_asked_for_once() {
    let m = curseforge();
    let mut key = KeyState::Untried;
    assert!(matches!(play(&m, &mut key, vec![]), Action::AskKey));
    match play(&m, &mut key, vec![Event::Key(true)]) {
        Action::AskFile(file) => assert_eq!(file, "9"),
        other => panic!("{other:?}"),
    }
    assert_eq!(key, KeyState::Present);
    assert!(matches!(play(&m, &mut key, vec![]), Action::AskFile(_)));

    let mut key = KeyState::Untried;
    match play(&m, &mut key, vec![Event::Key(false)]) {
        Action::Finish(Outcome::NeedsKey(label)) => assert_eq!(label, "C (c.jar)"),
        other => panic!("{other:?}"),
    }
    assert_eq!(key, KeyState::Absent);
    assert!(matches!(play(&m, &mut key, vec![]), Action::Finish(Outcome::NeedsKey(_))));
}

#[test]
fn a_file_without_a_url_is_fetched_by_hand() {
    let m = curseforge();
    let file = |url: Option<&str>, site: Option<&str>| {
        Event::File(Some(CfDownload {
            url: url.map(String::from),
            filename: "c.jar".to_string(),
            hash_format: "sha1".to_string(),
            hash: "h".to_string(),
            website_url: site.map(String::from),
        }))
    };
    let mut key = KeyState::Present;
    match play(&m, &mut key, vec![file(None, Some("https://cf/c/"))]) {
        Action::Finish(Outcome::Manual(manual)) => {
            assert_eq!(manual.name, "C");
            assert_eq!(manual.filename, "c.jar");
            assert_eq!(manual.page.as_deref(), Some("https://cf/c/files/9"));
        }
        other => panic!("{other:?}"),
    }
    assert!(matches!(
        play(&m, &mut key, vec![file(Some("https://edge/c.jar"), None)]),
        Action::ReadExisting
    ));
    assert!(matches!(
        play(&m, &mut key, vec![Event::File(None)]),
        Action::Fail(InstallFault::LookupFailed)
    ));
    let orphan = locked("u", Provider::Url, None, Side::Both);
    assert!(matches!(play(&orphan, &mut key, vec![]), Action::Finish(Outcome::Manual(_))));
}

#[test]
fn the_cap_follows_the_locked_size() {
    let mut m = modrinth();
    assert_eq!(download_cap(&m), 4 + SIZE_MARGIN);
    m.download.size = None;
    assert_eq!(download_cap(&m), DEFAULT_MAX_DOWNLOAD);
    m.download.size = Some(u64::MAX);
    assert_eq!(download_cap(&m), u64::MAX);
}

#[test]
fn a_run_prunes_only_when_every_jar_is_in_place() {
    let m = modrinth();
    let mut run = InstallRun::start();
    run.report(&m, Ok(Outcome::Installed));
    run.report(&m, Ok(Outcome::InstalledLocal));
    run.report(&m, Ok(Outcome::UpToDate));
    assert_eq!((run.installed, run.up_to_date), (2, 1));
    assert!(run.may_prune(true));
    assert!(!run.may_prune(false), "another directory may hold jars of its own");
    assert!(run.outcome().is_ok());

    run.report(&m, Err("no route".to_string()));
    assert!(!run.may_prune(true));
    assert_eq!(run.outcome(), Err(1));
    assert_eq!(run.failures[0].name, "A");
    assert_eq!(run.failures[0].error, "no route");

    let mut run = InstallRun::start();
    run.report(&m, Ok(Outcome::NeedsKey("A (a.jar)".to_string())));
    assert!(!run.may_prune(true));
}

#[test]
fn the_plan_takes_the_mods_of_the_side() {
    let mods = vec![
        locked("both", Provider::Modrinth, None, Side::Both),
        locked("client", Provider::Modrinth, None, Side::Client),
        locked("server", Provider::Modrinth, None, Side::Server),
        locked("none", Provider::Modrinth, None, Side::Neither),
    ];
    let client = install_pack(&mods, &opts(false));
    assert_eq!(client.wanted, [0, 1]);
    assert_eq!(client.expected, ["both.jar", "client.jar"]);
    assert!(!client.provision);
    let server = install_pack(&mods, &opts(true));
    assert_eq!(server.wanted, [0, 2]);
    assert!(server.provision);
    assert_eq!(expected_files(&mods, true), ["both.jar", "server.jar"]);
    let mut skip = opts(true);
    skip.skip_loader = true;
    assert!(!skip.provisions_loader());
}

#[test]
fn sides_and_jars() {
    assert!(side_wanted(Side::Both, true) && side_wanted(Side::Both, false));
    assert!(side_wanted(Side::Client, false) && !side_wanted(Side::Client, true));
    assert!(side_wanted(Side::Server, true) && !side_wanted(Side::Server, false));
    assert!(!side_wanted(Side::Neither, true) && !side_wanted(Side::Neither, false));
    assert!(has_jar_extension("a.jar"));
    assert!(has_jar_extension("A.JAR"));
    assert!(!has_jar_extension("a.jar.disabled"));
    assert!(!has_jar_extension(".jar"));
}

#[test]
fn overlays_are_copied_for_their_side_and_only_elsewhere() {
    let client = found("config/a.toml", "/p/config/a.toml", Side::Client);
    assert!(copies_overlay(&client, false, false));
    assert!(!copies_overlay(&client, false, true));
    assert!(!copies_overlay(&client, true, false));
}
