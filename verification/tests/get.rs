use std::path::Path;

use lode::cli::GetArgs;
use lode::commands::get::{
    authorize, checksum_url, fetch_github, parse_checksum, parse_reference, pick_source,
    release_url, stem_of, Asset, Refusal, Release, Signature, Source, SourceError, SourceKind,
    UnpackBudget, UnpackFault, MAX_UNPACK_BYTES, MAX_UNPACK_ENTRIES,
};
use lode::hash::sha256_hex;

fn args(reference: Option<&str>, url: Option<&str>, file: Option<&str>) -> GetArgs {
    GetArgs {
        reference: reference.map(String::from),
        from_url: url.map(String::from),
        from_file: file.map(String::from),
        into: None,
        verify: false,
        insecure: false,
        no_install: false,
    }
}

fn asset(name: &str) -> Asset {
    Asset {
        name: name.to_string(),
        url: format!("https://dl/{name}"),
    }
}

#[test]
fn parses_host_owner_repo_with_and_without_tag() {
    let r = parse_reference("github.com/giovani-freitag/vestige").unwrap();
    assert_eq!(
        (r.host.as_str(), r.owner.as_str(), r.repo.as_str(), r.tag),
        ("github.com", "giovani-freitag", "vestige", None)
    );
    let r = parse_reference("github.com/giovani-freitag/vestige@v1.0.0").unwrap();
    assert_eq!(
        (
            r.host.as_str(),
            r.owner.as_str(),
            r.repo.as_str(),
            r.tag.as_deref()
        ),
        ("github.com", "giovani-freitag", "vestige", Some("v1.0.0"))
    );
}

#[test]
fn accepts_a_full_url_and_strips_scheme_and_git_suffix() {
    let r = parse_reference("https://github.com/giovani-freitag/vestige.git").unwrap();
    assert_eq!(
        (r.host.as_str(), r.owner.as_str(), r.repo.as_str()),
        ("github.com", "giovani-freitag", "vestige")
    );
}

#[test]
fn spellings_of_a_reference_agree() {
    for scheme in ["", "http://", "https://"] {
        for git in ["", ".git"] {
            for slash in ["", "/"] {
                let r = parse_reference(&format!("{scheme}github.com/o/r{git}{slash}")).unwrap();
                assert_eq!(
                    (r.host.as_str(), r.owner.as_str(), r.repo.as_str(), r.tag),
                    ("github.com", "o", "r", None)
                );
            }
            let r = parse_reference(&format!("{scheme}github.com/o/r{git}@v1")).unwrap();
            assert_eq!((r.repo.as_str(), r.tag.as_deref()), ("r", Some("v1")));
        }
        for tag in ["", "@v1"] {
            assert!(parse_reference(&format!("{scheme}o/r{tag}")).is_err());
        }
    }
}

#[test]
fn rejects_hostless_and_malformed_refs() {
    // No host (bare owner/repo), a single word, and too many segments are all rejected —
    // the host must be explicit.
    for bad in ["sodium", "giovani-freitag/vestige", "a/b/c", "/x", "x/"] {
        assert!(parse_reference(bad).is_err(), "should reject {bad}");
    }
}

#[test]
fn parse_checksum_takes_the_first_hex_token() {
    assert_eq!(
        parse_checksum("abc123  vestige-1.0.0.tar.gz\n").as_deref(),
        Some("abc123")
    );
    assert_eq!(parse_checksum("deadbeef").as_deref(), Some("deadbeef"));
}

#[test]
fn parse_checksum_rejects_empty_or_non_hex() {
    // A broken/empty sibling checksum must be distinguishable from a genuine mismatch.
    assert_eq!(parse_checksum(""), None);
    assert_eq!(parse_checksum("   \n"), None);
    assert_eq!(parse_checksum("not-a-hash"), None);
    assert_eq!(parse_checksum("<html>404</html>"), None);
}

#[test]
fn stem_strips_tar_gz() {
    let stem = |path: &str| stem_of(Path::new(path).file_name().and_then(|name| name.to_str()));
    assert_eq!(stem("dist/vestige-0.1.0.tar.gz"), "vestige-0.1.0");
    assert_eq!(stem("pack.tgz"), "pack");
    assert_eq!(stem("dist/.."), "pack");
}

#[test]
fn a_source_is_named_exactly_once() {
    assert!(matches!(pick_source(&args(None, None, None)), Err(SourceError::NotOneSource)));
    assert!(matches!(
        pick_source(&args(Some("github.com/a/b"), Some("https://x/y"), None)),
        Err(SourceError::NotOneSource)
    ));
    match pick_source(&args(Some("github.com/a/b@v1"), None, None)).unwrap() {
        Source::GitHub { owner, repo, tag } => {
            assert_eq!((owner.as_str(), repo.as_str(), tag.as_deref()), ("a", "b", Some("v1")));
        }
        other => panic!("{other:?}"),
    }
    match pick_source(&args(None, Some("https://x/p.tar.gz"), None)).unwrap() {
        Source::Url(url) => assert_eq!(url, "https://x/p.tar.gz"),
        other => panic!("{other:?}"),
    }
    let file = pick_source(&args(None, None, Some("p.tar.gz"))).unwrap();
    assert_eq!(file.kind(), SourceKind::File);
}

#[test]
fn other_hosts_and_plain_http_are_refused() {
    match pick_source(&args(Some("gitlab.com/a/b"), None, None)) {
        Err(SourceError::UnsupportedHost(host)) => assert_eq!(host, "gitlab.com"),
        other => panic!("{other:?}"),
    }
    assert!(matches!(
        pick_source(&args(None, Some("http://x/p.tar.gz"), None)),
        Err(SourceError::NotHttps)
    ));
    assert!(matches!(pick_source(&args(Some("a/b"), None, None)), Err(SourceError::NoHost)));
}

#[test]
fn a_release_is_asked_for_by_tag_or_as_the_latest() {
    assert_eq!(
        release_url("a", "b", &None),
        "https://api.github.com/repos/a/b/releases/latest"
    );
    assert_eq!(
        release_url("a", "b", &Some("v1".to_string())),
        "https://api.github.com/repos/a/b/releases/tags/v1"
    );
    assert_eq!(checksum_url("https://x/p.tar.gz"), "https://x/p.tar.gz.sha256");
}

#[test]
fn the_files_of_a_release_go_by_the_archive() {
    let release = Release {
        assets: vec![
            asset("notes.txt"),
            asset("p-1.tar.gz.sha256"),
            asset("p-1.tar.gz"),
            asset("p-1.tar.gz.sigstore"),
        ],
    };
    let found = fetch_github(&release).unwrap();
    assert_eq!(found.archive, "https://dl/p-1.tar.gz");
    assert_eq!(found.checksum.as_deref(), Some("https://dl/p-1.tar.gz.sha256"));
    assert_eq!(found.signature.as_deref(), Some("https://dl/p-1.tar.gz.sigstore"));

    let bare = Release {
        assets: vec![asset("p-1.tar.gz")],
    };
    let found = fetch_github(&bare).unwrap();
    assert_eq!(found.checksum, None);
    assert_eq!(found.signature, None);

    let none = Release {
        assets: vec![asset("notes.txt")],
    };
    assert!(fetch_github(&none).is_none());
}

#[test]
fn a_mismatching_checksum_is_fatal_even_when_insecure() {
    let wrong = Some("00".to_string());
    for kind in [SourceKind::GitHub, SourceKind::Url, SourceKind::File] {
        assert_eq!(
            authorize(kind, b"x", &wrong, Signature::Valid, false, true),
            Err(Refusal::ChecksumMismatch)
        );
    }
}

#[test]
fn a_release_needs_a_checksum_or_a_signature() {
    let right = Some(sha256_hex(b"x"));
    let ask = |sum: &Option<String>, signature, verify, insecure| {
        authorize(SourceKind::GitHub, b"x", sum, signature, verify, insecure)
    };
    assert_eq!(ask(&right, Signature::Absent, false, false), Ok(()));
    assert_eq!(ask(&None, Signature::Valid, false, false), Ok(()));
    assert_eq!(ask(&None, Signature::Absent, false, false), Err(Refusal::Unverifiable));
    assert_eq!(ask(&None, Signature::Absent, false, true), Ok(()));
    assert_eq!(ask(&right, Signature::Absent, true, false), Err(Refusal::NoSignature));
    assert_eq!(ask(&right, Signature::Invalid, false, false), Err(Refusal::BadSignature));
    assert_eq!(ask(&right, Signature::Invalid, true, true), Err(Refusal::BadSignature));
    assert_eq!(ask(&right, Signature::Invalid, false, true), Ok(()));
}

#[test]
fn a_bare_url_is_never_trusted_without_saying_so() {
    let right = Some(sha256_hex(b"x"));
    assert_eq!(
        authorize(SourceKind::Url, b"x", &right, Signature::Absent, false, false),
        Err(Refusal::UrlUnverifiable)
    );
    assert_eq!(
        authorize(SourceKind::Url, b"x", &right, Signature::Absent, false, true),
        Ok(())
    );
    assert_eq!(
        authorize(SourceKind::Url, b"x", &right, Signature::Absent, true, true),
        Err(Refusal::VerifyNeedsRepo)
    );
    assert_eq!(
        authorize(SourceKind::File, b"x", &None, Signature::Absent, false, false),
        Ok(())
    );
}

#[test]
fn unpacking_is_bounded_in_entries_and_bytes() {
    let mut budget = UnpackBudget::start();
    assert_eq!(budget.charge(MAX_UNPACK_BYTES), Ok(()));
    assert_eq!(budget.charge(0), Ok(()));
    assert_eq!(budget.charge(1), Err(UnpackFault::TooManyBytes));

    let mut budget = UnpackBudget::start();
    for _ in 0..MAX_UNPACK_ENTRIES {
        assert_eq!(budget.charge(0), Ok(()));
    }
    assert_eq!(budget.charge(0), Err(UnpackFault::TooManyEntries));
}
