use lode::commands::publish::{
    parse_owner_repo, parse_remote_url, resolve_repo, token_from, Gh, RepoError,
};

#[test]
fn parses_owner_repo() {
    assert_eq!(
        parse_owner_repo("giovani-freitag/vestige").unwrap(),
        ("giovani-freitag".into(), "vestige".into())
    );
    assert!(parse_owner_repo("nope").is_err());
    assert!(parse_owner_repo("a/b/c").is_err());
}

#[test]
fn parses_ssh_and_https_remotes() {
    let expected = ("giovani-freitag".to_string(), "vestige".to_string());
    assert_eq!(
        parse_remote_url("git@github.com:giovani-freitag/vestige.git").unwrap(),
        expected
    );
    assert_eq!(
        parse_remote_url("https://github.com/giovani-freitag/vestige.git").unwrap(),
        expected
    );
    assert_eq!(
        parse_remote_url("https://github.com/giovani-freitag/vestige").unwrap(),
        expected
    );
    assert!(parse_remote_url("https://gitlab.com/x/y").is_err());
}

#[test]
fn an_explicit_repo_wins_over_the_remote() {
    let some = |s: &str| Some(s.to_string());
    let remote = some("git@github.com:c/d.git");
    assert_eq!(
        resolve_repo(&some("a/b"), &remote).unwrap(),
        ("a".to_string(), "b".to_string())
    );
    assert_eq!(resolve_repo(&None, &remote).unwrap(), ("c".to_string(), "d".to_string()));
    assert_eq!(resolve_repo(&None, &None), Err(RepoError::NoRemote));
    assert_eq!(resolve_repo(&some("a"), &remote), Err(RepoError::NotOwnerRepo));
    assert_eq!(
        resolve_repo(&None, &some("https://gitlab.com/x/y")),
        Err(RepoError::NotGitHub)
    );
}

#[test]
fn an_empty_token_is_none() {
    assert_eq!(token_from(Some("t".to_string())).as_deref(), Some("t"));
    assert_eq!(token_from(Some(String::new())), None);
    assert_eq!(token_from(None), None);
}

#[test]
fn release_endpoints() {
    let gh = Gh {
        owner: "a".to_string(),
        repo: "b".to_string(),
    };
    assert_eq!(gh.tag_url("v1"), "https://api.github.com/repos/a/b/releases/tags/v1");
    assert_eq!(gh.create_url(), "https://api.github.com/repos/a/b/releases");
    assert_eq!(
        gh.upload_url(17, "p.tar.gz"),
        "https://uploads.github.com/repos/a/b/releases/17/assets?name=p.tar.gz"
    );
}
