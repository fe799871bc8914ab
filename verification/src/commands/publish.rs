//! Publishing a pack as a GitHub release.
use vstd::prelude::*;

use crate::commands::bundle::{checksum_line, BuiltArchive};
use crate::commands::get::{asset_named, release_files, AssetView, API_BASE};
use crate::text::{
    chars_of, decimal, decimal_text, occurs_at, split, split_at_separator, split_on,
    split_without_separator, stands_at, string_of, trim, trim_end, trimmed, trimmed_end,
    trimming_an_ending_takes_all_of_it, utf8,
};

verus! {

/// Where release assets are uploaded.
pub const UPLOADS_BASE: &'static str = "https://uploads.github.com";

/// Why no repository can be told.
#[derive(Debug, Clone, Copy, PartialEq, Eq, Structural)]
pub enum RepoError {
    /// Not of the form owner/repo.
    NotOwnerRepo,
    /// The remote is not on github.com.
    NotGitHub,
    /// No repository was given, and there is no `origin` remote.
    NoRemote,
}

/// The owner and the repository that a text of the form owner/repo names.
pub open spec fn owner_repo(s: Seq<char>) -> Option<(Seq<char>, Seq<char>)> {
    let parts = split(s, '/');
    if parts.len() == 2 && parts[0].len() > 0 && parts[1].len() > 0 {
        Some((parts[0], trimmed_end(parts[1], ".git"@)))
    } else {
        None
    }
}

/// Where `part` occurs in `whole` for the last time, at or before position `i`; -1 where it does not.
pub open spec fn last_occurrence(part: Seq<char>, whole: Seq<char>, i: int) -> int
    decreases i + 1,
{
    if i < 0 {
        -1
    } else if occurs_at(part, whole, i) {
        i
    } else {
        last_occurrence(part, whole, i - 1)
    }
}

/// `s` without the colons and slashes that start it.
pub open spec fn without_separators(s: Seq<char>) -> Seq<char>
    decreases s.len(),
{
    if s.len() > 0 && (s[0] == ':' || s[0] == '/') {
        without_separators(s.drop_first())
    } else {
        s
    }
}

/// What follows the last `github.com` of a remote, without the separator.
pub open spec fn remote_tail(url: Seq<char>) -> Option<Seq<char>> {
    let at = last_occurrence("github.com"@, url, url.len() as int);
    if at >= 0 {
        Some(without_separators(url.skip(at + "github.com"@.len())))
    } else {
        None
    }
}

/// The owner and repository of `owner/repo`, with a trailing `.git` dropped.
pub fn parse_owner_repo(s: &str) -> (r: Result<(String, String), RepoError>)
    ensures
        match r {
            Ok((owner, repo)) => owner_repo(s@) == Some((owner@, repo@)),
            Err(e) => owner_repo(s@) is None && e == RepoError::NotOwnerRepo,
        },
{
    let parts = split_on(s, '/');
    let ghost all = parts.deep_view();
    if parts.len() != 2 {
        return Err(RepoError::NotOwnerRepo);
    }
    assert(all[0] == parts@[0]@ && all[1] == parts@[1]@);
    if parts[0].as_str().is_empty() || parts[1].as_str().is_empty() {
        return Err(RepoError::NotOwnerRepo);
    }
    proof {
        reveal_strlit(".git");
    }
    Ok((parts[0].clone(), trim_end(parts[1].as_str(), ".git")))
}

fn find_last_text(whole: &Vec<char>, part: &Vec<char>) -> (r: Option<usize>)
    ensures
        match r {
            Some(i) => last_occurrence(part@, whole@, whole@.len() as int) == i && i + part@.len()
                <= whole@.len(),
            None => last_occurrence(part@, whole@, whole@.len() as int) == -1,
        },
{
    let mut i: usize = whole.len();
    loop
        invariant
            i <= whole@.len(),
            last_occurrence(part@, whole@, whole@.len() as int) == last_occurrence(
                part@,
                whole@,
                i as int,
            ),
        decreases i,
    {
        if stands_at(part, whole, i) {
            return Some(i);
        }
        if i == 0 {
            assert(last_occurrence(part@, whole@, -1) == -1);
            return None;
        }
        i = i - 1;
    }
}

/// Extract owner/repo from a GitHub remote URL (ssh or https form):
/// `git@github.com:owner/repo.git` or `https://github.com/owner/repo(.git)`.
pub fn parse_remote_url(url: &str) -> (r: Result<(String, String), RepoError>)
    ensures
        match r {
            Ok((owner, repo)) => remote_tail(url@) matches Some(tail) && owner_repo(tail) == Some(
                (owner@, repo@),
            ),
            Err(RepoError::NotGitHub) => remote_tail(url@) is None,
            Err(RepoError::NotOwnerRepo) => remote_tail(url@) matches Some(tail) && owner_repo(
                tail,
            ) is None,
            Err(RepoError::NoRemote) => false,
        },
{
    let x = chars_of(url);
    let host = chars_of("github.com");
    match find_last_text(&x, &host) {
        None => Err(RepoError::NotGitHub),
        Some(at) => {
            assert(at + host.len() <= x.len());
            let start: usize = at + host.len();
            let ghost rest = url@.skip(start as int);
            let mut from: usize = start;
            while from < x.len() && (x[from] == ':' || x[from] == '/')
                invariant
                    x@ == url@,
                    start <= from <= x@.len(),
                    without_separators(rest) == without_separators(url@.skip(from as int)),
                decreases x.len() - from,
            {
                assert(url@.skip(from as int).drop_first() =~= url@.skip(from + 1));
                from = from + 1;
            }
            let tail = string_of(&x, from, x.len());
            assert(tail@ =~= url@.skip(from as int));
            parse_owner_repo(tail.as_str())
        },
    }
}

/// The repository to publish to.
pub open spec fn repo_of(explicit: Option<Seq<char>>, remote: Option<Seq<char>>) -> Result<
    (Seq<char>, Seq<char>),
    RepoError,
> {
    match explicit {
        Some(repo) => match owner_repo(repo) {
            Some(r) => Ok(r),
            None => Err(RepoError::NotOwnerRepo),
        },
        None => match remote {
            None => Err(RepoError::NoRemote),
            Some(url) => match remote_tail(trimmed(url)) {
                None => Err(RepoError::NotGitHub),
                Some(tail) => match owner_repo(tail) {
                    Some(r) => Ok(r),
                    None => Err(RepoError::NotOwnerRepo),
                },
            },
        },
    }
}

/// The `owner/repo` to publish to: the explicit `--repo`, else parsed from the `origin` remote, of
/// which `remote` holds what git printed, where it could be read.
pub fn resolve_repo(explicit: &Option<String>, remote: &Option<String>) -> (r: Result<
    (String, String),
    RepoError,
>)
    ensures
        match r {
            Ok((owner, repo)) => repo_of(explicit.deep_view(), remote.deep_view()) == Ok::<
                (Seq<char>, Seq<char>),
                RepoError,
            >((owner@, repo@)),
            Err(e) => repo_of(explicit.deep_view(), remote.deep_view()) == Err::<
                (Seq<char>, Seq<char>),
                RepoError,
            >(e),
        },
{
    match explicit {
        Some(repo) => parse_owner_repo(repo.as_str()),
        None => match remote {
            None => Err(RepoError::NoRemote),
            Some(url) => parse_remote_url(trim(url.as_str()).as_str()),
        },
    }
}

/// The token to publish with; an empty one counts as missing.
pub fn token_from(env: Option<String>) -> (r: Option<String>)
    ensures
        r.deep_view() == (match env {
            Some(t) if t@.len() > 0 => Some(t@),
            _ => None,
        }),
{
    match env {
        Some(t) => {
            if t.as_str().is_empty() {
                None
            } else {
                Some(t)
            }
        },
        None => None,
    }
}

// ---- the API ----------------------------------------------------------------------------------

/// The GitHub releases of one repo.
#[derive(Debug)]
pub struct Gh {
    pub owner: String,
    pub repo: String,
}

impl Gh {
    pub open spec fn releases(&self) -> Seq<char> {
        "/repos/"@ + self.owner@ + "/"@ + self.repo@ + "/releases"@
    }

    fn releases_path(&self) -> (r: String)
        ensures
            r@ == self.releases(),
    {
        let mut path = "/repos/".to_owned();
        path.append(self.owner.as_str());
        path.append("/");
        path.append(self.repo.as_str());
        path.append("/releases");
        path
    }

    /// Where to ask for the release of a tag.
    pub fn tag_url(&self, tag: &str) -> (r: String)
        ensures
            r@ == API_BASE@ + self.releases() + "/tags/"@ + tag@,
    {
        let mut url = API_BASE.to_owned();
        url.append(self.releases_path().as_str());
        url.append("/tags/");
        url.append(tag);
        url
    }

    /// Where to create a release.
    pub fn create_url(&self) -> (r: String)
        ensures
            r@ == API_BASE@ + self.releases(),
    {
        let mut url = API_BASE.to_owned();
        url.append(self.releases_path().as_str());
        url
    }

    /// Where to upload an asset.
    pub fn upload_url(&self, release_id: u64, name: &str) -> (r: String)
        ensures
            r@ == UPLOADS_BASE@ + self.releases() + "/"@ + decimal(release_id as nat)
                + "/assets?name="@ + name@,
    {
        let mut url = UPLOADS_BASE.to_owned();
        url.append(self.releases_path().as_str());
        url.append("/");
        url.append(decimal_text(release_id).as_str());
        url.append("/assets?name=");
        url.append(name);
        url
    }
}

/// A file to upload to a release.
#[derive(Debug)]
pub struct Upload {
    pub name: String,
    pub content_type: String,
    pub body: Vec<u8>,
}

#[verifier::ext_equal]
pub struct UploadView {
    pub name: Seq<char>,
    pub content_type: Seq<char>,
    pub body: Seq<u8>,
}

impl DeepView for Upload {
    type V = UploadView;

    open spec fn deep_view(&self) -> UploadView {
        UploadView { name: self.name@, content_type: self.content_type@, body: self.body@ }
    }
}

/// The files to upload: the archive, its checksum, and its signature where there is one.
pub open spec fn uploads_of(
    filename: Seq<char>,
    targz: Seq<u8>,
    digest: Seq<char>,
    signature: Option<Seq<u8>>,
) -> Seq<UploadView> {
    let plain = seq![
        UploadView { name: filename, content_type: "application/gzip"@, body: targz },
        UploadView {
            name: filename + ".sha256"@,
            content_type: "text/plain"@,
            body: utf8(checksum_line(digest, filename)),
        },
    ];
    match signature {
        Some(bundle) => plain.push(
            UploadView {
                name: filename + ".sigstore"@,
                content_type: "application/json"@,
                body: bundle,
            },
        ),
        None => plain,
    }
}

/// The files to upload to a release: the artifact, then its checksum (the checksum is the
/// consumer's trust anchor), then the signature where the archive was signed.
pub fn uploads(built: BuiltArchive, signature: Option<Vec<u8>>) -> (r: Vec<Upload>)
    ensures
        r.deep_view() == uploads_of(
            built.filename@,
            built.targz@,
            built.digest@,
            match signature {
                Some(bundle) => Some(bundle@),
                None => None,
            },
        ),
{
    let mut out: Vec<Upload> = Vec::new();
    let line = built.checksum_file();
    let checksum = Upload {
        name: built.checksum_filename(),
        content_type: "text/plain".to_owned(),
        body: line.as_str().as_bytes_vec(),
    };
    let mut signature_name = built.filename.clone();
    signature_name.append(".sigstore");
    out.push(
        Upload {
            name: built.filename,
            content_type: "application/gzip".to_owned(),
            body: built.targz,
        },
    );
    out.push(checksum);
    match signature {
        Some(bundle) => {
            out.push(
                Upload {
                    name: signature_name,
                    content_type: "application/json".to_owned(),
                    body: bundle,
                },
            );
        },
        None => {},
    }
    assert(out.deep_view() =~= uploads_of(
        built.filename@,
        built.targz@,
        built.digest@,
        match signature {
            Some(bundle) => Some(bundle@),
            None => None,
        },
    ));
    out
}

// ---- laws -------------------------------------------------------------------------------------

/// A release that was published is fetched as it was published: of its assets, the archive, its
/// checksum and its signature are found.
pub proof fn published_release_is_found(
    filename: Seq<char>,
    targz: Seq<u8>,
    digest: Seq<char>,
    signature: Option<Seq<u8>>,
    assets: Seq<AssetView>,
)
    requires
        ".tar.gz"@.is_suffix_of(filename),
        assets.len() == uploads_of(filename, targz, digest, signature).len(),
        forall|i: int|
            0 <= i < assets.len() ==> (#[trigger] assets[i]).name == uploads_of(
                filename,
                targz,
                digest,
                signature,
            )[i].name,
    ensures
        release_files(assets) matches Some(files) && files.archive == assets[0].url
            && files.checksum == Some(assets[1].url) && files.signature == (if signature is Some {
            Some(assets[2].url)
        } else {
            None
        }),
{
    reveal_strlit(".sha256");
    reveal_strlit(".sigstore");
    reveal_with_fuel(asset_named, 4);
    let uploads = uploads_of(filename, targz, digest, signature);
    assert(assets[0].name == uploads[0].name);
    assert(assets[1].name == uploads[1].name);
    let checksum = filename + ".sha256"@;
    let bundle = filename + ".sigstore"@;
    assert(checksum.len() == filename.len() + 7);
    assert(bundle.len() == filename.len() + 9);
    if signature is Some {
        assert(assets[2].name == uploads[2].name);
    }
}

/// An owner and a repository are told by the slash between them, with or without `.git` at the end;
/// anything else is refused.
pub proof fn a_repository_is_told_by_its_slash(owner: Seq<char>, repo: Seq<char>, git: bool)
    requires
        !owner.contains('/'),
        !repo.contains('/'),
        repo.len() > 0,
        !".git"@.is_suffix_of(repo),
    ensures
        ({
            let end = if git {
                ".git"@
            } else {
                Seq::empty()
            };
            &&& owner.len() > 0 ==> owner_repo(owner + "/"@ + (repo + end)) == Some((owner, repo))
            &&& owner.len() == 0 ==> owner_repo(owner + "/"@ + (repo + end)) is None
            &&& owner_repo(repo) is None
        }),
{
    reveal_strlit("/");
    reveal_strlit(".git");
    assert("/"@ =~= seq!['/']);
    let end = if git {
        ".git"@
    } else {
        Seq::empty()
    };
    let name = repo + end;
    assert forall|i: int| 0 <= i < name.len() implies name[i] != '/' by {
        if i < repo.len() {
            assert(repo.contains(repo[i]));
        }
    }
    assert(!name.contains('/'));
    assert(owner + "/"@ + name =~= owner.push('/') + name);
    split_at_separator(owner, '/', name);
    split_without_separator(name, '/');
    split_without_separator(repo, '/');
    assert(split(owner + "/"@ + name, '/') =~= seq![owner, name]);
    trimming_an_ending_takes_all_of_it(repo, ".git"@);
    if !git {
        assert(name =~= repo);
    }
}

/// The repository of a remote is what stands behind the last `github.com` in its URL, behind a colon or a
/// slash; the repository that is named explicitly wins.
pub proof fn a_remote_names_its_repository(
    url: Seq<char>,
    lead: Seq<char>,
    sep: char,
    owner: Seq<char>,
    repo: Seq<char>,
    explicit: Option<Seq<char>>,
)
    requires
        sep == ':' || sep == '/',
        owner.len() > 0,
        repo.len() > 0,
        !owner.contains('/') && !owner.contains(':'),
        !repo.contains('/'),
        !".git"@.is_suffix_of(repo),
        url == lead + "github.com"@ + (seq![sep] + (owner + "/"@ + repo)),
        trimmed(url) == url,
        forall|j: int| j > lead.len() ==> !#[trigger] occurs_at("github.com"@, url, j),
    ensures
        repo_of(None, Some(url)) == Ok::<(Seq<char>, Seq<char>), RepoError>((owner, repo)),
        explicit is Some ==> repo_of(explicit, Some(url)) == repo_of(explicit, None),
        repo_of(None, None) is Err,
{
    let tail = owner + "/"@ + repo;
    let mark = "github.com"@;
    assert(url.subrange(lead.len() as int, (lead.len() + mark.len()) as int) =~= mark);
    assert(occurs_at(mark, url, lead.len() as int));
    last_one_is_found(mark, url, url.len() as int, lead.len() as int);
    let behind = url.skip((lead.len() + mark.len()) as int);
    assert(behind =~= seq![sep] + tail);
    assert(behind.drop_first() =~= tail);
    assert(tail[0] == owner[0]);
    assert(owner.contains(owner[0]));
    reveal_with_fuel(without_separators, 3);
    assert(without_separators(behind) == tail);
    a_repository_is_told_by_its_slash(owner, repo, false);
    assert(repo + Seq::<char>::empty() =~= repo);
}

proof fn last_one_is_found(part: Seq<char>, whole: Seq<char>, from: int, at: int)
    requires
        0 <= at <= from,
        occurs_at(part, whole, at),
        forall|j: int| j > at ==> !#[trigger] occurs_at(part, whole, j),
    ensures
        last_occurrence(part, whole, from) == at,
    decreases from - at,
{
    if from > at {
        last_one_is_found(part, whole, from - 1, at);
    }
}

/// A repository that is named explicitly is taken as it is named.
pub proof fn a_named_repository_is_taken(
    owner: Seq<char>,
    repo: Seq<char>,
    remote: Option<Seq<char>>,
)
    requires
        owner.len() > 0,
        repo.len() > 0,
        !owner.contains('/'),
        !repo.contains('/'),
        !".git"@.is_suffix_of(repo),
    ensures
        repo_of(Some(owner + "/"@ + repo), remote) == Ok::<(Seq<char>, Seq<char>), RepoError>(
            (owner, repo),
        ),
{
    a_repository_is_told_by_its_slash(owner, repo, false);
    assert(repo + Seq::<char>::empty() =~= repo);
}

/// What is uploaded is the archive, its checksum under the archive's name, and its signature where there
/// is one, each as it is.
pub proof fn the_archive_is_uploaded_with_its_proofs(
    filename: Seq<char>,
    targz: Seq<u8>,
    digest: Seq<char>,
    signature: Option<Seq<u8>>,
)
    ensures
        ({
            let files = uploads_of(filename, targz, digest, signature);
            &&& files.len() == (if signature is Some {
                3int
            } else {
                2int
            })
            &&& files[0].content_type == "application/gzip"@ && files[1].content_type
                == "text/plain"@
            &&& signature is Some ==> files[2].content_type == "application/json"@
            &&& files[0].name == filename && files[0].body == targz
            &&& files[1].name == filename + ".sha256"@ && files[1].body == utf8(
                digest + "  "@ + filename + "\n"@,
            )
            &&& signature matches Some(bundle) ==> files[2].name == filename + ".sigstore"@
                && files[2].body == bundle
        }),
{
}

/// A token counts only where it is not empty.
pub proof fn an_empty_token_is_none(env: Option<String>, r: Option<String>)
    requires
        call_ensures(token_from, (env,), r),
    ensures
        env is None || env->0@.len() == 0 ==> r is None,
        env is Some && env->0@.len() > 0 ==> r.deep_view() == env.deep_view(),
{
}

/// The releases of a repository stand at its own address: a release is created there, found below it by its
/// tag, and given its files below it by its number, under the host for uploads.
pub proof fn releases_stand_under_their_repository(
    gh: &Gh,
    tag: &str,
    release: u64,
    name: &str,
    created: String,
    tagged: String,
    upload: String,
)
    requires
        call_ensures(Gh::create_url, (gh,), created),
        call_ensures(Gh::tag_url, (gh, tag), tagged),
        call_ensures(Gh::upload_url, (gh, release, name), upload),
    ensures
        ({
            let repository = "/repos/"@ + (gh.owner@ + "/"@ + gh.repo@);
            &&& created@ == "https://api.github.com"@ + (repository + "/releases"@)
            &&& tagged@ == created@ + ("/tags/"@ + tag@)
            &&& upload@ == "https://uploads.github.com"@ + (repository + "/releases"@) + ("/"@
                + decimal(release as nat) + ("/assets?name="@ + name@))
        }),
{
    let repository = "/repos/"@ + (gh.owner@ + "/"@ + gh.repo@);
    assert(created@ =~= "https://api.github.com"@ + (repository + "/releases"@));
    assert(tagged@ =~= created@ + ("/tags/"@ + tag@));
    assert(upload@ =~= "https://uploads.github.com"@ + (repository + "/releases"@) + ("/"@
        + decimal(release as nat) + ("/assets?name="@ + name@)));
}

} // verus!
