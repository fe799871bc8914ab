//! Fetching a published pack: where it comes from, and whether it can be trusted.
use vstd::prelude::*;

use crate::cli::GetArgs;
use crate::hash::{hex_of, sha256_digest, sha256_hex};
use crate::text::{
    all_white, chars_of, ends_with, find_char, first_of, has_char, is_white, keep_nonempty, nonempty,
    same, split, split_at_separator, split_on, split_without_separator, starts_with, string_of,
    strip_prefix, strip_suffix, trim_end, trimmed_end, white,
};

verus! {

/// Where the GitHub API is served.
pub const API_BASE: &'static str = "https://api.github.com";

/// The OIDC issuer that a signature must come from.
pub const GITHUB_ACTIONS_ISSUER: &'static str = "https://token.actions.githubusercontent.com";

/// The most bytes a pack archive may expand to. A lode pack is a manifest, a lock, and config:
/// kilobytes to a few megabytes. The ceiling exists only so a gzip bomb can't expand a tiny
/// download into an enormous on-disk write.
pub const MAX_UNPACK_BYTES: u64 = 2 * 1024 * 1024 * 1024;

/// The most entries a pack archive may contain, so a "many tiny files" bomb can't exhaust inodes or
/// spin the loop indefinitely regardless of the byte total.
pub const MAX_UNPACK_ENTRIES: u64 = 20_000;

// ---- the source -------------------------------------------------------------------------------

/// Where the bytes of a published pack came from: the trust story differs per source.
#[derive(Debug)]
pub enum Source {
    /// A GitHub release: `owner/repo[@tag]`. The release checksum is the trust anchor.
    GitHub { owner: String, repo: String, tag: Option<String> },
    /// A direct URL to a `.tar.gz`. A sibling `<url>.sha256` is used if present.
    Url(String),
    /// A local tarball. No external anchor exists: provenance is unknown.
    File(String),
}

/// A parsed repo reference: the host is **mandatory** so the source is never guessed: no default
/// platform, no GitHub-then-GitLab fallback (which would be ambiguous and a trust hazard).
#[derive(Debug)]
pub struct Ref {
    pub host: String,
    pub owner: String,
    pub repo: String,
    pub tag: Option<String>,
}

/// Why no source can be told from the arguments.
#[derive(Debug)]
pub enum SourceError {
    /// Not exactly one source was given.
    NotOneSource,
    /// The reference has no host.
    NoHost,
    /// The reference is not of the form host/owner/repo[@tag].
    Malformed,
    /// This host is not supported.
    UnsupportedHost(String),
    /// The URL is not https.
    NotHttps,
}

#[verifier::ext_equal]
pub enum SourceView {
    GitHub { owner: Seq<char>, repo: Seq<char>, tag: Option<Seq<char>> },
    Url(Seq<char>),
    File(Seq<char>),
}

#[verifier::ext_equal]
pub struct RefView {
    pub host: Seq<char>,
    pub owner: Seq<char>,
    pub repo: Seq<char>,
    pub tag: Option<Seq<char>>,
}

#[verifier::ext_equal]
pub enum SourceFault {
    NotOneSource,
    NoHost,
    Malformed,
    UnsupportedHost(Seq<char>),
    NotHttps,
}

impl View for Source {
    type V = SourceView;

    open spec fn view(&self) -> SourceView {
        match self {
            Source::GitHub { owner, repo, tag } => SourceView::GitHub {
                owner: owner@,
                repo: repo@,
                tag: tag.deep_view(),
            },
            Source::Url(url) => SourceView::Url(url@),
            Source::File(path) => SourceView::File(path@),
        }
    }
}

impl View for Ref {
    type V = RefView;

    open spec fn view(&self) -> RefView {
        RefView {
            host: self.host@,
            owner: self.owner@,
            repo: self.repo@,
            tag: self.tag.deep_view(),
        }
    }
}

impl View for SourceError {
    type V = SourceFault;

    open spec fn view(&self) -> SourceFault {
        match self {
            SourceError::NotOneSource => SourceFault::NotOneSource,
            SourceError::NoHost => SourceFault::NoHost,
            SourceError::Malformed => SourceFault::Malformed,
            SourceError::UnsupportedHost(host) => SourceFault::UnsupportedHost(host@),
            SourceError::NotHttps => SourceFault::NotHttps,
        }
    }
}

/// The reference without a scheme and without slashes at the end.
pub open spec fn without_scheme(reference: Seq<char>) -> Seq<char> {
    trimmed_end(
        if "https://"@.is_prefix_of(reference) {
            reference.skip("https://"@.len() as int)
        } else if "http://"@.is_prefix_of(reference) {
            reference.skip("http://"@.len() as int)
        } else {
            reference
        },
        "/"@,
    )
}

/// What a reference stands for: host, owner and repo between slashes, and what follows the first at
/// sign as the tag.
pub open spec fn reference_of(reference: Seq<char>) -> Result<RefView, SourceFault> {
    let s = without_scheme(reference);
    let at = first_of(s, '@');
    let tag = if at < s.len() {
        Some(s.skip(at + 1))
    } else {
        None
    };
    let parts = nonempty(split(s.take(at), '/'));
    if parts.len() == 3 && parts[0].contains('.') {
        Ok(
            RefView {
                host: parts[0],
                owner: parts[1],
                repo: trimmed_end(parts[2], ".git"@),
                tag,
            },
        )
    } else if parts.len() == 2 {
        Err(SourceFault::NoHost)
    } else {
        Err(SourceFault::Malformed)
    }
}

/// The source that the arguments name.
pub open spec fn source_of(
    reference: Option<Seq<char>>,
    from_url: Option<Seq<char>>,
    from_file: Option<Seq<char>>,
) -> Result<SourceView, SourceFault> {
    match (reference, from_url, from_file) {
        (Some(r), None, None) => match reference_of(r) {
            Ok(parsed) => if parsed.host == "github.com"@ {
                Ok(
                    SourceView::GitHub { owner: parsed.owner, repo: parsed.repo, tag: parsed.tag },
                )
            } else {
                Err(SourceFault::UnsupportedHost(parsed.host))
            },
            Err(e) => Err(e),
        },
        (None, Some(url), None) => if "https://"@.is_prefix_of(url) {
            Ok(SourceView::Url(url))
        } else {
            Err(SourceFault::NotHttps)
        },
        (None, None, Some(path)) => Ok(SourceView::File(path)),
        _ => Err(SourceFault::NotOneSource),
    }
}

fn strip_scheme(reference: &str) -> (r: String)
    ensures
        r@ == without_scheme(reference@),
{
    proof {
        reveal_strlit("/");
    }
    let bare = match strip_prefix(reference, "https://") {
        Some(rest) => rest,
        None => match strip_prefix(reference, "http://") {
            Some(rest) => rest,
            None => reference.to_owned(),
        },
    };
    trim_end(bare.as_str(), "/")
}

/// Parse `host/owner/repo[@tag]` (or the same as an `https://` URL) into its parts. Requires the
/// host (e.g. `github.com/owner/repo`, à la `go get`); a bare `owner/repo` is rejected. The host is
/// the first segment and always contains a dot.
pub fn parse_reference(reference: &str) -> (r: Result<Ref, SourceError>)
    ensures
        match r {
            Ok(parsed) => reference_of(reference@) == Ok::<RefView, SourceFault>(parsed@),
            Err(e) => reference_of(reference@) == Err::<RefView, SourceFault>(e@),
        },
{
    let stripped = strip_scheme(reference);
    let x = chars_of(stripped.as_str());
    let at = find_char(&x, '@');
    let tag = if at < x.len() {
        let t = string_of(&x, at + 1, x.len());
        assert(t@ =~= stripped@.skip(at + 1));
        Some(t)
    } else {
        None
    };
    let path = string_of(&x, 0, at);
    assert(path@ =~= stripped@.take(at as int));
    let parts = keep_nonempty(split_on(path.as_str(), '/'));
    let ghost all = parts.deep_view();
    if parts.len() == 3 {
        assert(all[0] == parts@[0]@ && all[1] == parts@[1]@ && all[2] == parts@[2]@);
        if has_char(parts[0].as_str(), '.') {
            proof {
                reveal_strlit(".git");
            }
            return Ok(
                Ref {
                    host: parts[0].clone(),
                    owner: parts[1].clone(),
                    repo: trim_end(parts[2].as_str(), ".git"),
                    tag,
                },
            );
        }
        return Err(SourceError::Malformed);
    }
    if parts.len() == 2 {
        return Err(SourceError::NoHost);
    }
    Err(SourceError::Malformed)
}

/// Exactly one source must be given: a `host/owner/repo[@tag]` reference, `--from-url`, or
/// `--from-file`. The host decides the provider, explicitly, never guessed; only GitHub for now. A
/// URL is https-only, consistent with the download guard.
pub fn pick_source(args: &GetArgs) -> (r: Result<Source, SourceError>)
    ensures
        match r {
            Ok(source) => source_of(
                args.reference.deep_view(),
                args.from_url.deep_view(),
                args.from_file.deep_view(),
            ) == Ok::<SourceView, SourceFault>(source@),
            Err(e) => source_of(
                args.reference.deep_view(),
                args.from_url.deep_view(),
                args.from_file.deep_view(),
            ) == Err::<SourceView, SourceFault>(e@),
        },
{
    match (&args.reference, &args.from_url, &args.from_file) {
        (Some(reference), None, None) => match parse_reference(reference.as_str()) {
            Ok(parsed) => {
                if !same(parsed.host.as_str(), "github.com") {
                    return Err(SourceError::UnsupportedHost(parsed.host));
                }
                Ok(Source::GitHub { owner: parsed.owner, repo: parsed.repo, tag: parsed.tag })
            },
            Err(e) => Err(e),
        },
        (None, Some(url), None) => {
            if !starts_with(url.as_str(), "https://") {
                return Err(SourceError::NotHttps);
            }
            Ok(Source::Url(url.clone()))
        },
        (None, None, Some(path)) => Ok(Source::File(path.clone())),
        _ => Err(SourceError::NotOneSource),
    }
}

// ---- the release ------------------------------------------------------------------------------

/// A published GitHub release.
#[derive(Debug)]
pub struct Release {
    pub assets: Vec<Asset>,
}

#[derive(Debug)]
pub struct Asset {
    pub name: String,
    /// The API asset URL (not `browser_download_url`): with `Accept: octet-stream` + a token it
    /// downloads private-repo assets too.
    pub url: String,
}

#[verifier::ext_equal]
pub struct AssetView {
    pub name: Seq<char>,
    pub url: Seq<char>,
}

impl DeepView for Asset {
    type V = AssetView;

    open spec fn deep_view(&self) -> AssetView {
        AssetView { name: self.name@, url: self.url@ }
    }
}

/// The files of a release to download: the archive, and its checksum and signature where there are.
#[derive(Debug)]
pub struct ReleaseFiles {
    pub archive: String,
    pub checksum: Option<String>,
    pub signature: Option<String>,
}

#[verifier::ext_equal]
pub struct ReleaseFilesView {
    pub archive: Seq<char>,
    pub checksum: Option<Seq<char>>,
    pub signature: Option<Seq<char>>,
}

impl View for ReleaseFiles {
    type V = ReleaseFilesView;

    open spec fn view(&self) -> ReleaseFilesView {
        ReleaseFilesView {
            archive: self.archive@,
            checksum: self.checksum.deep_view(),
            signature: self.signature.deep_view(),
        }
    }
}

/// The first asset whose name ends in `.tar.gz`, from position `i` on.
pub open spec fn archive_from(assets: Seq<AssetView>, i: int) -> Option<AssetView>
    decreases assets.len() - i,
{
    if !(0 <= i < assets.len()) {
        None
    } else if ".tar.gz"@.is_suffix_of(assets[i].name) {
        Some(assets[i])
    } else {
        archive_from(assets, i + 1)
    }
}

/// The URL of the first asset with the given name, from position `i` on.
pub open spec fn asset_named(assets: Seq<AssetView>, name: Seq<char>, i: int) -> Option<Seq<char>>
    decreases assets.len() - i,
{
    if !(0 <= i < assets.len()) {
        None
    } else if assets[i].name == name {
        Some(assets[i].url)
    } else {
        asset_named(assets, name, i + 1)
    }
}

/// The files of a release to download. The checksum and the signature carry the archive's own name.
pub open spec fn release_files(assets: Seq<AssetView>) -> Option<ReleaseFilesView> {
    match archive_from(assets, 0) {
        None => None,
        Some(archive) => Some(
            ReleaseFilesView {
                archive: archive.url,
                checksum: asset_named(assets, archive.name + ".sha256"@, 0),
                signature: asset_named(assets, archive.name + ".sigstore"@, 0),
            },
        ),
    }
}

fn find_asset(assets: &Vec<Asset>, name: &str) -> (r: Option<String>)
    ensures
        r.deep_view() == asset_named(assets.deep_view(), name@, 0),
{
    let ghost all = assets.deep_view();
    let mut i: usize = 0;
    while i < assets.len()
        invariant
            all == assets.deep_view(),
            i <= assets@.len(),
            asset_named(all, name@, 0) == asset_named(all, name@, i as int),
        decreases assets.len() - i,
    {
        assert(all[i as int] == assets@[i as int].deep_view());
        if same(assets[i].name.as_str(), name) {
            return Some(assets[i].url.clone());
        }
        i = i + 1;
    }
    None
}

/// Where to ask for a GitHub release: the one with the tag, or else the latest.
pub fn release_url(owner: &str, repo: &str, tag: &Option<String>) -> (r: String)
    ensures
        r@ == API_BASE@ + "/repos/"@ + owner@ + "/"@ + repo@ + (match tag {
            Some(t) => "/releases/tags/"@ + t@,
            None => "/releases/latest"@,
        }),
{
    let mut url = API_BASE.to_owned();
    url.append("/repos/");
    url.append(owner);
    url.append("/");
    url.append(repo);
    match tag {
        Some(t) => {
            let mut tail = "/releases/tags/".to_owned();
            tail.append(t.as_str());
            url.append(tail.as_str());
        },
        None => {
            url.append("/releases/latest");
        },
    }
    url
}

/// Which files of a GitHub release to download: its first `.tar.gz` asset and, the trust anchor,
/// its `.sha256` sibling, and its `.sigstore` sibling. Nothing where it has no `.tar.gz` asset.
pub fn fetch_github(release: &Release) -> (r: Option<ReleaseFiles>)
    ensures
        match r {
            Some(files) => release_files(release.assets.deep_view()) == Some(files@),
            None => release_files(release.assets.deep_view()) is None,
        },
{
    let ghost all = release.assets.deep_view();
    let mut i: usize = 0;
    while i < release.assets.len()
        invariant
            all == release.assets.deep_view(),
            i <= release.assets@.len(),
            archive_from(all, 0) == archive_from(all, i as int),
        decreases release.assets.len() - i,
    {
        assert(all[i as int] == release.assets@[i as int].deep_view());
        let asset = &release.assets[i];
        if ends_with(asset.name.as_str(), ".tar.gz") {
            let mut checksum = asset.name.clone();
            checksum.append(".sha256");
            let mut signature = asset.name.clone();
            signature.append(".sigstore");
            return Some(
                ReleaseFiles {
                    archive: asset.url.clone(),
                    checksum: find_asset(&release.assets, checksum.as_str()),
                    signature: find_asset(&release.assets, signature.as_str()),
                },
            );
        }
        i = i + 1;
    }
    None
}

/// Where the checksum of an archive with a direct URL is looked for.
pub fn checksum_url(url: &str) -> (r: String)
    ensures
        r@ == url@ + ".sha256"@,
{
    let mut out = url.to_owned();
    out.append(".sha256");
    out
}

/// The name without `.tar.gz`, or else without `.tgz`.
pub open spec fn archive_stem(name: Seq<char>) -> Seq<char> {
    if ".tar.gz"@.is_suffix_of(name) {
        name.take(name.len() - ".tar.gz"@.len())
    } else if ".tgz"@.is_suffix_of(name) {
        name.take(name.len() - ".tgz"@.len())
    } else {
        name
    }
}

/// The `.tar.gz`/`.tgz`-stripped basename of a path, for a default target directory name.
/// `file_name` is the last component of the path, by the rules of the platform.
pub fn stem_of(file_name: Option<&str>) -> (r: String)
    ensures
        r@ == archive_stem(
            match file_name {
                Some(name) => name@,
                None => "pack"@,
            },
        ),
{
    let name = match file_name {
        Some(name) => name,
        None => "pack",
    };
    match strip_suffix(name, ".tar.gz") {
        Some(stem) => stem,
        None => match strip_suffix(name, ".tgz") {
            Some(stem) => stem,
            None => name.to_owned(),
        },
    }
}

// ---- the checksum -----------------------------------------------------------------------------

pub open spec fn hexadecimal(c: char) -> bool {
    '0' <= c <= '9' || 'a' <= c <= 'f' || 'A' <= c <= 'F'
}

/// Where the run of characters without white space that goes on at `i` ends.
pub open spec fn word_end(s: Seq<char>, i: int) -> int
    decreases s.len() - i,
{
    if 0 <= i < s.len() && !white(s[i]) {
        word_end(s, i + 1)
    } else {
        i
    }
}

/// Where the white space that goes on at `i` ends.
pub open spec fn gap_end(s: Seq<char>, i: int) -> int
    decreases s.len() - i,
{
    if 0 <= i < s.len() && white(s[i]) {
        gap_end(s, i + 1)
    } else {
        i
    }
}

/// The first word of a text; empty where it holds white space alone.
pub open spec fn first_word(s: Seq<char>) -> Seq<char> {
    s.subrange(gap_end(s, 0), word_end(s, gap_end(s, 0)))
}

/// The checksum that a text holds: its first word, where that is a row of hexadecimal digits.
pub open spec fn checksum_in(s: Seq<char>) -> Option<Seq<char>> {
    let word = first_word(s);
    if word.len() > 0 && forall|i: int| 0 <= i < word.len() ==> hexadecimal(#[trigger] word[i]) {
        Some(word)
    } else {
        None
    }
}

/// The hash from a `sha256sum`-format line (`<hash>  <filename>`): the first whitespace-delimited
/// token, but only when it's a non-empty run of hex digits. Empty or garbage input yields `None`,
/// so a broken sibling `.sha256` (e.g. a CDN 200 error page) counts as "no usable checksum" and is
/// handled by the single authenticity gate rather than being mistaken for a real checksum.
pub fn parse_checksum(text: &str) -> (r: Option<String>)
    ensures
        r.deep_view() == checksum_in(text@),
{
    let x = chars_of(text);
    let ghost s = text@;
    let mut start: usize = 0;
    while start < x.len() && is_white(x[start])
        invariant
            x@ == s,
            start <= x@.len(),
            gap_end(s, 0) == gap_end(s, start as int),
        decreases x.len() - start,
    {
        start = start + 1;
    }
    assert(start == gap_end(s, 0));
    let mut end: usize = start;
    let mut hex = true;
    while end < x.len() && !is_white(x[end])
        invariant
            x@ == s,
            start <= end <= x@.len(),
            word_end(s, start as int) == word_end(s, end as int),
            hex == forall|i: int| start <= i < end ==> hexadecimal(#[trigger] s[i]),
        decreases x.len() - end,
    {
        let c = x[end];
        hex = hex && (('0' <= c && c <= '9') || ('a' <= c && c <= 'f') || ('A' <= c && c <= 'F'));
        end = end + 1;
    }
    let ghost word = first_word(s);
    assert(word == s.subrange(start as int, end as int));
    if start == end {
        return None;
    }
    if hex {
        assert(forall|i: int| 0 <= i < word.len() ==> hexadecimal(#[trigger] word[i]));
        Some(string_of(&x, start, end))
    } else {
        proof {
            let i = choose|i: int| start <= i < end && !hexadecimal(#[trigger] s[i]);
            assert(!hexadecimal(word[i - start]));
        }
        None
    }
}

// ---- trust ------------------------------------------------------------------------------------

/// Which kind of source a pack came from.
#[derive(Debug, Clone, Copy, PartialEq, Eq, Structural)]
pub enum SourceKind {
    GitHub,
    Url,
    File,
}

/// What is known of the signature of an archive.
#[derive(Debug, Clone, Copy, PartialEq, Eq, Structural)]
pub enum Signature {
    /// The source offers none.
    Absent,
    /// It is one of a workflow in the source's repository.
    Valid,
    /// It could not be verified.
    Invalid,
}

/// Why a fetched pack is refused.
#[derive(Debug, Clone, Copy, PartialEq, Eq, Structural)]
pub enum Refusal {
    /// The archive is not the one that the checksum was made of.
    ChecksumMismatch,
    /// The signature could not be verified.
    BadSignature,
    /// A signature is demanded and the release has none.
    NoSignature,
    /// A signature is demanded of a source that cannot have one.
    VerifyNeedsRepo,
    /// A pack from a URL cannot be verified.
    UrlUnverifiable,
    /// Neither a verified checksum nor a valid signature.
    Unverifiable,
}

/// Why the archive is refused for its checksum.
pub open spec fn checksum_refusal(targz: Seq<u8>, checksum: Option<Seq<char>>) -> Option<Refusal> {
    match checksum {
        Some(expected) if hex_of(sha256_digest(targz)) != expected => Some(
            Refusal::ChecksumMismatch,
        ),
        _ => None,
    }
}

/// Why the archive is refused for its signature.
pub open spec fn signature_refusal(
    kind: SourceKind,
    signature: Signature,
    verify: bool,
    insecure: bool,
) -> Option<Refusal> {
    if kind == SourceKind::GitHub {
        match signature {
            Signature::Valid => None,
            Signature::Invalid => if insecure && !verify {
                None
            } else {
                Some(Refusal::BadSignature)
            },
            Signature::Absent => if verify {
                Some(Refusal::NoSignature)
            } else {
                None
            },
        }
    } else if verify {
        Some(Refusal::VerifyNeedsRepo)
    } else {
        None
    }
}

/// Why the archive is refused for want of provenance.
pub open spec fn provenance_refusal(
    kind: SourceKind,
    checksum_ok: bool,
    signature_ok: bool,
    insecure: bool,
) -> Option<Refusal> {
    match kind {
        SourceKind::File => None,
        SourceKind::Url => if insecure {
            None
        } else {
            Some(Refusal::UrlUnverifiable)
        },
        SourceKind::GitHub => if checksum_ok || signature_ok || insecure {
            None
        } else {
            Some(Refusal::Unverifiable)
        },
    }
}

/// Why a fetched pack is refused, if it is: the first reason that applies.
pub open spec fn refusal_of(
    kind: SourceKind,
    targz: Seq<u8>,
    checksum: Option<Seq<char>>,
    signature: Signature,
    verify: bool,
    insecure: bool,
) -> Option<Refusal> {
    match checksum_refusal(targz, checksum) {
        Some(r) => Some(r),
        None => match signature_refusal(kind, signature, verify, insecure) {
            Some(r) => Some(r),
            None => provenance_refusal(
                kind,
                checksum is Some,
                kind == SourceKind::GitHub && signature == Signature::Valid,
                insecure,
            ),
        },
    }
}

impl Source {
    /// Which kind of source this is.
    pub fn kind(&self) -> (r: SourceKind)
        ensures
            r == (match self@ {
                SourceView::GitHub { .. } => SourceKind::GitHub,
                SourceView::Url(_) => SourceKind::Url,
                SourceView::File(_) => SourceKind::File,
            }),
    {
        match self {
            Source::GitHub { .. } => SourceKind::GitHub,
            Source::Url(_) => SourceKind::Url,
            Source::File(_) => SourceKind::File,
        }
    }
}

/// Integrity: a checksum obtained over a trusted channel (the GitHub release over TLS) proves the
/// archive matches what was published. A *mismatch* is always fatal: the bytes are not the
/// published ones, which is corruption/tampering of content, not merely absent provenance, so
/// `--insecure` deliberately does not cover it.
pub fn check_archive(targz: &[u8], checksum: &Option<String>) -> (r: Result<(), Refusal>)
    ensures
        r == (match checksum_refusal(targz@, checksum.deep_view()) {
            Some(refusal) => Err::<(), Refusal>(refusal),
            None => Ok(()),
        }),
{
    match checksum {
        Some(expected) => {
            if !same(sha256_hex(targz).as_str(), expected.as_str()) {
                return Err(Refusal::ChecksumMismatch);
            }
            Ok(())
        },
        None => Ok(()),
    }
}

/// Authenticity and provenance of an archive that passed `check_archive`. A Sigstore signature proves
/// the archive was signed by a workflow in the ref's repo, bound to a GitHub identity an attacker
/// can't forge. Fail-closed: a signature on the source is ALWAYS verified (never silently
/// discarded). `--insecure` downgrades a failed/absent signature to a warning (e.g. a legitimately
/// rotated signing identity); `--verify` overrides that and *requires* a valid signature
/// regardless. A remote pack with neither a verified checksum nor a valid signature has no confirmed
/// provenance, so it is refused unless the user explicitly opts out with `--insecure`. A bare URL
/// shares a local file's footing: a same-origin checksum is written by whoever served the archive
/// (integrity, not authorship), and there is no repo identity to anchor a signature against. A local
/// file has no external anchor by nature, which doesn't block it.
pub fn authorize(
    kind: SourceKind,
    targz: &[u8],
    checksum: &Option<String>,
    signature: Signature,
    verify: bool,
    insecure: bool,
) -> (r: Result<(), Refusal>)
    ensures
        r == (match refusal_of(kind, targz@, checksum.deep_view(), signature, verify, insecure) {
            Some(refusal) => Err::<(), Refusal>(refusal),
            None => Ok(()),
        }),
{
    match check_archive(targz, checksum) {
        Ok(_) => {},
        Err(refusal) => {
            return Err(refusal);
        },
    }
    let signature_ok = match kind {
        SourceKind::GitHub => match signature {
            Signature::Valid => true,
            Signature::Invalid => {
                if !(insecure && !verify) {
                    return Err(Refusal::BadSignature);
                }
                false
            },
            Signature::Absent => {
                if verify {
                    return Err(Refusal::NoSignature);
                }
                false
            },
        },
        _ => {
            if verify {
                return Err(Refusal::VerifyNeedsRepo);
            }
            false
        },
    };
    match kind {
        SourceKind::File => Ok(()),
        SourceKind::Url => {
            if !insecure {
                return Err(Refusal::UrlUnverifiable);
            }
            Ok(())
        },
        SourceKind::GitHub => {
            if checksum.is_none() && !signature_ok && !insecure {
                return Err(Refusal::Unverifiable);
            }
            Ok(())
        },
    }
}

// ---- unpacking --------------------------------------------------------------------------------

/// Why an archive is not unpacked further.
#[derive(Debug, Clone, Copy, PartialEq, Eq, Structural)]
pub enum UnpackFault {
    /// More than `MAX_UNPACK_ENTRIES` entries.
    TooManyEntries,
    /// More than `MAX_UNPACK_BYTES` bytes.
    TooManyBytes,
}

/// What an archive has expanded to so far. The cumulative expanded size and entry count are capped so
/// a decompression bomb can't turn a small download into an unbounded write.
#[derive(Debug)]
pub struct UnpackBudget {
    pub entries: u64,
    pub bytes: u64,
}

/// What has been unpacked once an entry of this size is, or why it is not.
pub open spec fn charged(entries: int, bytes: int, size: int) -> Result<(int, int), UnpackFault> {
    if entries >= MAX_UNPACK_ENTRIES {
        Err(UnpackFault::TooManyEntries)
    } else if bytes + size > MAX_UNPACK_BYTES {
        Err(UnpackFault::TooManyBytes)
    } else {
        Ok((entries + 1, bytes + size))
    }
}

impl UnpackBudget {
    /// Within both caps.
    pub open spec fn valid(&self) -> bool {
        self.entries <= MAX_UNPACK_ENTRIES && self.bytes <= MAX_UNPACK_BYTES
    }

    pub fn start() -> (r: UnpackBudget)
        ensures
            r.valid(),
            r.entries == 0,
            r.bytes == 0,
    {
        UnpackBudget { entries: 0, bytes: 0 }
    }

    /// Account for the next entry before it is unpacked. The header size bounds how many bytes are
    /// written for a regular file; a lie that under-declares can't over-write, because exactly that
    /// many bytes are read per entry.
    pub fn charge(&mut self, size: u64) -> (r: Result<(), UnpackFault>)
        requires
            old(self).valid(),
        ensures
            final(self).valid(),
            match r {
                Ok(_) => final(self).entries == old(self).entries + 1 && final(self).bytes
                    == old(self).bytes + size,
                Err(UnpackFault::TooManyEntries) => old(self).entries == MAX_UNPACK_ENTRIES
                    && *final(self) == *old(self),
                Err(UnpackFault::TooManyBytes) => old(self).entries < MAX_UNPACK_ENTRIES
                    && old(self).bytes + size > MAX_UNPACK_BYTES && *final(self) == *old(self),
            },
            charged(old(self).entries as int, old(self).bytes as int, size as int) == (match r {
                Ok(_) => Ok::<(int, int), UnpackFault>(
                    (final(self).entries as int, final(self).bytes as int),
                ),
                Err(fault) => Err(fault),
            }),
    {
        if self.entries >= MAX_UNPACK_ENTRIES {
            return Err(UnpackFault::TooManyEntries);
        }
        if size > MAX_UNPACK_BYTES - self.bytes {
            return Err(UnpackFault::TooManyBytes);
        }
        self.entries = self.entries + 1;
        self.bytes = self.bytes + size;
        Ok(())
    }
}

// ---- laws -------------------------------------------------------------------------------------

/// A checksum mismatch is never bypassed, whatever the source and the flags.
pub proof fn mismatch_is_always_fatal(
    kind: SourceKind,
    targz: Seq<u8>,
    expected: Seq<char>,
    signature: Signature,
    verify: bool,
    insecure: bool,
)
    requires
        hex_of(sha256_digest(targz)) != expected,
    ensures
        refusal_of(kind, targz, Some(expected), signature, verify, insecure) == Some(
            Refusal::ChecksumMismatch,
        ),
{
}

/// With `--verify`, only a pack with a valid signature of the ref's repository is installed, and
/// `--insecure` changes nothing about that.
pub proof fn verify_demands_a_valid_signature(
    kind: SourceKind,
    targz: Seq<u8>,
    checksum: Option<Seq<char>>,
    signature: Signature,
    insecure: bool,
)
    ensures
        refusal_of(kind, targz, checksum, signature, true, insecure) is None ==> kind
            == SourceKind::GitHub && signature == Signature::Valid,
        refusal_of(kind, targz, checksum, signature, true, true) == refusal_of(
            kind,
            targz,
            checksum,
            signature,
            true,
            false,
        ),
{
}

/// Without `--insecure`, a remote pack is installed only where its provenance is verified: it comes
/// from a release, its checksum matches or its signature is valid, and no signature of it has
/// failed.
pub proof fn remote_packs_fail_closed(
    kind: SourceKind,
    targz: Seq<u8>,
    checksum: Option<Seq<char>>,
    signature: Signature,
    verify: bool,
)
    requires
        kind != SourceKind::File,
        refusal_of(kind, targz, checksum, signature, verify, false) is None,
    ensures
        kind == SourceKind::GitHub,
        signature != Signature::Invalid,
        checksum == Some(hex_of(sha256_digest(targz))) || signature == Signature::Valid,
{
}

/// A signature on a release is never ignored: where it fails, the pack is refused unless
/// `--insecure` is given without `--verify`.
pub proof fn failed_signatures_count(
    targz: Seq<u8>,
    checksum: Option<Seq<char>>,
    verify: bool,
    insecure: bool,
)
    ensures
        refusal_of(SourceKind::GitHub, targz, checksum, Signature::Invalid, verify, insecure) is None
            ==> insecure && !verify,
{
}

/// A local archive is installed unless a signature is demanded of it.
pub proof fn local_archives_are_not_blocked(targz: Seq<u8>, signature: Signature, insecure: bool)
    ensures
        refusal_of(SourceKind::File, targz, None, signature, false, insecure) is None,
{
}

/// What a row of entries adds up to.
pub open spec fn total_size(sizes: Seq<u64>) -> int
    decreases sizes.len(),
{
    if sizes.len() == 0 {
        0
    } else {
        total_size(sizes.drop_last()) + sizes.last()
    }
}

/// What an archive with entries of these sizes is accounted as, entry by entry: the number of
/// entries and of bytes, or nothing where an entry is refused.
pub open spec fn accounted(sizes: Seq<u64>) -> Option<(int, int)>
    decreases sizes.len(),
{
    if sizes.len() == 0 {
        Some((0, 0))
    } else {
        match accounted(sizes.drop_last()) {
            Some((entries, bytes)) => match charged(entries, bytes, sizes.last() as int) {
                Ok(now) => Some(now),
                Err(_) => None,
            },
            None => None,
        }
    }
}

/// An archive is unpacked whole exactly when neither its number of entries nor the sum of their
/// sizes is over its cap.
pub proof fn unpacking_is_bounded(sizes: Seq<u64>)
    ensures
        accounted(sizes) == (if sizes.len() <= MAX_UNPACK_ENTRIES && total_size(sizes)
            <= MAX_UNPACK_BYTES {
            Some((sizes.len() as int, total_size(sizes)))
        } else {
            None
        }),
    decreases sizes.len(),
{
    if sizes.len() > 0 {
        unpacking_is_bounded(sizes.drop_last());
        sizes_add_up(sizes.drop_last());
    }
}

proof fn sizes_add_up(sizes: Seq<u64>)
    ensures
        0 <= total_size(sizes),
    decreases sizes.len(),
{
    if sizes.len() > 0 {
        sizes_add_up(sizes.drop_last());
    }
}

/// The host of an accepted reference is never guessed: a source on GitHub is named by a reference
/// whose first segment is `github.com`.
pub proof fn the_host_is_never_guessed(reference: Seq<char>)
    ensures
        source_of(Some(reference), None, None) is Ok ==> (reference_of(reference) matches Ok(parsed)
            && parsed.host == "github.com"@),
        nonempty(
            split(
                without_scheme(reference).take(first_of(without_scheme(reference), '@')),
                '/',
            ),
        ).len() != 3 ==> reference_of(reference) is Err,
{
}

/// A name between two slashes of a reference.
pub open spec fn segment(s: Seq<char>) -> bool {
    s.len() > 0 && !s.contains('/') && !s.contains('@')
}

/// The schemes that a reference may be written with, or none.
pub open spec fn reference_scheme(s: Seq<char>) -> bool {
    s == Seq::<char>::empty() || s == "https://"@ || s == "http://"@
}

/// A tag at the end of a reference.
pub open spec fn tag_suffix(tag: Option<Seq<char>>) -> Seq<char> {
    match tag {
        Some(t) => "@"@ + t,
        None => Seq::empty(),
    }
}

/// A slash at the end of a reference, where there is one.
pub open spec fn slash_suffix(slash: bool) -> Seq<char> {
    if slash {
        "/"@
    } else {
        Seq::empty()
    }
}

/// `.git` behind the name of a repository, where it is there.
pub open spec fn git_suffix(git: bool) -> Seq<char> {
    if git {
        ".git"@
    } else {
        Seq::empty()
    }
}

/// However a pack is referred to, it is the same pack: a scheme, `.git` behind the repository and a
/// slash at the end do not matter, and what follows the at sign is the tag.
pub proof fn spellings_of_a_reference_agree(
    scheme: Seq<char>,
    host: Seq<char>,
    owner: Seq<char>,
    repo: Seq<char>,
    git: bool,
    tag: Option<Seq<char>>,
    slash: bool,
)
    requires
        reference_scheme(scheme),
        segment(host),
        segment(owner),
        segment(repo),
        host.contains('.'),
        !".git"@.is_suffix_of(repo),
        tag matches Some(t) ==> !"/"@.is_suffix_of(t),
    ensures
        reference_of(
            scheme + (host + "/"@ + owner + "/"@ + (repo + git_suffix(git))) + tag_suffix(tag)
                + slash_suffix(slash),
        ) == Ok::<RefView, SourceFault>(RefView { host, owner, repo, tag }),
{
    reveal_strlit("/");
    reveal_strlit(".git");
    let last = repo + git_suffix(git);
    let path = host + "/"@ + owner + "/"@ + last;
    assert forall|i: int| 0 <= i < last.len() implies last[i] != '/' && last[i] != '@' by {
        if i < repo.len() {
            assert(repo.contains(repo[i]));
        }
    }
    three_segments(host, owner, last);
    reference_in_parts(scheme, path, tag, slash);
    trimming_once(repo, ".git"@);
    if !git {
        assert(last =~= repo);
    }
    assert(seq![host, owner, last][2] == last);
}

/// A reference without a host is refused, however it is written.
pub proof fn a_reference_needs_its_host(
    scheme: Seq<char>,
    owner: Seq<char>,
    repo: Seq<char>,
    tag: Option<Seq<char>>,
    slash: bool,
)
    requires
        reference_scheme(scheme),
        segment(owner),
        segment(repo),
        tag matches Some(t) ==> !"/"@.is_suffix_of(t),
    ensures
        reference_of(scheme + (owner + "/"@ + repo) + tag_suffix(tag) + slash_suffix(slash)) == Err::<
            RefView,
            SourceFault,
        >(SourceFault::NoHost),
{
    reveal_strlit("/");
    let path = owner + "/"@ + repo;
    two_segments(owner, repo);
    reference_in_parts(scheme, path, tag, slash);
}

/// A path of segments: it neither starts nor ends with a slash, no two slashes are neighbours, and
/// there is no at sign in it.
spec fn segmented(path: Seq<char>) -> bool {
    &&& path.len() > 0
    &&& path[0] != '/'
    &&& path.last() != '/'
    &&& !path.contains('@')
    &&& forall|i: int|
        0 <= i < path.len() - 1 && #[trigger] path[i] == '/' ==> path[i + 1] != '/'
}

proof fn two_segments(a: Seq<char>, b: Seq<char>)
    requires
        segment(a),
        segment(b),
    ensures
        segmented(a + "/"@ + b),
        nonempty(split(a + "/"@ + b, '/')) == seq![a, b],
{
    reveal_strlit("/");
    reveal_with_fuel(nonempty, 4);
    let path = a + "/"@ + b;
    assert(path =~= a.push('/') + b);
    split_at_separator(a, '/', b);
    split_without_separator(b, '/');
    assert(split(path, '/') =~= seq![a, b]);
    assert(seq![a, b].drop_last() =~= seq![a]);
    assert(seq![a].drop_last() =~= Seq::<Seq<char>>::empty());
    assert(nonempty(seq![a]) =~= seq![a]);
    assert(nonempty(seq![a, b]) =~= seq![a, b]);
    segments_apart(a, b);
}

proof fn segments_apart(a: Seq<char>, b: Seq<char>)
    requires
        segment(a),
        b.len() > 0,
        b[0] != '/',
        b.last() != '/',
        !b.contains('@'),
        forall|i: int| 0 <= i < b.len() - 1 && #[trigger] b[i] == '/' ==> b[i + 1] != '/',
    ensures
        segmented(a + "/"@ + b),
{
    reveal_strlit("/");
    let path = a + "/"@ + b;
    let n = a.len() as int;
    assert(path[0] == a[0] && a.contains(a[0]));
    assert forall|i: int| 0 <= i < path.len() implies path[i] != '@' by {
        if i < n {
            assert(a.contains(a[i]));
        } else if i > n {
            assert(path[i] == b[i - n - 1]);
            assert(b.contains(b[i - n - 1]));
        }
    }
    assert forall|i: int| 0 <= i < path.len() - 1 && #[trigger] path[i] == '/' implies path[i + 1]
        != '/' by {
        if i < n {
            assert(a.contains(a[i]));
        } else if i > n {
            assert(path[i] == b[i - n - 1]);
            assert(path[i + 1] == b[i - n]);
        } else {
            assert(path[i + 1] == b[0]);
        }
    }
}

proof fn three_segments(a: Seq<char>, b: Seq<char>, c: Seq<char>)
    requires
        segment(a),
        segment(b),
        segment(c),
    ensures
        segmented(a + "/"@ + b + "/"@ + c),
        nonempty(split(a + "/"@ + b + "/"@ + c, '/')) == seq![a, b, c],
{
    reveal_strlit("/");
    reveal_with_fuel(nonempty, 4);
    let rest = b + "/"@ + c;
    let path = a + "/"@ + b + "/"@ + c;
    two_segments(b, c);
    assert(path =~= a + "/"@ + rest);
    segments_apart(a, rest);
    assert(path =~= a.push('/') + (b.push('/') + c));
    split_at_separator(a, '/', b.push('/') + c);
    split_at_separator(b, '/', c);
    split_without_separator(c, '/');
    assert(split(path, '/') =~= seq![a, b, c]);
    assert(seq![a, b, c].drop_last() =~= seq![a, b]);
    assert(seq![a, b].drop_last() =~= seq![a]);
    assert(seq![a].drop_last() =~= Seq::<Seq<char>>::empty());
    assert(nonempty(seq![a]) =~= seq![a]);
    assert(nonempty(seq![a, b]) =~= seq![a, b]);
    assert(nonempty(seq![a, b, c]) =~= seq![a, b, c]);
}

/// What is left of a reference without its scheme and its slash is the path and the tag.
proof fn reference_in_parts(
    scheme: Seq<char>,
    path: Seq<char>,
    tag: Option<Seq<char>>,
    slash: bool,
)
    requires
        reference_scheme(scheme),
        segmented(path),
        tag matches Some(t) ==> !"/"@.is_suffix_of(t),
    ensures
        ({
            let s = without_scheme(scheme + path + tag_suffix(tag) + slash_suffix(slash));
            &&& s.take(first_of(s, '@')) == path
            &&& tag matches Some(t) ==> first_of(s, '@') < s.len() && s.skip(first_of(s, '@') + 1)
                == t
            &&& tag is None ==> first_of(s, '@') == s.len()
        }),
{
    reveal_strlit("/");
    reveal_strlit("@");
    let s = path + tag_suffix(tag);
    let rest = s + slash_suffix(slash);
    let whole = scheme + path + tag_suffix(tag) + slash_suffix(slash);
    assert(whole =~= scheme + rest);
    assert(rest =~= path + (tag_suffix(tag) + slash_suffix(slash)));
    if tag is None {
        assert(tag_suffix(tag) + slash_suffix(slash) =~= slash_suffix(slash));
    }
    scheme_comes_off(scheme, path, tag_suffix(tag) + slash_suffix(slash));
    assert(!"/"@.is_suffix_of(s)) by {
        assert(s.last() != '/') by {
            match tag {
                Some(t) => {
                    if t.len() > 0 {
                        assert(s.last() == t.last());
                        if t.last() == '/' {
                            assert(t.subrange(t.len() - 1, t.len() as int) =~= "/"@);
                        }
                    }
                },
                None => {
                    assert(s =~= path);
                },
            }
        }
        assert(s.subrange(s.len() - 1, s.len() as int)[0] == s.last());
        assert("/"@[0] == '/');
    }
    trimming_once(s, "/"@);
    assert(without_scheme(whole) == s) by {
        if !slash {
            assert(rest =~= s);
        }
    }
    match tag {
        Some(t) => {
            assert(s =~= path.push('@') + t);
            first_of_found(path, '@', t);
            assert(s.take(path.len() as int) =~= path);
            assert(s.skip(path.len() as int + 1) =~= t);
        },
        None => {
            assert(s =~= path);
            first_of_absent(path, '@');
            assert(s.take(path.len() as int) =~= path);
        },
    }
}

/// Of a reference that is written with a scheme or without, the rest is trimmed.
proof fn scheme_comes_off(scheme: Seq<char>, path: Seq<char>, tail: Seq<char>)
    requires
        reference_scheme(scheme),
        segmented(path),
        tail.len() > 0 ==> tail[0] == '@' || tail == "/"@,
    ensures
        without_scheme(scheme + (path + tail)) == trimmed_end(path + tail, "/"@),
{
    reveal_strlit("http://");
    reveal_strlit("https://");
    let rest = path + tail;
    let whole = scheme + rest;
    if scheme == "https://"@ {
        assert(whole.subrange(0, 8) =~= "https://"@);
        assert("https://"@.is_prefix_of(whole));
        assert(whole.skip(8) =~= rest);
    } else if scheme == "http://"@ {
        assert(whole[4] == ':' && "https://"@[4] == 's');
        assert(!"https://"@.is_prefix_of(whole));
        assert(whole.subrange(0, 7) =~= "http://"@);
        assert("http://"@.is_prefix_of(whole));
        assert(whole.skip(7) =~= rest);
    } else {
        assert(whole =~= rest);
        bare_paths_have_no_scheme(path, tail, "https://"@, 6);
        bare_paths_have_no_scheme(path, tail, "http://"@, 5);
    }
}

/// A text that does not end in `tail` is what is left when one `tail` behind it is trimmed off.
proof fn trimming_once(s: Seq<char>, tail: Seq<char>)
    requires
        tail.len() > 0,
        !tail.is_suffix_of(s),
    ensures
        trimmed_end(s, tail) == s,
        trimmed_end(s + tail, tail) == s,
{
    let whole = s + tail;
    assert(whole.subrange(whole.len() - tail.len(), whole.len() as int) =~= tail);
    assert(tail.is_suffix_of(whole));
    assert(whole.take(whole.len() - tail.len()) =~= s);
}

/// A path of segments does not start with a scheme, whose two slashes are neighbours.
proof fn bare_paths_have_no_scheme(path: Seq<char>, tail: Seq<char>, scheme: Seq<char>, k: int)
    requires
        segmented(path),
        tail.len() > 0 ==> tail[0] == '@' || tail == "/"@,
        0 < k,
        scheme.len() == k + 2,
        scheme[k] == '/',
        scheme[k + 1] == '/',
        forall|i: int| 0 <= i < k ==> #[trigger] scheme[i] != '/' && scheme[i] != '@',
    ensures
        !scheme.is_prefix_of(path + tail),
{
    reveal_strlit("/");
    let whole = path + tail;
    if scheme.is_prefix_of(whole) {
        assert(forall|i: int| 0 <= i < scheme.len() ==> scheme[i] == whole[i]);
        let n = path.len() as int;
        if n >= k + 2 {
            assert(path[k] == '/' && path[k + 1] == '/');
        } else if n == k + 1 {
            assert(path[k] == '/');
        } else {
            assert(scheme[n] == whole[n] && whole[n] == tail[0]);
        }
    }
}

proof fn first_of_found(a: Seq<char>, c: char, b: Seq<char>)
    requires
        !a.contains(c),
    ensures
        first_of(a.push(c) + b, c) == a.len(),
    decreases a.len(),
{
    let s = a.push(c) + b;
    if a.len() > 0 {
        assert(s[0] == a[0] && a.contains(a[0]));
        let rest = a.drop_first();
        assert forall|i: int| 0 <= i < rest.len() implies rest[i] != c by {
            assert(a.contains(a[i + 1]));
        }
        assert(s.drop_first() =~= rest.push(c) + b);
        first_of_found(rest, c, b);
    }
}

proof fn first_of_absent(a: Seq<char>, c: char)
    requires
        !a.contains(c),
    ensures
        first_of(a, c) == a.len(),
    decreases a.len(),
{
    if a.len() > 0 {
        assert(a.contains(a[0]));
        let rest = a.drop_first();
        assert forall|i: int| 0 <= i < rest.len() implies rest[i] != c by {
            assert(a.contains(a[i + 1]));
        }
        first_of_absent(rest, c);
    }
}

/// A pack is installed exactly where its checksum, if there is one, is that of the archive; where a
/// demanded signature is there and valid, and one of a release has not failed unless that is waved
/// through; and where it comes from a file, or from a release with a checksum or a valid signature, or is
/// waved through.
pub proof fn exactly_these_packs_are_installed(
    kind: SourceKind,
    targz: Seq<u8>,
    checksum: Option<Seq<char>>,
    signature: Signature,
    verify: bool,
    insecure: bool,
)
    ensures
        refusal_of(kind, targz, checksum, signature, verify, insecure) is None <==> {
            &&& checksum is None || checksum == Some(hex_of(sha256_digest(targz)))
            &&& verify ==> kind == SourceKind::GitHub && signature == Signature::Valid
            &&& kind == SourceKind::GitHub && signature == Signature::Invalid ==> insecure
            &&& kind == SourceKind::Url ==> insecure
            &&& kind == SourceKind::GitHub && !insecure ==> checksum is Some || signature
                == Signature::Valid
        },
{
}

/// A refusal says what is wrong.
pub proof fn refusals_say_what_is_wrong(
    kind: SourceKind,
    targz: Seq<u8>,
    checksum: Option<Seq<char>>,
    signature: Signature,
    verify: bool,
    insecure: bool,
)
    ensures
        match refusal_of(kind, targz, checksum, signature, verify, insecure) {
            None => true,
            Some(Refusal::ChecksumMismatch) => checksum is Some && checksum != Some(
                hex_of(sha256_digest(targz)),
            ),
            Some(Refusal::BadSignature) => kind == SourceKind::GitHub && signature
                == Signature::Invalid,
            Some(Refusal::NoSignature) => kind == SourceKind::GitHub && signature
                == Signature::Absent && verify,
            Some(Refusal::VerifyNeedsRepo) => kind != SourceKind::GitHub && verify,
            Some(Refusal::UrlUnverifiable) => kind == SourceKind::Url && !insecure && !verify,
            Some(Refusal::Unverifiable) => kind == SourceKind::GitHub && checksum is None
                && signature == Signature::Absent && !insecure,
        },
{
}

/// Exactly one source is taken, as it was given: a reference on GitHub with its owner, repository and tag,
/// an https URL, or a file.
pub proof fn one_source_is_taken_as_given(
    reference: Option<Seq<char>>,
    from_url: Option<Seq<char>>,
    from_file: Option<Seq<char>>,
)
    ensures
        match source_of(reference, from_url, from_file) {
            Ok(SourceView::File(path)) => from_file == Some(path) && reference is None
                && from_url is None,
            Ok(SourceView::Url(url)) => from_url == Some(url) && reference is None
                && from_file is None && "https://"@.is_prefix_of(url),
            Ok(SourceView::GitHub { owner, repo, tag }) => from_url is None && from_file is None && (
            reference matches Some(text) && reference_of(text) == Ok::<RefView, SourceFault>(
                RefView { host: "github.com"@, owner, repo, tag },
            )),
            Err(SourceFault::NotOneSource) => {
                ||| reference is None && from_url is None && from_file is None
                ||| reference is Some && from_url is Some
                ||| reference is Some && from_file is Some
                ||| from_url is Some && from_file is Some
            },
            Err(SourceFault::NotHttps) => reference is None && from_file is None && (
            from_url matches Some(url) && !"https://"@.is_prefix_of(url)),
            Err(SourceFault::UnsupportedHost(host)) => reference matches Some(text) && (
            reference_of(text) matches Ok(r) && r.host == host && host != "github.com"@),
            Err(fault) => reference matches Some(text) && reference_of(text) == Err::<
                RefView,
                SourceFault,
            >(fault),
        },
{
}

/// The archive of a release is its first asset that is a `.tar.gz`; its checksum and its signature are the
/// assets that are named after that archive.
pub proof fn a_release_is_known_by_its_archive(assets: Seq<AssetView>)
    ensures
        match release_files(assets) {
            None => forall|j: int|
                0 <= j < assets.len() ==> !".tar.gz"@.is_suffix_of((#[trigger] assets[j]).name),
            Some(files) => exists|i: int|
                #![trigger assets[i]]
                0 <= i < assets.len() && ".tar.gz"@.is_suffix_of(assets[i].name) && files.archive
                    == assets[i].url && (forall|j: int|
                    0 <= j < i ==> !".tar.gz"@.is_suffix_of((#[trigger] assets[j]).name))
                    && is_url_of(assets, assets[i].name + ".sha256"@, files.checksum) && is_url_of(
                    assets,
                    assets[i].name + ".sigstore"@,
                    files.signature,
                ),
        },
{
    first_archive(assets, 0);
    match archive_from(assets, 0) {
        Some(a) => {
            let i = choose|i: int|
                #![trigger assets[i]]
                0 <= i < assets.len() && assets[i] == a && ".tar.gz"@.is_suffix_of(a.name)
                    && forall|j: int|
                    0 <= j < i ==> !".tar.gz"@.is_suffix_of((#[trigger] assets[j]).name);
            first_named(assets, a.name + ".sha256"@, 0);
            first_named(assets, a.name + ".sigstore"@, 0);
            assert(assets[i] == a);
        },
        None => {},
    }
}

/// The URL of the first asset of the name, or nothing where there is none.
pub open spec fn is_url_of(assets: Seq<AssetView>, name: Seq<char>, url: Option<Seq<char>>) -> bool {
    match url {
        Some(u) => exists|i: int|
            0 <= i < assets.len() && #[trigger] assets[i] == (AssetView { name, url: u })
                && forall|j: int| 0 <= j < i ==> (#[trigger] assets[j]).name != name,
        None => forall|j: int| 0 <= j < assets.len() ==> (#[trigger] assets[j]).name != name,
    }
}

proof fn first_archive(assets: Seq<AssetView>, from: int)
    requires
        0 <= from <= assets.len(),
        forall|j: int| 0 <= j < from ==> !".tar.gz"@.is_suffix_of((#[trigger] assets[j]).name),
    ensures
        match archive_from(assets, from) {
            Some(a) => exists|i: int|
                #![trigger assets[i]]
                0 <= i < assets.len() && assets[i] == a && ".tar.gz"@.is_suffix_of(a.name)
                    && forall|j: int|
                    0 <= j < i ==> !".tar.gz"@.is_suffix_of((#[trigger] assets[j]).name),
            None => forall|j: int|
                0 <= j < assets.len() ==> !".tar.gz"@.is_suffix_of((#[trigger] assets[j]).name),
        },
    decreases assets.len() - from,
{
    if from < assets.len() {
        if ".tar.gz"@.is_suffix_of(assets[from].name) {
            assert(assets[from] == archive_from(assets, from)->0);
        } else {
            first_archive(assets, from + 1);
        }
    }
}

proof fn first_named(assets: Seq<AssetView>, name: Seq<char>, from: int)
    requires
        0 <= from <= assets.len(),
        forall|j: int| 0 <= j < from ==> (#[trigger] assets[j]).name != name,
    ensures
        is_url_of(assets, name, asset_named(assets, name, from)),
    decreases assets.len() - from,
{
    if from < assets.len() {
        if assets[from].name == name {
            assert(assets[from] == (AssetView { name, url: assets[from].url }));
        } else {
            first_named(assets, name, from + 1);
        }
    }
}

/// The checksum in a text is its first word, as it stands, where that is made of hexadecimal digits alone.
pub proof fn the_checksum_is_the_first_word(lead: Seq<char>, word: Seq<char>, rest: Seq<char>)
    requires
        all_white(lead),
        word.len() > 0,
        forall|i: int| 0 <= i < word.len() ==> !white(#[trigger] word[i]),
        rest.len() > 0 ==> white(rest[0]),
    ensures
        checksum_in(lead + word + rest) == (if forall|i: int|
            0 <= i < word.len() ==> '0' <= #[trigger] word[i] <= '9' || 'a' <= word[i] <= 'f' || 'A'
                <= word[i] <= 'F' {
            Some(word)
        } else {
            None
        }),
{
    let s = lead + word + rest;
    let start = lead.len() as int;
    let end = start + word.len();
    assert(s[start] == word[0]);
    gap_ends_at(s, 0, start);
    word_stops_at(s, start, end);
    assert(first_word(s) =~= word);
    if forall|i: int| 0 <= i < word.len() ==> hexadecimal(#[trigger] word[i]) {
        assert forall|i: int| 0 <= i < word.len() implies '0' <= #[trigger] word[i] <= '9' || 'a'
            <= word[i] <= 'f' || 'A' <= word[i] <= 'F' by {
            assert(hexadecimal(word[i]));
        }
    }
}

proof fn gap_ends_at(s: Seq<char>, i: int, end: int)
    requires
        0 <= i <= end < s.len(),
        !white(s[end]),
        forall|j: int| i <= j < end ==> white(#[trigger] s[j]),
    ensures
        gap_end(s, i) == end,
    decreases end - i,
{
    if i < end {
        gap_ends_at(s, i + 1, end);
    }
}

proof fn word_stops_at(s: Seq<char>, i: int, end: int)
    requires
        0 <= i <= end <= s.len(),
        end < s.len() ==> white(s[end]),
        forall|j: int| i <= j < end ==> !white(#[trigger] s[j]),
    ensures
        word_end(s, i) == end,
    decreases end - i,
{
    if i < end {
        word_stops_at(s, i + 1, end);
    }
}

/// The stem of an archive is its name without its ending.
pub proof fn an_archive_stem_has_no_ending(name: Seq<char>)
    ensures
        archive_stem(name + ".tar.gz"@) == name,
        archive_stem(name + ".tgz"@) == name,
        !".tar.gz"@.is_suffix_of(name) && !".tgz"@.is_suffix_of(name) ==> archive_stem(name) == name,
{
    reveal_strlit(".tar.gz");
    reveal_strlit(".tgz");
    let a = name + ".tar.gz"@;
    let b = name + ".tgz"@;
    assert(a.subrange(a.len() - ".tar.gz"@.len(), a.len() as int) =~= ".tar.gz"@);
    assert(a.take(a.len() - ".tar.gz"@.len()) =~= name);
    assert(b.subrange(b.len() - ".tgz"@.len(), b.len() as int) =~= ".tgz"@);
    assert(b.take(b.len() - ".tgz"@.len()) =~= name);
    if ".tar.gz"@.is_suffix_of(b) {
        let tail = b.subrange(b.len() - ".tar.gz"@.len(), b.len() as int);
        assert(tail[4] == b[b.len() - 3]);
        assert(b[b.len() - 3] == 't');
        assert(".tar.gz"@[4] == '.');
    }
}

/// The release of a reference is looked up under its owner and repository, by its tag or as the latest.
pub proof fn releases_are_looked_up_by_tag(owner: &str, repo: &str, tag: &Option<String>, r: String)
    requires
        call_ensures(release_url, (owner, repo, tag), r),
    ensures
        ({
            let start = "https://api.github.com/repos/"@ + owner@ + "/"@ + repo@ + "/releases/"@;
            &&& *tag is None ==> r@ == start + "latest"@
            &&& *tag matches Some(t) ==> r@ == start + "tags/"@ + t@
        }),
{
    reveal_strlit("https://api.github.com/repos/");
    reveal_strlit("https://api.github.com");
    reveal_strlit("/repos/");
    reveal_strlit("/releases/tags/");
    reveal_strlit("/releases/latest");
    reveal_strlit("/releases/");
    reveal_strlit("latest");
    reveal_strlit("tags/");
    assert("https://api.github.com/repos/"@ =~= API_BASE@ + "/repos/"@);
    assert("/releases/tags/"@ =~= "/releases/"@ + "tags/"@);
    assert("/releases/latest"@ =~= "/releases/"@ + "latest"@);
    let start = "https://api.github.com/repos/"@ + owner@ + "/"@ + repo@ + "/releases/"@;
    match tag {
        Some(t) => {
            assert(r@ =~= start + "tags/"@ + t@);
        },
        None => {
            assert(r@ =~= start + "latest"@);
        },
    }
}

/// An archive expands to no more than two gibibytes in twenty thousand entries, and to all of that where it
/// holds so much.
pub proof fn an_archive_expands_within_its_limits(sizes: Seq<u64>)
    ensures
        accounted(sizes) is Some <==> sizes.len() <= 20_000 && total_size(sizes) <= 0x8000_0000,
        accounted(sizes) matches Some((entries, bytes)) ==> entries == sizes.len() && bytes
            == total_size(sizes),
{
    unpacking_is_bounded(sizes);
}

/// The checksum of an archive stands beside it, and where a pack comes from is told by its source.
pub proof fn checksums_stand_beside_their_archive(
    url: &str,
    checksum: String,
    source: &Source,
    kind: SourceKind,
)
    requires
        call_ensures(checksum_url, (url,), checksum),
        call_ensures(Source::kind, (source,), kind),
    ensures
        url@.is_prefix_of(checksum@),
        checksum@.skip(url@.len() as int) == ".sha256"@,
        kind == SourceKind::Url <==> source@ is Url,
        kind == SourceKind::File <==> source@ is File,
        kind == SourceKind::GitHub <==> source@ is GitHub,
{
    assert(checksum@.subrange(0, url@.len() as int) =~= url@);
    assert(checksum@.skip(url@.len() as int) =~= ".sha256"@);
}

} // verus!
