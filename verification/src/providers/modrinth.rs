//! Modrinth: which version of a project a pack gets.
use vstd::prelude::*;

use crate::loader::{loader_word, usable_loaders, Loader};
use crate::lock::DepKind;
use crate::order::{
    arrange, arranged, arranging_ignores_input_order, arranging_orders, arranging_permutes,
    keep, strict_order, Ranked,
};
use crate::providers::{
    prefer_stable, stable_first, stable_first_is_best, ImportedVersion, ImportedVersionView,
    ResolvedDep, ResolvedDepView, ResolvedVersion, ResolvedVersionView,
};
use crate::side::{side_of_support, Side};
use crate::text::{before, before_is_total, is_before, join, joined, same, text_order_is_strict};
use crate::version_req::satisfied;

verus! {

/// Where the Modrinth API is served.
pub const API_BASE: &'static str = "https://api.modrinth.com/v2";

/// The Modrinth Labrinth API (open, keyless): what to ask it, and what its answers mean.
#[derive(Debug)]
pub struct Modrinth {
    pub base: String,
}

#[derive(Debug)]
pub struct ProjectResp {
    pub slug: String,
    pub title: String,
    pub client_side: EnvSupport,
    pub server_side: EnvSupport,
}

#[derive(Debug, Clone, Copy, PartialEq, Eq, Structural)]
pub enum EnvSupport {
    Required,
    Optional,
    Unsupported,
    Unknown,
}

#[derive(Debug)]
pub struct VersionResp {
    pub id: String,
    pub project_id: String,
    pub version_number: String,
    pub version_type: String,
    pub date_published: String,
    pub loaders: Vec<String>,
    pub files: Vec<VersionFile>,
    pub dependencies: Vec<VersionDep>,
}

#[derive(Debug)]
pub struct VersionFile {
    pub url: String,
    pub filename: String,
    pub size: Option<u64>,
    pub hashes: FileHashes,
    pub primary: bool,
}

#[derive(Debug)]
pub struct FileHashes {
    pub sha512: Option<String>,
    pub sha1: Option<String>,
}

#[derive(Debug)]
pub struct VersionDep {
    pub project_id: Option<String>,
    pub dependency_type: String,
}

/// A single search result. Public so the `add` command can present the picker.
#[derive(Debug)]
pub struct SearchHit {
    pub slug: String,
    pub title: String,
    pub description: String,
    pub downloads: u64,
}

/// Why no version of a project can be installed.
#[derive(Debug)]
pub enum ModrinthError {
    /// No version lists a loader that the pack can use.
    NoBuild,
    /// No version for the loader satisfies the constraint.
    NoMatch,
    /// The chosen version has no file.
    NoFile,
    /// The named file carries neither a sha512 nor a sha1 hash.
    NoHash(String),
}

// ---- views ------------------------------------------------------------------------------------

#[verifier::ext_equal]
pub struct ProjectRespView {
    pub slug: Seq<char>,
    pub title: Seq<char>,
    pub client_side: EnvSupport,
    pub server_side: EnvSupport,
}

#[verifier::ext_equal]
pub struct VersionRespView {
    pub id: Seq<char>,
    pub project_id: Seq<char>,
    pub version_number: Seq<char>,
    pub version_type: Seq<char>,
    pub date_published: Seq<char>,
    pub loaders: Seq<Seq<char>>,
    pub files: Seq<VersionFileView>,
    pub dependencies: Seq<VersionDepView>,
}

#[verifier::ext_equal]
pub struct VersionFileView {
    pub url: Seq<char>,
    pub filename: Seq<char>,
    pub size: Option<u64>,
    pub sha512: Option<Seq<char>>,
    pub sha1: Option<Seq<char>>,
    pub primary: bool,
}

#[verifier::ext_equal]
pub struct VersionDepView {
    pub project_id: Option<Seq<char>>,
    pub dependency_type: Seq<char>,
}

#[verifier::ext_equal]
pub struct SearchHitView {
    pub slug: Seq<char>,
    pub title: Seq<char>,
    pub description: Seq<char>,
    pub downloads: u64,
}

#[verifier::ext_equal]
pub enum ModrinthFault {
    NoBuild,
    NoMatch,
    NoFile,
    NoHash(Seq<char>),
}

impl View for ProjectResp {
    type V = ProjectRespView;

    open spec fn view(&self) -> ProjectRespView {
        ProjectRespView {
            slug: self.slug@,
            title: self.title@,
            client_side: self.client_side,
            server_side: self.server_side,
        }
    }
}

impl DeepView for VersionFile {
    type V = VersionFileView;

    open spec fn deep_view(&self) -> VersionFileView {
        VersionFileView {
            url: self.url@,
            filename: self.filename@,
            size: self.size,
            sha512: self.hashes.sha512.deep_view(),
            sha1: self.hashes.sha1.deep_view(),
            primary: self.primary,
        }
    }
}

impl DeepView for VersionDep {
    type V = VersionDepView;

    open spec fn deep_view(&self) -> VersionDepView {
        VersionDepView {
            project_id: self.project_id.deep_view(),
            dependency_type: self.dependency_type@,
        }
    }
}

impl DeepView for VersionResp {
    type V = VersionRespView;

    open spec fn deep_view(&self) -> VersionRespView {
        VersionRespView {
            id: self.id@,
            project_id: self.project_id@,
            version_number: self.version_number@,
            version_type: self.version_type@,
            date_published: self.date_published@,
            loaders: self.loaders.deep_view(),
            files: self.files.deep_view(),
            dependencies: self.dependencies.deep_view(),
        }
    }
}

impl DeepView for SearchHit {
    type V = SearchHitView;

    open spec fn deep_view(&self) -> SearchHitView {
        SearchHitView {
            slug: self.slug@,
            title: self.title@,
            description: self.description@,
            downloads: self.downloads,
        }
    }
}

impl View for ModrinthError {
    type V = ModrinthFault;

    open spec fn view(&self) -> ModrinthFault {
        match self {
            ModrinthError::NoBuild => ModrinthFault::NoBuild,
            ModrinthError::NoMatch => ModrinthFault::NoMatch,
            ModrinthError::NoFile => ModrinthFault::NoFile,
            ModrinthError::NoHash(name) => ModrinthFault::NoHash(name@),
        }
    }
}

// ---- dependencies -----------------------------------------------------------------------------

/// The kind of dependency that Modrinth's word stands for.
pub open spec fn dep_kind_named(word: Seq<char>) -> Option<DepKind> {
    if word == "required"@ {
        Some(DepKind::Required)
    } else if word == "optional"@ {
        Some(DepKind::Optional)
    } else if word == "incompatible"@ {
        Some(DepKind::Incompatible)
    } else if word == "embedded"@ {
        Some(DepKind::Embedded)
    } else {
        None
    }
}

/// Map Modrinth's `dependency_type` string to our `DepKind`, or `None` for a value we don't model.
pub fn dep_kind(dependency_type: &str) -> (r: Option<DepKind>)
    ensures
        r == dep_kind_named(dependency_type@),
{
    if same(dependency_type, "required") {
        Some(DepKind::Required)
    } else if same(dependency_type, "optional") {
        Some(DepKind::Optional)
    } else if same(dependency_type, "incompatible") {
        Some(DepKind::Incompatible)
    } else if same(dependency_type, "embedded") {
        Some(DepKind::Embedded)
    } else {
        None
    }
}

/// The edges that have a project id and a kind that is modelled, in order.
pub open spec fn modelled_deps(deps: Seq<VersionDepView>) -> Seq<ResolvedDepView>
    decreases deps.len(),
{
    if deps.len() == 0 {
        Seq::empty()
    } else {
        let head = modelled_deps(deps.drop_last());
        match (dep_kind_named(deps.last().dependency_type), deps.last().project_id) {
            (Some(kind), Some(project_id)) => head.push(ResolvedDepView { project_id, kind }),
            _ => head,
        }
    }
}

/// Collect the dependency edges we model, dropping unknown kinds and edges without a project id.
pub fn collect_deps(deps: &[VersionDep]) -> (r: Vec<ResolvedDep>)
    ensures
        r.deep_view() == modelled_deps(deps.deep_view()),
{
    let ghost all = deps.deep_view();
    let mut out: Vec<ResolvedDep> = Vec::new();
    let mut i: usize = 0;
    assert(out.deep_view() =~= modelled_deps(all.take(0)));
    while i < deps.len()
        invariant
            all == deps.deep_view(),
            i <= deps@.len(),
            out.deep_view() == modelled_deps(all.take(i as int)),
        decreases deps.len() - i,
    {
        proof {
            assert(all[i as int] == deps@[i as int].deep_view());
            assert(all.take(i + 1).drop_last() =~= all.take(i as int));
        }
        let ghost prior = out.deep_view();
        match dep_kind(deps[i].dependency_type.as_str()) {
            Some(kind) => match &deps[i].project_id {
                Some(project_id) => {
                    out.push(ResolvedDep { project_id: project_id.clone(), kind });
                    assert(out.deep_view() =~= prior.push(
                        ResolvedDepView { project_id: project_id@, kind },
                    ));
                },
                None => {},
            },
            None => {},
        }
        i = i + 1;
    }
    assert(all.take(i as int) =~= all);
    out
}

// ---- the order of versions --------------------------------------------------------------------

impl Ranked for VersionResp {
    open spec fn ranks_before(a: VersionRespView, b: VersionRespView) -> bool {
        before(b.date_published, a.date_published) || (a.date_published == b.date_published
            && before(b.id, a.id))
    }

    fn is_ranked_before(&self, other: &Self) -> (r: bool) {
        is_before(other.date_published.as_str(), self.date_published.as_str()) || (same(
            self.date_published.as_str(),
            other.date_published.as_str(),
        ) && is_before(other.id.as_str(), self.id.as_str()))
    }
}

/// Newest first, and on the same instant the greater version id first.
pub open spec fn newest_first(versions: Seq<VersionRespView>) -> Seq<VersionRespView> {
    arranged::<VersionResp>(versions)
}

/// Order versions newest-first (ISO-8601 dates sort lexically), breaking ties on the version id
/// so two versions published at the same instant always resolve deterministically, never by API
/// order.
pub fn sort_versions_newest_first(versions: &mut Vec<VersionResp>)
    ensures
        final(versions).deep_view() == newest_first(old(versions).deep_view()),
{
    let mut unsorted: Vec<VersionResp> = Vec::new();
    std::mem::swap(versions, &mut unsorted);
    *versions = arrange(unsorted);
}

/// The order of versions is strict.
pub proof fn version_order_is_strict()
    ensures
        strict_order::<VersionResp>(),
{
    text_order_is_strict();
}

/// No two listed versions share both the instant and the id.
pub open spec fn versions_told_apart(versions: Seq<VersionRespView>) -> bool {
    forall|a: VersionRespView, b: VersionRespView|
        #[trigger] versions.contains(a) && #[trigger] versions.contains(b) && a.id == b.id
            && a.date_published == b.date_published ==> a == b
}

/// The order in which the API lists versions has no influence on the sorted list.
pub proof fn api_order_does_not_matter(listed: Seq<VersionRespView>, relisted: Seq<VersionRespView>)
    requires
        versions_told_apart(listed),
        listed.to_multiset() == relisted.to_multiset(),
    ensures
        newest_first(listed) == newest_first(relisted),
{
    version_order_is_strict();
    assert forall|a: VersionRespView, b: VersionRespView|
        #![trigger VersionResp::ranks_before(a, b)]
        listed.contains(a) && listed.contains(b) implies a == b || VersionResp::ranks_before(a, b)
        || VersionResp::ranks_before(b, a) by {
        before_is_total(a.date_published, b.date_published);
        before_is_total(a.id, b.id);
    }
    arranging_ignores_input_order::<VersionResp>(listed, relisted);
}

// ---- the choice of a version ------------------------------------------------------------------

pub open spec fn is_release(version: VersionRespView) -> bool {
    version.version_type == "release"@
}

pub open spec fn admitted_by(versions: Seq<VersionRespView>, constraint: Seq<char>) -> Seq<bool> {
    Seq::new(versions.len(), |i: int| satisfied(versions[i].version_number, constraint))
}

pub open spec fn releases(versions: Seq<VersionRespView>) -> Seq<bool> {
    Seq::new(versions.len(), |i: int| is_release(versions[i]))
}

/// Of versions ordered newest first, the one to take, given which are admitted.
pub open spec fn version_taken(versions: Seq<VersionRespView>, admitted: Seq<bool>) -> Option<
    VersionRespView,
> {
    match stable_first(admitted, releases(versions)) {
        Some(i) => Some(versions[i]),
        None => None,
    }
}

/// From versions already ordered newest-first, keep those satisfying `constraint`, then prefer the
/// newest stable release over any newer pre-release, falling back to the newest match of any type.
pub fn choose_version<'a>(versions: &'a [VersionResp], constraint: &str) -> (r: Option<
    &'a VersionResp,
>)
    ensures
        r.deep_view() == version_taken(
            versions.deep_view(),
            admitted_by(versions.deep_view(), constraint@),
        ),
{
    let ghost all = versions.deep_view();
    let mut admitted: Vec<bool> = Vec::new();
    let mut i: usize = 0;
    while i < versions.len()
        invariant
            all == versions.deep_view(),
            i <= versions@.len(),
            admitted@ == admitted_by(all, constraint@).take(i as int),
        decreases versions.len() - i,
    {
        assert(all[i as int] == versions@[i as int].deep_view());
        admitted.push(crate::version_req::matches(versions[i].version_number.as_str(), constraint));
        i = i + 1;
        assert(admitted@ =~= admitted_by(all, constraint@).take(i as int));
    }
    assert(admitted@ =~= admitted_by(all, constraint@));
    choose_admitted(versions, &admitted)
}

/// The version to take from versions ordered newest-first, given which of them are admitted.
pub fn choose_admitted<'a>(versions: &'a [VersionResp], admitted: &Vec<bool>) -> (r: Option<
    &'a VersionResp,
>)
    requires
        admitted@.len() == versions@.len(),
    ensures
        r.deep_view() == version_taken(versions.deep_view(), admitted@),
{
    let ghost all = versions.deep_view();
    let mut stable: Vec<bool> = Vec::new();
    let mut i: usize = 0;
    while i < versions.len()
        invariant
            all == versions.deep_view(),
            i <= versions@.len(),
            stable@ == releases(all).take(i as int),
        decreases versions.len() - i,
    {
        assert(all[i as int] == versions@[i as int].deep_view());
        stable.push(same(versions[i].version_type.as_str(), "release"));
        i = i + 1;
        assert(stable@ =~= releases(all).take(i as int));
    }
    assert(stable@ =~= releases(all));
    match prefer_stable(admitted, &stable) {
        Some(k) => {
            assert(all[k as int] == versions@[k as int].deep_view());
            Some(&versions[k])
        },
        None => None,
    }
}

/// The version lists a loader whose mods the pack can use.
pub open spec fn supports(version: VersionRespView, loader: Loader) -> bool {
    exists|i: int|
        0 <= i < version.loaders.len() && usable_loaders(loader).contains(
            #[trigger] version.loaders[i],
        )
}

/// Whether a Modrinth version actually lists a loader this pack can use. Modrinth's `loaders` search
/// facet is unreliable cross-loader, so a chosen version's own `loaders` are the source of truth: a
/// Quilt pack accepts `fabric` builds, matching `Loader::compatible_facets`.
pub fn version_supports_loader(version: &VersionResp, loader: Loader) -> (r: bool)
    ensures
        r == supports(version.deep_view(), loader),
{
    let facets = loader.compatible_facets();
    let ghost usable = usable_loaders(loader);
    let ghost listed = version.deep_view().loaders;
    let mut i: usize = 0;
    while i < version.loaders.len()
        invariant
            facets.deep_view() == usable,
            usable == usable_loaders(loader),
            listed == version.deep_view().loaders,
            i <= version.loaders@.len(),
            forall|k: int| 0 <= k < i ==> !usable.contains(#[trigger] listed[k]),
        decreases version.loaders.len() - i,
    {
        assert(listed[i as int] == version.loaders@[i as int]@);
        let mut j: usize = 0;
        while j < facets.len()
            invariant
                facets.deep_view() == usable,
                usable == usable_loaders(loader),
                listed == version.deep_view().loaders,
                i < version.loaders@.len(),
                listed[i as int] == version.loaders@[i as int]@,
                j <= facets@.len(),
                forall|k: int| 0 <= k < j ==> #[trigger] usable[k] != listed[i as int],
            decreases facets.len() - j,
        {
            assert(usable[j as int] == facets@[j as int]@);
            if same(version.loaders[i].as_str(), facets[j]) {
                assert(usable.contains(listed[i as int]));
                return true;
            }
            j = j + 1;
        }
        i = i + 1;
    }
    false
}

// ---- the file of a version --------------------------------------------------------------------

/// The primary file from position `i` on.
pub open spec fn primary_from(files: Seq<VersionFileView>, i: int) -> Option<VersionFileView>
    decreases files.len() - i,
{
    if !(0 <= i < files.len()) {
        None
    } else if files[i].primary {
        Some(files[i])
    } else {
        primary_from(files, i + 1)
    }
}

/// The first primary file, or else the first file.
pub open spec fn file_taken(files: Seq<VersionFileView>) -> Option<VersionFileView> {
    match primary_from(files, 0) {
        Some(f) => Some(f),
        None => if files.len() > 0 {
            Some(files[0])
        } else {
            None
        },
    }
}

/// The file to download for a version: the primary-flagged file, else the first listed.
pub fn select_file(files: &[VersionFile]) -> (r: Option<&VersionFile>)
    ensures
        r.deep_view() == file_taken(files.deep_view()),
{
    let ghost all = files.deep_view();
    let mut i: usize = 0;
    while i < files.len()
        invariant
            all == files.deep_view(),
            i <= files@.len(),
            primary_from(all, 0) == primary_from(all, i as int),
        decreases files.len() - i,
    {
        assert(all[i as int] == files@[i as int].deep_view());
        if files[i].primary {
            return Some(&files[i]);
        }
        i = i + 1;
    }
    if files.len() > 0 {
        assert(all[0] == files@[0].deep_view());
        Some(&files[0])
    } else {
        None
    }
}

/// The hash format and hash to record: sha512 where there is one, else sha1.
pub open spec fn hash_taken(sha512: Option<Seq<char>>, sha1: Option<Seq<char>>) -> Option<
    (Seq<char>, Seq<char>),
> {
    match (sha512, sha1) {
        (Some(h), _) => Some(("sha512"@, h)),
        (None, Some(h)) => Some(("sha1"@, h)),
        (None, None) => None,
    }
}

/// The provider-native (hash_format, hash) to record: prefer sha512, fall back to sha1.
pub fn pick_hash(hashes: &FileHashes) -> (r: Option<(String, String)>)
    ensures
        r.deep_view() == hash_taken(hashes.sha512.deep_view(), hashes.sha1.deep_view()),
{
    match &hashes.sha512 {
        Some(sha512) => Some(("sha512".to_owned(), sha512.clone())),
        None => match &hashes.sha1 {
            Some(sha1) => Some(("sha1".to_owned(), sha1.clone())),
            None => None,
        },
    }
}

// ---- the API ----------------------------------------------------------------------------------

/// The words as a JSON list of strings, for words that need no escaping.
pub open spec fn json_words(words: Seq<Seq<char>>) -> Seq<char> {
    "[\""@ + joined(words, "\",\""@) + "\"]"@
}

/// A side counts as present where the project marks it required or optional.
pub open spec fn is_present(support: EnvSupport) -> bool {
    support == EnvSupport::Required || support == EnvSupport::Optional
}

/// What a project and its listed versions resolve to.
pub open spec fn modrinth_resolution(
    project: ProjectRespView,
    versions: Seq<VersionRespView>,
    loader: Loader,
    constraint: Seq<char>,
) -> Result<ResolvedVersionView, ModrinthFault> {
    let usable = versions.filter(|v: VersionRespView| supports(v, loader));
    let sorted = newest_first(usable);
    if usable.len() == 0 {
        Err(ModrinthFault::NoBuild)
    } else {
        resolution_of(project, version_taken(sorted, admitted_by(sorted, constraint)))
    }
}

/// What a project and the version taken resolve to.
pub open spec fn resolution_of(project: ProjectRespView, taken: Option<VersionRespView>) -> Result<
    ResolvedVersionView,
    ModrinthFault,
> {
    match taken {
        None => Err(ModrinthFault::NoMatch),
        Some(version) => match file_taken(version.files) {
            None => Err(ModrinthFault::NoFile),
            Some(file) => match hash_taken(file.sha512, file.sha1) {
                None => Err(ModrinthFault::NoHash(file.filename)),
                Some((hash_format, hash)) => Ok(
                    ResolvedVersionView {
                        project_id: version.project_id,
                        slug: project.slug,
                        project_name: project.title,
                        file_id: version.id,
                        version: version.version_number,
                        filename: file.filename,
                        url: Some(file.url),
                        hash_format,
                        hash,
                        size: file.size,
                        side: side_of_support(
                            is_present(project.client_side),
                            is_present(project.server_side),
                        ),
                        dependencies: modelled_deps(version.dependencies),
                    },
                ),
            },
        },
    }
}

impl EnvSupport {
    /// A side counts as "present" when the project marks it required or optional; only
    /// unsupported/unknown excludes it, matching packwiz's own derivation.
    pub fn present(self) -> (r: bool)
        ensures
            r == is_present(self),
    {
        matches!(self, EnvSupport::Required | EnvSupport::Optional)
    }

    /// The support that Modrinth's word stands for.
    pub fn from_token(word: &str) -> (r: Option<EnvSupport>)
        ensures
            match r {
                Some(EnvSupport::Required) => word@ == "required"@,
                Some(EnvSupport::Optional) => word@ == "optional"@,
                Some(EnvSupport::Unsupported) => word@ == "unsupported"@,
                Some(EnvSupport::Unknown) => word@ == "unknown"@,
                None => word@ != "required"@ && word@ != "optional"@ && word@ != "unsupported"@
                    && word@ != "unknown"@,
            },
    {
        if same(word, "required") {
            Some(EnvSupport::Required)
        } else if same(word, "optional") {
            Some(EnvSupport::Optional)
        } else if same(word, "unsupported") {
            Some(EnvSupport::Unsupported)
        } else if same(word, "unknown") {
            Some(EnvSupport::Unknown)
        } else {
            None
        }
    }
}

impl Modrinth {
    pub fn new() -> (r: Modrinth)
        ensures
            r.base@ == API_BASE@,
    {
        Modrinth { base: API_BASE.to_owned() }
    }

    /// Where to fetch a project.
    pub fn project_url(&self, id_or_slug: &str) -> (r: String)
        ensures
            r@ == self.base@ + "/project/"@ + id_or_slug@,
    {
        let mut url = self.base.clone();
        url.append("/project/");
        url.append(id_or_slug);
        url
    }

    /// Where to list the versions of a project.
    pub fn versions_url(&self, id_or_slug: &str) -> (r: String)
        ensures
            r@ == self.base@ + "/project/"@ + id_or_slug@ + "/version"@,
    {
        let mut url = self.project_url(id_or_slug);
        url.append("/version");
        url
    }

    /// Where to fetch one version by its id.
    pub fn version_url(&self, version_id: &str) -> (r: String)
        ensures
            r@ == self.base@ + "/version/"@ + version_id@,
    {
        let mut url = self.base.clone();
        url.append("/version/");
        url.append(version_id);
        url
    }

    /// Where to search.
    pub fn search_url(&self) -> (r: String)
        ensures
            r@ == self.base@ + "/search"@,
    {
        let mut url = self.base.clone();
        url.append("/search");
        url
    }

    /// The `loaders` parameter for listing versions: a JSON list of the usable loaders.
    pub fn loaders_facet(loader: Loader) -> (r: String)
        ensures
            r@ == json_words(usable_loaders(loader)),
    {
        let facets = loader.compatible_facets();
        let ghost usable = usable_loaders(loader);
        let mut words: Vec<String> = Vec::new();
        let mut i: usize = 0;
        while i < facets.len()
            invariant
                facets.deep_view() == usable,
                i <= facets@.len(),
                words.deep_view() == usable.take(i as int),
            decreases facets.len() - i,
        {
            assert(usable[i as int] == facets@[i as int]@);
            let ghost prior = words.deep_view();
            words.push(facets[i].to_owned());
            assert(words.deep_view() =~= prior.push(usable[i as int]));
            i = i + 1;
            assert(words.deep_view() =~= usable.take(i as int));
        }
        assert(usable.take(i as int) =~= usable);
        let mut out = "[\"".to_owned();
        out.append(join(&words, "\",\"").as_str());
        out.append("\"]");
        out
    }

    /// The `game_versions` parameter for listing versions.
    pub fn versions_facet(mc_version: &str) -> (r: String)
        ensures
            r@ == "[\""@ + mc_version@ + "\"]"@,
    {
        let mut out = "[\"".to_owned();
        out.append(mc_version);
        out.append("\"]");
        out
    }

    /// The `facets` parameter of a search: mods for this loader and Minecraft version.
    pub fn search_facets(loader: Loader, mc_version: &str) -> (r: String)
        ensures
            r@ == "[[\"project_type:mod\"],[\"categories:"@ + crate::loader::loader_word(loader)
                + "\"],[\"versions:"@ + mc_version@ + "\"]]"@,
    {
        let mut out = "[[\"project_type:mod\"],[\"categories:".to_owned();
        out.append(loader.modrinth_facet());
        out.append("\"],[\"versions:");
        out.append(mc_version);
        out.append("\"]]");
        out
    }

    /// The canonical slug of a project, but only when the project actually has a build for this
    /// loader. `None` if the project doesn't exist *or* has no compatible build, so `add` can fall
    /// through to a facet-filtered search instead of committing to an exact match it can't install.
    pub fn compatible_slug(
        project: Option<ProjectResp>,
        versions: &Vec<VersionResp>,
        loader: Loader,
    ) -> (r: Option<String>)
        ensures
            r.deep_view() == (match project {
                Some(p) => if exists|i: int|
                    0 <= i < versions@.len() && supports(#[trigger] versions.deep_view()[i], loader) {
                    Some(p@.slug)
                } else {
                    None
                },
                None => None,
            }),
    {
        let ghost all = versions.deep_view();
        match project {
            None => None,
            Some(p) => {
                let mut i: usize = 0;
                while i < versions.len()
                    invariant
                        project == Some(p),
                        all == versions.deep_view(),
                        i <= versions@.len(),
                        forall|k: int| 0 <= k < i ==> !supports(#[trigger] all[k], loader),
                    decreases versions.len() - i,
                {
                    assert(all[i as int] == versions@[i as int].deep_view());
                    if version_supports_loader(&versions[i], loader) {
                        return Some(p.slug);
                    }
                    i = i + 1;
                }
                None
            },
        }
    }

    /// The side a project belongs to.
    pub fn side_from(project: &ProjectResp) -> (r: Side)
        ensures
            r == side_of_support(
                is_present(project.client_side),
                is_present(project.server_side),
            ),
    {
        Side::from_env(project.client_side.present(), project.server_side.present())
    }

    /// Resolve the exact version to install for a project out of its listed versions, honoring the
    /// pack's loader and the manifest constraint (`"*"` = latest, otherwise an exact version string
    /// or a range).
    pub fn resolve(
        project: &ProjectResp,
        versions: Vec<VersionResp>,
        loader: Loader,
        constraint: &str,
    ) -> (r: Result<ResolvedVersion, ModrinthError>)
        ensures
            match r {
                Ok(v) => modrinth_resolution(
                    project@,
                    versions.deep_view(),
                    loader,
                    constraint@,
                ) == Ok::<ResolvedVersionView, ModrinthFault>(v@),
                Err(e) => modrinth_resolution(
                    project@,
                    versions.deep_view(),
                    loader,
                    constraint@,
                ) == Err::<ResolvedVersionView, ModrinthFault>(e@),
            },
    {
        let ghost listed = versions.deep_view();
        let ghost wanted = |v: VersionRespView| supports(v, loader);
        // The loaders facet is unreliable cross-loader; drop any version that doesn't actually list
        // a compatible loader so a wrong-loader build can never be chosen.
        let mut flags: Vec<bool> = Vec::new();
        let mut i: usize = 0;
        while i < versions.len()
            invariant
                listed == versions.deep_view(),
                i <= versions@.len(),
                flags@.len() == i,
                forall|k: int| 0 <= k < i ==> #[trigger] flags@[k] == supports(listed[k], loader),
            decreases versions.len() - i,
        {
            assert(listed[i as int] == versions@[i as int].deep_view());
            flags.push(version_supports_loader(&versions[i], loader));
            i = i + 1;
        }
        let mut usable = keep(versions, &flags, Ghost(wanted));
        if usable.len() == 0 {
            return Err(ModrinthError::NoBuild);
        }
        sort_versions_newest_first(&mut usable);
        let taken = choose_version(usable.as_slice(), constraint);
        Self::resolve_taken(project, taken)
    }

    /// What to install, given the version that was taken.
    pub fn resolve_taken(project: &ProjectResp, taken: Option<&VersionResp>) -> (r: Result<
        ResolvedVersion,
        ModrinthError,
    >)
        ensures
            match r {
                Ok(v) => resolution_of(project@, taken.deep_view()) == Ok::<
                    ResolvedVersionView,
                    ModrinthFault,
                >(v@),
                Err(e) => resolution_of(project@, taken.deep_view()) == Err::<
                    ResolvedVersionView,
                    ModrinthFault,
                >(e@),
            },
    {
        let chosen = match taken {
            Some(v) => v,
            None => {
                return Err(ModrinthError::NoMatch);
            },
        };
        let file = match select_file(chosen.files.as_slice()) {
            Some(f) => f,
            None => {
                return Err(ModrinthError::NoFile);
            },
        };
        let (hash_format, hash) = match pick_hash(&file.hashes) {
            Some(h) => h,
            None => {
                return Err(ModrinthError::NoHash(file.filename.clone()));
            },
        };
        let dependencies = collect_deps(chosen.dependencies.as_slice());
        Ok(
            ResolvedVersion {
                project_id: chosen.project_id.clone(),
                slug: project.slug.clone(),
                project_name: project.title.clone(),
                file_id: chosen.id.clone(),
                version: chosen.version_number.clone(),
                filename: file.filename.clone(),
                url: Some(file.url.clone()),
                hash_format,
                hash,
                size: file.size,
                side: Self::side_from(project),
                dependencies,
            },
        )
    }

    /// The metadata packwiz's `.pw.toml` omits, out of a version looked up by its id: the human
    /// version number, file size, and dependency edges. Used by `lode import`.
    pub fn version_by_id(version: VersionResp) -> (r: ImportedVersion)
        ensures
            r@ == (ImportedVersionView {
                version_number: version.deep_view().version_number,
                size: match file_taken(version.deep_view().files) {
                    Some(f) => f.size,
                    None => None,
                },
                dependencies: modelled_deps(version.deep_view().dependencies),
            }),
    {
        let size = match select_file(version.files.as_slice()) {
            Some(f) => f.size,
            None => None,
        };
        let dependencies = collect_deps(version.dependencies.as_slice());
        ImportedVersion { version_number: version.version_number, size, dependencies }
    }
}

// ---- laws -------------------------------------------------------------------------------------

/// What is resolved was listed, supports the pack's loader and satisfies the constraint; it is a
/// release wherever such a release is listed; and no listed version that qualifies in the same
/// way ranks before it.
pub proof fn resolved_version_is_the_newest_that_qualifies(
    project: ProjectRespView,
    versions: Seq<VersionRespView>,
    loader: Loader,
    constraint: Seq<char>,
)
    ensures
        modrinth_resolution(project, versions, loader, constraint) matches Ok(r) ==> exists|
            v: VersionRespView,
        |
            {
                &&& #[trigger] versions.contains(v)
                &&& supports(v, loader)
                &&& satisfied(v.version_number, constraint)
                &&& r.version == v.version_number && r.file_id == v.id && r.project_id
                    == v.project_id
                &&& forall|w: VersionRespView|
                    #[trigger] versions.contains(w) && supports(w, loader) && satisfied(
                        w.version_number,
                        constraint,
                    ) ==> {
                        &&& is_release(w) ==> is_release(v)
                        &&& is_release(w) == is_release(v) ==> !VersionResp::ranks_before(w, v)
                    }
            },
{
    broadcast use vstd::seq_lib::group_filter_ensures;

    let wanted = |v: VersionRespView| supports(v, loader);
    let usable = versions.filter(wanted);
    let sorted = newest_first(usable);
    if modrinth_resolution(project, versions, loader, constraint) is Ok {
        let admitted = admitted_by(sorted, constraint);
        let stable = releases(sorted);
        stable_first_is_best(admitted, stable);
        let k = stable_first(admitted, stable)->0;
        let v = sorted[k];
        version_order_is_strict();
        arranging_orders::<VersionResp>(usable);
        arranging_permutes::<VersionResp>(usable);
        members_survive(usable, sorted);
        assert(sorted.contains(v));
        assert(usable.contains(v));
        let i = choose|i: int| 0 <= i < usable.len() && usable[i] == v;
        assert(wanted(usable[i]));
        versions.lemma_filter_contains_rev(wanted, v);
        assert forall|w: VersionRespView|
            #[trigger] versions.contains(w) && supports(w, loader) && satisfied(
                w.version_number,
                constraint,
            ) implies {
            &&& is_release(w) ==> is_release(v)
            &&& is_release(w) == is_release(v) ==> !VersionResp::ranks_before(w, v)
        } by {
            assert(wanted(w));
            assert(usable.contains(w));
            assert(sorted.contains(w));
            let j = choose|j: int| 0 <= j < sorted.len() && sorted[j] == w;
            assert(admitted[j]);
            assert(stable[j] == is_release(w));
            if j > k {
                assert(!VersionResp::ranks_before(sorted[j], sorted[k]));
            } else if j == k {
                assert(!VersionResp::ranks_before(w, w));
            }
        }
    }
}

/// Sorting keeps the members of a list.
proof fn members_survive(usable: Seq<VersionRespView>, sorted: Seq<VersionRespView>)
    requires
        usable.to_multiset() == sorted.to_multiset(),
    ensures
        forall|v: VersionRespView| #[trigger] usable.contains(v) <==> sorted.contains(v),
{
    crate::order::same_members(usable, sorted);
}

/// A version that supports only another loader is never resolved.
pub proof fn wrong_loader_is_never_resolved(
    project: ProjectRespView,
    versions: Seq<VersionRespView>,
    loader: Loader,
    constraint: Seq<char>,
)
    requires
        forall|i: int| 0 <= i < versions.len() ==> !supports(#[trigger] versions[i], loader),
    ensures
        modrinth_resolution(project, versions, loader, constraint) == Err::<
            ResolvedVersionView,
            ModrinthFault,
        >(ModrinthFault::NoBuild),
{
    broadcast use vstd::seq_lib::group_filter_ensures;

    let wanted = |v: VersionRespView| supports(v, loader);
    let usable = versions.filter(wanted);
    if usable.len() > 0 {
        assert(wanted(usable[0]));
        assert(usable.contains(usable[0]));
        versions.lemma_filter_contains_rev(wanted, usable[0]);
    }
}

/// A listed version that the pack can use: it lists the pack's loader, or Fabric where the pack is for
/// Quilt, and its number satisfies the constraint.
pub open spec fn qualifies(
    versions: Seq<VersionRespView>,
    v: VersionRespView,
    loader: Loader,
    constraint: Seq<char>,
) -> bool {
    &&& versions.contains(v)
    &&& v.loaders.contains(loader_word(loader)) || (loader == Loader::Quilt && v.loaders.contains(
        "fabric"@,
    ))
    &&& satisfied(v.version_number, constraint)
}

/// Of two versions that qualify, whether `v` is as good as `w`: a release is better than none, and of
/// two alike the one that was published later is better, and of two published together the one with the
/// later id.
pub open spec fn as_good_as(v: VersionRespView, w: VersionRespView) -> bool {
    &&& w.version_type == "release"@ ==> v.version_type == "release"@
    &&& (w.version_type == "release"@ <==> v.version_type == "release"@) ==> {
        &&& !before(v.date_published, w.date_published)
        &&& v.date_published == w.date_published ==> !before(v.id, w.id)
    }
}

/// The file of a version: a primary one where there is one, else the first.
pub open spec fn is_its_file(v: VersionRespView, f: VersionFileView) -> bool {
    exists|i: int|
        {
            &&& 0 <= i < v.files.len() && #[trigger] v.files[i] == f
            &&& f.primary ==> forall|j: int| 0 <= j < i ==> !(#[trigger] v.files[j]).primary
            &&& !f.primary ==> i == 0 && forall|j: int|
                0 <= j < v.files.len() ==> !(#[trigger] v.files[j]).primary
        }
}

/// Whenever a listed version qualifies, whatever else is listed, the best one that does is resolved:
/// with its number, its id, and its file, by the strongest hash that the file carries, and with the
/// project's names. It fails only where that version has no file or its file no hash.
pub proof fn a_version_that_qualifies_is_resolved(
    project: ProjectRespView,
    versions: Seq<VersionRespView>,
    loader: Loader,
    constraint: Seq<char>,
    w: VersionRespView,
)
    requires
        qualifies(versions, w, loader, constraint),
    ensures
        exists|v: VersionRespView|
            #![trigger qualifies(versions, v, loader, constraint)]
            {
                &&& qualifies(versions, v, loader, constraint)
                &&& as_good_as(v, w)
                &&& forall|u: VersionRespView|
                    #[trigger] qualifies(versions, u, loader, constraint) ==> as_good_as(v, u)
                &&& match modrinth_resolution(project, versions, loader, constraint) {
                    Ok(r) => {
                        &&& r.version == v.version_number && r.file_id == v.id && r.project_id
                            == v.project_id
                        &&& r.slug == project.slug && r.project_name == project.title
                        &&& r.dependencies == modelled_deps(v.dependencies)
                        &&& exists|f: VersionFileView|
                            #![trigger is_its_file(v, f)]
                            {
                                &&& is_its_file(v, f)
                                &&& r.filename == f.filename && r.url == Some(f.url) && r.size
                                    == f.size
                                &&& f.sha512 matches Some(h) ==> r.hash_format == "sha512"@
                                    && r.hash == h
                                &&& f.sha512 is None ==> r.hash_format == "sha1"@ && f.sha1
                                    == Some(r.hash)
                            }
                    },
                    Err(ModrinthFault::NoFile) => v.files.len() == 0,
                    Err(ModrinthFault::NoHash(name)) => exists|f: VersionFileView|
                        #[trigger] is_its_file(v, f) && f.sha512 is None && f.sha1 is None
                            && f.filename == name,
                    Err(_) => false,
                }
            },
{
    let v = the_best_is_taken(versions, loader, constraint, w);
    the_file_is_primary(v);
    assert(qualifies(versions, v, loader, constraint));
    match file_taken(v.files) {
        Some(f) => {
            assert(is_its_file(v, f));
        },
        None => {},
    }
}

/// Where a version is listed for the loader but none qualifies, nothing matches; where none is listed for
/// the loader, there is no build.
pub proof fn nothing_is_resolved_without_a_version_that_qualifies(
    project: ProjectRespView,
    versions: Seq<VersionRespView>,
    loader: Loader,
    constraint: Seq<char>,
    w: VersionRespView,
)
    requires
        versions.contains(w),
        w.loaders.contains(loader_word(loader)),
        forall|v: VersionRespView| !#[trigger] qualifies(versions, v, loader, constraint),
    ensures
        modrinth_resolution(project, versions, loader, constraint) == Err::<
            ResolvedVersionView,
            ModrinthFault,
        >(ModrinthFault::NoMatch),
{
    broadcast use vstd::seq_lib::group_filter_ensures;

    let wanted = |v: VersionRespView| supports(v, loader);
    let usable = versions.filter(wanted);
    let sorted = newest_first(usable);
    let admitted = admitted_by(sorted, constraint);
    usable_means_listed(w, loader);
    assert(wanted(w));
    assert(usable.contains(w));
    stable_first_is_best(admitted, releases(sorted));
    arranging_permutes::<VersionResp>(usable);
    members_survive(usable, sorted);
    if stable_first(admitted, releases(sorted)) is Some {
        let k = stable_first(admitted, releases(sorted))->0;
        let v = sorted[k];
        assert(sorted.contains(v));
        assert(usable.contains(v));
        let i = choose|i: int| 0 <= i < usable.len() && usable[i] == v;
        assert(wanted(usable[i]));
        versions.lemma_filter_contains_rev(wanted, v);
        usable_means_listed(v, loader);
        assert(qualifies(versions, v, loader, constraint));
    }
}

/// A version can be used exactly where it lists the pack's loader, or Fabric for Quilt.
pub proof fn usable_means_listed(v: VersionRespView, loader: Loader)
    ensures
        supports(v, loader) <==> v.loaders.contains(loader_word(loader)) || (loader == Loader::Quilt
            && v.loaders.contains("fabric"@)),
{
    let usable = usable_loaders(loader);
    assert(usable[0] == loader_word(loader));
    if loader == Loader::Quilt {
        assert(usable[1] == "fabric"@);
    }
    if supports(v, loader) {
        let i = choose|i: int|
            0 <= i < v.loaders.len() && usable.contains(#[trigger] v.loaders[i]);
        let k = choose|k: int| 0 <= k < usable.len() && usable[k] == v.loaders[i];
        assert(v.loaders.contains(v.loaders[i]));
    }
    if v.loaders.contains(loader_word(loader)) {
        let i = choose|i: int| 0 <= i < v.loaders.len() && v.loaders[i] == loader_word(loader);
        assert(usable.contains(v.loaders[i]));
    }
    if loader == Loader::Quilt && v.loaders.contains("fabric"@) {
        let i = choose|i: int| 0 <= i < v.loaders.len() && v.loaders[i] == "fabric"@;
        assert(usable.contains(v.loaders[i]));
    }
}

proof fn the_best_is_taken(
    versions: Seq<VersionRespView>,
    loader: Loader,
    constraint: Seq<char>,
    w: VersionRespView,
) -> (v: VersionRespView)
    requires
        qualifies(versions, w, loader, constraint),
    ensures
        ({
            let usable = versions.filter(|v: VersionRespView| supports(v, loader));
            let sorted = newest_first(usable);
            usable.len() > 0 && version_taken(sorted, admitted_by(sorted, constraint)) == Some(v)
        }),
        qualifies(versions, v, loader, constraint),
        forall|u: VersionRespView|
            #[trigger] qualifies(versions, u, loader, constraint) ==> as_good_as(v, u),
{
    broadcast use vstd::seq_lib::group_filter_ensures;

    let wanted = |v: VersionRespView| supports(v, loader);
    let usable = versions.filter(wanted);
    let sorted = newest_first(usable);
    let admitted = admitted_by(sorted, constraint);
    let stable = releases(sorted);
    version_order_is_strict();
    arranging_orders::<VersionResp>(usable);
    arranging_permutes::<VersionResp>(usable);
    members_survive(usable, sorted);
    stable_first_is_best(admitted, stable);
    usable_means_listed(w, loader);
    assert(wanted(w));
    assert(usable.contains(w));
    assert(sorted.contains(w));
    let at = choose|at: int| 0 <= at < sorted.len() && sorted[at] == w;
    assert(admitted[at]);
    let k = stable_first(admitted, stable)->0;
    let v = sorted[k];
    assert(sorted.contains(v));
    assert(usable.contains(v));
    let i = choose|i: int| 0 <= i < usable.len() && usable[i] == v;
    assert(wanted(usable[i]));
    versions.lemma_filter_contains_rev(wanted, v);
    usable_means_listed(v, loader);
    assert(admitted[k]);
    assert forall|u: VersionRespView| #[trigger]
        qualifies(versions, u, loader, constraint) implies as_good_as(v, u) by {
        usable_means_listed(u, loader);
        assert(wanted(u));
        assert(usable.contains(u));
        assert(sorted.contains(u));
        let j = choose|j: int| 0 <= j < sorted.len() && sorted[j] == u;
        assert(admitted[j]);
        assert(stable[j] == is_release(u));
        assert(stable[k] == is_release(v));
        if j > k {
            assert(!VersionResp::ranks_before(sorted[j], sorted[k]));
        } else if j == k {
            assert(!VersionResp::ranks_before(u, u));
        }
    }
    v
}

proof fn the_file_is_primary(v: VersionRespView)
    ensures
        match file_taken(v.files) {
            Some(f) => is_its_file(v, f),
            None => v.files.len() == 0,
        },
{
    first_primary(v.files, 0);
    match primary_from(v.files, 0) {
        Some(f) => {
            let i = choose|i: int|
                0 <= i < v.files.len() && #[trigger] v.files[i] == f && f.primary && forall|j: int|
                    0 <= j < i ==> !(#[trigger] v.files[j]).primary;
            assert(v.files[i] == f);
        },
        None => {
            if v.files.len() > 0 {
                assert(v.files[0] == file_taken(v.files)->0);
            }
        },
    }
}

proof fn first_primary(files: Seq<VersionFileView>, from: int)
    requires
        0 <= from <= files.len(),
    ensures
        match primary_from(files, from) {
            Some(f) => exists|i: int|
                from <= i < files.len() && #[trigger] files[i] == f && f.primary && forall|j: int|
                    from <= j < i ==> !(#[trigger] files[j]).primary,
            None => forall|j: int| from <= j < files.len() ==> !(#[trigger] files[j]).primary,
        },
    decreases files.len() - from,
{
    if from < files.len() {
        if files[from].primary {
            assert(files[from] == primary_from(files, from)->0);
        } else {
            first_primary(files, from + 1);
        }
    }
}

/// The resolved mod is for the sides on which the project runs: it is installed on the client exactly
/// where the project is required or optional there, and likewise on the server.
pub proof fn the_side_is_where_the_project_runs(
    project: ProjectRespView,
    versions: Seq<VersionRespView>,
    loader: Loader,
    constraint: Seq<char>,
)
    ensures
        modrinth_resolution(project, versions, loader, constraint) matches Ok(r) ==> {
            &&& (r.side == Side::Client || r.side == Side::Both) <==> (project.client_side
                == EnvSupport::Required || project.client_side == EnvSupport::Optional)
            &&& (r.side == Side::Server || r.side == Side::Both) <==> (project.server_side
                == EnvSupport::Required || project.server_side == EnvSupport::Optional)
        },
{
}

/// A dependency that is of a kind that counts and names its project.
pub open spec fn is_known_dep(d: VersionDepView) -> bool {
    &&& d.project_id is Some
    &&& d.dependency_type == "required"@ || d.dependency_type == "optional"@ || d.dependency_type
        == "incompatible"@ || d.dependency_type == "embedded"@
}

/// The dependencies of a version are those that name a project and are of a known kind, in the order in
/// which they are listed, each of its project and its kind.
pub proof fn known_dependencies_are_kept(deps: Seq<VersionDepView>, j: int)
    ensures
        ({
            let kept = modelled_deps(deps);
            let known = deps.filter(|d: VersionDepView| is_known_dep(d));
            &&& kept.len() == known.len()
            &&& 0 <= j < kept.len() ==> {
                &&& known[j].project_id == Some(kept[j].project_id)
                &&& kept[j].kind == DepKind::Required <==> known[j].dependency_type == "required"@
                &&& kept[j].kind == DepKind::Optional <==> known[j].dependency_type == "optional"@
                &&& kept[j].kind == DepKind::Incompatible <==> known[j].dependency_type
                    == "incompatible"@
                &&& kept[j].kind == DepKind::Embedded <==> known[j].dependency_type == "embedded"@
            }
        }),
    decreases deps.len(),
{
    reveal(Seq::filter);
    reveal_strlit("required");
    reveal_strlit("optional");
    reveal_strlit("incompatible");
    reveal_strlit("embedded");
    assert("required"@[0] == 'r' && "optional"@[0] == 'o' && "incompatible"@[0] == 'i'
        && "embedded"@[0] == 'e');
    if deps.len() > 0 {
        known_dependencies_are_kept(deps.drop_last(), j);
    }
}

/// What an import looks up of a version is its own number and dependencies, and the size of its file.
pub proof fn a_version_by_id_is_its_own(version: VersionResp, r: ImportedVersion)
    requires
        call_ensures(Modrinth::version_by_id, (version,), r),
    ensures
        r.version_number@ == version.version_number@,
        r@.dependencies == modelled_deps(version.deep_view().dependencies),
        version.files@.len() == 0 ==> r.size is None,
        version.files@.len() > 0 ==> exists|f: VersionFileView|
            #[trigger] is_its_file(version.deep_view(), f) && r.size == f.size,
{
    let v = version.deep_view();
    the_file_is_primary(v);
    assert(v.files.len() == version.files@.len());
    if v.files.len() > 0 {
        assert(is_its_file(v, file_taken(v.files)->0));
    }
}

/// A project fits a pack where one of its versions does, and is then known by its own slug.
pub proof fn a_project_fits_by_one_of_its_versions(
    project: Option<ProjectResp>,
    versions: &Vec<VersionResp>,
    loader: Loader,
    r: Option<String>,
)
    requires
        call_ensures(Modrinth::compatible_slug, (project, versions, loader), r),
    ensures
        r is Some <==> project is Some && exists|i: int|
            0 <= i < versions@.len() && supports(#[trigger] versions.deep_view()[i], loader),
        r is Some && project is Some ==> r->0@ == project->0.slug@,
{
}

/// A project stands at its own address under the API, and its versions below it; a version has an address
/// of its own.
pub proof fn modrinth_is_asked_by_address(
    api: Modrinth,
    id: &str,
    project: String,
    versions: String,
    version: String,
    search: String,
    facet: String,
)
    requires
        call_ensures(Modrinth::new, (), api),
        call_ensures(Modrinth::project_url, (&api, id), project),
        call_ensures(Modrinth::versions_url, (&api, id), versions),
        call_ensures(Modrinth::version_url, (&api, id), version),
        call_ensures(Modrinth::search_url, (&api,), search),
        call_ensures(Modrinth::versions_facet, (id,), facet),
    ensures
        project@ == "https://api.modrinth.com/v2"@ + ("/project/"@ + id@),
        versions@ == project@ + "/version"@,
        version@ == "https://api.modrinth.com/v2"@ + ("/version/"@ + id@),
        search@ == "https://api.modrinth.com/v2"@ + "/search"@,
        facet@.len() == id@.len() + 4,
        facet@.subrange(2, id@.len() as int + 2) == id@,
        facet@[0] == '[' && facet@[1] == '"' && facet@[id@.len() as int + 2] == '"' && facet@.last()
            == ']',
{
    reveal_strlit("[\"");
    reveal_strlit("\"]");
    assert(project@ =~= "https://api.modrinth.com/v2"@ + ("/project/"@ + id@));
    assert(version@ =~= "https://api.modrinth.com/v2"@ + ("/version/"@ + id@));
    assert(facet@.subrange(2, id@.len() as int + 2) =~= id@);
}

/// A kind of dependency is known by its own word, and by no other.
pub proof fn dependency_kinds_are_known_by_word(word: Seq<char>)
    ensures
        dep_kind_named(word) == Some(DepKind::Required) <==> word == "required"@,
        dep_kind_named(word) == Some(DepKind::Optional) <==> word == "optional"@,
        dep_kind_named(word) == Some(DepKind::Incompatible) <==> word == "incompatible"@,
        dep_kind_named(word) == Some(DepKind::Embedded) <==> word == "embedded"@,
{
    reveal_strlit("required");
    reveal_strlit("optional");
    reveal_strlit("incompatible");
    reveal_strlit("embedded");
    assert("required"@[0] == 'r' && "optional"@[0] == 'o' && "incompatible"@[0] == 'i'
        && "embedded"@[0] == 'e');
}

/// A list of words is written as a JSON array: one word between its quotes, and each further word behind a
/// comma.
pub proof fn words_are_written_as_an_array(words: Seq<Seq<char>>, word: Seq<char>)
    requires
        words.len() > 0,
    ensures
        json_words(seq![word]) == "[\""@ + word + "\"]"@,
        json_words(words.push(word)) == json_words(words).drop_last() + ","@ + json_words(
            seq![word],
        ).drop_first(),
{
    reveal_strlit("[\"");
    reveal_strlit("\"]");
    reveal_strlit("\",\"");
    reveal_strlit(",");
    assert(words.push(word).drop_last() =~= words);
    let quoted = "[\""@ + word + "\"]"@;
    assert(json_words(seq![word]) =~= quoted);
    assert(json_words(words.push(word)) =~= json_words(words).drop_last() + ","@
        + quoted.drop_first());
}

} // verus!
