//! CurseForge: which file of a mod a pack gets.
use vstd::prelude::*;

use crate::loader::Loader;
use crate::lock::DepKind;
use crate::order::{
    arrange, arranged, arranging_ignores_input_order, arranging_orders, arranging_permutes,
    same_members, strict_order, Ranked,
};
use crate::providers::{
    prefer_stable, stable_first, stable_first_is_best, ResolvedDep, ResolvedDepView,
    ResolvedVersion, ResolvedVersionView,
};
use crate::side::Side;
use crate::text::{
    before, before_is_total, decimal, decimal_reads_back, decimal_text, has_text, is_before,
    is_digit, number, occurs, parse_number, same, text_order_is_strict, unsigned,
};
use crate::version_req::{is_range, range_syntax, satisfied};

verus! {

/// Where the CurseForge API is served.
pub const API_BASE: &'static str = "https://api.curseforge.com";

/// CurseForge's number for Minecraft.
pub const MINECRAFT_GAME_ID: u32 = 432;

/// Files-per-page when paging the CurseForge files endpoint. CurseForge caps `index + pageSize`
/// at 10000, so we stop before that ceiling.
pub const FILES_PAGE_SIZE: u32 = 50;

/// The `index` ceiling CurseForge enforces on the files endpoint; paging past it 400s.
pub const FILES_INDEX_CAP: u32 = 10_000;

/// The CurseForge "Eternal" API. The API key is never embedded: it comes from the
/// user (env `CF_API_KEY`), so we never redistribute a key and never require a login.
#[derive(Debug)]
pub struct Curseforge {
    pub key: String,
}

/// A CurseForge file resolved at install time: the download URL is fetched just-in-time and
/// never persisted (its terms forbid caching the URL). `url` is `None` when the author disabled
/// third-party distribution, in which case the file must be downloaded by hand from `website_url`.
#[derive(Debug)]
pub struct CfDownload {
    pub url: Option<String>,
    pub filename: String,
    pub hash_format: String,
    pub hash: String,
    pub website_url: Option<String>,
}

#[derive(Debug)]
pub struct CfMod {
    pub id: u32,
    pub name: String,
    pub slug: String,
    pub links: CfLinks,
}

#[derive(Debug)]
pub struct CfLinks {
    pub website_url: Option<String>,
}

#[derive(Debug)]
pub struct CfFile {
    pub id: u32,
    pub display_name: String,
    pub file_name: String,
    pub download_url: Option<String>,
    pub hashes: Vec<CfHash>,
    pub file_length: Option<u64>,
    pub file_date: String,
    pub release_type: u32,
    pub dependencies: Vec<CfDep>,
}

#[derive(Debug)]
pub struct CfHash {
    pub value: String,
    /// CurseForge algo ids: 1 = sha1, 2 = md5.
    pub algo: u32,
}

#[derive(Debug, Clone, Copy)]
pub struct CfDep {
    pub mod_id: u32,
    pub relation_type: u32,
}

/// How to look a mod up.
#[derive(Debug, Clone, Copy, PartialEq, Eq, Structural)]
pub enum CfLookup {
    ById(u32),
    BySlug,
}

/// Why no file of a mod can be installed.
#[derive(Debug)]
pub enum CurseforgeError {
    /// No key is configured.
    NoKey,
    /// No mod has the slug.
    NoMod,
    /// The mod has no file for the loader and Minecraft version.
    NoFile,
    /// No file satisfies the constraint.
    NoMatch,
    /// The named file carries neither a sha1 nor an md5 hash.
    NoHash(String),
}

// ---- views ------------------------------------------------------------------------------------

#[verifier::ext_equal]
pub struct CfModView {
    pub id: u32,
    pub name: Seq<char>,
    pub slug: Seq<char>,
    pub website_url: Option<Seq<char>>,
}

#[verifier::ext_equal]
pub struct CfFileView {
    pub id: u32,
    pub display_name: Seq<char>,
    pub file_name: Seq<char>,
    pub download_url: Option<Seq<char>>,
    pub hashes: Seq<CfHashView>,
    pub file_length: Option<u64>,
    pub file_date: Seq<char>,
    pub release_type: u32,
    pub dependencies: Seq<CfDep>,
}

#[verifier::ext_equal]
pub struct CfHashView {
    pub value: Seq<char>,
    pub algo: u32,
}

#[verifier::ext_equal]
pub struct CfDownloadView {
    pub url: Option<Seq<char>>,
    pub filename: Seq<char>,
    pub hash_format: Seq<char>,
    pub hash: Seq<char>,
    pub website_url: Option<Seq<char>>,
}

#[verifier::ext_equal]
pub enum CurseforgeFault {
    NoKey,
    NoMod,
    NoFile,
    NoMatch,
    NoHash(Seq<char>),
}

impl View for CfMod {
    type V = CfModView;

    open spec fn view(&self) -> CfModView {
        CfModView {
            id: self.id,
            name: self.name@,
            slug: self.slug@,
            website_url: self.links.website_url.deep_view(),
        }
    }
}

impl DeepView for CfMod {
    type V = CfModView;

    open spec fn deep_view(&self) -> CfModView {
        self@
    }
}

impl DeepView for CfHash {
    type V = CfHashView;

    open spec fn deep_view(&self) -> CfHashView {
        CfHashView { value: self.value@, algo: self.algo }
    }
}

impl DeepView for CfFile {
    type V = CfFileView;

    open spec fn deep_view(&self) -> CfFileView {
        CfFileView {
            id: self.id,
            display_name: self.display_name@,
            file_name: self.file_name@,
            download_url: self.download_url.deep_view(),
            hashes: self.hashes.deep_view(),
            file_length: self.file_length,
            file_date: self.file_date@,
            release_type: self.release_type,
            dependencies: self.dependencies@,
        }
    }
}

impl View for CfDownload {
    type V = CfDownloadView;

    open spec fn view(&self) -> CfDownloadView {
        CfDownloadView {
            url: self.url.deep_view(),
            filename: self.filename@,
            hash_format: self.hash_format@,
            hash: self.hash@,
            website_url: self.website_url.deep_view(),
        }
    }
}

impl View for CurseforgeError {
    type V = CurseforgeFault;

    open spec fn view(&self) -> CurseforgeFault {
        match self {
            CurseforgeError::NoKey => CurseforgeFault::NoKey,
            CurseforgeError::NoMod => CurseforgeFault::NoMod,
            CurseforgeError::NoFile => CurseforgeFault::NoFile,
            CurseforgeError::NoMatch => CurseforgeFault::NoMatch,
            CurseforgeError::NoHash(name) => CurseforgeFault::NoHash(name@),
        }
    }
}

// ---- what the answers mean --------------------------------------------------------------------

pub open spec fn loader_number(loader: Loader) -> u32 {
    match loader {
        Loader::Forge => 1,
        Loader::Fabric => 4,
        Loader::Quilt => 5,
        Loader::Neoforge => 6,
    }
}

/// The first hash of the given algorithm, from position `i` on.
pub open spec fn hash_with(hashes: Seq<CfHashView>, algo: u32, i: int) -> Option<Seq<char>>
    decreases hashes.len() - i,
{
    if !(0 <= i < hashes.len()) {
        None
    } else if hashes[i].algo == algo {
        Some(hashes[i].value)
    } else {
        hash_with(hashes, algo, i + 1)
    }
}

/// The hash format and hash to record: sha1 where there is one, else md5.
pub open spec fn preferred_hash(hashes: Seq<CfHashView>) -> Option<(Seq<char>, Seq<char>)> {
    match (hash_with(hashes, 1, 0), hash_with(hashes, 2, 0)) {
        (Some(h), _) => Some(("sha1"@, h)),
        (None, Some(h)) => Some(("md5"@, h)),
        (None, None) => None,
    }
}

/// The index of the next page, where there is one to fetch.
pub open spec fn next_index(page_len: u32, index: u32) -> Option<int> {
    if page_len < FILES_PAGE_SIZE || index + FILES_PAGE_SIZE >= FILES_INDEX_CAP {
        None
    } else {
        Some(index + FILES_PAGE_SIZE)
    }
}

/// A file satisfies a constraint: a star takes everything, a range goes by the display name, and
/// anything else is looked for in either name.
pub open spec fn file_admitted(file: CfFileView, constraint: Seq<char>) -> bool {
    if constraint == "*"@ {
        true
    } else if range_syntax(constraint) {
        satisfied(file.display_name, constraint)
    } else {
        occurs(constraint, file.file_name) || occurs(constraint, file.display_name)
    }
}

pub open spec fn files_admitted(files: Seq<CfFileView>, constraint: Seq<char>) -> Seq<bool> {
    Seq::new(files.len(), |i: int| file_admitted(files[i], constraint))
}

pub open spec fn is_stable(file: CfFileView) -> bool {
    file.release_type == 1
}

pub open spec fn stable_files(files: Seq<CfFileView>) -> Seq<bool> {
    Seq::new(files.len(), |i: int| is_stable(files[i]))
}

/// Of files ordered newest first, the one to take, given which are admitted.
pub open spec fn cf_file_taken(files: Seq<CfFileView>, admitted: Seq<bool>) -> Option<CfFileView> {
    match stable_first(admitted, stable_files(files)) {
        Some(i) => Some(files[i]),
        None => None,
    }
}

/// The required dependencies (relation type 3), in order.
pub open spec fn required_deps(deps: Seq<CfDep>) -> Seq<ResolvedDepView>
    decreases deps.len(),
{
    if deps.len() == 0 {
        Seq::empty()
    } else if deps.last().relation_type == 3 {
        required_deps(deps.drop_last()).push(
            ResolvedDepView {
                project_id: decimal(deps.last().mod_id as nat),
                kind: DepKind::Required,
            },
        )
    } else {
        required_deps(deps.drop_last())
    }
}

impl Ranked for CfFile {
    open spec fn ranks_before(a: CfFileView, b: CfFileView) -> bool {
        before(b.file_date, a.file_date) || (a.file_date == b.file_date && b.id < a.id)
    }

    fn is_ranked_before(&self, other: &Self) -> (r: bool) {
        is_before(other.file_date.as_str(), self.file_date.as_str()) || (same(
            self.file_date.as_str(),
            other.file_date.as_str(),
        ) && other.id < self.id)
    }
}

/// Newest first, and on the same date the greater id first.
pub open spec fn newest_files_first(files: Seq<CfFileView>) -> Seq<CfFileView> {
    arranged::<CfFile>(files)
}

/// What a mod and its listed files resolve to.
pub open spec fn curseforge_resolution(
    cf_mod: CfModView,
    files: Seq<CfFileView>,
    constraint: Seq<char>,
) -> Result<ResolvedVersionView, CurseforgeFault> {
    let sorted = newest_files_first(files);
    if files.len() == 0 {
        Err(CurseforgeFault::NoFile)
    } else {
        cf_resolution_of(cf_mod, cf_file_taken(sorted, files_admitted(sorted, constraint)))
    }
}

/// What a mod and the file taken resolve to. The download URL is never part of it.
pub open spec fn cf_resolution_of(cf_mod: CfModView, taken: Option<CfFileView>) -> Result<
    ResolvedVersionView,
    CurseforgeFault,
> {
    match taken {
        None => Err(CurseforgeFault::NoMatch),
        Some(file) => match preferred_hash(file.hashes) {
            None => Err(CurseforgeFault::NoHash(file.file_name)),
            Some((hash_format, hash)) => Ok(
                ResolvedVersionView {
                    project_id: decimal(cf_mod.id as nat),
                    slug: cf_mod.slug,
                    project_name: cf_mod.name,
                    file_id: decimal(file.id as nat),
                    version: file.display_name,
                    filename: file.file_name,
                    url: None,
                    hash_format,
                    hash,
                    size: file.file_length,
                    side: Side::Both,
                    dependencies: required_deps(file.dependencies),
                },
            ),
        },
    }
}

// ---- the API ----------------------------------------------------------------------------------

impl Curseforge {
    /// The API with the configured key.
    pub fn from_config(key: Option<String>) -> (r: Result<Curseforge, CurseforgeError>)
        ensures
            match (key, r) {
                (Some(k), Ok(cf)) => cf.key == k,
                (None, Err(e)) => e@ == CurseforgeFault::NoKey,
                _ => false,
            },
    {
        match key {
            Some(key) => Ok(Curseforge { key }),
            None => Err(CurseforgeError::NoKey),
        }
    }

    /// CurseForge's number for a loader.
    pub fn loader_type(loader: Loader) -> (r: u32)
        ensures
            r == loader_number(loader),
    {
        match loader {
            Loader::Forge => 1,
            Loader::Fabric => 4,
            Loader::Quilt => 5,
            Loader::Neoforge => 6,
        }
    }

    fn hash_of(file: &CfFile, algo: u32) -> (r: Option<String>)
        ensures
            r.deep_view() == hash_with(file.deep_view().hashes, algo, 0),
    {
        let ghost all = file.deep_view().hashes;
        let mut i: usize = 0;
        while i < file.hashes.len()
            invariant
                all == file.hashes.deep_view(),
                i <= file.hashes@.len(),
                hash_with(all, algo, 0) == hash_with(all, algo, i as int),
            decreases file.hashes.len() - i,
        {
            assert(all[i as int] == file.hashes@[i as int].deep_view());
            if file.hashes[i].algo == algo {
                return Some(file.hashes[i].value.clone());
            }
            i = i + 1;
        }
        None
    }

    /// The hash to record for a file: sha1, or else md5.
    pub fn best_hash(file: &CfFile) -> (r: Option<(String, String)>)
        ensures
            r.deep_view() == preferred_hash(file.deep_view().hashes),
    {
        match Self::hash_of(file, 1) {
            Some(h) => Some(("sha1".to_owned(), h)),
            None => match Self::hash_of(file, 2) {
                Some(h) => Some(("md5".to_owned(), h)),
                None => None,
            },
        }
    }

    /// The next `index` to request after a page of `page_len` items fetched at `index`, or `None`
    /// when paging should stop: a short page is the last one, and paging must not cross the API's
    /// `index` ceiling (requests past it 400).
    pub fn next_page_index(page_len: u32, index: u32) -> (r: Option<u32>)
        requires
            page_len >= FILES_PAGE_SIZE ==> index + FILES_PAGE_SIZE <= u32::MAX,
        ensures
            match r {
                Some(next) => next_index(page_len, index) == Some(next as int),
                None => next_index(page_len, index) is None,
            },
    {
        if page_len < FILES_PAGE_SIZE {
            return None;
        }
        let next: u32 = index + FILES_PAGE_SIZE;
        if next >= FILES_INDEX_CAP {
            None
        } else {
            Some(next)
        }
    }

    /// Deterministic newest-first ordering: file date descending, numeric file id descending as the
    /// tiebreak so identical timestamps still resolve to a stable choice.
    pub fn sort_files_newest_first(files: &mut Vec<CfFile>)
        ensures
            final(files).deep_view() == newest_files_first(old(files).deep_view()),
    {
        let mut unsorted: Vec<CfFile> = Vec::new();
        std::mem::swap(files, &mut unsorted);
        *files = arrange(unsorted);
    }

    /// From an already-sorted list, the file matching `constraint` (`"*"` = anything, a range =
    /// best-effort semver on the display name, otherwise a substring of either name), preferring a
    /// stable release (`release_type == 1`) and falling back to the first match.
    pub fn choose_matching<'a>(files: &'a [CfFile], constraint: &str) -> (r: Option<&'a CfFile>)
        ensures
            r.deep_view() == cf_file_taken(
                files.deep_view(),
                files_admitted(files.deep_view(), constraint@),
            ),
    {
        let ghost all = files.deep_view();
        let star = same(constraint, "*");
        let range = is_range(constraint);
        let mut admitted: Vec<bool> = Vec::new();
        let mut i: usize = 0;
        while i < files.len()
            invariant
                all == files.deep_view(),
                star == (constraint@ == "*"@),
                range == range_syntax(constraint@),
                i <= files@.len(),
                admitted@ == files_admitted(all, constraint@).take(i as int),
            decreases files.len() - i,
        {
            assert(all[i as int] == files@[i as int].deep_view());
            let f = &files[i];
            let taken = if star {
                true
            } else if range {
                crate::version_req::matches(f.display_name.as_str(), constraint)
            } else {
                has_text(f.file_name.as_str(), constraint) || has_text(
                    f.display_name.as_str(),
                    constraint,
                )
            };
            admitted.push(taken);
            i = i + 1;
            assert(admitted@ =~= files_admitted(all, constraint@).take(i as int));
        }
        assert(admitted@ =~= files_admitted(all, constraint@));
        Self::choose_admitted(files, &admitted)
    }

    /// The file to take from files ordered newest-first, given which of them are admitted.
    pub fn choose_admitted<'a>(files: &'a [CfFile], admitted: &Vec<bool>) -> (r: Option<&'a CfFile>)
        requires
            admitted@.len() == files@.len(),
        ensures
            r.deep_view() == cf_file_taken(files.deep_view(), admitted@),
    {
        let ghost all = files.deep_view();
        let mut stable: Vec<bool> = Vec::new();
        let mut i: usize = 0;
        while i < files.len()
            invariant
                all == files.deep_view(),
                i <= files@.len(),
                stable@ == stable_files(all).take(i as int),
            decreases files.len() - i,
        {
            assert(all[i as int] == files@[i as int].deep_view());
            stable.push(files[i].release_type == 1);
            i = i + 1;
            assert(stable@ =~= stable_files(all).take(i as int));
        }
        assert(stable@ =~= stable_files(all));
        match prefer_stable(admitted, &stable) {
            Some(k) => {
                assert(all[k as int] == files@[k as int].deep_view());
                Some(&files[k])
            },
            None => None,
        }
    }

    /// How to look up a mod: a numeric id is fetched directly, anything else is searched as a slug.
    pub fn lookup(id_or_slug: &str) -> (r: CfLookup)
        ensures
            match r {
                CfLookup::ById(id) => number(id_or_slug@, u32::MAX as nat) == Some(id as nat),
                CfLookup::BySlug => number(id_or_slug@, u32::MAX as nat) is None,
            },
    {
        match parse_number(id_or_slug, 0xffff_ffff) {
            Some(id) => CfLookup::ById(id as u32),
            None => CfLookup::BySlug,
        }
    }

    /// The mod among the results of a search by slug: the first.
    pub fn find_mod(found: Vec<CfMod>) -> (r: Result<CfMod, CurseforgeError>)
        ensures
            match r {
                Ok(m) => found@.len() > 0 && m == found@[0],
                Err(e) => found@.len() == 0 && e@ == CurseforgeFault::NoMod,
            },
    {
        let mut found = found;
        if found.len() == 0 {
            return Err(CurseforgeError::NoMod);
        }
        Ok(found.remove(0))
    }

    /// The canonical slug of a mod, used by `add` to key the manifest entry.
    pub fn slug_of(cf_mod: CfMod) -> (r: String)
        ensures
            r@ == cf_mod@.slug,
    {
        cf_mod.slug
    }

    /// Where to fetch a mod by its number.
    pub fn mod_url(id: u32) -> (r: String)
        ensures
            r@ == API_BASE@ + "/v1/mods/"@ + decimal(id as nat),
    {
        let mut url = API_BASE.to_owned();
        url.append("/v1/mods/");
        url.append(decimal_text(id as u64).as_str());
        url
    }

    /// Where to search for a mod.
    pub fn search_url() -> (r: String)
        ensures
            r@ == API_BASE@ + "/v1/mods/search"@,
    {
        let mut url = API_BASE.to_owned();
        url.append("/v1/mods/search");
        url
    }

    /// Where to list the files of a mod.
    pub fn files_url(id: u32) -> (r: String)
        ensures
            r@ == API_BASE@ + "/v1/mods/"@ + decimal(id as nat) + "/files"@,
    {
        let mut url = Self::mod_url(id);
        url.append("/files");
        url
    }

    /// Where to fetch one file of a mod, by the ids in the lock.
    pub fn file_url(project_id: &str, file_id: &str) -> (r: String)
        ensures
            r@ == API_BASE@ + "/v1/mods/"@ + project_id@ + "/files/"@ + file_id@,
    {
        let mut url = API_BASE.to_owned();
        url.append("/v1/mods/");
        url.append(project_id);
        url.append("/files/");
        url.append(file_id);
        url
    }

    /// Where to fetch the mod of a file, by the id in the lock.
    pub fn project_url(project_id: &str) -> (r: String)
        ensures
            r@ == API_BASE@ + "/v1/mods/"@ + project_id@,
    {
        let mut url = API_BASE.to_owned();
        url.append("/v1/mods/");
        url.append(project_id);
        url
    }

    /// Resolve the exact file to install out of a mod's files, honoring the constraint
    /// (`"*"` = latest release, otherwise a substring match on the file name).
    pub fn resolve(cf_mod: &CfMod, files: Vec<CfFile>, constraint: &str) -> (r: Result<
        ResolvedVersion,
        CurseforgeError,
    >)
        ensures
            match r {
                Ok(v) => curseforge_resolution(cf_mod@, files.deep_view(), constraint@) == Ok::<
                    ResolvedVersionView,
                    CurseforgeFault,
                >(v@),
                Err(e) => curseforge_resolution(cf_mod@, files.deep_view(), constraint@) == Err::<
                    ResolvedVersionView,
                    CurseforgeFault,
                >(e@),
            },
    {
        let mut files = files;
        if files.len() == 0 {
            return Err(CurseforgeError::NoFile);
        }
        Self::sort_files_newest_first(&mut files);
        let taken = Self::choose_matching(files.as_slice(), constraint);
        Self::resolve_taken(cf_mod, taken)
    }

    /// What to install, given the file that was taken.
    pub fn resolve_taken(cf_mod: &CfMod, taken: Option<&CfFile>) -> (r: Result<
        ResolvedVersion,
        CurseforgeError,
    >)
        ensures
            match r {
                Ok(v) => cf_resolution_of(cf_mod@, taken.deep_view()) == Ok::<
                    ResolvedVersionView,
                    CurseforgeFault,
                >(v@),
                Err(e) => cf_resolution_of(cf_mod@, taken.deep_view()) == Err::<
                    ResolvedVersionView,
                    CurseforgeFault,
                >(e@),
            },
    {
        let chosen = match taken {
            Some(f) => f,
            None => {
                return Err(CurseforgeError::NoMatch);
            },
        };
        let (hash_format, hash) = match Self::best_hash(chosen) {
            Some(h) => h,
            None => {
                return Err(CurseforgeError::NoHash(chosen.file_name.clone()));
            },
        };
        let dependencies = collect_required(&chosen.dependencies);
        Ok(
            ResolvedVersion {
                project_id: decimal_text(cf_mod.id as u64),
                slug: cf_mod.slug.clone(),
                project_name: cf_mod.name.clone(),
                file_id: decimal_text(chosen.id as u64),
                version: chosen.display_name.clone(),
                filename: chosen.file_name.clone(),
                // Never persist the download URL (terms); it is re-fetched at install time.
                url: None,
                hash_format,
                hash,
                size: chosen.file_length,
                // CurseForge exposes no environment data, so mods default to both sides (as packwiz
                // does).
                side: Side::Both,
                dependencies,
            },
        )
    }

    /// A file's download URL as fetched at install time (never stored). `url` is `None` for files
    /// whose author opted out of third-party distribution.
    pub fn file_download(file: CfFile, cf_mod: Option<CfMod>) -> (r: CfDownload)
        ensures
            r@ == (CfDownloadView {
                url: file.deep_view().download_url,
                filename: file.deep_view().file_name,
                hash_format: match preferred_hash(file.deep_view().hashes) {
                    Some((format, _)) => format,
                    None => Seq::empty(),
                },
                hash: match preferred_hash(file.deep_view().hashes) {
                    Some((_, hash)) => hash,
                    None => Seq::empty(),
                },
                website_url: match cf_mod {
                    Some(m) => m@.website_url,
                    None => None,
                },
            }),
    {
        let (hash_format, hash) = match Self::best_hash(&file) {
            Some(h) => h,
            None => (String::new(), String::new()),
        };
        let website_url = match cf_mod {
            Some(m) => m.links.website_url,
            None => None,
        };
        CfDownload {
            url: file.download_url,
            filename: file.file_name,
            hash_format,
            hash,
            website_url,
        }
    }
}

fn collect_required(deps: &Vec<CfDep>) -> (r: Vec<ResolvedDep>)
    ensures
        r.deep_view() == required_deps(deps@),
{
    let mut out: Vec<ResolvedDep> = Vec::new();
    let mut i: usize = 0;
    assert(out.deep_view() =~= required_deps(deps@.take(0)));
    while i < deps.len()
        invariant
            i <= deps@.len(),
            out.deep_view() == required_deps(deps@.take(i as int)),
        decreases deps.len() - i,
    {
        assert(deps@.take(i + 1).drop_last() =~= deps@.take(i as int));
        if deps[i].relation_type == 3 {
            let ghost prior = out.deep_view();
            out.push(
                ResolvedDep {
                    project_id: decimal_text(deps[i].mod_id as u64),
                    kind: DepKind::Required,
                },
            );
            assert(out.deep_view() =~= prior.push(out@.last().deep_view()));
        }
        i = i + 1;
    }
    assert(deps@.take(i as int) =~= deps@);
    out
}

// ---- paging -----------------------------------------------------------------------------------

/// The files of a mod as they come in, page by page: every file for the given loader + MC
/// version, paging past CurseForge's per-request cap so a targeted or older version isn't lost
/// beyond the first page. Ordering isn't relied on here, so paging by index is enough.
#[derive(Debug)]
pub struct FilePages {
    pub files: Vec<CfFile>,
    pub index: u32,
}

/// The files and the index once a page was taken, and whether another is to be fetched.
pub open spec fn paged(files: Seq<CfFileView>, index: u32, page: Seq<CfFileView>) -> (
    Seq<CfFileView>,
    int,
    bool,
) {
    match next_index(page.len() as u32, index) {
        Some(next) => (files + page, next, true),
        None => (files + page, index as int, false),
    }
}

impl FilePages {
    /// The index is one at which the API may be asked for a full page.
    pub open spec fn valid(&self) -> bool {
        self.index < FILES_INDEX_CAP && self.index % FILES_PAGE_SIZE == 0
    }

    /// Nothing fetched yet.
    pub fn start() -> (r: FilePages)
        ensures
            r.valid(),
            r.index == 0,
            r.files.deep_view() == Seq::<CfFileView>::empty(),
    {
        let r = FilePages { files: Vec::new(), index: 0 };
        assert(r.files.deep_view() =~= Seq::<CfFileView>::empty());
        r
    }

    /// Take the page fetched at the current index, and say whether another is to be fetched.
    pub fn take_page(&mut self, page: Vec<CfFile>) -> (more: bool)
        requires
            old(self).valid(),
        ensures
            final(self).valid(),
            final(self).files.deep_view() == old(self).files.deep_view() + page.deep_view(),
            more == (next_index(page@.len() as u32, old(self).index) is Some),
            more ==> next_index(page@.len() as u32, old(self).index) == Some(
                final(self).index as int,
            ),
            !more ==> final(self).index == old(self).index,
            paged(old(self).files.deep_view(), old(self).index, page.deep_view()) == (
                final(self).files.deep_view(),
                final(self).index as int,
                more,
            ),
    {
        let ghost prior = self.files.deep_view();
        let ghost added = page.deep_view();
        let mut page = page;
        let next = Self::following(page.len() as u32, self.index);
        self.files.append(&mut page);
        assert(self.files.deep_view() =~= prior + added);
        match next {
            Some(index) => {
                self.index = index;
                true
            },
            None => false,
        }
    }

    fn following(page_len: u32, index: u32) -> (r: Option<u32>)
        requires
            index < FILES_INDEX_CAP,
            index % FILES_PAGE_SIZE == 0,
        ensures
            match r {
                Some(next) => next_index(page_len, index) == Some(next as int) && next
                    < FILES_INDEX_CAP && next % FILES_PAGE_SIZE == 0,
                None => next_index(page_len, index) is None,
            },
    {
        Curseforge::next_page_index(page_len, index)
    }
}

// ---- laws -------------------------------------------------------------------------------------

/// Paging moves on by a full page, never past the ceiling, so it comes to an end; and it goes on
/// only after a full page.
pub proof fn paging_ends(page_len: u32, index: u32)
    ensures
        next_index(page_len, index) matches Some(next) ==> index < next < FILES_INDEX_CAP
            && page_len >= FILES_PAGE_SIZE,
{
}

/// The order of files is strict.
pub proof fn file_order_is_strict()
    ensures
        strict_order::<CfFile>(),
{
    text_order_is_strict();
}

/// The order in which the API lists files has no influence on what a constraint resolves to,
/// where no two files share both date and id.
pub proof fn file_listing_order_does_not_matter(
    cf_mod: CfModView,
    listed: Seq<CfFileView>,
    relisted: Seq<CfFileView>,
    constraint: Seq<char>,
)
    requires
        forall|a: CfFileView, b: CfFileView|
            #[trigger] listed.contains(a) && #[trigger] listed.contains(b) && a.id == b.id
                && a.file_date == b.file_date ==> a == b,
        listed.to_multiset() == relisted.to_multiset(),
    ensures
        curseforge_resolution(cf_mod, listed, constraint) == curseforge_resolution(
            cf_mod,
            relisted,
            constraint,
        ),
{
    file_order_is_strict();
    assert forall|a: CfFileView, b: CfFileView|
        #![trigger CfFile::ranks_before(a, b)]
        listed.contains(a) && listed.contains(b) implies a == b || CfFile::ranks_before(a, b)
        || CfFile::ranks_before(b, a) by {
        before_is_total(a.file_date, b.file_date);
    }
    arranging_ignores_input_order::<CfFile>(listed, relisted);
    arranging_permutes::<CfFile>(listed);
    arranging_permutes::<CfFile>(relisted);
}

/// What is resolved was listed and is admitted by the constraint; it is a stable release wherever
/// such a release is listed; no listed file that qualifies in the same way ranks before it; and
/// its download URL is not part of the result.
pub proof fn resolved_file_is_the_newest_that_qualifies(
    cf_mod: CfModView,
    files: Seq<CfFileView>,
    constraint: Seq<char>,
)
    ensures
        curseforge_resolution(cf_mod, files, constraint) matches Ok(r) ==> r.url is None && exists|
            f: CfFileView,
        |
            {
                &&& #[trigger] files.contains(f)
                &&& file_admitted(f, constraint)
                &&& r.filename == f.file_name && r.file_id == decimal(f.id as nat)
                &&& forall|g: CfFileView|
                    #[trigger] files.contains(g) && file_admitted(g, constraint) ==> {
                        &&& is_stable(g) ==> is_stable(f)
                        &&& is_stable(g) == is_stable(f) ==> !CfFile::ranks_before(g, f)
                    }
            },
{
    let sorted = newest_files_first(files);
    if curseforge_resolution(cf_mod, files, constraint) is Ok {
        let admitted = files_admitted(sorted, constraint);
        let stable = stable_files(sorted);
        stable_first_is_best(admitted, stable);
        let k = stable_first(admitted, stable)->0;
        let f = sorted[k];
        file_order_is_strict();
        arranging_orders::<CfFile>(files);
        arranging_permutes::<CfFile>(files);
        same_members(files, sorted);
        assert(sorted.contains(f));
        assert(files.contains(f));
        assert forall|g: CfFileView|
            #[trigger] files.contains(g) && file_admitted(g, constraint) implies {
            &&& is_stable(g) ==> is_stable(f)
            &&& is_stable(g) == is_stable(f) ==> !CfFile::ranks_before(g, f)
        } by {
            assert(sorted.contains(g));
            let j = choose|j: int| 0 <= j < sorted.len() && sorted[j] == g;
            assert(admitted[j]);
            assert(stable[j] == is_stable(g));
            if j > k {
                assert(!CfFile::ranks_before(sorted[j], sorted[k]));
            } else if j == k {
                assert(!CfFile::ranks_before(g, g));
            }
        }
    }
}

/// A listed file that satisfies a constraint: any satisfies the star; a range is held against the name
/// that the file is shown under; any other text has to stand somewhere in the name of the file or in the
/// name that it is shown under.
pub open spec fn file_qualifies(
    files: Seq<CfFileView>,
    f: CfFileView,
    constraint: Seq<char>,
) -> bool {
    let range = constraint.len() > 0 && (constraint[0] == '^' || constraint[0] == '~'
        || constraint[0] == '>' || constraint[0] == '<' || constraint[0] == '=')
        || constraint.contains(',');
    &&& files.contains(f)
    &&& {
        ||| constraint == "*"@
        ||| constraint != "*"@ && range && satisfied(f.display_name, constraint)
        ||| constraint != "*"@ && !range && (exists|i: int|
            0 <= i && i + constraint.len() <= f.file_name.len() && #[trigger] f.file_name.subrange(
                i,
                i + constraint.len(),
            ) == constraint)
        ||| constraint != "*"@ && !range && (exists|i: int|
            0 <= i && i + constraint.len() <= f.display_name.len()
                && #[trigger] f.display_name.subrange(i, i + constraint.len()) == constraint)
    }
}

/// Of two files that qualify, whether `f` is as good as `g`: a release is better than none, and of two
/// alike the later one is better, and of two of one date the one with the larger id.
pub open spec fn file_as_good_as(f: CfFileView, g: CfFileView) -> bool {
    &&& g.release_type == 1 ==> f.release_type == 1
    &&& (g.release_type == 1 <==> f.release_type == 1) ==> {
        &&& !before(f.file_date, g.file_date)
        &&& f.file_date == g.file_date ==> f.id >= g.id
    }
}

/// The first hash of the kind.
pub open spec fn is_first_hash(hashes: Seq<CfHashView>, algo: u32, value: Seq<char>) -> bool {
    exists|i: int|
        0 <= i < hashes.len() && #[trigger] hashes[i] == (CfHashView { algo, value })
            && forall|j: int| 0 <= j < i ==> (#[trigger] hashes[j]).algo != algo
}

/// No hash is of the kind.
pub open spec fn lacks_hash(hashes: Seq<CfHashView>, algo: u32) -> bool {
    forall|j: int| 0 <= j < hashes.len() ==> (#[trigger] hashes[j]).algo != algo
}

/// A file is known by its first SHA-1 hash, and by its first MD5 hash where it has no SHA-1 hash.
pub proof fn files_are_known_by_sha1_or_md5(hashes: Seq<CfHashView>)
    ensures
        match preferred_hash(hashes) {
            Some((format, value)) => {
                ||| format == "sha1"@ && is_first_hash(hashes, 1, value)
                ||| format == "md5"@ && lacks_hash(hashes, 1) && is_first_hash(hashes, 2, value)
            },
            None => lacks_hash(hashes, 1) && lacks_hash(hashes, 2),
        },
{
    first_hash_is_found(hashes, 1, 0);
    first_hash_is_found(hashes, 2, 0);
}

proof fn first_hash_is_found(hashes: Seq<CfHashView>, algo: u32, from: int)
    requires
        0 <= from <= hashes.len(),
        forall|j: int| 0 <= j < from ==> (#[trigger] hashes[j]).algo != algo,
    ensures
        match hash_with(hashes, algo, from) {
            Some(value) => is_first_hash(hashes, algo, value),
            None => lacks_hash(hashes, algo),
        },
    decreases hashes.len() - from,
{
    if from < hashes.len() {
        if hashes[from].algo == algo {
            assert(hashes[from] == (CfHashView { algo, value: hashes[from].value }));
        } else {
            first_hash_is_found(hashes, algo, from + 1);
        }
    }
}

/// Whenever a listed file satisfies the constraint, whatever else is listed, the best one that does is
/// resolved, by its id, its names and its hash, and without its URL. It fails only where that file has no
/// hash that counts.
pub proof fn a_file_that_qualifies_is_resolved(
    cf_mod: CfModView,
    files: Seq<CfFileView>,
    constraint: Seq<char>,
    g: CfFileView,
)
    requires
        file_qualifies(files, g, constraint),
    ensures
        exists|f: CfFileView|
            #![trigger file_qualifies(files, f, constraint)]
            {
                &&& file_qualifies(files, f, constraint)
                &&& file_as_good_as(f, g)
                &&& forall|h: CfFileView|
                    #[trigger] file_qualifies(files, h, constraint) ==> file_as_good_as(f, h)
                &&& match curseforge_resolution(cf_mod, files, constraint) {
                    Ok(r) => {
                        &&& r.project_id == decimal(cf_mod.id as nat) && r.slug == cf_mod.slug
                        &&& r.project_name == cf_mod.name && r.file_id == decimal(f.id as nat)
                        &&& r.version == f.display_name && r.filename == f.file_name
                        &&& r.url is None && r.size == f.file_length && r.side == Side::Both
                        &&& r.dependencies == required_deps(f.dependencies)
                        &&& {
                            ||| r.hash_format == "sha1"@ && is_first_hash(f.hashes, 1, r.hash)
                            ||| r.hash_format == "md5"@ && lacks_hash(f.hashes, 1) && is_first_hash(
                                f.hashes,
                                2,
                                r.hash,
                            )
                        }
                    },
                    Err(CurseforgeFault::NoHash(name)) => name == f.file_name && lacks_hash(
                        f.hashes,
                        1,
                    ) && lacks_hash(f.hashes, 2),
                    Err(_) => false,
                }
            },
{
    let sorted = newest_files_first(files);
    let admitted = files_admitted(sorted, constraint);
    let stable = stable_files(sorted);
    stable_first_is_best(admitted, stable);
    file_order_is_strict();
    arranging_orders::<CfFile>(files);
    arranging_permutes::<CfFile>(files);
    same_members(files, sorted);
    admitted_means_qualified(files, g, constraint);
    assert(sorted.contains(g));
    let at = choose|at: int| 0 <= at < sorted.len() && sorted[at] == g;
    assert(admitted[at]);
    let k = stable_first(admitted, stable)->0;
    let f = sorted[k];
    assert(sorted.contains(f));
    assert(admitted[k]);
    admitted_means_qualified(files, f, constraint);
    files_are_known_by_sha1_or_md5(f.hashes);
    assert forall|h: CfFileView| #[trigger]
        file_qualifies(files, h, constraint) implies file_as_good_as(f, h) by {
        admitted_means_qualified(files, h, constraint);
        assert(sorted.contains(h));
        let j = choose|j: int| 0 <= j < sorted.len() && sorted[j] == h;
        assert(admitted[j]);
        assert(stable[j] == is_stable(h));
        assert(stable[k] == is_stable(f));
        if j > k {
            assert(!CfFile::ranks_before(sorted[j], sorted[k]));
        } else if j == k {
            assert(!CfFile::ranks_before(h, h));
        }
    }
    assert(file_qualifies(files, f, constraint));
}

/// Without a file that satisfies the constraint nothing matches, and without any file there is none.
pub proof fn nothing_is_resolved_without_a_file_that_qualifies(
    cf_mod: CfModView,
    files: Seq<CfFileView>,
    constraint: Seq<char>,
)
    requires
        forall|f: CfFileView| !#[trigger] file_qualifies(files, f, constraint),
    ensures
        curseforge_resolution(cf_mod, files, constraint) == Err::<
            ResolvedVersionView,
            CurseforgeFault,
        >(
            if files.len() == 0 {
                CurseforgeFault::NoFile
            } else {
                CurseforgeFault::NoMatch
            },
        ),
{
    let sorted = newest_files_first(files);
    let admitted = files_admitted(sorted, constraint);
    let stable = stable_files(sorted);
    stable_first_is_best(admitted, stable);
    arranging_permutes::<CfFile>(files);
    same_members(files, sorted);
    if stable_first(admitted, stable) is Some {
        let k = stable_first(admitted, stable)->0;
        assert(sorted.contains(sorted[k]));
        assert(admitted[k]);
        admitted_means_qualified(files, sorted[k], constraint);
        assert(file_qualifies(files, sorted[k], constraint));
    }
}

proof fn admitted_means_qualified(files: Seq<CfFileView>, f: CfFileView, constraint: Seq<char>)
    requires
        files.contains(f),
    ensures
        file_admitted(f, constraint) <==> file_qualifies(files, f, constraint),
{
    text_occurs(constraint, f.file_name);
    text_occurs(constraint, f.display_name);
}

proof fn text_occurs(part: Seq<char>, whole: Seq<char>)
    ensures
        occurs(part, whole) <==> exists|i: int|
            0 <= i && i + part.len() <= whole.len() && #[trigger] whole.subrange(i, i + part.len())
                == part,
{
    if occurs(part, whole) {
        let i = choose|i: int| crate::text::occurs_at(part, whole, i);
        assert(whole.subrange(i, i + part.len()) == part);
    }
    if exists|i: int|
        0 <= i && i + part.len() <= whole.len() && #[trigger] whole.subrange(i, i + part.len())
            == part {
        let i = choose|i: int|
            0 <= i && i + part.len() <= whole.len() && #[trigger] whole.subrange(i, i + part.len())
                == part;
        assert(crate::text::occurs_at(part, whole, i));
    }
}

/// CurseForge's relation of a mod to one that it cannot do without.
pub open spec fn is_required_relation(d: CfDep) -> bool {
    d.relation_type == 3
}

/// The dependencies of a file are the mods that it requires, in the order in which they are listed, each
/// by its number.
pub proof fn required_mods_are_the_dependencies(deps: Seq<CfDep>, j: int)
    ensures
        ({
            let kept = required_deps(deps);
            let required = deps.filter(|d: CfDep| is_required_relation(d));
            &&& kept.len() == required.len()
            &&& 0 <= j < kept.len() ==> kept[j].project_id == decimal(required[j].mod_id as nat)
                && kept[j].kind == DepKind::Required
        }),
    decreases deps.len(),
{
    reveal(Seq::filter);
    if deps.len() > 0 {
        required_mods_are_the_dependencies(deps.drop_last(), j);
    }
}

/// A full page is followed by the next one, up to the last that CurseForge serves; a page that is not
/// full is the last.
pub proof fn pages_follow_one_another(page_len: u32, index: u32)
    ensures
        next_index(page_len, index) matches Some(next) ==> next == index + FILES_PAGE_SIZE,
        next_index(page_len, index) is None <==> page_len < FILES_PAGE_SIZE || index
            + FILES_PAGE_SIZE >= FILES_INDEX_CAP,
{
}

/// What is looked up of a file is its own: the URL that CurseForge hands out, its name, and the hash it
/// is known by; the page is that of its project.
pub proof fn a_lookup_describes_its_file(file: CfFile, cf_mod: Option<CfMod>, r: CfDownload)
    requires
        call_ensures(Curseforge::file_download, (file, cf_mod), r),
    ensures
        r@.url == file.deep_view().download_url,
        r@.filename == file.deep_view().file_name,
        cf_mod matches Some(m) ==> r@.website_url == m@.website_url,
        cf_mod is None ==> r@.website_url is None,
        is_first_hash(file.deep_view().hashes, 1, r@.hash) && r@.hash_format == "sha1"@ || lacks_hash(
            file.deep_view().hashes,
            1,
        ),
{
    files_are_known_by_sha1_or_md5(file.deep_view().hashes);
}

/// Every page is kept, behind those before it; a page of fifty is followed by the one behind it, as long as
/// that starts before the ten thousandth file.
pub proof fn every_page_is_kept(files: Seq<CfFileView>, index: u32, page: Seq<CfFileView>)
    requires
        page.len() <= u32::MAX,
    ensures
        ({
            let (now, next, more) = paged(files, index, page);
            &&& now == files + page
            &&& more <==> page.len() >= 50 && index + 50 < 10_000
            &&& more ==> next == index + 50
            &&& !more ==> next == index
        }),
{
}

/// A project is looked up by its number where the text is one, and otherwise by its slug.
pub proof fn numbers_are_looked_up_as_numbers(id_or_slug: &str, n: u32, r: CfLookup)
    requires
        call_ensures(Curseforge::lookup, (id_or_slug,), r),
    ensures
        id_or_slug@ == decimal(n as nat) ==> r == CfLookup::ById(n),
        (exists|i: int|
            0 <= i < id_or_slug@.len() && !('0' <= #[trigger] id_or_slug@[i] <= '9') && id_or_slug@[i]
                != '+') ==> r == CfLookup::BySlug,
{
    if id_or_slug@ == decimal(n as nat) {
        decimal_reads_back(n as nat, u32::MAX as nat);
    }
    if exists|i: int|
        0 <= i < id_or_slug@.len() && !('0' <= #[trigger] id_or_slug@[i] <= '9') && id_or_slug@[i]
            != '+' {
        let s = id_or_slug@;
        let i = choose|i: int| 0 <= i < s.len() && !('0' <= #[trigger] s[i] <= '9') && s[i] != '+';
        let d = unsigned(s);
        if number(s, u32::MAX as nat) is Some {
            let j = if s[0] == '+' {
                i - 1
            } else {
                i
            };
            assert(d[j] == s[i]);
            assert(is_digit(d[j]));
        }
    }
}

/// The loaders have numbers of their own.
pub proof fn loader_numbers_differ(a: Loader, b: Loader)
    ensures
        loader_number(a) == loader_number(b) ==> a == b,
{
}

/// A mod stands at one address, whether its number or the text of it is known; its files stand below it, and
/// each of them below those.
pub proof fn curseforge_is_asked_by_address(
    id: u32,
    project_id: &str,
    file_id: &str,
    by_number: String,
    by_text: String,
    files: String,
    file: String,
    search: String,
)
    requires
        call_ensures(Curseforge::mod_url, (id,), by_number),
        call_ensures(Curseforge::project_url, (project_id,), by_text),
        call_ensures(Curseforge::files_url, (id,), files),
        call_ensures(Curseforge::file_url, (project_id, file_id), file),
        call_ensures(Curseforge::search_url, (), search),
    ensures
        by_number@ == "https://api.curseforge.com"@ + ("/v1/mods/"@ + decimal(id as nat)),
        by_text@ == "https://api.curseforge.com"@ + ("/v1/mods/"@ + project_id@),
        files@ == by_number@ + "/files"@,
        file@ == by_text@ + ("/files/"@ + file_id@),
        search@ == "https://api.curseforge.com"@ + "/v1/mods/search"@,
{
    assert(by_number@ =~= "https://api.curseforge.com"@ + ("/v1/mods/"@ + decimal(id as nat)));
    assert(by_text@ =~= "https://api.curseforge.com"@ + ("/v1/mods/"@ + project_id@));
    assert(file@ =~= by_text@ + ("/files/"@ + file_id@));
}

/// A key is needed and is kept as it is; the first mod that a search finds is taken, with its slug.
pub proof fn the_first_mod_found_is_taken(
    key: Option<String>,
    api: Result<Curseforge, CurseforgeError>,
    found: Vec<CfMod>,
    taken: Result<CfMod, CurseforgeError>,
    slug: String,
)
    requires
        call_ensures(Curseforge::from_config, (key,), api),
        call_ensures(Curseforge::find_mod, (found,), taken),
        found@.len() > 0 ==> call_ensures(Curseforge::slug_of, (found@[0],), slug),
    ensures
        api is Ok <==> key is Some,
        api matches Ok(cf) ==> key == Some(cf.key),
        taken is Ok <==> found@.len() > 0,
        taken matches Ok(m) ==> m == found@[0] && slug@ == m.slug@,
{
}

} // verus!
