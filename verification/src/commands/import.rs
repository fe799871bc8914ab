//! Converting a packwiz pack into a lode project.
use indexmap::IndexMap;
use vstd::prelude::*;

use crate::cli::{ImportArgs, ImportSource};
use crate::hash::{hex_of, sha256_digest};
use crate::loader::{loader_named, loader_word, Loader};
use crate::lock::{
    copy_option, DepEdge, DepEdgeView, Download, DownloadView, Lock, LockView, LockedMod,
    LockedModView, ResolverMeta, LOCKFILE_VERSION, LOCK_FILENAME,
};
use crate::manifest::{
    declare, declared, declared_means_present, declaring_sets_one_mod, no_mods, spec_of, with_spec, Defaults, LoaderSpec,
    LoaderSpecView, Manifest, ManifestView, ModSpec, ModSpecDetailed, ModSpecDetailedView,
    ModSpecView, Overlay, OverlayView, PackMeta, PackMetaView, MANIFEST_FILENAME,
};
use crate::order::{
    arrange, arranged, arranging_orders, arranging_permutes, strict_order, Ranked,
};
use crate::paths::{join_path, under};
use crate::provider::{DownloadMode, Provider};
use crate::providers::{ImportedVersion, ImportedVersionView, ResolvedDep, ResolvedDepView};
use crate::resolve::{
    find_last, last_value, manifest_hash, manifest_hash_of, LODE_VERSION, ROOT_REQUESTER,
};
use crate::side::Side;
use crate::text::{
    before, is_before, same, signed_decimal, signed_text, strip_suffix, text_order_is_strict, utf8,
};

verus! {

/// A packwiz `pack.toml`, only the fields lode needs. The versions are in the order in which they
/// are looked through.
#[derive(Debug)]
pub struct PackToml {
    pub name: String,
    pub author: Option<String>,
    pub version: Option<String>,
    pub description: Option<String>,
    pub versions: Vec<(String, String)>,
}

/// A packwiz `.pw.toml` metafile.
#[derive(Debug)]
pub struct PwMod {
    pub name: String,
    pub filename: String,
    pub side: Option<String>,
    pub download: PwDownload,
    pub update: PwUpdate,
}

#[derive(Debug)]
pub struct PwDownload {
    pub url: Option<String>,
    pub hash_format: String,
    pub hash: String,
}

#[derive(Debug)]
pub struct PwUpdate {
    pub modrinth: Option<PwModrinth>,
    pub curseforge: Option<PwCurseforge>,
}

#[derive(Debug)]
pub struct PwModrinth {
    pub mod_id: String,
    pub version: String,
}

#[derive(Debug)]
pub struct PwCurseforge {
    pub project_id: PwId,
    pub file_id: PwId,
}

/// An id in a metafile: packwiz writes integers; either an integer or a string is accepted.
#[derive(Debug)]
pub enum PwId {
    Integer(i64),
    Text(String),
    Other,
}

/// A `.pw.toml` normalized into the fields lode's lock/manifest need.
#[derive(Debug)]
pub struct PwRecord {
    pub slug: String,
    pub name: String,
    pub provider: Provider,
    pub project_id: String,
    pub file_id: String,
    pub filename: String,
    pub url: Option<String>,
    pub hash_format: String,
    pub hash: String,
    pub mode: DownloadMode,
    pub side: Side,
}

/// Why a pack cannot be imported.
#[derive(Debug)]
pub enum ImportError {
    /// A manifest is there already.
    Exists,
    /// `pack.toml` has no Minecraft version.
    NoMinecraft,
    /// `pack.toml` names no known loader.
    NoLoader,
    /// No metafile was found.
    NoMods,
    /// A metafile names this side, which is unknown.
    UnknownSide(String),
    /// A metafile has no update block of a known provider.
    NoUpdate,
    /// A metafile has an id that is neither an integer nor a string.
    BadId,
}

// ---- views ------------------------------------------------------------------------------------

#[verifier::ext_equal]
pub struct PackTomlView {
    pub name: Seq<char>,
    pub author: Option<Seq<char>>,
    pub version: Option<Seq<char>>,
    pub description: Option<Seq<char>>,
    pub versions: Seq<(Seq<char>, Seq<char>)>,
}

#[verifier::ext_equal]
pub struct PwModView {
    pub name: Seq<char>,
    pub filename: Seq<char>,
    pub side: Option<Seq<char>>,
    pub url: Option<Seq<char>>,
    pub hash_format: Seq<char>,
    pub hash: Seq<char>,
    pub modrinth: Option<(Seq<char>, Seq<char>)>,
    pub curseforge: Option<(PwIdView, PwIdView)>,
}

#[verifier::ext_equal]
pub enum PwIdView {
    Integer(i64),
    Text(Seq<char>),
    Other,
}

#[verifier::ext_equal]
pub struct PwRecordView {
    pub slug: Seq<char>,
    pub name: Seq<char>,
    pub provider: Provider,
    pub project_id: Seq<char>,
    pub file_id: Seq<char>,
    pub filename: Seq<char>,
    pub url: Option<Seq<char>>,
    pub hash_format: Seq<char>,
    pub hash: Seq<char>,
    pub mode: DownloadMode,
    pub side: Side,
}

#[verifier::ext_equal]
pub enum ImportFault {
    Exists,
    NoMinecraft,
    NoLoader,
    NoMods,
    UnknownSide(Seq<char>),
    NoUpdate,
    BadId,
}

impl View for PackToml {
    type V = PackTomlView;

    open spec fn view(&self) -> PackTomlView {
        PackTomlView {
            name: self.name@,
            author: self.author.deep_view(),
            version: self.version.deep_view(),
            description: self.description.deep_view(),
            versions: self.versions.deep_view(),
        }
    }
}

impl View for PwId {
    type V = PwIdView;

    open spec fn view(&self) -> PwIdView {
        match self {
            PwId::Integer(i) => PwIdView::Integer(*i),
            PwId::Text(s) => PwIdView::Text(s@),
            PwId::Other => PwIdView::Other,
        }
    }
}

impl View for PwMod {
    type V = PwModView;

    open spec fn view(&self) -> PwModView {
        PwModView {
            name: self.name@,
            filename: self.filename@,
            side: self.side.deep_view(),
            url: self.download.url.deep_view(),
            hash_format: self.download.hash_format@,
            hash: self.download.hash@,
            modrinth: match self.update.modrinth {
                Some(m) => Some((m.mod_id@, m.version@)),
                None => None,
            },
            curseforge: match self.update.curseforge {
                Some(c) => Some((c.project_id@, c.file_id@)),
                None => None,
            },
        }
    }
}

impl View for PwRecord {
    type V = PwRecordView;

    open spec fn view(&self) -> PwRecordView {
        PwRecordView {
            slug: self.slug@,
            name: self.name@,
            provider: self.provider,
            project_id: self.project_id@,
            file_id: self.file_id@,
            filename: self.filename@,
            url: self.url.deep_view(),
            hash_format: self.hash_format@,
            hash: self.hash@,
            mode: self.mode,
            side: self.side,
        }
    }
}

impl DeepView for PwRecord {
    type V = PwRecordView;

    open spec fn deep_view(&self) -> PwRecordView {
        self@
    }
}

impl View for ImportError {
    type V = ImportFault;

    open spec fn view(&self) -> ImportFault {
        match self {
            ImportError::Exists => ImportFault::Exists,
            ImportError::NoMinecraft => ImportFault::NoMinecraft,
            ImportError::NoLoader => ImportFault::NoLoader,
            ImportError::NoMods => ImportFault::NoMods,
            ImportError::UnknownSide(s) => ImportFault::UnknownSide(s@),
            ImportError::NoUpdate => ImportFault::NoUpdate,
            ImportError::BadId => ImportFault::BadId,
        }
    }
}

impl Ranked for PwRecord {
    open spec fn ranks_before(a: PwRecordView, b: PwRecordView) -> bool {
        before(a.slug, b.slug)
    }

    fn is_ranked_before(&self, other: &Self) -> (r: bool) {
        is_before(self.slug.as_str(), other.slug.as_str())
    }
}

// ---- what is asked for ------------------------------------------------------------------------

/// Where an import reads from and writes to.
#[derive(Debug)]
pub struct ImportPlan {
    /// The pack directory, or its `pack.toml`.
    pub source: String,
    /// The `pack.toml` of a pack directory.
    pub pack_toml: String,
    pub out: String,
    pub manifest: String,
    pub lock: String,
}

/// The text, or else the current directory.
pub open spec fn or_here(path: Option<Seq<char>>) -> Seq<char> {
    match path {
        Some(p) => p,
        None => "."@,
    }
}

fn path_or_here(path: &Option<String>) -> (r: String)
    ensures
        r@ == or_here(path.deep_view()),
{
    match path {
        Some(p) => p.clone(),
        None => ".".to_owned(),
    }
}

/// Where an import reads from and writes to: both default to the current directory.
pub fn run(args: &ImportArgs) -> (r: ImportPlan)
    ensures
        r.source@ == or_here(args.path.deep_view()),
        r.pack_toml@ == under(or_here(args.path.deep_view()), "pack.toml"@),
        r.out@ == or_here(args.out.deep_view()),
        r.manifest@ == under(or_here(args.out.deep_view()), MANIFEST_FILENAME@),
        r.lock@ == under(or_here(args.out.deep_view()), LOCK_FILENAME@),
{
    match args.source {
        ImportSource::Packwiz => {
            let source = path_or_here(&args.path);
            let out = path_or_here(&args.out);
            ImportPlan {
                pack_toml: join_path(source.as_str(), "pack.toml"),
                manifest: join_path(out.as_str(), MANIFEST_FILENAME),
                lock: join_path(out.as_str(), LOCK_FILENAME),
                source,
                out,
            }
        },
    }
}

/// Never clobber an existing lode project without consent.
pub fn may_write(args: &ImportArgs, present: bool) -> (r: Result<(), ImportError>)
    ensures
        match r {
            Ok(_) => !present || args.force,
            Err(e) => present && !args.force && e@ == ImportFault::Exists,
        },
{
    if present && !args.force {
        return Err(ImportError::Exists);
    }
    Ok(())
}

// ---- pack.toml --------------------------------------------------------------------------------

/// The first pair whose key is the word of a loader, from position `i` on.
pub open spec fn loader_in(versions: Seq<(Seq<char>, Seq<char>)>, i: int) -> Option<
    (Loader, Seq<char>),
>
    decreases versions.len() - i,
{
    if !(0 <= i < versions.len()) {
        None
    } else {
        match loader_named(versions[i].0) {
            Some(loader) => Some((loader, versions[i].1)),
            None => loader_in(versions, i + 1),
        }
    }
}

/// Find the loader key in a packwiz `[versions]` table (everything but `minecraft`): the first one
/// in the order in which the table is looked through.
pub fn loader_from(versions: &Vec<(String, String)>) -> (r: Result<(Loader, String), ImportError>)
    ensures
        match r {
            Ok((loader, version)) => loader_in(versions.deep_view(), 0) == Some((loader, version@)),
            Err(e) => loader_in(versions.deep_view(), 0) is None && e@ == ImportFault::NoLoader,
        },
{
    let ghost all = versions.deep_view();
    let mut i: usize = 0;
    while i < versions.len()
        invariant
            all == versions.deep_view(),
            i <= versions@.len(),
            loader_in(all, 0) == loader_in(all, i as int),
        decreases versions.len() - i,
    {
        assert(all[i as int] == versions@[i as int].deep_view());
        match Loader::from_token(versions[i].0.as_str()) {
            Some(loader) => {
                return Ok((loader, versions[i].1.clone()));
            },
            None => {},
        }
        i = i + 1;
    }
    Err(ImportError::NoLoader)
}

/// The loader of a packwiz pack, with the versions of the game and of the loader itself.
pub open spec fn pack_loader(versions: Seq<(Seq<char>, Seq<char>)>) -> Result<
    LoaderSpecView,
    ImportFault,
> {
    match last_value(versions, "minecraft"@) {
        None => Err(ImportFault::NoMinecraft),
        Some(minecraft) => match loader_in(versions, 0) {
            None => Err(ImportFault::NoLoader),
            Some((name, version)) => Ok(LoaderSpecView { name, minecraft, version }),
        },
    }
}

/// The loader of a packwiz pack.
pub fn pack_target(pack: &PackToml) -> (r: Result<LoaderSpec, ImportError>)
    ensures
        match r {
            Ok(loader) => pack_loader(pack@.versions) == Ok::<LoaderSpecView, ImportFault>(
                loader@,
            ),
            Err(e) => pack_loader(pack@.versions) == Err::<LoaderSpecView, ImportFault>(e@),
        },
{
    let minecraft = match find_last(&pack.versions, "minecraft") {
        Some(v) => v,
        None => {
            return Err(ImportError::NoMinecraft);
        },
    };
    match loader_from(&pack.versions) {
        Ok((name, version)) => Ok(LoaderSpec { name, minecraft, version }),
        Err(e) => Err(e),
    }
}

// ---- metafiles --------------------------------------------------------------------------------

/// The slug that the name of a file gives, where it is the name of a metafile.
pub open spec fn slug_in(name: Seq<char>) -> Option<Seq<char>> {
    if ".pw.toml"@.is_suffix_of(name) {
        Some(name.take(name.len() - ".pw.toml"@.len()))
    } else {
        None
    }
}

/// The slug that a metafile's name gives, or nothing for another file.
pub fn metafile_slug(name: &str) -> (r: Option<String>)
    ensures
        r.deep_view() == slug_in(name@),
{
    strip_suffix(name, ".pw.toml")
}

/// The side that a metafile gives: both where it gives none, neither where it is empty.
pub open spec fn pw_side(side: Option<Seq<char>>) -> Result<Side, ImportFault> {
    match side {
        None => Ok(Side::Both),
        Some(s) => if s == ""@ {
            Ok(Side::Neither)
        } else if s == "client"@ {
            Ok(Side::Client)
        } else if s == "server"@ {
            Ok(Side::Server)
        } else if s == "both"@ {
            Ok(Side::Both)
        } else {
            Err(ImportFault::UnknownSide(s))
        },
    }
}

pub open spec fn pw_id(id: PwIdView) -> Option<Seq<char>> {
    match id {
        PwIdView::Integer(i) => Some(signed_decimal(i as int)),
        PwIdView::Text(s) => Some(s),
        PwIdView::Other => None,
    }
}

/// The record that a metafile stands for.
pub open spec fn record_of(slug: Seq<char>, pw: PwModView) -> Result<PwRecordView, ImportFault> {
    match pw_side(pw.side) {
        Err(e) => Err(e),
        Ok(side) => match (pw.modrinth, pw.curseforge) {
            (Some((mod_id, version)), _) => Ok(
                PwRecordView {
                    slug,
                    name: pw.name,
                    provider: Provider::Modrinth,
                    project_id: mod_id,
                    file_id: version,
                    filename: pw.filename,
                    url: pw.url,
                    hash_format: pw.hash_format,
                    hash: pw.hash,
                    mode: DownloadMode::Url,
                    side,
                },
            ),
            (None, Some((project, file))) => match (pw_id(project), pw_id(file)) {
                (Some(project_id), Some(file_id)) => Ok(
                    PwRecordView {
                        slug,
                        name: pw.name,
                        provider: Provider::Curseforge,
                        project_id,
                        file_id,
                        filename: pw.filename,
                        url: None,
                        hash_format: pw.hash_format,
                        hash: pw.hash,
                        mode: DownloadMode::MetadataCurseforge,
                        side,
                    },
                ),
                _ => Err(ImportFault::BadId),
            },
            (None, None) => Err(ImportFault::NoUpdate),
        },
    }
}

fn side_from_pw(side: &Option<String>) -> (r: Result<Side, ImportError>)
    ensures
        match r {
            Ok(s) => pw_side(side.deep_view()) == Ok::<Side, ImportFault>(s),
            Err(e) => pw_side(side.deep_view()) == Err::<Side, ImportFault>(e@),
        },
{
    match side {
        // packwiz omits `side` entirely for the both case.
        None => Ok(Side::Both),
        Some(s) => {
            if same(s.as_str(), "") {
                Ok(Side::Neither)
            } else if same(s.as_str(), "client") {
                Ok(Side::Client)
            } else if same(s.as_str(), "server") {
                Ok(Side::Server)
            } else if same(s.as_str(), "both") {
                Ok(Side::Both)
            } else {
                Err(ImportError::UnknownSide(s.clone()))
            }
        },
    }
}

/// The text of an id.
pub fn value_to_id(value: &PwId) -> (r: Result<String, ImportError>)
    ensures
        match r {
            Ok(id) => pw_id(value@) == Some(id@),
            Err(e) => pw_id(value@) is None && e@ == ImportFault::BadId,
        },
{
    match value {
        PwId::Integer(i) => Ok(signed_text(*i)),
        PwId::Text(s) => Ok(s.clone()),
        PwId::Other => Err(ImportError::BadId),
    }
}

impl PwRecord {
    /// Normalize a metafile.
    pub fn from_pw(slug: String, pw: PwMod) -> (r: Result<PwRecord, ImportError>)
        ensures
            match r {
                Ok(record) => record_of(slug@, pw@) == Ok::<PwRecordView, ImportFault>(record@),
                Err(e) => record_of(slug@, pw@) == Err::<PwRecordView, ImportFault>(e@),
            },
    {
        let side = match side_from_pw(&pw.side) {
            Ok(side) => side,
            Err(e) => {
                return Err(e);
            },
        };
        match pw.update.modrinth {
            Some(m) => Ok(
                PwRecord {
                    slug,
                    name: pw.name,
                    provider: Provider::Modrinth,
                    project_id: m.mod_id,
                    file_id: m.version,
                    filename: pw.filename,
                    url: pw.download.url,
                    hash_format: pw.download.hash_format,
                    hash: pw.download.hash,
                    mode: DownloadMode::Url,
                    side,
                },
            ),
            None => match pw.update.curseforge {
                Some(c) => {
                    let project_id = match value_to_id(&c.project_id) {
                        Ok(id) => id,
                        Err(e) => {
                            return Err(e);
                        },
                    };
                    let file_id = match value_to_id(&c.file_id) {
                        Ok(id) => id,
                        Err(e) => {
                            return Err(e);
                        },
                    };
                    Ok(
                        PwRecord {
                            slug,
                            name: pw.name,
                            provider: Provider::Curseforge,
                            project_id,
                            file_id,
                            filename: pw.filename,
                            // Match lode's model: never persist the CurseForge URL (its terms
                            // forbid it).
                            url: None,
                            hash_format: pw.download.hash_format,
                            hash: pw.download.hash,
                            mode: DownloadMode::MetadataCurseforge,
                            side,
                        },
                    )
                },
                None => Err(ImportError::NoUpdate),
            },
        }
    }
}

/// The records of a pack, sorted by slug for a deterministic manifest + lock, independent of
/// directory-read order. A pack without metafiles is refused.
pub fn read_metafiles(records: Vec<PwRecord>) -> (r: Result<Vec<PwRecord>, ImportError>)
    ensures
        match r {
            Ok(sorted) => records@.len() > 0 && sorted.deep_view() == arranged::<PwRecord>(
                records.deep_view(),
            ),
            Err(e) => records@.len() == 0 && e@ == ImportFault::NoMods,
        },
{
    if records.len() == 0 {
        return Err(ImportError::NoMods);
    }
    Ok(arrange(records))
}

// ---- the project ------------------------------------------------------------------------------

/// The manifest entry for an imported mod.
pub open spec fn spec_for(r: PwRecordView) -> ModSpecView {
    if r.provider == Provider::Modrinth && r.side == Side::Both {
        ModSpecView::Constraint("*"@)
    } else {
        ModSpecView::Detailed(
            ModSpecDetailedView {
                version: "*"@,
                side: if r.side != Side::Both {
                    Some(r.side)
                } else {
                    None
                },
                provider: if r.provider != Provider::Modrinth {
                    Some(r.provider)
                } else {
                    None
                },
                project_id: None,
                optional: false,
                pin: false,
            },
        )
    }
}

/// The manifest entry for an imported mod: a bare `"*"` constraint for a plain Modrinth mod,
/// the detailed object when it needs a provider or a non-default side (mirroring `lode add`).
pub fn manifest_spec(r: &PwRecord) -> (spec: ModSpec)
    ensures
        spec@ == spec_for(r@),
{
    if r.provider == Provider::Modrinth && r.side == Side::Both {
        return ModSpec::Constraint("*".to_owned());
    }
    let side = if r.side != Side::Both {
        Some(r.side)
    } else {
        None
    };
    let provider = if r.provider != Provider::Modrinth {
        Some(r.provider)
    } else {
        None
    };
    ModSpec::Detailed(
        ModSpecDetailed {
            version: "*".to_owned(),
            side,
            provider,
            project_id: None,
            optional: false,
            pin: false,
        },
    )
}

/// Which slug each project of the pack has.
pub open spec fn project_slugs(records: Seq<PwRecordView>) -> Seq<(Seq<char>, Seq<char>)> {
    records.map_values(|r: PwRecordView| (r.project_id, r.slug))
}

/// The edges to projects of the pack.
pub open spec fn edges_to(slugs: Seq<(Seq<char>, Seq<char>)>, deps: Seq<ResolvedDepView>) -> Seq<
    DepEdgeView,
>
    decreases deps.len(),
{
    if deps.len() == 0 {
        Seq::empty()
    } else {
        let head = edges_to(slugs, deps.drop_last());
        match last_value(slugs, deps.last().project_id) {
            Some(slug) => head.push(DepEdgeView { slug, kind: deps.last().kind }),
            None => head,
        }
    }
}

/// What is looked up for a record counts only where its provider is Modrinth.
pub open spec fn counted(r: PwRecordView, found: Option<ImportedVersionView>) -> Option<
    ImportedVersionView,
> {
    if r.provider == Provider::Modrinth {
        found
    } else {
        None
    }
}

/// The lock entry for an imported mod. The file is the one of the metafile; the version, size and
/// dependencies are what was looked up, or else the file name and nothing.
pub open spec fn imported_entry(
    slugs: Seq<(Seq<char>, Seq<char>)>,
    r: PwRecordView,
    found: Option<ImportedVersionView>,
) -> LockedModView {
    LockedModView {
        slug: r.slug,
        name: r.name,
        provider: r.provider,
        project_id: r.project_id,
        file_id: Some(r.file_id),
        version: match counted(r, found) {
            Some(v) => v.version_number,
            None => r.filename,
        },
        filename: r.filename,
        download: DownloadView {
            url: r.url,
            mode: r.mode,
            hash_format: r.hash_format,
            hash: r.hash,
            size: match counted(r, found) {
                Some(v) => v.size,
                None => None,
            },
        },
        side: r.side,
        optional: false,
        dependencies: match counted(r, found) {
            Some(v) => edges_to(slugs, v.dependencies),
            None => Seq::empty(),
        },
        requested_by: seq![ROOT_REQUESTER@],
    }
}

/// One lock entry per record.
pub open spec fn imported_entries(
    records: Seq<PwRecordView>,
    found: Seq<Option<ImportedVersionView>>,
) -> Seq<LockedModView> {
    Seq::new(
        records.len(),
        |i: int| imported_entry(project_slugs(records), records[i], found[i]),
    )
}

/// One declaration per record.
pub open spec fn imported_mods(records: Seq<PwRecordView>) -> Seq<(Seq<char>, ModSpecView)>
    decreases records.len(),
{
    if records.len() == 0 {
        Seq::empty()
    } else {
        with_spec(
            imported_mods(records.drop_last()),
            records.last().slug,
            spec_for(records.last()),
        )
    }
}

/// The slugs of the records whose version could not be looked up.
pub open spec fn unknown_versions(
    records: Seq<PwRecordView>,
    found: Seq<Option<ImportedVersionView>>,
) -> Seq<Seq<char>>
    decreases records.len(),
{
    if records.len() == 0 {
        Seq::empty()
    } else {
        let head = unknown_versions(records.drop_last(), found);
        let r = records.last();
        if r.provider == Provider::Modrinth && found[records.len() - 1] is None {
            head.push(r.slug)
        } else {
            head
        }
    }
}

/// The manifest of the imported pack.
pub open spec fn imported_manifest(
    pack: PackTomlView,
    loader: LoaderSpecView,
    records: Seq<PwRecordView>,
) -> ManifestView {
    ManifestView {
        pack: PackMetaView {
            name: pack.name,
            author: match pack.author {
                Some(a) => a,
                None => Seq::empty(),
            },
            version: match pack.version {
                Some(v) => v,
                None => "0.1.0"@,
            },
            description: pack.description,
        },
        loader,
        default_side: Side::Both,
        overlays: Seq::empty(),
        mods: imported_mods(records),
    }
}

/// An imported pack: its manifest, its lock entries, and the slugs whose version could not be looked
/// up.
#[derive(Debug)]
pub struct Imported {
    pub manifest: Manifest,
    pub locked: Vec<LockedMod>,
    pub unknown: Vec<String>,
}

pub open spec fn found_views(found: Seq<Option<ImportedVersion>>) -> Seq<
    Option<ImportedVersionView>,
> {
    found.map_values(
        |f: Option<ImportedVersion>|
            match f {
                Some(v) => Some(v@),
                None => None,
            },
    )
}

fn edges(slugs: &Vec<(String, String)>, deps: &Vec<ResolvedDep>) -> (r: Vec<DepEdge>)
    ensures
        r.deep_view() == edges_to(slugs.deep_view(), deps.deep_view()),
{
    let ghost all = deps.deep_view();
    let ghost pairs = slugs.deep_view();
    let mut out: Vec<DepEdge> = Vec::new();
    let mut i: usize = 0;
    assert(out.deep_view() =~= edges_to(pairs, all.take(0)));
    while i < deps.len()
        invariant
            all == deps.deep_view(),
            pairs == slugs.deep_view(),
            i <= deps@.len(),
            out.deep_view() == edges_to(pairs, all.take(i as int)),
        decreases deps.len() - i,
    {
        proof {
            assert(all[i as int] == deps@[i as int].deep_view());
            assert(all.take(i + 1).drop_last() =~= all.take(i as int));
            assert(all.take(i + 1).last() == all[i as int]);
        }
        match find_last(slugs, deps[i].project_id.as_str()) {
            Some(slug) => {
                let ghost prior = out.deep_view();
                let edge = DepEdge { slug, kind: deps[i].kind };
                let ghost added = edge.deep_view();
                out.push(edge);
                assert(out.deep_view() =~= prior.push(added));
            },
            None => {},
        }
        i = i + 1;
    }
    assert(all.take(i as int) =~= all);
    out
}

fn slugs_of(records: &Vec<PwRecord>) -> (r: Vec<(String, String)>)
    ensures
        r.deep_view() == project_slugs(records.deep_view()),
{
    let ghost all = records.deep_view();
    let mut out: Vec<(String, String)> = Vec::new();
    let mut i: usize = 0;
    while i < records.len()
        invariant
            all == records.deep_view(),
            i <= records@.len(),
            out.deep_view() == project_slugs(all).take(i as int),
        decreases records.len() - i,
    {
        assert(all[i as int] == records@[i as int].deep_view());
        let ghost prior = out.deep_view();
        out.push((records[i].project_id.clone(), records[i].slug.clone()));
        i = i + 1;
        proof {
            assert(out.deep_view() =~= prior.push(
                (all[i - 1].project_id, all[i - 1].slug),
            ));
            assert(out.deep_view() =~= project_slugs(all).take(i as int));
        }
    }
    assert(project_slugs(all).take(i as int) =~= project_slugs(all));
    out
}

/// The lock entry for one record.
fn entry_for(slugs: &Vec<(String, String)>, r: &PwRecord, found: &Option<ImportedVersion>) -> (m:
    LockedMod)
    ensures
        m@ == imported_entry(
            slugs.deep_view(),
            r@,
            match found {
                Some(v) => Some(v@),
                None => None,
            },
        ),
{
    let (version, size, dependencies) = match (r.provider, found) {
        (Provider::Modrinth, Some(v)) => (
            v.version_number.clone(),
            v.size,
            edges(slugs, &v.dependencies),
        ),
        _ => {
            let none: Vec<DepEdge> = Vec::new();
            assert(none.deep_view() =~= Seq::<DepEdgeView>::empty());
            (r.filename.clone(), None, none)
        },
    };
    // packwiz keeps no provenance, so every imported mod is treated as directly declared.
    let mut requested_by: Vec<String> = Vec::new();
    requested_by.push(ROOT_REQUESTER.to_owned());
    assert(requested_by.deep_view() =~= seq![ROOT_REQUESTER@]);
    LockedMod {
        slug: r.slug.clone(),
        name: r.name.clone(),
        provider: r.provider,
        project_id: r.project_id.clone(),
        file_id: Some(r.file_id.clone()),
        version,
        filename: r.filename.clone(),
        download: Download {
            url: copy_option(&r.url),
            mode: r.mode,
            hash_format: r.hash_format.clone(),
            hash: r.hash.clone(),
            size,
        },
        side: r.side,
        optional: false,
        dependencies,
        requested_by,
    }
}

/// Convert a packwiz pack (`pack.toml` + `mods/*.pw.toml`) into a lode project. The metafiles already
/// carry the resolved file (url + hash + ids), so the jars aren't re-picked; the one thing packwiz
/// never records, the human version number, is looked up at Modrinth (keyless), which also yields
/// the dependency edges packwiz's flat index throws away. Edges only reference mods that are
/// actually here (a dep the author pruned is simply not recorded). `records` are sorted by slug, and
/// `found` holds what was looked up for each of them.
pub fn import_packwiz(
    pack: PackToml,
    loader: LoaderSpec,
    records: &Vec<PwRecord>,
    found: &Vec<Option<ImportedVersion>>,
) -> (r: Imported)
    requires
        found@.len() == records@.len(),
    ensures
        r.manifest@ == imported_manifest(pack@, loader@, records.deep_view()),
        r.locked.deep_view() == imported_entries(records.deep_view(), found_views(found@)),
        r.unknown.deep_view() == unknown_versions(records.deep_view(), found_views(found@)),
{
    let ghost all = records.deep_view();
    let ghost looked_up = found_views(found@);
    let ghost pack_view = pack@;
    let slugs = slugs_of(records);
    let mut locked: Vec<LockedMod> = Vec::new();
    let mut unknown: Vec<String> = Vec::new();
    let mut mods: IndexMap<String, ModSpec> = no_mods();
    let mut i: usize = 0;
    proof {
        assert(unknown.deep_view() =~= unknown_versions(all.take(0), looked_up));
        assert(declared(mods) =~= imported_mods(all.take(0)));
    }
    while i < records.len()
        invariant
            all == records.deep_view(),
            looked_up == found_views(found@),
            found@.len() == records@.len(),
            slugs.deep_view() == project_slugs(all),
            i <= records@.len(),
            locked.deep_view() == imported_entries(all, looked_up).take(i as int),
            unknown.deep_view() == unknown_versions(all.take(i as int), looked_up),
            declared(mods) == imported_mods(all.take(i as int)),
        decreases records.len() - i,
    {
        let r = &records[i];
        proof {
            assert(all[i as int] == r.deep_view());
            assert(all.take(i + 1).drop_last() =~= all.take(i as int));
            assert(all.take(i + 1).last() == all[i as int]);
            assert(looked_up[i as int] == (match found@[i as int] {
                Some(v) => Some(v@),
                None => None,
            }));
        }
        let ghost entries = locked.deep_view();
        let entry = entry_for(&slugs, r, &found[i]);
        let ghost added = entry.deep_view();
        locked.push(entry);
        proof {
            assert(locked.deep_view() =~= entries.push(added));
            assert(added == imported_entries(all, looked_up)[i as int]);
        }
        if r.provider == Provider::Modrinth && found[i].is_none() {
            let ghost prior = unknown.deep_view();
            unknown.push(r.slug.clone());
            assert(unknown.deep_view() =~= prior.push(r@.slug));
        }
        declare(&mut mods, r.slug.clone(), manifest_spec(r));
        i = i + 1;
        assert(locked.deep_view() =~= imported_entries(all, looked_up).take(i as int));
    }
    proof {
        assert(all.take(i as int) =~= all);
        assert(imported_entries(all, looked_up).take(i as int) =~= imported_entries(
            all,
            looked_up,
        ));
    }
    let author = match pack.author {
        Some(a) => a,
        None => String::new(),
    };
    let version = match pack.version {
        Some(v) => v,
        None => "0.1.0".to_owned(),
    };
    let overlays: Vec<Overlay> = Vec::new();
    assert(overlays.deep_view() =~= Seq::<OverlayView>::empty());
    let manifest = Manifest {
        pack: PackMeta { name: pack.name, author, version, description: pack.description },
        loader,
        defaults: Defaults { side: Side::Both },
        overlays,
        mods,
    };
    Imported { manifest, locked, unknown }
}

/// The lock of an imported pack. It is born fresh: it carries the hash of the manifest as it was
/// written, so `install` uses it directly, without a re-resolve.
pub fn imported_lock(manifest: &Manifest, json: &str, locked: Vec<LockedMod>) -> (r: Lock)
    ensures
        r@ == (LockView {
            lockfile_version: LOCKFILE_VERSION,
            manifest_hash: manifest_hash_of(json@),
            loader: manifest@.loader,
            lode_version: LODE_VERSION@,
            mods: locked.deep_view(),
        }),
{
    Lock {
        lockfile_version: LOCKFILE_VERSION,
        manifest_hash: manifest_hash(json),
        loader: manifest.loader.clone(),
        resolver: ResolverMeta { lode_version: LODE_VERSION.to_owned() },
        mods: locked,
    }
}

// ---- laws -------------------------------------------------------------------------------------

/// An import keeps the pinned file of every metafile: nothing is re-picked.
pub proof fn imported_files_are_kept(
    records: Seq<PwRecordView>,
    found: Seq<Option<ImportedVersionView>>,
    i: int,
)
    requires
        found.len() == records.len(),
        0 <= i < records.len(),
    ensures
        ({
            let m = imported_entries(records, found)[i];
            &&& imported_entries(records, found).len() == records.len()
            &&& m.slug == records[i].slug
            &&& m.filename == records[i].filename
            &&& m.file_id == Some(records[i].file_id)
            &&& m.project_id == records[i].project_id
            &&& m.download.url == records[i].url
            &&& m.download.hash_format == records[i].hash_format
            &&& m.download.hash == records[i].hash
            &&& m.requested_by.contains(ROOT_REQUESTER@)
        }),
{
    let m = imported_entries(records, found)[i];
    assert(m.requested_by[0] == ROOT_REQUESTER@);
}

/// A CurseForge metafile never brings its download URL into the project.
pub proof fn curseforge_urls_are_not_imported(slug: Seq<char>, pw: PwModView)
    ensures
        record_of(slug, pw) matches Ok(r) ==> (r.provider == Provider::Curseforge ==> r.url is None),
{
}

/// Every edge of an imported mod names the slug of a mod of the pack.
pub proof fn imported_edges_stay_in_the_pack(
    records: Seq<PwRecordView>,
    deps: Seq<ResolvedDepView>,
    e: int,
)
    requires
        0 <= e < edges_to(project_slugs(records), deps).len(),
    ensures
        exists|j: int|
            0 <= j < records.len() && (#[trigger] records[j]).slug == edges_to(
                project_slugs(records),
                deps,
            )[e].slug,
    decreases deps.len(),
{
    let head = deps.drop_last();
    let earlier = edges_to(project_slugs(records), head);
    if e < earlier.len() {
        imported_edges_stay_in_the_pack(records, head, e);
    } else {
        found_values_are_there(project_slugs(records), deps.last().project_id);
        let pairs = project_slugs(records);
        let slug = last_value(pairs, deps.last().project_id)->0;
        let j = choose|j: int| 0 <= j < pairs.len() && (#[trigger] pairs[j]).1 == slug;
        assert(records[j].slug == slug);
    }
}

proof fn found_values_are_there(pairs: Seq<(Seq<char>, Seq<char>)>, key: Seq<char>)
    ensures
        last_value(pairs, key) matches Some(v) ==> exists|j: int|
            0 <= j < pairs.len() && (#[trigger] pairs[j]).1 == v,
    decreases pairs.len(),
{
    if pairs.len() > 0 {
        let head = pairs.drop_last();
        if pairs.last().0 == key {
            assert(pairs[pairs.len() - 1].1 == pairs.last().1);
        } else {
            found_values_are_there(head, key);
            if last_value(head, key) is Some {
                let v = last_value(head, key)->0;
                let j = choose|j: int| 0 <= j < head.len() && (#[trigger] head[j]).1 == v;
                assert(pairs[j].1 == v);
            }
        }
    }
}

/// What an export writes as the side of a mod, an import reads as that side again.
pub proof fn exported_sides_read_back(side: Side)
    ensures
        pw_side(Some(crate::side::packwiz_side(side))) == Ok::<Side, ImportFault>(side),
{
    reveal_strlit("");
    reveal_strlit("client");
    reveal_strlit("server");
    reveal_strlit("both");
    assert("client"@[0] == 'c' && "server"@[0] == 's' && "both"@[0] == 'b');
    assert(""@.len() == 0 && "client"@.len() == 6 && "server"@.len() == 6 && "both"@.len() == 4);
}

/// The side that a metafile gives: without one it is both, an empty one is neither, and otherwise it is
/// the side of that name.
pub open spec fn gives_side(written: Option<Seq<char>>, side: Side) -> bool {
    match side {
        Side::Both => written is None || written == Some("both"@),
        Side::Client => written == Some("client"@),
        Side::Server => written == Some("server"@),
        Side::Neither => written == Some(Seq::<char>::empty()),
    }
}

/// The lock entry of an imported metafile is that of the file it names: with the slug, the name, the file
/// and the hash of the metafile, and the side that it gives. A mod of Modrinth keeps its ids and its URL;
/// one of CurseForge keeps its ids, and has no URL.
pub proof fn an_imported_entry_is_its_metafile(
    records: Seq<PwRecordView>,
    found: Seq<Option<ImportedVersionView>>,
    i: int,
    slug: Seq<char>,
    pw: PwModView,
)
    requires
        found.len() == records.len(),
        0 <= i < records.len(),
        record_of(slug, pw) == Ok::<PwRecordView, ImportFault>(records[i]),
    ensures
        ({
            let m = imported_entries(records, found)[i];
            &&& m.slug == slug && m.name == pw.name && m.filename == pw.filename
            &&& m.download.hash_format == pw.hash_format && m.download.hash == pw.hash
            &&& gives_side(pw.side, m.side)
            &&& !m.optional && m.requested_by == seq!["manifest"@]
            &&& pw.modrinth matches Some((project, file)) ==> {
                &&& m.provider == Provider::Modrinth && m.download.mode == DownloadMode::Url
                &&& m.project_id == project && m.file_id == Some(file)
                &&& m.download.url == pw.url
            }
            &&& pw.modrinth is None ==> {
                &&& m.provider == Provider::Curseforge
                &&& m.download.mode == DownloadMode::MetadataCurseforge
                &&& m.download.url is None
                &&& pw.curseforge matches Some((project, file)) && written_as(project, m.project_id)
                    && (m.file_id matches Some(id) && written_as(file, id))
            }
        }),
{
    sides_are_told_apart();
}

/// The text of an id: that of an integer in decimal, or the text itself.
pub open spec fn written_as(id: PwIdView, text: Seq<char>) -> bool {
    match id {
        PwIdView::Integer(n) => text == signed_decimal(n as int),
        PwIdView::Text(s) => text == s,
        PwIdView::Other => false,
    }
}

proof fn sides_are_told_apart()
    ensures
        ""@ == Seq::<char>::empty(),
        "client"@.len() == 6,
        "server"@.len() == 6,
        "client"@ != "server"@,
        "both"@.len() == 4,
{
    reveal_strlit("");
    reveal_strlit("client");
    reveal_strlit("server");
    reveal_strlit("both");
    assert(""@ =~= Seq::<char>::empty());
    assert("client"@[0] == 'c' && "server"@[0] == 's');
}

/// A metafile is refused exactly where its side is unknown, where it has neither an update section for
/// Modrinth nor one for CurseForge, or where it has only the latter and an id in it is neither an integer
/// nor a text.
pub proof fn metafiles_are_refused_for_a_reason(slug: Seq<char>, pw: PwModView)
    ensures
        ({
            let known = exists|side: Side| #[trigger] gives_side(pw.side, side);
            let bad_id = pw.curseforge matches Some((project, file)) && (project is Other
                || file is Other);
            match record_of(slug, pw) {
                Ok(_) => known && (pw.modrinth is Some || (pw.curseforge is Some && !bad_id)),
                Err(ImportFault::UnknownSide(s)) => !known && pw.side == Some(s),
                Err(ImportFault::NoUpdate) => known && pw.modrinth is None && pw.curseforge is None,
                Err(ImportFault::BadId) => known && pw.modrinth is None && bad_id,
                Err(_) => false,
            }
        }),
{
    sides_are_told_apart();
    match pw_side(pw.side) {
        Ok(side) => {
            assert(gives_side(pw.side, side));
        },
        Err(_) => {},
    }
}

/// What was found of a Modrinth version gives its entry the version, the size and the edges to the mods
/// of the pack; without it, and for a mod of CurseForge, the file name stands for the version.
pub proof fn imported_versions_are_those_found(
    records: Seq<PwRecordView>,
    found: Seq<Option<ImportedVersionView>>,
    i: int,
)
    requires
        found.len() == records.len(),
        0 <= i < records.len(),
    ensures
        ({
            let m = imported_entries(records, found)[i];
            &&& records[i].provider == Provider::Modrinth && found[i] is Some ==> {
                &&& m.version == found[i]->0.version_number
                &&& m.download.size == found[i]->0.size
                &&& m.dependencies == edges_to(project_slugs(records), found[i]->0.dependencies)
            }
            &&& records[i].provider != Provider::Modrinth || found[i] is None ==> {
                &&& m.version == records[i].filename
                &&& m.download.size is None
                &&& m.dependencies.len() == 0
            }
        }),
{
}

/// Some record is of this project.
pub open spec fn is_imported(records: Seq<PwRecordView>, project_id: Seq<char>) -> bool {
    exists|j: int| 0 <= j < records.len() && (#[trigger] records[j]).project_id == project_id
}

/// The edges of an imported entry are its dependencies on projects of the pack, in order, each with its
/// kind and the slug of a record of that project.
pub proof fn imported_edges_are_the_dependencies_in_the_pack(
    records: Seq<PwRecordView>,
    deps: Seq<ResolvedDepView>,
    e: int,
)
    ensures
        ({
            let edges = edges_to(project_slugs(records), deps);
            let inside = deps.filter(|d: ResolvedDepView| is_imported(records, d.project_id));
            &&& edges.len() == inside.len()
            &&& 0 <= e < edges.len() ==> edges[e].kind == inside[e].kind && exists|j: int|
                0 <= j < records.len() && (#[trigger] records[j]).project_id == inside[e].project_id
                    && records[j].slug == edges[e].slug
        }),
    decreases deps.len(),
{
    reveal(Seq::filter);
    if deps.len() > 0 {
        imported_edges_are_the_dependencies_in_the_pack(records, deps.drop_last(), e);
        last_record_counts(records, deps.last().project_id);
    }
}

proof fn last_record_counts(records: Seq<PwRecordView>, project_id: Seq<char>)
    ensures
        match last_value(project_slugs(records), project_id) {
            Some(slug) => exists|j: int|
                0 <= j < records.len() && (#[trigger] records[j]).project_id == project_id
                    && records[j].slug == slug,
            None => !is_imported(records, project_id),
        },
        last_value(project_slugs(records), project_id) is Some ==> is_imported(records, project_id),
    decreases records.len(),
{
    if records.len() > 0 {
        let head = records.drop_last();
        let pairs = project_slugs(records);
        assert(pairs.drop_last() =~= project_slugs(head));
        last_record_counts(head, project_id);
        assert(forall|j: int| 0 <= j < head.len() ==> head[j] == #[trigger] records[j]);
        if records.last().project_id == project_id {
            assert(records[records.len() - 1].project_id == project_id);
        } else if last_value(pairs, project_id) is Some {
            let slug = last_value(pairs, project_id)->0;
            let j = choose|j: int|
                0 <= j < head.len() && (#[trigger] head[j]).project_id == project_id
                    && head[j].slug == slug;
            assert(records[j].project_id == project_id);
        } else {
            assert forall|j: int| 0 <= j < records.len() implies (#[trigger] records[j]).project_id
                != project_id by {
                if j < head.len() {
                    assert(head[j].project_id != project_id);
                }
            }
        }
    }
}

/// An imported mod is declared as packwiz has it: in any version, with a side where it is not for both,
/// and with a provider where that is not Modrinth. Nothing of it is optional or pinned.
pub proof fn imported_mods_are_declared_as_they_are(records: Seq<PwRecordView>, i: int)
    requires
        0 <= i < records.len(),
        forall|j: int| i < j < records.len() ==> (#[trigger] records[j]).slug != records[i].slug,
    ensures
        match spec_of(imported_mods(records), records[i].slug) {
            Some(ModSpecView::Constraint(c)) => c == "*"@ && records[i].side == Side::Both
                && records[i].provider == Provider::Modrinth,
            Some(ModSpecView::Detailed(d)) => {
                &&& d.version == "*"@
                &&& d.side is None ==> records[i].side == Side::Both
                &&& d.side matches Some(side) ==> records[i].side == side && side != Side::Both
                &&& d.provider is None ==> records[i].provider == Provider::Modrinth
                &&& d.provider matches Some(p) ==> records[i].provider == p && p
                    != Provider::Modrinth
                &&& d.side is Some || d.provider is Some
                &&& d.project_id is None && !d.optional && !d.pin
            },
            None => false,
        },
    decreases records.len(),
{
    let head = records.drop_last();
    let last = records.last();
    let before = imported_mods(head);
    declaring_sets_one_mod(before, last.slug, spec_for(last), records[i].slug);
    if i < head.len() {
        assert(head[i] == records[i]);
        assert(records[records.len() - 1].slug != records[i].slug);
        assert forall|j: int| i < j < head.len() implies (#[trigger] head[j]).slug != head[i].slug by {
            assert(records[j].slug != records[i].slug);
        }
        imported_mods_are_declared_as_they_are(head, i);
    }
}

/// The imported manifest carries the pack's own data: its name, author, version and description, and the
/// loader. It is for both sides and has no overlays.
pub proof fn the_imported_manifest_is_the_pack(
    pack: PackTomlView,
    loader: LoaderSpecView,
    records: Seq<PwRecordView>,
)
    ensures
        ({
            let m = imported_manifest(pack, loader, records);
            &&& m.pack.name == pack.name && m.pack.description == pack.description
            &&& pack.author matches Some(author) ==> m.pack.author == author
            &&& pack.author is None ==> m.pack.author.len() == 0
            &&& pack.version matches Some(version) ==> m.pack.version == version
            &&& pack.version is None ==> m.pack.version == "0.1.0"@
            &&& m.loader == loader && m.default_side == Side::Both && m.overlays.len() == 0
        }),
{
}

/// A record of Modrinth whose version was not found.
pub open spec fn is_unknown(r: PwRecordView, found: Option<ImportedVersionView>) -> bool {
    r.provider == Provider::Modrinth && found is None
}

/// The mods whose version is unknown are exactly those of Modrinth that were not found.
pub proof fn unknown_versions_are_those_not_found(
    records: Seq<PwRecordView>,
    found: Seq<Option<ImportedVersionView>>,
    slug: Seq<char>,
)
    ensures
        unknown_versions(records, found).contains(slug) <==> exists|i: int|
            0 <= i < records.len() && (#[trigger] records[i]).slug == slug && is_unknown(
                records[i],
                found[i],
            ),
    decreases records.len(),
{
    if records.len() > 0 {
        let head = records.drop_last();
        let earlier = unknown_versions(head, found);
        let all = unknown_versions(records, found);
        let last = records.len() - 1;
        unknown_versions_are_those_not_found(head, found, slug);
        assert(forall|i: int| 0 <= i < head.len() ==> head[i] == #[trigger] records[i]);
        if earlier.contains(slug) {
            let k = choose|k: int| 0 <= k < earlier.len() && earlier[k] == slug;
            assert(all[k] == slug);
            let i = choose|i: int|
                0 <= i < head.len() && (#[trigger] head[i]).slug == slug && is_unknown(
                    head[i],
                    found[i],
                );
            assert(records[i].slug == slug);
        }
        if records[last].slug == slug && is_unknown(records[last], found[last]) {
            assert(all[all.len() - 1] == slug);
        }
        if all.contains(slug) && !earlier.contains(slug) {
            let k = choose|k: int| 0 <= k < all.len() && all[k] == slug;
            if k < earlier.len() {
                assert(earlier[k] == slug);
            }
            assert(records[last].slug == slug);
        }
        if exists|i: int|
            0 <= i < records.len() && (#[trigger] records[i]).slug == slug && is_unknown(
                records[i],
                found[i],
            ) {
            let i = choose|i: int|
                0 <= i < records.len() && (#[trigger] records[i]).slug == slug && is_unknown(
                    records[i],
                    found[i],
                );
            if i < last {
                assert(head[i].slug == slug);
            }
        }
    }
}

/// A pack is for the loader whose name stands first in its versions, in the version given there, and for
/// the Minecraft version given there; it is refused only where one of them is missing.
pub proof fn a_pack_is_for_what_its_versions_say(versions: Seq<(Seq<char>, Seq<char>)>)
    ensures
        match pack_loader(versions) {
            Ok(l) => {
                &&& exists|i: int|
                    #![trigger versions[i]]
                    0 <= i < versions.len() && versions[i] == (loader_word(l.name), l.version)
                        && forall|j: int|
                        0 <= j < i ==> loader_named((#[trigger] versions[j]).0) is None
                &&& versions.contains(("minecraft"@, l.minecraft))
            },
            Err(ImportFault::NoMinecraft) => forall|j: int|
                0 <= j < versions.len() ==> (#[trigger] versions[j]).0 != "minecraft"@,
            Err(ImportFault::NoLoader) => forall|j: int|
                0 <= j < versions.len() ==> loader_named((#[trigger] versions[j]).0) is None,
            Err(_) => false,
        },
{
    first_loader(versions, 0);
    value_is_listed(versions, "minecraft"@);
}

proof fn first_loader(versions: Seq<(Seq<char>, Seq<char>)>, from: int)
    requires
        0 <= from <= versions.len(),
    ensures
        match loader_in(versions, from) {
            Some((name, version)) => exists|i: int|
                #![trigger versions[i]]
                from <= i < versions.len() && versions[i] == (loader_word(name), version)
                    && forall|j: int|
                    from <= j < i ==> loader_named((#[trigger] versions[j]).0) is None,
            None => forall|j: int|
                from <= j < versions.len() ==> loader_named((#[trigger] versions[j]).0) is None,
        },
    decreases versions.len() - from,
{
    if from < versions.len() {
        if loader_named(versions[from].0) is Some {
            assert(versions[from] == (loader_word(loader_named(versions[from].0)->0), versions[from].1));
        } else {
            first_loader(versions, from + 1);
        }
    }
}

proof fn value_is_listed(pairs: Seq<(Seq<char>, Seq<char>)>, key: Seq<char>)
    ensures
        match last_value(pairs, key) {
            Some(v) => pairs.contains((key, v)),
            None => forall|j: int| 0 <= j < pairs.len() ==> (#[trigger] pairs[j]).0 != key,
        },
    decreases pairs.len(),
{
    if pairs.len() > 0 {
        let head = pairs.drop_last();
        value_is_listed(head, key);
        assert(forall|j: int| 0 <= j < head.len() ==> head[j] == #[trigger] pairs[j]);
        if pairs.last().0 == key {
            assert(pairs[pairs.len() - 1] == (key, pairs.last().1));
        } else if last_value(pairs, key) is Some {
            let v = last_value(pairs, key)->0;
            let j = choose|j: int| 0 <= j < head.len() && head[j] == (key, v);
            assert(pairs[j] == (key, v));
        } else {
            assert forall|j: int| 0 <= j < pairs.len() implies (#[trigger] pairs[j]).0 != key by {
                if j < head.len() {
                    assert(head[j].0 != key);
                }
            }
        }
    }
}

/// The lock of an import is for the manifest that was imported: it has the entries as they are, the loader,
/// and the digest of the manifest's text.
pub proof fn an_imported_lock_is_for_its_manifest(
    manifest: &Manifest,
    json: &str,
    locked: Vec<LockedMod>,
    r: Lock,
)
    requires
        call_ensures(imported_lock, (manifest, json, locked), r),
    ensures
        r@.lockfile_version == 1,
        r@.mods == locked.deep_view(),
        r@.loader == manifest@.loader,
        r@.manifest_hash == "sha256:"@ + hex_of(sha256_digest(utf8(json@))),
{
}

/// An existing manifest is overwritten only by force.
pub proof fn a_manifest_is_overwritten_by_force_alone(
    args: &ImportArgs,
    present: bool,
    r: Result<(), ImportError>,
)
    requires
        call_ensures(may_write, (args, present), r),
    ensures
        r is Ok <==> args.force || !present,
{
}

/// The imported mods are declared in the order of the records, where no two have one slug.
pub proof fn imported_mods_keep_their_order(records: Seq<PwRecordView>, i: int)
    requires
        forall|a: int, b: int|
            0 <= a < b < records.len() ==> (#[trigger] records[a]).slug != (
            #[trigger] records[b]).slug,
        0 <= i < records.len(),
    ensures
        imported_mods(records).len() == records.len(),
        imported_mods(records)[i].0 == records[i].slug,
    decreases records.len(),
{
    let head = records.drop_last();
    let last = records.last();
    let before = imported_mods(head);
    assert forall|a: int, b: int| 0 <= a < b < head.len() implies (#[trigger] head[a]).slug != (
    #[trigger] head[b]).slug by {
        assert(records[a].slug != records[b].slug);
    }
    slugs_are_those_of_the_records(head);
    declared_means_present(before, last.slug);
    if spec_of(before, last.slug) is Some {
        let k = choose|k: int| 0 <= k < before.len() && (#[trigger] before[k]).0 == last.slug;
        assert(before[k].0 == head[k].slug);
        assert(records[k].slug != records[records.len() - 1].slug);
    }
    if i < head.len() {
        assert(before[i].0 == head[i].slug);
    }
}

proof fn slugs_are_those_of_the_records(records: Seq<PwRecordView>)
    requires
        forall|a: int, b: int|
            0 <= a < b < records.len() ==> (#[trigger] records[a]).slug != (
            #[trigger] records[b]).slug,
    ensures
        imported_mods(records).len() == records.len(),
        forall|k: int|
            0 <= k < records.len() ==> (#[trigger] imported_mods(records)[k]).0 == records[k].slug,
    decreases records.len(),
{
    if records.len() > 0 {
        let head = records.drop_last();
        assert forall|a: int, b: int| 0 <= a < b < head.len() implies (#[trigger] head[a]).slug != (
        #[trigger] head[b]).slug by {
            assert(records[a].slug != records[b].slug);
        }
        slugs_are_those_of_the_records(head);
        let before = imported_mods(head);
        let last = records.last();
        declared_means_present(before, last.slug);
        if spec_of(before, last.slug) is Some {
            let k = choose|k: int| 0 <= k < before.len() && (#[trigger] before[k]).0 == last.slug;
            assert(before[k].0 == head[k].slug);
            assert(records[k].slug != records[records.len() - 1].slug);
        }
    }
}

/// Metafiles are read in the order of their slugs, and all of them are.
pub proof fn metafiles_are_read_by_slug(records: Seq<PwRecordView>)
    ensures
        ({
            let sorted = arranged::<PwRecord>(records);
            &&& sorted.to_multiset() == records.to_multiset()
            &&& forall|a: int, b: int|
                0 <= a < b < sorted.len() ==> !before(
                    (#[trigger] sorted[b]).slug,
                    (#[trigger] sorted[a]).slug,
                )
        }),
{
    let sorted = arranged::<PwRecord>(records);
    text_order_is_strict();
    assert(strict_order::<PwRecord>());
    arranging_orders::<PwRecord>(records);
    arranging_permutes::<PwRecord>(records);
    assert forall|a: int, b: int| 0 <= a < b < sorted.len() implies !before(
        (#[trigger] sorted[b]).slug,
        (#[trigger] sorted[a]).slug,
    ) by {
        assert(!PwRecord::ranks_before(sorted[b], sorted[a]));
    }
}

/// A pack is read from the directory that was named and written to the other one; where none was named, that
/// is the current directory.
pub proof fn a_pack_is_read_and_written_where_asked(args: &ImportArgs, r: ImportPlan)
    requires
        call_ensures(run, (args,), r),
    ensures
        args.path is None ==> r.source@ == "."@,
        args.path is Some ==> r.source@ == args.path->0@,
        args.out is None ==> r.out@ == "."@,
        args.out is Some ==> r.out@ == args.out->0@,
        r.pack_toml@ == under(r.source@, "pack.toml"@),
        r.manifest@ == under(r.out@, "lode.json"@),
        r.lock@ == under(r.out@, "lode.lock"@),
{
}

} // verus!
