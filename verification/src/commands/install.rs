//! Installing a pack: which files to fetch, and what a fetched file must be.
//!
//! Installing one mod is a state machine. It says what to do next, the caller does it and hands
//! back what came of it.
use vstd::prelude::*;

use crate::hash::{
    hash_by_format, hash_in, hex_of, md5_digest, sha1_digest, sha256_digest, sha512_digest,
};
use crate::http::{DEFAULT_MAX_DOWNLOAD, SIZE_MARGIN};
use crate::lock::{LockedMod, LockedModView};
use crate::overlay::OverlayFile;
use crate::provider::Provider;
use crate::providers::curseforge::{CfDownload, CfDownloadView};
use crate::resolve::contains_text;
use crate::side::Side;
use crate::text::{
    chars_of, find_last_char, last_of, lower, same, string_of, to_lower, trim_end, trimmed_end,
    trimming_an_ending_takes_all_of_it,
};

verus! {

/// Options controlling an install, shared by `lode install` and `lode add`.
#[derive(Debug)]
pub struct InstallOpts {
    pub into: Option<String>,
    pub server: bool,
    pub skip_loader: bool,
    pub java: Option<String>,
}

impl InstallOpts {
    /// On a server install, the loader itself is brought up first (unless told to skip), so the
    /// target goes from empty folder to runnable server in one command.
    pub fn provisions_loader(&self) -> (r: bool)
        ensures
            r == (self.server && !self.skip_loader),
    {
        self.server && !self.skip_loader
    }
}

impl Default for InstallOpts {
    fn default() -> (r: Self)
        ensures
            r.into is None && !r.server && !r.skip_loader && r.java is None,
    {
        InstallOpts { into: None, server: false, skip_loader: false, java: None }
    }
}

/// A file of the given side belongs on the side being installed.
pub open spec fn wanted_on(side: Side, server: bool) -> bool {
    match side {
        Side::Both => true,
        Side::Client => !server,
        Side::Server => server,
        Side::Neither => false,
    }
}

/// Whether a mod belongs on the side being installed. `Both` always installs; `Neither` never does.
pub fn side_wanted(side: Side, want_server: bool) -> (r: bool)
    ensures
        r == wanted_on(side, want_server),
{
    match side {
        Side::Both => true,
        Side::Client => !want_server,
        Side::Server => want_server,
        Side::Neither => false,
    }
}

// ---- one mod ----------------------------------------------------------------------------------

/// A file that couldn't be fetched automatically, with the page a user can grab it from.
#[derive(Debug)]
pub struct ManualDownload {
    pub name: String,
    pub filename: String,
    pub page: Option<String>,
}

/// What installing one locked mod produced. Everything except a hard failure lets the batch proceed.
#[derive(Debug)]
pub enum Outcome {
    /// Downloaded, verified, and written.
    Installed,
    /// Copied in from the pack's `local/` folder, and verified.
    InstalledLocal,
    /// Already on disk with a matching hash: nothing to do.
    UpToDate,
    /// The provider offers no download URL; the user must fetch it by hand.
    Manual(ManualDownload),
    /// A CurseForge mod that can't be fetched without an API key.
    NeedsKey(String),
}

/// Why a mod could not be installed.
#[derive(Debug)]
pub enum InstallFault {
    /// CurseForge could not be asked for the file.
    LookupFailed,
    /// The download failed, or was longer than its cap.
    DownloadFailed,
    /// The lock's hash format cannot be computed.
    UnsupportedFormat,
    /// The bytes, downloaded or from the pack's `local/` folder, have this hash, which is not the
    /// locked one.
    HashMismatch(String),
    /// The verified file could not be written.
    WriteFailed,
    /// The local jar could not be read, or not be written to its place.
    CopyFailed,
}

/// What is known of the CurseForge API key. Once it is known to be missing, no further mod asks.
#[derive(Debug, Clone, Copy, PartialEq, Eq, Structural)]
pub enum KeyState {
    Untried,
    Present,
    Absent,
}

/// Where the installation of one mod stands: what it waits for.
#[derive(Debug)]
pub enum Stage {
    Begin,
    WantKey,
    WantFile,
    WantExisting(String),
    WantBody,
    WantWrite,
    WantLocal,
    WantLocalWrite,
    Over,
}

/// What came of the last action.
#[derive(Debug)]
pub enum Event {
    Started,
    /// Whether a CurseForge API key is configured.
    Key(bool),
    /// The file as CurseForge describes it, unless the lookup failed.
    File(Option<CfDownload>),
    /// The bytes of the file that is there already, where it is there and can be read.
    Existing(Option<Vec<u8>>),
    /// The downloaded bytes, unless the download failed or ran past its cap.
    Body(Option<Vec<u8>>),
    /// The bytes of the jar in the pack's `local/` folder, unless it cannot be read.
    Local(Option<Vec<u8>>),
    /// Whether the file was written.
    Stored(bool),
}

/// What to do next.
#[derive(Debug)]
pub enum Action {
    /// Find out whether a CurseForge API key is configured.
    AskKey,
    /// Ask CurseForge for the file with this id.
    AskFile(String),
    /// Read the file that is there already.
    ReadExisting,
    /// Download from the URL, at most so many bytes.
    Fetch(String, u64),
    /// Write the bytes to the mod's file.
    Write(Vec<u8>),
    /// Read the jar in the pack's `local/` folder.
    ReadLocal,
    /// The mod is dealt with.
    Finish(Outcome),
    /// The mod could not be installed.
    Fail(InstallFault),
}

#[verifier::ext_equal]
pub struct ManualView {
    pub name: Seq<char>,
    pub filename: Seq<char>,
    pub page: Option<Seq<char>>,
}

#[verifier::ext_equal]
pub enum OutcomeView {
    Installed,
    InstalledLocal,
    UpToDate,
    Manual(ManualView),
    NeedsKey(Seq<char>),
}

#[verifier::ext_equal]
pub enum InstallFaultView {
    LookupFailed,
    DownloadFailed,
    UnsupportedFormat,
    HashMismatch(Seq<char>),
    WriteFailed,
    CopyFailed,
}

#[verifier::ext_equal]
pub enum StageView {
    Begin,
    WantKey,
    WantFile,
    WantExisting(Seq<char>),
    WantBody,
    WantWrite,
    WantLocal,
    WantLocalWrite,
    Over,
}

#[verifier::ext_equal]
pub enum EventView {
    Started,
    Key(bool),
    File(Option<CfDownloadView>),
    Existing(Option<Seq<u8>>),
    Body(Option<Seq<u8>>),
    Local(Option<Seq<u8>>),
    Stored(bool),
}

#[verifier::ext_equal]
pub enum ActionView {
    AskKey,
    AskFile(Seq<char>),
    ReadExisting,
    Fetch(Seq<char>, u64),
    Write(Seq<u8>),
    ReadLocal,
    Finish(OutcomeView),
    Fail(InstallFaultView),
}

impl View for ManualDownload {
    type V = ManualView;

    open spec fn view(&self) -> ManualView {
        ManualView {
            name: self.name@,
            filename: self.filename@,
            page: self.page.deep_view(),
        }
    }
}

impl DeepView for ManualDownload {
    type V = ManualView;

    open spec fn deep_view(&self) -> ManualView {
        self@
    }
}

impl View for Outcome {
    type V = OutcomeView;

    open spec fn view(&self) -> OutcomeView {
        match self {
            Outcome::Installed => OutcomeView::Installed,
            Outcome::InstalledLocal => OutcomeView::InstalledLocal,
            Outcome::UpToDate => OutcomeView::UpToDate,
            Outcome::Manual(m) => OutcomeView::Manual(m@),
            Outcome::NeedsKey(s) => OutcomeView::NeedsKey(s@),
        }
    }
}

impl View for InstallFault {
    type V = InstallFaultView;

    open spec fn view(&self) -> InstallFaultView {
        match self {
            InstallFault::LookupFailed => InstallFaultView::LookupFailed,
            InstallFault::DownloadFailed => InstallFaultView::DownloadFailed,
            InstallFault::UnsupportedFormat => InstallFaultView::UnsupportedFormat,
            InstallFault::HashMismatch(h) => InstallFaultView::HashMismatch(h@),
            InstallFault::WriteFailed => InstallFaultView::WriteFailed,
            InstallFault::CopyFailed => InstallFaultView::CopyFailed,
        }
    }
}

impl View for Stage {
    type V = StageView;

    open spec fn view(&self) -> StageView {
        match self {
            Stage::Begin => StageView::Begin,
            Stage::WantKey => StageView::WantKey,
            Stage::WantFile => StageView::WantFile,
            Stage::WantExisting(url) => StageView::WantExisting(url@),
            Stage::WantBody => StageView::WantBody,
            Stage::WantWrite => StageView::WantWrite,
            Stage::WantLocal => StageView::WantLocal,
            Stage::WantLocalWrite => StageView::WantLocalWrite,
            Stage::Over => StageView::Over,
        }
    }
}

pub open spec fn bytes_view(bytes: Option<Vec<u8>>) -> Option<Seq<u8>> {
    match bytes {
        Some(b) => Some(b@),
        None => None,
    }
}

impl View for Event {
    type V = EventView;

    open spec fn view(&self) -> EventView {
        match self {
            Event::Started => EventView::Started,
            Event::Key(b) => EventView::Key(*b),
            Event::File(Some(f)) => EventView::File(Some(f@)),
            Event::File(None) => EventView::File(None),
            Event::Existing(b) => EventView::Existing(bytes_view(*b)),
            Event::Body(b) => EventView::Body(bytes_view(*b)),
            Event::Local(b) => EventView::Local(bytes_view(*b)),
            Event::Stored(b) => EventView::Stored(*b),
        }
    }
}

impl View for Action {
    type V = ActionView;

    open spec fn view(&self) -> ActionView {
        match self {
            Action::AskKey => ActionView::AskKey,
            Action::AskFile(id) => ActionView::AskFile(id@),
            Action::ReadExisting => ActionView::ReadExisting,
            Action::Fetch(url, cap) => ActionView::Fetch(url@, *cap),
            Action::Write(bytes) => ActionView::Write(bytes@),
            Action::ReadLocal => ActionView::ReadLocal,
            Action::Finish(o) => ActionView::Finish(o@),
            Action::Fail(f) => ActionView::Fail(f@),
        }
    }
}

/// Where a mod stands and what to do next.
#[verifier::ext_equal]
pub struct StepView {
    pub stage: StageView,
    pub key: KeyState,
    pub action: ActionView,
}

/// The bytes have the locked hash, in the locked format.
pub open spec fn has_locked_hash(m: LockedModView, bytes: Seq<u8>) -> bool {
    hash_in(bytes, m.download.hash_format) == Some(m.download.hash)
}

/// `NAME (FILE)`.
pub open spec fn label_of(m: LockedModView) -> Seq<char> {
    m.name + " ("@ + m.filename + ")"@
}

/// The id of the file, or nothing where the lock has none.
pub open spec fn file_id_of(m: LockedModView) -> Seq<char> {
    match m.file_id {
        Some(id) => id,
        None => Seq::empty(),
    }
}

/// How long a download may be: the locked size and a margin where the size is known.
pub open spec fn cap_of(m: LockedModView) -> u64 {
    match m.download.size {
        Some(size) => if size + SIZE_MARGIN > u64::MAX {
            u64::MAX
        } else {
            (size + SIZE_MARGIN) as u64
        },
        None => DEFAULT_MAX_DOWNLOAD,
    }
}

/// The file has to be fetched by hand, from the given page where there is one.
pub open spec fn manual_of(m: LockedModView, page: Option<Seq<char>>) -> ActionView {
    ActionView::Finish(
        OutcomeView::Manual(ManualView { name: m.name, filename: m.filename, page }),
    )
}

/// The step at the beginning. A locked URL is fetched, unless the file is there already; a local jar
/// is read; a CurseForge file without a URL is looked up, which takes a key; anything else has to
/// be fetched by hand.
pub open spec fn begin_step(m: LockedModView, key: KeyState) -> StepView {
    match m.download.url {
        Some(url) => StepView {
            stage: StageView::WantExisting(url),
            key,
            action: ActionView::ReadExisting,
        },
        None => if m.provider == Provider::Local {
            StepView { stage: StageView::WantLocal, key, action: ActionView::ReadLocal }
        } else if m.provider == Provider::Curseforge {
            match key {
                KeyState::Absent => StepView {
                    stage: StageView::Over,
                    key,
                    action: ActionView::Finish(OutcomeView::NeedsKey(label_of(m))),
                },
                KeyState::Present => StepView {
                    stage: StageView::WantFile,
                    key,
                    action: ActionView::AskFile(file_id_of(m)),
                },
                KeyState::Untried => StepView {
                    stage: StageView::WantKey,
                    key,
                    action: ActionView::AskKey,
                },
            }
        } else {
            StepView { stage: StageView::Over, key, action: manual_of(m, None) }
        },
    }
}

/// The step once the bytes are there: only bytes with the locked hash are written, and `next` waits
/// for that.
pub open spec fn bytes_step(
    m: LockedModView,
    key: KeyState,
    bytes: Seq<u8>,
    next: StageView,
) -> StepView {
    match hash_in(bytes, m.download.hash_format) {
        None => failed(key, InstallFaultView::UnsupportedFormat),
        Some(got) => if got == m.download.hash {
            StepView { stage: next, key, action: ActionView::Write(bytes) }
        } else {
            failed(key, InstallFaultView::HashMismatch(got))
        },
    }
}

pub open spec fn failed(key: KeyState, fault: InstallFaultView) -> StepView {
    StepView { stage: StageView::Over, key, action: ActionView::Fail(fault) }
}

pub open spec fn finished(key: KeyState, outcome: OutcomeView) -> StepView {
    StepView { stage: StageView::Over, key, action: ActionView::Finish(outcome) }
}

/// An event is what the stage waits for.
pub open spec fn expected(stage: StageView, event: EventView) -> bool {
    match stage {
        StageView::Begin => event is Started,
        StageView::WantKey => event is Key,
        StageView::WantFile => event is File,
        StageView::WantExisting(_) => event is Existing,
        StageView::WantBody => event is Body,
        StageView::WantWrite => event is Stored,
        StageView::WantLocal => event is Local,
        StageView::WantLocalWrite => event is Stored,
        StageView::Over => false,
    }
}

/// Each step of installing a mod: from where it stands and what happened to where it stands then
/// and what to do.
pub open spec fn install_step(
    m: LockedModView,
    stage: StageView,
    key: KeyState,
    event: EventView,
) -> StepView {
    match (stage, event) {
        (StageView::Begin, EventView::Started) => begin_step(m, key),
        (StageView::WantKey, EventView::Key(there)) => if there {
            StepView {
                stage: StageView::WantFile,
                key: KeyState::Present,
                action: ActionView::AskFile(file_id_of(m)),
            }
        } else {
            finished(KeyState::Absent, OutcomeView::NeedsKey(label_of(m)))
        },
        (StageView::WantFile, EventView::File(file)) => match file {
            None => failed(key, InstallFaultView::LookupFailed),
            Some(f) => match f.url {
                Some(url) => StepView {
                    stage: StageView::WantExisting(url),
                    key,
                    action: ActionView::ReadExisting,
                },
                None => StepView {
                    stage: StageView::Over,
                    key,
                    action: manual_of(
                        m,
                        match f.website_url {
                            Some(site) => Some(
                                trimmed_end(site, "/"@) + "/files/"@ + file_id_of(m),
                            ),
                            None => None,
                        },
                    ),
                },
            },
        },
        (StageView::WantExisting(url), EventView::Existing(existing)) => match existing {
            Some(bytes) if has_locked_hash(m, bytes) => finished(key, OutcomeView::UpToDate),
            _ => StepView {
                stage: StageView::WantBody,
                key,
                action: ActionView::Fetch(url, cap_of(m)),
            },
        },
        (StageView::WantBody, EventView::Body(body)) => match body {
            None => failed(key, InstallFaultView::DownloadFailed),
            Some(bytes) => bytes_step(m, key, bytes, StageView::WantWrite),
        },
        (StageView::WantWrite, EventView::Stored(stored)) => if stored {
            finished(key, OutcomeView::Installed)
        } else {
            failed(key, InstallFaultView::WriteFailed)
        },
        (StageView::WantLocal, EventView::Local(jar)) => match jar {
            None => failed(key, InstallFaultView::CopyFailed),
            Some(bytes) => bytes_step(m, key, bytes, StageView::WantLocalWrite),
        },
        (StageView::WantLocalWrite, EventView::Stored(stored)) => if stored {
            finished(key, OutcomeView::InstalledLocal)
        } else {
            failed(key, InstallFaultView::CopyFailed)
        },
        _ => failed(key, InstallFaultView::DownloadFailed),
    }
}

/// How long the download of a mod may be. Capped to the locked size (plus a small margin) when it's
/// known, so a hostile URL can't stream an endless body; a generous ceiling when it isn't.
pub fn download_cap(m: &LockedMod) -> (r: u64)
    ensures
        r == cap_of(m@),
{
    match m.download.size {
        Some(size) => if size > u64::MAX - SIZE_MARGIN {
            u64::MAX
        } else {
            size + SIZE_MARGIN
        },
        None => DEFAULT_MAX_DOWNLOAD,
    }
}

/// Whether the bytes are what the lock says.
pub fn matches_lock(m: &LockedMod, bytes: &[u8]) -> (r: bool)
    ensures
        r == has_locked_hash(m@, bytes@),
{
    match hash_by_format(bytes, m.download.hash_format.as_str()) {
        Some(got) => same(got.as_str(), m.download.hash.as_str()),
        None => false,
    }
}

fn label(m: &LockedMod) -> (r: String)
    ensures
        r@ == label_of(m@),
{
    let mut out = m.name.clone();
    out.append(" (");
    out.append(m.filename.as_str());
    out.append(")");
    out
}

fn file_id(m: &LockedMod) -> (r: String)
    ensures
        r@ == file_id_of(m@),
{
    match &m.file_id {
        Some(id) => id.clone(),
        None => String::new(),
    }
}

fn begin(m: &LockedMod, key: KeyState) -> (r: (Stage, Action))
    ensures
        begin_step(m@, key) == (StepView { stage: r.0@, key, action: r.1@ }),
{
    match &m.download.url {
        Some(url) => (Stage::WantExisting(url.clone()), Action::ReadExisting),
        None => match m.provider {
            Provider::Local => (Stage::WantLocal, Action::ReadLocal),
            Provider::Curseforge => match key {
                KeyState::Absent => (Stage::Over, Action::Finish(Outcome::NeedsKey(label(m)))),
                KeyState::Present => (Stage::WantFile, Action::AskFile(file_id(m))),
                KeyState::Untried => (Stage::WantKey, Action::AskKey),
            },
            _ => (
                Stage::Over,
                Action::Finish(
                    Outcome::Manual(
                        ManualDownload {
                            name: m.name.clone(),
                            filename: m.filename.clone(),
                            page: None,
                        },
                    ),
                ),
            ),
        },
    }
}

fn after_file(m: &LockedMod, key: KeyState, file: Option<CfDownload>) -> (r: (Stage, Action))
    ensures
        install_step(
            m@,
            StageView::WantFile,
            key,
            EventView::File(
                match file {
                    Some(f) => Some(f@),
                    None => None,
                },
            ),
        ) == (StepView { stage: r.0@, key, action: r.1@ }),
{
    match file {
        None => (Stage::Over, Action::Fail(InstallFault::LookupFailed)),
        Some(f) => match f.url {
            Some(url) => (Stage::WantExisting(url), Action::ReadExisting),
            None => {
                let page = match f.website_url {
                    Some(site) => {
                        proof {
                            reveal_strlit("/");
                        }
                        let mut page = trim_end(site.as_str(), "/");
                        page.append("/files/");
                        page.append(file_id(m).as_str());
                        Some(page)
                    },
                    None => None,
                };
                (
                    Stage::Over,
                    Action::Finish(
                        Outcome::Manual(
                            ManualDownload {
                                name: m.name.clone(),
                                filename: m.filename.clone(),
                                page,
                            },
                        ),
                    ),
                )
            },
        },
    }
}

fn after_bytes(m: &LockedMod, key: KeyState, bytes: Vec<u8>, next: Stage) -> (r: (Stage, Action))
    ensures
        bytes_step(m@, key, bytes@, next@) == (StepView { stage: r.0@, key, action: r.1@ }),
{
    match hash_by_format(bytes.as_slice(), m.download.hash_format.as_str()) {
        None => (Stage::Over, Action::Fail(InstallFault::UnsupportedFormat)),
        Some(got) => if same(got.as_str(), m.download.hash.as_str()) {
            (next, Action::Write(bytes))
        } else {
            (Stage::Over, Action::Fail(InstallFault::HashMismatch(got)))
        },
    }
}

/// Install a single locked mod, one step at a time: from where it stands and what came of the last
/// action to where it stands then and the next action. Network/hash errors surface as failures so
/// the caller can record them per-mod instead of aborting the whole install.
pub fn install_one(m: &LockedMod, stage: Stage, key: &mut KeyState, event: Event) -> (r: (
    Stage,
    Action,
))
    requires
        expected(stage@, event@),
    ensures
        install_step(m@, stage@, *old(key), event@) == (StepView {
            stage: r.0@,
            key: *final(key),
            action: r.1@,
        }),
{
    match (stage, event) {
        (Stage::Begin, Event::Started) => begin(m, *key),
        (Stage::WantKey, Event::Key(there)) => {
            if there {
                *key = KeyState::Present;
                (Stage::WantFile, Action::AskFile(file_id(m)))
            } else {
                *key = KeyState::Absent;
                (Stage::Over, Action::Finish(Outcome::NeedsKey(label(m))))
            }
        },
        (Stage::WantFile, Event::File(file)) => after_file(m, *key, file),
        (Stage::WantExisting(url), Event::Existing(existing)) => {
            let current = match existing {
                Some(bytes) => matches_lock(m, bytes.as_slice()),
                None => false,
            };
            if current {
                (Stage::Over, Action::Finish(Outcome::UpToDate))
            } else {
                (Stage::WantBody, Action::Fetch(url, download_cap(m)))
            }
        },
        (Stage::WantBody, Event::Body(body)) => match body {
            None => (Stage::Over, Action::Fail(InstallFault::DownloadFailed)),
            Some(bytes) => after_bytes(m, *key, bytes, Stage::WantWrite),
        },
        (Stage::WantWrite, Event::Stored(stored)) => if stored {
            (Stage::Over, Action::Finish(Outcome::Installed))
        } else {
            (Stage::Over, Action::Fail(InstallFault::WriteFailed))
        },
        (Stage::WantLocal, Event::Local(jar)) => match jar {
            None => (Stage::Over, Action::Fail(InstallFault::CopyFailed)),
            Some(bytes) => after_bytes(m, *key, bytes, Stage::WantLocalWrite),
        },
        (Stage::WantLocalWrite, Event::Stored(stored)) => if stored {
            (Stage::Over, Action::Finish(Outcome::InstalledLocal))
        } else {
            (Stage::Over, Action::Fail(InstallFault::CopyFailed))
        },
        _ => (Stage::Over, Action::Fail(InstallFault::DownloadFailed)),
    }
}

// ---- the batch --------------------------------------------------------------------------------

/// A mod that hit a hard error (network/hash) during install, recorded so the batch can finish
/// and report every failure at once.
#[derive(Debug)]
pub struct ModFailure {
    pub name: String,
    pub filename: String,
    pub error: String,
}

#[verifier::ext_equal]
pub struct ModFailureView {
    pub name: Seq<char>,
    pub filename: Seq<char>,
    pub error: Seq<char>,
}

impl DeepView for ModFailure {
    type V = ModFailureView;

    open spec fn deep_view(&self) -> ModFailureView {
        ModFailureView { name: self.name@, filename: self.filename@, error: self.error@ }
    }
}

/// How the mods of an install have fared so far. One mod's download/hash failure must not discard
/// the rest of the batch, and a missing CurseForge key shouldn't sink the whole install.
#[derive(Debug)]
pub struct InstallRun {
    pub installed: u32,
    pub up_to_date: u32,
    pub manual: Vec<ManualDownload>,
    pub needs_key: Vec<String>,
    pub failures: Vec<ModFailure>,
}

#[verifier::ext_equal]
pub struct RunView {
    pub installed: int,
    pub up_to_date: int,
    pub manual: Seq<ManualView>,
    pub needs_key: Seq<Seq<char>>,
    pub failures: Seq<ModFailureView>,
}

impl View for InstallRun {
    type V = RunView;

    open spec fn view(&self) -> RunView {
        RunView {
            installed: self.installed as int,
            up_to_date: self.up_to_date as int,
            manual: self.manual.deep_view(),
            needs_key: self.needs_key.deep_view(),
            failures: self.failures.deep_view(),
        }
    }
}

/// How one mod fared: an outcome, or the text of a failure.
#[verifier::ext_equal]
pub struct ReportView {
    pub m: LockedModView,
    pub result: Result<OutcomeView, Seq<char>>,
}

pub open spec fn empty_run() -> RunView {
    RunView {
        installed: 0,
        up_to_date: 0,
        manual: Seq::empty(),
        needs_key: Seq::empty(),
        failures: Seq::empty(),
    }
}

/// The run with one more mod reported.
pub open spec fn with_report(run: RunView, report: ReportView) -> RunView {
    match report.result {
        Ok(OutcomeView::Installed) => RunView { installed: run.installed + 1, ..run },
        Ok(OutcomeView::InstalledLocal) => RunView { installed: run.installed + 1, ..run },
        Ok(OutcomeView::UpToDate) => RunView { up_to_date: run.up_to_date + 1, ..run },
        Ok(OutcomeView::Manual(md)) => RunView { manual: run.manual.push(md), ..run },
        Ok(OutcomeView::NeedsKey(entry)) => RunView { needs_key: run.needs_key.push(entry), ..run },
        Err(error) => RunView {
            failures: run.failures.push(
                ModFailureView { name: report.m.name, filename: report.m.filename, error },
            ),
            ..run
        },
    }
}

/// The run after a row of reports.
pub open spec fn run_of(reports: Seq<ReportView>) -> RunView
    decreases reports.len(),
{
    if reports.len() == 0 {
        empty_run()
    } else {
        with_report(run_of(reports.drop_last()), reports.last())
    }
}

/// Every mod that was reported has its jar in place.
pub open spec fn all_in_place(run: RunView) -> bool {
    run.failures.len() == 0 && run.manual.len() == 0 && run.needs_key.len() == 0
}

impl InstallRun {
    pub fn start() -> (r: InstallRun)
        ensures
            r@ == empty_run(),
    {
        let r = InstallRun {
            installed: 0,
            up_to_date: 0,
            manual: Vec::new(),
            needs_key: Vec::new(),
            failures: Vec::new(),
        };
        assert(r@ =~= empty_run()) by {
            assert(r.manual.deep_view() =~= Seq::<ManualView>::empty());
            assert(r.needs_key.deep_view() =~= Seq::<Seq<char>>::empty());
            assert(r.failures.deep_view() =~= Seq::<ModFailureView>::empty());
        }
        r
    }

    /// Record how a mod fared.
    pub fn report(&mut self, m: &LockedMod, result: Result<Outcome, String>)
        requires
            old(self).installed < u32::MAX,
            old(self).up_to_date < u32::MAX,
        ensures
            final(self)@ == with_report(
                old(self)@,
                ReportView {
                    m: m@,
                    result: match result {
                        Ok(o) => Ok(o@),
                        Err(e) => Err(e@),
                    },
                },
            ),
    {
        let ghost prior = self@;
        match result {
            Ok(Outcome::Installed) => {
                self.installed = self.installed + 1;
            },
            Ok(Outcome::InstalledLocal) => {
                self.installed = self.installed + 1;
            },
            Ok(Outcome::UpToDate) => {
                self.up_to_date = self.up_to_date + 1;
            },
            Ok(Outcome::Manual(md)) => {
                self.manual.push(md);
                assert(self.manual.deep_view() =~= prior.manual.push(md@));
            },
            Ok(Outcome::NeedsKey(entry)) => {
                self.needs_key.push(entry);
                assert(self.needs_key.deep_view() =~= prior.needs_key.push(entry@));
            },
            Err(error) => {
                let failure = ModFailure {
                    name: m.name.clone(),
                    filename: m.filename.clone(),
                    error,
                };
                let ghost added = failure.deep_view();
                self.failures.push(failure);
                assert(self.failures.deep_view() =~= prior.failures.push(added));
            },
        }
    }

    /// Whether stale jars may be pruned. A version bump or dropped dependency leaves the previous jar
    /// behind; with only writes, that stale jar becomes a "duplicate mod" crash at launch. But only
    /// in the managed instance dir, never a user's `--into` target, and only on a run where every
    /// wanted mod resolved to a jar that is now present. A mod that failed, needs a key, or must be
    /// fetched by hand did NOT get its new jar written, and its old jar (under the previous
    /// filename) is no longer in the expected set, so pruning now would strand it with no jar at all
    /// (worse than stale-but-working). A re-run once it resolves clears cleanly.
    pub fn may_prune(&self, in_place: bool) -> (r: bool)
        ensures
            r == (in_place && all_in_place(self@)),
    {
        in_place && self.failures.len() == 0 && self.manual.len() == 0 && self.needs_key.len() == 0
    }

    /// The result of the whole install: hard failures are the only error, with their number; files to
    /// fetch by hand and a missing key are expected, recoverable states.
    pub fn outcome(&self) -> (r: Result<(), usize>)
        ensures
            r == (if self@.failures.len() == 0 {
                Ok::<(), usize>(())
            } else {
                Err(self@.failures.len() as usize)
            }),
    {
        if self.failures.len() == 0 {
            Ok(())
        } else {
            Err(self.failures.len())
        }
    }
}

// ---- pruning ----------------------------------------------------------------------------------

/// The extension of a file name: what follows its last dot, unless that dot starts the name.
pub open spec fn extension(name: Seq<char>) -> Option<Seq<char>> {
    if name == ".."@ || last_of(name, '.') <= 0 {
        None
    } else {
        Some(name.skip(last_of(name, '.') + 1))
    }
}

/// A file name that ends in `.jar`, in any case.
pub open spec fn jar_name(name: Seq<char>) -> bool {
    match extension(name) {
        Some(e) => lower(e) == "jar"@,
        None => false,
    }
}

/// Whether a file name has the extension `jar`, in any case.
pub fn has_jar_extension(name: &str) -> (r: bool)
    ensures
        r == jar_name(name@),
{
    if same(name, "..") {
        return false;
    }
    let x = chars_of(name);
    match find_last_char(&x, '.') {
        None => false,
        Some(i) => {
            if i == 0 {
                return false;
            }
            let e = string_of(&x, i + 1, x.len());
            assert(e@ =~= name@.skip(i + 1));
            same(to_lower(e.as_str()).as_str(), "jar")
        },
    }
}

/// The file names of the mods of the installed side.
pub open spec fn expected_of(mods: Seq<LockedModView>, server: bool) -> Seq<Seq<char>>
    decreases mods.len(),
{
    if mods.len() == 0 {
        Seq::empty()
    } else if wanted_on(mods.last().side, server) {
        expected_of(mods.drop_last(), server).push(mods.last().filename)
    } else {
        expected_of(mods.drop_last(), server)
    }
}

/// The file names of the mods of the installed side.
pub fn expected_files(mods: &Vec<LockedMod>, server: bool) -> (r: Vec<String>)
    ensures
        r.deep_view() == expected_of(mods.deep_view(), server),
{
    let ghost all = mods.deep_view();
    let mut out: Vec<String> = Vec::new();
    let mut i: usize = 0;
    assert(out.deep_view() =~= expected_of(all.take(0), server));
    while i < mods.len()
        invariant
            all == mods.deep_view(),
            i <= mods@.len(),
            out.deep_view() == expected_of(all.take(i as int), server),
        decreases mods.len() - i,
    {
        proof {
            assert(all[i as int] == mods@[i as int].deep_view());
            assert(all.take(i + 1).drop_last() =~= all.take(i as int));
        }
        if side_wanted(mods[i].side, server) {
            let ghost prior = out.deep_view();
            out.push(mods[i].filename.clone());
            assert(out.deep_view() =~= prior.push(all[i as int].filename));
        }
        i = i + 1;
    }
    assert(all.take(i as int) =~= all);
    out
}

/// The positions of the mods of the installed side, in order.
pub open spec fn wanted_positions(mods: Seq<LockedModView>, server: bool) -> Seq<int>
    decreases mods.len(),
{
    if mods.len() == 0 {
        Seq::empty()
    } else if wanted_on(mods.last().side, server) {
        wanted_positions(mods.drop_last(), server).push(mods.len() - 1)
    } else {
        wanted_positions(mods.drop_last(), server)
    }
}

/// What an install has to do.
#[derive(Debug)]
pub struct InstallPlan {
    /// Bring up the loader's server first.
    pub provision: bool,
    /// The positions of the mods to install, in the order of the lock.
    pub wanted: Vec<usize>,
    /// The files that the `mods/` folder is expected to hold in the end.
    pub expected: Vec<String>,
}

/// What has to be done to download the resolved mods of a side into an instance's `mods/` folder:
/// on a server install, provision the loader first (unless told to skip), then install each mod of
/// the side with `install_one`, each file verified against its locked hash.
pub fn install_pack(mods: &Vec<LockedMod>, opts: &InstallOpts) -> (r: InstallPlan)
    ensures
        r.provision == (opts.server && !opts.skip_loader),
        r.wanted@.map_values(|i: usize| i as int) == wanted_positions(
            mods.deep_view(),
            opts.server,
        ),
        r.expected.deep_view() == expected_of(mods.deep_view(), opts.server),
{
    let ghost all = mods.deep_view();
    let mut wanted: Vec<usize> = Vec::new();
    let mut i: usize = 0;
    assert(wanted@.map_values(|k: usize| k as int) =~= wanted_positions(all.take(0), opts.server));
    while i < mods.len()
        invariant
            all == mods.deep_view(),
            i <= mods@.len(),
            wanted@.map_values(|k: usize| k as int) == wanted_positions(
                all.take(i as int),
                opts.server,
            ),
        decreases mods.len() - i,
    {
        proof {
            assert(all[i as int] == mods@[i as int].deep_view());
            assert(all.take(i + 1).drop_last() =~= all.take(i as int));
            assert(all.take(i + 1).last() == all[i as int]);
        }
        if side_wanted(mods[i].side, opts.server) {
            let ghost prior = wanted@.map_values(|k: usize| k as int);
            wanted.push(i);
            assert(wanted@.map_values(|k: usize| k as int) =~= prior.push(i as int));
        }
        i = i + 1;
    }
    assert(all.take(i as int) =~= all);
    InstallPlan {
        provision: opts.provisions_loader(),
        wanted,
        expected: expected_files(mods, opts.server),
    }
}

/// A file that pruning removes: a jar that is not expected.
pub open spec fn stale(name: Seq<char>, expected: Seq<Seq<char>>) -> bool {
    jar_name(name) && !expected.contains(name)
}

/// The files of a `mods/` folder that pruning removes: jars that aren't expected, so a version bump
/// leaves the loader one jar per mod, not the old and new side by side.
pub fn prune_mods(names: &Vec<String>, expected: &Vec<String>) -> (r: Vec<String>)
    ensures
        r.deep_view() == names.deep_view().filter(
            |n: Seq<char>| stale(n, expected.deep_view()),
        ),
{
    let ghost all = names.deep_view();
    let ghost kept = expected.deep_view();
    let ghost p = |n: Seq<char>| stale(n, kept);
    let mut out: Vec<String> = Vec::new();
    let mut i: usize = 0;
    proof {
        reveal(Seq::filter);
        assert(out.deep_view() =~= all.take(0).filter(p));
    }
    while i < names.len()
        invariant
            all == names.deep_view(),
            kept == expected.deep_view(),
            p == (|n: Seq<char>| stale(n, kept)),
            i <= names@.len(),
            out.deep_view() == all.take(i as int).filter(p),
        decreases names.len() - i,
    {
        proof {
            reveal(Seq::filter);
            assert(all[i as int] == names@[i as int]@);
            assert(all.take(i + 1).drop_last() =~= all.take(i as int));
        }
        if has_jar_extension(names[i].as_str()) && !contains_text(expected, names[i].as_str()) {
            let ghost prior = out.deep_view();
            out.push(names[i].clone());
            assert(out.deep_view() =~= prior.push(all[i as int]));
        }
        i = i + 1;
    }
    assert(all.take(i as int) =~= all);
    out
}

/// Whether an overlay is copied: only into a separate instance (when the target is the pack root,
/// overlays already live in place), and only on its side.
pub fn copies_overlay(overlay: &OverlayFile, in_place: bool, server: bool) -> (r: bool)
    ensures
        r == (!in_place && wanted_on(overlay.side, server)),
{
    !in_place && side_wanted(overlay.side, server)
}

// ---- laws -------------------------------------------------------------------------------------

/// A file, downloaded or local, is only ever written with bytes that have the locked hash, and every
/// wait for a write is for such bytes. Bytes with another hash, or of a format that cannot be
/// computed, end the installation of the mod with a failure.
pub proof fn only_verified_bytes_are_written(
    m: LockedModView,
    stage: StageView,
    key: KeyState,
    event: EventView,
)
    ensures
        install_step(m, stage, key, event).action matches ActionView::Write(bytes)
            ==> has_locked_hash(m, bytes),
        install_step(m, stage, key, event).stage == StageView::WantWrite || install_step(
            m,
            stage,
            key,
            event,
        ).stage == StageView::WantLocalWrite ==> install_step(m, stage, key, event).action is Write,
        stage == StageView::WantLocal && (event matches EventView::Local(Some(bytes))
            && !has_locked_hash(m, bytes)) ==> install_step(m, stage, key, event).action is Fail,
        stage == StageView::WantBody && (event matches EventView::Body(Some(bytes))
            && !has_locked_hash(m, bytes)) ==> install_step(m, stage, key, event).action is Fail,
{
}

/// A mod counts as up to date only where the file that is there has the locked hash.
pub proof fn up_to_date_means_verified(
    m: LockedModView,
    stage: StageView,
    key: KeyState,
    event: EventView,
)
    ensures
        install_step(m, stage, key, event).action == ActionView::Finish(OutcomeView::UpToDate)
            ==> (event matches EventView::Existing(Some(bytes)) && has_locked_hash(m, bytes)),
{
}

/// The steps of installing a mod from the beginning, event by event.
pub open spec fn steps_of(m: LockedModView, key: KeyState, events: Seq<EventView>) -> Seq<StepView>
    decreases events.len(),
{
    if events.len() == 0 {
        Seq::empty()
    } else {
        let earlier = steps_of(m, key, events.drop_last());
        let (stage, key_now) = if earlier.len() == 0 {
            (StageView::Begin, key)
        } else {
            (earlier.last().stage, earlier.last().key)
        };
        earlier.push(install_step(m, stage, key_now, events.last()))
    }
}

/// Whatever happens on the way, a mod is reported as installed, from its provider or from the pack's
/// `local/` folder, only after bytes with the locked hash were given to be written, in the step just
/// before.
pub proof fn installed_means_verified(m: LockedModView, key: KeyState, events: Seq<EventView>)
    requires
        events.len() > 0,
        steps_of(m, key, events).last().action == ActionView::Finish(OutcomeView::Installed)
            || steps_of(m, key, events).last().action == ActionView::Finish(
            OutcomeView::InstalledLocal,
        ),
    ensures
        events.len() > 1,
        steps_of(m, key, events.drop_last()).last().action matches ActionView::Write(bytes)
            && has_locked_hash(m, bytes),
{
    let head = events.drop_last();
    steps_match_events(m, key, head);
    let earlier = steps_of(m, key, head);
    if head.len() > 0 {
        let before = head.drop_last();
        let prior = steps_of(m, key, before);
        let (stage, key_now) = if prior.len() == 0 {
            (StageView::Begin, key)
        } else {
            (prior.last().stage, prior.last().key)
        };
        only_verified_bytes_are_written(m, stage, key_now, head.last());
    }
}

proof fn steps_match_events(m: LockedModView, key: KeyState, events: Seq<EventView>)
    ensures
        steps_of(m, key, events).len() == events.len(),
    decreases events.len(),
{
    if events.len() > 0 {
        steps_match_events(m, key, events.drop_last());
    }
}

/// CurseForge is not asked for a file without a key: without one the mod is set aside.
pub proof fn no_key_means_no_lookup(m: LockedModView, stage: StageView, key: KeyState, event: EventView)
    ensures
        install_step(m, stage, key, event).action is AskFile ==> install_step(
            m,
            stage,
            key,
            event,
        ).key == KeyState::Present,
        stage == StageView::Begin && event is Started && key == KeyState::Absent && m.provider
            == Provider::Curseforge && m.download.url is None ==> install_step(
            m,
            stage,
            key,
            event,
        ).action == ActionView::Finish(OutcomeView::NeedsKey(label_of(m))),
{
}

/// A download is never allowed to run past the locked size and its margin.
pub proof fn downloads_are_capped(m: LockedModView, stage: StageView, key: KeyState, event: EventView)
    ensures
        install_step(m, stage, key, event).action matches ActionView::Fetch(url, cap) ==> cap
            == cap_of(m) && (m.download.size matches Some(size) ==> cap <= size + SIZE_MARGIN),
{
}

/// A mod with its jar in place.
pub open spec fn in_place(report: ReportView) -> bool {
    report.result == Ok::<OutcomeView, Seq<char>>(OutcomeView::Installed) || report.result == Ok::<
        OutcomeView,
        Seq<char>,
    >(OutcomeView::InstalledLocal) || report.result == Ok::<OutcomeView, Seq<char>>(
        OutcomeView::UpToDate,
    )
}

/// Jars are pruned only after a run in which every mod that was reported has its jar in place, and
/// every report is counted exactly once.
pub proof fn pruning_needs_every_jar(reports: Seq<ReportView>)
    ensures
        all_in_place(run_of(reports)) <==> forall|i: int|
            0 <= i < reports.len() ==> in_place(#[trigger] reports[i]),
        run_of(reports).installed + run_of(reports).up_to_date + run_of(reports).manual.len()
            + run_of(reports).needs_key.len() + run_of(reports).failures.len() == reports.len(),
    decreases reports.len(),
{
    if reports.len() > 0 {
        let head = reports.drop_last();
        pruning_needs_every_jar(head);
        assert forall|i: int| 0 <= i < head.len() implies head[i] == reports[i] by {}
        if all_in_place(run_of(reports)) {
            assert(all_in_place(run_of(head)));
            assert forall|i: int| 0 <= i < reports.len() implies in_place(#[trigger] reports[i]) by {
                if i < head.len() {
                    assert(in_place(head[i]));
                }
            }
        }
        if forall|i: int| 0 <= i < reports.len() ==> in_place(#[trigger] reports[i]) {
            assert forall|i: int| 0 <= i < head.len() implies in_place(#[trigger] head[i]) by {
                assert(in_place(reports[i]));
            }
            assert(in_place(reports[reports.len() - 1]));
        }
    }
}

/// Pruning removes nothing that the pack expects, and nothing that is no jar.
pub proof fn pruning_spares_what_is_expected(name: Seq<char>, expected: Seq<Seq<char>>)
    ensures
        expected.contains(name) ==> !stale(name, expected),
        !jar_name(name) ==> !stale(name, expected),
{
}

/// A mod is installed exactly when it belongs on the installed side.
pub proof fn exactly_the_wanted_mods_are_installed(mods: Seq<LockedModView>, server: bool, i: int)
    ensures
        wanted_positions(mods, server).contains(i) <==> 0 <= i < mods.len() && wanted_on(
            mods[i].side,
            server,
        ),
    decreases mods.len(),
{
    if mods.len() > 0 {
        let head = mods.drop_last();
        let earlier = wanted_positions(head, server);
        let all = wanted_positions(mods, server);
        exactly_the_wanted_mods_are_installed(head, server, i);
        if 0 <= i < head.len() {
            assert(head[i] == mods[i]);
        }
        if earlier.contains(i) {
            let k = choose|k: int| 0 <= k < earlier.len() && earlier[k] == i;
            assert(all[k] == i);
        }
        if wanted_on(mods.last().side, server) {
            assert(all[all.len() - 1] == mods.len() - 1);
            if all.contains(i) && i != mods.len() - 1 {
                let k = choose|k: int| 0 <= k < all.len() && all[k] == i;
                assert(earlier[k] == i);
            }
        }
    }
}

/// The jar of every mod of the installed side is expected, so it survives pruning.
pub proof fn wanted_jars_are_expected(mods: Seq<LockedModView>, server: bool, i: int)
    requires
        0 <= i < mods.len(),
        wanted_on(mods[i].side, server),
    ensures
        expected_of(mods, server).contains(mods[i].filename),
        !stale(mods[i].filename, expected_of(mods, server)),
    decreases mods.len(),
{
    let head = mods.drop_last();
    let all = expected_of(mods, server);
    if i < head.len() {
        assert(head[i] == mods[i]);
        wanted_jars_are_expected(head, server, i);
        let earlier = expected_of(head, server);
        let k = choose|k: int| 0 <= k < earlier.len() && earlier[k] == mods[i].filename;
        assert(all[k] == mods[i].filename);
    } else {
        assert(all[all.len() - 1] == mods[i].filename);
    }
}

// ---- whole installations ----------------------------------------------------------------------

/// The bytes have the hash that the lock gives the mod, in the format that it gives.
pub open spec fn is_the_locked_file(m: LockedModView, bytes: Seq<u8>) -> bool {
    let digest = m.download.hash;
    ||| m.download.hash_format == "sha1"@ && digest == hex_of(sha1_digest(bytes))
    ||| m.download.hash_format == "sha256"@ && digest == hex_of(sha256_digest(bytes))
    ||| m.download.hash_format == "sha512"@ && digest == hex_of(sha512_digest(bytes))
    ||| m.download.hash_format == "md5"@ && digest == hex_of(md5_digest(bytes))
}

/// What is compared with the lock is the digest of the bytes in the lock's format.
pub proof fn locked_hashes_are_digests(m: LockedModView, bytes: Seq<u8>)
    ensures
        has_locked_hash(m, bytes) <==> is_the_locked_file(m, bytes),
        hash_in(bytes, m.download.hash_format) is None <==> m.download.hash_format != "sha1"@
            && m.download.hash_format != "sha256"@ && m.download.hash_format != "sha512"@
            && m.download.hash_format != "md5"@,
{
    formats_differ();
}

proof fn formats_differ()
    ensures
        "sha1"@ != "sha256"@,
        "sha1"@ != "sha512"@,
        "sha1"@ != "md5"@,
        "sha256"@ != "sha512"@,
        "sha256"@ != "md5"@,
        "sha512"@ != "md5"@,
{
    reveal_strlit("sha1");
    reveal_strlit("sha256");
    reveal_strlit("sha512");
    reveal_strlit("md5");
    assert("sha256"@[3] == '2' && "sha512"@[3] == '5');
    assert("sha1"@.len() == 4 && "sha256"@.len() == 6 && "sha512"@.len() == 6 && "md5"@.len() == 3);
}

/// One event is one more step.
proof fn one_more_step(m: LockedModView, key: KeyState, events: Seq<EventView>, event: EventView)
    ensures
        ({
            let earlier = steps_of(m, key, events);
            let (stage, key_now) = if earlier.len() == 0 {
                (StageView::Begin, key)
            } else {
                (earlier.last().stage, earlier.last().key)
            };
            steps_of(m, key, events.push(event)) == earlier.push(
                install_step(m, stage, key_now, event),
            )
        }),
{
    assert(events.push(event).drop_last() =~= events);
}

proof fn as_many_steps_as_events(m: LockedModView, key: KeyState, events: Seq<EventView>)
    ensures
        steps_of(m, key, events).len() == events.len(),
    decreases events.len(),
{
    if events.len() > 0 {
        as_many_steps_as_events(m, key, events.drop_last());
    }
}

/// Whatever happens, a file is only ever fetched from the URL in the lock, and where the lock has none,
/// from the download URL in CurseForge's answer just before, for a mod of CurseForge.
pub proof fn files_are_fetched_from_their_own_url(
    m: LockedModView,
    key: KeyState,
    events: Seq<EventView>,
)
    requires
        events.len() > 0,
    ensures
        steps_of(m, key, events).last().action matches ActionView::Fetch(url, cap) ==> {
            &&& m.download.url matches Some(locked) ==> url == locked
            &&& m.download.url is None ==> m.provider == Provider::Curseforge && events.len() >= 3
                && (events[events.len() - 2] matches EventView::File(Some(file)) && file.url == Some(
                url,
            ))
        },
{
    let earlier = events.drop_last();
    as_many_steps_as_events(m, key, earlier);
    if steps_of(m, key, events).last().action is Fetch {
        assert(earlier.len() > 0);
        where_the_url_comes_from(m, key, earlier);
    }
}

proof fn where_the_url_comes_from(m: LockedModView, key: KeyState, events: Seq<EventView>)
    requires
        events.len() > 0,
    ensures
        steps_of(m, key, events).last().stage matches StageView::WantExisting(url) ==> {
            &&& m.download.url matches Some(locked) ==> url == locked
            &&& m.download.url is None ==> m.provider == Provider::Curseforge && events.len() >= 2
                && (events.last() matches EventView::File(Some(file)) && file.url == Some(url))
        },
        steps_of(m, key, events).last().stage == StageView::WantFile || steps_of(
            m,
            key,
            events,
        ).last().stage == StageView::WantKey ==> m.download.url is None && m.provider
            == Provider::Curseforge,
    decreases events.len(),
{
    let earlier = events.drop_last();
    as_many_steps_as_events(m, key, earlier);
    if earlier.len() > 0 {
        where_the_url_comes_from(m, key, earlier);
        never_back_to_the_beginning(m, key, earlier);
    }
}

proof fn never_back_to_the_beginning(m: LockedModView, key: KeyState, events: Seq<EventView>)
    requires
        events.len() > 0,
    ensures
        steps_of(m, key, events).last().stage != StageView::Begin,
{
    as_many_steps_as_events(m, key, events.drop_last());
}

/// CurseForge is asked for the file that the lock names, and only for a mod that has no URL of its own.
pub proof fn lookups_are_for_the_locked_file(
    m: LockedModView,
    key: KeyState,
    events: Seq<EventView>,
)
    requires
        events.len() > 0,
    ensures
        steps_of(m, key, events).last().action matches ActionView::AskFile(id) ==> {
            &&& m.download.url is None && m.provider == Provider::Curseforge
            &&& m.file_id matches Some(locked) ==> id == locked
            &&& m.file_id is None ==> id.len() == 0
        },
        steps_of(m, key, events).last().action is AskKey ==> m.download.url is None && m.provider
            == Provider::Curseforge && key == KeyState::Untried,
        steps_of(m, key, events).last().action is ReadLocal ==> m.download.url is None && m.provider
            == Provider::Local,
{
    let earlier = events.drop_last();
    as_many_steps_as_events(m, key, earlier);
    if earlier.len() > 0 {
        where_the_url_comes_from(m, key, earlier);
        never_back_to_the_beginning(m, key, earlier);
    }
}

/// A download may be as large as the lock says and a little more, and where it says nothing, as large as
/// any download may be.
pub proof fn downloads_may_be_as_large_as_the_lock_says(
    m: LockedModView,
    stage: StageView,
    key: KeyState,
    event: EventView,
)
    ensures
        install_step(m, stage, key, event).action matches ActionView::Fetch(url, cap) ==> {
            &&& m.download.size is None ==> cap == 0x4000_0000
            &&& m.download.size matches Some(size) ==> cap >= size && (size + 0x1_0000 <= u64::MAX
                ==> cap == size + 0x1_0000)
        },
{
}

/// A mod with a URL whose file is not there, or is another, is fetched from that URL, written if it is
/// the locked file, and then installed; the bytes that are written are those that came.
pub proof fn a_missing_file_is_fetched_and_installed(
    m: LockedModView,
    key: KeyState,
    url: Seq<char>,
    existing: Option<Seq<u8>>,
    body: Seq<u8>,
)
    requires
        m.download.url == Some(url),
        existing matches Some(old) ==> !is_the_locked_file(m, old),
        is_the_locked_file(m, body),
    ensures
        ({
            let steps = steps_of(
                m,
                key,
                seq![
                    EventView::Started,
                    EventView::Existing(existing),
                    EventView::Body(Some(body)),
                    EventView::Stored(true),
                ],
            );
            &&& steps.len() == 4
            &&& steps[0].action == ActionView::ReadExisting
            &&& steps[1].action matches ActionView::Fetch(from, _) && from == url
            &&& steps[2].action == ActionView::Write(body)
            &&& steps[3].action == ActionView::Finish(OutcomeView::Installed)
        }),
{
    let e1 = seq![EventView::Started];
    let e2 = e1.push(EventView::Existing(existing));
    let e3 = e2.push(EventView::Body(Some(body)));
    let e4 = e3.push(EventView::Stored(true));
    assert(e1 =~= Seq::empty().push(EventView::Started));
    assert(e4 =~= seq![
        EventView::Started,
        EventView::Existing(existing),
        EventView::Body(Some(body)),
        EventView::Stored(true),
    ]);
    locked_hashes_are_digests(m, body);
    if existing is Some {
        locked_hashes_are_digests(m, existing->0);
    }
    one_more_step(m, key, Seq::empty(), EventView::Started);
    one_more_step(m, key, e1, EventView::Existing(existing));
    one_more_step(m, key, e2, EventView::Body(Some(body)));
    one_more_step(m, key, e3, EventView::Stored(true));
}

/// A file that is there and is the locked one stays as it is, and nothing is fetched.
pub proof fn a_locked_file_stays(m: LockedModView, key: KeyState, url: Seq<char>, existing: Seq<u8>)
    requires
        m.download.url == Some(url),
        is_the_locked_file(m, existing),
    ensures
        ({
            let steps = steps_of(
                m,
                key,
                seq![EventView::Started, EventView::Existing(Some(existing))],
            );
            &&& steps.len() == 2
            &&& steps[0].action == ActionView::ReadExisting
            &&& steps[1].action == ActionView::Finish(OutcomeView::UpToDate)
        }),
{
    let e1 = seq![EventView::Started];
    assert(e1 =~= Seq::empty().push(EventView::Started));
    assert(e1.push(EventView::Existing(Some(existing))) =~= seq![
        EventView::Started,
        EventView::Existing(Some(existing)),
    ]);
    locked_hashes_are_digests(m, existing);
    one_more_step(m, key, Seq::empty(), EventView::Started);
    one_more_step(m, key, e1, EventView::Existing(Some(existing)));
}

/// A mod of CurseForge goes through its lookup: with a key, the file that CurseForge answers with is
/// fetched from its download URL and installed like any other.
pub proof fn a_curseforge_file_is_looked_up_and_installed(
    m: LockedModView,
    file: CfDownloadView,
    url: Seq<char>,
    body: Seq<u8>,
)
    requires
        m.download.url is None,
        m.provider == Provider::Curseforge,
        file.url == Some(url),
        is_the_locked_file(m, body),
    ensures
        ({
            let steps = steps_of(
                m,
                KeyState::Untried,
                seq![
                    EventView::Started,
                    EventView::Key(true),
                    EventView::File(Some(file)),
                    EventView::Existing(None),
                    EventView::Body(Some(body)),
                    EventView::Stored(true),
                ],
            );
            &&& steps.len() == 6
            &&& steps[0].action == ActionView::AskKey
            &&& steps[1].action is AskFile
            &&& steps[2].action == ActionView::ReadExisting
            &&& steps[3].action matches ActionView::Fetch(from, _) && from == url
            &&& steps[4].action == ActionView::Write(body)
            &&& steps[5].action == ActionView::Finish(OutcomeView::Installed)
            &&& steps[5].key == KeyState::Present
        }),
{
    let e1 = seq![EventView::Started];
    let e2 = e1.push(EventView::Key(true));
    let e3 = e2.push(EventView::File(Some(file)));
    let e4 = e3.push(EventView::Existing(None));
    let e5 = e4.push(EventView::Body(Some(body)));
    let e6 = e5.push(EventView::Stored(true));
    assert(e1 =~= Seq::empty().push(EventView::Started));
    assert(e6 =~= seq![
        EventView::Started,
        EventView::Key(true),
        EventView::File(Some(file)),
        EventView::Existing(None),
        EventView::Body(Some(body)),
        EventView::Stored(true),
    ]);
    locked_hashes_are_digests(m, body);
    let key = KeyState::Untried;
    one_more_step(m, key, Seq::empty(), EventView::Started);
    one_more_step(m, key, e1, EventView::Key(true));
    one_more_step(m, key, e2, EventView::File(Some(file)));
    one_more_step(m, key, e3, EventView::Existing(None));
    one_more_step(m, key, e4, EventView::Body(Some(body)));
    one_more_step(m, key, e5, EventView::Stored(true));
}

/// A file that CurseForge does not hand out is left to be fetched by hand, from the page of that very
/// file where the project has a page; a mod without a URL that no provider can look up is left as well,
/// without a page; and without a key a mod of CurseForge waits for one.
pub proof fn what_cannot_be_fetched_is_reported(
    m: LockedModView,
    key: KeyState,
    file: CfDownloadView,
)
    requires
        m.download.url is None,
    ensures
        m.provider == Provider::Curseforge && file.url is None ==> (install_step(
            m,
            StageView::WantFile,
            key,
            EventView::File(Some(file)),
        ).action matches ActionView::Finish(OutcomeView::Manual(manual)) && {
            &&& manual.name == m.name && manual.filename == m.filename
            &&& manual.page is Some <==> file.website_url is Some
        }),
        m.provider != Provider::Curseforge && m.provider != Provider::Local ==> install_step(
            m,
            StageView::Begin,
            key,
            EventView::Started,
        ).action == ActionView::Finish(
            OutcomeView::Manual(ManualView { name: m.name, filename: m.filename, page: None }),
        ),
        m.provider == Provider::Curseforge ==> {
            let step = install_step(m, StageView::WantKey, key, EventView::Key(false));
            step.key == KeyState::Absent && step.action == ActionView::Finish(
                OutcomeView::NeedsKey(m.name + " ("@ + m.filename + ")"@),
            )
        },
{
}

/// The page on which a file is fetched by hand is that of the file under the page of its project, with or
/// without a slash at the end of the latter.
pub proof fn manual_pages_are_those_of_the_file(
    m: LockedModView,
    key: KeyState,
    file: CfDownloadView,
    site: Seq<char>,
    id: Seq<char>,
    slash: bool,
)
    requires
        file.url is None,
        !"/"@.is_suffix_of(site),
        file.website_url == Some(
            site + (if slash {
                "/"@
            } else {
                Seq::empty()
            }),
        ),
        m.file_id == Some(id),
    ensures
        install_step(m, StageView::WantFile, key, EventView::File(Some(file))).action
            == ActionView::Finish(
            OutcomeView::Manual(
                ManualView {
                    name: m.name,
                    filename: m.filename,
                    page: Some(site + "/files/"@ + id),
                },
            ),
        ),
{
    reveal_strlit("/");
    trimming_an_ending_takes_all_of_it(site, "/"@);
    if !slash {
        assert(site + Seq::<char>::empty() =~= site);
    }
}

/// A local jar is read, written if it is the locked file, and then installed.
pub proof fn a_local_jar_is_installed(m: LockedModView, key: KeyState, jar: Seq<u8>)
    requires
        m.download.url is None,
        m.provider == Provider::Local,
        is_the_locked_file(m, jar),
    ensures
        ({
            let steps = steps_of(
                m,
                key,
                seq![EventView::Started, EventView::Local(Some(jar)), EventView::Stored(true)],
            );
            &&& steps.len() == 3
            &&& steps[0].action == ActionView::ReadLocal
            &&& steps[1].action == ActionView::Write(jar)
            &&& steps[2].action == ActionView::Finish(OutcomeView::InstalledLocal)
        }),
{
    let e1 = seq![EventView::Started];
    let e2 = e1.push(EventView::Local(Some(jar)));
    let e3 = e2.push(EventView::Stored(true));
    assert(e1 =~= Seq::empty().push(EventView::Started));
    assert(e3 =~= seq![
        EventView::Started,
        EventView::Local(Some(jar)),
        EventView::Stored(true),
    ]);
    locked_hashes_are_digests(m, jar);
    one_more_step(m, key, Seq::empty(), EventView::Started);
    one_more_step(m, key, e1, EventView::Local(Some(jar)));
    one_more_step(m, key, e2, EventView::Stored(true));
}

/// Bytes that are not the locked file fail the mod, and say what they were where they could be hashed; so
/// do a failed download, a failed lookup and a failed write.
pub proof fn failures_say_what_went_wrong(
    m: LockedModView,
    stage: StageView,
    key: KeyState,
    bytes: Seq<u8>,
    done: bool,
)
    ensures
        install_step(m, StageView::WantBody, key, EventView::Body(None)).action
            == ActionView::Fail(InstallFaultView::DownloadFailed),
        install_step(m, StageView::WantFile, key, EventView::File(None)).action
            == ActionView::Fail(InstallFaultView::LookupFailed),
        install_step(m, StageView::WantLocal, key, EventView::Local(None)).action
            == ActionView::Fail(InstallFaultView::CopyFailed),
        install_step(m, StageView::WantWrite, key, EventView::Stored(false)).action
            == ActionView::Fail(InstallFaultView::WriteFailed),
        install_step(m, StageView::WantLocalWrite, key, EventView::Stored(false)).action
            == ActionView::Fail(InstallFaultView::CopyFailed),
        ({
            let step = install_step(m, StageView::WantBody, key, EventView::Body(Some(bytes)));
            match hash_in(bytes, m.download.hash_format) {
                None => step.action == ActionView::Fail(InstallFaultView::UnsupportedFormat),
                Some(got) => got != m.download.hash ==> step.action == ActionView::Fail(
                    InstallFaultView::HashMismatch(got),
                ),
            }
        }),
        stage != StageView::WantKey ==> install_step(
            m,
            stage,
            key,
            EventView::Stored(done),
        ).key == key,
{
}

/// A side is installed where it belongs: what is for both is installed on either, what is for one side on
/// that one alone, and what is for neither nowhere.
pub proof fn sides_go_where_they_belong(side: Side)
    ensures
        wanted_on(side, false) <==> side == Side::Client || side == Side::Both,
        wanted_on(side, true) <==> side == Side::Server || side == Side::Both,
{
}

/// The mods of a side are installed in the order of the lock, each once, and the files that are kept are
/// theirs and no others.
pub proof fn the_plan_follows_the_lock(mods: Seq<LockedModView>, server: bool)
    ensures
        forall|a: int, b: int|
            0 <= a < b < wanted_positions(mods, server).len() ==> #[trigger] wanted_positions(
                mods,
                server,
            )[a] < #[trigger] wanted_positions(mods, server)[b],
        wanted_positions(mods, server).len() == expected_of(mods, server).len(),
        forall|k: int|
            0 <= k < expected_of(mods, server).len() ==> {
                let i = #[trigger] wanted_positions(mods, server)[k];
                0 <= i < mods.len() && expected_of(mods, server)[k] == mods[i].filename && (
                mods[i].side == Side::Both || mods[i].side == (if server {
                    Side::Server
                } else {
                    Side::Client
                }))
            },
    decreases mods.len(),
{
    if mods.len() > 0 {
        let head = mods.drop_last();
        the_plan_follows_the_lock(head, server);
        let earlier = wanted_positions(head, server);
        let all = wanted_positions(mods, server);
        assert forall|k: int| 0 <= k < expected_of(mods, server).len() implies {
            let i = #[trigger] all[k];
            0 <= i < mods.len() && expected_of(mods, server)[k] == mods[i].filename && (mods[i].side
                == Side::Both || mods[i].side == (if server {
                Side::Server
            } else {
                Side::Client
            }))
        } by {
            if k < earlier.len() {
                assert(all[k] == earlier[k]);
                assert(head[earlier[k]] == mods[earlier[k]]);
            }
        }
        assert forall|a: int, b: int| 0 <= a < b < all.len() implies #[trigger] all[a]
            < #[trigger] all[b] by {
            assert(all[a] == earlier[a]);
            if b < earlier.len() {
                assert(all[b] == earlier[b]);
            }
        }
    }
}

pub open spec fn was_installed(r: ReportView) -> bool {
    r.result matches Ok(o) && (o == OutcomeView::Installed || o == OutcomeView::InstalledLocal)
}

pub open spec fn was_up_to_date(r: ReportView) -> bool {
    r.result matches Ok(o) && o == OutcomeView::UpToDate
}

pub open spec fn is_manual(r: ReportView) -> bool {
    r.result matches Ok(o) && o is Manual
}

pub open spec fn waits_for_a_key(r: ReportView) -> bool {
    r.result matches Ok(o) && o is NeedsKey
}

pub open spec fn has_failed(r: ReportView) -> bool {
    r.result is Err
}

/// A run counts each mod once, by what came of it: those installed, those that were up to date, and, in
/// the order in which they came up, those to fetch by hand, those that wait for a key and those that
/// failed, each with its name and its reason.
pub proof fn a_run_counts_every_mod_by_its_outcome(reports: Seq<ReportView>, j: int)
    ensures
        ({
            let run = run_of(reports);
            let manual = reports.filter(|r: ReportView| is_manual(r));
            let waiting = reports.filter(|r: ReportView| waits_for_a_key(r));
            let failed = reports.filter(|r: ReportView| has_failed(r));
            &&& run.installed == reports.filter(|r: ReportView| was_installed(r)).len()
            &&& run.up_to_date == reports.filter(|r: ReportView| was_up_to_date(r)).len()
            &&& run.manual.len() == manual.len()
            &&& 0 <= j < manual.len() ==> manual[j].result == Ok::<OutcomeView, Seq<char>>(
                OutcomeView::Manual(run.manual[j]),
            )
            &&& run.needs_key.len() == waiting.len()
            &&& 0 <= j < waiting.len() ==> waiting[j].result == Ok::<OutcomeView, Seq<char>>(
                OutcomeView::NeedsKey(run.needs_key[j]),
            )
            &&& run.failures.len() == failed.len()
            &&& 0 <= j < failed.len() ==> {
                &&& run.failures[j].name == failed[j].m.name
                &&& run.failures[j].filename == failed[j].m.filename
                &&& failed[j].result == Err::<OutcomeView, Seq<char>>(run.failures[j].error)
            }
        }),
    decreases reports.len(),
{
    reveal(Seq::filter);
    if reports.len() > 0 {
        a_run_counts_every_mod_by_its_outcome(reports.drop_last(), j);
    }
}

/// A file is a jar by what stands behind its last dot, in any case; a name that starts with its only dot
/// has no extension.
pub proof fn jars_are_told_by_their_extension(stem: Seq<char>, ext: Seq<char>)
    requires
        !ext.contains('.'),
    ensures
        stem.len() > 0 && stem != "."@ ==> (jar_name(stem + "."@ + ext) <==> lower(ext) == "jar"@),
        !jar_name("."@ + ext),
        !jar_name(ext),
{
    reveal_strlit(".");
    reveal_strlit("..");
    reveal_strlit("jar");
    let name = stem + "."@ + ext;
    last_dot(stem + "."@, ext);
    last_dot("."@, ext);
    last_dot(Seq::empty(), ext);
    assert(Seq::<char>::empty() + ext =~= ext);
    assert((stem + "."@).last() == '.');
    assert("."@.last() == '.');
    assert(name.skip(stem.len() as int + 1) =~= ext);
    if name == ".."@ {
        assert(name.len() == 2);
        if ext.len() == 0 {
            assert(stem.len() == 1);
            assert(name[0] == stem[0]);
            assert(stem =~= "."@);
        } else {
            assert(stem.len() == 0);
        }
    }
}

proof fn last_dot(head: Seq<char>, tail: Seq<char>)
    requires
        !tail.contains('.'),
    ensures
        last_of(head + tail, '.') == last_of(head, '.'),
        head.len() > 0 && head.last() == '.' ==> last_of(head, '.') == head.len() - 1,
        last_of(Seq::<char>::empty(), '.') == -1,
    decreases tail.len(),
{
    let all = head + tail;
    if tail.len() > 0 {
        assert(tail.contains(tail[tail.len() - 1]));
        assert(all.last() == tail.last());
        assert(all.drop_last() =~= head + tail.drop_last());
        assert forall|i: int| 0 <= i < tail.len() - 1 implies tail.drop_last()[i] != '.' by {
            assert(tail.contains(tail[i]));
        }
        last_dot(head, tail.drop_last());
    } else {
        assert(all =~= head);
    }
}

/// What is pruned is a jar, and none of the expected files; every such jar is.
pub proof fn stale_jars_are_pruned(
    names: Seq<Seq<char>>,
    mods: Seq<LockedModView>,
    server: bool,
    name: Seq<char>,
)
    requires
        names.contains(name),
    ensures
        names.filter(|n: Seq<char>| stale(n, expected_of(mods, server))).contains(name) <==> (
        jar_name(name) && forall|i: int|
            0 <= i < mods.len() && (#[trigger] mods[i]).filename == name ==> mods[i].side
                != Side::Both && mods[i].side != (if server {
                Side::Server
            } else {
                Side::Client
            })),
{
    broadcast use vstd::seq_lib::group_filter_ensures;

    let expected = expected_of(mods, server);
    let gone = |n: Seq<char>| stale(n, expected);
    let side = if server {
        Side::Server
    } else {
        Side::Client
    };
    the_plan_follows_the_lock(mods, server);
    if expected.contains(name) {
        let k = choose|k: int| 0 <= k < expected.len() && expected[k] == name;
        let i = wanted_positions(mods, server)[k];
        assert(mods[i].filename == name);
    }
    if exists|i: int|
        0 <= i < mods.len() && (#[trigger] mods[i]).filename == name && (mods[i].side == Side::Both
            || mods[i].side == side) {
        let i = choose|i: int|
            0 <= i < mods.len() && (#[trigger] mods[i]).filename == name && (mods[i].side
                == Side::Both || mods[i].side == side);
        wanted_jars_are_expected(mods, server, i);
    }
    if names.filter(gone).contains(name) {
        let k = choose|k: int| 0 <= k < names.filter(gone).len() && names.filter(gone)[k] == name;
        assert(gone(names.filter(gone)[k]));
    }
    if gone(name) {
        let k = choose|k: int| 0 <= k < names.len() && names[k] == name;
        assert(names.filter(gone).contains(names[k]));
    }
}

/// An installation brings up the loader exactly on a server and unless that is skipped, and installs the
/// mods of its side.
pub proof fn a_plan_is_for_its_side(mods: &Vec<LockedMod>, opts: &InstallOpts, r: InstallPlan, k: int)
    requires
        call_ensures(install_pack, (mods, opts), r),
    ensures
        r.provision <==> opts.server && !opts.skip_loader,
        0 <= k < r.wanted@.len() ==> r.wanted@[k] < mods@.len() && {
            let side = mods@[r.wanted@[k] as int].side;
            side == Side::Both || (opts.server && side == Side::Server) || (!opts.server && side
                == Side::Client)
        },
        r.wanted@.len() == r.expected@.len(),
        0 <= k < r.expected@.len() ==> r.expected@[k]@ == mods@[r.wanted@[k] as int].filename@,
{
    let all = mods.deep_view();
    let positions = wanted_positions(all, opts.server);
    let wanted = r.wanted@.map_values(|i: usize| i as int);
    the_plan_follows_the_lock(all, opts.server);
    assert(wanted == positions);
    assert(r.expected.deep_view().len() == r.expected@.len());
    if 0 <= k < r.wanted@.len() {
        assert(wanted[k] == r.wanted@[k] as int);
        let i = positions[k];
        assert(all[i] == mods@[i].deep_view());
        assert(r.expected.deep_view()[k] == r.expected@[k]@);
    }
}

/// Jars are pruned only in the pack's own instance, and only where nothing failed, nothing is left to be
/// fetched by hand and nothing waits for a key; a run fails exactly where a mod did.
pub proof fn a_run_prunes_and_fails_for_a_reason(
    run: &InstallRun,
    in_place: bool,
    prunes: bool,
    outcome: Result<(), usize>,
)
    requires
        call_ensures(InstallRun::may_prune, (run, in_place), prunes),
        call_ensures(InstallRun::outcome, (run,), outcome),
    ensures
        prunes <==> in_place && run.failures@.len() == 0 && run.manual@.len() == 0
            && run.needs_key@.len() == 0,
        outcome is Ok <==> run.failures@.len() == 0,
        outcome matches Err(n) ==> n == run.failures@.len(),
{
    assert(run.failures.len() == run.failures@.len());
    assert(run@.failures.len() == run.failures@.len());
    assert(run@.manual.len() == run.manual@.len());
    assert(run@.needs_key.len() == run.needs_key@.len());
}

/// An overlay is copied into another instance alone, and only on its side.
pub proof fn overlays_are_copied_elsewhere_alone(
    overlay: &OverlayFile,
    in_place: bool,
    server: bool,
    r: bool,
)
    requires
        call_ensures(copies_overlay, (overlay, in_place, server), r),
    ensures
        r <==> !in_place && (overlay.side == Side::Both || (server && overlay.side == Side::Server)
            || (!server && overlay.side == Side::Client)),
{
}

} // verus!
