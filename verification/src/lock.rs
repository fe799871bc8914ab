//! The lockfile: the exact resolved graph.
use vstd::prelude::*;

use crate::manifest::{LoaderSpec, LoaderSpecView};
use crate::provider::{DownloadMode, Provider};
use crate::side::Side;
use crate::text::{
    chars_of, decimal, digit_char, find_char, first_of, has_char, is_letter, same, string_of,
    to_upper, upper,
};

verus! {

/// Bump when the lockfile's own shape changes, so `lode` can migrate old locks.
pub const LOCKFILE_VERSION: u32 = 1;

/// The name of the lockfile in a pack's root.
pub const LOCK_FILENAME: &'static str = "lode.lock";

/// The machine-generated lockfile (`lode.lock`): the exact resolved graph. Never hand-edited.
/// It carries enough to rebuild the packwiz `pack/` and let an installer fetch and verify every
/// file with no re-resolution.
#[derive(Debug)]
pub struct Lock {
    pub lockfile_version: u32,
    /// Integrity hash of the manifest that produced this lock. If the manifest changed,
    /// the lock is stale and must be re-resolved (the `Cargo.lock` vs `Cargo.toml` check).
    pub manifest_hash: String,
    pub loader: LoaderSpec,
    pub resolver: ResolverMeta,
    /// One entry per node: every declared mod plus every transitive dependency.
    pub mods: Vec<LockedMod>,
}

/// Provenance kept intentionally timestamp-free: a resolution that changes nothing must produce
/// a byte-identical lock (determinism), so no `resolvedAt`, only the tool version, which moves
/// solely on upgrade.
#[derive(Debug)]
pub struct ResolverMeta {
    pub lode_version: String,
}

#[derive(Debug)]
pub struct LockedMod {
    pub slug: String,
    pub name: String,
    pub provider: Provider,
    pub project_id: String,
    pub file_id: Option<String>,
    pub version: String,
    pub filename: String,
    pub download: Download,
    pub side: Side,
    pub optional: bool,
    pub dependencies: Vec<DepEdge>,
    /// Reverse edges: which declared mods (or `"manifest"` for a root) caused this node to be
    /// present. Drives `lode why` and safe pruning of orphaned transitive deps, the provenance
    /// packwiz's flat index throws away.
    pub requested_by: Vec<String>,
}

#[derive(Debug)]
pub struct Download {
    /// Empty for CurseForge (its terms forbid persisting the URL).
    pub url: Option<String>,
    pub mode: DownloadMode,
    /// Provider-native hash format: sha512 (Modrinth), sha1 (CurseForge), sha256 (overlays).
    /// Never normalized to one format: packwiz stores exactly the native one, and byte-for-byte
    /// `pack/` emission depends on it.
    pub hash_format: String,
    pub hash: String,
    pub size: Option<u64>,
}

#[derive(Debug)]
pub struct DepEdge {
    pub slug: String,
    pub kind: DepKind,
}

#[derive(Debug, Clone, Copy, PartialEq, Eq, Structural)]
pub enum DepKind {
    Required,
    Optional,
    Incompatible,
    Embedded,
}

// ---- views ------------------------------------------------------------------------------------

#[verifier::ext_equal]
pub struct LockView {
    pub lockfile_version: u32,
    pub manifest_hash: Seq<char>,
    pub loader: LoaderSpecView,
    pub lode_version: Seq<char>,
    pub mods: Seq<LockedModView>,
}

#[verifier::ext_equal]
pub struct LockedModView {
    pub slug: Seq<char>,
    pub name: Seq<char>,
    pub provider: Provider,
    pub project_id: Seq<char>,
    pub file_id: Option<Seq<char>>,
    pub version: Seq<char>,
    pub filename: Seq<char>,
    pub download: DownloadView,
    pub side: Side,
    pub optional: bool,
    pub dependencies: Seq<DepEdgeView>,
    pub requested_by: Seq<Seq<char>>,
}

#[verifier::ext_equal]
pub struct DownloadView {
    pub url: Option<Seq<char>>,
    pub mode: DownloadMode,
    pub hash_format: Seq<char>,
    pub hash: Seq<char>,
    pub size: Option<u64>,
}

#[verifier::ext_equal]
pub struct DepEdgeView {
    pub slug: Seq<char>,
    pub kind: DepKind,
}

impl View for Download {
    type V = DownloadView;

    open spec fn view(&self) -> DownloadView {
        DownloadView {
            url: self.url.deep_view(),
            mode: self.mode,
            hash_format: self.hash_format@,
            hash: self.hash@,
            size: self.size,
        }
    }
}

impl DeepView for DepEdge {
    type V = DepEdgeView;

    open spec fn deep_view(&self) -> DepEdgeView {
        DepEdgeView { slug: self.slug@, kind: self.kind }
    }
}

impl DeepView for LockedMod {
    type V = LockedModView;

    open spec fn deep_view(&self) -> LockedModView {
        LockedModView {
            slug: self.slug@,
            name: self.name@,
            provider: self.provider,
            project_id: self.project_id@,
            file_id: self.file_id.deep_view(),
            version: self.version@,
            filename: self.filename@,
            download: self.download@,
            side: self.side,
            optional: self.optional,
            dependencies: self.dependencies.deep_view(),
            requested_by: self.requested_by.deep_view(),
        }
    }
}

impl View for LockedMod {
    type V = LockedModView;

    open spec fn view(&self) -> LockedModView {
        self.deep_view()
    }
}

impl View for Lock {
    type V = LockView;

    open spec fn view(&self) -> LockView {
        LockView {
            lockfile_version: self.lockfile_version,
            manifest_hash: self.manifest_hash@,
            loader: self.loader@,
            lode_version: self.resolver.lode_version@,
            mods: self.mods.deep_view(),
        }
    }
}

impl Clone for Download {
    fn clone(&self) -> (r: Self)
        ensures
            r@ == self@,
    {
        Download {
            url: copy_option(&self.url),
            mode: self.mode,
            hash_format: self.hash_format.clone(),
            hash: self.hash.clone(),
            size: self.size,
        }
    }
}

impl Clone for LockedMod {
    fn clone(&self) -> (r: Self)
        ensures
            r@ == self@,
    {
        LockedMod {
            slug: self.slug.clone(),
            name: self.name.clone(),
            provider: self.provider,
            project_id: self.project_id.clone(),
            file_id: copy_option(&self.file_id),
            version: self.version.clone(),
            filename: self.filename.clone(),
            download: self.download.clone(),
            side: self.side,
            optional: self.optional,
            dependencies: copy_edges(&self.dependencies),
            requested_by: copy_strings(&self.requested_by),
        }
    }
}

/// A copy of an optional string.
pub fn copy_option(s: &Option<String>) -> (r: Option<String>)
    ensures
        r.deep_view() == s.deep_view(),
{
    match s {
        Some(x) => Some(x.clone()),
        None => None,
    }
}

/// A copy of a list of strings.
pub fn copy_strings(v: &Vec<String>) -> (r: Vec<String>)
    ensures
        r.deep_view() == v.deep_view(),
{
    let mut out: Vec<String> = Vec::new();
    let mut i: usize = 0;
    while i < v.len()
        invariant
            i <= v@.len(),
            out.deep_view() == v.deep_view().take(i as int),
        decreases v.len() - i,
    {
        let ghost prior = out.deep_view();
        out.push(v[i].clone());
        assert(out.deep_view() =~= prior.push(v.deep_view()[i as int]));
        i = i + 1;
        assert(out.deep_view() =~= v.deep_view().take(i as int));
    }
    assert(v.deep_view().take(i as int) =~= v.deep_view());
    out
}

fn copy_edges(v: &Vec<DepEdge>) -> (r: Vec<DepEdge>)
    ensures
        r.deep_view() == v.deep_view(),
{
    let mut out: Vec<DepEdge> = Vec::new();
    let mut i: usize = 0;
    while i < v.len()
        invariant
            i <= v@.len(),
            out.deep_view() == v.deep_view().take(i as int),
        decreases v.len() - i,
    {
        let ghost prior = out.deep_view();
        out.push(DepEdge { slug: v[i].slug.clone(), kind: v[i].kind });
        assert(out.deep_view() =~= prior.push(v.deep_view()[i as int]));
        i = i + 1;
        assert(out.deep_view() =~= v.deep_view().take(i as int));
    }
    assert(v.deep_view().take(i as int) =~= v.deep_view());
    out
}

// ---- safe path components ---------------------------------------------------------------------

/// Why a name is no safe path component.
#[derive(Debug, Clone, Copy, PartialEq, Eq, Structural)]
pub enum UnsafeName {
    Empty,
    DirectoryReference,
    Separator,
    DriveLetter,
    ReservedDevice,
}

/// The part of a name before its first dot, in capital letters.
pub open spec fn device_stem(name: Seq<char>) -> Seq<char> {
    upper(name.take(first_of(name, '.')))
}

/// A stem that Windows takes for a device: CON, PRN, AUX, NUL, COM1 to COM9, LPT1 to LPT9.
pub open spec fn device_name(stem: Seq<char>) -> bool {
    ||| stem == "CON"@
    ||| stem == "PRN"@
    ||| stem == "AUX"@
    ||| stem == "NUL"@
    ||| stem.len() == 4 && (stem.take(3) == "COM"@ || stem.take(3) == "LPT"@) && '1' <= stem[3]
        <= '9'
}

/// The first reason for which a name is no safe path component.
pub open spec fn name_fault(name: Seq<char>) -> Option<UnsafeName> {
    if name.len() == 0 {
        Some(UnsafeName::Empty)
    } else if name == "."@ || name == ".."@ {
        Some(UnsafeName::DirectoryReference)
    } else if name.contains('/') || name.contains('\\') {
        Some(UnsafeName::Separator)
    } else if name.len() >= 2 && is_letter(name[0]) && name[1] == ':' {
        Some(UnsafeName::DriveLetter)
    } else if device_name(device_stem(name)) {
        Some(UnsafeName::ReservedDevice)
    } else {
        None
    }
}

/// A single path component that stays in its directory.
pub open spec fn safe_name(name: Seq<char>) -> bool {
    name_fault(name) is None
}

/// Accept only a single, safe path component, rejecting empty, `.`/`..`, path separators, and
/// absolute or Windows drive/reserved-device forms. Each is used as a `<dir>/<component>` join,
/// and a join honours `..`/absolute components, so an unchecked one escapes its directory. An
/// absolute path holds a separator, so the separator check covers it.
pub fn safe_component(name: &str) -> (r: Result<(), UnsafeName>)
    ensures
        r == (match name_fault(name@) {
            Some(fault) => Err(fault),
            None => Ok(()),
        }),
{
    let x = chars_of(name);
    if x.len() == 0 {
        return Err(UnsafeName::Empty);
    }
    if same(name, ".") || same(name, "..") {
        return Err(UnsafeName::DirectoryReference);
    }
    if has_char(name, '/') || has_char(name, '\\') {
        return Err(UnsafeName::Separator);
    }
    // A Windows drive-relative form like `C:evil` carries no separator but still redirects writes.
    if x.len() >= 2 && (('a' <= x[0] && x[0] <= 'z') || ('A' <= x[0] && x[0] <= 'Z')) && x[1]
        == ':' {
        return Err(UnsafeName::DriveLetter);
    }
    if is_windows_reserved(name) {
        return Err(UnsafeName::ReservedDevice);
    }
    Ok(())
}

/// Whether `name`'s stem is a Windows reserved device name (CON, PRN, AUX, NUL, COM1-9, LPT1-9),
/// which resolves to a device rather than a file even with an extension appended.
pub fn is_windows_reserved(name: &str) -> (r: bool)
    ensures
        r == device_name(device_stem(name@)),
{
    let x = chars_of(name);
    let end = find_char(&x, '.');
    let head = string_of(&x, 0, end);
    assert(head@ =~= name@.take(end as int));
    let stem = to_upper(head.as_str());
    if same(stem.as_str(), "CON") || same(stem.as_str(), "PRN") || same(stem.as_str(), "AUX")
        || same(stem.as_str(), "NUL") {
        return true;
    }
    let s = chars_of(stem.as_str());
    if s.len() != 4 {
        return false;
    }
    let start = string_of(&s, 0, 3);
    assert(start@ =~= stem@.take(3));
    (same(start.as_str(), "COM") || same(start.as_str(), "LPT")) && '1' <= s[3] && s[3] <= '9'
}

/// A safe name is a nonempty component without separators that is neither `.` nor `..`: joined
/// to a directory, it names an entry of that directory.
pub proof fn safe_name_stays_in_its_directory(name: Seq<char>)
    requires
        safe_name(name),
    ensures
        name.len() > 0,
        name != "."@,
        name != ".."@,
        !name.contains('/'),
        !name.contains('\\'),
        !(name.len() >= 2 && is_letter(name[0]) && name[1] == ':'),
        !device_name(device_stem(name)),
{
}

// ---- the lock ---------------------------------------------------------------------------------

/// Which field of a lock entry is meant.
#[derive(Debug, Clone, Copy, PartialEq, Eq, Structural)]
pub enum NameField {
    Slug,
    Filename,
}

/// A lock entry with an unsafe slug or file name.
#[derive(Debug, Clone, Copy, PartialEq, Eq, Structural)]
pub struct EntryFault {
    pub entry: usize,
    pub field: NameField,
    pub fault: UnsafeName,
}

/// An entry whose slug and file name are both safe path components.
pub open spec fn entry_safe(m: LockedModView) -> bool {
    safe_name(m.slug) && safe_name(m.filename)
}

/// Every entry is safe.
pub open spec fn mods_safe(mods: Seq<LockedModView>) -> bool {
    forall|i: int| 0 <= i < mods.len() ==> entry_safe(#[trigger] mods[i])
}

/// `fault` is about the first entry that is not safe, and within it the slug comes first.
pub open spec fn is_first_fault(mods: Seq<LockedModView>, fault: EntryFault) -> bool {
    &&& fault.entry < mods.len()
    &&& forall|i: int| 0 <= i < fault.entry ==> entry_safe(#[trigger] mods[i])
    &&& match fault.field {
        NameField::Slug => name_fault(mods[fault.entry as int].slug) == Some(fault.fault),
        NameField::Filename => safe_name(mods[fault.entry as int].slug) && name_fault(
            mods[fault.entry as int].filename,
        ) == Some(fault.fault),
    }
}

/// The first entry with the given slug, from position `i` on.
pub open spec fn entry_from(mods: Seq<LockedModView>, slug: Seq<char>, i: int) -> Option<
    LockedModView,
>
    decreases mods.len() - i,
{
    if !(0 <= i < mods.len()) {
        None
    } else if mods[i].slug == slug {
        Some(mods[i])
    } else {
        entry_from(mods, slug, i + 1)
    }
}

impl Lock {
    /// Reject any lock whose slugs or filenames are not safe single path components: the single
    /// choke point every lock consumer passes through. In a lock authored by whoever published the
    /// pack, both fields become on-disk write destinations (`filename` → `mods/<filename>` and the
    /// `local/` copy source; `slug` → `mods/<slug>.pw.toml`), so a hostile one must not be able to
    /// escape the target tree.
    pub fn validate(&self) -> (r: Result<(), EntryFault>)
        ensures
            match r {
                Ok(_) => mods_safe(self@.mods),
                Err(fault) => is_first_fault(self@.mods, fault),
            },
    {
        let ghost all = self@.mods;
        let mut i: usize = 0;
        while i < self.mods.len()
            invariant
                all == self.mods.deep_view(),
                all == self@.mods,
                i <= self.mods@.len(),
                forall|j: int| 0 <= j < i ==> entry_safe(#[trigger] all[j]),
            decreases self.mods.len() - i,
        {
            assert(all[i as int] == self.mods@[i as int].deep_view());
            match safe_component(self.mods[i].slug.as_str()) {
                Ok(_) => {},
                Err(fault) => {
                    return Err(EntryFault { entry: i, field: NameField::Slug, fault });
                },
            }
            match safe_component(self.mods[i].filename.as_str()) {
                Ok(_) => {},
                Err(fault) => {
                    return Err(EntryFault { entry: i, field: NameField::Filename, fault });
                },
            }
            i = i + 1;
        }
        Ok(())
    }

    /// The entry with the given slug.
    pub fn find(&self, slug: &str) -> (r: Option<&LockedMod>)
        ensures
            r.deep_view() == entry_from(self@.mods, slug@, 0),
    {
        let ghost all = self@.mods;
        let mut i: usize = 0;
        while i < self.mods.len()
            invariant
                all == self.mods.deep_view(),
                i <= self.mods@.len(),
                entry_from(all, slug@, 0) == entry_from(all, slug@, i as int),
            decreases self.mods.len() - i,
        {
            assert(all[i as int] == self.mods@[i as int].deep_view());
            if same(self.mods[i].slug.as_str(), slug) {
                return Some(&self.mods[i]);
            }
            i = i + 1;
        }
        None
    }
}

/// A lock passes validation exactly when there is no fault to report.
pub proof fn fault_means_unsafe(mods: Seq<LockedModView>, fault: EntryFault)
    requires
        is_first_fault(mods, fault),
    ensures
        !mods_safe(mods),
{
    assert(!entry_safe(mods[fault.entry as int]));
}

/// A slug is found exactly when some entry has it, and what is found has that slug.
pub proof fn found_entries_have_the_slug(mods: Seq<LockedModView>, slug: Seq<char>, i: int)
    requires
        0 <= i <= mods.len(),
    ensures
        entry_from(mods, slug, i) matches Some(m) ==> m.slug == slug && mods.contains(m),
        entry_from(mods, slug, i) is None <==> forall|j: int|
            i <= j < mods.len() ==> (#[trigger] mods[j]).slug != slug,
    decreases mods.len() - i,
{
    if i < mods.len() && mods[i].slug != slug {
        found_entries_have_the_slug(mods, slug, i + 1);
    }
}

/// A name is safe exactly where it is one component of a path that stays in its directory on every system:
/// not empty, no reference to a directory, without separators and without a drive, and no device.
pub proof fn exactly_these_names_are_safe(name: Seq<char>)
    ensures
        safe_name(name) <==> {
            &&& name.len() > 0
            &&& name != "."@ && name != ".."@
            &&& !name.contains('/') && !name.contains('\\')
            &&& !(name.len() >= 2 && name[1] == ':' && ('a' <= name[0] <= 'z' || 'A' <= name[0]
                <= 'Z'))
            &&& !device_name(device_stem(name))
        },
{
}

/// A fault names what is wrong with a name.
pub proof fn a_fault_names_what_is_wrong(name: Seq<char>)
    ensures
        match name_fault(name) {
            None => safe_name(name),
            Some(UnsafeName::Empty) => name.len() == 0,
            Some(UnsafeName::DirectoryReference) => name == "."@ || name == ".."@,
            Some(UnsafeName::Separator) => name.contains('/') || name.contains('\\'),
            Some(UnsafeName::DriveLetter) => name.len() >= 2 && name[1] == ':',
            Some(UnsafeName::ReservedDevice) => device_name(device_stem(name)),
        },
{
}

/// A device is told by what stands before the first dot of its name, in any case.
pub proof fn devices_are_told_by_their_stem(stem: Seq<char>, rest: Seq<char>)
    requires
        !stem.contains('.'),
        rest.len() > 0 ==> rest[0] == '.',
    ensures
        device_stem(stem + rest) == upper(stem),
        device_name(upper(stem)) <==> upper(stem) == "CON"@ || upper(stem) == "PRN"@ || upper(stem)
            == "AUX"@ || upper(stem) == "NUL"@ || exists|n: nat|
            1 <= n <= 9 && #[trigger] is_port(upper(stem), n),
{
    let name = stem + rest;
    dot_is_found(stem, rest);
    assert(name.take(stem.len() as int) =~= stem);
    let word = upper(stem);
    reveal_strlit("COM");
    reveal_strlit("LPT");
    if word.len() == 4 && (word.take(3) == "COM"@ || word.take(3) == "LPT"@) && '1' <= word[3]
        <= '9' {
        let n = (word[3] as u32 - 48) as nat;
        assert(decimal(n) =~= seq![word[3]]);
        assert(word =~= word.take(3) + decimal(n));
        assert(is_port(word, n));
    }
    if exists|n: nat| 1 <= n <= 9 && #[trigger] is_port(word, n) {
        let n = choose|n: nat| 1 <= n <= 9 && #[trigger] is_port(word, n);
        assert(decimal(n).len() == 1);
        assert(word[3] == digit_char(n as int));
        assert(word[3] as u32 == 48 + n);
        if word == "COM"@ + decimal(n) {
            assert(word.take(3) =~= "COM"@);
        } else {
            assert(word.take(3) =~= "LPT"@);
        }
    }
}

/// The serial or parallel port of this number.
pub open spec fn is_port(word: Seq<char>, n: nat) -> bool {
    word == "COM"@ + decimal(n) || word == "LPT"@ + decimal(n)
}

proof fn dot_is_found(stem: Seq<char>, rest: Seq<char>)
    requires
        !stem.contains('.'),
        rest.len() > 0 ==> rest[0] == '.',
    ensures
        first_of(stem + rest, '.') == stem.len(),
    decreases stem.len(),
{
    let all = stem + rest;
    if stem.len() > 0 {
        assert(stem.contains(stem[0]));
        assert(all[0] == stem[0]);
        assert(all.drop_first() =~= stem.drop_first() + rest);
        assert forall|i: int| 0 <= i < stem.len() - 1 implies stem.drop_first()[i] != '.' by {
            assert(stem.contains(stem[i + 1]));
        }
        dot_is_found(stem.drop_first(), rest);
    } else {
        assert(all =~= rest);
    }
}

/// The entry that is found for a slug is the first one with it.
pub proof fn the_first_entry_is_found(mods: Seq<LockedModView>, slug: Seq<char>, i: int)
    requires
        0 <= i < mods.len(),
        mods[i].slug == slug,
        forall|j: int| 0 <= j < i ==> (#[trigger] mods[j]).slug != slug,
    ensures
        entry_from(mods, slug, 0) == Some(mods[i]),
{
    entries_before_are_passed(mods, slug, 0, i);
}

proof fn entries_before_are_passed(mods: Seq<LockedModView>, slug: Seq<char>, from: int, i: int)
    requires
        0 <= from <= i < mods.len(),
        mods[i].slug == slug,
        forall|j: int| 0 <= j < i ==> (#[trigger] mods[j]).slug != slug,
    ensures
        entry_from(mods, slug, from) == Some(mods[i]),
    decreases i - from,
{
    if from < i {
        assert(mods[from].slug != slug);
        entries_before_are_passed(mods, slug, from + 1, i);
    }
}

/// A lock is accepted exactly where every slug and every file name in it is safe.
pub proof fn a_valid_lock_has_safe_names(lock: &Lock, r: Result<(), EntryFault>)
    requires
        call_ensures(Lock::validate, (lock,), r),
    ensures
        r is Ok <==> forall|i: int|
            0 <= i < lock@.mods.len() ==> safe_name((#[trigger] lock@.mods[i]).slug) && safe_name(
                lock@.mods[i].filename,
            ),
{
    match r {
        Ok(_) => {
            assert forall|i: int| 0 <= i < lock@.mods.len() implies safe_name(
                (#[trigger] lock@.mods[i]).slug,
            ) && safe_name(lock@.mods[i].filename) by {
                assert(entry_safe(lock@.mods[i]));
            }
        },
        Err(fault) => {
            let bad = lock@.mods[fault.entry as int];
            assert(!safe_name(bad.slug) || !safe_name(bad.filename));
        },
    }
}

} // verus!
