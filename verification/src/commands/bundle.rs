//! Bundling a pack into a distributable archive.
use flate2::write::GzEncoder;
use flate2::Compression;
use vstd::prelude::*;

use crate::commands::get::{
    checksum_in, checksum_refusal, first_word, gap_end, hexadecimal, word_end,
};
use crate::hash::{hex_of, sha256_digest, sha256_hex};
use crate::lock::LOCK_FILENAME;
use crate::manifest::{Manifest, MANIFEST_FILENAME};
use crate::order::{
    arrange, arranged, arranging_ignores_input_order, arranging_orders, arranging_permutes,
    same_members, strict_order, Ranked,
};
use crate::packwiz::{ShippedFile, ShippedFileView};
use crate::text::{
    before, before_is_total, chars_of, is_before, is_digit, is_letter, lower, split,
    split_without_separator, string_of, text_order_is_strict, to_lower_char, white,
};

verus! {

/// The permissions of every file in an archive: readable by all, writable by its owner.
pub const ENTRY_MODE: u32 = 0o644;

/// The modification time of every file in an archive.
pub const ENTRY_MTIME: u64 = 0;

// ---- tar and gzip -----------------------------------------------------------------------------

/// A gzip-compressed tar archive that is being written into memory: a `tar::Builder` over a
/// `flate2::write::GzEncoder`.
#[verifier::external_body]
pub struct TarGz {
    builder: tar::Builder<GzEncoder<Vec<u8>>>,
}

/// The entries of an archive so far, in order: the name, the contents, the permissions and the
/// modification time of each.
pub uninterp spec fn packed(archive: TarGz) -> Seq<(Seq<char>, Seq<u8>, u32, u64)>;

/// The bytes of the archive with these entries, compressed at the default level.
pub uninterp spec fn archive_bytes(entries: Seq<(Seq<char>, Seq<u8>, u32, u64)>) -> Seq<u8>;

/// No name holds a backslash, which some systems take for a separator.
pub open spec fn portable(entries: Seq<(Seq<char>, Seq<u8>, u32, u64)>) -> bool {
    forall|i: int| 0 <= i < entries.len() ==> !(#[trigger] entries[i]).0.contains('\\')
}

/// The bytes of a name that a header has room for.
pub const HEADER_NAME_BYTES: usize = 100;

/// One of the pieces of the name is the parent directory.
pub open spec fn climbs(name: Seq<char>) -> bool {
    exists|i: int| 0 <= i < split(name, '/').len() && #[trigger] split(name, '/')[i] == ".."@
}

/// A name that is a relative path within its directory everywhere: it is not empty, starts neither at
/// the root nor at a drive, holds no parent directory, and no backslash, which is a separator on some
/// systems.
pub open spec fn ordinary(name: Seq<char>) -> bool {
    &&& name.len() > 0
    &&& name[0] != '/'
    &&& !(name.len() > 1 && name[1] == ':')
    &&& !name.contains('\\')
    &&& !name.contains('\0')
    &&& !climbs(name)
}

/// A name that no system takes: it is empty or starts at the root, or else it is short enough for a
/// header and holds a null character or a parent directory.
pub open spec fn refused(name: Seq<char>) -> bool {
    ||| name.len() == 0
    ||| name[0] == '/'
    ||| vstd::utf8::encode_utf8(name).len() < HEADER_NAME_BYTES && (name.contains('\0') || climbs(
        name,
    ))
}

/// `tar::Builder::new` over `flate2::write::GzEncoder::new` at `Compression::default()`: an archive
/// without entries. The encoder writes no file name and a time of zero into its header.
#[verifier::external_body]
fn new_archive() -> (r: TarGz)
    ensures
        packed(r) == Seq::<(Seq<char>, Seq<u8>, u32, u64)>::empty(),
{
    TarGz { builder: tar::Builder::new(GzEncoder::new(Vec::new(), Compression::default())) }
}

/// `tar::Builder::append_data` with a fresh GNU header of the given size, permissions and time: where
/// it succeeds, the entry is the last one of the archive. Apart from faults of the reader and the
/// writer, which are both in memory here, it fails only on its name: an ordinary one of any length is
/// accepted, and it refuses an empty or absolute one, and a short one that holds a null character or a
/// parent directory. What becomes of a name with a backslash or a drive depends on the system, a long
/// name is looked at only as far as a header has room for it, and what a failed call leaves behind is
/// not stated.
#[verifier::external_body]
fn append_entry(archive: &mut TarGz, name: &str, bytes: &[u8], mode: u32, mtime: u64) -> (r: bool)
    ensures
        ordinary(name@) ==> r,
        refused(name@) ==> !r,
        r ==> packed(*final(archive)) == packed(*old(archive)).push((name@, bytes@, mode, mtime)),
{
    let mut header = tar::Header::new_gnu();
    header.set_size(bytes.len() as u64);
    header.set_mode(mode);
    header.set_mtime(mtime);
    archive.builder.append_data(&mut header, name, bytes).is_ok()
}

/// `tar::Builder::into_inner`, then `flate2::write::GzEncoder::finish`: they fail only where the
/// writer fails, which memory does not, and give the bytes of the archive, which depend on its
/// entries alone as long as their names are portable.
#[verifier::external_body]
fn finish_archive(archive: TarGz) -> (r: Option<Vec<u8>>)
    ensures
        r is Some,
        r matches Some(bytes) ==> (portable(packed(archive)) ==> bytes@ == archive_bytes(
            packed(archive),
        )),
{
    archive.builder.into_inner().ok()?.finish().ok()
}

// ---- the archive ------------------------------------------------------------------------------

/// Why no archive can be built.
#[derive(Debug)]
pub enum ArchiveError {
    /// There is no lockfile.
    NoLock,
    /// The file of this name could not be added.
    Entry(String),
    /// The archive could not be completed.
    Unfinished,
}

impl Ranked for ShippedFile {
    open spec fn ranks_before(a: ShippedFileView, b: ShippedFileView) -> bool {
        before(a.rel, b.rel)
    }

    fn is_ranked_before(&self, other: &Self) -> (r: bool) {
        is_before(self.rel.as_str(), other.rel.as_str())
    }
}

/// The files as entries of an archive.
pub open spec fn entries_for(files: Seq<ShippedFileView>) -> Seq<(Seq<char>, Seq<u8>, u32, u64)> {
    files.map_values(|f: ShippedFileView| (f.rel, f.bytes, ENTRY_MODE, ENTRY_MTIME))
}

/// The entries of the archive of these files: sorted by name.
pub open spec fn archive_entries(files: Seq<ShippedFileView>) -> Seq<
    (Seq<char>, Seq<u8>, u32, u64),
> {
    entries_for(arranged::<ShippedFile>(files))
}

/// Pack the files into a **deterministic** `.tar.gz`: entries sorted by name, headers with zeroed
/// mtime/uid/gid and a fixed mode, gzip with no filename/timestamp. Re-bundling identical inputs
/// yields byte-identical output, so the published checksum is meaningful.
pub fn archive(files: Vec<ShippedFile>) -> (r: Result<Vec<u8>, ArchiveError>)
    ensures
        match r {
            Ok(bytes) => {
                &&& portable(archive_entries(files.deep_view())) ==> bytes@ == archive_bytes(
                    archive_entries(files.deep_view()),
                )
                &&& forall|i: int|
                    0 <= i < files@.len() ==> !refused((#[trigger] files.deep_view()[i]).rel)
            },
            Err(ArchiveError::Entry(name)) => !ordinary(name@) && exists|i: int|
                0 <= i < files@.len() && (#[trigger] files.deep_view()[i]).rel == name@,
            Err(_) => false,
        },
{
    let ghost given = files.deep_view();
    let sorted = arrange(files);
    let ghost all = sorted.deep_view();
    let mut tar = new_archive();
    let mut i: usize = 0;
    assert(packed(tar) =~= entries_for(all).take(0));
    while i < sorted.len()
        invariant
            all == sorted.deep_view(),
            given == files.deep_view(),
            all == arranged::<ShippedFile>(given),
            i <= sorted@.len(),
            packed(tar) == entries_for(all).take(i as int),
            forall|k: int| 0 <= k < i ==> !refused((#[trigger] all[k]).rel),
        decreases sorted.len() - i,
    {
        assert(all[i as int] == sorted@[i as int].deep_view());
        if !append_entry(
            &mut tar,
            sorted[i].rel.as_str(),
            sorted[i].bytes.as_slice(),
            ENTRY_MODE,
            ENTRY_MTIME,
        ) {
            proof {
                arranging_permutes::<ShippedFile>(given);
                same_members(all, given);
                assert(all.contains(all[i as int]));
                let k = choose|k: int| 0 <= k < given.len() && given[k] == all[i as int];
                assert(given[k].rel == sorted@[i as int].rel@);
            }
            return Err(ArchiveError::Entry(sorted[i].rel.clone()));
        }
        i = i + 1;
        assert(packed(tar) =~= entries_for(all).take(i as int));
    }
    proof {
        assert(entries_for(all).take(i as int) =~= entries_for(all));
        arranging_permutes::<ShippedFile>(given);
        same_members(given, all);
        assert forall|j: int| 0 <= j < given.len() implies !refused((#[trigger] given[j]).rel) by {
            assert(given.contains(given[j]));
            let k = choose|k: int| 0 <= k < all.len() && all[k] == given[j];
            assert(!refused(all[k].rel));
        }
    }
    match finish_archive(tar) {
        Some(bytes) => Ok(bytes),
        None => Err(ArchiveError::Unfinished),
    }
}

/// A built distributable held in memory, shared by `bundle` (writes it to disk) and `publish`
/// (uploads it to a release).
#[derive(Debug)]
pub struct BuiltArchive {
    pub filename: String,
    pub targz: Vec<u8>,
    pub digest: String,
    pub overlay_count: usize,
}

/// The line of a checksum file.
pub open spec fn checksum_line(digest: Seq<char>, filename: Seq<char>) -> Seq<char> {
    digest + "  "@ + filename + "\n"@
}

impl BuiltArchive {
    /// The digest is that of the archive.
    pub open spec fn valid(&self) -> bool {
        self.digest@ == hex_of(sha256_digest(self.targz@)) && self.digest@.len() == 64
    }

    pub fn checksum_filename(&self) -> (r: String)
        ensures
            r@ == self.filename@ + ".sha256"@,
    {
        let mut out = self.filename.clone();
        out.append(".sha256");
        out
    }

    /// The `sha256sum`-format line (`<hash>  <filename>`), verifiable with `sha256sum -c`.
    pub fn checksum_file(&self) -> (r: String)
        ensures
            r@ == checksum_line(self.digest@, self.filename@),
    {
        let mut out = self.digest.clone();
        out.append("  ");
        out.append(self.filename.as_str());
        out.append("\n");
        out
    }
}

/// The files of the archive of a pack: the manifest, the lockfile and the overlays.
pub open spec fn pack_files(
    manifest: Seq<u8>,
    lock: Seq<u8>,
    overlays: Seq<ShippedFileView>,
) -> Seq<ShippedFileView> {
    seq![
        ShippedFileView { rel: MANIFEST_FILENAME@, bytes: manifest },
        ShippedFileView { rel: LOCK_FILENAME@, bytes: lock },
    ] + overlays
}

/// Build the pack's distributable archive in memory. THIN by design: the pack DEFINITION only:
/// the manifest, the lockfile, and the overlay sources (config/, kubejs/). Deliberately NO mod jars
/// (redistribution is forbidden; they're fetched from the provider and verified against the lock on
/// install) and no runtime files.
pub fn build_archive(
    manifest: &Manifest,
    manifest_bytes: Vec<u8>,
    lock_bytes: Option<Vec<u8>>,
    overlays: Vec<ShippedFile>,
) -> (r: Result<BuiltArchive, ArchiveError>)
    ensures
        match r {
            Ok(built) => {
                &&& lock_bytes matches Some(lock) && ({
                    let entries = archive_entries(
                        pack_files(manifest_bytes@, lock@, overlays.deep_view()),
                    );
                    portable(entries) ==> built.targz@ == archive_bytes(entries)
                })
                &&& forall|i: int|
                    0 <= i < overlays@.len() ==> !refused((#[trigger] overlays.deep_view()[i]).rel)
                &&& built.valid()
                &&& built.filename@ == stem_for(manifest@.pack.name, manifest@.pack.version)
                    + ".tar.gz"@
                &&& built.overlay_count == overlays@.len()
            },
            Err(ArchiveError::NoLock) => lock_bytes is None,
            Err(ArchiveError::Entry(name)) => lock_bytes is Some && !ordinary(name@)
                && exists|i: int|
                0 <= i < overlays@.len() && (#[trigger] overlays.deep_view()[i]).rel == name@,
            Err(ArchiveError::Unfinished) => false,
        },
{
    let lock_bytes = match lock_bytes {
        Some(bytes) => bytes,
        None => {
            return Err(ArchiveError::NoLock);
        },
    };
    let ghost shipped = overlays.deep_view();
    let ghost whole = pack_files(manifest_bytes@, lock_bytes@, shipped);
    let overlay_count = overlays.len();
    let mut overlays = overlays;
    let mut files: Vec<ShippedFile> = Vec::new();
    files.push(ShippedFile { rel: MANIFEST_FILENAME.to_owned(), bytes: manifest_bytes });
    files.push(ShippedFile { rel: LOCK_FILENAME.to_owned(), bytes: lock_bytes });
    files.append(&mut overlays);
    assert(files.deep_view() =~= whole);
    match archive(files) {
        Err(e) => {
            proof {
                fixed_names_are_ordinary();
                if e is Entry {
                    let name = e->Entry_0@;
                    let i = choose|i: int| 0 <= i < whole.len() && (#[trigger] whole[i]).rel == name;
                    assert(shipped[i - 2].rel == name);
                }
            }
            Err(e)
        },
        Ok(targz) => {
            proof {
                assert forall|i: int| 0 <= i < shipped.len() implies !refused(
                    (#[trigger] shipped[i]).rel,
                ) by {
                    assert(whole[i + 2] == shipped[i]);
                }
            }
            let digest = sha256_hex(targz.as_slice());
            let mut filename = stem(manifest.pack.name.as_str(), manifest.pack.version.as_str());
            filename.append(".tar.gz");
            Ok(BuiltArchive { filename, targz, digest, overlay_count })
        },
    }
}

/// The names of the manifest and of the lockfile are ordinary.
proof fn fixed_names_are_ordinary()
    ensures
        ordinary(MANIFEST_FILENAME@),
        ordinary(LOCK_FILENAME@),
{
    reveal_strlit("lode.json");
    reveal_strlit("lode.lock");
    reveal_strlit("..");
    split_without_separator("lode.json"@, '/');
    split_without_separator("lode.lock"@, '/');
}

// ---- the name ---------------------------------------------------------------------------------

/// A character that is safe in a file name; any other becomes a dash.
pub open spec fn safe_char(c: char) -> char {
    if is_letter(c) || is_digit(c) || c == '-' || c == '_' || c == '.' {
        c
    } else {
        '-'
    }
}

/// The name in small letters, with dashes for unsafe characters.
pub open spec fn safe_text(name: Seq<char>) -> Seq<char> {
    lower(name).map_values(|c: char| safe_char(c))
}

/// `s` without the occurrences of `c` that start it.
pub open spec fn without_leading(s: Seq<char>, c: char) -> Seq<char>
    decreases s.len(),
{
    if s.len() > 0 && s[0] == c {
        without_leading(s.drop_first(), c)
    } else {
        s
    }
}

/// `s` without the occurrences of `c` that end it.
pub open spec fn without_trailing(s: Seq<char>, c: char) -> Seq<char>
    decreases s.len(),
{
    if s.len() > 0 && s.last() == c {
        without_trailing(s.drop_last(), c)
    } else {
        s
    }
}

/// The `<name>-<version>` stem of an artifact; `pack` stands for a name without a safe character.
pub open spec fn stem_for(name: Seq<char>, version: Seq<char>) -> Seq<char> {
    let safe = without_trailing(without_leading(safe_text(name), '-'), '-');
    (if safe.len() == 0 {
        "pack"@
    } else {
        safe
    }) + "-"@ + version
}

fn to_safe_char(c: char) -> (r: char)
    ensures
        r == safe_char(c),
{
    if ('a' <= c && c <= 'z') || ('A' <= c && c <= 'Z') || ('0' <= c && c <= '9') || c == '-' || c
        == '_' || c == '.' {
        c
    } else {
        '-'
    }
}

/// A filesystem-safe `<name>-<version>` stem for the artifact filename.
pub fn stem(name: &str, version: &str) -> (r: String)
    ensures
        r@ == stem_for(name@, version@),
{
    let x = chars_of(name);
    let ghost safe = safe_text(name@);
    let mut chars: Vec<char> = Vec::new();
    let mut i: usize = 0;
    while i < x.len()
        invariant
            x@ == name@,
            safe == safe_text(name@),
            i <= x@.len(),
            chars@ == safe.take(i as int),
        decreases x.len() - i,
    {
        chars.push(to_safe_char(to_lower_char(x[i])));
        i = i + 1;
        assert(chars@ =~= safe.take(i as int));
    }
    assert(safe.take(i as int) =~= safe);
    let mut from: usize = 0;
    assert(safe.skip(0) =~= safe);
    while from < chars.len() && chars[from] == '-'
        invariant
            chars@ == safe,
            from <= chars@.len(),
            without_leading(safe, '-') == without_leading(safe.skip(from as int), '-'),
        decreases chars.len() - from,
    {
        assert(safe.skip(from as int).drop_first() =~= safe.skip(from + 1));
        from = from + 1;
    }
    let ghost left = safe.skip(from as int);
    assert(without_leading(safe, '-') == left);
    let mut to: usize = chars.len();
    assert(safe.subrange(from as int, to as int) =~= left);
    while from < to && chars[to - 1] == '-'
        invariant
            chars@ == safe,
            from <= to <= chars@.len(),
            without_trailing(left, '-') == without_trailing(
                safe.subrange(from as int, to as int),
                '-',
            ),
        decreases to,
    {
        assert(safe.subrange(from as int, to as int).drop_last() =~= safe.subrange(
            from as int,
            to - 1,
        ));
        to = to - 1;
    }
    let mut out = if from == to {
        "pack".to_owned()
    } else {
        string_of(&chars, from, to)
    };
    out.append("-");
    out.append(version);
    out
}

// ---- laws -------------------------------------------------------------------------------------

/// The order of shipped files is strict.
pub proof fn shipped_order_is_strict()
    ensures
        strict_order::<ShippedFile>(),
{
    text_order_is_strict();
}

/// The archive does not depend on the order in which its files are given, where no two of them have
/// the same name.
pub proof fn archive_is_order_independent(files: Seq<ShippedFileView>, shuffled: Seq<ShippedFileView>)
    requires
        files.to_multiset() == shuffled.to_multiset(),
        forall|a: ShippedFileView, b: ShippedFileView|
            #[trigger] files.contains(a) && #[trigger] files.contains(b) && a.rel == b.rel ==> a == b,
    ensures
        archive_entries(files) == archive_entries(shuffled),
        archive_bytes(archive_entries(files)) == archive_bytes(archive_entries(shuffled)),
{
    shipped_order_is_strict();
    assert forall|a: ShippedFileView, b: ShippedFileView|
        #![trigger ShippedFile::ranks_before(a, b)]
        files.contains(a) && files.contains(b) implies a == b || ShippedFile::ranks_before(a, b)
        || ShippedFile::ranks_before(b, a) by {
        before_is_total(a.rel, b.rel);
    }
    arranging_ignores_input_order::<ShippedFile>(files, shuffled);
}

/// Every entry of an archive carries the same permissions and time, so neither the clock nor the
/// file system leaks into it.
pub proof fn entries_are_normalized(files: Seq<ShippedFileView>, i: int)
    requires
        0 <= i < archive_entries(files).len(),
    ensures
        archive_entries(files)[i].2 == 0o644,
        archive_entries(files)[i].3 == 0,
{
}

/// The checksum file that is published with an archive reads back as the archive's checksum, and
/// the archive is not refused for it.
pub proof fn published_checksum_is_accepted(targz: Seq<u8>, filename: Seq<char>)
    requires
        sha256_digest(targz).len() > 0,
    ensures
        checksum_in(checksum_line(hex_of(sha256_digest(targz)), filename)) == Some(
            hex_of(sha256_digest(targz)),
        ),
        checksum_refusal(
            targz,
            checksum_in(checksum_line(hex_of(sha256_digest(targz)), filename)),
        ) is None,
{
    let digest = hex_of(sha256_digest(targz));
    let line = checksum_line(digest, filename);
    reveal_strlit("  ");
    assert forall|i: int| 0 <= i < digest.len() implies hexadecimal(#[trigger] line[i])
        && hexadecimal(digest[i]) && !white(line[i]) by {
        assert(line[i] == digest[i]);
    }
    assert(line[digest.len() as int] == ' ');
    assert(gap_end(line, 0) == 0);
    word_ends_at(line, 0, digest.len() as int);
    assert(line.subrange(0, digest.len() as int) =~= digest);
    assert(first_word(line) == digest);
}

proof fn word_ends_at(s: Seq<char>, i: int, end: int)
    requires
        0 <= i <= end < s.len(),
        white(s[end]),
        forall|j: int| i <= j < end ==> !white(#[trigger] s[j]),
    ensures
        word_end(s, i) == end,
    decreases end - i,
{
    if i < end {
        word_ends_at(s, i + 1, end);
    }
}

/// The entries of an archive are its files, each with its bytes, sorted by name.
pub proof fn an_archive_holds_its_files_sorted(files: Seq<ShippedFileView>, k: int)
    ensures
        ({
            let entries = archive_entries(files);
            &&& entries.len() == files.len()
            &&& 0 <= k < entries.len() ==> exists|i: int|
                0 <= i < files.len() && (#[trigger] files[i]).rel == entries[k].0 && files[i].bytes
                    == entries[k].1
            &&& 0 <= k < files.len() ==> exists|i: int|
                0 <= i < entries.len() && (#[trigger] entries[i]).0 == files[k].rel && entries[i].1
                    == files[k].bytes
            &&& forall|a: int, b: int|
                0 <= a < b < entries.len() ==> !before(
                    (#[trigger] entries[b]).0,
                    (#[trigger] entries[a]).0,
                )
        }),
{
    let sorted = arranged::<ShippedFile>(files);
    let entries = archive_entries(files);
    shipped_order_is_strict();
    arranging_orders::<ShippedFile>(files);
    arranging_permutes::<ShippedFile>(files);
    same_members(sorted, files);
    assert forall|a: int, b: int| 0 <= a < b < entries.len() implies !before(
        (#[trigger] entries[b]).0,
        (#[trigger] entries[a]).0,
    ) by {
        assert(!ShippedFile::ranks_before(sorted[b], sorted[a]));
    }
    if 0 <= k < entries.len() {
        assert(sorted.contains(sorted[k]));
        let i = choose|i: int| 0 <= i < files.len() && files[i] == sorted[k];
        assert(files[i].rel == entries[k].0);
    }
    if 0 <= k < files.len() {
        assert(files.contains(files[k]));
        assert(sorted.contains(files[k]));
        let i = choose|i: int| 0 <= i < sorted.len() && sorted[i] == files[k];
        assert(entries[i].0 == files[k].rel);
    }
}

/// A bundle is thin: it holds the manifest, the lockfile and the overlays, as they are, and nothing else.
pub proof fn a_bundle_is_thin(
    manifest: Seq<u8>,
    lock: Seq<u8>,
    overlays: Seq<ShippedFileView>,
    k: int,
)
    ensures
        ({
            let files = pack_files(manifest, lock, overlays);
            &&& files.len() == overlays.len() + 2
            &&& files[0].rel == "lode.json"@ && files[0].bytes == manifest
            &&& files[1].rel == "lode.lock"@ && files[1].bytes == lock
            &&& 0 <= k < overlays.len() ==> files[k + 2] == overlays[k]
        }),
{
}

/// The stem of an artifact holds letters, digits, dashes, underscores and dots alone before its version,
/// and neither starts nor ends with a dash there.
pub proof fn a_stem_is_safe(name: Seq<char>, version: Seq<char>)
    ensures
        exists|safe: Seq<char>|
            {
                &&& #[trigger] (safe + "-"@ + version) == stem_for(name, version)
                &&& safe.len() > 0
                &&& safe[0] != '-' && safe.last() != '-'
                &&& forall|i: int| 0 <= i < safe.len() ==> is_safe_char(#[trigger] safe[i])
            },
        name.len() > 0 && name[0] != '-' && name.last() != '-' && (forall|i: int|
            0 <= i < name.len() ==> is_safe_char(#[trigger] name[i])) ==> stem_for(name, version)
            == name + "-"@ + version,
{
    let text = safe_text(name);
    let left = without_leading(text, '-');
    let both = without_trailing(left, '-');
    leading_comes_off(text, '-');
    trailing_comes_off(left, '-');
    reveal_strlit("pack");
    let safe = if both.len() == 0 {
        "pack"@
    } else {
        both
    };
    assert forall|i: int| 0 <= i < safe.len() implies is_safe_char(#[trigger] safe[i]) by {
        if both.len() > 0 {
            assert(text.contains(both[i]));
            let j = choose|j: int| 0 <= j < text.len() && text[j] == both[i];
            assert(is_safe_char(text[j]));
        }
    }
    assert(safe + "-"@ + version == stem_for(name, version));
    if name.len() > 0 && name[0] != '-' && name.last() != '-' && (forall|i: int|
        0 <= i < name.len() ==> is_safe_char(#[trigger] name[i])) {
        assert(text =~= name);
    }
}

/// A small letter, a digit, a dash, an underscore or a dot.
pub open spec fn is_safe_char(c: char) -> bool {
    'a' <= c <= 'z' || '0' <= c <= '9' || c == '-' || c == '_' || c == '.'
}

proof fn leading_comes_off(s: Seq<char>, c: char)
    ensures
        ({
            let r = without_leading(s, c);
            &&& r.len() > 0 ==> r[0] != c
            &&& forall|x: char| r.contains(x) ==> #[trigger] s.contains(x)
            &&& s.len() > 0 && s[0] != c ==> r == s
        }),
    decreases s.len(),
{
    if s.len() > 0 && s[0] == c {
        leading_comes_off(s.drop_first(), c);
        assert forall|x: char| without_leading(s, c).contains(x) implies #[trigger] s.contains(x) by {
            assert(s.drop_first().contains(x));
            let i = choose|i: int| 0 <= i < s.len() - 1 && s.drop_first()[i] == x;
            assert(s[i + 1] == x);
        }
    }
}

proof fn trailing_comes_off(s: Seq<char>, c: char)
    ensures
        ({
            let r = without_trailing(s, c);
            &&& r.len() > 0 ==> r.last() != c && r[0] == s[0]
            &&& forall|i: int| 0 <= i < r.len() ==> s.contains(#[trigger] r[i])
            &&& s.len() > 0 && s.last() != c ==> r == s
        }),
    decreases s.len(),
{
    if s.len() > 0 && s.last() == c {
        let shorter = s.drop_last();
        trailing_comes_off(shorter, c);
        let r = without_trailing(s, c);
        assert forall|i: int| 0 <= i < r.len() implies s.contains(#[trigger] r[i]) by {
            assert(shorter.contains(r[i]));
            let j = choose|j: int| 0 <= j < shorter.len() && shorter[j] == r[i];
            assert(s[j] == r[i]);
        }
    } else {
        assert forall|i: int| 0 <= i < s.len() implies s.contains(#[trigger] s[i]) by {}
    }
}

} // verus!
