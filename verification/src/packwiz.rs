//! The packwiz distribution tree: an index of files with their hashes, and one metafile per mod.
use vstd::prelude::*;

use crate::hash::{hex_of, sha256_digest, sha256_hex};
use crate::loader::loader_word;
use crate::lock::{Lock, LockedMod, LockedModView};
use crate::manifest::{Manifest, ManifestView};
use crate::order::{
    arrange, arranged, arranging_orders, arranging_permutes, same_members, strict_order, Ranked,
};
use crate::provider::{DownloadMode, Provider};
use crate::side::packwiz_side;
use crate::text::{before, is_before, replace, replaced, text_order_is_strict, utf8};

verus! {

/// The format that `pack.toml` declares.
pub const PACK_FORMAT: &'static str = "packwiz:1.1.0";

/// One row of the generated `index.toml`.
#[derive(Debug)]
pub struct IndexEntry {
    pub file: String,
    pub hash: String,
    pub metafile: bool,
}

/// A file of the pack with its contents, under its path relative to the pack root.
#[derive(Debug)]
pub struct ShippedFile {
    pub rel: String,
    pub bytes: Vec<u8>,
}

/// A generated text file, under its path in the distribution tree.
#[derive(Debug)]
pub struct Metafile {
    pub rel: String,
    pub contents: String,
}

/// What to write into the distribution tree: the metafiles, `index.toml` and `pack.toml`.
#[derive(Debug)]
pub struct PackTree {
    pub metafiles: Vec<Metafile>,
    pub index: String,
    pub pack: String,
}

#[verifier::ext_equal]
pub struct IndexEntryView {
    pub file: Seq<char>,
    pub hash: Seq<char>,
    pub metafile: bool,
}

#[verifier::ext_equal]
pub struct ShippedFileView {
    pub rel: Seq<char>,
    pub bytes: Seq<u8>,
}

#[verifier::ext_equal]
pub struct MetafileView {
    pub rel: Seq<char>,
    pub contents: Seq<char>,
}

#[verifier::ext_equal]
pub struct PackTreeView {
    pub metafiles: Seq<MetafileView>,
    pub index: Seq<char>,
    pub pack: Seq<char>,
}

impl DeepView for IndexEntry {
    type V = IndexEntryView;

    open spec fn deep_view(&self) -> IndexEntryView {
        IndexEntryView { file: self.file@, hash: self.hash@, metafile: self.metafile }
    }
}

impl DeepView for ShippedFile {
    type V = ShippedFileView;

    open spec fn deep_view(&self) -> ShippedFileView {
        ShippedFileView { rel: self.rel@, bytes: self.bytes@ }
    }
}

impl DeepView for Metafile {
    type V = MetafileView;

    open spec fn deep_view(&self) -> MetafileView {
        MetafileView { rel: self.rel@, contents: self.contents@ }
    }
}

impl View for PackTree {
    type V = PackTreeView;

    open spec fn view(&self) -> PackTreeView {
        PackTreeView {
            metafiles: self.metafiles.deep_view(),
            index: self.index@,
            pack: self.pack@,
        }
    }
}

impl Ranked for IndexEntry {
    open spec fn ranks_before(a: IndexEntryView, b: IndexEntryView) -> bool {
        before(a.file, b.file)
    }

    fn is_ranked_before(&self, other: &Self) -> (r: bool) {
        is_before(self.file.as_str(), other.file.as_str())
    }
}

// ---- text -------------------------------------------------------------------------------------

/// A text between quotation marks, with its backslashes and quotation marks escaped.
pub open spec fn quoted(value: Seq<char>) -> Seq<char> {
    "\""@ + replaced(replaced(value, '\\', "\\\\"@), '"', "\\\""@) + "\""@
}

/// `KEY = "VALUE"` on a line of its own.
pub open spec fn toml_line(key: Seq<char>, value: Seq<char>) -> Seq<char> {
    key + " = "@ + quoted(value) + "\n"@
}

/// `KEY = VALUE` on a line of its own, with the value as it stands.
pub open spec fn bare_line(key: Seq<char>, value: Seq<char>) -> Seq<char> {
    key + " = "@ + value + "\n"@
}

/// A TOML basic string.
pub fn toml_string(value: &str) -> (r: String)
    ensures
        r@ == quoted(value@),
{
    let mut out = "\"".to_owned();
    let once = replace(value, '\\', "\\\\");
    out.append(replace(once.as_str(), '"', "\\\"").as_str());
    out.append("\"");
    out
}

fn put_line(out: &mut String, key: &str, value: &str)
    ensures
        final(out)@ == old(out)@ + toml_line(key@, value@),
{
    let mut line = key.to_owned();
    line.append(" = ");
    line.append(toml_string(value).as_str());
    line.append("\n");
    out.append(line.as_str());
}

fn put_bare(out: &mut String, key: &str, value: &str)
    ensures
        final(out)@ == old(out)@ + bare_line(key@, value@),
{
    let mut line = key.to_owned();
    line.append(" = ");
    line.append(value);
    line.append("\n");
    out.append(line.as_str());
}

/// The general part of a metafile. The side is always given, so that neither side, which is the
/// empty text, is not read as both.
pub open spec fn metafile_head(m: LockedModView) -> Seq<char> {
    toml_line("name"@, m.name) + toml_line("filename"@, m.filename) + toml_line(
        "side"@,
        packwiz_side(m.side),
    )
}

/// The download part of a metafile. The mode is written only where it is not the plain one.
pub open spec fn metafile_download(m: LockedModView) -> Seq<char> {
    let start = "\n[download]\n"@;
    let located = match m.download.url {
        Some(url) => start + toml_line("url"@, url),
        None => start,
    };
    let hashed = located + toml_line("hash-format"@, m.download.hash_format) + toml_line(
        "hash"@,
        m.download.hash,
    );
    if m.download.mode == DownloadMode::MetadataCurseforge {
        hashed + toml_line("mode"@, "metadata:curseforge"@)
    } else {
        hashed
    }
}

/// The update part of a metafile, with the key names that packwiz knows.
pub open spec fn metafile_update(m: LockedModView) -> Seq<char> {
    match m.provider {
        Provider::Modrinth => {
            let start = "\n[update.modrinth]\n"@ + toml_line("mod-id"@, m.project_id);
            match m.file_id {
                Some(id) => start + toml_line("version"@, id),
                None => start,
            }
        },
        Provider::Curseforge => {
            let start = "\n[update.curseforge]\n"@ + bare_line("project-id"@, m.project_id);
            match m.file_id {
                Some(id) => start + bare_line("file-id"@, id),
                None => start,
            }
        },
        _ => Seq::empty(),
    }
}

/// The metafile of a mod.
pub open spec fn metafile_of(m: LockedModView) -> Seq<char> {
    metafile_head(m) + metafile_download(m) + metafile_update(m)
}

fn head_toml(m: &LockedMod) -> (r: String)
    ensures
        r@ == metafile_head(m@),
{
    let mut out = String::new();
    put_line(&mut out, "name", m.name.as_str());
    put_line(&mut out, "filename", m.filename.as_str());
    assert(out@ =~= toml_line("name"@, m@.name) + toml_line("filename"@, m@.filename));
    put_line(&mut out, "side", m.side.packwiz_token());
    out
}

fn download_toml(m: &LockedMod) -> (r: String)
    ensures
        r@ == metafile_download(m@),
{
    let mut out = "\n[download]\n".to_owned();
    match &m.download.url {
        Some(url) => {
            put_line(&mut out, "url", url.as_str());
        },
        None => {},
    }
    put_line(&mut out, "hash-format", m.download.hash_format.as_str());
    put_line(&mut out, "hash", m.download.hash.as_str());
    if m.download.mode == DownloadMode::MetadataCurseforge {
        put_line(&mut out, "mode", "metadata:curseforge");
    }
    out
}

fn update_toml(m: &LockedMod) -> (r: String)
    ensures
        r@ == metafile_update(m@),
{
    // Update block: legacy packwiz key names (`mod-id`, `version`) are the interop contract.
    match m.provider {
        Provider::Modrinth => {
            let mut out = "\n[update.modrinth]\n".to_owned();
            put_line(&mut out, "mod-id", m.project_id.as_str());
            match &m.file_id {
                Some(id) => {
                    put_line(&mut out, "version", id.as_str());
                },
                None => {},
            }
            out
        },
        Provider::Curseforge => {
            let mut out = "\n[update.curseforge]\n".to_owned();
            put_bare(&mut out, "project-id", m.project_id.as_str());
            match &m.file_id {
                Some(id) => {
                    put_bare(&mut out, "file-id", id.as_str());
                },
                None => {},
            }
            out
        },
        _ => {
            let out = String::new();
            assert(out@ =~= Seq::<char>::empty());
            out
        },
    }
}

/// The metafile of a locked mod.
pub fn mod_pw_toml(m: &LockedMod) -> (r: String)
    ensures
        r@ == metafile_of(m@),
{
    let mut out = head_toml(m);
    out.append(download_toml(m).as_str());
    out.append(update_toml(m).as_str());
    out
}

/// One row of the index.
pub open spec fn index_row(e: IndexEntryView) -> Seq<char> {
    let row = "\n[[files]]\n"@ + toml_line("file"@, e.file) + toml_line("hash"@, e.hash);
    if e.metafile {
        row + "metafile = true\n"@
    } else {
        row
    }
}

/// The index: its hash format, then one row per entry.
pub open spec fn index_of(entries: Seq<IndexEntryView>) -> Seq<char>
    decreases entries.len(),
{
    if entries.len() == 0 {
        "hash-format = \"sha256\"\n"@
    } else {
        index_of(entries.drop_last()) + index_row(entries.last())
    }
}

fn row_toml(entry: &IndexEntry) -> (r: String)
    ensures
        r@ == index_row(entry.deep_view()),
{
    let mut row = "\n[[files]]\n".to_owned();
    put_line(&mut row, "file", entry.file.as_str());
    put_line(&mut row, "hash", entry.hash.as_str());
    if entry.metafile {
        row.append("metafile = true\n");
    }
    row
}

/// The text of `index.toml`.
pub fn index_toml(entries: &Vec<IndexEntry>) -> (r: String)
    ensures
        r@ == index_of(entries.deep_view()),
{
    let ghost all = entries.deep_view();
    let mut out = "hash-format = \"sha256\"\n".to_owned();
    let mut i: usize = 0;
    assert(out@ == index_of(all.take(0)));
    while i < entries.len()
        invariant
            all == entries.deep_view(),
            i <= entries@.len(),
            out@ == index_of(all.take(i as int)),
        decreases entries.len() - i,
    {
        proof {
            assert(all[i as int] == entries@[i as int].deep_view());
            assert(all.take(i + 1).drop_last() =~= all.take(i as int));
            assert(all.take(i + 1).last() == all[i as int]);
        }
        out.append(row_toml(&entries[i]).as_str());
        i = i + 1;
    }
    assert(all.take(i as int) =~= all);
    out
}

/// The text of `pack.toml`: the pack's metadata, the index with its hash, and the versions.
pub open spec fn pack_of(manifest: ManifestView, index_hash: Seq<char>) -> Seq<char> {
    pack_meta(manifest) + pack_index(index_hash) + pack_versions(manifest)
}

pub open spec fn pack_meta(manifest: ManifestView) -> Seq<char> {
    let named = toml_line("name"@, manifest.pack.name) + toml_line("author"@, manifest.pack.author)
        + toml_line("version"@, manifest.pack.version);
    let described = match manifest.pack.description {
        Some(text) => named + toml_line("description"@, text),
        None => named,
    };
    described + toml_line("pack-format"@, PACK_FORMAT@)
}

pub open spec fn pack_index(index_hash: Seq<char>) -> Seq<char> {
    "\n[index]\n"@ + toml_line("file"@, "index.toml"@) + toml_line("hash-format"@, "sha256"@)
        + toml_line("hash"@, index_hash)
}

pub open spec fn pack_versions(manifest: ManifestView) -> Seq<char> {
    "\n[versions]\n"@ + toml_line("minecraft"@, manifest.loader.minecraft) + toml_line(
        loader_word(manifest.loader.name),
        manifest.loader.version,
    )
}

fn meta_toml(manifest: &Manifest) -> (r: String)
    ensures
        r@ == pack_meta(manifest@),
{
    let mut out = String::new();
    put_line(&mut out, "name", manifest.pack.name.as_str());
    assert(out@ =~= toml_line("name"@, manifest@.pack.name));
    put_line(&mut out, "author", manifest.pack.author.as_str());
    put_line(&mut out, "version", manifest.pack.version.as_str());
    match &manifest.pack.description {
        Some(text) => {
            put_line(&mut out, "description", text.as_str());
        },
        None => {},
    }
    put_line(&mut out, "pack-format", PACK_FORMAT);
    out
}

/// The text of `pack.toml`.
pub fn pack_toml(manifest: &Manifest, index_hash: &str) -> (r: String)
    ensures
        r@ == pack_of(manifest@, index_hash@),
{
    let mut out = meta_toml(manifest);
    let mut index = "\n[index]\n".to_owned();
    put_line(&mut index, "file", "index.toml");
    put_line(&mut index, "hash-format", "sha256");
    put_line(&mut index, "hash", index_hash);
    out.append(index.as_str());
    let mut versions = "\n[versions]\n".to_owned();
    put_line(&mut versions, "minecraft", manifest.loader.minecraft.as_str());
    put_line(
        &mut versions,
        manifest.loader.name.packwiz_version_key(),
        manifest.loader.version.as_str(),
    );
    out.append(versions.as_str());
    out
}

// ---- the tree ---------------------------------------------------------------------------------

/// Where the metafile of a mod stands in the tree.
pub open spec fn metafile_path(slug: Seq<char>) -> Seq<char> {
    "mods/"@ + slug + ".pw.toml"@
}

/// Where a local jar stands in the tree.
pub open spec fn jar_path(filename: Seq<char>) -> Seq<char> {
    "mods/"@ + filename
}

/// The number of local mods of a lock.
pub open spec fn local_mods(mods: Seq<LockedModView>) -> nat
    decreases mods.len(),
{
    if mods.len() == 0 {
        0
    } else if mods.last().provider == Provider::Local {
        local_mods(mods.drop_last()) + 1
    } else {
        local_mods(mods.drop_last())
    }
}

/// One metafile per mod that a provider serves, in the order of the lock.
pub open spec fn metafiles_of(mods: Seq<LockedModView>) -> Seq<MetafileView>
    decreases mods.len(),
{
    if mods.len() == 0 {
        Seq::empty()
    } else if mods.last().provider == Provider::Local {
        metafiles_of(mods.drop_last())
    } else {
        metafiles_of(mods.drop_last()).push(
            MetafileView {
                rel: metafile_path(mods.last().slug),
                contents: metafile_of(mods.last()),
            },
        )
    }
}

/// The row for a plain file.
pub open spec fn plain_entry(rel: Seq<char>, bytes: Seq<u8>) -> IndexEntryView {
    IndexEntryView { file: rel, hash: hex_of(sha256_digest(bytes)), metafile: false }
}

/// The row for the metafile of a mod.
pub open spec fn metafile_entry(m: LockedModView) -> IndexEntryView {
    IndexEntryView {
        file: metafile_path(m.slug),
        hash: hex_of(sha256_digest(utf8(metafile_of(m)))),
        metafile: true,
    }
}

/// One row per mod: its metafile, or its jar where it is local. `jars` holds the contents of the
/// local jars in the order of the lock.
pub open spec fn mod_entries(mods: Seq<LockedModView>, jars: Seq<Seq<u8>>) -> Seq<IndexEntryView>
    decreases mods.len(),
{
    if mods.len() == 0 {
        Seq::empty()
    } else {
        let head = mod_entries(mods.drop_last(), jars);
        let m = mods.last();
        if m.provider == Provider::Local {
            head.push(
                plain_entry(jar_path(m.filename), jars[local_mods(mods.drop_last()) as int]),
            )
        } else {
            head.push(metafile_entry(m))
        }
    }
}

/// One row per overlay file.
pub open spec fn overlay_entries(overlays: Seq<ShippedFileView>) -> Seq<IndexEntryView> {
    Seq::new(overlays.len(), |i: int| plain_entry(overlays[i].rel, overlays[i].bytes))
}

/// The rows of the index, in the order of their files.
pub open spec fn index_entries(
    mods: Seq<LockedModView>,
    jars: Seq<Seq<u8>>,
    overlays: Seq<ShippedFileView>,
) -> Seq<IndexEntryView> {
    arranged::<IndexEntry>(mod_entries(mods, jars) + overlay_entries(overlays))
}

/// The distribution tree of a pack.
pub open spec fn tree_of(
    manifest: ManifestView,
    mods: Seq<LockedModView>,
    jars: Seq<Seq<u8>>,
    overlays: Seq<ShippedFileView>,
) -> PackTreeView {
    let index = index_of(index_entries(mods, jars, overlays));
    PackTreeView {
        metafiles: metafiles_of(mods),
        index,
        pack: pack_of(manifest, hex_of(sha256_digest(utf8(index)))),
    }
}

fn metafile_name(slug: &str) -> (r: String)
    ensures
        r@ == metafile_path(slug@),
{
    let mut rel = "mods/".to_owned();
    rel.append(slug);
    rel.append(".pw.toml");
    rel
}

/// Where a local jar stands in the tree.
pub fn jar_name_in_tree(filename: &str) -> (r: String)
    ensures
        r@ == jar_path(filename@),
{
    let mut rel = "mods/".to_owned();
    rel.append(filename);
    rel
}

/// Emit the packwiz distribution tree: `pack.toml`, `index.toml`, and one `mods/<slug>.pw.toml` per
/// locked mod. Local jars are bundled into the pack as raw files; provider mods get a `.pw.toml`.
/// Overlay files (config, scripts, resource packs) ship as plain indexed files, not metafiles.
/// `jars` holds the contents of the local jars in the order of the lock.
pub fn emit(
    manifest: &Manifest,
    lock: &Lock,
    jars: &Vec<Vec<u8>>,
    overlays: &Vec<ShippedFile>,
) -> (r: PackTree)
    requires
        jars@.len() == local_mods(lock@.mods),
    ensures
        r@ == tree_of(manifest@, lock@.mods, jars.deep_view(), overlays.deep_view()),
{
    let ghost mods = lock@.mods;
    let ghost contents = jars.deep_view();
    let mut metafiles: Vec<Metafile> = Vec::new();
    let mut entries: Vec<IndexEntry> = Vec::new();
    let mut used: usize = 0;
    let mut i: usize = 0;
    proof {
        assert(metafiles.deep_view() =~= metafiles_of(mods.take(0)));
        assert(entries.deep_view() =~= mod_entries(mods.take(0), contents));
        assert(mods.take(mods.len() as int) =~= mods);
    }
    while i < lock.mods.len()
        invariant
            mods == lock.mods.deep_view(),
            mods == lock@.mods,
            contents == jars.deep_view(),
            jars@.len() == local_mods(mods),
            i <= lock.mods@.len(),
            used == local_mods(mods.take(i as int)),
            metafiles.deep_view() == metafiles_of(mods.take(i as int)),
            entries.deep_view() == mod_entries(mods.take(i as int), contents),
        decreases lock.mods.len() - i,
    {
        let m = &lock.mods[i];
        proof {
            assert(mods[i as int] == m.deep_view());
            assert(mods.take(i + 1).drop_last() =~= mods.take(i as int));
            assert(mods.take(i + 1).last() == mods[i as int]);
        }
        let ghost rows = entries.deep_view();
        let ghost files = metafiles.deep_view();
        if m.provider == Provider::Local {
            proof {
                local_mods_grow(mods, i + 1);
            }
            assert(used < jars.len());
            assert(contents[used as int] == jars@[used as int].deep_view());
            assert(jars@[used as int].deep_view() =~= jars@[used as int]@);
            let entry = IndexEntry {
                hash: sha256_hex(jars[used].as_slice()),
                file: jar_name_in_tree(m.filename.as_str()),
                metafile: false,
            };
            let ghost row = entry.deep_view();
            entries.push(entry);
            assert(entries.deep_view() =~= rows.push(row));
            used = used + 1;
        } else {
            let text = mod_pw_toml(m);
            let entry = IndexEntry {
                hash: sha256_hex(text.as_str().as_bytes()),
                file: metafile_name(m.slug.as_str()),
                metafile: true,
            };
            let ghost row = entry.deep_view();
            entries.push(entry);
            assert(entries.deep_view() =~= rows.push(row));
            let file = Metafile { rel: metafile_name(m.slug.as_str()), contents: text };
            let ghost added = file.deep_view();
            metafiles.push(file);
            assert(metafiles.deep_view() =~= files.push(added));
        }
        i = i + 1;
    }
    let ghost shipped = overlays.deep_view();
    let ghost of_mods = mod_entries(mods, contents);
    let mut k: usize = 0;
    assert(entries.deep_view() =~= of_mods + overlay_entries(shipped).take(0));
    while k < overlays.len()
        invariant
            shipped == overlays.deep_view(),
            k <= overlays@.len(),
            entries.deep_view() == of_mods + overlay_entries(shipped).take(k as int),
        decreases overlays.len() - k,
    {
        assert(shipped[k as int] == overlays@[k as int].deep_view());
        let ghost rows = entries.deep_view();
        let entry = IndexEntry {
            hash: sha256_hex(overlays[k].bytes.as_slice()),
            file: overlays[k].rel.clone(),
            metafile: false,
        };
        let ghost row = entry.deep_view();
        entries.push(entry);
        k = k + 1;
        proof {
            assert(entries.deep_view() =~= rows.push(row));
            assert(row == overlay_entries(shipped)[k - 1]);
            assert(rows.push(row) =~= of_mods + overlay_entries(shipped).take(k as int));
        }
    }
    assert(overlay_entries(shipped).take(k as int) =~= overlay_entries(shipped));
    let sorted = arrange(entries);
    let index = index_toml(&sorted);
    let index_hash = sha256_hex(index.as_str().as_bytes());
    let pack = pack_toml(manifest, index_hash.as_str());
    PackTree { metafiles, index, pack }
}

proof fn local_mods_grow(mods: Seq<LockedModView>, n: int)
    requires
        0 <= n <= mods.len(),
    ensures
        local_mods(mods.take(n)) <= local_mods(mods),
    decreases mods.len() - n,
{
    if n < mods.len() {
        local_mods_grow(mods, n + 1);
        assert(mods.take(n + 1).drop_last() =~= mods.take(n));
    } else {
        assert(mods.take(n) =~= mods);
    }
}

// ---- laws -------------------------------------------------------------------------------------

/// The order of index rows is strict.
pub proof fn index_order_is_strict()
    ensures
        strict_order::<IndexEntry>(),
{
    text_order_is_strict();
}

/// The index lists every mod that a provider serves with the hash of its metafile, every local mod with
/// the hash of its jar, and every overlay file with the hash of its contents.
pub proof fn index_lists_every_file(
    mods: Seq<LockedModView>,
    jars: Seq<Seq<u8>>,
    overlays: Seq<ShippedFileView>,
    i: int,
)
    ensures
        0 <= i < mods.len() && mods[i].provider != Provider::Local ==> index_entries(
            mods,
            jars,
            overlays,
        ).contains(metafile_entry(mods[i])),
        0 <= i < mods.len() && mods[i].provider == Provider::Local ==> index_entries(
            mods,
            jars,
            overlays,
        ).contains(plain_entry(jar_path(mods[i].filename), jars[local_mods(mods.take(i)) as int])),
        0 <= i < overlays.len() ==> index_entries(mods, jars, overlays).contains(
            plain_entry(overlays[i].rel, overlays[i].bytes),
        ),
{
    let rows = mod_entries(mods, jars) + overlay_entries(overlays);
    arranging_permutes::<IndexEntry>(rows);
    same_members(rows, index_entries(mods, jars, overlays));
    one_row_per_mod(mods, jars);
    if 0 <= i < mods.len() && mods[i].provider != Provider::Local {
        assert(rows[i] == metafile_entry(mods[i]));
        assert(rows.contains(rows[i]));
    }
    if 0 <= i < mods.len() && mods[i].provider == Provider::Local {
        assert(rows[i] == mod_entries(mods, jars)[i]);
        assert(rows.contains(rows[i]));
    }
    if 0 <= i < overlays.len() {
        let k = mod_entries(mods, jars).len() + i;
        assert(rows[k] == plain_entry(overlays[i].rel, overlays[i].bytes));
        assert(rows.contains(rows[k]));
    }
}

proof fn one_row_per_mod(mods: Seq<LockedModView>, jars: Seq<Seq<u8>>)
    ensures
        mod_entries(mods, jars).len() == mods.len(),
        forall|i: int|
            0 <= i < mods.len() && (#[trigger] mods[i]).provider != Provider::Local ==> mod_entries(
                mods,
                jars,
            )[i] == metafile_entry(mods[i]),
        forall|i: int|
            0 <= i < mods.len() && (#[trigger] mods[i]).provider == Provider::Local ==> mod_entries(
                mods,
                jars,
            )[i] == plain_entry(
                jar_path(mods[i].filename),
                jars[local_mods(mods.take(i)) as int],
            ),
    decreases mods.len(),
{
    if mods.len() > 0 {
        let head = mods.drop_last();
        one_row_per_mod(head, jars);
        assert forall|i: int|
            0 <= i < mods.len() && (#[trigger] mods[i]).provider != Provider::Local implies mod_entries(
            mods,
            jars,
        )[i] == metafile_entry(mods[i]) by {
            if i < head.len() {
                assert(head[i] == mods[i]);
            }
        }
        assert forall|i: int|
            0 <= i < mods.len() && (#[trigger] mods[i]).provider == Provider::Local implies mod_entries(
            mods,
            jars,
        )[i] == plain_entry(
            jar_path(mods[i].filename),
            jars[local_mods(mods.take(i)) as int],
        ) by {
            if i < head.len() {
                assert(head[i] == mods[i]);
                assert(head.take(i) =~= mods.take(i));
            } else {
                assert(mods.take(i) =~= head);
            }
        }
    }
}

/// `pack.toml` refers to the index that is written beside it, by its hash.
pub proof fn pack_refers_to_the_index(
    manifest: ManifestView,
    mods: Seq<LockedModView>,
    jars: Seq<Seq<u8>>,
    overlays: Seq<ShippedFileView>,
)
    ensures
        tree_of(manifest, mods, jars, overlays).pack == pack_meta(manifest) + pack_index(
            hex_of(sha256_digest(utf8(tree_of(manifest, mods, jars, overlays).index))),
        ) + pack_versions(manifest),
{
}

/// What a quoted text stands for: each backslash stands for the character behind it.
pub open spec fn unescaped(s: Seq<char>) -> Seq<char>
    decreases s.len(),
{
    if s.len() == 0 {
        s
    } else if s[0] == '\\' && s.len() > 1 {
        seq![s[1]] + unescaped(s.skip(2))
    } else {
        seq![s[0]] + unescaped(s.skip(1))
    }
}

/// The escaped form of one character.
pub open spec fn escaped_char(c: char) -> Seq<char> {
    if c == '\\' || c == '"' {
        seq!['\\', c]
    } else {
        seq![c]
    }
}

/// The text between the quotation marks.
pub open spec fn escaped(value: Seq<char>) -> Seq<char> {
    replaced(replaced(value, '\\', "\\\\"@), '"', "\\\""@)
}

/// Quoting loses nothing: what stands between the quotation marks reads back as the text.
pub proof fn quoting_loses_nothing(value: Seq<char>)
    ensures
        quoted(value) == "\""@ + escaped(value) + "\""@,
        unescaped(escaped(value)) == value,
{
    escaping_by_char(value);
    unescaping(value);
}

/// The escaped text, character by character.
pub open spec fn escaped_chars(value: Seq<char>) -> Seq<char>
    decreases value.len(),
{
    if value.len() == 0 {
        value
    } else {
        escaped_chars(value.drop_last()) + escaped_char(value.last())
    }
}

proof fn escaping_by_char(value: Seq<char>)
    ensures
        escaped(value) == escaped_chars(value),
    decreases value.len(),
{
    reveal_strlit("\\\\");
    reveal_strlit("\\\"");
    if value.len() > 0 {
        let head = value.drop_last();
        let c = value.last();
        escaping_by_char(head);
        let once = replaced(head, '\\', "\\\\"@);
        if c == '\\' {
            assert("\\\\"@ =~= seq!['\\', '\\']);
            let twice = once.push('\\').push('\\');
            assert(replaced(value, '\\', "\\\\"@) =~= twice);
            assert(twice.drop_last() =~= once.push('\\'));
            assert(once.push('\\').drop_last() =~= once);
            assert(replaced(once.push('\\'), '"', "\\\""@) == escaped(head).push('\\'));
            assert(escaped(value) =~= escaped(head) + escaped_char(c));
        } else if c == '"' {
            assert("\\\""@ =~= seq!['\\', '"']);
            assert(once.push(c).drop_last() =~= once);
            assert(escaped(value) =~= escaped(head) + escaped_char(c));
        } else {
            assert(once.push(c).drop_last() =~= once);
            assert(escaped(value) =~= escaped(head) + escaped_char(c));
        }
    } else {
        assert(escaped(value) =~= value);
    }
}

/// The escaped text from the front: the first character, then the rest.
proof fn escaped_from_the_front(value: Seq<char>)
    requires
        value.len() > 0,
    ensures
        escaped_chars(value) == escaped_char(value[0]) + escaped_chars(value.skip(1)),
    decreases value.len(),
{
    let head = value.drop_last();
    if head.len() == 0 {
        assert(value.skip(1) =~= Seq::<char>::empty());
        assert(escaped_chars(head) =~= Seq::<char>::empty());
        assert(escaped_chars(value) =~= escaped_char(value[0]));
        assert(escaped_char(value[0]) + Seq::<char>::empty() =~= escaped_char(value[0]));
    } else {
        escaped_from_the_front(head);
        assert(head.skip(1) =~= value.skip(1).drop_last());
        assert(value.skip(1).last() == value.last());
        assert(escaped_chars(value) =~= escaped_char(value[0]) + (escaped_chars(head.skip(1))
            + escaped_char(value.last())));
    }
}

proof fn unescaping(value: Seq<char>)
    ensures
        unescaped(escaped_chars(value)) == value,
    decreases value.len(),
{
    if value.len() > 0 {
        let rest = value.skip(1);
        escaped_from_the_front(value);
        unescaping(rest);
        let s = escaped_chars(value);
        let c = value[0];
        if c == '\\' || c == '"' {
            assert(s[0] == '\\' && s[1] == c);
            assert(s.skip(2) =~= escaped_chars(rest));
        } else {
            assert(s[0] == c);
            assert(s.skip(1) =~= escaped_chars(rest));
        }
        assert(seq![c] + rest =~= value);
    }
}

/// Quoting breaks no line: a text without a line break has none when it is quoted.
pub proof fn quoted_text_stays_on_its_line(value: Seq<char>)
    requires
        !value.contains('\n'),
    ensures
        !quoted(value).contains('\n'),
{
    reveal_strlit("\"");
    quoting_loses_nothing(value);
    escaping_by_char(value);
    escaping_adds_no_line(value);
    let inner = escaped(value);
    let q = quoted(value);
    assert forall|i: int| 0 <= i < q.len() implies q[i] != '\n' by {
        if 0 < i < q.len() - 1 {
            assert(q[i] == inner[i - 1]);
            assert(inner.contains(inner[i - 1]));
        }
    }
}

proof fn escaping_adds_no_line(value: Seq<char>)
    requires
        !value.contains('\n'),
    ensures
        !escaped_chars(value).contains('\n'),
    decreases value.len(),
{
    if value.len() > 0 {
        let head = value.drop_last();
        assert forall|i: int| 0 <= i < head.len() implies head[i] != '\n' by {
            assert(value.contains(value[i]));
        }
        escaping_adds_no_line(head);
        let before = escaped_chars(head);
        let all = escaped_chars(value);
        assert(value.contains(value[value.len() - 1]));
        assert forall|i: int| 0 <= i < all.len() implies all[i] != '\n' by {
            if i < before.len() {
                assert(before.contains(before[i]));
            }
        }
    }
}

/// A mod that a provider serves.
pub open spec fn is_served_mod(m: LockedModView) -> bool {
    m.provider != Provider::Local
}

/// Every mod that a provider serves has one metafile, in the order of the lock, named after its slug;
/// local mods have none.
pub proof fn served_mods_have_metafiles(mods: Seq<LockedModView>, k: int)
    ensures
        ({
            let served = mods.filter(|m: LockedModView| is_served_mod(m));
            let files = metafiles_of(mods);
            &&& files.len() == served.len()
            &&& 0 <= k < served.len() ==> files[k].rel == "mods/"@ + served[k].slug + ".pw.toml"@
                && files[k].contents == metafile_of(served[k])
        }),
    decreases mods.len(),
{
    reveal(Seq::filter);
    if mods.len() > 0 {
        served_mods_have_metafiles(mods.drop_last(), k);
    }
}

/// The index is sorted by file and has one row per mod and overlay. Each row is the metafile of a served
/// mod with the digest of its text, or the jar of a local mod or an overlay with the digest of its bytes.
pub proof fn the_index_lists_nothing_else(
    mods: Seq<LockedModView>,
    jars: Seq<Seq<u8>>,
    overlays: Seq<ShippedFileView>,
    k: int,
)
    ensures
        ({
            let rows = index_entries(mods, jars, overlays);
            &&& rows.len() == mods.len() + overlays.len()
            &&& forall|a: int, b: int|
                0 <= a < b < rows.len() ==> !before(
                    (#[trigger] rows[b]).file,
                    (#[trigger] rows[a]).file,
                )
            &&& 0 <= k < rows.len() ==> {
                ||| exists|i: int| 0 <= i < mods.len() && is_row_of(rows[k], #[trigger] mods[i])
                ||| exists|i: int|
                    0 <= i < mods.len() && is_row_of_jar(
                        rows[k],
                        #[trigger] mods[i],
                        jars[local_mods(mods.take(i)) as int],
                    )
                ||| exists|i: int|
                    0 <= i < overlays.len() && rows[k].file == (#[trigger] overlays[i]).rel
                        && rows[k].hash == hex_of(sha256_digest(overlays[i].bytes))
                        && !rows[k].metafile
            }
        }),
{
    let listed = mod_entries(mods, jars) + overlay_entries(overlays);
    let rows = index_entries(mods, jars, overlays);
    index_order_is_strict();
    arranging_orders::<IndexEntry>(listed);
    arranging_permutes::<IndexEntry>(listed);
    same_members(rows, listed);
    one_row_per_mod(mods, jars);
    assert forall|a: int, b: int| 0 <= a < b < rows.len() implies !before(
        (#[trigger] rows[b]).file,
        (#[trigger] rows[a]).file,
    ) by {
        assert(!IndexEntry::ranks_before(rows[b], rows[a]));
    }
    if 0 <= k < rows.len() {
        assert(rows.contains(rows[k]));
        let i = choose|i: int| 0 <= i < listed.len() && listed[i] == rows[k];
        if i < mods.len() {
            assert(listed[i] == mod_entries(mods, jars)[i]);
            if mods[i].provider == Provider::Local {
                assert(is_row_of_jar(rows[k], mods[i], jars[local_mods(mods.take(i)) as int]));
            } else {
                assert(is_row_of(rows[k], mods[i]));
            }
        } else {
            let j = i - mods.len();
            assert(listed[i] == overlay_entries(overlays)[j]);
            assert(rows[k].file == overlays[j].rel);
        }
    }
}

/// The row of a served mod: its metafile, marked as one, with the digest of the metafile's text.
pub open spec fn is_row_of(row: IndexEntryView, m: LockedModView) -> bool {
    &&& m.provider != Provider::Local
    &&& row.file == "mods/"@ + m.slug + ".pw.toml"@
    &&& row.hash == hex_of(sha256_digest(utf8(metafile_of(m))))
    &&& row.metafile
}

/// The row of a local mod: its jar, with the digest of the jar's bytes.
pub open spec fn is_row_of_jar(row: IndexEntryView, m: LockedModView, jar: Seq<u8>) -> bool {
    &&& m.provider == Provider::Local
    &&& row.file == "mods/"@ + m.filename
    &&& row.hash == hex_of(sha256_digest(jar))
    &&& !row.metafile
}

/// The index is made of its rows in order, behind the format of their hashes.
pub proof fn the_index_is_made_of_its_rows(
    entries: Seq<IndexEntryView>,
    more: Seq<IndexEntryView>,
    e: IndexEntryView,
)
    ensures
        index_of(Seq::empty()) == "hash-format = \"sha256\"\n"@,
        index_of(entries.push(e)) == index_of(entries) + index_row(e),
        index_of(entries).is_prefix_of(index_of(entries + more)),
    decreases more.len(),
{
    assert(entries.push(e).drop_last() =~= entries);
    let all = index_of(entries + more);
    if more.len() == 0 {
        assert(entries + more =~= entries);
        assert(all.subrange(0, all.len() as int) =~= all);
    } else {
        the_index_is_made_of_its_rows(entries, more.drop_last(), e);
        assert((entries + more).drop_last() =~= entries + more.drop_last());
        let n = index_of(entries).len() as int;
        let shorter = index_of(entries + more.drop_last());
        assert(all.subrange(0, n) =~= shorter.subrange(0, n));
    }
}

/// `pack.toml` names the index by the digest of the very text that is written as the index.
pub proof fn the_pack_names_its_index(
    manifest: ManifestView,
    mods: Seq<LockedModView>,
    jars: Seq<Seq<u8>>,
    overlays: Seq<ShippedFileView>,
)
    ensures
        ({
            let tree = tree_of(manifest, mods, jars, overlays);
            &&& tree.metafiles == metafiles_of(mods)
            &&& tree.index == index_of(index_entries(mods, jars, overlays))
            &&& tree.pack == pack_of(manifest, hex_of(sha256_digest(utf8(tree.index))))
        }),
{
}

} // verus!
