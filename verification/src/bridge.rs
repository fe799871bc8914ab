//! The packwiz bridge: what an export writes of a mod, an import reads as that mod again.
//!
//! Reading a metafile is stated here line by line, as far as an export uses TOML: headers of tables,
//! and keys with a quoted text or an integer.
use vstd::prelude::*;

use crate::commands::import::{
    exported_sides_read_back, record_of, slug_in, ImportFault, PwIdView, PwModView, PwRecordView,
};
use crate::loader::{loader_word, loader_words_differ, Loader};
use crate::lock::LockedModView;
use crate::manifest::ManifestView;
use crate::packwiz::{
    bare_line, escaped, index_row, metafile_download, metafile_head, metafile_of, metafile_path,
    metafile_update, pack_index, pack_meta, pack_of, pack_versions, quoted,
    quoted_text_stays_on_its_line, quoting_loses_nothing, toml_line, unescaped, IndexEntryView,
    PACK_FORMAT,
};
use crate::provider::{DownloadMode, Provider};
use crate::side::packwiz_side;
use crate::text::{
    decimal, decimal_reads_back, is_digit, signed_decimal, split, split_at_separator,
};

verus! {

// ---- reading ----------------------------------------------------------------------------------

/// What stands behind `KEY = ` on a line.
pub open spec fn value_on(line: Seq<char>, key: Seq<char>) -> Option<Seq<char>> {
    if (key + " = "@).is_prefix_of(line) {
        Some(line.skip((key + " = "@).len() as int))
    } else {
        None
    }
}

/// What the lines give for a key of a table, where `current` is the table that the first line stands
/// in. A line that starts with a bracket is the header of a table; above the first one, the table
/// has no name.
pub open spec fn value_in(
    lines: Seq<Seq<char>>,
    current: Seq<char>,
    table: Seq<char>,
    key: Seq<char>,
) -> Option<Seq<char>>
    decreases lines.len(),
{
    if lines.len() == 0 {
        None
    } else if lines[0].len() > 0 && lines[0][0] == '[' {
        value_in(lines.drop_first(), lines[0], table, key)
    } else if current == table && value_on(lines[0], key) is Some {
        value_on(lines[0], key)
    } else {
        value_in(lines.drop_first(), current, table, key)
    }
}

/// The text that a quoted value stands for.
pub open spec fn text_of(value: Seq<char>) -> Option<Seq<char>> {
    if value.len() >= 2 && value[0] == '"' && value.last() == '"' {
        Some(unescaped(value.subrange(1, value.len() - 1)))
    } else {
        None
    }
}

/// The id that a value stands for.
pub open spec fn id_of(value: Seq<char>) -> PwIdView {
    match text_of(value) {
        Some(text) => PwIdView::Text(text),
        None => if exists|i: i64| signed_decimal(i as int) == value {
            PwIdView::Integer(choose|i: i64| signed_decimal(i as int) == value)
        } else {
            PwIdView::Other
        },
    }
}

/// The text of a key of a table.
pub open spec fn text_in(lines: Seq<Seq<char>>, table: Seq<char>, key: Seq<char>) -> Option<
    Seq<char>,
> {
    match value_in(lines, Seq::empty(), table, key) {
        Some(value) => text_of(value),
        None => None,
    }
}

/// The metafile that a text holds, where it has all the fields that every metafile has.
pub open spec fn metafile_in(text: Seq<char>) -> Option<PwModView> {
    let lines = split(text, '\n');
    let top = Seq::<char>::empty();
    match (
        text_in(lines, top, "name"@),
        text_in(lines, top, "filename"@),
        text_in(lines, "[download]"@, "hash-format"@),
        text_in(lines, "[download]"@, "hash"@),
    ) {
        (Some(name), Some(filename), Some(hash_format), Some(hash)) => Some(
            PwModView {
                name,
                filename,
                side: text_in(lines, top, "side"@),
                url: text_in(lines, "[download]"@, "url"@),
                hash_format,
                hash,
                modrinth: match (
                    text_in(lines, "[update.modrinth]"@, "mod-id"@),
                    text_in(lines, "[update.modrinth]"@, "version"@),
                ) {
                    (Some(mod_id), Some(version)) => Some((mod_id, version)),
                    _ => None,
                },
                curseforge: match (
                    value_in(lines, top, "[update.curseforge]"@, "project-id"@),
                    value_in(lines, top, "[update.curseforge]"@, "file-id"@),
                ) {
                    (Some(project), Some(file)) => Some((id_of(project), id_of(file))),
                    _ => None,
                },
            },
        ),
        _ => None,
    }
}

// ---- laws -------------------------------------------------------------------------------------

/// A text without a line break.
pub open spec fn one_line(s: Seq<char>) -> bool {
    !s.contains('\n')
}

/// No field of a mod that an export writes holds a line break.
pub open spec fn fits_on_lines(m: LockedModView) -> bool {
    &&& one_line(m.name)
    &&& one_line(m.filename)
    &&& one_line(m.download.hash_format)
    &&& one_line(m.download.hash)
    &&& one_line(m.project_id)
    &&& m.download.url matches Some(url) ==> one_line(url)
    &&& m.file_id matches Some(id) ==> one_line(id)
}

/// What an export writes of a Modrinth mod, an import reads as that mod again: its names, its ids,
/// its side, and the file with its URL and hash.
pub proof fn an_exported_modrinth_mod_reads_back(m: LockedModView)
    requires
        m.provider == Provider::Modrinth,
        m.file_id is Some,
        fits_on_lines(m),
    ensures
        metafile_in(metafile_of(m)) matches Some(pw) && record_of(m.slug, pw) == Ok::<
            PwRecordView,
            ImportFault,
        >(
            PwRecordView {
                slug: m.slug,
                name: m.name,
                provider: Provider::Modrinth,
                project_id: m.project_id,
                file_id: m.file_id->0,
                filename: m.filename,
                url: m.download.url,
                hash_format: m.download.hash_format,
                hash: m.download.hash,
                mode: DownloadMode::Url,
                side: m.side,
            },
        ),
{
    common_fields_read_back(m, modrinth_header());
    update_keys();
    headers_differ();
    let update = update_entries(m);
    reading_back(m, modrinth_header(), "mod-id"@);
    reading_back(m, modrinth_header(), "version"@);
    assert(update =~= seq![
        ("mod-id"@, quoted(m.project_id)),
        ("version"@, quoted(m.file_id->0)),
    ]);
    reveal_with_fuel(entry_for, 3);
    assert(update.drop_first()[0] == ("version"@, quoted(m.file_id->0)));
    quoted_text_reads_back(m.project_id);
    quoted_text_reads_back(m.file_id->0);
    exported_sides_read_back(m.side);
}

/// What an export writes of a CurseForge mod, an import reads as that mod again: its names, its
/// numeric ids, its side and its hash, without a URL.
pub proof fn an_exported_curseforge_mod_reads_back(m: LockedModView, project: i64, file: i64)
    requires
        m.provider == Provider::Curseforge,
        m.project_id == signed_decimal(project as int),
        m.file_id == Some(signed_decimal(file as int)),
        fits_on_lines(m),
    ensures
        metafile_in(metafile_of(m)) matches Some(pw) && record_of(m.slug, pw) == Ok::<
            PwRecordView,
            ImportFault,
        >(
            PwRecordView {
                slug: m.slug,
                name: m.name,
                provider: Provider::Curseforge,
                project_id: m.project_id,
                file_id: m.file_id->0,
                filename: m.filename,
                url: None,
                hash_format: m.download.hash_format,
                hash: m.download.hash,
                mode: DownloadMode::MetadataCurseforge,
                side: m.side,
            },
        ),
{
    common_fields_read_back(m, curseforge_header());
    update_keys();
    headers_differ();
    let update = update_entries(m);
    reading_back(m, curseforge_header(), "project-id"@);
    reading_back(m, curseforge_header(), "file-id"@);
    reading_nothing(m, curseforge_header(), modrinth_header(), "mod-id"@);
    assert(update =~= seq![("project-id"@, m.project_id), ("file-id"@, m.file_id->0)]);
    reveal_with_fuel(entry_for, 3);
    assert(update.drop_first()[0] == ("file-id"@, m.file_id->0));
    numbers_are_no_texts(project);
    numbers_are_no_texts(file);
    exported_sides_read_back(m.side);
}

/// An export names the metafile of a mod so that an import finds its slug again.
pub proof fn a_metafile_is_named_after_its_slug(slug: Seq<char>)
    ensures
        metafile_path(slug) == "mods/"@ + (slug + ".pw.toml"@),
        slug_in(slug + ".pw.toml"@) == Some(slug),
{
    let name = slug + ".pw.toml"@;
    assert("mods/"@ + name =~= metafile_path(slug));
    assert(name.subrange(name.len() - ".pw.toml"@.len(), name.len() as int) =~= ".pw.toml"@);
    assert(name.take(name.len() - ".pw.toml"@.len()) =~= slug);
}

// ---- the lines of a metafile ------------------------------------------------------------------

spec fn modrinth_header() -> Seq<char> {
    "[update.modrinth]"@
}

spec fn curseforge_header() -> Seq<char> {
    "[update.curseforge]"@
}

/// A key and its value on a line.
spec fn entry_line(e: (Seq<char>, Seq<char>)) -> Seq<char> {
    e.0 + " = "@ + e.1
}

spec fn entry_lines(entries: Seq<(Seq<char>, Seq<char>)>) -> Seq<Seq<char>> {
    entries.map_values(|e: (Seq<char>, Seq<char>)| entry_line(e))
}

/// The value of the first entry with the key.
spec fn entry_for(entries: Seq<(Seq<char>, Seq<char>)>, key: Seq<char>) -> Option<Seq<char>>
    decreases entries.len(),
{
    if entries.len() == 0 {
        None
    } else if entries[0].0 == key {
        Some(entries[0].1)
    } else {
        entry_for(entries.drop_first(), key)
    }
}

spec fn top_entries(m: LockedModView) -> Seq<(Seq<char>, Seq<char>)> {
    seq![
        ("name"@, quoted(m.name)),
        ("filename"@, quoted(m.filename)),
        ("side"@, quoted(packwiz_side(m.side))),
    ]
}

spec fn url_entries(m: LockedModView) -> Seq<(Seq<char>, Seq<char>)> {
    match m.download.url {
        Some(url) => seq![("url"@, quoted(url))],
        None => Seq::empty(),
    }
}

spec fn mode_entries(m: LockedModView) -> Seq<(Seq<char>, Seq<char>)> {
    if m.download.mode == DownloadMode::MetadataCurseforge {
        seq![("mode"@, quoted("metadata:curseforge"@))]
    } else {
        Seq::empty()
    }
}

spec fn download_entries(m: LockedModView) -> Seq<(Seq<char>, Seq<char>)> {
    url_entries(m) + seq![
        ("hash-format"@, quoted(m.download.hash_format)),
        ("hash"@, quoted(m.download.hash)),
    ] + mode_entries(m)
}

spec fn update_entries(m: LockedModView) -> Seq<(Seq<char>, Seq<char>)> {
    match (m.provider, m.file_id) {
        (Provider::Modrinth, Some(id)) => seq![
            ("mod-id"@, quoted(m.project_id)),
            ("version"@, quoted(id)),
        ],
        (Provider::Curseforge, Some(id)) => seq![("project-id"@, m.project_id), ("file-id"@, id)],
        _ => Seq::empty(),
    }
}

/// The lines of a metafile with the given header of its update table.
spec fn metafile_lines(m: LockedModView, header: Seq<char>) -> Seq<Seq<char>> {
    entry_lines(top_entries(m)) + seq![Seq::empty(), "[download]"@] + entry_lines(
        download_entries(m),
    ) + seq![Seq::empty(), header] + entry_lines(update_entries(m))
}

/// The lines as one text, each with its line break.
spec fn text_of_lines(lines: Seq<Seq<char>>) -> Seq<char>
    decreases lines.len(),
{
    if lines.len() == 0 {
        Seq::empty()
    } else {
        lines[0].push('\n') + text_of_lines(lines.drop_first())
    }
}

proof fn lines_add_up(a: Seq<Seq<char>>, b: Seq<Seq<char>>)
    ensures
        text_of_lines(a + b) == text_of_lines(a) + text_of_lines(b),
    decreases a.len(),
{
    if a.len() == 0 {
        assert(a + b =~= b);
        assert(text_of_lines(a) + text_of_lines(b) =~= text_of_lines(b));
    } else {
        lines_add_up(a.drop_first(), b);
        assert((a + b).drop_first() =~= a.drop_first() + b);
        assert(text_of_lines(a + b) =~= text_of_lines(a) + text_of_lines(b));
    }
}

/// Splitting the text of lines gives the lines, and an empty one behind the last line break.
proof fn lines_read_back(lines: Seq<Seq<char>>)
    requires
        forall|i: int| 0 <= i < lines.len() ==> one_line(#[trigger] lines[i]),
    ensures
        split(text_of_lines(lines), '\n') == lines.push(Seq::empty()),
    decreases lines.len(),
{
    if lines.len() == 0 {
        assert(lines.push(Seq::empty()) =~= seq![Seq::<char>::empty()]);
    } else {
        let rest = lines.drop_first();
        assert forall|i: int| 0 <= i < rest.len() implies one_line(#[trigger] rest[i]) by {
            assert(rest[i] == lines[i + 1]);
        }
        lines_read_back(rest);
        split_at_separator(lines[0], '\n', text_of_lines(rest));
        assert(seq![lines[0]] + rest.push(Seq::empty()) =~= lines.push(Seq::empty()));
    }
}

/// The text of a line with a key and a quoted value.
proof fn line_text(key: Seq<char>, value: Seq<char>)
    ensures
        text_of_lines(entry_lines(seq![(key, quoted(value))])) == toml_line(key, value),
        text_of_lines(entry_lines(seq![(key, value)])) == bare_line(key, value),
{
    reveal_strlit("\n");
    reveal_with_fuel(text_of_lines, 2);
    let a = entry_lines(seq![(key, quoted(value))]);
    let b = entry_lines(seq![(key, value)]);
    assert(a =~= seq![key + " = "@ + quoted(value)]);
    assert(b =~= seq![key + " = "@ + value]);
    assert(a.drop_first() =~= Seq::<Seq<char>>::empty());
    assert(b.drop_first() =~= Seq::<Seq<char>>::empty());
    assert(text_of_lines(a) =~= toml_line(key, value));
    assert(text_of_lines(b) =~= bare_line(key, value));
}

proof fn entries_add_up(a: Seq<(Seq<char>, Seq<char>)>, b: Seq<(Seq<char>, Seq<char>)>)
    ensures
        text_of_lines(entry_lines(a + b)) == text_of_lines(entry_lines(a)) + text_of_lines(
            entry_lines(b),
        ),
{
    assert(entry_lines(a + b) =~= entry_lines(a) + entry_lines(b));
    lines_add_up(entry_lines(a), entry_lines(b));
}

proof fn head_text(m: LockedModView)
    ensures
        text_of_lines(entry_lines(top_entries(m))) == metafile_head(m),
{
    let a = seq![("name"@, quoted(m.name))];
    let b = seq![("filename"@, quoted(m.filename))];
    let c = seq![("side"@, quoted(packwiz_side(m.side)))];
    assert(top_entries(m) =~= a + b + c);
    entries_add_up(a + b, c);
    entries_add_up(a, b);
    line_text("name"@, m.name);
    line_text("filename"@, m.filename);
    line_text("side"@, packwiz_side(m.side));
}

/// The text of a header behind an empty line.
proof fn header_text(header: Seq<char>)
    ensures
        text_of_lines(seq![Seq::empty(), header]) == seq!['\n'] + header + seq!['\n'],
{
    reveal_with_fuel(text_of_lines, 3);
    let lines = seq![Seq::empty(), header];
    assert(lines.drop_first() =~= seq![header]);
    assert(lines.drop_first().drop_first() =~= Seq::<Seq<char>>::empty());
    assert(text_of_lines(lines) =~= seq!['\n'] + header + seq!['\n']);
}

proof fn download_text(m: LockedModView)
    ensures
        text_of_lines(seq![Seq::empty(), "[download]"@]) + text_of_lines(
            entry_lines(download_entries(m)),
        ) == metafile_download(m),
{
    reveal_strlit("\n[download]\n");
    reveal_strlit("[download]");
    let hashes = seq![
        ("hash-format"@, quoted(m.download.hash_format)),
        ("hash"@, quoted(m.download.hash)),
    ];
    let a = seq![("hash-format"@, quoted(m.download.hash_format))];
    let b = seq![("hash"@, quoted(m.download.hash))];
    assert(hashes =~= a + b);
    entries_add_up(a, b);
    entries_add_up(url_entries(m), hashes);
    entries_add_up(url_entries(m) + hashes, mode_entries(m));
    line_text("hash-format"@, m.download.hash_format);
    line_text("hash"@, m.download.hash);
    line_text("mode"@, "metadata:curseforge"@);
    header_text("[download]"@);
    assert(seq!['\n'] + "[download]"@ + seq!['\n'] =~= "\n[download]\n"@);
    let none = Seq::<(Seq<char>, Seq<char>)>::empty();
    assert(entry_lines(none) =~= Seq::<Seq<char>>::empty());
    match m.download.url {
        Some(url) => {
            line_text("url"@, url);
        },
        None => {},
    }
    assert(text_of_lines(seq![Seq::empty(), "[download]"@]) + text_of_lines(
        entry_lines(download_entries(m)),
    ) =~= metafile_download(m));
}

/// The header of the update table of a mod.
spec fn update_header(m: LockedModView) -> Seq<char> {
    if m.provider == Provider::Modrinth {
        modrinth_header()
    } else {
        curseforge_header()
    }
}

proof fn update_text(m: LockedModView)
    requires
        m.provider == Provider::Modrinth || m.provider == Provider::Curseforge,
        m.file_id is Some,
    ensures
        text_of_lines(seq![Seq::empty(), update_header(m)]) + text_of_lines(
            entry_lines(update_entries(m)),
        ) == metafile_update(m),
{
    let id = m.file_id->0;
    header_text(update_header(m));
    if m.provider == Provider::Modrinth {
        reveal_strlit("\n[update.modrinth]\n");
        reveal_strlit("[update.modrinth]");
        let a = seq![("mod-id"@, quoted(m.project_id))];
        let b = seq![("version"@, quoted(id))];
        assert(update_entries(m) =~= a + b);
        entries_add_up(a, b);
        line_text("mod-id"@, m.project_id);
        line_text("version"@, id);
        assert(seq!['\n'] + "[update.modrinth]"@ + seq!['\n'] =~= "\n[update.modrinth]\n"@);
    } else {
        reveal_strlit("\n[update.curseforge]\n");
        reveal_strlit("[update.curseforge]");
        let a = seq![("project-id"@, m.project_id)];
        let b = seq![("file-id"@, id)];
        assert(update_entries(m) =~= a + b);
        entries_add_up(a, b);
        line_text("project-id"@, m.project_id);
        line_text("file-id"@, id);
        assert(seq!['\n'] + "[update.curseforge]"@ + seq!['\n'] =~= "\n[update.curseforge]\n"@);
    }
    assert(text_of_lines(seq![Seq::empty(), update_header(m)]) + text_of_lines(
        entry_lines(update_entries(m)),
    ) =~= metafile_update(m));
}

/// A metafile is the text of its lines.
proof fn metafile_text(m: LockedModView)
    requires
        m.provider == Provider::Modrinth || m.provider == Provider::Curseforge,
        m.file_id is Some,
    ensures
        text_of_lines(metafile_lines(m, update_header(m))) == metafile_of(m),
{
    let a = entry_lines(top_entries(m));
    let b = seq![Seq::empty(), "[download]"@];
    let c = entry_lines(download_entries(m));
    let d = seq![Seq::empty(), update_header(m)];
    let e = entry_lines(update_entries(m));
    lines_add_up(a + b + c + d, e);
    lines_add_up(a + b + c, d);
    lines_add_up(a + b, c);
    lines_add_up(a, b);
    head_text(m);
    download_text(m);
    update_text(m);
    assert(text_of_lines(metafile_lines(m, update_header(m))) =~= metafile_of(m));
}

// ---- keys and headers -------------------------------------------------------------------------

/// A key as an export writes it: without spaces and line breaks, and no header of a table.
spec fn plain_key(key: Seq<char>) -> bool {
    key.len() > 0 && !key.contains(' ') && !key.contains('\n') && key[0] != '['
}

proof fn top_keys()
    ensures
        plain_key("name"@),
        plain_key("filename"@),
        plain_key("side"@),
        "name"@ != "filename"@,
        "name"@ != "side"@,
        "filename"@ != "side"@,
{
    reveal_strlit("name");
    reveal_strlit("filename");
    reveal_strlit("side");
    assert("name"@[0] == 'n' && "side"@[0] == 's');
}

proof fn download_keys()
    ensures
        plain_key("url"@),
        plain_key("hash-format"@),
        plain_key("hash"@),
        plain_key("mode"@),
        "url"@ != "hash-format"@,
        "url"@ != "hash"@,
        "url"@ != "mode"@,
        "hash-format"@ != "hash"@,
        "hash-format"@ != "mode"@,
        "hash"@ != "mode"@,
{
    reveal_strlit("url");
    reveal_strlit("hash-format");
    reveal_strlit("hash");
    reveal_strlit("mode");
    assert("hash"@[0] == 'h' && "mode"@[0] == 'm');
}

proof fn update_keys()
    ensures
        plain_key("mod-id"@),
        plain_key("version"@),
        plain_key("project-id"@),
        plain_key("file-id"@),
        "mod-id"@ != "version"@,
        "project-id"@ != "file-id"@,
{
    reveal_strlit("mod-id");
    reveal_strlit("version");
    reveal_strlit("project-id");
    reveal_strlit("file-id");
}

proof fn headers_differ()
    ensures
        "[download]"@.len() == 10,
        "[download]"@[0] == '[',
        one_line("[download]"@),
        modrinth_header().len() == 17,
        modrinth_header()[0] == '[',
        one_line(modrinth_header()),
        curseforge_header().len() == 19,
        curseforge_header()[0] == '[',
        one_line(curseforge_header()),
{
    reveal_strlit("[download]");
    reveal_strlit("[update.modrinth]");
    reveal_strlit("[update.curseforge]");
}

// ---- looking up -------------------------------------------------------------------------------

/// A line gives a value for its own key alone.
proof fn a_line_has_one_key(e: (Seq<char>, Seq<char>), key: Seq<char>)
    requires
        plain_key(e.0),
        plain_key(key),
    ensures
        value_on(entry_line(e), key) == (if e.0 == key {
            Some(e.1)
        } else {
            None
        }),
        entry_line(e).len() > 0,
        entry_line(e)[0] != '[',
{
    reveal_strlit(" = ");
    let line = entry_line(e);
    let start = key + " = "@;
    assert(line[0] == e.0[0]);
    if e.0 == key {
        assert(line.subrange(0, start.len() as int) =~= start);
        assert(start.is_prefix_of(line));
        assert(line.skip(start.len() as int) =~= e.1);
    } else if start.is_prefix_of(line) {
        assert(forall|i: int| 0 <= i < start.len() ==> start[i] == line[i]);
        if key.len() < e.0.len() {
            assert(start[key.len() as int] == ' ');
            assert(line[key.len() as int] == e.0[key.len() as int]);
            assert(e.0.contains(e.0[key.len() as int]));
        } else if key.len() > e.0.len() {
            assert(line[e.0.len() as int] == ' ');
            assert(start[e.0.len() as int] == key[e.0.len() as int]);
            assert(key.contains(key[e.0.len() as int]));
        } else {
            assert forall|i: int| 0 <= i < key.len() implies key[i] == e.0[i] by {
                assert(start[i] == line[i]);
            }
            assert(key =~= e.0);
        }
    }
}

/// The lines of entries give what the entries hold, in the table that they stand in; otherwise the
/// lines behind them decide.
proof fn looking_through_entries(
    entries: Seq<(Seq<char>, Seq<char>)>,
    tail: Seq<Seq<char>>,
    current: Seq<char>,
    table: Seq<char>,
    key: Seq<char>,
)
    requires
        plain_key(key),
        forall|i: int| 0 <= i < entries.len() ==> plain_key((#[trigger] entries[i]).0),
    ensures
        value_in(entry_lines(entries) + tail, current, table, key) == (if current == table
            && entry_for(entries, key) is Some {
            entry_for(entries, key)
        } else {
            value_in(tail, current, table, key)
        }),
    decreases entries.len(),
{
    let lines = entry_lines(entries) + tail;
    if entries.len() == 0 {
        assert(lines =~= tail);
    } else {
        let rest = entries.drop_first();
        assert forall|i: int| 0 <= i < rest.len() implies plain_key((#[trigger] rest[i]).0) by {
            assert(rest[i] == entries[i + 1]);
        }
        looking_through_entries(rest, tail, current, table, key);
        assert(lines[0] == entry_line(entries[0]));
        assert(lines.drop_first() =~= entry_lines(rest) + tail);
        a_line_has_one_key(entries[0], key);
    }
}

/// A header behind an empty line opens its table.
proof fn looking_past_a_header(
    header: Seq<char>,
    tail: Seq<Seq<char>>,
    current: Seq<char>,
    table: Seq<char>,
    key: Seq<char>,
)
    requires
        plain_key(key),
        header.len() > 0,
        header[0] == '[',
    ensures
        value_in(seq![Seq::empty(), header] + tail, current, table, key) == value_in(
            tail,
            header,
            table,
            key,
        ),
{
    reveal_with_fuel(value_in, 3);
    let lines = seq![Seq::empty(), header] + tail;
    assert(lines[0].len() == 0);
    assert(lines.drop_first()[0] == header);
    assert(lines.drop_first().drop_first() =~= tail);
    assert(!(key + " = "@).is_prefix_of(lines[0]));
}

/// What the lines of a metafile give for a key: what the entries of its table hold.
proof fn looking_up(m: LockedModView, header: Seq<char>, table: Seq<char>, key: Seq<char>)
    requires
        plain_key(key),
        header.len() > 10,
        header[0] == '[',
    ensures
        value_in(metafile_lines(m, header).push(Seq::empty()), Seq::empty(), table, key) == (
        if table == Seq::<char>::empty() {
            entry_for(top_entries(m), key)
        } else if table == "[download]"@ {
            entry_for(download_entries(m), key)
        } else if table == header {
            entry_for(update_entries(m), key)
        } else {
            None
        }),
{
    top_keys();
    download_keys();
    update_keys();
    headers_differ();
    let end = seq![Seq::<char>::empty()];
    let e = entry_lines(update_entries(m)) + end;
    let d = seq![Seq::empty(), header] + e;
    let c = entry_lines(download_entries(m)) + d;
    let b = seq![Seq::empty(), "[download]"@] + c;
    let a = entry_lines(top_entries(m)) + b;
    assert(metafile_lines(m, header).push(Seq::empty()) =~= a);
    looking_through_entries(top_entries(m), b, Seq::empty(), table, key);
    looking_past_a_header("[download]"@, c, Seq::empty(), table, key);
    looking_through_entries(download_entries(m), d, "[download]"@, table, key);
    looking_past_a_header(header, e, "[download]"@, table, key);
    looking_through_entries(update_entries(m), end, header, table, key);
    reveal_with_fuel(value_in, 2);
    assert(end.drop_first() =~= Seq::<Seq<char>>::empty());
    assert(!(key + " = "@).is_prefix_of(end[0]));
    assert(value_in(end, header, table, key) is None);
}

// ---- reading back -----------------------------------------------------------------------------

/// A value of an export fits on its line.
proof fn lines_fit(m: LockedModView, header: Seq<char>)
    requires
        fits_on_lines(m),
        one_line(header),
    ensures
        forall|i: int|
            0 <= i < metafile_lines(m, header).len() ==> one_line(
                #[trigger] metafile_lines(m, header)[i],
            ),
{
    top_keys();
    download_keys();
    update_keys();
    headers_differ();
    reveal_strlit("metadata:curseforge");
    quoted_text_stays_on_its_line(m.name);
    quoted_text_stays_on_its_line(m.filename);
    side_fits(m);
    quoted_text_stays_on_its_line(m.download.hash_format);
    quoted_text_stays_on_its_line(m.download.hash);
    quoted_text_stays_on_its_line("metadata:curseforge"@);
    quoted_text_stays_on_its_line(m.project_id);
    if m.download.url is Some {
        quoted_text_stays_on_its_line(m.download.url->0);
    }
    if m.file_id is Some {
        quoted_text_stays_on_its_line(m.file_id->0);
    }
    entries_fit(top_entries(m));
    entries_fit(download_entries(m));
    entries_fit(update_entries(m));
}

proof fn side_fits(m: LockedModView)
    ensures
        one_line(quoted(packwiz_side(m.side))),
{
    reveal_strlit("client");
    reveal_strlit("server");
    reveal_strlit("both");
    reveal_strlit("");
    quoted_text_stays_on_its_line(packwiz_side(m.side));
}

proof fn entries_fit(entries: Seq<(Seq<char>, Seq<char>)>)
    requires
        forall|i: int|
            0 <= i < entries.len() ==> plain_key((#[trigger] entries[i]).0) && one_line(
                entries[i].1,
            ),
    ensures
        forall|i: int| 0 <= i < entries.len() ==> one_line(#[trigger] entry_lines(entries)[i]),
{
    reveal_strlit(" = ");
    assert forall|i: int| 0 <= i < entries.len() implies one_line(
        #[trigger] entry_lines(entries)[i],
    ) by {
        let line = entry_lines(entries)[i];
        let e = entries[i];
        assert forall|j: int| 0 <= j < line.len() implies line[j] != '\n' by {
            if j < e.0.len() {
                assert(e.0.contains(e.0[j]));
            } else if j >= e.0.len() + 3 {
                assert(line[j] == e.1[j - e.0.len() - 3]);
                assert(e.1.contains(e.1[j - e.0.len() - 3]));
            }
        }
    }
}

/// The lines of an exported metafile.
proof fn metafile_split(m: LockedModView)
    requires
        m.provider == Provider::Modrinth || m.provider == Provider::Curseforge,
        m.file_id is Some,
        fits_on_lines(m),
    ensures
        split(metafile_of(m), '\n') == metafile_lines(m, update_header(m)).push(Seq::empty()),
{
    headers_differ();
    metafile_text(m);
    lines_fit(m, update_header(m));
    lines_read_back(metafile_lines(m, update_header(m)));
}

/// A key of the update table is read as it was written.
proof fn reading_back(m: LockedModView, header: Seq<char>, key: Seq<char>)
    requires
        m.provider == Provider::Modrinth || m.provider == Provider::Curseforge,
        m.file_id is Some,
        fits_on_lines(m),
        header == update_header(m),
        plain_key(key),
    ensures
        value_in(split(metafile_of(m), '\n'), Seq::empty(), header, key) == entry_for(
            update_entries(m),
            key,
        ),
{
    headers_differ();
    metafile_split(m);
    looking_up(m, header, header, key);
}

/// A table that was not written gives nothing.
proof fn reading_nothing(m: LockedModView, header: Seq<char>, table: Seq<char>, key: Seq<char>)
    requires
        m.provider == Provider::Modrinth || m.provider == Provider::Curseforge,
        m.file_id is Some,
        fits_on_lines(m),
        header == update_header(m),
        plain_key(key),
        table.len() > 10,
        table != header,
    ensures
        value_in(split(metafile_of(m), '\n'), Seq::empty(), table, key) is None,
{
    headers_differ();
    metafile_split(m);
    looking_up(m, header, table, key);
}

/// The fields that every metafile has are read as they were written.
proof fn common_fields_read_back(m: LockedModView, header: Seq<char>)
    requires
        m.provider == Provider::Modrinth || m.provider == Provider::Curseforge,
        m.file_id is Some,
        fits_on_lines(m),
        header == update_header(m),
    ensures
        ({
            let lines = split(metafile_of(m), '\n');
            &&& text_in(lines, Seq::empty(), "name"@) == Some(m.name)
            &&& text_in(lines, Seq::empty(), "filename"@) == Some(m.filename)
            &&& text_in(lines, Seq::empty(), "side"@) == Some(packwiz_side(m.side))
            &&& text_in(lines, "[download]"@, "hash-format"@) == Some(m.download.hash_format)
            &&& text_in(lines, "[download]"@, "hash"@) == Some(m.download.hash)
            &&& text_in(lines, "[download]"@, "url"@) == m.download.url
        }),
{
    top_keys();
    download_keys();
    headers_differ();
    metafile_split(m);
    let top = Seq::<char>::empty();
    looking_up(m, header, top, "name"@);
    looking_up(m, header, top, "filename"@);
    looking_up(m, header, top, "side"@);
    looking_up(m, header, "[download]"@, "hash-format"@);
    looking_up(m, header, "[download]"@, "hash"@);
    looking_up(m, header, "[download]"@, "url"@);
    quoted_text_reads_back(m.name);
    quoted_text_reads_back(m.filename);
    quoted_text_reads_back(packwiz_side(m.side));
    quoted_text_reads_back(m.download.hash_format);
    quoted_text_reads_back(m.download.hash);
    if m.download.url is Some {
        quoted_text_reads_back(m.download.url->0);
    }
    top_values(m);
    download_values(m);
}

proof fn top_values(m: LockedModView)
    ensures
        entry_for(top_entries(m), "name"@) == Some(quoted(m.name)),
        entry_for(top_entries(m), "filename"@) == Some(quoted(m.filename)),
        entry_for(top_entries(m), "side"@) == Some(quoted(packwiz_side(m.side))),
{
    reveal_with_fuel(entry_for, 4);
    top_keys();
    let all = top_entries(m);
    assert(all.drop_first()[0] == all[1]);
    assert(all.drop_first().drop_first()[0] == all[2]);
}

proof fn download_values(m: LockedModView)
    ensures
        entry_for(download_entries(m), "hash-format"@) == Some(quoted(m.download.hash_format)),
        entry_for(download_entries(m), "hash"@) == Some(quoted(m.download.hash)),
        entry_for(download_entries(m), "url"@) == (match m.download.url {
            Some(url) => Some(quoted(url)),
            None => None,
        }),
{
    reveal_with_fuel(entry_for, 5);
    download_keys();
    let all = download_entries(m);
    let n = all.len() as int;
    let one = all.drop_first();
    let two = one.drop_first();
    assert(one =~= all.skip(1));
    assert(two =~= all.skip(2));
    assert(n == 2 || n == 3 || n == 4);
    if n > 2 {
        assert(two.drop_first() =~= all.skip(3));
    }
}

/// A quoted text is read as the text.
proof fn quoted_text_reads_back(value: Seq<char>)
    ensures
        text_of(quoted(value)) == Some(value),
{
    reveal_strlit("\"");
    quoting_loses_nothing(value);
    let q = quoted(value);
    assert(q.subrange(1, q.len() - 1) =~= escaped(value));
}

/// A number is not read as a text, and is read as an id that is written the same.
proof fn numbers_are_no_texts(n: i64)
    ensures
        text_of(signed_decimal(n as int)) is None,
        id_of(signed_decimal(n as int)) matches PwIdView::Integer(i) && signed_decimal(i as int)
            == signed_decimal(n as int),
        one_line(signed_decimal(n as int)),
{
    reveal_strlit("-");
    let size: nat = if n < 0 {
        (-n) as nat
    } else {
        n as nat
    };
    let s = signed_decimal(n as int);
    decimal_reads_back(size, size);
    let d = decimal(size);
    assert(is_digit(d[0]));
    assert forall|i: int| 0 <= i < s.len() implies s[i] != '\n' by {
        if n < 0 {
            if i > 0 {
                assert(s[i] == d[i - 1]);
                assert(is_digit(d[i - 1]));
            }
        } else {
            assert(is_digit(d[i]));
        }
    }
}

// ---- the index and the pack -------------------------------------------------------------------

/// A text of three parts: entries, and two tables behind empty lines.
spec fn three_parts(
    top: Seq<(Seq<char>, Seq<char>)>,
    first: Seq<char>,
    middle: Seq<(Seq<char>, Seq<char>)>,
    second: Seq<char>,
    bottom: Seq<(Seq<char>, Seq<char>)>,
) -> Seq<Seq<char>> {
    entry_lines(top) + seq![Seq::empty(), first] + entry_lines(middle) + seq![Seq::empty(), second]
        + entry_lines(bottom)
}

spec fn sound_entries(entries: Seq<(Seq<char>, Seq<char>)>) -> bool {
    forall|i: int|
        0 <= i < entries.len() ==> plain_key((#[trigger] entries[i]).0) && one_line(entries[i].1)
}

proof fn parts_read_back(
    top: Seq<(Seq<char>, Seq<char>)>,
    first: Seq<char>,
    middle: Seq<(Seq<char>, Seq<char>)>,
    second: Seq<char>,
    bottom: Seq<(Seq<char>, Seq<char>)>,
    table: Seq<char>,
    key: Seq<char>,
)
    requires
        sound_entries(top),
        sound_entries(middle),
        sound_entries(bottom),
        plain_key(key),
        first.len() > 0 && first[0] == '[' && one_line(first),
        second.len() > 0 && second[0] == '[' && one_line(second),
        first != second,
    ensures
        value_in(
            split(text_of_lines(three_parts(top, first, middle, second, bottom)), '\n'),
            Seq::empty(),
            table,
            key,
        ) == (if table == Seq::<char>::empty() {
            entry_for(top, key)
        } else if table == first {
            entry_for(middle, key)
        } else if table == second {
            entry_for(bottom, key)
        } else {
            None
        }),
{
    let lines = three_parts(top, first, middle, second, bottom);
    entries_fit(top);
    entries_fit(middle);
    entries_fit(bottom);
    assert(forall|i: int| 0 <= i < lines.len() ==> one_line(#[trigger] lines[i]));
    lines_read_back(lines);
    let end = seq![Seq::<char>::empty()];
    let e = entry_lines(bottom) + end;
    let d = seq![Seq::empty(), second] + e;
    let c = entry_lines(middle) + d;
    let b = seq![Seq::empty(), first] + c;
    assert(lines.push(Seq::empty()) =~= entry_lines(top) + b);
    looking_through_entries(top, b, Seq::empty(), table, key);
    looking_past_a_header(first, c, Seq::empty(), table, key);
    looking_through_entries(middle, d, first, table, key);
    looking_past_a_header(second, e, first, table, key);
    looking_through_entries(bottom, end, second, table, key);
    reveal_with_fuel(value_in, 2);
    assert(end.drop_first() =~= Seq::<Seq<char>>::empty());
    assert(!(key + " = "@).is_prefix_of(end[0]));
}

proof fn parts_text(
    top: Seq<(Seq<char>, Seq<char>)>,
    first: Seq<char>,
    middle: Seq<(Seq<char>, Seq<char>)>,
    second: Seq<char>,
    bottom: Seq<(Seq<char>, Seq<char>)>,
)
    ensures
        text_of_lines(three_parts(top, first, middle, second, bottom)) == text_of_lines(
            entry_lines(top),
        ) + (seq!['\n'] + first + seq!['\n']) + text_of_lines(entry_lines(middle)) + (seq!['\n']
            + second + seq!['\n']) + text_of_lines(entry_lines(bottom)),
{
    let a = entry_lines(top);
    let b = seq![Seq::empty(), first];
    let c = entry_lines(middle);
    let d = seq![Seq::empty(), second];
    let e = entry_lines(bottom);
    lines_add_up(a + b + c + d, e);
    lines_add_up(a + b + c, d);
    lines_add_up(a + b, c);
    lines_add_up(a, b);
    header_text(first);
    header_text(second);
}

/// A row of the index is read back as the file, its hash, and whether it is a metafile.
pub proof fn an_index_row_reads_back(e: IndexEntryView)
    requires
        one_line(e.file),
        one_line(e.hash),
    ensures
        ({
            let lines = split(index_row(e), '\n');
            let top = Seq::<char>::empty();
            &&& text_in(lines, "[[files]]"@, "file"@) == Some(e.file)
            &&& text_in(lines, "[[files]]"@, "hash"@) == Some(e.hash)
            &&& value_in(lines, top, "[[files]]"@, "metafile"@) == (if e.metafile {
                Some("true"@)
            } else {
                None
            })
        }),
{
    reveal_strlit("[[files]]");
    reveal_strlit("\n[[files]]\n");
    reveal_strlit("file");
    reveal_strlit("hash");
    reveal_strlit("metafile");
    reveal_strlit("true");
    reveal_strlit("metafile = true\n");
    reveal_strlit(" = ");
    let header = "[[files]]"@;
    let a = seq![("file"@, quoted(e.file))];
    let b = seq![("hash"@, quoted(e.hash))];
    let c = if e.metafile {
        seq![("metafile"@, "true"@)]
    } else {
        Seq::empty()
    };
    let entries = a + b + c;
    entries_add_up(a + b, c);
    entries_add_up(a, b);
    line_text("file"@, e.file);
    line_text("hash"@, e.hash);
    line_text("metafile"@, "true"@);
    header_text(header);
    assert(seq!['\n'] + header + seq!['\n'] =~= "\n[[files]]\n"@);
    reveal_strlit("\n");
    assert(bare_line("metafile"@, "true"@) =~= "metafile = true\n"@);
    assert(entry_lines(Seq::<(Seq<char>, Seq<char>)>::empty()) =~= Seq::<Seq<char>>::empty());
    let lines = seq![Seq::empty(), header] + entry_lines(entries);
    lines_add_up(seq![Seq::empty(), header], entry_lines(entries));
    assert(text_of_lines(lines) =~= index_row(e));
    quoted_text_stays_on_its_line(e.file);
    quoted_text_stays_on_its_line(e.hash);
    assert(sound_entries(entries));
    entries_fit(entries);
    assert(forall|i: int| 0 <= i < lines.len() ==> one_line(#[trigger] lines[i]));
    lines_read_back(lines);
    let end = seq![Seq::<char>::empty()];
    let tail = entry_lines(entries) + end;
    assert(lines.push(Seq::empty()) =~= seq![Seq::empty(), header] + tail);
    let top = Seq::<char>::empty();
    looking_past_a_header(header, tail, top, header, "file"@);
    looking_past_a_header(header, tail, top, header, "hash"@);
    looking_past_a_header(header, tail, top, header, "metafile"@);
    looking_through_entries(entries, end, header, header, "file"@);
    looking_through_entries(entries, end, header, header, "hash"@);
    looking_through_entries(entries, end, header, header, "metafile"@);
    reveal_with_fuel(entry_for, 4);
    assert(entries.drop_first()[0] == ("hash"@, quoted(e.hash)));
    if e.metafile {
        assert(entries.drop_first().drop_first()[0] == ("metafile"@, "true"@));
    }
    reveal_with_fuel(value_in, 2);
    assert(end.drop_first() =~= Seq::<Seq<char>>::empty());
    assert(!("metafile"@ + " = "@).is_prefix_of(end[0]));
    quoted_text_reads_back(e.file);
    quoted_text_reads_back(e.hash);
}

/// The texts that `pack.toml` carries hold no line break.
pub open spec fn pack_fits_on_lines(m: ManifestView) -> bool {
    &&& one_line(m.pack.name) && one_line(m.pack.author) && one_line(m.pack.version)
    &&& m.pack.description matches Some(text) ==> one_line(text)
    &&& one_line(m.loader.minecraft) && one_line(m.loader.version)
}

spec fn description_entries(m: ManifestView) -> Seq<(Seq<char>, Seq<char>)> {
    match m.pack.description {
        Some(text) => seq![("description"@, quoted(text))],
        None => Seq::empty(),
    }
}

spec fn pack_top(m: ManifestView) -> Seq<(Seq<char>, Seq<char>)> {
    seq![
        ("name"@, quoted(m.pack.name)),
        ("author"@, quoted(m.pack.author)),
        ("version"@, quoted(m.pack.version)),
    ] + description_entries(m) + seq![("pack-format"@, quoted(PACK_FORMAT@))]
}

spec fn pack_middle(hash: Seq<char>) -> Seq<(Seq<char>, Seq<char>)> {
    seq![
        ("file"@, quoted("index.toml"@)),
        ("hash-format"@, quoted("sha256"@)),
        ("hash"@, quoted(hash)),
    ]
}

spec fn pack_bottom(m: ManifestView) -> Seq<(Seq<char>, Seq<char>)> {
    seq![
        ("minecraft"@, quoted(m.loader.minecraft)),
        (loader_word(m.loader.name), quoted(m.loader.version)),
    ]
}

/// What an export writes of a pack, an import reads again: its name, author, version and description, the
/// digest of its index, the Minecraft version, and the loader with its version and no other loader.
pub proof fn an_exported_pack_reads_back(m: ManifestView, index_hash: Seq<char>, other: Loader)
    requires
        pack_fits_on_lines(m),
        one_line(index_hash),
    ensures
        ({
            let lines = split(pack_of(m, index_hash), '\n');
            let top = Seq::<char>::empty();
            &&& text_in(lines, top, "name"@) == Some(m.pack.name)
            &&& text_in(lines, top, "author"@) == Some(m.pack.author)
            &&& text_in(lines, top, "version"@) == Some(m.pack.version)
            &&& text_in(lines, top, "description"@) == m.pack.description
            &&& text_in(lines, "[index]"@, "file"@) == Some("index.toml"@)
            &&& text_in(lines, "[index]"@, "hash-format"@) == Some("sha256"@)
            &&& text_in(lines, "[index]"@, "hash"@) == Some(index_hash)
            &&& text_in(lines, "[versions]"@, "minecraft"@) == Some(m.loader.minecraft)
            &&& text_in(lines, "[versions]"@, loader_word(m.loader.name)) == Some(m.loader.version)
            &&& other != m.loader.name ==> text_in(lines, "[versions]"@, loader_word(other)) is None
        }),
{
    pack_texts(m, index_hash);
    pack_is_sound(m, index_hash);
    pack_keys(m.loader.name);
    pack_keys(other);
    let (t, f, b) = (pack_top(m), pack_middle(index_hash), pack_bottom(m));
    let (first, second) = ("[index]"@, "[versions]"@);
    let top = Seq::<char>::empty();
    assert(first.len() == 7 && second.len() == 10 && first[0] == '[' && second[0] == '[') by {
        reveal_strlit("[index]");
        reveal_strlit("[versions]");
    }
    parts_read_back(t, first, f, second, b, top, "name"@);
    parts_read_back(t, first, f, second, b, top, "author"@);
    parts_read_back(t, first, f, second, b, top, "version"@);
    parts_read_back(t, first, f, second, b, top, "description"@);
    parts_read_back(t, first, f, second, b, first, "file"@);
    parts_read_back(t, first, f, second, b, first, "hash-format"@);
    parts_read_back(t, first, f, second, b, first, "hash"@);
    parts_read_back(t, first, f, second, b, second, "minecraft"@);
    parts_read_back(t, first, f, second, b, second, loader_word(m.loader.name));
    parts_read_back(t, first, f, second, b, second, loader_word(other));
    pack_values(m, index_hash, other);
    quoted_text_reads_back(m.pack.name);
    quoted_text_reads_back(m.pack.author);
    quoted_text_reads_back(m.pack.version);
    quoted_text_reads_back("index.toml"@);
    quoted_text_reads_back("sha256"@);
    quoted_text_reads_back(index_hash);
    quoted_text_reads_back(m.loader.minecraft);
    quoted_text_reads_back(m.loader.version);
    if m.pack.description is Some {
        quoted_text_reads_back(m.pack.description->0);
    }
}

proof fn pack_keys(loader: Loader)
    ensures
        plain_key("name"@) && plain_key("author"@) && plain_key("version"@),
        plain_key("description"@) && plain_key("pack-format"@),
        plain_key("file"@) && plain_key("hash-format"@) && plain_key("hash"@),
        plain_key("minecraft"@) && plain_key(loader_word(loader)),
        "name"@.len() == 4 && "author"@.len() == 6 && "version"@.len() == 7,
        "description"@.len() == 11 && "pack-format"@.len() == 11,
        "description"@ != "pack-format"@,
        "file"@.len() == 4 && "hash-format"@.len() == 11 && "hash"@.len() == 4,
        "file"@ != "hash"@,
        "minecraft"@.len() == 9 && loader_word(loader).len() < 9,
{
    reveal_strlit("name");
    reveal_strlit("author");
    reveal_strlit("version");
    reveal_strlit("description");
    reveal_strlit("pack-format");
    reveal_strlit("file");
    reveal_strlit("hash-format");
    reveal_strlit("hash");
    reveal_strlit("minecraft");
    reveal_strlit("forge");
    reveal_strlit("neoforge");
    reveal_strlit("fabric");
    reveal_strlit("quilt");
    assert("description"@[0] == 'd' && "pack-format"@[0] == 'p');
    assert("file"@[0] == 'f' && "hash"@[0] == 'h');
}

proof fn pack_is_sound(m: ManifestView, index_hash: Seq<char>)
    requires
        pack_fits_on_lines(m),
        one_line(index_hash),
    ensures
        sound_entries(pack_top(m)),
        sound_entries(pack_middle(index_hash)),
        sound_entries(pack_bottom(m)),
        one_line("[index]"@),
        one_line("[versions]"@),
{
    pack_keys(m.loader.name);
    reveal_strlit("[index]");
    reveal_strlit("[versions]");
    reveal_strlit("index.toml");
    reveal_strlit("sha256");
    reveal_strlit("packwiz:1.1.0");
    quoted_text_stays_on_its_line(m.pack.name);
    quoted_text_stays_on_its_line(m.pack.author);
    quoted_text_stays_on_its_line(m.pack.version);
    quoted_text_stays_on_its_line(PACK_FORMAT@);
    quoted_text_stays_on_its_line("index.toml"@);
    quoted_text_stays_on_its_line("sha256"@);
    quoted_text_stays_on_its_line(index_hash);
    quoted_text_stays_on_its_line(m.loader.minecraft);
    quoted_text_stays_on_its_line(m.loader.version);
    if m.pack.description is Some {
        quoted_text_stays_on_its_line(m.pack.description->0);
    }
}

proof fn pack_texts(m: ManifestView, index_hash: Seq<char>)
    ensures
        text_of_lines(
            three_parts(
                pack_top(m),
                "[index]"@,
                pack_middle(index_hash),
                "[versions]"@,
                pack_bottom(m),
            ),
        ) == pack_of(m, index_hash),
{
    parts_text(
        pack_top(m),
        "[index]"@,
        pack_middle(index_hash),
        "[versions]"@,
        pack_bottom(m),
    );
    top_text(m);
    middle_text(index_hash);
    bottom_text(m);
    let t = text_of_lines(entry_lines(pack_top(m)));
    let f = text_of_lines(entry_lines(pack_middle(index_hash)));
    let b = text_of_lines(entry_lines(pack_bottom(m)));
    let x = seq!['\n'] + "[index]"@ + seq!['\n'];
    let y = seq!['\n'] + "[versions]"@ + seq!['\n'];
    assert(t + x + f + y + b =~= t + (x + f) + (y + b));
}

proof fn top_text(m: ManifestView)
    ensures
        text_of_lines(entry_lines(pack_top(m))) == pack_meta(m),
{
    let n = seq![("name"@, quoted(m.pack.name))];
    let a = seq![("author"@, quoted(m.pack.author))];
    let v = seq![("version"@, quoted(m.pack.version))];
    let d = description_entries(m);
    let p = seq![("pack-format"@, quoted(PACK_FORMAT@))];
    assert(pack_top(m) =~= n + a + v + d + p);
    entries_add_up(n + a + v + d, p);
    entries_add_up(n + a + v, d);
    entries_add_up(n + a, v);
    entries_add_up(n, a);
    line_text("name"@, m.pack.name);
    line_text("author"@, m.pack.author);
    line_text("version"@, m.pack.version);
    line_text("pack-format"@, PACK_FORMAT@);
    let named = text_of_lines(entry_lines(n + a + v));
    match m.pack.description {
        Some(text) => {
            line_text("description"@, text);
        },
        None => {
            assert(entry_lines(d) =~= Seq::<Seq<char>>::empty());
            assert(named + Seq::<char>::empty() =~= named);
        },
    }
}

proof fn middle_text(index_hash: Seq<char>)
    ensures
        (seq!['\n'] + "[index]"@ + seq!['\n']) + text_of_lines(
            entry_lines(pack_middle(index_hash)),
        ) == pack_index(index_hash),
{
    reveal_strlit("[index]");
    reveal_strlit("\n[index]\n");
    assert(seq!['\n'] + "[index]"@ + seq!['\n'] =~= "\n[index]\n"@);
    let f = seq![("file"@, quoted("index.toml"@))];
    let h = seq![("hash-format"@, quoted("sha256"@))];
    let i = seq![("hash"@, quoted(index_hash))];
    assert(pack_middle(index_hash) =~= f + h + i);
    entries_add_up(f + h, i);
    entries_add_up(f, h);
    line_text("file"@, "index.toml"@);
    line_text("hash-format"@, "sha256"@);
    line_text("hash"@, index_hash);
    let x = toml_line("file"@, "index.toml"@);
    let y = toml_line("hash-format"@, "sha256"@);
    let z = toml_line("hash"@, index_hash);
    assert("\n[index]\n"@ + (x + y + z) =~= "\n[index]\n"@ + x + y + z);
}

proof fn bottom_text(m: ManifestView)
    ensures
        (seq!['\n'] + "[versions]"@ + seq!['\n']) + text_of_lines(entry_lines(pack_bottom(m)))
            == pack_versions(m),
{
    reveal_strlit("[versions]");
    reveal_strlit("\n[versions]\n");
    assert(seq!['\n'] + "[versions]"@ + seq!['\n'] =~= "\n[versions]\n"@);
    let x = seq![("minecraft"@, quoted(m.loader.minecraft))];
    let y = seq![(loader_word(m.loader.name), quoted(m.loader.version))];
    assert(pack_bottom(m) =~= x + y);
    entries_add_up(x, y);
    line_text("minecraft"@, m.loader.minecraft);
    line_text(loader_word(m.loader.name), m.loader.version);
    let a = toml_line("minecraft"@, m.loader.minecraft);
    let b = toml_line(loader_word(m.loader.name), m.loader.version);
    assert("\n[versions]\n"@ + (a + b) =~= "\n[versions]\n"@ + a + b);
}

proof fn pack_values(m: ManifestView, index_hash: Seq<char>, other: Loader)
    ensures
        entry_for(pack_top(m), "name"@) == Some(quoted(m.pack.name)),
        entry_for(pack_top(m), "author"@) == Some(quoted(m.pack.author)),
        entry_for(pack_top(m), "version"@) == Some(quoted(m.pack.version)),
        entry_for(pack_top(m), "description"@) == (match m.pack.description {
            Some(text) => Some(quoted(text)),
            None => None,
        }),
        entry_for(pack_middle(index_hash), "file"@) == Some(quoted("index.toml"@)),
        entry_for(pack_middle(index_hash), "hash-format"@) == Some(quoted("sha256"@)),
        entry_for(pack_middle(index_hash), "hash"@) == Some(quoted(index_hash)),
        entry_for(pack_bottom(m), "minecraft"@) == Some(quoted(m.loader.minecraft)),
        entry_for(pack_bottom(m), loader_word(m.loader.name)) == Some(quoted(m.loader.version)),
        other != m.loader.name ==> entry_for(pack_bottom(m), loader_word(other)) is None,
{
    reveal_with_fuel(entry_for, 6);
    pack_keys(m.loader.name);
    pack_keys(other);
    loader_words_differ(m.loader.name, other);
    let t = pack_top(m);
    assert(t.drop_first() =~= t.skip(1));
    assert(t.drop_first().drop_first() =~= t.skip(2));
    assert(t.drop_first().drop_first().drop_first() =~= t.skip(3));
    assert(t.drop_first().drop_first().drop_first().drop_first() =~= t.skip(4));
    let f = pack_middle(index_hash);
    assert(f.drop_first()[0] == f[1]);
    assert(f.drop_first().drop_first()[0] == f[2]);
    let b = pack_bottom(m);
    assert(b.drop_first()[0] == b[1]);
    assert(b.drop_first().drop_first() =~= Seq::<(Seq<char>, Seq<char>)>::empty());
}

} // verus!
