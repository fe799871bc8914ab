//! Adding a mod.
use vstd::prelude::*;

use crate::cli::AddArgs;
use crate::commands::install::{has_jar_extension, jar_name};
use crate::commands::pin::with_mods;
use crate::lock::{entry_from, Lock};
use crate::manifest::{
    declare, distinct_slugs, with_spec, Manifest, ModSpec, ModSpecDetailed, ModSpecDetailedView,
    ModSpecView,
};
use crate::provider::Provider;
use crate::providers::modrinth::{SearchHit, SearchHitView};
use crate::side::Side;
use crate::text::{
    chars_of, find_text, first_occurrence, first_occurrence_is_first, has_text, lower,
    lower_case_changes_capitals_alone, occurs, occurs_at, replace, replaced, split,
    split_at_separator, split_nonempty, split_on, split_without_separator, string_of, strip_suffix,
    to_lower, trim_end, trimmed_end, trimming_an_ending_takes_all_of_it,
};

verus! {

/// Why a mod cannot be added.
#[derive(Debug, Clone, Copy, PartialEq, Eq, Structural)]
pub enum AddError {
    /// The path of a local jar names no file.
    InvalidPath,
    /// No project has exactly this name, and no search was asked for.
    NoExactMatch,
    /// The search found nothing.
    NoHits,
}

// ---- local jars -------------------------------------------------------------------------------

/// Whether a query points at an existing local `.jar` file. `file_name` is the last component of the
/// query taken as a path, by the rules of the platform, and `is_file` says whether it is a file.
pub fn is_local_jar(file_name: Option<&str>, is_file: bool) -> (r: bool)
    ensures
        r == (is_file && match file_name {
            Some(name) => jar_name(name@),
            None => false,
        }),
{
    match file_name {
        Some(name) => has_jar_extension(name) && is_file,
        None => false,
    }
}

/// The slug of a jar: its name without `.jar`, in small letters, with dashes for spaces.
pub open spec fn slug_for_jar(filename: Seq<char>) -> Seq<char> {
    replaced(
        lower(
            if ".jar"@.is_suffix_of(filename) {
                filename.take(filename.len() - ".jar"@.len())
            } else {
                filename
            },
        ),
        ' ',
        "-"@,
    )
}

/// Derive a mod slug from a bundled jar's filename: drop the `.jar`, lowercase, spaces to dashes.
pub fn local_slug(filename: &str) -> (r: String)
    ensures
        r@ == slug_for_jar(filename@),
{
    let stem = match strip_suffix(filename, ".jar") {
        Some(s) => s,
        None => filename.to_owned(),
    };
    replace(to_lower(stem.as_str()).as_str(), ' ', "-")
}

/// The declaration of a local jar.
pub open spec fn local_spec(filename: Seq<char>, side: Option<Side>) -> ModSpecView {
    ModSpecView::Detailed(
        ModSpecDetailedView {
            version: "local"@,
            side,
            provider: Some(Provider::Local),
            project_id: Some(filename),
            optional: false,
            pin: false,
        },
    )
}

/// A mod to declare.
#[derive(Debug)]
pub struct Prepared {
    pub slug: String,
    pub spec: ModSpec,
}

/// Bundle a local jar: it is copied under `local/` by its file name, and declared as a
/// `local`-provider mod keyed by its slug. `file_name` is the last component of the query taken as a
/// path, by the rules of the platform.
pub fn prepare_local(args: &AddArgs, file_name: Option<&str>) -> (r: Result<Prepared, AddError>)
    ensures
        match (r, file_name) {
            (Ok(p), Some(name)) => p.slug@ == slug_for_jar(name@) && p.spec@ == local_spec(
                name@,
                args.side,
            ),
            (Err(e), None) => e == AddError::InvalidPath,
            _ => false,
        },
{
    match file_name {
        None => Err(AddError::InvalidPath),
        Some(name) => Ok(
            Prepared {
                slug: local_slug(name),
                spec: ModSpec::Detailed(
                    ModSpecDetailed {
                        version: "local".to_owned(),
                        side: args.side,
                        provider: Some(Provider::Local),
                        project_id: Some(name.to_owned()),
                        optional: false,
                        pin: false,
                    },
                ),
            },
        ),
    }
}

// ---- providers --------------------------------------------------------------------------------

/// What stands between the first and the second occurrence of `mark`.
pub open spec fn after_mark(s: Seq<char>, mark: Seq<char>) -> Option<Seq<char>> {
    match first_occurrence(mark, s, 0) {
        None => None,
        Some(i) => {
            let rest = s.skip(i + mark.len());
            match first_occurrence(mark, rest, 0) {
                Some(j) => Some(rest.take(j)),
                None => Some(rest),
            }
        },
    }
}

/// What stands before the first question mark or number sign.
pub open spec fn before_query(s: Seq<char>) -> Seq<char>
    decreases s.len(),
{
    if s.len() == 0 || s[0] == '?' || s[0] == '#' {
        Seq::empty()
    } else {
        seq![s[0]] + before_query(s.drop_first())
    }
}

/// The slug in a Modrinth URL: the second segment behind the host.
pub open spec fn modrinth_slug(query: Seq<char>) -> Option<Seq<char>> {
    match after_mark(query, "modrinth.com/"@) {
        Some(rest) => if split(rest, '/').len() > 1 {
            Some(split(rest, '/')[1])
        } else {
            None
        },
        None => None,
    }
}

/// The query without the rest of a Modrinth or CurseForge URL.
pub open spec fn normalized(query: Seq<char>) -> Seq<char> {
    match modrinth_slug(query) {
        Some(slug) => slug,
        None => if occurs("curseforge.com"@, query) {
            split(trimmed_end(before_query(query), "/"@), '/').last()
        } else {
            query
        },
    }
}

fn cut_after_mark(s: &str, mark: &str) -> (r: Option<String>)
    ensures
        r.deep_view() == after_mark(s@, mark@),
{
    let x = chars_of(s);
    let m = chars_of(mark);
    match find_text(&x, &m) {
        None => None,
        Some(i) => {
            assert(i + m.len() <= x.len());
            let start: usize = i + m.len();
            let rest = string_of(&x, start, x.len());
            assert(rest@ =~= s@.skip(start as int));
            let y = chars_of(rest.as_str());
            match find_text(&y, &m) {
                Some(j) => {
                    let piece = string_of(&y, 0, j);
                    assert(piece@ =~= rest@.take(j as int));
                    Some(piece)
                },
                None => Some(rest),
            }
        },
    }
}

fn cut_before_query(s: &str) -> (r: String)
    ensures
        r@ == before_query(s@),
{
    let x = chars_of(s);
    let mut i: usize = 0;
    assert(s@.skip(0) =~= s@);
    assert(s@.take(0) + before_query(s@) =~= before_query(s@));
    while i < x.len() && x[i] != '?' && x[i] != '#'
        invariant
            x@ == s@,
            i <= x@.len(),
            s@.take(i as int) + before_query(s@.skip(i as int)) == before_query(s@),
        decreases x.len() - i,
    {
        proof {
            let rest = s@.skip(i as int);
            assert(rest.drop_first() =~= s@.skip(i + 1));
            assert(s@.take(i as int) + (seq![rest[0]] + before_query(s@.skip(i + 1))) =~= s@.take(
                i + 1,
            ) + before_query(s@.skip(i + 1)));
        }
        i = i + 1;
    }
    assert(s@.take(i as int) + Seq::<char>::empty() =~= s@.subrange(0, i as int));
    string_of(&x, 0, i)
}

/// Strip a Modrinth or CurseForge URL down to its slug; otherwise return the query unchanged.
/// `mod/sodium` and `mod/sodium/version/xyz` behind the host both give `sodium`, and
/// `.../minecraft/mc-mods/jei` gives `jei`.
pub fn normalize_query(query: &str) -> (r: String)
    ensures
        r@ == normalized(query@),
{
    match cut_after_mark(query, "modrinth.com/") {
        Some(rest) => {
            let parts = split_on(rest.as_str(), '/');
            if parts.len() > 1 {
                assert(parts.deep_view()[1] == parts@[1]@);
                return parts[1].clone();
            }
        },
        None => {},
    }
    if has_text(query, "curseforge.com") {
        proof {
            reveal_strlit("/");
        }
        let path = trim_end(cut_before_query(query).as_str(), "/");
        let segments = split_on(path.as_str(), '/');
        proof {
            split_nonempty(path@, '/');
            assert(segments.deep_view().last() == segments@[segments@.len() - 1]@);
        }
        return segments[segments.len() - 1].clone();
    }
    query.to_owned()
}

/// Whether CurseForge is asked: where that is demanded, or the query is one of its URLs.
pub open spec fn asks_curseforge(query: Seq<char>, demanded: bool) -> bool {
    demanded || occurs("curseforge.com"@, query)
}

/// Whether CurseForge is asked instead of Modrinth.
pub fn uses_curseforge(args: &AddArgs) -> (r: bool)
    ensures
        r == asks_curseforge(args.query@, args.curseforge),
{
    args.curseforge || has_text(args.query.as_str(), "curseforge.com")
}

/// The declaration of a mod from a provider: a bare version constraint suffices for a plain Modrinth
/// mod; anything with a side or a non-default provider needs the detailed object form.
pub open spec fn remote_spec(
    version: Option<Seq<char>>,
    side: Option<Side>,
    curseforge: bool,
) -> ModSpecView {
    let constraint = match version {
        Some(v) => v,
        None => "*"@,
    };
    if curseforge || side is Some {
        ModSpecView::Detailed(
            ModSpecDetailedView {
                version: constraint,
                side,
                provider: if curseforge {
                    Some(Provider::Curseforge)
                } else {
                    None
                },
                project_id: None,
                optional: false,
                pin: false,
            },
        )
    } else {
        ModSpecView::Constraint(constraint)
    }
}

/// Declare a mod resolved from a provider (Modrinth by default, or CurseForge) under its slug.
pub fn prepare_remote(args: &AddArgs, slug: String) -> (r: Prepared)
    ensures
        r.slug@ == slug@,
        r.spec@ == remote_spec(
            args.version.deep_view(),
            args.side,
            asks_curseforge(args.query@, args.curseforge),
        ),
{
    let curseforge = uses_curseforge(args);
    let constraint = match &args.version {
        Some(v) => v.clone(),
        None => "*".to_owned(),
    };
    let provider = if curseforge {
        Some(Provider::Curseforge)
    } else {
        None
    };
    let spec = if curseforge || args.side.is_some() {
        ModSpec::Detailed(
            ModSpecDetailed {
                version: constraint,
                side: args.side,
                provider,
                project_id: None,
                optional: false,
                pin: false,
            },
        )
    } else {
        ModSpec::Constraint(constraint)
    };
    Prepared { slug, spec }
}

// ---- the slug ---------------------------------------------------------------------------------

/// What an exact lookup comes to: its slug; or nothing, where a search may follow.
pub fn exact_slug(exact: Option<String>, args: &AddArgs) -> (r: Result<Option<String>, AddError>)
    ensures
        match r {
            Ok(found) => found.deep_view() == exact.deep_view() && (exact is Some || args.search),
            Err(e) => exact is None && !args.search && e == AddError::NoExactMatch,
        },
{
    match exact {
        Some(slug) => Ok(Some(slug)),
        None => {
            if args.search {
                Ok(None)
            } else {
                Err(AddError::NoExactMatch)
            }
        },
    }
}

/// What a search comes to.
#[derive(Debug)]
pub enum SearchChoice {
    /// The one hit there is.
    Take(String),
    /// The labels of the hits, to pick from.
    Pick(Vec<String>),
}

/// The first `max` characters and an ellipsis, or the whole text where it is no longer than that.
pub open spec fn truncated(s: Seq<char>, max: int) -> Seq<char> {
    if s.len() <= max {
        s
    } else {
        s.take(max).push('…')
    }
}

/// The label of a search hit.
pub open spec fn hit_label(hit: SearchHitView) -> Seq<char> {
    hit.title + " — "@ + truncated(hit.description, 60)
}

/// The text, cut to `max` characters.
pub fn truncate(s: &str, max: usize) -> (r: String)
    ensures
        r@ == truncated(s@, max as int),
{
    let x = chars_of(s);
    if x.len() <= max {
        return s.to_owned();
    }
    let mut out = string_of(&x, 0, max);
    assert(out@ =~= s@.take(max as int));
    out.push('…');
    out
}

/// Turn the hits of a search into a concrete slug, or into labels to disambiguate by.
pub fn resolve_slug(hits: &Vec<SearchHit>) -> (r: Result<SearchChoice, AddError>)
    ensures
        match r {
            Err(e) => hits@.len() == 0 && e == AddError::NoHits,
            Ok(SearchChoice::Take(slug)) => hits@.len() == 1 && slug@ == hits.deep_view()[0].slug,
            Ok(SearchChoice::Pick(labels)) => hits@.len() > 1 && labels.deep_view()
                == hits.deep_view().map_values(|h: SearchHitView| hit_label(h)),
        },
{
    let ghost all = hits.deep_view();
    if hits.len() == 0 {
        return Err(AddError::NoHits);
    }
    if hits.len() == 1 {
        assert(all[0] == hits@[0].deep_view());
        return Ok(SearchChoice::Take(hits[0].slug.clone()));
    }
    let ghost wanted = all.map_values(|h: SearchHitView| hit_label(h));
    let mut labels: Vec<String> = Vec::new();
    let mut i: usize = 0;
    while i < hits.len()
        invariant
            all == hits.deep_view(),
            wanted == all.map_values(|h: SearchHitView| hit_label(h)),
            i <= hits@.len(),
            labels.deep_view() == wanted.take(i as int),
        decreases hits.len() - i,
    {
        assert(all[i as int] == hits@[i as int].deep_view());
        let ghost prior = labels.deep_view();
        let mut label = hits[i].title.clone();
        label.append(" — ");
        label.append(truncate(hits[i].description.as_str(), 60).as_str());
        let ghost added = label@;
        labels.push(label);
        i = i + 1;
        assert(labels.deep_view() =~= prior.push(added));
        assert(added == wanted[i - 1]);
        assert(labels.deep_view() =~= wanted.take(i as int));
    }
    assert(wanted.take(i as int) =~= wanted);
    Ok(SearchChoice::Pick(labels))
}

// ---- the manifest -----------------------------------------------------------------------------

/// Declare a mod: a new one becomes the last, one that is declared already keeps its place. No slug is
/// declared twice.
pub fn declare_mod(manifest: &mut Manifest, prepared: Prepared)
    ensures
        final(manifest)@ == with_mods(
            old(manifest)@,
            with_spec(old(manifest)@.mods, prepared.slug@, prepared.spec@),
        ),
        distinct_slugs(final(manifest)@.mods),
{
    declare(&mut manifest.mods, prepared.slug, prepared.spec);
}

/// The version that a mod was locked at, or a question mark.
pub fn locked_version(lock: &Lock, slug: &str) -> (r: String)
    ensures
        r@ == (match entry_from(lock@.mods, slug@, 0) {
            Some(m) => m.version,
            None => "?"@,
        }),
{
    match lock.find(slug) {
        Some(m) => m.version.clone(),
        None => "?".to_owned(),
    }
}

// ---- laws -------------------------------------------------------------------------------------

/// A query that is no URL of either provider is taken as it stands.
pub proof fn bare_queries_pass_through(query: Seq<char>)
    requires
        first_occurrence("modrinth.com/"@, query, 0) is None,
        !occurs("curseforge.com"@, query),
    ensures
        normalized(query) == query,
{
}

/// A mod is declared as coming from CurseForge exactly when CurseForge is asked.
pub proof fn the_provider_is_recorded(
    version: Option<Seq<char>>,
    side: Option<Side>,
    curseforge: bool,
)
    ensures
        crate::manifest::provider_of(remote_spec(version, side, curseforge)) == (if curseforge {
            Some(Provider::Curseforge)
        } else {
            None
        }),
        crate::manifest::side_of(remote_spec(version, side, curseforge)) == side,
        !crate::manifest::pinned(remote_spec(version, side, curseforge)),
{
}

/// The slug of a jar is its name without `.jar`, character by character: capitals become small letters and
/// spaces dashes.
pub proof fn a_jar_slug_is_its_name(stem: Seq<char>, i: int)
    requires
        !".jar"@.is_suffix_of(stem),
    ensures
        slug_for_jar(stem + ".jar"@) == slug_for_jar(stem),
        slug_for_jar(stem).len() == stem.len(),
        0 <= i < stem.len() ==> slug_for_jar(stem)[i] == (if stem[i] == ' ' {
            '-'
        } else if 'A' <= stem[i] <= 'Z' {
            lower(stem)[i]
        } else {
            stem[i]
        }),
{
    reveal_strlit(".jar");
    let name = stem + ".jar"@;
    assert(name.subrange(name.len() - ".jar"@.len(), name.len() as int) =~= ".jar"@);
    assert(name.take(name.len() - ".jar"@.len()) =~= stem);
    one_for_one(lower(stem), i);
    if 0 <= i < stem.len() {
        lower_case_changes_capitals_alone(stem, i);
    }
}

proof fn one_for_one(s: Seq<char>, i: int)
    ensures
        replaced(s, ' ', "-"@).len() == s.len(),
        0 <= i < s.len() ==> replaced(s, ' ', "-"@)[i] == (if s[i] == ' ' {
            '-'
        } else {
            s[i]
        }),
    decreases s.len(),
{
    reveal_strlit("-");
    if s.len() > 0 {
        one_for_one(s.drop_last(), i);
    }
}

/// A local jar is declared as one: by its file name, on the side that was asked for.
pub proof fn a_local_jar_is_declared_as_one(
    args: &AddArgs,
    file_name: Option<&str>,
    r: Result<Prepared, AddError>,
)
    requires
        call_ensures(prepare_local, (args, file_name), r),
    ensures
        r is Ok <==> file_name is Some,
        r matches Ok(p) ==> p.slug@ == slug_for_jar(file_name->0@) && (
        p.spec@ matches ModSpecView::Detailed(d) && {
            &&& d.provider == Some(Provider::Local) && d.project_id == Some(file_name->0@)
            &&& d.side == args.side && d.version == "local"@ && !d.optional && !d.pin
        }),
{
}

/// A mod of a provider is declared with the version and the side that were asked for, any version where
/// none was, and with CurseForge as its provider exactly where that was asked.
pub proof fn a_remote_mod_is_declared_as_asked(args: &AddArgs, slug: String, r: Prepared)
    requires
        call_ensures(prepare_remote, (args, slug), r),
    ensures
        ({
            let version = match args.version {
                Some(v) => v@,
                None => "*"@,
            };
            let curseforge = args.curseforge || occurs("curseforge.com"@, args.query@);
            &&& r.slug@ == slug@
            &&& match r.spec@ {
                ModSpecView::Constraint(c) => c == version && args.side is None && !curseforge,
                ModSpecView::Detailed(d) => {
                    &&& d.version == version && d.side == args.side
                    &&& d.provider == Some(Provider::Curseforge) <==> curseforge
                    &&& d.provider is None <==> !curseforge
                    &&& d.project_id is None && !d.optional && !d.pin
                },
            }
        }),
{
}

/// A link to a Modrinth project stands for the project's slug, whatever follows it.
pub proof fn a_modrinth_link_stands_for_its_slug(
    lead: Seq<char>,
    kind: Seq<char>,
    slug: Seq<char>,
    rest: Seq<char>,
)
    requires
        !kind.contains('/'),
        !slug.contains('/'),
        rest.len() > 0 ==> rest[0] == '/',
        first_occurrence(
            "modrinth.com/"@,
            lead + "modrinth.com/"@ + (kind + "/"@ + slug + rest),
            0,
        ) == Some(lead.len() as int),
        !occurs("modrinth.com/"@, kind + "/"@ + slug + rest),
    ensures
        normalized(lead + "modrinth.com/"@ + (kind + "/"@ + slug + rest)) == slug,
{
    reveal_strlit("/");
    assert("/"@ =~= seq!['/']);
    let path = kind + "/"@ + slug + rest;
    let mark = "modrinth.com/"@;
    let query = lead + mark + path;
    assert(query.skip((lead.len() + mark.len()) as int) =~= path);
    first_occurrence_is_first(mark, path, 0);
    if first_occurrence(mark, path, 0) is Some {
        let k = first_occurrence(mark, path, 0)->0;
        assert(occurs_at(mark, path, k));
    }
    let tail = slug + rest;
    assert(path =~= kind.push('/') + tail);
    split_at_separator(kind, '/', tail);
    if rest.len() > 0 {
        assert(tail =~= slug.push('/') + rest.drop_first());
        split_at_separator(slug, '/', rest.drop_first());
    } else {
        assert(tail =~= slug);
        split_without_separator(slug, '/');
    }
}

/// A link to a CurseForge project stands for the last part of its path, with or without a slash behind it
/// and whatever is asked behind that.
pub proof fn a_curseforge_link_stands_for_its_slug(
    lead: Seq<char>,
    slug: Seq<char>,
    slash: bool,
    asked: Seq<char>,
)
    requires
        !lead.contains('?') && !lead.contains('#'),
        slug.len() > 0,
        !slug.contains('?') && !slug.contains('#') && !slug.contains('/'),
        asked.len() > 0 ==> asked[0] == '?' || asked[0] == '#',
        ({
            let query = lead + "/"@ + slug + (if slash {
                "/"@
            } else {
                Seq::empty()
            }) + asked;
            occurs("curseforge.com"@, query) && first_occurrence("modrinth.com/"@, query, 0) is None
        }),
    ensures
        normalized(
            lead + "/"@ + slug + (if slash {
                "/"@
            } else {
                Seq::empty()
            }) + asked,
        ) == slug,
{
    reveal_strlit("/");
    assert("/"@ =~= seq!['/']);
    let end = if slash {
        "/"@
    } else {
        Seq::empty()
    };
    let bare = lead + "/"@ + slug;
    let path = bare + end;
    let query = path + asked;
    assert(query =~= lead + "/"@ + slug + end + asked);
    assert forall|i: int| 0 <= i < path.len() implies path[i] != '?' && path[i] != '#' by {
        if i < lead.len() {
            assert(lead.contains(lead[i]));
        } else if lead.len() < i < bare.len() {
            assert(slug.contains(slug[i - lead.len() - 1]));
            assert(path[i] == slug[i - lead.len() - 1]);
        }
    }
    the_query_is_cut_off(path, asked);
    if "/"@.is_suffix_of(bare) {
        assert(bare.subrange(bare.len() - 1, bare.len() as int)[0] == bare.last());
        assert(slug.contains(slug.last()));
    }
    trimming_an_ending_takes_all_of_it(bare, "/"@);
    if !slash {
        assert(path =~= bare);
    }
    last_part(lead, slug);
    assert(bare =~= lead.push('/') + slug);
}

proof fn the_query_is_cut_off(path: Seq<char>, asked: Seq<char>)
    requires
        forall|i: int| 0 <= i < path.len() ==> #[trigger] path[i] != '?' && path[i] != '#',
        asked.len() > 0 ==> asked[0] == '?' || asked[0] == '#',
    ensures
        before_query(path + asked) == path,
    decreases path.len(),
{
    let all = path + asked;
    if path.len() > 0 {
        assert(all[0] == path[0]);
        assert(all.drop_first() =~= path.drop_first() + asked);
        the_query_is_cut_off(path.drop_first(), asked);
        assert(before_query(all) =~= path);
    } else {
        assert(all =~= asked);
        assert(before_query(all) =~= path);
    }
}

proof fn last_part(lead: Seq<char>, slug: Seq<char>)
    requires
        !slug.contains('/'),
    ensures
        split(lead.push('/') + slug, '/').last() == slug,
    decreases slug.len(),
{
    let all = lead.push('/') + slug;
    if slug.len() == 0 {
        assert(all =~= lead.push('/'));
        assert(all.drop_last() =~= lead);
        assert(split(all, '/').last() =~= slug);
    } else {
        let shorter = slug.drop_last();
        assert forall|i: int| 0 <= i < shorter.len() implies shorter[i] != '/' by {
            assert(slug.contains(slug[i]));
        }
        last_part(lead, shorter);
        assert(all.drop_last() =~= lead.push('/') + shorter);
        assert(slug.contains(slug.last()));
        assert(split(all, '/').last() =~= slug);
    }
}

/// A text that fits is shown whole; a longer one is cut to what fits, with an ellipsis.
pub proof fn long_texts_are_cut(s: Seq<char>, max: int)
    requires
        0 <= max,
    ensures
        s.len() <= max ==> truncated(s, max) == s,
        s.len() > max ==> truncated(s, max).len() == max + 1 && truncated(s, max).last() == '…'
            && truncated(s, max).drop_last() == s.take(max),
{
    if s.len() > max {
        assert(truncated(s, max).drop_last() =~= s.take(max));
    }
}

/// The only hit of a search is taken by its slug, and of several one is picked by their labels, in order.
pub proof fn the_only_hit_is_taken(hits: &Vec<SearchHit>, r: Result<SearchChoice, AddError>, k: int)
    requires
        call_ensures(resolve_slug, (hits,), r),
    ensures
        hits@.len() == 0 <==> r is Err,
        hits@.len() == 1 <==> (r matches Ok(choice) && choice is Take),
        (r matches Ok(SearchChoice::Take(slug))) ==> r->Ok_0->Take_0@ == hits@[0].slug@,
        (r matches Ok(SearchChoice::Pick(labels))) && 0 <= k < hits@.len() ==> {
            let labels = r->Ok_0->Pick_0.deep_view();
            labels.len() == hits@.len() && (hits@[k].title@ + " — "@).is_prefix_of(labels[k])
        },
{
    if r is Ok && 0 <= k < hits@.len() {
        assert(hits.deep_view()[k] == hits@[k].deep_view());
        match r->Ok_0 {
            SearchChoice::Pick(labels) => {
                let start = hits@[k].title@ + " — "@;
                let label = labels.deep_view()[k];
                assert(label == hit_label(hits.deep_view()[k]));
                assert(label.subrange(0, start.len() as int) =~= start);
            },
            SearchChoice::Take(slug) => {
                assert(hits.deep_view()[0] == hits@[0].deep_view());
            },
        }
    }
}

/// A mod that is known by that very name is taken; without one, only a search goes on.
pub proof fn an_exact_match_is_taken(
    exact: Option<String>,
    args: &AddArgs,
    r: Result<Option<String>, AddError>,
)
    requires
        call_ensures(exact_slug, (exact, args), r),
    ensures
        exact is Some ==> (r matches Ok(found) && found.deep_view() == exact.deep_view()),
        exact is None && args.search ==> (r matches Ok(found) && found is None),
        exact is None && !args.search ==> r is Err,
{
}

/// A hit is shown by its title and the start of its description, of which sixty characters fit.
pub proof fn a_hit_is_shown_by_title_and_description(hit: SearchHitView)
    ensures
        hit.description.len() <= 60 ==> hit_label(hit) == hit.title + " — "@ + hit.description,
        hit.description.len() > 60 ==> hit_label(hit) == hit.title + " — "@ + hit.description.take(
            60,
        ).push('…'),
{
}

/// CurseForge is asked where that is demanded or its name stands anywhere in the query, and nowhere else.
pub proof fn curseforge_is_asked_by_demand_or_link(
    query: Seq<char>,
    start: Seq<char>,
    end: Seq<char>,
    demanded: bool,
)
    ensures
        asks_curseforge(query, true),
        asks_curseforge(start + "curseforge.com"@ + end, demanded),
        asks_curseforge(query, false) ==> exists|i: int|
            0 <= i <= query.len() - "curseforge.com"@.len() && #[trigger] query.subrange(
                i,
                i + "curseforge.com"@.len(),
            ) == "curseforge.com"@,
{
    let link = start + "curseforge.com"@ + end;
    let i = start.len() as int;
    assert(link.subrange(i, i + "curseforge.com"@.len()) =~= "curseforge.com"@);
    assert(occurs_at("curseforge.com"@, link, i));
}

} // verus!
