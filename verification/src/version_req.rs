//! Whether a provider's version string satisfies a manifest constraint.
use semver::{Version, VersionReq};
use vstd::prelude::*;

use crate::text::{
    all_white, chars_of, has_char, is_digit, keep_nonempty, nonempty, same, split,
    split_at_separator, split_on, split_without_separator, string_of, trim, trimmed,
    trimming_takes_white_space_off, white,
};

verus! {

/// `text` is a semantic version.
pub uninterp spec fn is_version(text: Seq<char>) -> bool;

/// `requirement` is a semantic version requirement, `version` is a semantic version, and the
/// version satisfies the requirement.
pub uninterp spec fn admits(requirement: Seq<char>, version: Seq<char>) -> bool;

/// `semver::Version::parse`: whether it accepts a text depends on the text alone.
#[verifier::external_body]
fn parses(text: &str) -> (r: bool)
    ensures
        r == is_version(text@),
{
    Version::parse(text).is_ok()
}

/// `semver::VersionReq::parse`, then `semver::VersionReq::matches` on the parsed version: whether
/// both texts parse and the version satisfies the requirement depends on the two texts alone.
#[verifier::external_body]
fn satisfies(requirement: &str, version: &str) -> (r: bool)
    ensures
        r == admits(requirement@, version@),
{
    match (VersionReq::parse(requirement), Version::parse(version)) {
        (Ok(req), Ok(parsed)) => req.matches(&parsed),
        _ => false,
    }
}

/// A constraint with range syntax, as opposed to a bare exact version.
pub open spec fn range_syntax(constraint: Seq<char>) -> bool {
    ||| constraint.len() > 0 && (constraint[0] == '^' || constraint[0] == '~' || constraint[0]
        == '>' || constraint[0] == '<' || constraint[0] == '=')
    ||| constraint.contains(',')
}

/// Where the run of digits and dots that goes on at `i` ends.
pub open spec fn run_end(s: Seq<char>, i: int) -> int
    decreases s.len() - i,
{
    if 0 <= i < s.len() && (is_digit(s[i]) || s[i] == '.') {
        run_end(s, i + 1)
    } else {
        i
    }
}

/// `MAJOR.MINOR.PATCH` out of the parts of a run, with a patch of zero where there is none.
pub open spec fn core_of(parts: Seq<Seq<char>>) -> Seq<char> {
    parts[0] + "."@ + parts[1] + "."@ + (if parts.len() > 2 {
        parts[2]
    } else {
        "0"@
    })
}

/// The cores of the runs of digits and dots from position `i` on: a run starts at a digit, and
/// counts where it has at least two parts.
pub open spec fn cores_from(s: Seq<char>, i: int) -> Seq<Seq<char>>
    decreases s.len() - i,
    via cores_from_decreases
{
    if !(0 <= i < s.len()) {
        Seq::empty()
    } else if !is_digit(s[i]) {
        cores_from(s, i + 1)
    } else {
        let end = run_end(s, i);
        let parts = nonempty(split(s.subrange(i, end), '.'));
        if parts.len() >= 2 {
            seq![core_of(parts)] + cores_from(s, end)
        } else {
            cores_from(s, end)
        }
    }
}

#[via_fn]
proof fn cores_from_decreases(s: Seq<char>, i: int) {
    if 0 <= i < s.len() && is_digit(s[i]) {
        run_goes_on(s, i + 1);
    }
}

/// A run ends between where it stands and the end of the text.
proof fn run_goes_on(s: Seq<char>, i: int)
    requires
        0 <= i <= s.len(),
    ensures
        i <= run_end(s, i) <= s.len(),
    decreases s.len() - i,
{
    if i < s.len() && (is_digit(s[i]) || s[i] == '.') {
        run_goes_on(s, i + 1);
    }
}

/// The texts to read a version string as, in order: itself, then the core of each run.
pub open spec fn readings(version: Seq<char>) -> Seq<Seq<char>> {
    seq![version] + cores_from(version, 0)
}

/// The first of the texts that is a semantic version.
pub open spec fn first_version(texts: Seq<Seq<char>>) -> Option<Seq<char>>
    decreases texts.len(),
{
    if texts.len() == 0 {
        None
    } else if is_version(texts[0]) {
        Some(texts[0])
    } else {
        first_version(texts.drop_first())
    }
}

/// What `matches` answers, given whether the range admits the version.
pub open spec fn verdict_of(version: Seq<char>, constraint: Seq<char>, admitted: bool) -> bool {
    let c = trimmed(constraint);
    if c == "*"@ {
        true
    } else if range_syntax(c) {
        admitted
    } else {
        version == c
    }
}

/// Whether a version string satisfies a constraint.
pub open spec fn satisfied(version: Seq<char>, constraint: Seq<char>) -> bool {
    verdict_of(
        version,
        constraint,
        match first_version(readings(version)) {
            Some(text) => admits(trimmed(constraint), text),
            None => false,
        },
    )
}

/// Does a provider's version string satisfy a manifest constraint?
///
/// - `"*"` matches anything (latest).
/// - a plain version with no range operator (`"0.5.8"`) is an exact string match.
/// - a range (`"^0.5.8"`, `"~1.2"`, `">=1, <2"`) is a semver requirement, applied to a
///   best-effort parse of the version string.
///
/// Mod versions are not always clean semver (e.g. `mc1.20.1-0.5.13-fabric`). Exact and `*`
/// always work; ranges work for semver-ish versions and are best-effort otherwise.
pub fn matches(version: &str, constraint: &str) -> (r: bool)
    ensures
        r == satisfied(version@, constraint@),
{
    let admitted = match parse_lenient(version) {
        Some(text) => satisfies(trim(constraint).as_str(), text.as_str()),
        None => false,
    };
    verdict(version, constraint, admitted)
}

/// What `matches` answers, given whether the range admits the version.
pub fn verdict(version: &str, constraint: &str, admitted: bool) -> (r: bool)
    ensures
        r == verdict_of(version@, constraint@, admitted),
{
    let c = trim(constraint);
    if same(c.as_str(), "*") {
        true
    } else if is_range(c.as_str()) {
        admitted
    } else {
        same(version, c.as_str())
    }
}

/// Whether a constraint uses range syntax (vs. being a bare exact version).
pub fn is_range(constraint: &str) -> (r: bool)
    ensures
        r == range_syntax(constraint@),
{
    let x = chars_of(constraint);
    if x.len() > 0 && (x[0] == '^' || x[0] == '~' || x[0] == '>' || x[0] == '<' || x[0] == '=') {
        return true;
    }
    has_char(constraint, ',')
}

/// Parse a version leniently: try strict semver first (handles `1.0.36+mc1.20.1`), then fall back
/// to the first `MAJOR.MINOR[.PATCH]` run found in the string. The text that parsed is returned.
pub fn parse_lenient(version: &str) -> (r: Option<String>)
    ensures
        r.deep_view() == first_version(readings(version@)),
{
    let texts = lenient_readings(version);
    let ghost all = readings(version@);
    let mut i: usize = 0;
    assert(all.skip(0) =~= all);
    while i < texts.len()
        invariant
            all == readings(version@),
            texts.deep_view() == all,
            i <= texts@.len(),
            first_version(all) == first_version(all.skip(i as int)),
        decreases texts.len() - i,
    {
        assert(all.skip(i as int)[0] == texts@[i as int]@);
        if parses(texts[i].as_str()) {
            return Some(texts[i].clone());
        }
        assert(all.skip(i as int).drop_first() =~= all.skip(i + 1));
        i = i + 1;
    }
    None
}

/// The texts to read a version string as, in order: the string itself, then `MAJOR.MINOR.PATCH`
/// out of each run of digits and dots in it.
pub fn lenient_readings(version: &str) -> (r: Vec<String>)
    ensures
        r.deep_view() == readings(version@),
{
    let x = chars_of(version);
    let ghost s = version@;
    let mut out: Vec<String> = Vec::new();
    out.push(version.to_owned());
    assert(out.deep_view() + cores_from(s, 0) =~= readings(s));
    let mut i: usize = 0;
    while i < x.len()
        invariant
            x@ == s,
            i <= x@.len(),
            out.deep_view() + cores_from(s, i as int) == readings(s),
        decreases x.len() - i,
    {
        if !('0' <= x[i] && x[i] <= '9') {
            i = i + 1;
            continue;
        }
        let start = i;
        while i < x.len() && (('0' <= x[i] && x[i] <= '9') || x[i] == '.')
            invariant
                x@ == s,
                start <= i <= x@.len(),
                run_end(s, start as int) == run_end(s, i as int),
                i == start ==> is_digit(s[start as int]),
            decreases x.len() - i,
        {
            i = i + 1;
        }
        assert(i == run_end(s, start as int));
        proof {
            run_goes_on(s, start + 1);
        }
        let run = string_of(&x, start, i);
        let parts = keep_nonempty(split_on(run.as_str(), '.'));
        let ghost rest = cores_from(s, i as int);
        let ghost prior = out.deep_view();
        if parts.len() >= 2 {
            let mut core = parts[0].clone();
            core.append(".");
            core.append(parts[1].as_str());
            core.append(".");
            if parts.len() > 2 {
                core.append(parts[2].as_str());
            } else {
                core.append("0");
            }
            assert(core@ == core_of(parts.deep_view()));
            out.push(core);
            assert(out.deep_view() =~= prior.push(core_of(parts.deep_view())));
            assert(out.deep_view() + rest =~= prior + (seq![core_of(parts.deep_view())] + rest));
        }
    }
    assert(cores_from(s, i as int) =~= Seq::empty());
    assert(out.deep_view() =~= out.deep_view() + Seq::empty());
    out
}

/// A star takes every version.
pub proof fn star_takes_everything(version: Seq<char>)
    ensures
        satisfied(version, "*"@),
{
    reveal_strlit("*");
    assert("*"@[0] == '*' && "*"@.last() == '*');
}

/// A bare version without white space around it takes exactly itself.
pub proof fn bare_version_is_exact(version: Seq<char>, constraint: Seq<char>)
    requires
        trimmed(constraint) == constraint,
        constraint != "*"@,
        !range_syntax(constraint),
    ensures
        satisfied(version, constraint) <==> version == constraint,
{
}

// ---- what a constraint means ------------------------------------------------------------------

/// A constraint with white space around it means what stands between: the star takes every version, a
/// text without range syntax takes the version with that very text, and a text with range syntax is one
/// requirement as a whole, which takes a version exactly where it admits the version as it is read.
pub proof fn a_constraint_is_taken_whole(
    lead: Seq<char>,
    text: Seq<char>,
    trail: Seq<char>,
    version: Seq<char>,
)
    requires
        all_white(lead),
        all_white(trail),
        text.len() > 0,
        !white(text[0]),
        !white(text.last()),
    ensures
        ({
            let constraint = lead + text + trail;
            let range = text[0] == '^' || text[0] == '~' || text[0] == '>' || text[0] == '<'
                || text[0] == '=' || text.contains(',');
            &&& text == "*"@ ==> satisfied(version, constraint)
            &&& text != "*"@ && !range ==> (satisfied(version, constraint) <==> version == text)
            &&& range && is_version(version) ==> (satisfied(version, constraint) <==> admits(
                text,
                version,
            ))
            &&& range ==> (satisfied(version, constraint) <==> (first_version(readings(version))
                matches Some(read) && admits(text, read)))
        }),
{
    trimming_takes_white_space_off(lead, text, trail);
    reveal_strlit("*");
    if text == "*"@ {
        assert(text[0] == '*');
        assert(!text.contains(','));
    }
}

/// A version is read as it stands where it is a semantic version; whatever it is read as is one.
pub proof fn semantic_versions_are_read_as_they_stand(version: Seq<char>)
    ensures
        is_version(version) ==> first_version(readings(version)) == Some(version),
        first_version(readings(version)) matches Some(read) ==> is_version(read),
{
    first_version_is_one(readings(version));
}

proof fn first_version_is_one(texts: Seq<Seq<char>>)
    ensures
        first_version(texts) matches Some(read) ==> is_version(read),
    decreases texts.len(),
{
    if texts.len() > 0 {
        first_version_is_one(texts.drop_first());
    }
}

/// A number with nothing but digits.
pub open spec fn digits(s: Seq<char>) -> bool {
    s.len() > 0 && forall|i: int| 0 <= i < s.len() ==> '0' <= #[trigger] s[i] <= '9'
}

/// Digits and dots.
pub open spec fn dotted(s: Seq<char>) -> bool {
    forall|i: int| 0 <= i < s.len() ==> '0' <= #[trigger] s[i] <= '9' || s[i] == '.'
}

/// The text does not go on with a digit or a dot.
pub open spec fn breaks_off(s: Seq<char>) -> bool {
    s.len() > 0 ==> !('0' <= s[0] <= '9') && s[0] != '.'
}

pub open spec fn no_digits(s: Seq<char>) -> bool {
    forall|i: int| 0 <= i < s.len() ==> !('0' <= #[trigger] s[i] <= '9')
}

/// A text that is no semantic version is read as the first three numbers between dots in it, however
/// many more follow.
pub proof fn the_first_three_numbers_are_read(
    lead: Seq<char>,
    major: Seq<char>,
    minor: Seq<char>,
    patch: Seq<char>,
    more: Seq<char>,
    rest: Seq<char>,
)
    requires
        no_digits(lead),
        digits(major),
        digits(minor),
        digits(patch),
        dotted(more),
        more.len() > 0 ==> more[0] == '.',
        breaks_off(rest),
    ensures
        ({
            let core = major + "."@ + minor + "."@ + patch;
            let version = lead + core + more + rest;
            !is_version(version) && is_version(core) ==> first_version(readings(version)) == Some(
                core,
            )
        }),
{
    reveal_strlit(".");
    let core = major + "."@ + minor + "."@ + patch;
    let run = core + more;
    let version = lead + core + more + rest;
    assert(version =~= lead + run + rest);
    assert("."@ =~= seq!['.']);
    three_pieces(major, minor, patch, more);
    assert(run =~= major.push('.') + (minor.push('.') + (patch + more)));
    the_run_is_found(lead, run, rest);
    assert(core_of(nonempty(split(run, '.'))) =~= core);
    let cores = cores_from(version, 0);
    let after = cores_from(version, (lead.len() + run.len()) as int);
    assert(cores == seq![core] + after);
    assert(readings(version).drop_first() =~= cores);
    assert(cores[0] == core);
    reveal_with_fuel(first_version, 3);
}

/// A text that is no semantic version is read as the first two numbers with a dot between, where no
/// third one follows: the third is zero then.
pub proof fn two_numbers_are_read_with_a_zero(
    lead: Seq<char>,
    major: Seq<char>,
    minor: Seq<char>,
    rest: Seq<char>,
)
    requires
        no_digits(lead),
        digits(major),
        digits(minor),
        breaks_off(rest),
    ensures
        ({
            let core = major + "."@ + minor + ".0"@;
            let version = lead + major + "."@ + minor + rest;
            !is_version(version) && is_version(core) ==> first_version(readings(version)) == Some(
                core,
            )
        }),
{
    reveal_strlit(".");
    reveal_strlit(".0");
    reveal_strlit("0");
    let core = major + "."@ + minor + ".0"@;
    let run = major + "."@ + minor;
    let version = lead + major + "."@ + minor + rest;
    assert(version =~= lead + run + rest);
    assert("."@ =~= seq!['.']);
    assert(run =~= major.push('.') + minor);
    assert(!major.contains('.'));
    assert(!minor.contains('.'));
    split_at_separator(major, '.', minor);
    split_without_separator(minor, '.');
    assert(split(run, '.') =~= seq![major, minor]);
    nonempty_first(major, seq![minor]);
    nonempty_first(minor, Seq::empty());
    assert(seq![minor] =~= seq![minor] + Seq::<Seq<char>>::empty());
    assert(seq![major] + seq![minor] =~= seq![major, minor]);
    assert(nonempty(split(run, '.')) =~= seq![major, minor]);
    the_run_is_found(lead, run, rest);
    assert(core_of(seq![major, minor]) =~= core);
    let cores = cores_from(version, 0);
    let after = cores_from(version, (lead.len() + run.len()) as int);
    assert(cores == seq![core] + after);
    assert(readings(version).drop_first() =~= cores);
    assert(cores[0] == core);
    reveal_with_fuel(first_version, 3);
}

/// A number that cannot be read is passed over: the version is read as what follows would be.
pub proof fn unusable_numbers_are_passed_over(lead: Seq<char>, run: Seq<char>, rest: Seq<char>)
    requires
        no_digits(lead),
        run.len() > 0,
        '0' <= run[0] <= '9',
        dotted(run),
        breaks_off(rest),
        !is_version(lead + run + rest),
        !is_version(rest),
        nonempty(split(run, '.')).len() < 2 || !is_version(core_of(nonempty(split(run, '.')))),
    ensures
        first_version(readings(lead + run + rest)) == first_version(readings(rest)),
{
    reveal_with_fuel(first_version, 3);
    let version = lead + run + rest;
    the_run_is_found(lead, run, rest);
    cores_of_the_tail(lead + run, rest, 0);
    let after = cores_from(version, (lead.len() + run.len()) as int);
    assert(readings(version).drop_first() =~= cores_from(version, 0));
    assert(readings(rest).drop_first() =~= cores_from(rest, 0));
    if nonempty(split(run, '.')).len() >= 2 {
        assert(cores_from(version, 0).drop_first() =~= after);
    }
}

proof fn three_pieces(major: Seq<char>, minor: Seq<char>, patch: Seq<char>, more: Seq<char>)
    requires
        digits(major),
        digits(minor),
        digits(patch),
        more.len() > 0 ==> more[0] == '.',
    ensures
        ({
            let parts = nonempty(
                split(major.push('.') + (minor.push('.') + (patch + more)), '.'),
            );
            parts.len() > 2 && parts[0] == major && parts[1] == minor && parts[2] == patch
        }),
{
    let end = patch + more;
    assert(!major.contains('.'));
    assert(!minor.contains('.'));
    assert(!patch.contains('.'));
    split_at_separator(major, '.', minor.push('.') + end);
    split_at_separator(minor, '.', end);
    let tail = if more.len() > 0 {
        split(more.drop_first(), '.')
    } else {
        Seq::empty()
    };
    if more.len() > 0 {
        assert(end =~= patch.push('.') + more.drop_first());
        split_at_separator(patch, '.', more.drop_first());
    } else {
        assert(end =~= patch);
        split_without_separator(patch, '.');
        assert(split(end, '.') =~= seq![patch] + tail);
    }
    nonempty_first(patch, tail);
    nonempty_first(minor, seq![patch] + tail);
    nonempty_first(major, seq![minor] + (seq![patch] + tail));
}

proof fn nonempty_first(piece: Seq<char>, rest: Seq<Seq<char>>)
    requires
        piece.len() > 0,
    ensures
        nonempty(seq![piece] + rest) == seq![piece] + nonempty(rest),
    decreases rest.len(),
{
    reveal_with_fuel(nonempty, 2);
    let all = seq![piece] + rest;
    if rest.len() == 0 {
        assert(all.drop_last() =~= Seq::<Seq<char>>::empty());
        assert(nonempty(all) =~= seq![piece] + nonempty(rest));
    } else {
        nonempty_first(piece, rest.drop_last());
        assert(all.drop_last() =~= seq![piece] + rest.drop_last());
        assert(nonempty(all) =~= seq![piece] + nonempty(rest));
    }
}

proof fn the_run_is_found(lead: Seq<char>, run: Seq<char>, rest: Seq<char>)
    requires
        no_digits(lead),
        run.len() > 0,
        '0' <= run[0] <= '9',
        dotted(run),
        breaks_off(rest),
    ensures
        ({
            let version = lead + run + rest;
            let after = cores_from(version, (lead.len() + run.len()) as int);
            let parts = nonempty(split(run, '.'));
            cores_from(version, 0) == (if parts.len() >= 2 {
                seq![core_of(parts)] + after
            } else {
                after
            })
        }),
{
    let version = lead + run + rest;
    let start = lead.len() as int;
    let end = (lead.len() + run.len()) as int;
    no_cores_without_digits(version, 0, start);
    assert(version[start] == run[0]);
    run_ends_at(version, start, end);
    assert(version.subrange(start, end) =~= run);
}

proof fn no_cores_without_digits(s: Seq<char>, i: int, j: int)
    requires
        0 <= i <= j < s.len(),
        forall|k: int| i <= k < j ==> !is_digit(#[trigger] s[k]),
    ensures
        cores_from(s, i) == cores_from(s, j),
    decreases j - i,
{
    if i < j {
        no_cores_without_digits(s, i + 1, j);
    }
}

proof fn run_ends_at(s: Seq<char>, i: int, end: int)
    requires
        0 <= i <= end <= s.len(),
        forall|k: int| i <= k < end ==> is_digit(#[trigger] s[k]) || s[k] == '.',
        end < s.len() ==> !is_digit(s[end]) && s[end] != '.',
    ensures
        run_end(s, i) == end,
    decreases end - i,
{
    if i < end {
        run_ends_at(s, i + 1, end);
    }
}

proof fn cores_of_the_tail(head: Seq<char>, s: Seq<char>, i: int)
    requires
        0 <= i <= s.len(),
    ensures
        cores_from(head + s, head.len() + i) == cores_from(s, i),
    decreases s.len() - i,
{
    let all = head + s;
    let at = head.len() + i;
    if i < s.len() {
        assert(all[at] == s[i]);
        if is_digit(s[i]) {
            run_of_the_tail(head, s, i);
            run_goes_on(s, i + 1);
            let end = run_end(s, i);
            assert(end > i);
            assert(all.subrange(at, head.len() + end) =~= s.subrange(i, end));
            cores_of_the_tail(head, s, end);
        } else {
            cores_of_the_tail(head, s, i + 1);
        }
    }
}

proof fn run_of_the_tail(head: Seq<char>, s: Seq<char>, i: int)
    requires
        0 <= i <= s.len(),
    ensures
        run_end(head + s, head.len() + i) == head.len() + run_end(s, i),
    decreases s.len() - i,
{
    if i < s.len() {
        assert((head + s)[head.len() + i] == s[i]);
        run_of_the_tail(head, s, i + 1);
    }
}

} // verus!
