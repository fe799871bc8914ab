//! The version catalogs that `lode init` offers.
use vstd::prelude::*;

use crate::loader::Loader;
use crate::order::{
    arrange, arranged, arranging_orders, arranging_permutes, in_order, keep, strict_order, Ranked,
};
use crate::resolve::{contains_text, find_last, last_value};
use crate::text::{
    before, decimal, decimal_reads_back, decimal_text, is_before, number, parse_number, same,
    split, split_at_separator, split_on, split_without_separator, starts_with, strip_suffix,
    text_order_is_strict,
};

verus! {

/// A selectable loader version, with an optional note ("latest"/"recommended"/"stable").
#[derive(Debug)]
pub struct LoaderVersion {
    pub version: String,
    pub note: Option<String>,
}

/// The live version catalogs `lode init` offers: Minecraft releases (from Modrinth) and
/// per-loader versions (from each loader's own metadata service).
#[derive(Debug)]
pub struct Versions;

/// A Modrinth game-version tag. Only `release` tags are offered to the picker.
#[derive(Debug)]
pub struct Tag {
    pub version: String,
    pub version_type: String,
    pub date: String,
}

/// A Fabric/Quilt loader build. The two services share this shape.
#[derive(Debug)]
pub struct Build {
    pub version: String,
    pub stable: bool,
}

/// Which catalog holds the versions of a loader for a Minecraft version.
#[derive(Debug, Clone, Copy, PartialEq, Eq, Structural)]
pub enum Catalog {
    FabricBuilds,
    QuiltBuilds,
    ForgePromotions,
    NeoforgeReleases,
    NeoforgeLegacyReleases,
}

/// What a catalog answered: builds, promotions (`<mc>-latest` / `<mc>-recommended` mapped to a
/// build), or a list of releases, oldest first.
#[derive(Debug)]
pub enum CatalogPage {
    Builds(Vec<Build>),
    Promotions(Vec<(String, String)>),
    Releases(Vec<String>),
    LegacyReleases(Vec<String>),
}

#[verifier::ext_equal]
pub struct LoaderVersionView {
    pub version: Seq<char>,
    pub note: Option<Seq<char>>,
}

#[verifier::ext_equal]
pub struct TagView {
    pub version: Seq<char>,
    pub version_type: Seq<char>,
    pub date: Seq<char>,
}

#[verifier::ext_equal]
pub struct BuildView {
    pub version: Seq<char>,
    pub stable: bool,
}

impl DeepView for LoaderVersion {
    type V = LoaderVersionView;

    open spec fn deep_view(&self) -> LoaderVersionView {
        LoaderVersionView { version: self.version@, note: self.note.deep_view() }
    }
}

impl DeepView for Tag {
    type V = TagView;

    open spec fn deep_view(&self) -> TagView {
        TagView { version: self.version@, version_type: self.version_type@, date: self.date@ }
    }
}

impl DeepView for Build {
    type V = BuildView;

    open spec fn deep_view(&self) -> BuildView {
        BuildView { version: self.version@, stable: self.stable }
    }
}

impl Ranked for Tag {
    open spec fn ranks_before(a: TagView, b: TagView) -> bool {
        before(b.date, a.date)
    }

    fn is_ranked_before(&self, other: &Self) -> (r: bool) {
        is_before(other.date.as_str(), self.date.as_str())
    }
}

// ---- Minecraft --------------------------------------------------------------------------------

pub open spec fn is_release_tag(tag: TagView) -> bool {
    tag.version_type == "release"@
}

pub open spec fn tag_versions(tags: Seq<TagView>) -> Seq<Seq<char>> {
    tags.map_values(|t: TagView| t.version)
}

/// The versions of the release tags, newest first.
pub open spec fn releases_of(tags: Seq<TagView>) -> Seq<Seq<char>> {
    tag_versions(arranged::<Tag>(tags.filter(|t: TagView| is_release_tag(t))))
}

/// Keep only release tags, newest publish-date first.
pub fn select_minecraft_versions(tags: Vec<Tag>) -> (r: Vec<String>)
    ensures
        r.deep_view() == releases_of(tags.deep_view()),
{
    let ghost all = tags.deep_view();
    let ghost wanted = |t: TagView| is_release_tag(t);
    let mut flags: Vec<bool> = Vec::new();
    let mut i: usize = 0;
    while i < tags.len()
        invariant
            all == tags.deep_view(),
            i <= tags@.len(),
            flags@.len() == i,
            forall|k: int| 0 <= k < i ==> #[trigger] flags@[k] == is_release_tag(all[k]),
        decreases tags.len() - i,
    {
        assert(all[i as int] == tags@[i as int].deep_view());
        flags.push(same(tags[i].version_type.as_str(), "release"));
        i = i + 1;
    }
    let sorted = arrange(keep(tags, &flags, Ghost(wanted)));
    let ghost kept = sorted.deep_view();
    let mut out: Vec<String> = Vec::new();
    let mut k: usize = 0;
    while k < sorted.len()
        invariant
            kept == sorted.deep_view(),
            k <= sorted@.len(),
            out.deep_view() == tag_versions(kept).take(k as int),
        decreases sorted.len() - k,
    {
        assert(kept[k as int] == sorted@[k as int].deep_view());
        let ghost prior = out.deep_view();
        out.push(sorted[k].version.clone());
        k = k + 1;
        assert(out.deep_view() =~= prior.push(kept[k - 1].version));
        assert(out.deep_view() =~= tag_versions(kept).take(k as int));
    }
    assert(tag_versions(kept).take(k as int) =~= tag_versions(kept));
    out
}

/// The releases that are supported, in their order.
pub open spec fn offered(releases: Seq<Seq<char>>, supported: Seq<Seq<char>>) -> Seq<Seq<char>>
    decreases releases.len(),
{
    if releases.len() == 0 {
        releases
    } else if supported.contains(releases.last()) {
        offered(releases.drop_last(), supported).push(releases.last())
    } else {
        offered(releases.drop_last(), supported)
    }
}

/// `list` with `item` at its end, unless it holds it already.
pub open spec fn with_once(list: Seq<Seq<char>>, item: Seq<char>) -> Seq<Seq<char>> {
    if list.contains(item) {
        list
    } else {
        list.push(item)
    }
}

fn push_once(list: &mut Vec<String>, item: String)
    ensures
        final(list).deep_view() == with_once(old(list).deep_view(), item@),
{
    if !contains_text(list, item.as_str()) {
        let ghost prior = list.deep_view();
        list.push(item);
        assert(list.deep_view() =~= prior.push(item@));
    }
}

/// The Minecraft version of a promotion's key.
pub open spec fn promoted_mc(key: Seq<char>) -> Option<Seq<char>> {
    if "-latest"@.is_suffix_of(key) {
        Some(key.take(key.len() - "-latest"@.len()))
    } else if "-recommended"@.is_suffix_of(key) {
        Some(key.take(key.len() - "-recommended"@.len()))
    } else {
        None
    }
}

/// The Minecraft versions of the promotions, each once.
pub open spec fn promoted_mcs(promos: Seq<(Seq<char>, Seq<char>)>) -> Seq<Seq<char>>
    decreases promos.len(),
{
    if promos.len() == 0 {
        Seq::empty()
    } else {
        let head = promoted_mcs(promos.drop_last());
        match promoted_mc(promos.last().0) {
            Some(mc) => with_once(head, mc),
            None => head,
        }
    }
}

/// The Minecraft versions present in Forge's promotions feed (the `<mc>` part of each key), each
/// once.
pub fn forge_minecraft_versions(promos: &Vec<(String, String)>) -> (r: Vec<String>)
    ensures
        r.deep_view() == promoted_mcs(promos.deep_view()),
{
    let ghost all = promos.deep_view();
    let mut out: Vec<String> = Vec::new();
    let mut i: usize = 0;
    assert(out.deep_view() =~= promoted_mcs(all.take(0)));
    while i < promos.len()
        invariant
            all == promos.deep_view(),
            i <= promos@.len(),
            out.deep_view() == promoted_mcs(all.take(i as int)),
        decreases promos.len() - i,
    {
        proof {
            assert(all[i as int] == promos@[i as int].deep_view());
            assert(all.take(i + 1).drop_last() =~= all.take(i as int));
            assert(all.take(i + 1).last() == all[i as int]);
        }
        match strip_suffix(promos[i].0.as_str(), "-latest") {
            Some(mc) => {
                push_once(&mut out, mc);
            },
            None => match strip_suffix(promos[i].0.as_str(), "-recommended") {
                Some(mc) => {
                    push_once(&mut out, mc);
                },
                None => {},
            },
        }
        i = i + 1;
    }
    assert(all.take(i as int) =~= all);
    out
}

/// The Minecraft version that a modern NeoForge version belongs to.
pub open spec fn neoforge_mc(version: Seq<char>) -> Option<Seq<char>> {
    let parts = split(version, '.');
    if parts.len() != 3 {
        None
    } else {
        match (number(parts[0], u32::MAX as nat), number(parts[1], u32::MAX as nat)) {
            (Some(major), Some(minor)) => Some(
                if minor == 0 {
                    "1."@ + decimal(major)
                } else {
                    "1."@ + decimal(major) + "."@ + decimal(minor)
                },
            ),
            _ => None,
        }
    }
}

/// Map a modern NeoForge version `X.Y.Z` back to its Minecraft version: `1.X.Y`, or `1.X` when the
/// minor is 0 (e.g. `21.0.169` -> `1.21`, `20.4.190` -> `1.20.4`). Inputs that aren't `X.Y.Z` (a
/// missing patch, non-numeric parts) yield `None`, so partial or malformed tags are ignored. Exactly
/// three dot-separated components (the patch may carry a `-beta`/`-rc` suffix, which keeps its dot
/// count at three): this rejects both too-short strings (`47.1`) and the legacy hyphenated 1.20.1
/// form (`1.20.1-47.1.106`, five components) that belongs to the other artifact.
pub fn neoforge_version_to_mc(version: &str) -> (r: Option<String>)
    ensures
        r.deep_view() == neoforge_mc(version@),
{
    let parts = split_on(version, '.');
    let ghost all = parts.deep_view();
    if parts.len() != 3 {
        return None;
    }
    assert(all[0] == parts@[0]@ && all[1] == parts@[1]@);
    let major = match parse_number(parts[0].as_str(), 0xffff_ffff) {
        Some(n) => n,
        None => {
            return None;
        },
    };
    let minor = match parse_number(parts[1].as_str(), 0xffff_ffff) {
        Some(n) => n,
        None => {
            return None;
        },
    };
    let mut mc = "1.".to_owned();
    mc.append(decimal_text(major).as_str());
    if minor != 0 {
        mc.append(".");
        mc.append(decimal_text(minor).as_str());
    }
    Some(mc)
}

/// A version of the legacy 1.20.1 line.
pub open spec fn legacy_build(version: Seq<char>) -> bool {
    "1.20.1-"@.is_prefix_of(version)
}

/// The Minecraft versions of the modern NeoForge releases, each once.
pub open spec fn modern_mcs(releases: Seq<Seq<char>>) -> Seq<Seq<char>>
    decreases releases.len(),
{
    if releases.len() == 0 {
        Seq::empty()
    } else {
        let head = modern_mcs(releases.drop_last());
        match neoforge_mc(releases.last()) {
            Some(mc) => with_once(head, mc),
            None => head,
        }
    }
}

/// The Minecraft versions NeoForge supports.
pub open spec fn neoforge_mcs(releases: Seq<Seq<char>>, legacy: Seq<Seq<char>>) -> Seq<Seq<char>> {
    if exists|i: int| 0 <= i < legacy.len() && legacy_build(#[trigger] legacy[i]) {
        with_once(modern_mcs(releases), "1.20.1"@)
    } else {
        modern_mcs(releases)
    }
}

/// Minecraft versions NeoForge supports: its modern line (1.20.2+, one `X.Y.*` series per MC
/// under the `neoforge` artifact) plus 1.20.1, whose builds predate that scheme and live under
/// the legacy `forge` artifact.
pub fn neoforge_minecraft_versions(releases: &Vec<String>, legacy: &Vec<String>) -> (r: Vec<String>)
    ensures
        r.deep_view() == neoforge_mcs(releases.deep_view(), legacy.deep_view()),
{
    let ghost all = releases.deep_view();
    let ghost old_line = legacy.deep_view();
    let mut out: Vec<String> = Vec::new();
    let mut i: usize = 0;
    assert(out.deep_view() =~= modern_mcs(all.take(0)));
    while i < releases.len()
        invariant
            all == releases.deep_view(),
            i <= releases@.len(),
            out.deep_view() == modern_mcs(all.take(i as int)),
        decreases releases.len() - i,
    {
        proof {
            assert(all[i as int] == releases@[i as int]@);
            assert(all.take(i + 1).drop_last() =~= all.take(i as int));
            assert(all.take(i + 1).last() == all[i as int]);
        }
        match neoforge_version_to_mc(releases[i].as_str()) {
            Some(mc) => {
                push_once(&mut out, mc);
            },
            None => {},
        }
        i = i + 1;
    }
    assert(all.take(i as int) =~= all);
    let mut k: usize = 0;
    while k < legacy.len()
        invariant
            old_line == legacy.deep_view(),
            out.deep_view() == modern_mcs(all),
            all == releases.deep_view(),
            k <= legacy@.len(),
            forall|j: int| 0 <= j < k ==> !legacy_build(#[trigger] old_line[j]),
        decreases legacy.len() - k,
    {
        assert(old_line[k as int] == legacy@[k as int]@);
        if starts_with(legacy[k].as_str(), "1.20.1-") {
            push_once(&mut out, "1.20.1".to_owned());
            return out;
        }
        k = k + 1;
    }
    out
}

// ---- loaders ----------------------------------------------------------------------------------

/// The builds, with the stable ones noted.
pub open spec fn noted_builds(builds: Seq<BuildView>) -> Seq<LoaderVersionView> {
    builds.map_values(
        |b: BuildView|
            LoaderVersionView {
                version: b.version,
                note: if b.stable {
                    Some("stable"@)
                } else {
                    None
                },
            },
    )
}

/// Map loader builds to selectable versions, tagging stable ones. Upstream order (newest-first)
/// is preserved.
pub fn builds_to_versions(builds: Vec<Build>) -> (r: Vec<LoaderVersion>)
    ensures
        r.deep_view() == noted_builds(builds.deep_view()),
{
    let ghost all = builds.deep_view();
    let mut out: Vec<LoaderVersion> = Vec::new();
    let mut i: usize = 0;
    while i < builds.len()
        invariant
            all == builds.deep_view(),
            i <= builds@.len(),
            out.deep_view() == noted_builds(all).take(i as int),
        decreases builds.len() - i,
    {
        assert(all[i as int] == builds@[i as int].deep_view());
        let ghost prior = out.deep_view();
        let note = if builds[i].stable {
            Some("stable".to_owned())
        } else {
            None
        };
        let v = LoaderVersion { version: builds[i].version.clone(), note };
        let ghost added = v.deep_view();
        out.push(v);
        i = i + 1;
        assert(out.deep_view() =~= prior.push(added));
        assert(added == noted_builds(all)[i - 1]);
        assert(out.deep_view() =~= noted_builds(all).take(i as int));
    }
    assert(noted_builds(all).take(i as int) =~= noted_builds(all));
    out
}

/// What Forge's promotions offer for a Minecraft version: its latest build, then its recommended
/// one unless that is the same.
pub open spec fn forge_offer(promos: Seq<(Seq<char>, Seq<char>)>, mc: Seq<char>) -> Seq<
    LoaderVersionView,
> {
    let latest = last_value(promos, mc + "-latest"@);
    let recommended = last_value(promos, mc + "-recommended"@);
    let first = match latest {
        Some(v) => seq![LoaderVersionView { version: v, note: Some("latest"@) }],
        None => Seq::empty(),
    };
    match recommended {
        Some(v) if latest != Some(v) => first.push(
            LoaderVersionView { version: v, note: Some("recommended"@) },
        ),
        _ => first,
    }
}

/// From Forge's promotions, offer this Minecraft version's latest then recommended build,
/// deduping when both point at the same build.
pub fn select_forge_versions(promos: &Vec<(String, String)>, mc: &str) -> (r: Vec<LoaderVersion>)
    ensures
        r.deep_view() == forge_offer(promos.deep_view(), mc@),
{
    let mut latest_key = mc.to_owned();
    latest_key.append("-latest");
    let mut recommended_key = mc.to_owned();
    recommended_key.append("-recommended");
    let latest = find_last(promos, latest_key.as_str());
    let recommended = find_last(promos, recommended_key.as_str());
    let mut out: Vec<LoaderVersion> = Vec::new();
    let repeated = match (&latest, &recommended) {
        (Some(a), Some(b)) => same(a.as_str(), b.as_str()),
        _ => false,
    };
    match latest {
        Some(v) => {
            out.push(LoaderVersion { version: v, note: Some("latest".to_owned()) });
            assert(out.deep_view() =~= seq![
                LoaderVersionView { version: v@, note: Some("latest"@) },
            ]);
        },
        None => {
            assert(out.deep_view() =~= Seq::<LoaderVersionView>::empty());
        },
    }
    if !repeated {
        match recommended {
            Some(v) => {
                let ghost prior = out.deep_view();
                out.push(LoaderVersion { version: v, note: Some("recommended".to_owned()) });
                assert(out.deep_view() =~= prior.push(
                    LoaderVersionView { version: v@, note: Some("recommended"@) },
                ));
            },
            None => {},
        }
    }
    out
}

/// The prefix of the NeoForge versions for a Minecraft version.
pub open spec fn prefix_for(mc: Seq<char>) -> Seq<char> {
    let parts = split(mc, '.');
    (if parts.len() > 1 {
        parts[1]
    } else {
        "0"@
    }) + "."@ + (if parts.len() > 2 {
        parts[2]
    } else {
        "0"@
    }) + "."@
}

/// Map a Minecraft version `1.X.Y` to the NeoForge version prefix `X.Y.` (Y defaults to 0).
pub fn neoforge_prefix(mc: &str) -> (r: String)
    ensures
        r@ == prefix_for(mc@),
{
    let parts = split_on(mc, '.');
    let ghost all = parts.deep_view();
    let mut out = if parts.len() > 1 {
        assert(all[1] == parts@[1]@);
        parts[1].clone()
    } else {
        "0".to_owned()
    };
    out.append(".");
    if parts.len() > 2 {
        assert(all[2] == parts@[2]@);
        out.append(parts[2].as_str());
    } else {
        out.append("0");
    }
    out.append(".");
    out
}

/// The versions with the prefix, in reverse order and without a note.
pub open spec fn newest_with(versions: Seq<Seq<char>>, prefix: Seq<char>) -> Seq<LoaderVersionView>
    decreases versions.len(),
{
    if versions.len() == 0 {
        Seq::empty()
    } else if prefix.is_prefix_of(versions.last()) {
        seq![LoaderVersionView { version: versions.last(), note: None }] + newest_with(
            versions.drop_last(),
            prefix,
        )
    } else {
        newest_with(versions.drop_last(), prefix)
    }
}

fn with_prefix_newest_first(versions: &Vec<String>, prefix: &str) -> (r: Vec<LoaderVersion>)
    ensures
        r.deep_view() == newest_with(versions.deep_view(), prefix@),
{
    let ghost all = versions.deep_view();
    let mut out: Vec<LoaderVersion> = Vec::new();
    let mut i: usize = versions.len();
    proof {
        assert(all.take(i as int) =~= all);
        assert(out.deep_view() + newest_with(all, prefix@) =~= newest_with(all, prefix@));
    }
    while i > 0
        invariant
            all == versions.deep_view(),
            i <= versions@.len(),
            out.deep_view() + newest_with(all.take(i as int), prefix@) == newest_with(all, prefix@),
        decreases i,
    {
        proof {
            assert(all[i - 1] == versions@[i - 1]@);
            assert(all.take(i as int).last() == all[i - 1]);
            assert(all.take(i as int).drop_last() =~= all.take(i - 1));
        }
        if starts_with(versions[i - 1].as_str(), prefix) {
            let ghost prior = out.deep_view();
            let ghost rest = newest_with(all.take(i - 1), prefix@);
            let v = LoaderVersion { version: versions[i - 1].clone(), note: None };
            let ghost added = v.deep_view();
            out.push(v);
            proof {
                assert(out.deep_view() =~= prior.push(added));
                assert(out.deep_view() + rest =~= prior + (seq![added] + rest));
            }
        }
        i = i - 1;
    }
    assert(out.deep_view() + newest_with(all.take(0), prefix@) =~= out.deep_view());
    out
}

/// Keep NeoForge builds whose version matches the Minecraft-derived prefix, newest first. Maven
/// returns ascending; the picker wants newest first.
pub fn select_neoforge_versions(versions: Vec<String>, mc: &str) -> (r: Vec<LoaderVersion>)
    ensures
        r.deep_view() == newest_with(versions.deep_view(), prefix_for(mc@)),
{
    with_prefix_newest_first(&versions, neoforge_prefix(mc).as_str())
}

/// Keep the 1.20.1 builds from the legacy `forge` artifact, newest first. Maven returns ascending,
/// so the kept subset is reversed for the picker.
pub fn select_neoforge_legacy_versions(versions: Vec<String>) -> (r: Vec<LoaderVersion>)
    ensures
        r.deep_view() == newest_with(versions.deep_view(), "1.20.1-"@),
{
    with_prefix_newest_first(&versions, "1.20.1-")
}

/// Which catalog holds the versions of a loader for a Minecraft version.
pub open spec fn catalog_of(loader: Loader, mc: Seq<char>) -> Catalog {
    match loader {
        Loader::Fabric => Catalog::FabricBuilds,
        Loader::Quilt => Catalog::QuiltBuilds,
        Loader::Forge => Catalog::ForgePromotions,
        Loader::Neoforge => if mc == "1.20.1"@ {
            Catalog::NeoforgeLegacyReleases
        } else {
            Catalog::NeoforgeReleases
        },
    }
}

impl Versions {
    /// Minecraft release versions, newest first. Modrinth's tag endpoint is a single source that
    /// works regardless of the chosen loader.
    pub fn minecraft(tags: Vec<Tag>) -> (r: Vec<String>)
        ensures
            r.deep_view() == releases_of(tags.deep_view()),
    {
        select_minecraft_versions(tags)
    }

    /// Minecraft versions the given loader actually ships builds for, newest first. This is the set
    /// `lode init` offers so a loader+Minecraft pair can never dead-end: Fabric and Quilt are
    /// constrained by each service's supported game-version list; Forge and NeoForge by the versions
    /// their own release metadata publishes (NeoForge's 1.20.1 line, which lives under the legacy
    /// `forge` artifact, is folded in).
    pub fn minecraft_for(releases: Vec<String>, supported: &Vec<String>) -> (r: Vec<String>)
        ensures
            r.deep_view() == offered(releases.deep_view(), supported.deep_view()),
    {
        let ghost all = releases.deep_view();
        let ghost known = supported.deep_view();
        let mut out: Vec<String> = Vec::new();
        let mut i: usize = 0;
        assert(out.deep_view() =~= offered(all.take(0), known));
        while i < releases.len()
            invariant
                all == releases.deep_view(),
                known == supported.deep_view(),
                i <= releases@.len(),
                out.deep_view() == offered(all.take(i as int), known),
            decreases releases.len() - i,
        {
            proof {
                assert(all[i as int] == releases@[i as int]@);
                assert(all.take(i + 1).drop_last() =~= all.take(i as int));
                assert(all.take(i + 1).last() == all[i as int]);
            }
            if contains_text(supported, releases[i].as_str()) {
                let ghost prior = out.deep_view();
                out.push(releases[i].clone());
                assert(out.deep_view() =~= prior.push(all[i as int]));
            }
            i = i + 1;
        }
        assert(all.take(i as int) =~= all);
        out
    }

    /// Which catalog to ask for the versions of a loader. NeoForge's modern line (1.20.2+) encodes
    /// the Minecraft version in its own `X.Y.*` numbering under the `neoforge` artifact; 1.20.1
    /// predates that scheme and lives under the legacy `forge` artifact as `1.20.1-47.*`.
    pub fn catalog(loader: Loader, mc: &str) -> (r: Catalog)
        ensures
            r == catalog_of(loader, mc@),
    {
        match loader {
            Loader::Fabric => Catalog::FabricBuilds,
            Loader::Quilt => Catalog::QuiltBuilds,
            Loader::Forge => Catalog::ForgePromotions,
            Loader::Neoforge => if same(mc, "1.20.1") {
                Catalog::NeoforgeLegacyReleases
            } else {
                Catalog::NeoforgeReleases
            },
        }
    }

    /// Loader versions applicable to `mc`, best (newest/recommended) first, out of what the catalog
    /// answered.
    pub fn loader(page: CatalogPage, mc: &str) -> (r: Vec<LoaderVersion>)
        ensures
            r.deep_view() == (match page {
                CatalogPage::Builds(builds) => noted_builds(builds.deep_view()),
                CatalogPage::Promotions(promos) => forge_offer(promos.deep_view(), mc@),
                CatalogPage::Releases(list) => newest_with(list.deep_view(), prefix_for(mc@)),
                CatalogPage::LegacyReleases(list) => newest_with(list.deep_view(), "1.20.1-"@),
            }),
    {
        match page {
            CatalogPage::Builds(builds) => builds_to_versions(builds),
            CatalogPage::Promotions(promos) => select_forge_versions(&promos, mc),
            CatalogPage::Releases(list) => select_neoforge_versions(list, mc),
            CatalogPage::LegacyReleases(list) => select_neoforge_legacy_versions(list),
        }
    }
}

impl Catalog {
    /// Where a catalog is served.
    pub fn url(self) -> (r: &'static str)
        ensures
            r@ == (match self {
                Catalog::FabricBuilds => "https://meta.fabricmc.net/v2/versions/loader"@,
                Catalog::QuiltBuilds => "https://meta.quiltmc.org/v3/versions/loader"@,
                Catalog::ForgePromotions =>
                    "https://files.minecraftforge.net/net/minecraftforge/forge/promotions_slim.json"@,
                Catalog::NeoforgeReleases =>
                    "https://maven.neoforged.net/api/maven/versions/releases/net/neoforged/neoforge"@,
                Catalog::NeoforgeLegacyReleases =>
                    "https://maven.neoforged.net/api/maven/versions/releases/net/neoforged/forge"@,
            }),
    {
        match self {
            Catalog::FabricBuilds => "https://meta.fabricmc.net/v2/versions/loader",
            Catalog::QuiltBuilds => "https://meta.quiltmc.org/v3/versions/loader",
            Catalog::ForgePromotions => {
                "https://files.minecraftforge.net/net/minecraftforge/forge/promotions_slim.json"
            },
            Catalog::NeoforgeReleases => {
                "https://maven.neoforged.net/api/maven/versions/releases/net/neoforged/neoforge"
            },
            Catalog::NeoforgeLegacyReleases => {
                "https://maven.neoforged.net/api/maven/versions/releases/net/neoforged/forge"
            },
        }
    }
}

// ---- laws -------------------------------------------------------------------------------------

/// The order of tags is strict.
pub proof fn tag_order_is_strict()
    ensures
        strict_order::<Tag>(),
{
    text_order_is_strict();
}

/// The release tags come out newest first, whatever the order in which they were listed.
pub proof fn minecraft_releases_are_newest_first(tags: Seq<TagView>)
    ensures
        in_order::<Tag>(arranged::<Tag>(tags.filter(|t: TagView| is_release_tag(t)))),
{
    tag_order_is_strict();
    arranging_orders::<Tag>(tags.filter(|t: TagView| is_release_tag(t)));
}

/// Every version that is offered is a release that the loader supports.
pub proof fn offered_versions_are_supported(
    releases: Seq<Seq<char>>,
    supported: Seq<Seq<char>>,
    i: int,
)
    requires
        0 <= i < offered(releases, supported).len(),
    ensures
        supported.contains(offered(releases, supported)[i]),
        releases.contains(offered(releases, supported)[i]),
    decreases releases.len(),
{
    let head = releases.drop_last();
    let earlier = offered(head, supported);
    if i < earlier.len() {
        offered_versions_are_supported(head, supported, i);
        let k = choose|k: int| 0 <= k < head.len() && head[k] == earlier[i];
        assert(releases[k] == earlier[i]);
    } else {
        assert(releases[releases.len() - 1] == offered(releases, supported)[i]);
    }
}

/// A Minecraft version out of Forge's promotions always has a build: the pair is no dead end.
pub proof fn forge_pairs_do_not_dead_end(promos: Seq<(Seq<char>, Seq<char>)>, mc: Seq<char>)
    requires
        promoted_mcs(promos).contains(mc),
    ensures
        forge_offer(promos, mc).len() > 0,
{
    promoted_keys_are_there(promos, mc);
}

proof fn promoted_keys_are_there(promos: Seq<(Seq<char>, Seq<char>)>, mc: Seq<char>)
    requires
        promoted_mcs(promos).contains(mc),
    ensures
        last_value(promos, mc + "-latest"@) is Some || last_value(promos, mc + "-recommended"@) is Some,
    decreases promos.len(),
{
    let head = promos.drop_last();
    let key = promos.last().0;
    if promoted_mcs(head).contains(mc) {
        promoted_keys_are_there(head, mc);
    } else {
        let listed = promoted_mcs(promos);
        let i = choose|i: int| 0 <= i < listed.len() && listed[i] == mc;
        assert(promoted_mc(key) == Some(mc)) by {
            if i < promoted_mcs(head).len() {
                assert(promoted_mcs(head)[i] == mc);
            }
        }
        if "-latest"@.is_suffix_of(key) {
            assert(key =~= mc + "-latest"@);
        } else {
            assert(key =~= mc + "-recommended"@);
        }
    }
}

/// Where a legacy 1.20.1 build is listed, NeoForge has a build for 1.20.1.
pub proof fn legacy_builds_are_offered(legacy: Seq<Seq<char>>, i: int)
    requires
        0 <= i < legacy.len(),
        legacy_build(legacy[i]),
    ensures
        newest_with(legacy, "1.20.1-"@).len() > 0,
    decreases legacy.len(),
{
    if i < legacy.len() - 1 {
        assert(legacy.drop_last()[i] == legacy[i]);
        legacy_builds_are_offered(legacy.drop_last(), i);
    }
}

/// A NeoForge release in canonical notation: the release `Z` of the line `X.Y`.
pub open spec fn neoforge_release(major: nat, minor: nat, patch: Seq<char>) -> Seq<char> {
    decimal(major) + "."@ + decimal(minor) + "."@ + patch
}

/// The Minecraft version that a NeoForge release belongs to has the line of that release as its prefix.
pub proof fn neoforge_release_has_its_prefix(major: nat, minor: nat, patch: Seq<char>)
    requires
        major <= u32::MAX,
        minor <= u32::MAX,
        !patch.contains('.'),
    ensures
        neoforge_mc(neoforge_release(major, minor, patch)) matches Some(mc) && prefix_for(mc)
            == decimal(major) + "."@ + decimal(minor) + "."@ && prefix_for(mc).is_prefix_of(
            neoforge_release(major, minor, patch),
        ),
{
    reveal_strlit(".");
    reveal_strlit("1.");
    reveal_strlit("0");
    let release = neoforge_release(major, minor, patch);
    let x = decimal(major);
    let y = decimal(minor);
    decimal_reads_back(major, u32::MAX as nat);
    decimal_reads_back(minor, u32::MAX as nat);
    // The pieces of the release.
    assert("."@ =~= seq!['.']);
    assert(release =~= x.push('.') + (y.push('.') + patch));
    split_at_separator(x, '.', y.push('.') + patch);
    split_at_separator(y, '.', patch);
    split_without_separator(patch, '.');
    assert(split(release, '.') =~= seq![x, y, patch]);
    // The pieces of the Minecraft version.
    let mc = neoforge_mc(release)->0;
    let one = seq!['1'];
    assert("1."@ =~= one.push('.'));
    assert(!one.contains('.'));
    if minor == 0 {
        assert(mc =~= one.push('.') + x);
        split_at_separator(one, '.', x);
        split_without_separator(x, '.');
        assert(split(mc, '.') =~= seq![one, x]);
        assert(y =~= "0"@);
    } else {
        assert(mc =~= one.push('.') + (x.push('.') + y));
        split_at_separator(one, '.', x.push('.') + y);
        split_at_separator(x, '.', y);
        split_without_separator(y, '.');
        assert(split(mc, '.') =~= seq![one, x, y]);
    }
    let prefix = prefix_for(mc);
    assert(prefix =~= x + "."@ + y + "."@);
    assert(release.take(prefix.len() as int) =~= prefix);
}

/// A Minecraft version that stems from a listed NeoForge release always has a build: the pair is no
/// dead end. The version 1.20.1 is left out: its builds are looked up in the legacy list.
pub proof fn neoforge_pairs_do_not_dead_end(
    releases: Seq<Seq<char>>,
    i: int,
    major: nat,
    minor: nat,
    patch: Seq<char>,
    mc: Seq<char>,
)
    requires
        0 <= i < releases.len(),
        major <= u32::MAX,
        minor <= u32::MAX,
        !patch.contains('.'),
        releases[i] == neoforge_release(major, minor, patch),
        neoforge_mc(releases[i]) == Some(mc),
        mc != "1.20.1"@,
    ensures
        catalog_of(Loader::Neoforge, mc) == Catalog::NeoforgeReleases,
        newest_with(releases, prefix_for(mc)).len() > 0,
{
    neoforge_release_has_its_prefix(major, minor, patch);
    listed_builds_are_offered(releases, prefix_for(mc), i);
}

proof fn listed_builds_are_offered(versions: Seq<Seq<char>>, prefix: Seq<char>, i: int)
    requires
        0 <= i < versions.len(),
        prefix.is_prefix_of(versions[i]),
    ensures
        newest_with(versions, prefix).len() > 0,
    decreases versions.len(),
{
    if i < versions.len() - 1 {
        assert(versions.drop_last()[i] == versions[i]);
        listed_builds_are_offered(versions.drop_last(), prefix, i);
    }
}

/// The Minecraft versions are those of the releases, newest first.
pub proof fn minecraft_versions_are_the_releases(tags: Seq<TagView>)
    ensures
        exists|sorted: Seq<TagView>|
            #![trigger tag_versions(sorted)]
            {
                &&& releases_of(tags) == tag_versions(sorted)
                &&& sorted.to_multiset() == tags.filter(
                    |t: TagView| t.version_type == "release"@,
                ).to_multiset()
                &&& forall|a: int, b: int|
                    0 <= a < b < sorted.len() ==> !before(
                        (#[trigger] sorted[a]).date,
                        (#[trigger] sorted[b]).date,
                    )
            },
        forall|k: int|
            0 <= k < tag_versions(tags).len() ==> #[trigger] tag_versions(tags)[k] == tags[k].version,
{
    let kept = tags.filter(|t: TagView| is_release_tag(t));
    let sorted = arranged::<Tag>(kept);
    tag_order_is_strict();
    arranging_orders::<Tag>(kept);
    arranging_permutes::<Tag>(kept);
    same_filter(tags);
    assert forall|a: int, b: int| 0 <= a < b < sorted.len() implies !before(
        (#[trigger] sorted[a]).date,
        (#[trigger] sorted[b]).date,
    ) by {
        assert(!Tag::ranks_before(sorted[b], sorted[a]));
    }
    assert(releases_of(tags) == tag_versions(sorted));
}

proof fn same_filter(tags: Seq<TagView>)
    ensures
        tags.filter(|t: TagView| is_release_tag(t)) == tags.filter(
            |t: TagView| t.version_type == "release"@,
        ),
    decreases tags.len(),
{
    reveal(Seq::filter);
    if tags.len() > 0 {
        same_filter(tags.drop_last());
    }
}

/// The versions that are offered are the releases that the loader supports, in the order of the releases.
pub proof fn the_offer_is_what_is_supported(releases: Seq<Seq<char>>, supported: Seq<Seq<char>>)
    ensures
        offered(releases, supported) == releases.filter(|v: Seq<char>| supported.contains(v)),
    decreases releases.len(),
{
    reveal(Seq::filter);
    if releases.len() > 0 {
        the_offer_is_what_is_supported(releases.drop_last(), supported);
    } else {
        assert(offered(releases, supported) =~= releases.filter(
            |v: Seq<char>| supported.contains(v),
        ));
    }
}

/// Forge supports the Minecraft versions that it promotes a latest or a recommended build for, each once.
pub proof fn forge_supports_what_it_promotes(promos: Seq<(Seq<char>, Seq<char>)>, mc: Seq<char>)
    ensures
        promoted_mcs(promos).contains(mc) <==> exists|i: int|
            0 <= i < promos.len() && is_promotion_of((#[trigger] promos[i]).0, mc),
        promoted_mcs(promos).no_duplicates(),
    decreases promos.len(),
{
    if promos.len() > 0 {
        let head = promos.drop_last();
        let last = promos.len() - 1;
        forge_supports_what_it_promotes(head, mc);
        promotions_are_told_by_their_ending(promos[last].0, mc);
        assert(forall|i: int| 0 <= i < head.len() ==> head[i] == #[trigger] promos[i]);
        match promoted_mc(promos.last().0) {
            Some(new) => {
                once_adds_one(promoted_mcs(head), new, mc);
            },
            None => {},
        }
        if exists|i: int| 0 <= i < promos.len() && is_promotion_of((#[trigger] promos[i]).0, mc) {
            let i = choose|i: int|
                0 <= i < promos.len() && is_promotion_of((#[trigger] promos[i]).0, mc);
            if i < last {
                assert(is_promotion_of(head[i].0, mc));
            }
        }
        if promoted_mcs(head).contains(mc) {
            let i = choose|i: int| 0 <= i < head.len() && is_promotion_of((#[trigger] head[i]).0, mc);
            assert(is_promotion_of(promos[i].0, mc));
        }
        if is_promotion_of(promos[last].0, mc) {
            assert(promoted_mc(promos.last().0) == Some(mc));
        }
    }
}

/// The key under which Forge promotes a build for a Minecraft version.
pub open spec fn is_promotion_of(key: Seq<char>, mc: Seq<char>) -> bool {
    key == mc + "-latest"@ || key == mc + "-recommended"@
}

proof fn promotions_are_told_by_their_ending(key: Seq<char>, mc: Seq<char>)
    ensures
        promoted_mc(key) == Some(mc) <==> is_promotion_of(key, mc),
{
    reveal_strlit("-latest");
    reveal_strlit("-recommended");
    let a = "-latest"@;
    let b = "-recommended"@;
    if a.is_suffix_of(key) {
        assert(key =~= key.take(key.len() - a.len()) + a);
    }
    if b.is_suffix_of(key) {
        assert(key =~= key.take(key.len() - b.len()) + b);
    }
    if key == mc + a {
        assert(key.subrange(key.len() - a.len(), key.len() as int) =~= a);
        assert(key.take(key.len() - a.len()) =~= mc);
    }
    if key == mc + b {
        assert(key.subrange(key.len() - b.len(), key.len() as int) =~= b);
        assert(key.take(key.len() - b.len()) =~= mc);
        if a.is_suffix_of(key) {
            assert(key.subrange(key.len() - a.len(), key.len() as int)[6] == key[key.len() - 1]);
            assert(a[6] == 't' && b[11] == 'd');
        }
    }
}

proof fn once_adds_one(list: Seq<Seq<char>>, new: Seq<char>, item: Seq<char>)
    ensures
        with_once(list, new).contains(item) <==> list.contains(item) || item == new,
        list.no_duplicates() ==> with_once(list, new).no_duplicates(),
{
    let all = list.push(new);
    if list.contains(item) {
        let k = choose|k: int| 0 <= k < list.len() && list[k] == item;
        assert(all[k] == item);
    }
    assert(all[list.len() as int] == new);
    if all.contains(item) && item != new {
        let k = choose|k: int| 0 <= k < all.len() && all[k] == item;
        assert(list[k] == item);
    }
    if list.no_duplicates() && !list.contains(new) {
        assert forall|i: int, j: int| 0 <= i < all.len() && 0 <= j < all.len() && i != j implies all[i]
            != all[j] by {
            if i < list.len() && j < list.len() {
                assert(list[i] != list[j]);
            } else if i < list.len() {
                assert(list.contains(list[i]));
            } else {
                assert(list.contains(list[j]));
            }
        }
    }
}

/// A NeoForge release of the line X.Y is for Minecraft 1.X.Y, and for 1.X where Y is zero.
pub proof fn a_neoforge_release_is_for_its_line(major: nat, minor: nat, patch: Seq<char>)
    requires
        major <= u32::MAX,
        minor <= u32::MAX,
        !patch.contains('.'),
    ensures
        neoforge_mc(neoforge_release(major, minor, patch)) == Some(
            if minor == 0 {
                "1."@ + decimal(major)
            } else {
                "1."@ + decimal(major) + "."@ + decimal(minor)
            },
        ),
{
    reveal_strlit(".");
    let x = decimal(major);
    let y = decimal(minor);
    decimal_reads_back(major, u32::MAX as nat);
    decimal_reads_back(minor, u32::MAX as nat);
    let release = neoforge_release(major, minor, patch);
    assert("."@ =~= seq!['.']);
    assert(release =~= x.push('.') + (y.push('.') + patch));
    split_at_separator(x, '.', y.push('.') + patch);
    split_at_separator(y, '.', patch);
    split_without_separator(patch, '.');
    assert(split(release, '.') =~= seq![x, y, patch]);
}

/// NeoForge supports the Minecraft versions of its releases, each once, and 1.20.1 where it lists a build
/// of that line.
pub proof fn neoforge_supports_what_it_releases(
    releases: Seq<Seq<char>>,
    legacy: Seq<Seq<char>>,
    mc: Seq<char>,
)
    ensures
        neoforge_mcs(releases, legacy).contains(mc) <==> {
            ||| exists|i: int|
                0 <= i < releases.len() && neoforge_mc(#[trigger] releases[i]) == Some(mc)
            ||| mc == "1.20.1"@ && exists|i: int|
                0 <= i < legacy.len() && "1.20.1-"@.is_prefix_of(#[trigger] legacy[i])
        },
        neoforge_mcs(releases, legacy).no_duplicates(),
{
    modern_versions(releases, mc);
    once_adds_one(modern_mcs(releases), "1.20.1"@, mc);
    if exists|i: int| 0 <= i < legacy.len() && legacy_build(#[trigger] legacy[i]) {
        let i = choose|i: int| 0 <= i < legacy.len() && legacy_build(#[trigger] legacy[i]);
        assert("1.20.1-"@.is_prefix_of(legacy[i]));
    }
    if exists|i: int| 0 <= i < legacy.len() && "1.20.1-"@.is_prefix_of(#[trigger] legacy[i]) {
        let i = choose|i: int|
            0 <= i < legacy.len() && "1.20.1-"@.is_prefix_of(#[trigger] legacy[i]);
        assert(legacy_build(legacy[i]));
    }
}

proof fn modern_versions(releases: Seq<Seq<char>>, mc: Seq<char>)
    ensures
        modern_mcs(releases).contains(mc) <==> exists|i: int|
            0 <= i < releases.len() && neoforge_mc(#[trigger] releases[i]) == Some(mc),
        modern_mcs(releases).no_duplicates(),
    decreases releases.len(),
{
    if releases.len() > 0 {
        let head = releases.drop_last();
        let last = releases.len() - 1;
        modern_versions(head, mc);
        assert(forall|i: int| 0 <= i < head.len() ==> head[i] == #[trigger] releases[i]);
        match neoforge_mc(releases.last()) {
            Some(new) => {
                once_adds_one(modern_mcs(head), new, mc);
            },
            None => {},
        }
        if exists|i: int| 0 <= i < releases.len() && neoforge_mc(#[trigger] releases[i]) == Some(mc) {
            let i = choose|i: int|
                0 <= i < releases.len() && neoforge_mc(#[trigger] releases[i]) == Some(mc);
            if i < last {
                assert(neoforge_mc(head[i]) == Some(mc));
            }
        }
        if modern_mcs(head).contains(mc) {
            let i = choose|i: int| 0 <= i < head.len() && neoforge_mc(#[trigger] head[i]) == Some(mc);
            assert(neoforge_mc(releases[i]) == Some(mc));
        }
        if neoforge_mc(releases[last]) == Some(mc) {
            assert(neoforge_mc(releases.last()) == Some(mc));
        }
    }
}

/// The builds of a line are those that start with its prefix, the last listed first.
pub proof fn builds_of_a_line_come_newest_first(
    versions: Seq<Seq<char>>,
    prefix: Seq<char>,
    k: int,
)
    ensures
        ({
            let kept = versions.filter(|v: Seq<char>| prefix.is_prefix_of(v));
            let offer = newest_with(versions, prefix);
            &&& offer.len() == kept.len()
            &&& 0 <= k < kept.len() ==> offer[k].version == kept[kept.len() - 1 - k]
                && offer[k].note is None
        }),
    decreases versions.len(),
{
    reveal(Seq::filter);
    if versions.len() > 0 {
        let head = versions.drop_last();
        if prefix.is_prefix_of(versions.last()) {
            builds_of_a_line_come_newest_first(head, prefix, k - 1);
        } else {
            builds_of_a_line_come_newest_first(head, prefix, k);
        }
    }
}

/// The builds of a loader are offered as they are listed, and the stable ones are noted as such.
pub proof fn stable_builds_are_noted(builds: Seq<BuildView>, k: int)
    requires
        0 <= k < builds.len(),
    ensures
        noted_builds(builds).len() == builds.len(),
        noted_builds(builds)[k].version == builds[k].version,
        noted_builds(builds)[k].note == Some("stable"@) <==> builds[k].stable,
        noted_builds(builds)[k].note is None <==> !builds[k].stable,
{
}

/// Forge offers its latest build for the Minecraft version first, and then its recommended one where that
/// is another.
pub proof fn forge_offers_latest_and_recommended(
    promos: Seq<(Seq<char>, Seq<char>)>,
    mc: Seq<char>,
)
    ensures
        ({
            let latest = last_value(promos, mc + "-latest"@);
            let recommended = last_value(promos, mc + "-recommended"@);
            let offer = forge_offer(promos, mc);
            &&& latest matches Some(v) ==> offer.len() > 0 && offer[0].version == v && offer[0].note
                == Some("latest"@)
            &&& recommended is Some && recommended != latest ==> offer.len() > 0
                && Some(offer.last().version) == recommended && offer.last().note == Some(
                "recommended"@,
            )
            &&& offer.len() == (if latest is Some {
                1int
            } else {
                0int
            }) + (if recommended is Some && recommended != latest {
                1int
            } else {
                0int
            })
        }),
{
}

/// Each loader has its own catalog, and NeoForge a second one for Minecraft 1.20.1.
pub proof fn every_loader_has_its_catalog(mc: Seq<char>)
    ensures
        catalog_of(Loader::Fabric, mc) == Catalog::FabricBuilds,
        catalog_of(Loader::Quilt, mc) == Catalog::QuiltBuilds,
        catalog_of(Loader::Forge, mc) == Catalog::ForgePromotions,
        catalog_of(Loader::Neoforge, mc) == Catalog::NeoforgeLegacyReleases <==> mc == "1.20.1"@,
        catalog_of(Loader::Neoforge, mc) == Catalog::NeoforgeReleases <==> mc != "1.20.1"@,
{
}

} // verus!
