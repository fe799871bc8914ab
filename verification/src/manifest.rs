//! The manifest: what a maintainer wants in the pack.
use indexmap::IndexMap;
use vstd::prelude::*;

use crate::loader::Loader;
use crate::lock::copy_option;
use crate::provider::Provider;
use crate::side::Side;
use crate::text::{chars_of, is_digit, is_letter, utf8};

verus! {

/// Upper bound on a manifest's on-disk size. A hand-authored `lode.json` is kilobytes; the cap
/// keeps an attacker-authored file from being read wholesale into memory before parsing.
pub const MAX_MANIFEST_BYTES: u64 = 4 * 1024 * 1024;

/// The name of the manifest in a pack's root.
pub const MANIFEST_FILENAME: &'static str = "lode.json";

/// The hand-authored manifest (`lode.json`): the single source of truth a maintainer edits.
/// It records desires (which mods, which version constraints, policy), never resolved facts;
/// those live in the lockfile.
#[derive(Debug)]
pub struct Manifest {
    pub pack: PackMeta,
    pub loader: LoaderSpec,
    pub defaults: Defaults,
    pub overlays: Vec<Overlay>,
    /// Declared mods, keyed by a stable slug. Order is preserved so `lode add` appends a
    /// self-contained line rather than reshuffling the map (clean diffs, clean merges).
    pub mods: IndexMap<String, ModSpec>,
}

#[derive(Debug)]
pub struct PackMeta {
    pub name: String,
    pub author: String,
    pub version: String,
    pub description: Option<String>,
}

/// The loader a pack targets, with the versions of the game and of the loader itself.
#[derive(Debug)]
pub struct LoaderSpec {
    pub name: Loader,
    pub minecraft: String,
    pub version: String,
}

#[derive(Debug, Clone, Copy)]
pub struct Defaults {
    pub side: Side,
}

#[derive(Debug)]
pub struct Overlay {
    pub path: String,
    pub side: Option<Side>,
}

/// A declared mod: either a bare version constraint (`"^0.5.8"`, `"*"`) or an object when the
/// maintainer needs to override side, pin a provider, or disambiguate an ambiguous slug.
#[derive(Debug)]
pub enum ModSpec {
    Constraint(String),
    Detailed(ModSpecDetailed),
}

#[derive(Debug)]
pub struct ModSpecDetailed {
    /// Version constraint. `"*"` means "latest compatible with the pack's loader + MC version".
    pub version: String,
    pub side: Option<Side>,
    pub provider: Option<Provider>,
    pub project_id: Option<String>,
    pub optional: bool,
    /// When true, `lode update` won't bump this mod: its locked version is kept.
    pub pin: bool,
}

// ---- views ------------------------------------------------------------------------------------

#[verifier::ext_equal]
pub struct ManifestView {
    pub pack: PackMetaView,
    pub loader: LoaderSpecView,
    pub default_side: Side,
    pub overlays: Seq<OverlayView>,
    pub mods: Seq<(Seq<char>, ModSpecView)>,
}

#[verifier::ext_equal]
pub struct PackMetaView {
    pub name: Seq<char>,
    pub author: Seq<char>,
    pub version: Seq<char>,
    pub description: Option<Seq<char>>,
}

#[verifier::ext_equal]
pub struct LoaderSpecView {
    pub name: Loader,
    pub minecraft: Seq<char>,
    pub version: Seq<char>,
}

#[verifier::ext_equal]
pub struct OverlayView {
    pub path: Seq<char>,
    pub side: Option<Side>,
}

#[verifier::ext_equal]
pub enum ModSpecView {
    Constraint(Seq<char>),
    Detailed(ModSpecDetailedView),
}

#[verifier::ext_equal]
pub struct ModSpecDetailedView {
    pub version: Seq<char>,
    pub side: Option<Side>,
    pub provider: Option<Provider>,
    pub project_id: Option<Seq<char>>,
    pub optional: bool,
    pub pin: bool,
}

impl View for PackMeta {
    type V = PackMetaView;

    open spec fn view(&self) -> PackMetaView {
        PackMetaView {
            name: self.name@,
            author: self.author@,
            version: self.version@,
            description: self.description.deep_view(),
        }
    }
}

impl View for LoaderSpec {
    type V = LoaderSpecView;

    open spec fn view(&self) -> LoaderSpecView {
        LoaderSpecView {
            name: self.name,
            minecraft: self.minecraft@,
            version: self.version@,
        }
    }
}

impl DeepView for Overlay {
    type V = OverlayView;

    open spec fn deep_view(&self) -> OverlayView {
        OverlayView { path: self.path@, side: self.side }
    }
}

impl View for ModSpecDetailed {
    type V = ModSpecDetailedView;

    open spec fn view(&self) -> ModSpecDetailedView {
        ModSpecDetailedView {
            version: self.version@,
            side: self.side,
            provider: self.provider,
            project_id: self.project_id.deep_view(),
            optional: self.optional,
            pin: self.pin,
        }
    }
}

impl View for ModSpec {
    type V = ModSpecView;

    open spec fn view(&self) -> ModSpecView {
        match self {
            ModSpec::Constraint(c) => ModSpecView::Constraint(c@),
            ModSpec::Detailed(d) => ModSpecView::Detailed(d@),
        }
    }
}

impl DeepView for ModSpec {
    type V = ModSpecView;

    open spec fn deep_view(&self) -> ModSpecView {
        self@
    }
}

impl View for Manifest {
    type V = ManifestView;

    open spec fn view(&self) -> ManifestView {
        ManifestView {
            pack: self.pack@,
            loader: self.loader@,
            default_side: self.defaults.side,
            overlays: self.overlays.deep_view(),
            mods: declared(self.mods),
        }
    }
}

impl Clone for LoaderSpec {
    fn clone(&self) -> (r: Self)
        ensures
            r@ == self@,
    {
        LoaderSpec {
            name: self.name,
            minecraft: self.minecraft.clone(),
            version: self.version.clone(),
        }
    }
}

impl Clone for ModSpec {
    fn clone(&self) -> (r: Self)
        ensures
            r@ == self@,
    {
        match self {
            ModSpec::Constraint(c) => ModSpec::Constraint(c.clone()),
            ModSpec::Detailed(d) => ModSpec::Detailed(
                ModSpecDetailed {
                    version: d.version.clone(),
                    side: d.side,
                    provider: d.provider,
                    project_id: copy_option(&d.project_id),
                    optional: d.optional,
                    pin: d.pin,
                },
            ),
        }
    }
}

impl Default for Defaults {
    fn default() -> (r: Self)
        ensures
            r.side == Side::Both,
    {
        Defaults { side: Side::Both }
    }
}

// ---- the map of declared mods -----------------------------------------------------------------

/// `indexmap::IndexMap`, a hash map that keeps its entries in the order of insertion.
#[verifier::external_type_specification]
#[verifier::external_body]
#[verifier::reject_recursive_types(K)]
#[verifier::reject_recursive_types(V)]
#[verifier::reject_recursive_types(S)]
pub struct ExIndexMap<K, V, S>(IndexMap<K, V, S>);

/// The entries of a map of declared mods, in its order.
pub uninterp spec fn declared(mods: IndexMap<String, ModSpec>) -> Seq<(Seq<char>, ModSpecView)>;

/// What the entries hold for a key: the value of the first entry with it.
pub open spec fn spec_of(mods: Seq<(Seq<char>, ModSpecView)>, slug: Seq<char>) -> Option<
    ModSpecView,
>
    decreases mods.len(),
{
    if mods.len() == 0 {
        None
    } else if mods[0].0 == slug {
        Some(mods[0].1)
    } else {
        spec_of(mods.drop_first(), slug)
    }
}

/// The entries with the value of the first one for `slug` replaced.
pub open spec fn reset_spec(
    mods: Seq<(Seq<char>, ModSpecView)>,
    slug: Seq<char>,
    spec: ModSpecView,
) -> Seq<(Seq<char>, ModSpecView)>
    decreases mods.len(),
{
    if mods.len() == 0 {
        mods
    } else if mods[0].0 == slug {
        seq![(slug, spec)] + mods.drop_first()
    } else {
        seq![mods[0]] + reset_spec(mods.drop_first(), slug, spec)
    }
}

/// No two entries have the same key.
pub open spec fn distinct_slugs(mods: Seq<(Seq<char>, ModSpecView)>) -> bool {
    forall|i: int, j: int| 0 <= i < j < mods.len() ==> (#[trigger] mods[i]).0 != (#[trigger] mods[j]).0
}

/// The entries with the value for `slug` set: in place where the key is there, else at the end.
pub open spec fn with_spec(
    mods: Seq<(Seq<char>, ModSpecView)>,
    slug: Seq<char>,
    spec: ModSpecView,
) -> Seq<(Seq<char>, ModSpecView)> {
    if spec_of(mods, slug) is Some {
        reset_spec(mods, slug, spec)
    } else {
        mods.push((slug, spec))
    }
}

/// The entries without those for `slug`, in the same order.
pub open spec fn without_spec(mods: Seq<(Seq<char>, ModSpecView)>, slug: Seq<char>) -> Seq<
    (Seq<char>, ModSpecView),
>
    decreases mods.len(),
{
    if mods.len() == 0 {
        mods
    } else if mods.last().0 == slug {
        without_spec(mods.drop_last(), slug)
    } else {
        without_spec(mods.drop_last(), slug).push(mods.last())
    }
}

/// `indexmap::IndexMap::new`: a map without entries.
#[verifier::external_body]
pub(crate) fn no_mods() -> (r: IndexMap<String, ModSpec>)
    ensures
        declared(r) == Seq::<(Seq<char>, ModSpecView)>::empty(),
{
    IndexMap::new()
}

/// `indexmap::IndexMap::len`: the number of entries.
#[verifier::external_body]
pub(crate) fn mod_count(mods: &IndexMap<String, ModSpec>) -> (r: usize)
    ensures
        r == declared(*mods).len(),
{
    mods.len()
}

/// `indexmap::IndexMap::get_index`: the entry at a position below the number of entries.
#[verifier::external_body]
pub(crate) fn mod_at(mods: &IndexMap<String, ModSpec>, index: usize) -> (r: (&String, &ModSpec))
    requires
        index < declared(*mods).len(),
    ensures
        r.0@ == declared(*mods)[index as int].0,
        r.1@ == declared(*mods)[index as int].1,
{
    mods.get_index(index).unwrap()
}

/// `indexmap::IndexMap::get`: the value for a key. Keys are unequal to one another, so the first
/// entry with the key is the only one.
#[verifier::external_body]
pub(crate) fn mod_named<'a>(mods: &'a IndexMap<String, ModSpec>, slug: &str) -> (r: Option<
    &'a ModSpec,
>)
    ensures
        r.deep_view() == spec_of(declared(*mods), slug@),
{
    mods.get(slug)
}

/// `indexmap::IndexMap::insert`: an entry whose key is there keeps its place and gets the new
/// value; otherwise the pair becomes the last entry. No two entries have the same key.
#[verifier::external_body]
pub(crate) fn declare(mods: &mut IndexMap<String, ModSpec>, slug: String, spec: ModSpec)
    ensures
        declared(*final(mods)) == with_spec(declared(*old(mods)), slug@, spec@),
        distinct_slugs(declared(*final(mods))),
{
    mods.insert(slug, spec);
}

/// `indexmap::IndexMap::shift_remove`: the entry with the key leaves, the others keep their
/// order, and the value that was there is returned. No two entries have the same key.
#[verifier::external_body]
pub(crate) fn withdraw(mods: &mut IndexMap<String, ModSpec>, slug: &str) -> (r: Option<ModSpec>)
    ensures
        declared(*final(mods)) == without_spec(declared(*old(mods)), slug@),
        distinct_slugs(declared(*final(mods))),
        r.deep_view() == spec_of(declared(*old(mods)), slug@),
{
    mods.shift_remove(slug)
}

// ---- reading a declaration --------------------------------------------------------------------

pub open spec fn constraint_of(spec: ModSpecView) -> Seq<char> {
    match spec {
        ModSpecView::Constraint(c) => c,
        ModSpecView::Detailed(d) => d.version,
    }
}

pub open spec fn side_of(spec: ModSpecView) -> Option<Side> {
    match spec {
        ModSpecView::Constraint(_) => None,
        ModSpecView::Detailed(d) => d.side,
    }
}

pub open spec fn provider_of(spec: ModSpecView) -> Option<Provider> {
    match spec {
        ModSpecView::Constraint(_) => None,
        ModSpecView::Detailed(d) => d.provider,
    }
}

pub open spec fn pinned(spec: ModSpecView) -> bool {
    match spec {
        ModSpecView::Constraint(_) => false,
        ModSpecView::Detailed(d) => d.pin,
    }
}

pub open spec fn optional(spec: ModSpecView) -> bool {
    match spec {
        ModSpecView::Constraint(_) => false,
        ModSpecView::Detailed(d) => d.optional,
    }
}

pub open spec fn project_id_of(spec: ModSpecView) -> Option<Seq<char>> {
    match spec {
        ModSpecView::Constraint(_) => None,
        ModSpecView::Detailed(d) => d.project_id,
    }
}

impl ModSpec {
    pub fn constraint(&self) -> (r: &str)
        ensures
            r@ == constraint_of(self@),
    {
        match self {
            ModSpec::Constraint(c) => c.as_str(),
            ModSpec::Detailed(d) => d.version.as_str(),
        }
    }

    pub fn side(&self) -> (r: Option<Side>)
        ensures
            r == side_of(self@),
    {
        match self {
            ModSpec::Constraint(_) => None,
            ModSpec::Detailed(d) => d.side,
        }
    }

    pub fn provider(&self) -> (r: Option<Provider>)
        ensures
            r == provider_of(self@),
    {
        match self {
            ModSpec::Constraint(_) => None,
            ModSpec::Detailed(d) => d.provider,
        }
    }

    pub fn pin(&self) -> (r: bool)
        ensures
            r == pinned(self@),
    {
        match self {
            ModSpec::Constraint(_) => false,
            ModSpec::Detailed(d) => d.pin,
        }
    }

    /// Whether the mod is optional for whoever installs the pack.
    pub fn is_optional(&self) -> (r: bool)
        ensures
            r == optional(self@),
    {
        match self {
            ModSpec::Constraint(_) => false,
            ModSpec::Detailed(d) => d.optional,
        }
    }

    /// For a local mod, the jar's filename under `local/` (stored in `projectId`).
    pub fn project_id(&self) -> (r: Option<&str>)
        ensures
            r.deep_view() == project_id_of(self@),
    {
        match self {
            ModSpec::Constraint(_) => None,
            ModSpec::Detailed(d) => match &d.project_id {
                Some(id) => Some(id.as_str()),
                None => None,
            },
        }
    }
}

// ---- accepting a manifest ---------------------------------------------------------------------

/// Which loader token is meant.
#[derive(Debug, Clone, Copy, PartialEq, Eq, Structural)]
pub enum TokenField {
    Minecraft,
    Version,
}

/// Why a manifest is refused.
#[derive(Debug, Clone, Copy, PartialEq, Eq, Structural)]
pub enum ManifestError {
    /// Larger than `MAX_MANIFEST_BYTES`.
    TooLarge,
    /// Not JSON, or not of the manifest's schema.
    Malformed,
    /// A loader token that does not start with a letter or digit, or holds another character
    /// than letters, digits, '.', '_', '+' and '-'.
    BadToken(TokenField),
}

pub open spec fn alphanumeric(c: char) -> bool {
    is_letter(c) || is_digit(c)
}

/// A strict, argv-safe identifier: a letter or digit, then letters, digits, '.', '_', '+', '-'.
pub open spec fn loader_token(value: Seq<char>) -> bool {
    &&& value.len() > 0
    &&& alphanumeric(value[0])
    &&& forall|i: int|
        0 <= i < value.len() ==> alphanumeric(#[trigger] value[i]) || value[i] == '.' || value[i]
            == '_' || value[i] == '+' || value[i] == '-'
}

/// Both loader tokens are argv-safe.
pub open spec fn loader_valid(loader: LoaderSpecView) -> bool {
    loader_token(loader.minecraft) && loader_token(loader.version)
}

impl Manifest {
    /// Whether a manifest file of this many bytes may be read at all.
    pub fn admit_size(bytes: u64) -> (r: Result<(), ManifestError>)
        ensures
            r == (if bytes > MAX_MANIFEST_BYTES {
                Err::<(), ManifestError>(ManifestError::TooLarge)
            } else {
                Ok(())
            }),
    {
        if bytes > MAX_MANIFEST_BYTES {
            return Err(ManifestError::TooLarge);
        }
        Ok(())
    }

    /// Accept the manifest that a text decodes to; `decoded` is `None` where the text is not
    /// strict JSON of the manifest's schema. The loader tokens flow into installer argv and
    /// interpolated URLs, so they are pinned to a strict charset here, the one place every
    /// consumer loads through, to foreclose option injection.
    pub fn parse(text: &str, decoded: Option<Manifest>) -> (r: Result<Manifest, ManifestError>)
        ensures
            match r {
                Ok(m) => utf8(text@).len() <= MAX_MANIFEST_BYTES && decoded == Some(m)
                    && loader_valid(m@.loader),
                Err(ManifestError::TooLarge) => utf8(text@).len() > MAX_MANIFEST_BYTES,
                Err(ManifestError::Malformed) => utf8(text@).len() <= MAX_MANIFEST_BYTES
                    && decoded is None,
                Err(ManifestError::BadToken(field)) => {
                    &&& utf8(text@).len() <= MAX_MANIFEST_BYTES
                    &&& decoded matches Some(m) && match field {
                        TokenField::Minecraft => !loader_token(m@.loader.minecraft),
                        TokenField::Version => loader_token(m@.loader.minecraft) && !loader_token(
                            m@.loader.version,
                        ),
                    }
                },
            },
    {
        let bytes = text.as_bytes();
        if bytes.len() as u64 > MAX_MANIFEST_BYTES {
            return Err(ManifestError::TooLarge);
        }
        match decoded {
            None => Err(ManifestError::Malformed),
            Some(manifest) => {
                match validate_loader_token(TokenField::Minecraft, manifest.loader.minecraft.as_str()) {
                    Ok(_) => {},
                    Err(e) => {
                        return Err(e);
                    },
                }
                match validate_loader_token(TokenField::Version, manifest.loader.version.as_str()) {
                    Ok(_) => {},
                    Err(e) => {
                        return Err(e);
                    },
                }
                Ok(manifest)
            },
        }
    }

    /// The declaration of the mod with this slug.
    pub fn find(&self, slug: &str) -> (r: Option<&ModSpec>)
        ensures
            r.deep_view() == spec_of(self@.mods, slug@),
    {
        mod_named(&self.mods, slug)
    }

    /// The number of declared mods.
    pub fn len(&self) -> (r: usize)
        ensures
            r == self@.mods.len(),
    {
        mod_count(&self.mods)
    }

    /// The slug and the declaration at a position.
    pub fn entry(&self, index: usize) -> (r: (&String, &ModSpec))
        requires
            index < self@.mods.len(),
        ensures
            r.0@ == self@.mods[index as int].0,
            r.1@ == self@.mods[index as int].1,
    {
        mod_at(&self.mods, index)
    }
}

/// Reject a loader token that isn't a strict, argv-safe identifier. `loader.minecraft` and
/// `loader.version` reach a spawned installer's argv and interpolated download URLs, so a value with
/// a leading `-` (parsed as an option) or exotic characters is refused here, at the single load
/// choke point, before any consumer sees it. Charset: `^[A-Za-z0-9][A-Za-z0-9._+-]*$`.
pub fn validate_loader_token(field: TokenField, value: &str) -> (r: Result<(), ManifestError>)
    ensures
        r == (if loader_token(value@) {
            Ok::<(), ManifestError>(())
        } else {
            Err(ManifestError::BadToken(field))
        }),
{
    let x = chars_of(value);
    if x.len() == 0 || !is_alphanumeric(x[0]) {
        return Err(ManifestError::BadToken(field));
    }
    let mut i: usize = 0;
    while i < x.len()
        invariant
            x@ == value@,
            i <= x@.len(),
            forall|j: int|
                0 <= j < i ==> alphanumeric(#[trigger] x@[j]) || x@[j] == '.' || x@[j] == '_'
                    || x@[j] == '+' || x@[j] == '-',
        decreases x.len() - i,
    {
        let c = x[i];
        if !(is_alphanumeric(c) || c == '.' || c == '_' || c == '+' || c == '-') {
            return Err(ManifestError::BadToken(field));
        }
        i = i + 1;
    }
    Ok(())
}

fn is_alphanumeric(c: char) -> (r: bool)
    ensures
        r == alphanumeric(c),
{
    ('a' <= c && c <= 'z') || ('A' <= c && c <= 'Z') || ('0' <= c && c <= '9')
}

// ---- laws -------------------------------------------------------------------------------------

/// An accepted loader token is never read as an option: it is not empty, does not start with a
/// dash, and holds neither white space nor a path separator.
pub proof fn loader_token_is_no_option(value: Seq<char>)
    requires
        loader_token(value),
    ensures
        value.len() > 0,
        value[0] != '-',
        !value.contains(' '),
        !value.contains('/'),
        !value.contains('"'),
{
}

/// A mod is declared exactly when some entry has its slug.
pub proof fn declared_means_present(mods: Seq<(Seq<char>, ModSpecView)>, slug: Seq<char>)
    ensures
        spec_of(mods, slug) is Some <==> exists|i: int|
            0 <= i < mods.len() && (#[trigger] mods[i]).0 == slug,
        spec_of(mods, slug) matches Some(s) ==> mods.contains((slug, s)),
    decreases mods.len(),
{
    if mods.len() > 0 {
        let rest = mods.drop_first();
        declared_means_present(rest, slug);
        if mods[0].0 == slug {
            assert(mods[0] == (slug, mods[0].1));
        } else {
            assert(forall|i: int| 0 <= i < rest.len() ==> rest[i] == #[trigger] mods[i + 1]);
            if spec_of(rest, slug) is Some {
                let i = choose|i: int| 0 <= i < rest.len() && (#[trigger] rest[i]).0 == slug;
                assert(mods[i + 1].0 == slug);
                let s = spec_of(rest, slug)->0;
                let k = choose|k: int| 0 <= k < rest.len() && rest[k] == (slug, s);
                assert(mods[k + 1] == (slug, s));
            }
            if exists|i: int| 0 <= i < mods.len() && (#[trigger] mods[i]).0 == slug {
                let i = choose|i: int| 0 <= i < mods.len() && (#[trigger] mods[i]).0 == slug;
                assert(rest[i - 1].0 == slug);
            }
        }
    }
}

/// Declaring a mod makes its new declaration the one that is found, leaves every other mod's as
/// it was, keeps the order of the mods that were there, and puts a new mod last.
pub proof fn declaring_sets_one_mod(
    mods: Seq<(Seq<char>, ModSpecView)>,
    slug: Seq<char>,
    spec: ModSpecView,
    other: Seq<char>,
)
    ensures
        spec_of(with_spec(mods, slug, spec), slug) == Some(spec),
        other != slug ==> spec_of(with_spec(mods, slug, spec), other) == spec_of(mods, other),
        forall|i: int|
            0 <= i < mods.len() ==> (#[trigger] with_spec(mods, slug, spec)[i]).0 == mods[i].0,
        spec_of(mods, slug) is None ==> with_spec(mods, slug, spec).last() == (slug, spec),
        distinct_slugs(mods) ==> distinct_slugs(with_spec(mods, slug, spec)),
{
    declared_means_present(mods, slug);
    if spec_of(mods, slug) is Some {
        setting_one(mods, slug, spec, other);
    } else {
        pushing_one(mods, slug, spec, other);
    }
}

proof fn setting_one(
    mods: Seq<(Seq<char>, ModSpecView)>,
    slug: Seq<char>,
    spec: ModSpecView,
    other: Seq<char>,
)
    ensures
        reset_spec(mods, slug, spec).len() == mods.len(),
        forall|i: int|
            0 <= i < mods.len() ==> (#[trigger] reset_spec(mods, slug, spec)[i]).0 == mods[i].0,
        spec_of(mods, slug) is Some ==> spec_of(reset_spec(mods, slug, spec), slug) == Some(spec),
        other != slug ==> spec_of(reset_spec(mods, slug, spec), other) == spec_of(mods, other),
    decreases mods.len(),
{
    if mods.len() > 0 {
        let rest = mods.drop_first();
        let after = reset_spec(mods, slug, spec);
        setting_one(rest, slug, spec, other);
        if mods[0].0 == slug {
            assert(after.drop_first() =~= rest);
        } else {
            assert(after.drop_first() =~= reset_spec(rest, slug, spec));
            assert forall|i: int| 0 <= i < mods.len() implies (#[trigger] after[i]).0 == mods[i].0 by {
                if i > 0 {
                    assert(reset_spec(rest, slug, spec)[i - 1].0 == rest[i - 1].0);
                }
            }
        }
    }
}

/// Declaring a declared mod anew, and then as it was, gives the entries back.
pub proof fn declaring_again_restores(
    mods: Seq<(Seq<char>, ModSpecView)>,
    slug: Seq<char>,
    between: ModSpecView,
    spec: ModSpecView,
)
    requires
        spec_of(mods, slug) == Some(spec),
    ensures
        with_spec(with_spec(mods, slug, between), slug, spec) == mods,
{
    setting_one(mods, slug, between, slug);
    resetting_twice(mods, slug, between, spec);
}

proof fn resetting_twice(
    mods: Seq<(Seq<char>, ModSpecView)>,
    slug: Seq<char>,
    between: ModSpecView,
    spec: ModSpecView,
)
    requires
        spec_of(mods, slug) == Some(spec),
    ensures
        reset_spec(reset_spec(mods, slug, between), slug, spec) == mods,
    decreases mods.len(),
{
    let rest = mods.drop_first();
    let after = reset_spec(mods, slug, between);
    if mods[0].0 == slug {
        assert(after.drop_first() =~= rest);
    } else {
        resetting_twice(rest, slug, between, spec);
        assert(after.drop_first() =~= reset_spec(rest, slug, between));
    }
    assert(reset_spec(after, slug, spec) =~= mods);
}

proof fn pushing_one(
    mods: Seq<(Seq<char>, ModSpecView)>,
    slug: Seq<char>,
    spec: ModSpecView,
    other: Seq<char>,
)
    requires
        spec_of(mods, slug) is None,
    ensures
        spec_of(mods.push((slug, spec)), slug) == Some(spec),
        other != slug ==> spec_of(mods.push((slug, spec)), other) == spec_of(mods, other),
    decreases mods.len(),
{
    reveal_with_fuel(spec_of, 2);
    let after = mods.push((slug, spec));
    if mods.len() > 0 {
        pushing_one(mods.drop_first(), slug, spec, other);
        assert(after.drop_first() =~= mods.drop_first().push((slug, spec)));
    }
}

/// Withdrawing a mod removes it, keeps every other declaration, and keeps their order.
pub proof fn withdrawing_removes_one_mod(
    mods: Seq<(Seq<char>, ModSpecView)>,
    slug: Seq<char>,
    other: Seq<char>,
)
    ensures
        spec_of(without_spec(mods, slug), slug) is None,
        other != slug ==> spec_of(without_spec(mods, slug), other) == spec_of(mods, other),
        forall|i: int|
            0 <= i < without_spec(mods, slug).len() ==> mods.contains(
                #[trigger] without_spec(mods, slug)[i],
            ),
    decreases mods.len(),
{
    if mods.len() > 0 {
        let head = mods.drop_last();
        let kept = without_spec(head, slug);
        withdrawing_removes_one_mod(head, slug, other);
        assert(mods =~= head.push(mods.last()));
        assert forall|e: (Seq<char>, ModSpecView)| #[trigger] head.contains(e) implies mods.contains(e)
            by {
            let i = choose|i: int| 0 <= i < head.len() && head[i] == e;
            assert(mods[i] == e);
        }
        if mods.last().0 == slug {
            if other != slug {
                found_before_push(head, mods.last(), other);
            }
        } else {
            found_before_push(kept, mods.last(), slug);
            found_before_push(kept, mods.last(), other);
            found_before_push(head, mods.last(), other);
            assert(mods[mods.len() - 1] == mods.last());
        }
    }
}

proof fn found_before_push(
    mods: Seq<(Seq<char>, ModSpecView)>,
    e: (Seq<char>, ModSpecView),
    slug: Seq<char>,
)
    ensures
        spec_of(mods.push(e), slug) == (match spec_of(mods, slug) {
            Some(s) => Some(s),
            None => if e.0 == slug {
                Some(e.1)
            } else {
                None
            },
        }),
    decreases mods.len(),
{
    reveal_with_fuel(spec_of, 2);
    if mods.len() > 0 {
        found_before_push(mods.drop_first(), e, slug);
        assert(mods.push(e).drop_first() =~= mods.drop_first().push(e));
    }
}

/// Withdrawing a mod that was just declared for the first time gives the entries as they were.
pub proof fn withdrawing_undoes_declaring(
    mods: Seq<(Seq<char>, ModSpecView)>,
    slug: Seq<char>,
    spec: ModSpecView,
)
    requires
        spec_of(mods, slug) is None,
    ensures
        without_spec(with_spec(mods, slug, spec), slug) == mods,
{
    assert(mods.push((slug, spec)).drop_last() =~= mods);
    nothing_to_withdraw(mods, slug);
}

proof fn nothing_to_withdraw(mods: Seq<(Seq<char>, ModSpecView)>, slug: Seq<char>)
    requires
        spec_of(mods, slug) is None,
    ensures
        without_spec(mods, slug) == mods,
    decreases mods.len(),
{
    declared_means_present(mods, slug);
    if mods.len() > 0 {
        let head = mods.drop_last();
        assert(mods[mods.len() - 1].0 != slug);
        declared_means_present(head, slug);
        assert(forall|i: int| 0 <= i < head.len() ==> head[i] == mods[i]);
        nothing_to_withdraw(head, slug);
        assert(mods =~= head.push(mods.last()));
    }
}

/// A bare constraint says nothing but the version; a detailed declaration says what its fields say.
pub proof fn declarations_say_what_they_hold(c: Seq<char>, d: ModSpecDetailedView)
    ensures
        ({
            let bare = ModSpecView::Constraint(c);
            &&& constraint_of(bare) == c && side_of(bare) is None && provider_of(bare) is None
            &&& !pinned(bare) && !optional(bare) && project_id_of(bare) is None
        }),
        ({
            let full = ModSpecView::Detailed(d);
            &&& constraint_of(full) == d.version && side_of(full) == d.side && provider_of(full)
                == d.provider
            &&& pinned(full) == d.pin && optional(full) == d.optional && project_id_of(full)
                == d.project_id
        }),
{
}

/// A loader token starts with a letter or a digit and goes on with letters, digits, dots, underscores,
/// plus signs and dashes; every such text is one.
pub proof fn exactly_these_are_loader_tokens(value: Seq<char>)
    ensures
        loader_token(value) <==> value.len() > 0 && value[0] != '.' && value[0] != '_' && value[0]
            != '+' && value[0] != '-' && forall|i: int|
            0 <= i < value.len() ==> {
                let c = #[trigger] value[i];
                'a' <= c <= 'z' || 'A' <= c <= 'Z' || '0' <= c <= '9' || c == '.' || c == '_' || c
                    == '+' || c == '-'
            },
{
    if loader_token(value) {
        assert forall|i: int| 0 <= i < value.len() implies {
            let c = #[trigger] value[i];
            'a' <= c <= 'z' || 'A' <= c <= 'Z' || '0' <= c <= '9' || c == '.' || c == '_' || c
                == '+' || c == '-'
        } by {
            assert(alphanumeric(value[i]) || value[i] == '.' || value[i] == '_' || value[i] == '+'
                || value[i] == '-');
        }
    }
}

/// A manifest is accepted as it was decoded, exactly where its text is not too large, it could be decoded,
/// and both versions of its loader are tokens.
pub proof fn a_manifest_is_accepted_as_it_is(
    text: &str,
    decoded: Option<Manifest>,
    r: Result<Manifest, ManifestError>,
)
    requires
        call_ensures(Manifest::parse, (text, decoded), r),
    ensures
        r matches Ok(m) ==> decoded == Some(m),
        r is Ok <==> utf8(text@).len() <= 0x40_0000 && (decoded matches Some(m)
            && loader_token(m@.loader.minecraft) && loader_token(m@.loader.version)),
{
}

/// Withdrawing a mod leaves exactly the other mods, in their order.
pub proof fn withdrawing_leaves_the_others(mods: Seq<(Seq<char>, ModSpecView)>, slug: Seq<char>)
    ensures
        without_spec(mods, slug) == mods.filter(|e: (Seq<char>, ModSpecView)| e.0 != slug),
    decreases mods.len(),
{
    reveal(Seq::filter);
    if mods.len() > 0 {
        withdrawing_leaves_the_others(mods.drop_last(), slug);
    }
}

/// The declaration that is found for a slug is that of the first entry with it.
pub proof fn the_first_declaration_is_found(mods: Seq<(Seq<char>, ModSpecView)>, slug: Seq<char>, i: int)
    requires
        0 <= i < mods.len(),
        mods[i].0 == slug,
        forall|j: int| 0 <= j < i ==> (#[trigger] mods[j]).0 != slug,
    ensures
        spec_of(mods, slug) == Some(mods[i].1),
    decreases mods.len(),
{
    if i > 0 {
        assert(mods[0].0 != slug);
        let rest = mods.drop_first();
        assert forall|j: int| 0 <= j < i - 1 implies (#[trigger] rest[j]).0 != slug by {
            assert(mods[j + 1].0 != slug);
        }
        the_first_declaration_is_found(rest, slug, i - 1);
    }
}

/// Declaring a mod changes the value of one entry or adds one at the end, and leaves every other entry
/// where and as it is.
pub proof fn declaring_leaves_the_other_entries(
    mods: Seq<(Seq<char>, ModSpecView)>,
    slug: Seq<char>,
    spec: ModSpecView,
    i: int,
)
    requires
        0 <= i < mods.len(),
    ensures
        mods[i].0 != slug ==> with_spec(mods, slug, spec)[i] == mods[i],
        with_spec(mods, slug, spec).len() == mods.len() + (if spec_of(mods, slug) is Some {
            0int
        } else {
            1int
        }),
{
    resetting_leaves_others(mods, slug, spec, i);
    setting_one(mods, slug, spec, slug);
}

proof fn resetting_leaves_others(
    mods: Seq<(Seq<char>, ModSpecView)>,
    slug: Seq<char>,
    spec: ModSpecView,
    i: int,
)
    requires
        0 <= i < mods.len(),
    ensures
        mods[i].0 != slug ==> reset_spec(mods, slug, spec)[i] == mods[i],
    decreases mods.len(),
{
    if mods[0].0 != slug && i > 0 {
        let rest = mods.drop_first();
        setting_one(rest, slug, spec, slug);
        resetting_leaves_others(rest, slug, spec, i - 1);
        assert(rest[i - 1] == mods[i]);
    }
}

/// A manifest may be of four mebibytes and no larger.
pub proof fn manifests_have_a_limit(bytes: u64, r: Result<(), ManifestError>)
    requires
        call_ensures(Manifest::admit_size, (bytes,), r),
    ensures
        r is Ok <==> bytes <= 0x40_0000,
        r matches Err(e) ==> e == ManifestError::TooLarge,
{
}

} // verus!
