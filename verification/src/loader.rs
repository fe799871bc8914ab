//! The mod loaders.
use vstd::prelude::*;

use crate::text::same;

verus! {

/// The mod loader a pack targets. A pack targets exactly one: the loaders are distinct runtimes
/// whose mods are not interchangeable.
#[derive(Debug, Clone, Copy, PartialEq, Eq, Structural)]
pub enum Loader {
    Forge,
    Neoforge,
    Fabric,
    Quilt,
}

impl DeepView for Loader {
    type V = Loader;

    open spec fn deep_view(&self) -> Loader {
        *self
    }
}

/// The word for a loader: in the manifest, in Modrinth's facets and in `pack.toml`.
pub open spec fn loader_word(loader: Loader) -> Seq<char> {
    match loader {
        Loader::Forge => "forge"@,
        Loader::Neoforge => "neoforge"@,
        Loader::Fabric => "fabric"@,
        Loader::Quilt => "quilt"@,
    }
}

/// The loader that a word stands for.
pub open spec fn loader_named(word: Seq<char>) -> Option<Loader> {
    if word == loader_word(Loader::Forge) {
        Some(Loader::Forge)
    } else if word == loader_word(Loader::Neoforge) {
        Some(Loader::Neoforge)
    } else if word == loader_word(Loader::Fabric) {
        Some(Loader::Fabric)
    } else if word == loader_word(Loader::Quilt) {
        Some(Loader::Quilt)
    } else {
        None
    }
}

/// The loaders whose mods a pack for `loader` can use, most preferred first.
pub open spec fn usable_loaders(loader: Loader) -> Seq<Seq<char>> {
    if loader == Loader::Quilt {
        seq!["quilt"@, "fabric"@]
    } else {
        seq![loader_word(loader)]
    }
}

impl Loader {
    /// The value Modrinth expects in a `loaders` search/version facet.
    pub fn modrinth_facet(self) -> (r: &'static str)
        ensures
            r@ == loader_word(self),
    {
        match self {
            Loader::Forge => "forge",
            Loader::Neoforge => "neoforge",
            Loader::Fabric => "fabric",
            Loader::Quilt => "quilt",
        }
    }

    /// The key packwiz uses for this loader's version inside `pack.toml [versions]`.
    pub fn packwiz_version_key(self) -> (r: &'static str)
        ensures
            r@ == loader_word(self),
    {
        self.modrinth_facet()
    }

    /// Loaders whose mods this pack can also consume, most-preferred first. Quilt runs most
    /// Fabric mods; NeoForge shares lineage with Forge. Used to widen provider queries without
    /// pretending the loaders are identical.
    pub fn compatible_facets(self) -> (r: Vec<&'static str>)
        ensures
            r.deep_view() == usable_loaders(self),
    {
        let mut out: Vec<&'static str> = Vec::new();
        out.push(self.modrinth_facet());
        if matches!(self, Loader::Quilt) {
            out.push("fabric");
        }
        assert(out.deep_view() =~= usable_loaders(self));
        out
    }

    /// The loader that a word of the manifest stands for.
    pub fn from_token(word: &str) -> (r: Option<Loader>)
        ensures
            r == loader_named(word@),
    {
        if same(word, "forge") {
            Some(Loader::Forge)
        } else if same(word, "neoforge") {
            Some(Loader::Neoforge)
        } else if same(word, "fabric") {
            Some(Loader::Fabric)
        } else if same(word, "quilt") {
            Some(Loader::Quilt)
        } else {
            None
        }
    }
}

/// Different loaders have different words.
pub proof fn loader_words_differ(a: Loader, b: Loader)
    ensures
        loader_word(a) == loader_word(b) ==> a == b,
{
    reveal_strlit("forge");
    reveal_strlit("neoforge");
    reveal_strlit("fabric");
    reveal_strlit("quilt");
    assert("forge"@.len() == 5 && "neoforge"@.len() == 8 && "fabric"@.len() == 6);
    assert("quilt"@[0] == 'q' && "forge"@[0] == 'f');
}

/// Reading back the word of a loader gives that loader.
pub proof fn loader_survives_its_word(loader: Loader)
    ensures
        loader_named(loader_word(loader)) == Some(loader),
{
    loader_words_differ(Loader::Forge, loader);
    loader_words_differ(Loader::Neoforge, loader);
    loader_words_differ(Loader::Fabric, loader);
    loader_words_differ(Loader::Quilt, loader);
}

/// A pack can use the mods of its own loader, and of another loader only where that is Fabric
/// under Quilt.
pub proof fn usable_loaders_are_own_or_fabric(pack: Loader, other: Loader)
    ensures
        usable_loaders(pack).contains(loader_word(other)) <==> (other == pack || (pack
            == Loader::Quilt && other == Loader::Fabric)),
{
    loader_words_differ(pack, other);
    loader_words_differ(Loader::Fabric, other);
    assert(usable_loaders(pack)[0] == loader_word(pack));
    if pack == Loader::Quilt {
        assert(usable_loaders(pack)[1] == loader_word(Loader::Fabric));
    }
}

} // verus!
