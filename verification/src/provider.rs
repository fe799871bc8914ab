//! Where a mod's file comes from, and how it is fetched.
use vstd::prelude::*;

use crate::text::same;

verus! {

/// Where a mod's file comes from. Modrinth and CurseForge are resolved; URL and GitHub are
/// modeled so that the lock and manifest schemas stay stable.
#[derive(Debug, Clone, Copy, PartialEq, Eq, Structural)]
pub enum Provider {
    Modrinth,
    Curseforge,
    Url,
    Github,
    /// A jar the maintainer supplies locally (private/dev mods), bundled under `local/` in the pack.
    Local,
}

/// How packwiz downloads a file. Modrinth/direct files carry a URL; CurseForge files carry no
/// URL (its API terms forbid persisting it) and are re-resolved from ids at install time.
#[derive(Debug, Clone, Copy, PartialEq, Eq, Structural)]
pub enum DownloadMode {
    Url,
    MetadataCurseforge,
}

impl DeepView for Provider {
    type V = Provider;

    open spec fn deep_view(&self) -> Provider {
        *self
    }
}

impl DeepView for DownloadMode {
    type V = DownloadMode;

    open spec fn deep_view(&self) -> DownloadMode {
        *self
    }
}

impl Default for DownloadMode {
    fn default() -> (r: Self)
        ensures
            r == DownloadMode::Url,
    {
        DownloadMode::Url
    }
}

/// The word for a provider in the manifest and the lock.
pub open spec fn provider_word(provider: Provider) -> Seq<char> {
    match provider {
        Provider::Modrinth => "modrinth"@,
        Provider::Curseforge => "curseforge"@,
        Provider::Url => "url"@,
        Provider::Github => "github"@,
        Provider::Local => "local"@,
    }
}

/// The provider that a word stands for.
pub open spec fn provider_named(word: Seq<char>) -> Option<Provider> {
    if word == provider_word(Provider::Modrinth) {
        Some(Provider::Modrinth)
    } else if word == provider_word(Provider::Curseforge) {
        Some(Provider::Curseforge)
    } else if word == provider_word(Provider::Url) {
        Some(Provider::Url)
    } else if word == provider_word(Provider::Github) {
        Some(Provider::Github)
    } else if word == provider_word(Provider::Local) {
        Some(Provider::Local)
    } else {
        None
    }
}

/// The word for a download mode, in the lock and in a packwiz metafile.
pub open spec fn mode_word(mode: DownloadMode) -> Seq<char> {
    match mode {
        DownloadMode::Url => "url"@,
        DownloadMode::MetadataCurseforge => "metadata:curseforge"@,
    }
}

impl Provider {
    /// The word for this provider in the manifest and the lock.
    pub fn token(self) -> (r: &'static str)
        ensures
            r@ == provider_word(self),
    {
        match self {
            Provider::Modrinth => "modrinth",
            Provider::Curseforge => "curseforge",
            Provider::Url => "url",
            Provider::Github => "github",
            Provider::Local => "local",
        }
    }

    /// The provider that a word of the manifest or the lock stands for.
    pub fn from_token(word: &str) -> (r: Option<Provider>)
        ensures
            r == provider_named(word@),
    {
        if same(word, "modrinth") {
            Some(Provider::Modrinth)
        } else if same(word, "curseforge") {
            Some(Provider::Curseforge)
        } else if same(word, "url") {
            Some(Provider::Url)
        } else if same(word, "github") {
            Some(Provider::Github)
        } else if same(word, "local") {
            Some(Provider::Local)
        } else {
            None
        }
    }
}

impl DownloadMode {
    /// The word for this mode.
    pub fn token(self) -> (r: &'static str)
        ensures
            r@ == mode_word(self),
    {
        match self {
            DownloadMode::Url => "url",
            DownloadMode::MetadataCurseforge => "metadata:curseforge",
        }
    }
}

/// Reading back the word of a provider gives that provider.
pub proof fn provider_survives_its_word(provider: Provider)
    ensures
        provider_named(provider_word(provider)) == Some(provider),
{
    reveal_strlit("modrinth");
    reveal_strlit("curseforge");
    reveal_strlit("url");
    reveal_strlit("github");
    reveal_strlit("local");
    assert("modrinth"@[0] == 'm' && "curseforge"@[0] == 'c' && "url"@[0] == 'u' && "github"@[0]
        == 'g' && "local"@[0] == 'l');
}

/// A file is fetched from a URL, or found through CurseForge: the words say which.
pub proof fn download_modes_differ(mode: DownloadMode)
    ensures
        mode == DownloadMode::Url <==> mode_word(mode) == "url"@,
        mode == DownloadMode::MetadataCurseforge <==> mode_word(mode) == "metadata:"@
            + provider_word(Provider::Curseforge),
{
    reveal_strlit("url");
    reveal_strlit("metadata:curseforge");
    reveal_strlit("metadata:");
    reveal_strlit("curseforge");
    assert("metadata:curseforge"@ =~= "metadata:"@ + "curseforge"@);
    assert("url"@.len() != "metadata:curseforge"@.len());
}

} // verus!
