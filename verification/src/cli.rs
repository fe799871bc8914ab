//! What a command line asks for. Paths are text as typed.
use vstd::prelude::*;

use crate::loader::Loader;
use crate::side::Side;

verus! {

/// A package manager for Minecraft modpacks.
#[derive(Debug)]
pub struct Cli {
    pub command: Command,
}

#[derive(Debug)]
pub enum Command {
    /// Scaffold a new pack (`lode.json`) in the current directory.
    Init(InitArgs),
    /// Convert an existing pack from another tool into this lode project.
    Import(ImportArgs),
    /// Add a mod: declare it, resolve dependencies, and download the jars.
    Add(AddArgs),
    /// Remove a mod, prune orphaned dependencies, and delete its jars.
    Del(DelArgs),
    /// Pin a mod to its locked version so `update` won't bump it.
    Pin(PinArgs),
    /// Remove a mod's pin so `update` can bump it again.
    Unpin(PinArgs),
    /// Re-resolve the pack, picking the latest allowed versions.
    Update(UpdateArgs),
    /// List the mods in the pack.
    List(ListArgs),
    /// Re-resolve the lockfile from the manifest (creates it if missing).
    Refresh,
    /// Download everything in the lockfile into an instance, like `npm install`.
    Install(InstallArgs),
    /// Fetch a published pack from a ref (host/owner/repo[@tag]) and set it up here.
    Get(GetArgs),
    /// Bundle the pack and publish it as a GitHub release (needs GITHUB_TOKEN).
    Publish(PublishArgs),
    /// Export the pack to another tool's format (currently packwiz), for launcher interop.
    Export(ExportArgs),
    /// Bundle the pack definition into a distributable `.tar.gz` + `.sha256` checksum.
    Bundle(BundleArgs),
    /// Verify installed jars against the lockfile (integrity check).
    Verify(VerifyArgs),
    /// Explain why a mod is in the pack (declared, or required by which mods).
    Why(WhyArgs),
    /// Get or set stored configuration (e.g. the CurseForge API key).
    Config(ConfigArgs),
}

#[derive(Debug)]
pub struct ConfigArgs {
    pub action: ConfigAction,
}

#[derive(Debug)]
pub enum ConfigAction {
    /// Set a value, e.g. `lode config set curseforge.key <KEY>`.
    Store { key: String, value: String },
    /// Print a value, e.g. `lode config get curseforge.key`.
    Get { key: String },
}

#[derive(Debug)]
pub struct InitArgs {
    pub name: Option<String>,
    pub author: Option<String>,
    pub version: String,
    pub minecraft: Option<String>,
    /// The mod loader.
    pub loader: Option<Loader>,
    pub loader_version: Option<String>,
    /// Accept defaults without prompting.
    pub yes: bool,
}

#[derive(Debug)]
pub struct ImportArgs {
    /// The pack format to convert from (currently `packwiz`).
    pub source: ImportSource,
    /// The source pack directory (or its pack.toml); defaults to the current directory.
    pub path: Option<String>,
    /// Write the lode project into this directory instead of the current one.
    pub out: Option<String>,
    /// Overwrite an existing lode.json.
    pub force: bool,
}

#[derive(Debug, Clone, Copy, PartialEq, Eq, Structural)]
pub enum ImportSource {
    /// A packwiz pack (pack.toml + index.toml + mods/*.pw.toml).
    Packwiz,
}

#[derive(Debug)]
pub struct ExportArgs {
    /// The format to export to (currently `packwiz`).
    pub target: ExportTarget,
}

#[derive(Debug, Clone, Copy, PartialEq, Eq, Structural)]
pub enum ExportTarget {
    /// A packwiz distribution tree (pack.toml + index.toml + mods/*.pw.toml) in `pack/`.
    Packwiz,
}

#[derive(Debug)]
pub struct AddArgs {
    /// A Modrinth slug, project id, URL, or a search term.
    pub query: String,
    /// Pin an exact version number instead of the latest.
    pub version: Option<String>,
    /// Override the side the mod installs on.
    pub side: Option<Side>,
    /// Search Modrinth and pick from the matches, instead of requiring an exact slug/id/URL.
    pub search: bool,
    /// Resolve from CurseForge instead of Modrinth (needs CF_API_KEY).
    pub curseforge: bool,
    /// Only update the manifest + lockfile; don't download the jars.
    pub lock_only: bool,
}

#[derive(Debug)]
pub struct DelArgs {
    /// Slug of the mod to remove.
    pub name: String,
}

#[derive(Debug)]
pub struct PinArgs {
    /// Slug of the mod to pin or unpin.
    pub name: String,
}

#[derive(Debug)]
pub struct UpdateArgs {
    /// Slug to update; omit (or use --all) to update everything.
    pub name: Option<String>,
    pub all: bool,
}

#[derive(Debug)]
pub struct ListArgs {
    /// Emit the resolved lockfile as JSON.
    pub json: bool,
}

#[derive(Debug)]
pub struct WhyArgs {
    /// Slug of the mod to explain.
    pub name: String,
}

#[derive(Debug)]
pub struct BundleArgs {
    /// Directory to write the artifact into (defaults to the current directory).
    pub out: Option<String>,
}

#[derive(Debug)]
pub struct GetArgs {
    /// A published pack ref: host/owner/repo[@tag], e.g. github.com/owner/repo (a GitHub release).
    pub reference: Option<String>,
    /// Fetch a `.tar.gz` from a direct URL instead of a ref.
    pub from_url: Option<String>,
    /// Use a local `.tar.gz` instead of fetching.
    pub from_file: Option<String>,
    /// Directory to unpack into (defaults to a folder named after the repo/archive).
    pub into: Option<String>,
    /// Require a valid Sigstore attestation proving the archive was built by the ref's repo.
    /// A signature present on the source is always verified; this makes one mandatory.
    pub verify: bool,
    /// Accept a remote pack whose provenance can't be verified: a missing/invalid checksum or an
    /// absent/failed signature. Off by default (lode is fail-closed for remote sources). A genuine
    /// checksum *mismatch* is never bypassed, and `--verify` still forces a valid signature.
    pub insecure: bool,
    /// Unpack and verify only; don't download the jars.
    pub no_install: bool,
}

#[derive(Debug)]
pub struct PublishArgs {
    /// The GitHub repo to publish to (owner/repo); inferred from the `origin` remote if omitted.
    pub repo: Option<String>,
    /// The release tag to create or attach to (e.g. v1.0.0).
    pub tag: String,
    /// Also sign the archive (keyless, via cosign) and upload the .sigstore bundle.
    pub sign: bool,
    /// Mark the release as a prerelease.
    pub prerelease: bool,
}

#[derive(Debug)]
pub struct VerifyArgs {
    /// Instance directory whose `mods/` to check (defaults to the pack root).
    pub into: Option<String>,
}

#[derive(Debug)]
pub struct InstallArgs {
    /// Target instance directory (defaults to the pack root).
    pub into: Option<String>,
    /// Install the server side instead of the client side.
    pub server: bool,
    /// Skip provisioning the loader server (assume Forge/NeoForge is already installed).
    pub skip_loader: bool,
    /// Java executable to run the loader installer with (defaults to `java`).
    pub java: Option<String>,
}

} // verus!
