//! Exporting a pack to another tool's format.
use vstd::prelude::*;

use crate::cli::{ExportArgs, ExportTarget};
use crate::commands::is_fresh;
use crate::hash::{hex_of, sha256_digest};
use crate::lock::Lock;
use crate::resolve::manifest_hash_of;
use crate::text::utf8;

verus! {

/// What an export takes its mods from.
#[derive(Debug, Clone, Copy, PartialEq, Eq, Structural)]
pub enum ExportStep {
    /// The existing lock, which belongs to the current manifest.
    UseLock,
    /// A new resolution: the lock is missing or stale, and a stale lock never produces a stale pack.
    Resolve,
}

/// What to do for an export: the existing lock is used only if it matches the current manifest;
/// otherwise the pack is re-resolved. `json` is the manifest's canonical form.
pub fn run(args: &ExportArgs, lock: Option<&Lock>, json: &str) -> (r: ExportStep)
    ensures
        r == (if lock matches Some(l) && l@.manifest_hash == manifest_hash_of(json@) {
            ExportStep::UseLock
        } else {
            ExportStep::Resolve
        }),
{
    match args.target {
        ExportTarget::Packwiz => if is_fresh(lock, json) {
            ExportStep::UseLock
        } else {
            ExportStep::Resolve
        },
    }
}

/// An export uses the lock that is there exactly where it is fresh.
pub proof fn a_stale_lock_is_not_exported(
    args: &ExportArgs,
    lock: Option<&Lock>,
    json: &str,
    r: ExportStep,
)
    requires
        call_ensures(run, (args, lock, json), r),
    ensures
        r == ExportStep::UseLock <==> (lock matches Some(l) && l@.manifest_hash == "sha256:"@ + hex_of(
            sha256_digest(utf8(json@)),
        )),
        r == ExportStep::UseLock || r == ExportStep::Resolve,
{
}

} // verus!
