//! What each command decides.
pub mod add;
pub mod bundle;
pub mod config;
pub mod del;
pub mod export;
pub mod get;
pub mod import;
pub mod init;
pub mod install;
pub mod list;
pub mod pin;
pub mod publish;
pub mod update;
pub mod verify;
pub mod why;

use vstd::prelude::*;

use crate::hash::{hex_of, sha256_digest};
use crate::lock::{Lock, LockedModView};
use crate::resolve::{contains_text, manifest_hash, manifest_hash_of, ROOT_REQUESTER};
use crate::text::{same, utf8};

verus! {

/// A lock entry that the manifest declares directly.
pub open spec fn is_direct(m: LockedModView) -> bool {
    m.requested_by.contains(ROOT_REQUESTER@)
}

/// The number of entries that the manifest declares directly.
pub open spec fn direct_count(mods: Seq<LockedModView>) -> nat
    decreases mods.len(),
{
    if mods.len() == 0 {
        0
    } else if is_direct(mods.last()) {
        direct_count(mods.drop_last()) + 1
    } else {
        direct_count(mods.drop_last())
    }
}

/// There are at most as many direct entries as entries.
pub proof fn direct_count_is_bounded(mods: Seq<LockedModView>)
    ensures
        direct_count(mods) <= mods.len(),
    decreases mods.len(),
{
    if mods.len() > 0 {
        direct_count_is_bounded(mods.drop_last());
    }
}

/// Count directly-declared vs transitive nodes in a lock, for user-facing summaries.
pub fn count_kinds(lock: &Lock) -> (r: (usize, usize))
    ensures
        r.0 == direct_count(lock@.mods),
        r.0 + r.1 == lock@.mods.len(),
{
    let ghost all = lock@.mods;
    let mut direct: usize = 0;
    let mut i: usize = 0;
    while i < lock.mods.len()
        invariant
            all == lock.mods.deep_view(),
            i <= lock.mods@.len(),
            direct == direct_count(all.take(i as int)),
            direct <= i,
        decreases lock.mods.len() - i,
    {
        proof {
            assert(all[i as int] == lock.mods@[i as int].deep_view());
            assert(all.take(i + 1).drop_last() =~= all.take(i as int));
        }
        if contains_text(&lock.mods[i].requested_by, ROOT_REQUESTER) {
            direct = direct + 1;
        }
        i = i + 1;
    }
    assert(all.take(i as int) =~= all);
    (direct, lock.mods.len() - direct)
}

/// Whether a lock belongs to the manifest with this canonical JSON form, so that it can be used
/// without resolving again. A lock that is missing does not. Read-only commands warn of a stale
/// lock instead of silently reporting stale pack contents.
pub fn is_fresh(lock: Option<&Lock>, json: &str) -> (r: bool)
    ensures
        r == (lock matches Some(l) && l@.manifest_hash == manifest_hash_of(json@)),
{
    match lock {
        Some(l) => same(l.manifest_hash.as_str(), manifest_hash(json).as_str()),
        None => false,
    }
}

/// The mods that count as declared are those that the manifest is recorded as a requester of.
pub proof fn declared_mods_are_counted(mods: Seq<LockedModView>)
    ensures
        direct_count(mods) == mods.filter(
            |m: LockedModView| m.requested_by.contains("manifest"@),
        ).len(),
    decreases mods.len(),
{
    reveal(Seq::filter);
    if mods.len() > 0 {
        declared_mods_are_counted(mods.drop_last());
    }
}

/// A lock is fresh exactly where it carries the digest of the manifest's text.
pub proof fn a_fresh_lock_carries_the_digest(lock: Option<&Lock>, json: &str, r: bool)
    requires
        call_ensures(is_fresh, (lock, json), r),
    ensures
        r <==> (lock matches Some(l) && l@.manifest_hash == "sha256:"@ + hex_of(
            sha256_digest(utf8(json@)),
        )),
{
}

} // verus!
