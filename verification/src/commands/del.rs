//! Removing a mod.
use vstd::prelude::*;

use crate::cli::DelArgs;
use crate::commands::pin::{with_mods, NotDeclared};
use crate::lock::{LockedMod, LockedModView};
use crate::manifest::{distinct_slugs, spec_of, withdraw, without_spec, Manifest};
use crate::text::same;

verus! {

/// Remove a declared mod from the manifest. Re-resolving then prunes any transitive dependency that
/// only this mod pulled in.
pub fn remove(manifest: &mut Manifest, args: &DelArgs) -> (r: Result<(), NotDeclared>)
    ensures
        final(manifest)@ == with_mods(old(manifest)@, without_spec(old(manifest)@.mods, args.name@)),
        r is Ok <==> spec_of(old(manifest)@.mods, args.name@) is Some,
        distinct_slugs(final(manifest)@.mods),
{
    match withdraw(&mut manifest.mods, args.name.as_str()) {
        Some(_) => Ok(()),
        None => Err(NotDeclared),
    }
}

/// A lock entry has this file name.
pub open spec fn in_pack(mods: Seq<LockedModView>, filename: Seq<char>) -> bool {
    exists|i: int| 0 <= i < mods.len() && (#[trigger] mods[i]).filename == filename
}

fn is_in_pack(mods: &Vec<LockedMod>, filename: &str) -> (r: bool)
    ensures
        r == in_pack(mods.deep_view(), filename@),
{
    let ghost all = mods.deep_view();
    let mut i: usize = 0;
    while i < mods.len()
        invariant
            all == mods.deep_view(),
            i <= mods@.len(),
            forall|k: int| 0 <= k < i ==> (#[trigger] all[k]).filename != filename@,
        decreases mods.len() - i,
    {
        assert(all[i as int] == mods@[i as int].deep_view());
        if same(mods[i].filename.as_str(), filename) {
            return true;
        }
        i = i + 1;
    }
    false
}

/// The files of the previous lock that the new one has no entry for.
pub open spec fn dropped_of(before: Seq<LockedModView>, now: Seq<LockedModView>) -> Seq<Seq<char>>
    decreases before.len(),
{
    if before.len() == 0 {
        Seq::empty()
    } else if in_pack(now, before.last().filename) {
        dropped_of(before.drop_last(), now)
    } else {
        dropped_of(before.drop_last(), now).push(before.last().filename)
    }
}

/// The jars no longer part of the pack (the removed mod plus any orphaned deps), to be deleted,
/// mirroring `npm uninstall` clearing them from node_modules.
pub fn dropped_files(before: &Vec<LockedMod>, now: &Vec<LockedMod>) -> (r: Vec<String>)
    ensures
        r.deep_view() == dropped_of(before.deep_view(), now.deep_view()),
{
    let ghost all = before.deep_view();
    let ghost kept = now.deep_view();
    let mut out: Vec<String> = Vec::new();
    let mut i: usize = 0;
    assert(out.deep_view() =~= dropped_of(all.take(0), kept));
    while i < before.len()
        invariant
            all == before.deep_view(),
            kept == now.deep_view(),
            i <= before@.len(),
            out.deep_view() == dropped_of(all.take(i as int), kept),
        decreases before.len() - i,
    {
        proof {
            assert(all[i as int] == before@[i as int].deep_view());
            assert(all.take(i + 1).drop_last() =~= all.take(i as int));
            assert(all.take(i + 1).last() == all[i as int]);
        }
        if !is_in_pack(now, before[i].filename.as_str()) {
            let ghost prior = out.deep_view();
            out.push(before[i].filename.clone());
            assert(out.deep_view() =~= prior.push(all[i as int].filename));
        }
        i = i + 1;
    }
    assert(all.take(i as int) =~= all);
    out
}

/// A file is dropped exactly when the previous lock has it and the new one has not: the jars of mods
/// that stay are never deleted.
pub proof fn only_orphans_are_dropped(
    before: Seq<LockedModView>,
    now: Seq<LockedModView>,
    filename: Seq<char>,
)
    ensures
        dropped_of(before, now).contains(filename) <==> in_pack(before, filename) && !in_pack(
            now,
            filename,
        ),
    decreases before.len(),
{
    if before.len() > 0 {
        let head = before.drop_last();
        let last = before.last();
        only_orphans_are_dropped(head, now, filename);
        let earlier = dropped_of(head, now);
        let all = dropped_of(before, now);
        assert(in_pack(before, filename) <==> in_pack(head, filename) || last.filename == filename)
            by {
            if in_pack(head, filename) {
                let i = choose|i: int| 0 <= i < head.len() && (#[trigger] head[i]).filename == filename;
                assert(before[i].filename == filename);
            }
            if last.filename == filename {
                assert(before[before.len() - 1].filename == filename);
            }
            if in_pack(before, filename) && last.filename != filename {
                let i = choose|i: int|
                    0 <= i < before.len() && (#[trigger] before[i]).filename == filename;
                assert(head[i].filename == filename);
            }
        }
        if earlier.contains(filename) {
            let k = choose|k: int| 0 <= k < earlier.len() && earlier[k] == filename;
            assert(all[k] == filename);
        }
        if !in_pack(now, last.filename) {
            assert(all[all.len() - 1] == last.filename);
            if all.contains(filename) && last.filename != filename {
                let k = choose|k: int| 0 <= k < all.len() && all[k] == filename;
                assert(earlier[k] == filename);
            }
        }
    }
}

} // verus!
