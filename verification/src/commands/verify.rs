//! Checking installed jars against the lockfile.
use vstd::prelude::*;

use crate::commands::install::{is_the_locked_file, locked_hashes_are_digests};
use crate::hash::{hash_by_format, hash_in};
use crate::lock::{LockedMod, LockedModView};
use crate::text::same;

verus! {

/// The outcome of checking one locked mod against what's on disk.
#[derive(Debug, Clone, Copy, PartialEq, Eq, Structural)]
pub enum Status {
    /// File present and its hash matches the lock.
    Intact,
    /// File not on disk (may simply not be installed for this side, not a failure).
    Missing,
    /// File present but its bytes don't match the locked hash: tampering or corruption.
    Mismatch,
    /// File present but the lock's hash format isn't one we can recompute (a format lode doesn't
    /// implement; sha1/256/512 and md5 all verify).
    Unsupported,
}

/// The status of a mod whose file holds `bytes`, or is not there.
pub open spec fn status_of(m: LockedModView, bytes: Option<Seq<u8>>) -> Status {
    match bytes {
        None => Status::Missing,
        Some(b) => match hash_in(b, m.download.hash_format) {
            Some(h) => if h == m.download.hash {
                Status::Intact
            } else {
                Status::Mismatch
            },
            None => Status::Unsupported,
        },
    }
}

/// Check a locked mod's file against its recorded hash.
pub fn check_mod(m: &LockedMod, bytes: &Option<Vec<u8>>) -> (r: Status)
    ensures
        r == status_of(
            m@,
            match bytes {
                Some(b) => Some(b@),
                None => None,
            },
        ),
{
    match bytes {
        None => Status::Missing,
        Some(b) => match hash_by_format(b.as_slice(), m.download.hash_format.as_str()) {
            Some(h) => if same(h.as_str(), m.download.hash.as_str()) {
                Status::Intact
            } else {
                Status::Mismatch
            },
            None => Status::Unsupported,
        },
    }
}

/// The slug, file name and status of a mod.
#[derive(Debug)]
pub struct Checked {
    pub slug: String,
    pub filename: String,
    pub status: Status,
}

#[verifier::ext_equal]
pub struct CheckedView {
    pub slug: Seq<char>,
    pub filename: Seq<char>,
    pub status: Status,
}

impl DeepView for Checked {
    type V = CheckedView;

    open spec fn deep_view(&self) -> CheckedView {
        CheckedView { slug: self.slug@, filename: self.filename@, status: self.status }
    }
}

pub open spec fn contents_views(contents: Seq<Option<Vec<u8>>>) -> Seq<Option<Seq<u8>>> {
    contents.map_values(
        |c: Option<Vec<u8>>|
            match c {
                Some(b) => Some(b@),
                None => None,
            },
    )
}

/// Each mod with its status.
pub open spec fn checked_mods(mods: Seq<LockedModView>, contents: Seq<Option<Seq<u8>>>) -> Seq<
    CheckedView,
> {
    Seq::new(
        mods.len(),
        |i: int|
            CheckedView {
                slug: mods[i].slug,
                filename: mods[i].filename,
                status: status_of(mods[i], contents[i]),
            },
    )
}

/// Check each locked mod's jar against its recorded hash; `contents` holds what each file holds,
/// where it is there.
pub fn check_mods(mods: &Vec<LockedMod>, contents: &Vec<Option<Vec<u8>>>) -> (r: Vec<Checked>)
    requires
        contents@.len() == mods@.len(),
    ensures
        r.deep_view() == checked_mods(mods.deep_view(), contents_views(contents@)),
{
    let ghost all = mods.deep_view();
    let ghost read = contents_views(contents@);
    let mut out: Vec<Checked> = Vec::new();
    let mut i: usize = 0;
    while i < mods.len()
        invariant
            all == mods.deep_view(),
            read == contents_views(contents@),
            contents@.len() == mods@.len(),
            i <= mods@.len(),
            out.deep_view() == checked_mods(all, read).take(i as int),
        decreases mods.len() - i,
    {
        assert(all[i as int] == mods@[i as int].deep_view());
        let ghost prior = out.deep_view();
        let checked = Checked {
            slug: mods[i].slug.clone(),
            filename: mods[i].filename.clone(),
            status: check_mod(&mods[i], &contents[i]),
        };
        let ghost added = checked.deep_view();
        out.push(checked);
        i = i + 1;
        assert(out.deep_view() =~= prior.push(added));
        assert(added == checked_mods(all, read)[i - 1]);
        assert(out.deep_view() =~= checked_mods(all, read).take(i as int));
    }
    assert(checked_mods(all, read).take(i as int) =~= checked_mods(all, read));
    out
}

/// How many mods have each status.
#[derive(Debug, Clone, Copy)]
pub struct Tally {
    pub ok: usize,
    pub missing: usize,
    pub mismatch: usize,
    pub unsupported: usize,
}

/// The number of mods with a status.
pub open spec fn count_of(checked: Seq<CheckedView>, status: Status) -> nat
    decreases checked.len(),
{
    if checked.len() == 0 {
        0
    } else if checked.last().status == status {
        count_of(checked.drop_last(), status) + 1
    } else {
        count_of(checked.drop_last(), status)
    }
}

/// How many mods have each status. The pack passes exactly where no file mismatches: a mismatch means
/// that it was altered or corrupted, a missing file may belong to the other side.
pub fn tally(checked: &Vec<Checked>) -> (r: Tally)
    ensures
        r.ok == count_of(checked.deep_view(), Status::Intact),
        r.missing == count_of(checked.deep_view(), Status::Missing),
        r.mismatch == count_of(checked.deep_view(), Status::Mismatch),
        r.unsupported == count_of(checked.deep_view(), Status::Unsupported),
        r.ok + r.missing + r.mismatch + r.unsupported == checked@.len(),
{
    let ghost all = checked.deep_view();
    let mut t = Tally { ok: 0, missing: 0, mismatch: 0, unsupported: 0 };
    let mut i: usize = 0;
    while i < checked.len()
        invariant
            all == checked.deep_view(),
            i <= checked@.len(),
            t.ok == count_of(all.take(i as int), Status::Intact),
            t.missing == count_of(all.take(i as int), Status::Missing),
            t.mismatch == count_of(all.take(i as int), Status::Mismatch),
            t.unsupported == count_of(all.take(i as int), Status::Unsupported),
            t.ok + t.missing + t.mismatch + t.unsupported == i,
        decreases checked.len() - i,
    {
        proof {
            assert(all[i as int] == checked@[i as int].deep_view());
            assert(all.take(i + 1).drop_last() =~= all.take(i as int));
            assert(all.take(i + 1).last() == all[i as int]);
        }
        match checked[i].status {
            Status::Intact => {
                t.ok = t.ok + 1;
            },
            Status::Missing => {
                t.missing = t.missing + 1;
            },
            Status::Mismatch => {
                t.mismatch = t.mismatch + 1;
            },
            Status::Unsupported => {
                t.unsupported = t.unsupported + 1;
            },
        }
        i = i + 1;
    }
    assert(all.take(i as int) =~= all);
    t
}

/// A file that an install writes passes the check: what is written has the locked hash.
pub proof fn installed_files_pass(m: LockedModView, bytes: Seq<u8>)
    requires
        crate::commands::install::has_locked_hash(m, bytes),
    ensures
        status_of(m, Some(bytes)) == Status::Intact,
{
}

/// A file is intact exactly where it has the locked hash, in the locked format; it mismatches where the
/// format is known and the hash is another; and it is missing only where it is not there.
pub proof fn a_status_says_what_was_found(m: LockedModView, bytes: Option<Seq<u8>>)
    ensures
        ({
            let known = m.download.hash_format == "sha1"@ || m.download.hash_format == "sha256"@
                || m.download.hash_format == "sha512"@ || m.download.hash_format == "md5"@;
            match status_of(m, bytes) {
                Status::Missing => bytes is None,
                Status::Intact => bytes matches Some(b) && is_the_locked_file(m, b),
                Status::Mismatch => bytes matches Some(b) && known && !is_the_locked_file(m, b),
                Status::Unsupported => bytes is Some && !known,
            }
        }),
{
    if bytes is Some {
        locked_hashes_are_digests(m, bytes->0);
    }
}

/// Every mod of the lock is checked against its own file, in order.
pub proof fn every_mod_is_checked(mods: Seq<LockedModView>, contents: Seq<Option<Seq<u8>>>, i: int)
    requires
        0 <= i < mods.len(),
        contents.len() == mods.len(),
    ensures
        checked_mods(mods, contents).len() == mods.len(),
        checked_mods(mods, contents)[i].slug == mods[i].slug,
        checked_mods(mods, contents)[i].filename == mods[i].filename,
        checked_mods(mods, contents)[i].status == status_of(mods[i], contents[i]),
{
}

/// The tally of a status is the number of mods with it.
pub proof fn a_tally_counts_a_status(checked: Seq<CheckedView>, status: Status)
    ensures
        count_of(checked, status) == checked.filter(|c: CheckedView| c.status == status).len(),
    decreases checked.len(),
{
    reveal(Seq::filter);
    if checked.len() > 0 {
        a_tally_counts_a_status(checked.drop_last(), status);
    }
}

} // verus!
