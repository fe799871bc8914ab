//! Where the files of a pack are.
use vstd::prelude::*;

use crate::lock::LOCK_FILENAME;
use crate::manifest::MANIFEST_FILENAME;
use crate::text::ends_with;

verus! {

/// The resolved locations of a pack's files, discovered from the current directory upward.
#[derive(Debug)]
pub struct PackPaths {
    pub root: String,
}

/// `name` in the directory `base`. An empty directory is the current one.
pub open spec fn under(base: Seq<char>, name: Seq<char>) -> Seq<char> {
    if base.len() == 0 || "/"@.is_suffix_of(base) {
        base + name
    } else {
        base + "/"@ + name
    }
}

/// `name` in the directory `base`.
pub fn join_path(base: &str, name: &str) -> (r: String)
    ensures
        r@ == under(base@, name@),
{
    let mut out = base.to_owned();
    if !base.is_empty() && !ends_with(base, "/") {
        out.append("/");
    }
    out.append(name);
    out
}

/// The first directory that holds a manifest.
pub open spec fn nearest(dirs: Seq<Seq<char>>, holds: Seq<bool>) -> Option<Seq<char>>
    decreases dirs.len(),
{
    if dirs.len() == 0 || holds.len() == 0 {
        None
    } else if holds[0] {
        Some(dirs[0])
    } else {
        nearest(dirs.drop_first(), holds.drop_first())
    }
}

impl PackPaths {
    /// Of the start directory and its ancestors, innermost first, the nearest one that holds a
    /// manifest is the root, so commands work from any subdirectory. `holds` says which do.
    pub fn discover(dirs: &Vec<String>, holds: &Vec<bool>) -> (r: Option<PackPaths>)
        requires
            dirs@.len() == holds@.len(),
        ensures
            match r {
                Some(p) => nearest(dirs.deep_view(), holds@) == Some(p.root@),
                None => nearest(dirs.deep_view(), holds@) is None,
            },
    {
        let ghost all = dirs.deep_view();
        let mut i: usize = 0;
        assert(all.skip(0) =~= all && holds@.skip(0) =~= holds@);
        while i < dirs.len()
            invariant
                all == dirs.deep_view(),
                dirs@.len() == holds@.len(),
                i <= dirs@.len(),
                nearest(all, holds@) == nearest(all.skip(i as int), holds@.skip(i as int)),
            decreases dirs.len() - i,
        {
            proof {
                assert(all[i as int] == dirs@[i as int]@);
                assert(all.skip(i as int)[0] == all[i as int]);
                assert(holds@.skip(i as int)[0] == holds@[i as int]);
                assert(all.skip(i as int).drop_first() =~= all.skip(i + 1));
                assert(holds@.skip(i as int).drop_first() =~= holds@.skip(i + 1));
            }
            if holds[i] {
                return Some(PackPaths { root: dirs[i].clone() });
            }
            i = i + 1;
        }
        None
    }

    pub fn manifest(&self) -> (r: String)
        ensures
            r@ == under(self.root@, MANIFEST_FILENAME@),
    {
        join_path(self.root.as_str(), MANIFEST_FILENAME)
    }

    pub fn lock(&self) -> (r: String)
        ensures
            r@ == under(self.root@, LOCK_FILENAME@),
    {
        join_path(self.root.as_str(), LOCK_FILENAME)
    }

    /// The generated packwiz distribution tree (`pack/`).
    pub fn pack_dir(&self) -> (r: String)
        ensures
            r@ == under(self.root@, "pack"@),
    {
        join_path(self.root.as_str(), "pack")
    }
}

/// The root is the nearest directory with a manifest: it holds one, and no directory closer to the
/// start does; nothing is found only where no ancestor holds one.
pub proof fn nearest_manifest_wins(dirs: Seq<Seq<char>>, holds: Seq<bool>)
    requires
        dirs.len() == holds.len(),
    ensures
        match nearest(dirs, holds) {
            Some(root) => exists|i: int|
                #![trigger holds[i]]
                0 <= i < dirs.len() && holds[i] && dirs[i] == root && forall|j: int|
                    0 <= j < i ==> !#[trigger] holds[j],
            None => forall|j: int| 0 <= j < dirs.len() ==> !#[trigger] holds[j],
        },
    decreases dirs.len(),
{
    if dirs.len() > 0 {
        if !holds[0] {
            let d = dirs.drop_first();
            let h = holds.drop_first();
            nearest_manifest_wins(d, h);
            assert(forall|j: int| 0 <= j < h.len() ==> h[j] == #[trigger] holds[j + 1]);
            match nearest(d, h) {
                Some(root) => {
                    let i = choose|i: int|
                        #![trigger h[i]]
                        0 <= i < d.len() && h[i] && d[i] == root && forall|j: int|
                            0 <= j < i ==> !#[trigger] h[j];
                    assert(holds[i + 1] && dirs[i + 1] == root);
                    assert forall|j: int| 0 <= j < i + 1 implies !#[trigger] holds[j] by {
                        if j > 0 {
                            assert(!h[j - 1]);
                        }
                    }
                },
                None => {
                    assert forall|j: int| 0 <= j < dirs.len() implies !#[trigger] holds[j] by {
                        if j > 0 {
                            assert(!h[j - 1]);
                        }
                    }
                },
            }
        } else {
            assert(holds[0] && dirs[0] == nearest(dirs, holds)->0);
        }
    }
}

/// A name in a directory stands behind its slash, which is there once; the empty directory is the current
/// one.
pub proof fn a_name_stands_behind_one_slash(base: Seq<char>, name: Seq<char>)
    requires
        base.len() > 0,
        !"/"@.is_suffix_of(base),
    ensures
        under(base, name) == base + "/"@ + name,
        under(base + "/"@, name) == under(base, name),
        under(Seq::empty(), name) == name,
{
    reveal_strlit("/");
    let slashed = base + "/"@;
    assert(slashed.subrange(slashed.len() - 1, slashed.len() as int) =~= "/"@);
    assert(Seq::<char>::empty() + name =~= name);
}

/// The manifest, the lock and the pack stand in the root under their own names.
pub proof fn a_pack_keeps_its_files_in_its_root(
    paths: &PackPaths,
    manifest: String,
    lock: String,
    pack: String,
)
    requires
        call_ensures(PackPaths::manifest, (paths,), manifest),
        call_ensures(PackPaths::lock, (paths,), lock),
        call_ensures(PackPaths::pack_dir, (paths,), pack),
    ensures
        manifest@ == under(paths.root@, "lode.json"@),
        lock@ == under(paths.root@, "lode.lock"@),
        pack@ == under(paths.root@, "pack"@),
{
}

} // verus!
