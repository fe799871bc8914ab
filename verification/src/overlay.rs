//! Overlays: the files a pack ships beside its mods.
use vstd::prelude::*;

use crate::manifest::{Manifest, Overlay, OverlayView};
use crate::order::{
    arrange, arranged, arranging_orders, arranging_permutes, strict_order, Ranked,
};
use crate::side::Side;
use crate::text::{
    before, is_before, replace, replaced, text_order_is_strict, trim_end, trimmed_end,
    trimming_an_ending_takes_all_of_it,
};

verus! {

/// A concrete non-mod file (config, script, resource) the pack ships alongside its mods.
#[derive(Debug)]
pub struct OverlayFile {
    /// Path relative to the pack root, forward-slashed (matches packwiz index paths).
    pub rel: String,
    pub abs: String,
    pub side: Side,
}

#[verifier::ext_equal]
pub struct OverlayFileView {
    pub rel: Seq<char>,
    pub abs: Seq<char>,
    pub side: Side,
}

impl DeepView for OverlayFile {
    type V = OverlayFileView;

    open spec fn deep_view(&self) -> OverlayFileView {
        OverlayFileView { rel: self.rel@, abs: self.abs@, side: self.side }
    }
}

impl Ranked for OverlayFile {
    open spec fn ranks_before(a: OverlayFileView, b: OverlayFileView) -> bool {
        before(a.rel, b.rel)
    }

    fn is_ranked_before(&self, other: &Self) -> (r: bool) {
        is_before(self.rel.as_str(), other.rel.as_str())
    }
}

/// The directory that an overlay's glob stands for.
pub open spec fn overlay_dir_of(path: Seq<char>) -> Seq<char> {
    trimmed_end(trimmed_end(trimmed_end(path, "/**"@), "/*"@), "/"@)
}

/// The side of an overlay: its own, or else the pack's default.
pub open spec fn overlay_side_of(overlay: OverlayView, default_side: Side) -> Side {
    match overlay.side {
        Some(side) => side,
        None => default_side,
    }
}

/// The directory that an overlay's glob stands for: a glob like `config/**` is treated as "every
/// file under `config/`".
pub fn overlay_dir(overlay: &Overlay) -> (r: String)
    ensures
        r@ == overlay_dir_of(overlay.deep_view().path),
{
    proof {
        reveal_strlit("/**");
        reveal_strlit("/*");
        reveal_strlit("/");
    }
    let a = trim_end(overlay.path.as_str(), "/**");
    let b = trim_end(a.as_str(), "/*");
    trim_end(b.as_str(), "/")
}

/// The side that the files of an overlay inherit: the overlay's, or else the pack's default side.
pub fn overlay_side(overlay: &Overlay, manifest: &Manifest) -> (r: Side)
    ensures
        r == overlay_side_of(overlay.deep_view(), manifest@.default_side),
{
    match overlay.side {
        Some(side) => side,
        None => manifest.defaults.side,
    }
}

/// A file found under an overlay's directory, under its path relative to the pack root with
/// forward slashes.
pub fn found(rel: &str, abs: &str, side: Side) -> (r: OverlayFile)
    ensures
        r.deep_view() == (OverlayFileView { rel: replaced(rel@, '\\', "/"@), abs: abs@, side }),
{
    OverlayFile { rel: replace(rel, '\\', "/"), abs: abs.to_owned(), side }
}

/// The found files in the order of their relative paths.
pub fn collect(files: Vec<OverlayFile>) -> (r: Vec<OverlayFile>)
    ensures
        r.deep_view() == arranged::<OverlayFile>(files.deep_view()),
{
    arrange(files)
}

/// The order of overlay files is strict.
pub proof fn overlay_order_is_strict()
    ensures
        strict_order::<OverlayFile>(),
{
    text_order_is_strict();
}

/// A glob stands for its directory, with one star or two, or with a slash at its end.
pub proof fn a_glob_stands_for_its_directory(dir: Seq<char>)
    requires
        !"/**"@.is_suffix_of(dir),
        !"/*"@.is_suffix_of(dir),
        !"/"@.is_suffix_of(dir),
    ensures
        overlay_dir_of(dir) == dir,
        overlay_dir_of(dir + "/**"@) == dir,
        overlay_dir_of(dir + "/*"@) == dir,
        overlay_dir_of(dir + "/"@) == dir,
{
    reveal_strlit("/**");
    reveal_strlit("/*");
    reveal_strlit("/");
    trimming_an_ending_takes_all_of_it(dir, "/**"@);
    trimming_an_ending_takes_all_of_it(dir, "/*"@);
    trimming_an_ending_takes_all_of_it(dir, "/"@);
    let star = dir + "/*"@;
    let slash = dir + "/"@;
    if "/**"@.is_suffix_of(star) {
        let tail = star.subrange(star.len() - 3, star.len() as int);
        assert(tail[1] == star[star.len() - 2]);
        assert(star[star.len() - 2] == '/');
        assert("/**"@[1] == '*');
    }
    if "/**"@.is_suffix_of(slash) {
        let tail = slash.subrange(slash.len() - 3, slash.len() as int);
        assert(tail[2] == slash[slash.len() - 1]);
        assert("/**"@[2] == '*');
    }
    if "/*"@.is_suffix_of(slash) {
        let tail = slash.subrange(slash.len() - 2, slash.len() as int);
        assert(tail[1] == slash[slash.len() - 1]);
        assert("/*"@[1] == '*');
    }
    trimming_an_ending_takes_all_of_it(star, "/**"@);
    trimming_an_ending_takes_all_of_it(slash, "/**"@);
    trimming_an_ending_takes_all_of_it(slash, "/*"@);
}

/// An overlay is for its own side, and without one for the pack's default side.
pub proof fn overlays_are_for_their_side(overlay: OverlayView, default_side: Side)
    ensures
        overlay.side matches Some(side) ==> overlay_side_of(overlay, default_side) == side,
        overlay.side is None ==> overlay_side_of(overlay, default_side) == default_side,
{
}

/// The overlay files come sorted by their path in the pack, and are the ones that were found.
pub proof fn overlays_come_sorted(files: Seq<OverlayFileView>)
    ensures
        ({
            let sorted = arranged::<OverlayFile>(files);
            &&& sorted.to_multiset() == files.to_multiset()
            &&& forall|a: int, b: int|
                0 <= a < b < sorted.len() ==> !before(
                    (#[trigger] sorted[b]).rel,
                    (#[trigger] sorted[a]).rel,
                )
        }),
{
    let sorted = arranged::<OverlayFile>(files);
    overlay_order_is_strict();
    arranging_orders::<OverlayFile>(files);
    arranging_permutes::<OverlayFile>(files);
    assert forall|a: int, b: int| 0 <= a < b < sorted.len() implies !before(
        (#[trigger] sorted[b]).rel,
        (#[trigger] sorted[a]).rel,
    ) by {
        assert(!OverlayFile::ranks_before(sorted[b], sorted[a]));
    }
}

} // verus!
