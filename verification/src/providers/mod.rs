//! What a provider answers, normalized across providers.
pub mod curseforge;
pub mod modrinth;

use vstd::prelude::*;

use crate::lock::DepKind;
use crate::side::Side;

verus! {

/// A version resolved from a provider, normalized across providers so the resolver and lock
/// don't care which backend produced it.
#[derive(Debug)]
pub struct ResolvedVersion {
    /// Provider project id (Modrinth base62, CurseForge numeric-as-string).
    pub project_id: String,
    /// Stable human slug for this project (the manifest/lock key and `.pw.toml` filename).
    pub slug: String,
    /// Display name of the project.
    pub project_name: String,
    /// Provider file/version id identifying this exact file.
    pub file_id: String,
    /// Human version string (e.g. "0.5.8").
    pub version: String,
    pub filename: String,
    /// Download URL, or None when the provider forbids persisting it (CurseForge).
    pub url: Option<String>,
    pub hash_format: String,
    pub hash: String,
    pub size: Option<u64>,
    /// Environment support as declared by the provider, pre-manifest-override.
    pub side: Side,
    pub dependencies: Vec<ResolvedDep>,
}

/// A dependency edge as declared by a provider version.
#[derive(Debug)]
pub struct ResolvedDep {
    /// Provider project id of the dependency.
    pub project_id: String,
    pub kind: DepKind,
}

/// A version looked up by its id: the metadata `lode import` recovers from a provider that a
/// packwiz `.pw.toml` doesn't record (the human version number, file size, dependency edges).
#[derive(Debug)]
pub struct ImportedVersion {
    pub version_number: String,
    pub size: Option<u64>,
    pub dependencies: Vec<ResolvedDep>,
}

#[verifier::ext_equal]
pub struct ResolvedVersionView {
    pub project_id: Seq<char>,
    pub slug: Seq<char>,
    pub project_name: Seq<char>,
    pub file_id: Seq<char>,
    pub version: Seq<char>,
    pub filename: Seq<char>,
    pub url: Option<Seq<char>>,
    pub hash_format: Seq<char>,
    pub hash: Seq<char>,
    pub size: Option<u64>,
    pub side: Side,
    pub dependencies: Seq<ResolvedDepView>,
}

#[verifier::ext_equal]
pub struct ResolvedDepView {
    pub project_id: Seq<char>,
    pub kind: DepKind,
}

#[verifier::ext_equal]
pub struct ImportedVersionView {
    pub version_number: Seq<char>,
    pub size: Option<u64>,
    pub dependencies: Seq<ResolvedDepView>,
}

impl DeepView for ResolvedDep {
    type V = ResolvedDepView;

    open spec fn deep_view(&self) -> ResolvedDepView {
        ResolvedDepView { project_id: self.project_id@, kind: self.kind }
    }
}

impl View for ResolvedVersion {
    type V = ResolvedVersionView;

    open spec fn view(&self) -> ResolvedVersionView {
        ResolvedVersionView {
            project_id: self.project_id@,
            slug: self.slug@,
            project_name: self.project_name@,
            file_id: self.file_id@,
            version: self.version@,
            filename: self.filename@,
            url: self.url.deep_view(),
            hash_format: self.hash_format@,
            hash: self.hash@,
            size: self.size,
            side: self.side,
            dependencies: self.dependencies.deep_view(),
        }
    }
}

impl DeepView for ResolvedVersion {
    type V = ResolvedVersionView;

    open spec fn deep_view(&self) -> ResolvedVersionView {
        self@
    }
}

impl View for ImportedVersion {
    type V = ImportedVersionView;

    open spec fn view(&self) -> ImportedVersionView {
        ImportedVersionView {
            version_number: self.version_number@,
            size: self.size,
            dependencies: self.dependencies.deep_view(),
        }
    }
}

// ---- the choice between candidates ------------------------------------------------------------

/// The first position from `i` on at which the flag is set.
pub open spec fn first_set(flags: Seq<bool>, i: int) -> Option<int>
    decreases flags.len() - i,
{
    if !(0 <= i < flags.len()) {
        None
    } else if flags[i] {
        Some(i)
    } else {
        first_set(flags, i + 1)
    }
}

pub open spec fn both_set(a: Seq<bool>, b: Seq<bool>) -> Seq<bool> {
    Seq::new(a.len(), |i: int| a[i] && b[i])
}

/// Which candidate is taken: the first admitted stable one, or else the first admitted one.
pub open spec fn stable_first(admitted: Seq<bool>, stable: Seq<bool>) -> Option<int> {
    match first_set(both_set(admitted, stable), 0) {
        Some(i) => Some(i),
        None => first_set(admitted, 0),
    }
}

/// Which candidate to take, given which are admitted and which are stable releases.
pub fn prefer_stable(admitted: &Vec<bool>, stable: &Vec<bool>) -> (r: Option<usize>)
    requires
        admitted@.len() == stable@.len(),
    ensures
        match r {
            Some(i) => stable_first(admitted@, stable@) == Some(i as int) && i < admitted@.len(),
            None => stable_first(admitted@, stable@) is None,
        },
{
    let ghost both = both_set(admitted@, stable@);
    let mut first: Option<usize> = None;
    let mut i: usize = 0;
    while i < admitted.len()
        invariant
            both == both_set(admitted@, stable@),
            admitted@.len() == stable@.len(),
            i <= admitted@.len(),
            first_set(both, 0) == first_set(both, i as int),
            match first {
                Some(f) => first_set(admitted@, 0) == Some(f as int) && f < admitted@.len(),
                None => first_set(admitted@, 0) == first_set(admitted@, i as int),
            },
        decreases admitted.len() - i,
    {
        if admitted[i] {
            if stable[i] {
                return Some(i);
            }
            if first.is_none() {
                first = Some(i);
            }
        }
        i = i + 1;
    }
    first
}

/// What is taken is admitted; it is stable wherever an admitted stable candidate exists; nothing
/// is taken only where nothing is admitted; and no admitted candidate of the same or better
/// stability stands before it.
pub proof fn stable_first_is_best(admitted: Seq<bool>, stable: Seq<bool>)
    requires
        admitted.len() == stable.len(),
    ensures
        match stable_first(admitted, stable) {
            Some(k) => {
                &&& 0 <= k < admitted.len()
                &&& admitted[k]
                &&& (exists|j: int| 0 <= j < admitted.len() && admitted[j] && stable[j])
                    ==> stable[k]
                &&& forall|j: int|
                    0 <= j < k && #[trigger] admitted[j] ==> stable[k] && !stable[j]
            },
            None => forall|j: int| 0 <= j < admitted.len() ==> !#[trigger] admitted[j],
        },
{
    let both = both_set(admitted, stable);
    first_set_is_first(both, 0);
    first_set_is_first(admitted, 0);
    assert(forall|j: int| 0 <= j < both.len() ==> #[trigger] both[j] == (admitted[j] && stable[j]));
    if exists|j: int| 0 <= j < admitted.len() && admitted[j] && stable[j] {
        let j = choose|j: int| 0 <= j < admitted.len() && admitted[j] && stable[j];
        assert(both[j]);
    }
    assert forall|j: int| 0 <= j < admitted.len() && #[trigger] admitted[j] implies both[j]
        == stable[j] by {}
}

/// A found position is the first with its flag set; none is found where no flag is set.
pub proof fn first_set_is_first(flags: Seq<bool>, i: int)
    requires
        0 <= i <= flags.len(),
    ensures
        match first_set(flags, i) {
            Some(k) => i <= k < flags.len() && flags[k] && forall|j: int|
                i <= j < k ==> !#[trigger] flags[j],
            None => forall|j: int| i <= j < flags.len() ==> !#[trigger] flags[j],
        },
    decreases flags.len() - i,
{
    if i < flags.len() && !flags[i] {
        first_set_is_first(flags, i + 1);
    }
}

} // verus!
