//! Updating a pack.
use vstd::prelude::*;

use crate::cli::UpdateArgs;
use crate::graph::last_entry_counts;
use crate::lock::{copy_option, Lock, LockedMod, LockedModView};
use crate::manifest::{pinned, spec_of, Manifest, ModSpecView};
use crate::resolve::{find_last, last_value, slug_versions, Frozen, ModeView, ResolveMode};
use crate::text::same;

verus! {

/// The mod that is to be updated is pinned.
#[derive(Debug, Clone, Copy, PartialEq, Eq, Structural)]
pub struct Pinned;

/// The one mod that an update is limited to, where it is: `--all` is the same as leaving the slug out.
pub open spec fn update_target(name: Option<Seq<char>>, all: bool) -> Option<Seq<char>> {
    if all {
        None
    } else {
        name
    }
}

/// An update is limited to a mod that the manifest pins.
pub open spec fn targets_a_pin(
    mods: Seq<(Seq<char>, ModSpecView)>,
    name: Option<Seq<char>>,
    all: bool,
) -> bool {
    update_target(name, all) matches Some(slug) && spec_of(mods, slug) matches Some(spec) && pinned(
        spec,
    )
}

/// How to resolve for an update: `lode update <slug>` bumps just that mod; `lode update` / `--all`
/// bumps everything unpinned. A mod that the manifest pins is refused: the pin is the whole point.
pub fn update_mode(manifest: &Manifest, args: &UpdateArgs) -> (r: Result<ResolveMode, Pinned>)
    ensures
        match r {
            Ok(mode) => !targets_a_pin(manifest@.mods, args.name.deep_view(), args.all) && mode@ == (
            ModeView::Update { only: update_target(args.name.deep_view(), args.all) }),
            Err(_) => targets_a_pin(manifest@.mods, args.name.deep_view(), args.all),
        },
{
    if args.all {
        return Ok(ResolveMode::Update { only: None });
    }
    match &args.name {
        Some(slug) => match manifest.find(slug.as_str()) {
            Some(spec) => {
                if spec.pin() {
                    return Err(Pinned);
                }
            },
            None => {},
        },
        None => {},
    }
    Ok(ResolveMode::Update { only: copy_option(&args.name) })
}

/// A mod whose version changed, or that is new.
#[derive(Debug)]
pub struct Change {
    pub slug: String,
    pub old: Option<String>,
    pub new: String,
}

#[verifier::ext_equal]
pub struct ChangeView {
    pub slug: Seq<char>,
    pub old: Option<Seq<char>>,
    pub new: Seq<char>,
}

impl DeepView for Change {
    type V = ChangeView;

    open spec fn deep_view(&self) -> ChangeView {
        ChangeView { slug: self.slug@, old: self.old.deep_view(), new: self.new@ }
    }
}

/// What changed, entry by entry: versions that differ from the previous lock's, and new mods.
pub open spec fn changes_of(
    before: Seq<(Seq<char>, Seq<char>)>,
    now: Seq<LockedModView>,
) -> Seq<ChangeView>
    decreases now.len(),
{
    if now.len() == 0 {
        Seq::empty()
    } else {
        let head = changes_of(before, now.drop_last());
        let m = now.last();
        let old_version = last_value(before, m.slug);
        if old_version == Some(m.version) {
            head
        } else {
            head.push(ChangeView { slug: m.slug, old: old_version, new: m.version })
        }
    }
}

/// What an update changed.
pub fn changes(previous: Option<&Lock>, now: &Vec<LockedMod>) -> (r: Vec<Change>)
    ensures
        r.deep_view() == changes_of(
            match previous {
                Some(lock) => slug_versions(lock@.mods),
                None => Seq::empty(),
            },
            now.deep_view(),
        ),
{
    let frozen = Frozen::from(previous);
    let ghost before = frozen.by_slug.deep_view();
    let ghost known = match previous {
        Some(lock) => slug_versions(lock@.mods),
        None => Seq::empty(),
    };
    assert(before == known) by {
        assert(frozen.policy(ModeView::Locked).by_slug == before);
    }
    let ghost all = now.deep_view();
    let mut out: Vec<Change> = Vec::new();
    let mut i: usize = 0;
    assert(out.deep_view() =~= changes_of(before, all.take(0)));
    while i < now.len()
        invariant
            all == now.deep_view(),
            before == frozen.by_slug.deep_view(),
            i <= now@.len(),
            out.deep_view() == changes_of(before, all.take(i as int)),
        decreases now.len() - i,
    {
        let m = &now[i];
        proof {
            assert(all[i as int] == m.deep_view());
            assert(all.take(i + 1).drop_last() =~= all.take(i as int));
            assert(all.take(i + 1).last() == all[i as int]);
        }
        let old_version = find_last(&frozen.by_slug, m.slug.as_str());
        let unchanged = match &old_version {
            Some(v) => same(v.as_str(), m.version.as_str()),
            None => false,
        };
        if !unchanged {
            let ghost prior = out.deep_view();
            let change = Change {
                slug: m.slug.clone(),
                old: old_version,
                new: m.version.clone(),
            };
            let ghost added = change.deep_view();
            out.push(change);
            assert(out.deep_view() =~= prior.push(added));
        }
        i = i + 1;
    }
    assert(all.take(i as int) =~= all);
    out
}

// ---- laws -------------------------------------------------------------------------------------

/// `--all` is the same as leaving the slug out, whatever slug is given.
pub proof fn all_means_no_slug(mods: Seq<(Seq<char>, ModSpecView)>, name: Option<Seq<char>>)
    ensures
        update_target(name, true) == update_target(None, false),
        targets_a_pin(mods, name, true) == targets_a_pin(mods, None, false),
        !targets_a_pin(mods, name, true),
{
}

/// An update reports exactly the entries that moved: an entry is among the changes, with the version
/// it had before, if and only if the previous lock does not have it at that version.
pub proof fn every_change_is_reported(
    before: Seq<(Seq<char>, Seq<char>)>,
    now: Seq<LockedModView>,
    change: ChangeView,
)
    ensures
        changes_of(before, now).contains(change) <==> exists|i: int|
            0 <= i < now.len() && change == (ChangeView {
                slug: (#[trigger] now[i]).slug,
                old: last_value(before, now[i].slug),
                new: now[i].version,
            }) && last_value(before, now[i].slug) != Some(now[i].version),
    decreases now.len(),
{
    if now.len() > 0 {
        let head = changes_of(before, now.drop_last());
        let m = now.last();
        let old_version = last_value(before, m.slug);
        every_change_is_reported(before, now.drop_last(), change);
        if old_version != Some(m.version) {
            let added = ChangeView { slug: m.slug, old: old_version, new: m.version };
            if head.contains(change) {
                let k = choose|k: int| 0 <= k < head.len() && head[k] == change;
                assert(head.push(added)[k] == change);
            }
            if change == added {
                assert(head.push(added)[head.len() as int] == change);
            }
            assert(changes_of(before, now) == head.push(added));
        }
        if changes_of(before, now).contains(change) {
            if head.contains(change) {
                let i = choose|i: int|
                    0 <= i < now.drop_last().len() && change == (ChangeView {
                        slug: (#[trigger] now.drop_last()[i]).slug,
                        old: last_value(before, now.drop_last()[i].slug),
                        new: now.drop_last()[i].version,
                    }) && last_value(before, now.drop_last()[i].slug) != Some(
                        now.drop_last()[i].version,
                    );
                assert(now[i] == now.drop_last()[i]);
            } else {
                assert(now[now.len() - 1] == m);
            }
        }
        if exists|i: int|
            0 <= i < now.len() && change == (ChangeView {
                slug: (#[trigger] now[i]).slug,
                old: last_value(before, now[i].slug),
                new: now[i].version,
            }) && last_value(before, now[i].slug) != Some(now[i].version) {
            let i = choose|i: int|
                0 <= i < now.len() && change == (ChangeView {
                    slug: (#[trigger] now[i]).slug,
                    old: last_value(before, now[i].slug),
                    new: now[i].version,
                }) && last_value(before, now[i].slug) != Some(now[i].version);
            if i < now.len() - 1 {
                assert(now.drop_last()[i] == now[i]);
            }
        }
    }
}

/// An update means everything where no mod is named or all are asked for, and otherwise the one mod that
/// is named, which is refused where the manifest pins it.
pub proof fn an_update_means_what_it_names(
    manifest: &Manifest,
    args: &UpdateArgs,
    r: Result<ResolveMode, Pinned>,
)
    requires
        call_ensures(update_mode, (manifest, args), r),
    ensures
        args.all || args.name is None ==> (r matches Ok(mode) && mode@ == (ModeView::Update {
            only: None,
        })),
        !args.all && (args.name matches Some(slug)) ==> {
            let slug = args.name->0@;
            let pin = spec_of(manifest@.mods, slug) matches Some(ModSpecView::Detailed(d)) && d.pin;
            &&& pin ==> r is Err
            &&& !pin ==> (r matches Ok(mode) && mode@ == (ModeView::Update { only: Some(slug) }))
        },
{
}

/// A mod that the old lock has in another version, or not at all.
pub open spec fn has_moved(old: Seq<LockedModView>, m: LockedModView) -> bool {
    last_value(slug_versions(old), m.slug) != Some(m.version)
}

/// An update reports the mods that moved, in the order of the new lock, each with the version that it
/// came to and the one that it came from.
pub proof fn an_update_reports_the_mods_that_moved(
    old: Seq<LockedModView>,
    now: Seq<LockedModView>,
    k: int,
)
    ensures
        ({
            let moved = now.filter(|m: LockedModView| has_moved(old, m));
            let reported = changes_of(slug_versions(old), now);
            &&& reported.len() == moved.len()
            &&& 0 <= k < moved.len() ==> reported[k].slug == moved[k].slug && reported[k].new
                == moved[k].version && reported[k].old == last_value(
                slug_versions(old),
                moved[k].slug,
            )
        }),
    decreases now.len(),
{
    reveal(Seq::filter);
    if now.len() > 0 {
        an_update_reports_the_mods_that_moved(old, now.drop_last(), k);
    }
}

/// A mod that is in the old lock once has moved exactly where its version differs; one that is not in it
/// is new.
pub proof fn moving_is_a_change_of_version(old: Seq<LockedModView>, m: LockedModView, i: int)
    ensures
        0 <= i < old.len() && old[i].slug == m.slug && (forall|j: int|
            i < j < old.len() ==> (#[trigger] old[j]).slug != m.slug) ==> (has_moved(old, m)
            <==> old[i].version != m.version) && last_value(slug_versions(old), m.slug) == Some(
            old[i].version,
        ),
        (forall|j: int| 0 <= j < old.len() ==> (#[trigger] old[j]).slug != m.slug) ==> has_moved(
            old,
            m,
        ),
{
    if 0 <= i < old.len() && old[i].slug == m.slug && (forall|j: int|
        i < j < old.len() ==> (#[trigger] old[j]).slug != m.slug) {
        last_entry_counts(old, m.slug, i);
    }
    if forall|j: int| 0 <= j < old.len() ==> (#[trigger] old[j]).slug != m.slug {
        absent_mods_have_no_version(old, m.slug);
    }
}

proof fn absent_mods_have_no_version(old: Seq<LockedModView>, slug: Seq<char>)
    requires
        forall|j: int| 0 <= j < old.len() ==> (#[trigger] old[j]).slug != slug,
    ensures
        last_value(slug_versions(old), slug) is None,
    decreases old.len(),
{
    if old.len() > 0 {
        assert(slug_versions(old).drop_last() =~= slug_versions(old.drop_last()));
        assert(old[old.len() - 1].slug != slug);
        absent_mods_have_no_version(old.drop_last(), slug);
    }
}

} // verus!
