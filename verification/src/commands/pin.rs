//! Pinning a mod to its locked version.
use vstd::prelude::*;

use crate::cli::PinArgs;
use crate::lock::copy_option;
use crate::manifest::{
    constraint_of, declare, declaring_again_restores, declaring_sets_one_mod, distinct_slugs,
    optional, pinned, project_id_of, provider_of, side_of, spec_of, with_spec, Manifest,
    ManifestView, ModSpec, ModSpecDetailed, ModSpecDetailedView, ModSpecView,
};

verus! {

/// The mod is not declared in the pack.
#[derive(Debug, Clone, Copy, PartialEq, Eq, Structural)]
pub struct NotDeclared;

/// The detailed form of a declaration.
pub open spec fn detailed_of(spec: ModSpecView) -> ModSpecDetailedView {
    match spec {
        ModSpecView::Constraint(version) => ModSpecDetailedView {
            version,
            side: None,
            provider: None,
            project_id: None,
            optional: false,
            pin: false,
        },
        ModSpecView::Detailed(d) => d,
    }
}

/// Nothing but the version is given.
pub open spec fn is_plain(d: ModSpecDetailedView) -> bool {
    !d.pin && d.side is None && d.provider is None && d.project_id is None && !d.optional
}

/// The compact form where nothing but the version is given, else the detailed form.
pub open spec fn compact(d: ModSpecDetailedView) -> ModSpecView {
    if is_plain(d) {
        ModSpecView::Constraint(d.version)
    } else {
        ModSpecView::Detailed(d)
    }
}

/// The declaration with its pin set or cleared.
pub open spec fn with_pin(spec: ModSpecView, pin: bool) -> ModSpecView {
    compact(ModSpecDetailedView { pin, ..detailed_of(spec) })
}

/// The manifest with another set of declared mods.
pub open spec fn with_mods(manifest: ManifestView, mods: Seq<(Seq<char>, ModSpecView)>) -> ManifestView {
    ManifestView { mods, ..manifest }
}

/// Pin a declared mod, so that `update` won't bump it.
pub fn pin(manifest: &mut Manifest, args: &PinArgs) -> (r: Result<(), NotDeclared>)
    ensures
        pins(old(manifest)@, final(manifest)@, args.name@, true, r is Ok),
{
    set_pin(manifest, args.name.as_str(), true)
}

/// Remove the pin of a declared mod, so that `update` can bump it again.
pub fn unpin(manifest: &mut Manifest, args: &PinArgs) -> (r: Result<(), NotDeclared>)
    ensures
        pins(old(manifest)@, final(manifest)@, args.name@, false, r is Ok),
{
    set_pin(manifest, args.name.as_str(), false)
}

/// What setting or clearing a pin does: where the mod is declared, its declaration is replaced in its
/// place, and no slug is declared twice; otherwise nothing changes.
pub open spec fn pins(
    before: ManifestView,
    after: ManifestView,
    name: Seq<char>,
    pin: bool,
    done: bool,
) -> bool {
    match spec_of(before.mods, name) {
        Some(spec) => done && after == with_mods(
            before,
            with_spec(before.mods, name, with_pin(spec, pin)),
        ) && distinct_slugs(after.mods),
        None => !done && after == before,
    }
}

fn set_pin(manifest: &mut Manifest, name: &str, pin: bool) -> (r: Result<(), NotDeclared>)
    ensures
        pins(old(manifest)@, final(manifest)@, name@, pin, r is Ok),
{
    let spec = match manifest.find(name) {
        Some(s) => repinned(s, pin),
        None => {
            return Err(NotDeclared);
        },
    };
    declare(&mut manifest.mods, name.to_owned(), spec);
    Ok(())
}

fn repinned(spec: &ModSpec, pin: bool) -> (r: ModSpec)
    ensures
        r@ == with_pin(spec@, pin),
{
    let detailed = match spec {
        ModSpec::Constraint(version) => ModSpecDetailed {
            version: version.clone(),
            side: None,
            provider: None,
            project_id: None,
            optional: false,
            pin,
        },
        ModSpec::Detailed(d) => ModSpecDetailed {
            version: d.version.clone(),
            side: d.side,
            provider: d.provider,
            project_id: copy_option(&d.project_id),
            optional: d.optional,
            pin,
        },
    };
    // Collapse back to the compact string form when nothing but the version remains.
    let plain = !detailed.pin && detailed.side.is_none() && detailed.provider.is_none()
        && detailed.project_id.is_none() && !detailed.optional;
    if plain {
        ModSpec::Constraint(detailed.version)
    } else {
        ModSpec::Detailed(detailed)
    }
}

// ---- laws -------------------------------------------------------------------------------------

/// Setting or clearing a pin does just that, and leaves the rest of the declaration as it is.
pub proof fn pinning_changes_the_pin_alone(spec: ModSpecView, pin: bool)
    ensures
        pinned(with_pin(spec, pin)) == pin,
        constraint_of(with_pin(spec, pin)) == constraint_of(spec),
        side_of(with_pin(spec, pin)) == side_of(spec),
        provider_of(with_pin(spec, pin)) == provider_of(spec),
        project_id_of(with_pin(spec, pin)) == project_id_of(spec),
        optional(with_pin(spec, pin)) == optional(spec),
{
}

/// Unpinning undoes pinning: an unpinned declaration in its compact form is back as it was.
pub proof fn unpinning_undoes_pinning(spec: ModSpecView)
    requires
        !pinned(spec),
        spec == compact(detailed_of(spec)),
    ensures
        with_pin(with_pin(spec, true), false) == spec,
{
}

/// Unpinning a mod that was just pinned gives the whole manifest back: every entry, their order, and
/// everything beside the mods. A bare constraint is a bare constraint again.
pub proof fn unpinning_restores_the_manifest(
    before: ManifestView,
    between: ManifestView,
    after: ManifestView,
    name: Seq<char>,
    pin_done: bool,
    unpin_done: bool,
)
    requires
        spec_of(before.mods, name) matches Some(spec) && !pinned(spec) && spec == compact(
            detailed_of(spec),
        ),
        pins(before, between, name, true, pin_done),
        pins(between, after, name, false, unpin_done),
    ensures
        pin_done && unpin_done,
        after == before,
{
    let spec = spec_of(before.mods, name)->0;
    declaring_sets_one_mod(before.mods, name, with_pin(spec, true), name);
    unpinning_undoes_pinning(spec);
    declaring_again_restores(before.mods, name, with_pin(spec, true), spec);
}

} // verus!
