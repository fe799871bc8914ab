//! Scaffolding a new pack.
//!
//! The choice of loader and versions is a linear wizard, as a state machine: it says what to ask or
//! fetch next, the caller does so and hands back the answer.
use vstd::prelude::*;

use crate::cli::InitArgs;
use crate::loader::{loader_word, Loader};
use crate::manifest::{
    no_mods, Defaults, LoaderSpec, LoaderSpecView, Manifest, ManifestView, ModSpecView, Overlay,
    OverlayView, PackMeta, PackMetaView,
};
use crate::order::keep;
use crate::side::Side;
use crate::text::{
    join, joined, lower, same, split, split_at_separator, split_nonempty, split_on,
    split_without_separator, starts_with, trim, trimmed,
};
use crate::versions::{LoaderVersion, LoaderVersionView};

verus! {

/// The name of a loader for people.
pub open spec fn loader_label(loader: Loader) -> Seq<char> {
    match loader {
        Loader::Fabric => "Fabric"@,
        Loader::Neoforge => "NeoForge"@,
        Loader::Forge => "Forge"@,
        Loader::Quilt => "Quilt"@,
    }
}

/// The name of a loader for people.
pub fn label_of(loader: Loader) -> (r: &'static str)
    ensures
        r@ == loader_label(loader),
{
    match loader {
        Loader::Fabric => "Fabric",
        Loader::Neoforge => "NeoForge",
        Loader::Forge => "Forge",
        Loader::Quilt => "Quilt",
    }
}

// ---- the wizard -------------------------------------------------------------------------------

/// Why no versions can be selected.
#[derive(Debug)]
pub enum InitError {
    /// `--yes` was passed without a loader.
    LoaderRequired,
    /// There is no terminal to ask for the loader on.
    NeedsTerminal,
    /// The loader supports no Minecraft version.
    NoMinecraft(Loader),
    /// No Minecraft version could be fetched.
    NothingFetched,
    /// The loader has no build for the Minecraft version.
    DeadEnd(Loader, String),
}

/// Where the wizard stands: what it waits for.
#[derive(Debug)]
pub enum InitStage {
    Begin,
    WantLoader,
    WantMinecraftList(Loader),
    WantMinecraft(Loader),
    WantVersionList(Loader, String),
    WantVersion(Loader, String),
    Over,
}

/// What came of the last action.
#[derive(Debug)]
pub enum InitEvent {
    Started,
    LoaderPicked(Loader),
    MinecraftListed(Vec<String>),
    MinecraftPicked(String),
    VersionsListed(Vec<LoaderVersion>),
    VersionPicked(String),
}

/// What to do next.
#[derive(Debug)]
pub enum InitAction {
    /// Ask for the loader.
    AskLoader,
    /// Fetch the Minecraft versions that the loader supports, newest first.
    ListMinecraft(Loader),
    /// Ask for one of these Minecraft versions.
    AskMinecraft(Vec<String>),
    /// Fetch the loader's versions for the Minecraft version, best first.
    ListVersions(Loader, String),
    /// Ask for one of these loader versions.
    AskVersion(Vec<LoaderVersion>),
    /// The loader, the Minecraft version and the loader version are chosen.
    Done(Loader, String, String),
    Fail(InitError),
}

#[verifier::ext_equal]
pub enum InitFault {
    LoaderRequired,
    NeedsTerminal,
    NoMinecraft(Loader),
    NothingFetched,
    DeadEnd(Loader, Seq<char>),
}

#[verifier::ext_equal]
pub enum InitStageView {
    Begin,
    WantLoader,
    WantMinecraftList(Loader),
    WantMinecraft(Loader),
    WantVersionList(Loader, Seq<char>),
    WantVersion(Loader, Seq<char>),
    Over,
}

#[verifier::ext_equal]
pub enum InitEventView {
    Started,
    LoaderPicked(Loader),
    MinecraftListed(Seq<Seq<char>>),
    MinecraftPicked(Seq<char>),
    VersionsListed(Seq<LoaderVersionView>),
    VersionPicked(Seq<char>),
}

#[verifier::ext_equal]
pub enum InitActionView {
    AskLoader,
    ListMinecraft(Loader),
    AskMinecraft(Seq<Seq<char>>),
    ListVersions(Loader, Seq<char>),
    AskVersion(Seq<LoaderVersionView>),
    Done(Loader, Seq<char>, Seq<char>),
    Fail(InitFault),
}

#[verifier::ext_equal]
pub struct InitStepView {
    pub stage: InitStageView,
    pub action: InitActionView,
}

/// What the command line fixes.
#[verifier::ext_equal]
pub struct InitFlags {
    pub loader: Option<Loader>,
    pub minecraft: Option<Seq<char>>,
    pub loader_version: Option<Seq<char>>,
    pub yes: bool,
    pub interactive: bool,
}

impl View for InitError {
    type V = InitFault;

    open spec fn view(&self) -> InitFault {
        match self {
            InitError::LoaderRequired => InitFault::LoaderRequired,
            InitError::NeedsTerminal => InitFault::NeedsTerminal,
            InitError::NoMinecraft(l) => InitFault::NoMinecraft(*l),
            InitError::NothingFetched => InitFault::NothingFetched,
            InitError::DeadEnd(l, mc) => InitFault::DeadEnd(*l, mc@),
        }
    }
}

impl View for InitStage {
    type V = InitStageView;

    open spec fn view(&self) -> InitStageView {
        match self {
            InitStage::Begin => InitStageView::Begin,
            InitStage::WantLoader => InitStageView::WantLoader,
            InitStage::WantMinecraftList(l) => InitStageView::WantMinecraftList(*l),
            InitStage::WantMinecraft(l) => InitStageView::WantMinecraft(*l),
            InitStage::WantVersionList(l, mc) => InitStageView::WantVersionList(*l, mc@),
            InitStage::WantVersion(l, mc) => InitStageView::WantVersion(*l, mc@),
            InitStage::Over => InitStageView::Over,
        }
    }
}

impl View for InitEvent {
    type V = InitEventView;

    open spec fn view(&self) -> InitEventView {
        match self {
            InitEvent::Started => InitEventView::Started,
            InitEvent::LoaderPicked(l) => InitEventView::LoaderPicked(*l),
            InitEvent::MinecraftListed(list) => InitEventView::MinecraftListed(list.deep_view()),
            InitEvent::MinecraftPicked(mc) => InitEventView::MinecraftPicked(mc@),
            InitEvent::VersionsListed(list) => InitEventView::VersionsListed(list.deep_view()),
            InitEvent::VersionPicked(v) => InitEventView::VersionPicked(v@),
        }
    }
}

impl View for InitAction {
    type V = InitActionView;

    open spec fn view(&self) -> InitActionView {
        match self {
            InitAction::AskLoader => InitActionView::AskLoader,
            InitAction::ListMinecraft(l) => InitActionView::ListMinecraft(*l),
            InitAction::AskMinecraft(list) => InitActionView::AskMinecraft(list.deep_view()),
            InitAction::ListVersions(l, mc) => InitActionView::ListVersions(*l, mc@),
            InitAction::AskVersion(list) => InitActionView::AskVersion(list.deep_view()),
            InitAction::Done(l, mc, v) => InitActionView::Done(*l, mc@, v@),
            InitAction::Fail(e) => InitActionView::Fail(e@),
        }
    }
}

/// What the command line fixes.
pub open spec fn flags_of(args: InitArgs, interactive: bool) -> InitFlags {
    InitFlags {
        loader: args.loader,
        minecraft: args.minecraft.deep_view(),
        loader_version: args.loader_version.deep_view(),
        yes: args.yes,
        interactive,
    }
}

/// A build that is marked stable.
pub open spec fn is_stable_build(v: LoaderVersionView) -> bool {
    v.note == Some("stable"@)
}

/// The first stable version, from position `i` on.
pub open spec fn stable_build_from(list: Seq<LoaderVersionView>, i: int) -> Option<Seq<char>>
    decreases list.len() - i,
{
    if !(0 <= i < list.len()) {
        None
    } else if is_stable_build(list[i]) {
        Some(list[i].version)
    } else {
        stable_build_from(list, i + 1)
    }
}

/// The newest stable version if any are marked stable, else the newest.
pub open spec fn best_build(list: Seq<LoaderVersionView>) -> Option<Seq<char>> {
    match stable_build_from(list, 0) {
        Some(v) => Some(v),
        None => if list.len() > 0 {
            Some(list[0].version)
        } else {
            None
        },
    }
}

/// The versions to pick from: the stable ones where there are any, else all.
pub open spec fn shown_builds(list: Seq<LoaderVersionView>) -> Seq<LoaderVersionView> {
    let stable = list.filter(|v: LoaderVersionView| is_stable_build(v));
    if stable.len() == 0 {
        list
    } else {
        stable
    }
}

/// The step once the loader is known.
pub open spec fn with_loader(flags: InitFlags, loader: Loader) -> InitStepView {
    match flags.minecraft {
        Some(mc) => with_minecraft(flags, loader, mc),
        None => InitStepView {
            stage: InitStageView::WantMinecraftList(loader),
            action: InitActionView::ListMinecraft(loader),
        },
    }
}

/// The step once the Minecraft version is known.
pub open spec fn with_minecraft(flags: InitFlags, loader: Loader, mc: Seq<char>) -> InitStepView {
    match flags.loader_version {
        Some(v) => chosen(loader, mc, v),
        None => InitStepView {
            stage: InitStageView::WantVersionList(loader, mc),
            action: InitActionView::ListVersions(loader, mc),
        },
    }
}

pub open spec fn chosen(loader: Loader, mc: Seq<char>, version: Seq<char>) -> InitStepView {
    InitStepView {
        stage: InitStageView::Over,
        action: InitActionView::Done(loader, mc, version),
    }
}

pub open spec fn stuck(fault: InitFault) -> InitStepView {
    InitStepView { stage: InitStageView::Over, action: InitActionView::Fail(fault) }
}

/// An event is what the stage waits for.
pub open spec fn awaited(stage: InitStageView, event: InitEventView) -> bool {
    match stage {
        InitStageView::Begin => event is Started,
        InitStageView::WantLoader => event is LoaderPicked,
        InitStageView::WantMinecraftList(_) => event is MinecraftListed,
        InitStageView::WantMinecraft(_) => event is MinecraftPicked,
        InitStageView::WantVersionList(_, _) => event is VersionsListed,
        InitStageView::WantVersion(_, _) => event is VersionPicked,
        InitStageView::Over => false,
    }
}

/// Each step of the wizard.
pub open spec fn init_step(flags: InitFlags, stage: InitStageView, event: InitEventView) -> InitStepView {
    match (stage, event) {
        (InitStageView::Begin, InitEventView::Started) => match flags.loader {
            Some(loader) => with_loader(flags, loader),
            None => if flags.interactive {
                InitStepView {
                    stage: InitStageView::WantLoader,
                    action: InitActionView::AskLoader,
                }
            } else if flags.yes {
                stuck(InitFault::LoaderRequired)
            } else {
                stuck(InitFault::NeedsTerminal)
            },
        },
        (InitStageView::WantLoader, InitEventView::LoaderPicked(loader)) => with_loader(
            flags,
            loader,
        ),
        (InitStageView::WantMinecraftList(loader), InitEventView::MinecraftListed(list)) => {
            if flags.interactive {
                if list.len() == 0 {
                    stuck(InitFault::NoMinecraft(loader))
                } else {
                    InitStepView {
                        stage: InitStageView::WantMinecraft(loader),
                        action: InitActionView::AskMinecraft(list),
                    }
                }
            } else if list.len() == 0 {
                stuck(InitFault::NothingFetched)
            } else {
                with_minecraft(flags, loader, list[0])
            }
        },
        (InitStageView::WantMinecraft(loader), InitEventView::MinecraftPicked(mc)) => with_minecraft(
            flags,
            loader,
            mc,
        ),
        (InitStageView::WantVersionList(loader, mc), InitEventView::VersionsListed(list)) => {
            if list.len() == 0 {
                stuck(InitFault::DeadEnd(loader, mc))
            } else if flags.interactive {
                InitStepView {
                    stage: InitStageView::WantVersion(loader, mc),
                    action: InitActionView::AskVersion(shown_builds(list)),
                }
            } else {
                chosen(loader, mc, best_build(list)->0)
            }
        },
        (InitStageView::WantVersion(loader, mc), InitEventView::VersionPicked(v)) => chosen(
            loader,
            mc,
            v,
        ),
        _ => stuck(InitFault::NothingFetched),
    }
}

fn on_loader(args: &InitArgs, interactive: bool, loader: Loader) -> (r: (InitStage, InitAction))
    ensures
        with_loader(flags_of(*args, interactive), loader) == (InitStepView {
            stage: r.0@,
            action: r.1@,
        }),
{
    match &args.minecraft {
        Some(mc) => on_minecraft(args, interactive, loader, mc.clone()),
        None => (InitStage::WantMinecraftList(loader), InitAction::ListMinecraft(loader)),
    }
}

fn on_minecraft(args: &InitArgs, interactive: bool, loader: Loader, mc: String) -> (r: (
    InitStage,
    InitAction,
))
    ensures
        with_minecraft(flags_of(*args, interactive), loader, mc@) == (InitStepView {
            stage: r.0@,
            action: r.1@,
        }),
{
    match &args.loader_version {
        Some(v) => (InitStage::Over, InitAction::Done(loader, mc, v.clone())),
        None => (
            InitStage::WantVersionList(loader, mc.clone()),
            InitAction::ListVersions(loader, mc),
        ),
    }
}

fn is_noted_stable(v: &LoaderVersion) -> (r: bool)
    ensures
        r == is_stable_build(v.deep_view()),
{
    match &v.note {
        Some(note) => same(note.as_str(), "stable"),
        None => false,
    }
}

/// The build that is picked without asking: the newest stable one if any are marked stable, else the
/// newest.
pub fn first_loader_version(list: &Vec<LoaderVersion>) -> (r: Option<String>)
    ensures
        r.deep_view() == best_build(list.deep_view()),
{
    let ghost all = list.deep_view();
    let mut i: usize = 0;
    while i < list.len()
        invariant
            all == list.deep_view(),
            i <= list@.len(),
            stable_build_from(all, 0) == stable_build_from(all, i as int),
        decreases list.len() - i,
    {
        assert(all[i as int] == list@[i as int].deep_view());
        if is_noted_stable(&list[i]) {
            return Some(list[i].version.clone());
        }
        i = i + 1;
    }
    if list.len() > 0 {
        assert(all[0] == list@[0].deep_view());
        Some(list[0].version.clone())
    } else {
        None
    }
}

/// The builds to pick from. Fabric/Quilt publish hundreds of builds; when any are marked stable just
/// those are offered (newest first) to keep the list navigable; power users can still pin any build
/// with `--loader-version`.
pub fn pick_loader_version(list: Vec<LoaderVersion>) -> (r: Vec<LoaderVersion>)
    ensures
        r.deep_view() == shown_builds(list.deep_view()),
{
    broadcast use vstd::seq_lib::group_filter_ensures;

    let ghost all = list.deep_view();
    let ghost wanted = |v: LoaderVersionView| is_stable_build(v);
    let mut flags: Vec<bool> = Vec::new();
    let mut any = false;
    let mut i: usize = 0;
    while i < list.len()
        invariant
            all == list.deep_view(),
            i <= list@.len(),
            flags@.len() == i,
            forall|k: int| 0 <= k < i ==> #[trigger] flags@[k] == is_stable_build(all[k]),
            any == exists|k: int| 0 <= k < i && #[trigger] flags@[k],
        decreases list.len() - i,
    {
        assert(all[i as int] == list@[i as int].deep_view());
        let stable = is_noted_stable(&list[i]);
        let ghost prior = flags@;
        flags.push(stable);
        proof {
            assert(forall|k: int| 0 <= k < i ==> flags@[k] == prior[k]);
            if stable {
                assert(flags@[i as int]);
            }
            if any {
                let k = choose|k: int| 0 <= k < i && #[trigger] prior[k];
                assert(flags@[k]);
            }
        }
        any = any || stable;
        i = i + 1;
    }
    let ghost stable = all.filter(wanted);
    if any {
        proof {
            let k = choose|k: int| 0 <= k < flags@.len() && #[trigger] flags@[k];
            assert(all.contains(all[k]));
            assert(wanted(all[k]));
            all.lemma_filter_contains(wanted, k);
            assert(stable.contains(all[k]));
        }
        keep(list, &flags, Ghost(wanted))
    } else {
        proof {
            if stable.len() > 0 {
                assert(stable.contains(stable[0]));
                all.lemma_filter_contains_rev(wanted, stable[0]);
                let k = choose|k: int| 0 <= k < all.len() && all[k] == stable[0];
                assert(wanted(stable[0]));
                assert(flags@[k]);
            }
        }
        list
    }
}

/// One step of selecting the loader, the Minecraft version and the loader version. A flag pins its
/// step and skips the prompt; unset steps are asked for interactively in a linear wizard, no
/// back-step, matching `npm init` / `create-vite`. The Minecraft list is filtered to versions the
/// chosen loader actually ships, so a pick can't dead-end. Without a terminal (or with `--yes`)
/// everything unset falls back to the newest build, and a missing loader is a hard error that names
/// the *real* cause: `--yes` is blamed only when it was actually passed.
pub fn select_versions(
    args: &InitArgs,
    interactive: bool,
    stage: InitStage,
    event: InitEvent,
) -> (r: (InitStage, InitAction))
    requires
        awaited(stage@, event@),
    ensures
        init_step(flags_of(*args, interactive), stage@, event@) == (InitStepView {
            stage: r.0@,
            action: r.1@,
        }),
{
    match (stage, event) {
        (InitStage::Begin, InitEvent::Started) => match args.loader {
            Some(loader) => on_loader(args, interactive, loader),
            None => if interactive {
                (InitStage::WantLoader, InitAction::AskLoader)
            } else if args.yes {
                (InitStage::Over, InitAction::Fail(InitError::LoaderRequired))
            } else {
                (InitStage::Over, InitAction::Fail(InitError::NeedsTerminal))
            },
        },
        (InitStage::WantLoader, InitEvent::LoaderPicked(loader)) => on_loader(
            args,
            interactive,
            loader,
        ),
        (InitStage::WantMinecraftList(loader), InitEvent::MinecraftListed(list)) => {
            if interactive {
                if list.len() == 0 {
                    (InitStage::Over, InitAction::Fail(InitError::NoMinecraft(loader)))
                } else {
                    (InitStage::WantMinecraft(loader), InitAction::AskMinecraft(list))
                }
            } else if list.len() == 0 {
                (InitStage::Over, InitAction::Fail(InitError::NothingFetched))
            } else {
                assert(list.deep_view()[0] == list@[0]@);
                on_minecraft(args, interactive, loader, list[0].clone())
            }
        },
        (InitStage::WantMinecraft(loader), InitEvent::MinecraftPicked(mc)) => on_minecraft(
            args,
            interactive,
            loader,
            mc,
        ),
        (InitStage::WantVersionList(loader, mc), InitEvent::VersionsListed(list)) => {
            if interactive {
                if list.len() == 0 {
                    (InitStage::Over, InitAction::Fail(InitError::DeadEnd(loader, mc)))
                } else {
                    (
                        InitStage::WantVersion(loader, mc),
                        InitAction::AskVersion(pick_loader_version(list)),
                    )
                }
            } else {
                match first_loader_version(&list) {
                    Some(v) => (InitStage::Over, InitAction::Done(loader, mc, v)),
                    None => (InitStage::Over, InitAction::Fail(InitError::DeadEnd(loader, mc))),
                }
            }
        },
        (InitStage::WantVersion(loader, mc), InitEvent::VersionPicked(v)) => (
            InitStage::Over,
            InitAction::Done(loader, mc, v),
        ),
        _ => (InitStage::Over, InitAction::Fail(InitError::NothingFetched)),
    }
}

// ---- nearby versions --------------------------------------------------------------------------

/// The `major.minor.` prefix of a version with a patch component.
pub open spec fn series_of(mc: Seq<char>) -> Option<Seq<char>> {
    let parts = split(mc, '.');
    if parts.len() >= 3 {
        Some(parts[0] + "."@ + parts[1] + "."@)
    } else {
        None
    }
}

/// The `major.minor.` prefix of a `1.X.Y` version (`1.20.5` -> `1.20.`), for finding versions on the
/// same line. `None` when there's no patch component to anchor "nearby" on.
pub fn same_series(mc: &str) -> (r: Option<String>)
    ensures
        r.deep_view() == series_of(mc@),
{
    let parts = split_on(mc, '.');
    let ghost all = parts.deep_view();
    if parts.len() < 3 {
        return None;
    }
    assert(all[0] == parts@[0]@ && all[1] == parts@[1]@);
    let mut out = parts[0].clone();
    out.append(".");
    out.append(parts[1].as_str());
    out.append(".");
    Some(out)
}

/// The first `n` of the versions that have the prefix.
pub open spec fn first_with(versions: Seq<Seq<char>>, prefix: Seq<char>, n: nat) -> Seq<Seq<char>>
    decreases versions.len(),
{
    if versions.len() == 0 || n == 0 {
        Seq::empty()
    } else if prefix.is_prefix_of(versions[0]) {
        seq![versions[0]] + first_with(versions.drop_first(), prefix, (n - 1) as nat)
    } else {
        first_with(versions.drop_first(), prefix, n)
    }
}

/// The versions to hint at: up to five of the same series, or else the first five.
pub open spec fn hinted(versions: Seq<Seq<char>>, mc: Seq<char>) -> Seq<Seq<char>> {
    let near = match series_of(mc) {
        Some(prefix) => first_with(versions, prefix, 5),
        None => Seq::empty(),
    };
    if near.len() == 0 {
        versions.take(
            if versions.len() < 5 {
                versions.len() as int
            } else {
                5
            },
        )
    } else {
        near
    }
}

fn take_with(versions: &Vec<String>, prefix: &str) -> (r: Vec<String>)
    ensures
        r.deep_view() == first_with(versions.deep_view(), prefix@, 5),
{
    let ghost all = versions.deep_view();
    let mut out: Vec<String> = Vec::new();
    let mut i: usize = 0;
    proof {
        assert(all.skip(0) =~= all);
        assert(out.deep_view() + first_with(all, prefix@, 5) =~= first_with(all, prefix@, 5));
    }
    while i < versions.len() && out.len() < 5
        invariant
            all == versions.deep_view(),
            i <= versions@.len(),
            out@.len() <= 5,
            out.deep_view() + first_with(all.skip(i as int), prefix@, (5 - out@.len()) as nat)
                == first_with(all, prefix@, 5),
        decreases versions.len() - i,
    {
        let ghost rest = all.skip(i as int);
        let ghost room = (5 - out@.len()) as nat;
        proof {
            assert(all[i as int] == versions@[i as int]@);
            assert(rest[0] == all[i as int]);
            assert(rest.drop_first() =~= all.skip(i + 1));
        }
        if starts_with(versions[i].as_str(), prefix) {
            let ghost prior = out.deep_view();
            out.push(versions[i].clone());
            proof {
                let tail = first_with(all.skip(i + 1), prefix@, (room - 1) as nat);
                assert(out.deep_view() =~= prior.push(all[i as int]));
                assert(out.deep_view() + tail =~= prior + (seq![all[i as int]] + tail));
            }
        }
        i = i + 1;
    }
    proof {
        let tail = first_with(all.skip(i as int), prefix@, (5 - out@.len()) as nat);
        assert(tail =~= Seq::empty());
        assert(out.deep_view() + tail =~= out.deep_view());
    }
    out
}

/// A short list of versions the loader *does* support, preferring the same `1.X` line as the failed
/// request (genuinely "nearby"), falling back to the newest handful when nothing shares it, for the
/// dead-end error's hint. Nothing where it supports none.
pub fn nearby_supported(versions: &Vec<String>, minecraft: &str) -> (r: Option<String>)
    ensures
        r.deep_view() == (if versions@.len() == 0 {
            None
        } else {
            Some(joined(hinted(versions.deep_view(), minecraft@), ", "@))
        }),
{
    if versions.len() == 0 {
        return None;
    }
    let ghost all = versions.deep_view();
    let mut near: Vec<String> = Vec::new();
    assert(near.deep_view() =~= Seq::<Seq<char>>::empty());
    match same_series(minecraft) {
        Some(prefix) => {
            near = take_with(versions, prefix.as_str());
        },
        None => {},
    }
    if near.len() == 0 {
        let mut i: usize = 0;
        assert(near.deep_view() =~= all.take(0));
        while i < versions.len() && i < 5
            invariant
                all == versions.deep_view(),
                i <= versions@.len(),
                i <= 5,
                near.deep_view() == all.take(i as int),
            decreases versions.len() - i,
        {
            assert(all[i as int] == versions@[i as int]@);
            let ghost prior = near.deep_view();
            near.push(versions[i].clone());
            i = i + 1;
            assert(near.deep_view() =~= prior.push(all[i - 1]));
            assert(near.deep_view() =~= all.take(i as int));
        }
    }
    Some(join(&near, ", "))
}

/// The "this loader has no build for this Minecraft version" message: it names nearby versions the
/// loader *does* support and points at the `--loader-version` escape hatch, rather than a bare "not
/// found".
pub fn dead_end(loader: Loader, minecraft: &str, nearby: &Option<String>) -> (r: String)
    ensures
        r@ == loader_label(loader) + " has no build for Minecraft "@ + minecraft@ + "."@ + (
        match nearby {
            Some(list) => " Supported nearby: "@ + list@ + "."@,
            None => Seq::empty(),
        }) + " Pass --loader-version <ver> if you know one."@,
{
    let mut out = label_of(loader).to_owned();
    out.append(" has no build for Minecraft ");
    out.append(minecraft);
    out.append(".");
    let mut hint = String::new();
    match nearby {
        Some(list) => {
            hint.append(" Supported nearby: ");
            hint.append(list.as_str());
            hint.append(".");
            assert(hint@ =~= " Supported nearby: "@ + list@ + "."@);
        },
        None => {
            assert(hint@ =~= Seq::<char>::empty());
        },
    }
    out.append(hint.as_str());
    out.append(" Pass --loader-version <ver> if you know one.");
    out
}

// ---- the manifest -----------------------------------------------------------------------------

/// The name of the pack: the given one, or else the one that was typed, or else the directory's.
pub fn pack_name(args: &InitArgs, typed: Option<String>, directory: Option<String>) -> (r: String)
    ensures
        r@ == (match (args.name.deep_view(), typed.deep_view(), directory.deep_view()) {
            (Some(n), _, _) => n,
            (None, Some(n), _) => n,
            (None, None, Some(n)) => n,
            (None, None, None) => "pack"@,
        }),
{
    match &args.name {
        Some(n) => n.clone(),
        None => match typed {
            Some(n) => n,
            None => match directory {
                Some(n) => n,
                None => "pack".to_owned(),
            },
        },
    }
}

/// The name that git is configured with, from what `git config user.name` printed: nothing where it
/// printed white space alone.
pub fn git_author(printed: &str) -> (r: Option<String>)
    ensures
        r.deep_view() == (if trimmed(printed@).len() == 0 {
            None
        } else {
            Some(trimmed(printed@))
        }),
{
    let name = trim(printed);
    if name.as_str().is_empty() {
        None
    } else {
        Some(name)
    }
}

/// The author of the pack: the given one, or else the one that was typed, or else git's.
pub fn pack_author(args: &InitArgs, typed: Option<String>, git: Option<String>) -> (r: String)
    ensures
        r@ == (match (args.author.deep_view(), typed.deep_view(), git.deep_view()) {
            (Some(n), _, _) => n,
            (None, Some(n), _) => n,
            (None, None, Some(n)) => n,
            (None, None, None) => Seq::empty(),
        }),
{
    match &args.author {
        Some(n) => n.clone(),
        None => match typed {
            Some(n) => n,
            None => match git {
                Some(n) => n,
                None => String::new(),
            },
        },
    }
}

/// The manifest of a new pack: without mods and overlays, for both sides.
pub fn new_manifest(
    name: String,
    author: String,
    version: String,
    loader: Loader,
    minecraft: String,
    loader_version: String,
) -> (r: Manifest)
    ensures
        r@ == (ManifestView {
            pack: PackMetaView {
                name: name@,
                author: author@,
                version: version@,
                description: None,
            },
            loader: LoaderSpecView {
                name: loader,
                minecraft: minecraft@,
                version: loader_version@,
            },
            default_side: Side::Both,
            overlays: Seq::<OverlayView>::empty(),
            mods: Seq::<(Seq<char>, ModSpecView)>::empty(),
        }),
{
    let overlays: Vec<Overlay> = Vec::new();
    assert(overlays.deep_view() =~= Seq::<OverlayView>::empty());
    Manifest {
        pack: PackMeta { name, author, version, description: None },
        loader: LoaderSpec { name: loader, minecraft, version: loader_version },
        defaults: Defaults { side: Side::Both },
        overlays,
        mods: no_mods(),
    }
}

// ---- laws -------------------------------------------------------------------------------------

/// What the wizard has fixed so far agrees with the flags.
pub open spec fn honours_flags(flags: InitFlags, stage: InitStageView) -> bool {
    match stage {
        InitStageView::Begin => true,
        InitStageView::WantLoader => flags.loader is None,
        InitStageView::WantMinecraftList(l) => flags.minecraft is None && (
        flags.loader matches Some(f) ==> f == l),
        InitStageView::WantMinecraft(l) => flags.minecraft is None && (flags.loader matches Some(f)
            ==> f == l),
        InitStageView::WantVersionList(l, mc) => flags.loader_version is None && (
        flags.loader matches Some(f) ==> f == l) && (flags.minecraft matches Some(m) ==> m == mc),
        InitStageView::WantVersion(l, mc) => flags.loader_version is None && (
        flags.loader matches Some(f) ==> f == l) && (flags.minecraft matches Some(m) ==> m == mc),
        InitStageView::Over => true,
    }
}

/// Every flag that is given is honoured, at every step and in the final choice.
pub proof fn wizard_honours_flags(flags: InitFlags, stage: InitStageView, event: InitEventView)
    requires
        awaited(stage, event),
        honours_flags(flags, stage),
    ensures
        honours_flags(flags, init_step(flags, stage, event).stage),
        init_step(flags, stage, event).action matches InitActionView::Done(l, mc, v) ==> {
            &&& flags.loader matches Some(f) ==> f == l
            &&& flags.minecraft matches Some(m) ==> m == mc
            &&& flags.loader_version matches Some(w) ==> w == v
        },
{
}

/// Without a terminal nothing is asked.
pub proof fn wizard_asks_only_interactively(
    flags: InitFlags,
    stage: InitStageView,
    event: InitEventView,
)
    requires
        !flags.interactive,
    ensures
        !(init_step(flags, stage, event).action is AskLoader),
        !(init_step(flags, stage, event).action is AskMinecraft),
        !(init_step(flags, stage, event).action is AskVersion),
{
}

/// What is picked is taken: the loader, the Minecraft version and the loader version that a user picks are
/// the ones that the wizard goes on with, and flags that are given are not asked for.
pub proof fn what_is_picked_is_taken(
    flags: InitFlags,
    loader: Loader,
    mc: Seq<char>,
    version: Seq<char>,
)
    ensures
        init_step(
            flags,
            InitStageView::WantVersion(loader, mc),
            InitEventView::VersionPicked(version),
        ).action == InitActionView::Done(loader, mc, version),
        ({
            let step = init_step(
                flags,
                InitStageView::WantMinecraft(loader),
                InitEventView::MinecraftPicked(mc),
            );
            &&& flags.loader_version matches Some(v) ==> step.action == InitActionView::Done(
                loader,
                mc,
                v,
            )
            &&& flags.loader_version is None ==> step.action == InitActionView::ListVersions(
                loader,
                mc,
            ) && step.stage == InitStageView::WantVersionList(loader, mc)
        }),
        ({
            let step = init_step(
                flags,
                InitStageView::WantLoader,
                InitEventView::LoaderPicked(loader),
            );
            &&& flags.minecraft is None ==> step.action == InitActionView::ListMinecraft(loader)
                && step.stage == InitStageView::WantMinecraftList(loader)
            &&& flags.minecraft is Some && flags.loader_version is None ==> step.action
                == InitActionView::ListVersions(loader, flags.minecraft->0)
            &&& flags.minecraft is Some && flags.loader_version is Some ==> step.action
                == InitActionView::Done(loader, flags.minecraft->0, flags.loader_version->0)
        }),
        flags.loader == Some(loader) ==> init_step(
            flags,
            InitStageView::Begin,
            InitEventView::Started,
        ) == init_step(flags, InitStageView::WantLoader, InitEventView::LoaderPicked(loader)),
{
}

/// Without a terminal the newest Minecraft version is taken, and of its builds the first stable one, or
/// the first of all where none is stable; nothing listed is an error. With a terminal the lists are shown.
pub proof fn lists_are_shown_or_their_best_is_taken(
    flags: InitFlags,
    loader: Loader,
    releases: Seq<Seq<char>>,
    mc: Seq<char>,
    builds: Seq<LoaderVersionView>,
    i: int,
)
    ensures
        ({
            let step = init_step(
                flags,
                InitStageView::WantMinecraftList(loader),
                InitEventView::MinecraftListed(releases),
            );
            &&& releases.len() == 0 ==> step.action is Fail
            &&& releases.len() > 0 && flags.interactive ==> step.action
                == InitActionView::AskMinecraft(releases) && step.stage
                == InitStageView::WantMinecraft(loader)
            &&& releases.len() > 0 && !flags.interactive ==> step == init_step(
                flags,
                InitStageView::WantMinecraft(loader),
                InitEventView::MinecraftPicked(releases[0]),
            )
        }),
        ({
            let step = init_step(
                flags,
                InitStageView::WantVersionList(loader, mc),
                InitEventView::VersionsListed(builds),
            );
            let stable = builds.filter(|v: LoaderVersionView| v.note == Some("stable"@));
            &&& builds.len() == 0 ==> step.action == InitActionView::Fail(
                InitFault::DeadEnd(loader, mc),
            )
            &&& builds.len() > 0 && flags.interactive ==> step.stage == InitStageView::WantVersion(
                loader,
                mc,
            ) && step.action == InitActionView::AskVersion(
                if stable.len() > 0 {
                    stable
                } else {
                    builds
                },
            )
            &&& !flags.interactive && 0 <= i < builds.len() && builds[i].note == Some("stable"@) && (
            forall|j: int| 0 <= j < i ==> (#[trigger] builds[j]).note != Some("stable"@))
                ==> step.action == InitActionView::Done(loader, mc, builds[i].version)
            &&& !flags.interactive && builds.len() > 0 && (forall|j: int|
                0 <= j < builds.len() ==> (#[trigger] builds[j]).note != Some("stable"@))
                ==> step.action == InitActionView::Done(loader, mc, builds[0].version)
        }),
{
    same_stable(builds);
    if 0 <= i < builds.len() && builds[i].note == Some("stable"@) && (forall|j: int|
        0 <= j < i ==> (#[trigger] builds[j]).note != Some("stable"@)) {
        builds_are_passed(builds, 0, i);
    }
    if forall|j: int| 0 <= j < builds.len() ==> (#[trigger] builds[j]).note != Some("stable"@) {
        builds_are_passed(builds, 0, builds.len() as int);
    }
}

proof fn same_stable(builds: Seq<LoaderVersionView>)
    ensures
        builds.filter(|v: LoaderVersionView| is_stable_build(v)) == builds.filter(
            |v: LoaderVersionView| v.note == Some("stable"@),
        ),
    decreases builds.len(),
{
    reveal(Seq::filter);
    if builds.len() > 0 {
        same_stable(builds.drop_last());
    }
}

proof fn builds_are_passed(builds: Seq<LoaderVersionView>, from: int, i: int)
    requires
        0 <= from <= i <= builds.len(),
        forall|j: int| from <= j < i ==> (#[trigger] builds[j]).note != Some("stable"@),
        i < builds.len() ==> builds[i].note == Some("stable"@),
    ensures
        stable_build_from(builds, from) == (if i < builds.len() {
            Some(builds[i].version)
        } else {
            None
        }),
    decreases i - from,
{
    if from < i {
        assert(builds[from].note != Some("stable"@));
        builds_are_passed(builds, from + 1, i);
    }
}

/// Without a loader the wizard asks for one where it can, and otherwise fails for the want of it.
pub proof fn a_loader_has_to_be_named(flags: InitFlags)
    requires
        flags.loader is None,
    ensures
        ({
            let step = init_step(flags, InitStageView::Begin, InitEventView::Started);
            &&& flags.interactive ==> step.action == InitActionView::AskLoader && step.stage
                == InitStageView::WantLoader
            &&& !flags.interactive && flags.yes ==> step.action == InitActionView::Fail(
                InitFault::LoaderRequired,
            )
            &&& !flags.interactive && !flags.yes ==> step.action == InitActionView::Fail(
                InitFault::NeedsTerminal,
            )
        }),
{
}

/// The name of a pack is the flag's, or else what was typed, or else that of its directory; its author is
/// the flag's, or else what was typed, or else git's.
pub proof fn names_come_from_the_flags_first(
    args: &InitArgs,
    typed: Option<String>,
    other: Option<String>,
    name: String,
    author: String,
)
    requires
        call_ensures(pack_name, (args, typed, other), name),
        call_ensures(pack_author, (args, typed, other), author),
    ensures
        args.name matches Some(n) ==> name@ == n@,
        args.name is None && typed is Some ==> name@ == typed->0@,
        args.name is None && typed is None && other is Some ==> name@ == other->0@,
        args.name is None && typed is None && other is None ==> name@ == "pack"@,
        args.author matches Some(n) ==> author@ == n@,
        args.author is None && typed is Some ==> author@ == typed->0@,
        args.author is None && typed is None && other is Some ==> author@ == other->0@,
        args.author is None && typed is None && other is None ==> author@.len() == 0,
{
}

/// A new manifest holds what it was made of, and nothing else.
pub proof fn a_new_manifest_holds_what_it_was_made_of(
    name: String,
    author: String,
    version: String,
    loader: Loader,
    minecraft: String,
    loader_version: String,
    r: Manifest,
)
    requires
        call_ensures(
            new_manifest,
            (name, author, version, loader, minecraft, loader_version),
            r,
        ),
    ensures
        r.pack.name@ == name@,
        r.pack.author@ == author@,
        r.pack.version@ == version@,
        r.loader.name == loader,
        r.loader.minecraft@ == minecraft@,
        r.loader.version@ == loader_version@,
        r@.mods.len() == 0,
        r@.overlays.len() == 0,
        r@.default_side == Side::Both,
{
}

/// The series of a version with three numbers is its first two; one with fewer has none.
pub proof fn a_series_is_the_first_two_numbers(major: Seq<char>, minor: Seq<char>, rest: Seq<char>)
    requires
        !major.contains('.'),
        !minor.contains('.'),
    ensures
        series_of(major + "."@ + minor + "."@ + rest) == Some(major + "."@ + minor + "."@),
        series_of(major + "."@ + minor) is None,
        series_of(major) is None,
{
    reveal_strlit(".");
    assert("."@ =~= seq!['.']);
    let long = major + "."@ + minor + "."@ + rest;
    let short = major + "."@ + minor;
    assert(long =~= major.push('.') + (minor.push('.') + rest));
    assert(short =~= major.push('.') + minor);
    split_at_separator(major, '.', minor.push('.') + rest);
    split_at_separator(minor, '.', rest);
    split_at_separator(major, '.', minor);
    split_without_separator(minor, '.');
    split_without_separator(major, '.');
    split_nonempty(rest, '.');
}

/// A hint names supported versions only, at most five, and versions of the series that was asked for
/// wherever there is one.
pub proof fn hints_are_supported_versions(versions: Seq<Seq<char>>, mc: Seq<char>, k: int)
    requires
        0 <= k < hinted(versions, mc).len(),
    ensures
        versions.contains(hinted(versions, mc)[k]),
        hinted(versions, mc).len() <= 5,
        (series_of(mc) matches Some(prefix) && exists|i: int|
            0 <= i < versions.len() && prefix.is_prefix_of(#[trigger] versions[i])) ==> series_of(
            mc,
        )->0.is_prefix_of(hinted(versions, mc)[k]),
{
    match series_of(mc) {
        Some(prefix) => {
            first_ones_match(versions, prefix, 5);
            if first_with(versions, prefix, 5).len() == 0 {
                assert(versions.contains(versions[k]));
            }
        },
        None => {
            assert(versions.contains(versions[k]));
        },
    }
}

proof fn first_ones_match(versions: Seq<Seq<char>>, prefix: Seq<char>, n: nat)
    ensures
        first_with(versions, prefix, n).len() <= n,
        forall|k: int|
            0 <= k < first_with(versions, prefix, n).len() ==> versions.contains(
                #[trigger] first_with(versions, prefix, n)[k],
            ) && prefix.is_prefix_of(first_with(versions, prefix, n)[k]),
        n > 0 && (exists|i: int| 0 <= i < versions.len() && prefix.is_prefix_of(#[trigger] versions[i]))
            ==> first_with(versions, prefix, n).len() > 0,
    decreases versions.len(),
{
    let found = first_with(versions, prefix, n);
    if versions.len() > 0 && n > 0 {
        let rest = versions.drop_first();
        let less = if prefix.is_prefix_of(versions[0]) {
            (n - 1) as nat
        } else {
            n
        };
        first_ones_match(rest, prefix, less);
        let later = first_with(rest, prefix, less);
        assert forall|k: int| 0 <= k < found.len() implies versions.contains(#[trigger] found[k])
            && prefix.is_prefix_of(found[k]) by {
            if prefix.is_prefix_of(versions[0]) && k == 0 {
                assert(versions[0] == found[0]);
            } else {
                let j = if prefix.is_prefix_of(versions[0]) {
                    k - 1
                } else {
                    k
                };
                assert(found[k] == later[j]);
                let i = choose|i: int| 0 <= i < rest.len() && rest[i] == later[j];
                assert(versions[i + 1] == later[j]);
            }
        }
        if exists|i: int| 0 <= i < versions.len() && prefix.is_prefix_of(#[trigger] versions[i]) {
            let i = choose|i: int| 0 <= i < versions.len() && prefix.is_prefix_of(#[trigger] versions[i]);
            if i > 0 {
                assert(prefix.is_prefix_of(rest[i - 1]));
            }
        }
    }
}

/// The name that a loader is shown under is its own, with capitals.
pub proof fn a_loader_is_shown_by_its_name(loader: Loader)
    ensures
        lower(loader_label(loader)) == loader_word(loader),
        'A' <= loader_label(loader)[0] <= 'Z',
{
    reveal_strlit("Fabric");
    reveal_strlit("NeoForge");
    reveal_strlit("Forge");
    reveal_strlit("Quilt");
    reveal_strlit("fabric");
    reveal_strlit("neoforge");
    reveal_strlit("forge");
    reveal_strlit("quilt");
    assert(lower(loader_label(loader)) =~= loader_word(loader));
}

/// The build that is taken unasked is the first of those shown, and no unstable build is shown beside a
/// stable one.
pub proof fn the_build_taken_is_the_first_shown(list: Seq<LoaderVersionView>, i: int)
    ensures
        best_build(list) is Some <==> list.len() > 0,
        list.len() > 0 ==> shown_builds(list).len() > 0 && best_build(list) == Some(
            shown_builds(list)[0].version,
        ),
        0 <= i < shown_builds(list).len() && (exists|j: int|
            0 <= j < list.len() && (#[trigger] list[j]).note == Some("stable"@))
            ==> shown_builds(list)[i].note == Some("stable"@),
{
    broadcast use vstd::seq_lib::group_filter_ensures;

    let stable = |v: LoaderVersionView| is_stable_build(v);
    first_stable_is_first_kept(list, 0);
    assert(list.skip(0) =~= list);
    if exists|j: int| 0 <= j < list.len() && (#[trigger] list[j]).note == Some("stable"@) {
        let j = choose|j: int|
            0 <= j < list.len() && (#[trigger] list[j]).note == Some("stable"@);
        assert(stable(list[j]));
        assert(list.filter(stable).contains(list[j]));
        if 0 <= i < shown_builds(list).len() {
            assert(stable(list.filter(stable)[i]));
        }
    }
}

/// The first stable build is the first that a filter for stable ones keeps.
proof fn first_stable_is_first_kept(list: Seq<LoaderVersionView>, i: int)
    requires
        0 <= i <= list.len(),
    ensures
        ({
            let kept = list.skip(i).filter(|v: LoaderVersionView| is_stable_build(v));
            &&& stable_build_from(list, i) is Some <==> kept.len() > 0
            &&& kept.len() > 0 ==> stable_build_from(list, i) == Some(kept[0].version)
        }),
    decreases list.len() - i,
{
    let stable = |v: LoaderVersionView| is_stable_build(v);
    let rest = list.skip(i);
    if i < list.len() {
        first_stable_is_first_kept(list, i + 1);
        let head = seq![list[i]];
        let tail = list.skip(i + 1);
        assert(rest =~= head + tail);
        Seq::filter_distributes_over_add(head, tail, stable);
        reveal(Seq::filter);
        assert(head.drop_last() =~= Seq::empty());
        assert(head.last() == list[i]);
        assert(head.drop_last().filter(stable) =~= Seq::empty());
        if is_stable_build(list[i]) {
            assert(head.filter(stable) =~= head);
        } else {
            assert(head.filter(stable) =~= Seq::empty());
        }
        assert(rest.filter(stable) == head.filter(stable) + tail.filter(stable));
    } else {
        reveal(Seq::filter);
        assert(rest =~= Seq::empty());
    }
}

/// Every flag counts as it was given.
pub proof fn flags_are_those_given(args: InitArgs, interactive: bool)
    ensures
        ({
            let flags = flags_of(args, interactive);
            &&& flags.loader == args.loader
            &&& flags.minecraft is Some <==> args.minecraft is Some
            &&& args.minecraft matches Some(mc) ==> flags.minecraft == Some(mc@)
            &&& flags.loader_version is Some <==> args.loader_version is Some
            &&& args.loader_version matches Some(v) ==> flags.loader_version == Some(v@)
            &&& flags.yes == args.yes
            &&& flags.interactive == interactive
        }),
{
}

} // verus!
