//! Resolution: from the manifest to the exact graph of mods.
//!
//! The resolver is a state machine. It hands out one task at a time, the caller asks the task's
//! provider, and the resolver takes the answer. Each step is a function of the state and the
//! answer, so a resolution is determined by the manifest, the previous lock and the answers.
use vstd::prelude::*;

use crate::hash::{hex_of, sha256_digest, sha256_hex, sha512_digest, sha512_hex};
use crate::lock::{
    copy_option, copy_strings, is_first_fault, mods_safe, name_fault, safe_component, safe_name,
    DepEdge, DepEdgeView, DepKind, Download, DownloadView, EntryFault, Lock, LockView, LockedMod,
    LockedModView, ResolverMeta, UnsafeName, LOCKFILE_VERSION,
};
use crate::manifest::{
    constraint_of, optional, pinned, project_id_of, provider_of, side_of, Manifest,
    ManifestView, ModSpec, ModSpecView,
};
use crate::provider::{DownloadMode, Provider};
use crate::providers::{ResolvedDep, ResolvedDepView, ResolvedVersion, ResolvedVersionView};
use crate::side::Side;
use crate::text::{same, utf8};

verus! {

/// The root marker in `requestedBy`: a node the manifest declares directly (vs. one pulled in
/// only as a transitive dependency).
pub const ROOT_REQUESTER: &'static str = "manifest";

/// The version of this tool, recorded in every lock it writes.
pub const LODE_VERSION: &'static str = "0.2.1";

/// One project to ask a provider for.
#[derive(Debug)]
pub struct Task {
    /// Slug or project id to resolve.
    pub id: String,
    pub constraint: String,
    pub requester: String,
    pub side_override: Option<Side>,
    pub optional: bool,
    pub provider: Provider,
}

/// A resolved project.
#[derive(Debug)]
pub struct Node {
    pub resolved: ResolvedVersion,
    pub side: Side,
    pub requested_by: Vec<String>,
    pub optional: bool,
    pub provider: Provider,
}

/// How `resolve` treats versions already in the lockfile.
#[derive(Debug)]
pub enum ResolveMode {
    /// Keep every version already locked; only newly-declared mods resolve fresh. Used by add,
    /// del, install, refresh and build, so the lock is respected, not re-bumped every command.
    Locked,
    /// Re-resolve to the latest allowed versions. `only: Some(slug)` limits the bump to that mod
    /// (and its dependencies); everything else stays locked. Pinned mods never bump.
    Update { only: Option<String> },
}

/// Versions from the previous lock, keyed both by declared slug and by provider project id. Where
/// a key occurs more than once, its last version counts.
#[derive(Debug)]
pub struct Frozen {
    pub by_slug: Vec<(String, String)>,
    pub by_project: Vec<(String, String)>,
}

/// Why a manifest cannot be resolved.
#[derive(Debug)]
pub enum ResolveError {
    /// A declared mod names a provider that is not resolved.
    UnsupportedProvider(Provider),
    /// The local mod with this slug has no file path.
    MissingPath(String),
    /// The local mod with this slug has a file path that is no safe component.
    UnsafePath(String, UnsafeName),
    /// A resolved entry has an unsafe slug or file name.
    UnsafeEntry(EntryFault),
}

// ---- views ------------------------------------------------------------------------------------

#[verifier::ext_equal]
pub struct TaskView {
    pub id: Seq<char>,
    pub constraint: Seq<char>,
    pub requester: Seq<char>,
    pub side_override: Option<Side>,
    pub optional: bool,
    pub provider: Provider,
}

#[verifier::ext_equal]
pub struct NodeView {
    pub resolved: ResolvedVersionView,
    pub side: Side,
    pub requested_by: Seq<Seq<char>>,
    pub optional: bool,
    pub provider: Provider,
}

#[verifier::ext_equal]
pub enum ModeView {
    Locked,
    Update { only: Option<Seq<char>> },
}

/// What decides the constraints: the versions of the previous lock, and the mode.
#[verifier::ext_equal]
pub struct PolicyView {
    pub by_slug: Seq<(Seq<char>, Seq<char>)>,
    pub by_project: Seq<(Seq<char>, Seq<char>)>,
    pub mode: ModeView,
}

/// The state of a resolution: all tasks so far, how many of them are answered, and the nodes in
/// the order in which they were first resolved.
#[verifier::ext_equal]
pub struct StateView {
    pub tasks: Seq<TaskView>,
    pub answered: int,
    pub nodes: Seq<NodeView>,
}

/// What is wrong with a local mod.
#[verifier::ext_equal]
pub enum LocalFault {
    MissingPath(Seq<char>),
    UnsafePath(Seq<char>, UnsafeName),
}

impl DeepView for Task {
    type V = TaskView;

    open spec fn deep_view(&self) -> TaskView {
        TaskView {
            id: self.id@,
            constraint: self.constraint@,
            requester: self.requester@,
            side_override: self.side_override,
            optional: self.optional,
            provider: self.provider,
        }
    }
}

impl DeepView for Node {
    type V = NodeView;

    open spec fn deep_view(&self) -> NodeView {
        NodeView {
            resolved: self.resolved@,
            side: self.side,
            requested_by: self.requested_by.deep_view(),
            optional: self.optional,
            provider: self.provider,
        }
    }
}

impl View for ResolveMode {
    type V = ModeView;

    open spec fn view(&self) -> ModeView {
        match self {
            ResolveMode::Locked => ModeView::Locked,
            ResolveMode::Update { only } => ModeView::Update { only: only.deep_view() },
        }
    }
}

// ---- constraints ------------------------------------------------------------------------------

/// The value of the last pair with the key.
pub open spec fn last_value(pairs: Seq<(Seq<char>, Seq<char>)>, key: Seq<char>) -> Option<Seq<char>>
    decreases pairs.len(),
{
    if pairs.len() == 0 {
        None
    } else if pairs.last().0 == key {
        Some(pairs.last().1)
    } else {
        last_value(pairs.drop_last(), key)
    }
}

pub open spec fn slug_versions(mods: Seq<LockedModView>) -> Seq<(Seq<char>, Seq<char>)> {
    mods.map_values(|m: LockedModView| (m.slug, m.version))
}

pub open spec fn project_versions(mods: Seq<LockedModView>) -> Seq<(Seq<char>, Seq<char>)> {
    mods.map_values(|m: LockedModView| (m.project_id, m.version))
}

/// The policy for a previous lock and a mode.
pub open spec fn policy_of(previous: Option<LockView>, mode: ModeView) -> PolicyView {
    match previous {
        Some(lock) => PolicyView {
            by_slug: slug_versions(lock.mods),
            by_project: project_versions(lock.mods),
            mode,
        },
        None => PolicyView { by_slug: Seq::empty(), by_project: Seq::empty(), mode },
    }
}

/// A declared mod moves to a newer version: in an update that means it, unless it is pinned.
pub open spec fn bumps(mode: ModeView, slug: Seq<char>, is_pinned: bool) -> bool {
    match mode {
        ModeView::Locked => false,
        ModeView::Update { only } => !is_pinned && (only is None || only == Some(slug)),
    }
}

/// The constraint for a declared mod.
pub open spec fn declared_with(
    policy: PolicyView,
    slug: Seq<char>,
    constraint: Seq<char>,
    is_pinned: bool,
) -> Seq<char> {
    match last_value(policy.by_slug, slug) {
        Some(locked) if !bumps(policy.mode, slug, is_pinned) => locked,
        _ => constraint,
    }
}

/// The constraint for a dependency.
pub open spec fn dependency_with(policy: PolicyView, project_id: Seq<char>) -> Seq<char> {
    match last_value(policy.by_project, project_id) {
        Some(locked) if !(policy.mode matches ModeView::Update { only: None }) => locked,
        _ => "*"@,
    }
}

/// The value of the last pair with the key.
pub(crate) fn find_last(pairs: &Vec<(String, String)>, key: &str) -> (r: Option<String>)
    ensures
        r.deep_view() == last_value(pairs.deep_view(), key@),
{
    let ghost all = pairs.deep_view();
    let mut i: usize = pairs.len();
    assert(all.take(i as int) =~= all);
    while i > 0
        invariant
            all == pairs.deep_view(),
            i <= pairs@.len(),
            last_value(all, key@) == last_value(all.take(i as int), key@),
        decreases i,
    {
        proof {
            assert(all[i - 1] == pairs@[i - 1].deep_view());
            assert(all.take(i as int).last() == all[i - 1]);
            assert(all.take(i as int).drop_last() =~= all.take(i - 1));
        }
        if same(pairs[i - 1].0.as_str(), key) {
            return Some(pairs[i - 1].1.clone());
        }
        i = i - 1;
    }
    None
}

impl Frozen {
    /// Nothing is locked.
    pub fn nothing() -> (r: Frozen)
        ensures
            r.by_slug.deep_view() == Seq::<(Seq<char>, Seq<char>)>::empty(),
            r.by_project.deep_view() == Seq::<(Seq<char>, Seq<char>)>::empty(),
    {
        let r = Frozen { by_slug: Vec::new(), by_project: Vec::new() };
        assert(r.by_slug.deep_view() =~= Seq::<(Seq<char>, Seq<char>)>::empty());
        assert(r.by_project.deep_view() =~= Seq::<(Seq<char>, Seq<char>)>::empty());
        r
    }

    /// The versions of a lock.
    pub fn from(previous: Option<&Lock>) -> (r: Frozen)
        ensures
            forall|mode: ModeView|
                #![trigger r.policy(mode)]
                r.policy(mode) == policy_of(
                    match previous {
                        Some(lock) => Some(lock@),
                        None => None,
                    },
                    mode,
                ),
    {
        let mut frozen = Frozen::nothing();
        match previous {
            None => {},
            Some(lock) => {
                let ghost all = lock@.mods;
                let mut i: usize = 0;
                assert(slug_versions(all.take(0)) =~= Seq::empty());
                assert(project_versions(all.take(0)) =~= Seq::empty());
                while i < lock.mods.len()
                    invariant
                        all == lock.mods.deep_view(),
                        i <= lock.mods@.len(),
                        frozen.by_slug.deep_view() == slug_versions(all.take(i as int)),
                        frozen.by_project.deep_view() == project_versions(all.take(i as int)),
                    decreases lock.mods.len() - i,
                {
                    assert(all[i as int] == lock.mods@[i as int].deep_view());
                    let ghost slugs = frozen.by_slug.deep_view();
                    let ghost projects = frozen.by_project.deep_view();
                    let m = &lock.mods[i];
                    frozen.by_slug.push((m.slug.clone(), m.version.clone()));
                    frozen.by_project.push((m.project_id.clone(), m.version.clone()));
                    proof {
                        assert(frozen.by_slug.deep_view() =~= slugs.push(
                            (all[i as int].slug, all[i as int].version),
                        ));
                        assert(frozen.by_project.deep_view() =~= projects.push(
                            (all[i as int].project_id, all[i as int].version),
                        ));
                        assert(slug_versions(all.take(i + 1)) =~= slug_versions(
                            all.take(i as int),
                        ).push((all[i as int].slug, all[i as int].version)));
                        assert(project_versions(all.take(i + 1)) =~= project_versions(
                            all.take(i as int),
                        ).push((all[i as int].project_id, all[i as int].version)));
                    }
                    i = i + 1;
                }
                assert(all.take(i as int) =~= all);
            },
        }
        frozen
    }

    /// The policy that these versions make with a mode.
    pub open spec fn policy(&self, mode: ModeView) -> PolicyView {
        PolicyView {
            by_slug: self.by_slug.deep_view(),
            by_project: self.by_project.deep_view(),
            mode,
        }
    }
}

/// Constraint to resolve a declared mod with: its locked version when frozen, else the manifest's.
pub fn declared_constraint(
    slug: &str,
    manifest_constraint: &str,
    is_pinned: bool,
    frozen: &Frozen,
    mode: &ResolveMode,
) -> (r: String)
    ensures
        r@ == declared_with(frozen.policy(mode@), slug@, manifest_constraint@, is_pinned),
{
    let locked = find_last(&frozen.by_slug, slug);
    let bump = match mode {
        ResolveMode::Locked => false,
        ResolveMode::Update { only } => !is_pinned && match only {
            None => true,
            Some(name) => same(name.as_str(), slug),
        },
    };
    if bump {
        return manifest_constraint.to_owned();
    }
    match locked {
        Some(version) => version,
        None => manifest_constraint.to_owned(),
    }
}

/// Constraint to resolve a dependency with: its locked version when frozen, else the latest.
pub fn dependency_constraint(project_id: &str, frozen: &Frozen, mode: &ResolveMode) -> (r: String)
    ensures
        r@ == dependency_with(frozen.policy(mode@), project_id@),
{
    let bump = match mode {
        ResolveMode::Update { only: None } => true,
        _ => false,
    };
    if bump {
        return "*".to_owned();
    }
    match find_last(&frozen.by_project, project_id) {
        Some(version) => version,
        None => "*".to_owned(),
    }
}

// ---- the steps of a resolution ----------------------------------------------------------------

/// The task for a declared mod.
pub open spec fn root_task(policy: PolicyView, slug: Seq<char>, spec: ModSpecView) -> TaskView {
    TaskView {
        id: slug,
        constraint: declared_with(policy, slug, constraint_of(spec), pinned(spec)),
        requester: ROOT_REQUESTER@,
        side_override: side_of(spec),
        optional: optional(spec),
        provider: match provider_of(spec) {
            Some(p) => p,
            None => Provider::Modrinth,
        },
    }
}

pub open spec fn is_local(spec: ModSpecView) -> bool {
    provider_of(spec) == Some(Provider::Local)
}

/// One task per declared mod that is not local, in the order of the manifest.
pub open spec fn root_tasks(policy: PolicyView, mods: Seq<(Seq<char>, ModSpecView)>) -> Seq<
    TaskView,
>
    decreases mods.len(),
{
    if mods.len() == 0 {
        Seq::empty()
    } else if is_local(mods.last().1) {
        root_tasks(policy, mods.drop_last())
    } else {
        root_tasks(policy, mods.drop_last()).push(
            root_task(policy, mods.last().0, mods.last().1),
        )
    }
}

/// One task per required dependency, asked of the provider of the mod that pulled it in.
pub open spec fn dep_tasks(
    policy: PolicyView,
    deps: Seq<ResolvedDepView>,
    requester: Seq<char>,
    provider: Provider,
) -> Seq<TaskView>
    decreases deps.len(),
{
    if deps.len() == 0 {
        Seq::empty()
    } else {
        let head = dep_tasks(policy, deps.drop_last(), requester, provider);
        if deps.last().kind == DepKind::Required {
            head.push(
                TaskView {
                    id: deps.last().project_id,
                    constraint: dependency_with(policy, deps.last().project_id),
                    requester,
                    side_override: None,
                    optional: false,
                    provider,
                },
            )
        } else {
            head
        }
    }
}

/// The position of the node for a project, from `i` on.
pub open spec fn node_from(nodes: Seq<NodeView>, project_id: Seq<char>, i: int) -> Option<int>
    decreases nodes.len() - i,
{
    if !(0 <= i < nodes.len()) {
        None
    } else if nodes[i].resolved.project_id == project_id {
        Some(i)
    } else {
        node_from(nodes, project_id, i + 1)
    }
}

/// The node with one more requester, unless it has that one already.
pub open spec fn requested_too(node: NodeView, requester: Seq<char>) -> NodeView {
    if node.requested_by.contains(requester) {
        node
    } else {
        NodeView { requested_by: node.requested_by.push(requester), ..node }
    }
}

/// The node that the first answer for a project makes.
pub open spec fn new_node(task: TaskView, answer: ResolvedVersionView) -> NodeView {
    NodeView {
        resolved: answer,
        side: match task.side_override {
            Some(side) => side,
            None => answer.side,
        },
        requested_by: seq![task.requester],
        optional: task.optional,
        provider: task.provider,
    }
}

/// The state before any answer.
pub open spec fn first_state(policy: PolicyView, mods: Seq<(Seq<char>, ModSpecView)>) -> StateView {
    StateView { tasks: root_tasks(policy, mods), answered: 0, nodes: Seq::empty() }
}

/// The state after the answer to the first open task: a project that is there already gets the
/// requester added, a new one becomes a node and its required dependencies become tasks.
pub open spec fn step(policy: PolicyView, s: StateView, answer: ResolvedVersionView) -> StateView {
    let task = s.tasks[s.answered];
    match node_from(s.nodes, answer.project_id, 0) {
        Some(i) => StateView {
            tasks: s.tasks,
            answered: s.answered + 1,
            nodes: s.nodes.update(i, requested_too(s.nodes[i], task.requester)),
        },
        None => StateView {
            tasks: s.tasks + dep_tasks(policy, answer.dependencies, answer.slug, task.provider),
            answered: s.answered + 1,
            nodes: s.nodes.push(new_node(task, answer)),
        },
    }
}

/// The state after a row of answers.
pub open spec fn after(policy: PolicyView, s: StateView, answers: Seq<ResolvedVersionView>) -> StateView
    decreases answers.len(),
{
    if answers.len() == 0 {
        s
    } else {
        step(policy, after(policy, s, answers.drop_last()), answers.last())
    }
}

/// A resolution in progress.
#[derive(Debug)]
pub struct Resolver {
    pub frozen: Frozen,
    pub mode: ResolveMode,
    pub tasks: Vec<Task>,
    pub answered: usize,
    pub nodes: Vec<Node>,
}

impl View for Resolver {
    type V = StateView;

    open spec fn view(&self) -> StateView {
        StateView {
            tasks: self.tasks.deep_view(),
            answered: self.answered as int,
            nodes: self.nodes.deep_view(),
        }
    }
}

impl Resolver {
    pub open spec fn valid(&self) -> bool {
        self.answered <= self.tasks@.len()
    }

    pub open spec fn policy(&self) -> PolicyView {
        self.frozen.policy(self.mode@)
    }

    /// Every task is answered.
    pub open spec fn finished(&self) -> bool {
        self.answered == self.tasks@.len()
    }

    /// Start to resolve the graph declared by the manifest: every declared mod plus the transitive
    /// closure of its required dependencies, deduplicated by project id with merged reverse edges.
    pub fn start(manifest: &Manifest, previous: Option<&Lock>, mode: ResolveMode) -> (r: Resolver)
        ensures
            r.valid(),
            r.policy() == policy_of(
                match previous {
                    Some(lock) => Some(lock@),
                    None => None,
                },
                mode@,
            ),
            r@ == first_state(r.policy(), manifest@.mods),
    {
        let frozen = Frozen::from(previous);
        let ghost policy = frozen.policy(mode@);
        let ghost mods = manifest@.mods;
        let mut tasks: Vec<Task> = Vec::new();
        let mut i: usize = 0;
        assert(tasks.deep_view() =~= root_tasks(policy, mods.take(0)));
        while i < manifest.len()
            invariant
                policy == frozen.policy(mode@),
                mods == manifest@.mods,
                i <= mods.len(),
                tasks.deep_view() == root_tasks(policy, mods.take(i as int)),
            decreases mods.len() - i,
        {
            let (slug, spec) = manifest.entry(i);
            proof {
                assert(mods.take(i + 1).drop_last() =~= mods.take(i as int));
                assert(mods.take(i + 1).last() == mods[i as int]);
            }
            // Local jars aren't resolved from a provider: they're read from disk further down.
            let local = match spec.provider() {
                Some(Provider::Local) => true,
                _ => false,
            };
            if !local {
                let ghost prior = tasks.deep_view();
                tasks.push(
                    Task {
                        id: slug.clone(),
                        constraint: declared_constraint(
                            slug.as_str(),
                            spec.constraint(),
                            spec.pin(),
                            &frozen,
                            &mode,
                        ),
                        requester: ROOT_REQUESTER.to_owned(),
                        side_override: spec.side(),
                        optional: spec.is_optional(),
                        provider: match spec.provider() {
                            Some(p) => p,
                            None => Provider::Modrinth,
                        },
                    },
                );
                assert(tasks.deep_view() =~= prior.push(
                    root_task(policy, mods[i as int].0, mods[i as int].1),
                ));
            }
            i = i + 1;
        }
        assert(mods.take(i as int) =~= mods);
        let r = Resolver { frozen, mode, tasks, answered: 0, nodes: Vec::new() };
        assert(r.nodes.deep_view() =~= Seq::<NodeView>::empty());
        r
    }

    /// The task to ask a provider about next, or nothing when the resolution is complete. Only
    /// Modrinth and CurseForge can be asked.
    pub fn next_task(&self) -> (r: Result<Option<&Task>, ResolveError>)
        requires
            self.valid(),
        ensures
            match r {
                Ok(None) => self.finished(),
                Ok(Some(task)) => !self.finished() && task.deep_view()
                    == self@.tasks[self@.answered] && (task.provider == Provider::Modrinth
                    || task.provider == Provider::Curseforge),
                Err(ResolveError::UnsupportedProvider(p)) => !self.finished()
                    && self@.tasks[self@.answered].provider == p && p != Provider::Modrinth && p
                    != Provider::Curseforge,
                Err(_) => false,
            },
    {
        if self.answered >= self.tasks.len() {
            return Ok(None);
        }
        let task = &self.tasks[self.answered];
        assert(self@.tasks[self@.answered] == task.deep_view());
        match task.provider {
            Provider::Modrinth => Ok(Some(task)),
            Provider::Curseforge => Ok(Some(task)),
            other => Err(ResolveError::UnsupportedProvider(other)),
        }
    }

    /// The position of the node for a project.
    fn position(&self, project_id: &str) -> (r: Option<usize>)
        ensures
            match r {
                Some(i) => node_from(self@.nodes, project_id@, 0) == Some(i as int) && i
                    < self.nodes@.len(),
                None => node_from(self@.nodes, project_id@, 0) is None,
            },
    {
        let ghost all = self@.nodes;
        let mut i: usize = 0;
        while i < self.nodes.len()
            invariant
                all == self.nodes.deep_view(),
                i <= self.nodes@.len(),
                node_from(all, project_id@, 0) == node_from(all, project_id@, i as int),
            decreases self.nodes.len() - i,
        {
            assert(all[i as int] == self.nodes@[i as int].deep_view());
            if same(self.nodes[i].resolved.project_id.as_str(), project_id) {
                return Some(i);
            }
            i = i + 1;
        }
        None
    }

    /// Take the answer to the first open task.
    pub fn record(&mut self, resolved: ResolvedVersion)
        requires
            old(self).valid(),
            !old(self).finished(),
        ensures
            final(self).valid(),
            final(self).policy() == old(self).policy(),
            final(self)@ == step(old(self).policy(), old(self)@, resolved@),
    {
        let ghost before = self@;
        assert(self.answered < self.tasks.len());
        let next: usize = self.answered + 1;
        let ghost task_view = before.tasks[before.answered];
        assert(task_view == self.tasks@[self.answered as int].deep_view());
        let requester = self.tasks[self.answered].requester.clone();
        let provider = self.tasks[self.answered].provider;
        let side_override = self.tasks[self.answered].side_override;
        let is_optional = self.tasks[self.answered].optional;
        match self.position(resolved.project_id.as_str()) {
            Some(i) => {
                let ghost nodes = self.nodes@;
                let mut node = self.nodes.remove(i);
                assert(node.deep_view() == before.nodes[i as int]);
                let ghost whole = node.deep_view();
                if !contains_text(&node.requested_by, requester.as_str()) {
                    let ghost prior = node.requested_by.deep_view();
                    node.requested_by.push(requester);
                    assert(node.requested_by.deep_view() =~= prior.push(requester@));
                }
                assert(node.deep_view() == requested_too(whole, task_view.requester));
                self.nodes.insert(i, node);
                assert(self.nodes.deep_view() =~= before.nodes.update(
                    i as int,
                    requested_too(whole, task_view.requester),
                ));
                self.answered = next;
            },
            None => {
                self.queue_required(&resolved, provider);
                let ghost prior = self.nodes.deep_view();
                let mut requested_by: Vec<String> = Vec::new();
                requested_by.push(requester);
                assert(requested_by.deep_view() =~= seq![requester@]);
                let node = Node {
                    side: match side_override {
                        Some(side) => side,
                        None => resolved.side,
                    },
                    requested_by,
                    optional: is_optional,
                    provider,
                    resolved,
                };
                self.nodes.push(node);
                assert(self.nodes.deep_view() =~= prior.push(node.deep_view()));
                self.answered = next;
            },
        }
    }

    /// Make a task of each required dependency.
    fn queue_required(&mut self, resolved: &ResolvedVersion, provider: Provider)
        requires
            old(self).answered < old(self).tasks@.len(),
        ensures
            final(self).policy() == old(self).policy(),
            final(self).answered == old(self).answered,
            final(self).nodes == old(self).nodes,
            final(self).tasks@.len() >= old(self).tasks@.len(),
            final(self).tasks.deep_view() == old(self).tasks.deep_view() + dep_tasks(
                old(self).policy(),
                resolved@.dependencies,
                resolved@.slug,
                provider,
            ),
    {
        let ghost policy = self.policy();
        let ghost first = self.tasks.deep_view();
        let ghost deps = resolved@.dependencies;
        let mut i: usize = 0;
        assert(first =~= first + dep_tasks(policy, deps.take(0), resolved@.slug, provider));
        while i < resolved.dependencies.len()
            invariant
                deps == resolved.dependencies.deep_view(),
                policy == old(self).policy(),
                first == old(self).tasks.deep_view(),
                self.policy() == policy,
                self.answered == old(self).answered,
                self.nodes == old(self).nodes,
                self.tasks@.len() >= old(self).tasks@.len(),
                i <= resolved.dependencies@.len(),
                self.tasks.deep_view() == first + dep_tasks(
                    policy,
                    deps.take(i as int),
                    resolved@.slug,
                    provider,
                ),
            decreases resolved.dependencies.len() - i,
        {
            let dep = &resolved.dependencies[i];
            proof {
                assert(deps[i as int] == dep.deep_view());
                assert(deps.take(i + 1).drop_last() =~= deps.take(i as int));
                assert(deps.take(i + 1).last() == deps[i as int]);
            }
            if dep.kind == DepKind::Required {
                let ghost prior = self.tasks.deep_view();
                let task = Task {
                    id: dep.project_id.clone(),
                    constraint: dependency_constraint(
                        dep.project_id.as_str(),
                        &self.frozen,
                        &self.mode,
                    ),
                    requester: resolved.slug.clone(),
                    side_override: None,
                    optional: false,
                    // A dependency comes from the same provider as the mod that pulled it in.
                    provider,
                };
                let ghost queued = task.deep_view();
                self.tasks.push(task);
                proof {
                    assert(self.tasks.deep_view() =~= prior.push(queued));
                    assert(prior.push(queued) =~= first + dep_tasks(
                        policy,
                        deps.take(i as int),
                        resolved@.slug,
                        provider,
                    ).push(queued));
                }
            }
            i = i + 1;
        }
        assert(deps.take(i as int) =~= deps);
    }
}

/// Whether one of the strings is the given text.
pub fn contains_text(v: &Vec<String>, s: &str) -> (r: bool)
    ensures
        r == v.deep_view().contains(s@),
{
    let ghost all = v.deep_view();
    let mut i: usize = 0;
    while i < v.len()
        invariant
            all == v.deep_view(),
            i <= v@.len(),
            forall|j: int| 0 <= j < i ==> all[j] != s@,
        decreases v.len() - i,
    {
        assert(all[i as int] == v@[i as int]@);
        if same(v[i].as_str(), s) {
            return true;
        }
        i = i + 1;
    }
    false
}

// ---- the lock ---------------------------------------------------------------------------------

/// The edges to projects that are in the graph, each under the slug of its node.
pub open spec fn edges_in(nodes: Seq<NodeView>, deps: Seq<ResolvedDepView>) -> Seq<DepEdgeView>
    decreases deps.len(),
{
    if deps.len() == 0 {
        Seq::empty()
    } else {
        let head = edges_in(nodes, deps.drop_last());
        match node_from(nodes, deps.last().project_id, 0) {
            Some(i) => head.push(
                DepEdgeView { slug: nodes[i].resolved.slug, kind: deps.last().kind },
            ),
            None => head,
        }
    }
}

/// How a file of a provider is downloaded: CurseForge files are found again by their ids.
pub open spec fn mode_for(provider: Provider) -> DownloadMode {
    if provider == Provider::Curseforge {
        DownloadMode::MetadataCurseforge
    } else {
        DownloadMode::Url
    }
}

/// The URL that is locked for a file of a provider: none for CurseForge, whose terms forbid to keep
/// it.
pub open spec fn url_for(provider: Provider, url: Option<Seq<char>>) -> Option<Seq<char>> {
    if provider == Provider::Curseforge {
        None
    } else {
        url
    }
}

/// The lock entry for a node of the graph.
pub open spec fn locked_node(nodes: Seq<NodeView>, node: NodeView) -> LockedModView {
    LockedModView {
        slug: node.resolved.slug,
        name: node.resolved.project_name,
        provider: node.provider,
        project_id: node.resolved.project_id,
        file_id: Some(node.resolved.file_id),
        version: node.resolved.version,
        filename: node.resolved.filename,
        download: DownloadView {
            url: url_for(node.provider, node.resolved.url),
            mode: mode_for(node.provider),
            hash_format: node.resolved.hash_format,
            hash: node.resolved.hash,
            size: node.resolved.size,
        },
        side: node.side,
        optional: node.optional,
        dependencies: edges_in(nodes, node.resolved.dependencies),
        requested_by: node.requested_by,
    }
}

/// One entry per node, in the order of resolution.
pub open spec fn locked_nodes(nodes: Seq<NodeView>) -> Seq<LockedModView> {
    Seq::new(nodes.len(), |i: int| locked_node(nodes, nodes[i]))
}

/// The lock entry for a local jar: hashed, without a URL, declared by the manifest.
pub open spec fn local_entry(
    slug: Seq<char>,
    spec: ModSpecView,
    default_side: Side,
    jar: Seq<u8>,
) -> LockedModView {
    let filename = project_id_of(spec)->0;
    LockedModView {
        slug,
        name: slug,
        provider: Provider::Local,
        project_id: filename,
        file_id: None,
        version: "local"@,
        filename,
        download: DownloadView {
            url: None,
            mode: DownloadMode::Url,
            hash_format: "sha512"@,
            hash: hex_of(sha512_digest(jar)),
            size: Some(jar.len() as u64),
        },
        side: match side_of(spec) {
            Some(side) => side,
            None => default_side,
        },
        optional: optional(spec),
        dependencies: Seq::empty(),
        requested_by: seq![ROOT_REQUESTER@],
    }
}

/// The entries for the local mods, in the order of the manifest; `jars` holds what was read for
/// each of them.
pub open spec fn local_entries(
    mods: Seq<(Seq<char>, ModSpecView)>,
    default_side: Side,
    jars: Seq<Seq<u8>>,
) -> Seq<LockedModView>
    decreases mods.len(),
{
    if mods.len() == 0 {
        Seq::empty()
    } else {
        let head = local_entries(mods.drop_last(), default_side, jars);
        if is_local(mods.last().1) {
            head.push(
                local_entry(mods.last().0, mods.last().1, default_side, jars[head.len() as int]),
            )
        } else {
            head
        }
    }
}

/// The number of local mods.
pub open spec fn local_count(mods: Seq<(Seq<char>, ModSpecView)>) -> nat
    decreases mods.len(),
{
    if mods.len() == 0 {
        0
    } else if is_local(mods.last().1) {
        local_count(mods.drop_last()) + 1
    } else {
        local_count(mods.drop_last())
    }
}

/// What is wrong with one local mod.
pub open spec fn local_fault(slug: Seq<char>, spec: ModSpecView) -> Option<LocalFault> {
    match project_id_of(spec) {
        None => Some(LocalFault::MissingPath(slug)),
        Some(filename) => match name_fault(filename) {
            Some(fault) => Some(LocalFault::UnsafePath(slug, fault)),
            None => None,
        },
    }
}

/// What is wrong with the first local mod that has a fault.
pub open spec fn first_local_fault(mods: Seq<(Seq<char>, ModSpecView)>) -> Option<LocalFault>
    decreases mods.len(),
{
    if mods.len() == 0 {
        None
    } else {
        match first_local_fault(mods.drop_last()) {
            Some(fault) => Some(fault),
            None => if is_local(mods.last().1) {
                local_fault(mods.last().0, mods.last().1)
            } else {
                None
            },
        }
    }
}

/// The integrity hash of a manifest in its canonical JSON form.
pub open spec fn manifest_hash_of(json: Seq<char>) -> Seq<char> {
    "sha256:"@ + hex_of(sha256_digest(utf8(json)))
}

/// The lock for a manifest, its canonical JSON form, the nodes of a finished resolution and the
/// contents of the local jars.
pub open spec fn lock_of(
    manifest: ManifestView,
    json: Seq<char>,
    nodes: Seq<NodeView>,
    jars: Seq<Seq<u8>>,
) -> LockView {
    LockView {
        lockfile_version: LOCKFILE_VERSION,
        manifest_hash: manifest_hash_of(json),
        loader: manifest.loader,
        lode_version: LODE_VERSION@,
        mods: locked_nodes(nodes) + local_entries(manifest.mods, manifest.default_side, jars),
    }
}

impl ResolveError {
    /// This error is about the given fault of a local mod.
    pub open spec fn is_local_fault(&self, fault: LocalFault) -> bool {
        match self {
            ResolveError::MissingPath(slug) => fault == LocalFault::MissingPath(slug@),
            ResolveError::UnsafePath(slug, name) => fault == LocalFault::UnsafePath(slug@, *name),
            _ => false,
        }
    }
}

/// The integrity hash of a manifest, from its canonical JSON form.
pub fn manifest_hash(json: &str) -> (r: String)
    ensures
        r@ == manifest_hash_of(json@),
{
    let mut out = "sha256:".to_owned();
    out.append(sha256_hex(json.as_bytes()).as_str());
    out
}

/// Whether a declared mod is a jar the maintainer supplies.
pub fn is_local_spec(spec: &ModSpec) -> (r: bool)
    ensures
        r == is_local(spec@),
{
    match spec.provider() {
        Some(Provider::Local) => true,
        _ => false,
    }
}

/// The name of a local mod's jar under `local/`. It is checked before the read, not just before the
/// write: it comes straight from the manifest, and a join honours a `..`/absolute component, so an
/// unchecked one would read an arbitrary file off disk.
pub fn local_filename(slug: &str, spec: &ModSpec) -> (r: Result<String, ResolveError>)
    ensures
        match r {
            Ok(filename) => local_fault(slug@, spec@) is None && project_id_of(spec@) == Some(
                filename@,
            ) && safe_name(filename@),
            Err(e) => local_fault(slug@, spec@) is Some && e.is_local_fault(
                local_fault(slug@, spec@)->0,
            ),
        },
{
    match spec.project_id() {
        None => Err(ResolveError::MissingPath(slug.to_owned())),
        Some(filename) => match safe_component(filename) {
            Ok(_) => Ok(filename.to_owned()),
            Err(fault) => Err(ResolveError::UnsafePath(slug.to_owned(), fault)),
        },
    }
}

impl Resolver {
    fn edges(&self, deps: &Vec<ResolvedDep>) -> (r: Vec<DepEdge>)
        ensures
            r.deep_view() == edges_in(self@.nodes, deps.deep_view()),
    {
        let ghost all = deps.deep_view();
        let ghost nodes = self@.nodes;
        let mut out: Vec<DepEdge> = Vec::new();
        let mut i: usize = 0;
        assert(out.deep_view() =~= edges_in(nodes, all.take(0)));
        while i < deps.len()
            invariant
                all == deps.deep_view(),
                nodes == self@.nodes,
                i <= deps@.len(),
                out.deep_view() == edges_in(nodes, all.take(i as int)),
            decreases deps.len() - i,
        {
            proof {
                assert(all[i as int] == deps@[i as int].deep_view());
                assert(all.take(i + 1).drop_last() =~= all.take(i as int));
                assert(all.take(i + 1).last() == all[i as int]);
            }
            // Record edges only for deps present in the graph, so every edge has a real slug.
            match self.position(deps[i].project_id.as_str()) {
                Some(k) => {
                    let ghost prior = out.deep_view();
                    assert(nodes[k as int] == self.nodes@[k as int].deep_view());
                    let edge = DepEdge {
                        slug: self.nodes[k].resolved.slug.clone(),
                        kind: deps[i].kind,
                    };
                    let ghost added = edge.deep_view();
                    out.push(edge);
                    assert(out.deep_view() =~= prior.push(added));
                },
                None => {},
            }
            i = i + 1;
        }
        assert(all.take(i as int) =~= all);
        out
    }

    /// The lock entries of the nodes, in the order of resolution.
    pub fn locked(&self) -> (r: Vec<LockedMod>)
        ensures
            r.deep_view() == locked_nodes(self@.nodes),
    {
        let ghost nodes = self@.nodes;
        let mut out: Vec<LockedMod> = Vec::new();
        let mut i: usize = 0;
        while i < self.nodes.len()
            invariant
                nodes == self@.nodes,
                i <= self.nodes@.len(),
                out.deep_view() == locked_nodes(nodes).take(i as int),
            decreases self.nodes.len() - i,
        {
            let node = &self.nodes[i];
            assert(nodes[i as int] == node.deep_view());
            // A CurseForge URL is never kept (its terms forbid it): the ids stand for it.
            let (url, mode) = if node.provider == Provider::Curseforge {
                (None, DownloadMode::MetadataCurseforge)
            } else {
                (copy_option(&node.resolved.url), DownloadMode::Url)
            };
            let entry = LockedMod {
                slug: node.resolved.slug.clone(),
                name: node.resolved.project_name.clone(),
                provider: node.provider,
                project_id: node.resolved.project_id.clone(),
                file_id: Some(node.resolved.file_id.clone()),
                version: node.resolved.version.clone(),
                filename: node.resolved.filename.clone(),
                download: Download {
                    url,
                    mode,
                    hash_format: node.resolved.hash_format.clone(),
                    hash: node.resolved.hash.clone(),
                    size: node.resolved.size,
                },
                side: node.side,
                optional: node.optional,
                dependencies: self.edges(&node.resolved.dependencies),
                requested_by: copy_strings(&node.requested_by),
            };
            assert(entry.deep_view() == locked_node(nodes, nodes[i as int]));
            let ghost added = entry.deep_view();
            let ghost prior = out.deep_view();
            out.push(entry);
            assert(out.deep_view() =~= prior.push(added));
            i = i + 1;
            assert(out.deep_view() =~= locked_nodes(nodes).take(i as int));
        }
        assert(locked_nodes(nodes).take(i as int) =~= locked_nodes(nodes));
        out
    }
}

fn local_locked(slug: &String, spec: &ModSpec, default_side: Side, jar: &Vec<u8>) -> (r: Result<
    LockedMod,
    ResolveError,
>)
    ensures
        match r {
            Ok(m) => local_fault(slug@, spec@) is None && m.deep_view() == local_entry(
                slug@,
                spec@,
                default_side,
                jar@,
            ),
            Err(e) => local_fault(slug@, spec@) is Some && e.is_local_fault(
                local_fault(slug@, spec@)->0,
            ),
        },
{
    match local_filename(slug.as_str(), spec) {
        Err(e) => Err(e),
        Ok(filename) => {
            let mut requested_by: Vec<String> = Vec::new();
            requested_by.push(ROOT_REQUESTER.to_owned());
            assert(requested_by.deep_view() =~= seq![ROOT_REQUESTER@]);
            let dependencies: Vec<DepEdge> = Vec::new();
            assert(dependencies.deep_view() =~= Seq::<DepEdgeView>::empty());
            Ok(
                LockedMod {
                    slug: slug.clone(),
                    name: slug.clone(),
                    provider: Provider::Local,
                    project_id: filename.clone(),
                    file_id: None,
                    version: "local".to_owned(),
                    filename,
                    download: Download {
                        url: None,
                        mode: DownloadMode::Url,
                        hash_format: "sha512".to_owned(),
                        hash: sha512_hex(jar.as_slice()),
                        size: Some(jar.len() as u64),
                    },
                    side: match spec.side() {
                        Some(side) => side,
                        None => default_side,
                    },
                    optional: spec.is_optional(),
                    dependencies,
                    requested_by,
                },
            )
        },
    }
}

/// Turn a finished resolution into a lockfile: every declared mod plus the transitive closure of its
/// required dependencies, then the locally-supplied jars, hashed. `jars` holds the contents of the
/// local jars in the order of the manifest. The freshly-resolved lock is guarded too, not just loaded
/// ones: a hostile provider response could carry a filename that escapes the instance dir once
/// written.
pub fn resolve(manifest: &Manifest, json: &str, resolver: &Resolver, jars: &Vec<Vec<u8>>) -> (r: Result<
    Lock,
    ResolveError,
>)
    requires
        resolver.valid(),
        resolver.finished(),
        jars@.len() == local_count(manifest@.mods),
    ensures
        match r {
            Ok(lock) => {
                &&& first_local_fault(manifest@.mods) is None
                &&& lock@ == lock_of(manifest@, json@, resolver@.nodes, jars.deep_view())
                &&& mods_safe(lock@.mods)
            },
            Err(ResolveError::UnsafeEntry(fault)) => {
                &&& first_local_fault(manifest@.mods) is None
                &&& is_first_fault(
                    lock_of(manifest@, json@, resolver@.nodes, jars.deep_view()).mods,
                    fault,
                )
            },
            Err(e) => first_local_fault(manifest@.mods) is Some && e.is_local_fault(
                first_local_fault(manifest@.mods)->0,
            ),
        },
{
    let ghost mods = manifest@.mods;
    let ghost contents = jars.deep_view();
    let ghost graph = locked_nodes(resolver@.nodes);
    let mut entries = resolver.locked();
    let mut used: usize = 0;
    let mut i: usize = 0;
    assert(entries.deep_view() =~= graph + local_entries(
        mods.take(0),
        manifest@.default_side,
        contents,
    ));
    assert(mods.take(mods.len() as int) =~= mods);
    while i < manifest.len()
        invariant
            mods == manifest@.mods,
            contents == jars.deep_view(),
            graph == locked_nodes(resolver@.nodes),
            jars@.len() == local_count(mods),
            i <= mods.len(),
            used == local_count(mods.take(i as int)),
            used == local_entries(mods.take(i as int), manifest@.default_side, contents).len(),
            first_local_fault(mods.take(i as int)) is None,
            entries.deep_view() == graph + local_entries(
                mods.take(i as int),
                manifest@.default_side,
                contents,
            ),
        decreases mods.len() - i,
    {
        let (slug, spec) = manifest.entry(i);
        proof {
            assert(mods.take(i + 1).drop_last() =~= mods.take(i as int));
            assert(mods.take(i + 1).last() == mods[i as int]);
        }
        if is_local_spec(spec) {
            proof {
                local_counts_grow(mods, i + 1);
            }
            assert(used < jars.len());
            assert(contents[used as int] == jars@[used as int].deep_view());
            assert(jars@[used as int].deep_view() =~= jars@[used as int]@);
            match local_locked(slug, spec, manifest.defaults.side, &jars[used]) {
                Ok(entry) => {
                    let ghost prior = entries.deep_view();
                    let ghost locals = local_entries(
                        mods.take(i as int),
                        manifest@.default_side,
                        contents,
                    );
                    let ghost added = entry.deep_view();
                    entries.push(entry);
                    proof {
                        assert(entries.deep_view() =~= prior.push(added));
                        assert(prior.push(added) =~= graph + locals.push(added));
                    }
                    used = used + 1;
                },
                Err(e) => {
                    proof {
                        first_fault_stays(mods, i + 1);
                    }
                    return Err(e);
                },
            }
        }
        i = i + 1;
    }
    let lock = Lock {
        lockfile_version: LOCKFILE_VERSION,
        manifest_hash: manifest_hash(json),
        loader: manifest.loader.clone(),
        resolver: ResolverMeta { lode_version: LODE_VERSION.to_owned() },
        mods: entries,
    };
    match lock.validate() {
        Ok(_) => Ok(lock),
        Err(fault) => Err(ResolveError::UnsafeEntry(fault)),
    }
}

proof fn local_counts_grow(mods: Seq<(Seq<char>, ModSpecView)>, n: int)
    requires
        0 <= n <= mods.len(),
    ensures
        local_count(mods.take(n)) <= local_count(mods),
    decreases mods.len() - n,
{
    if n < mods.len() {
        local_counts_grow(mods, n + 1);
        assert(mods.take(n + 1).drop_last() =~= mods.take(n));
    } else {
        assert(mods.take(n) =~= mods);
    }
}

proof fn first_fault_stays(mods: Seq<(Seq<char>, ModSpecView)>, n: int)
    requires
        0 <= n <= mods.len(),
        first_local_fault(mods.take(n)) is Some,
    ensures
        first_local_fault(mods) == first_local_fault(mods.take(n)),
    decreases mods.len() - n,
{
    if n < mods.len() {
        assert(mods.take(n + 1).drop_last() =~= mods.take(n));
        first_fault_stays(mods, n + 1);
    } else {
        assert(mods.take(n) =~= mods);
    }
}

// ---- laws -------------------------------------------------------------------------------------

/// The tasks are asked in order, one per answer: the next one is the first that has no answer, there is none
/// exactly where all have, and one that no provider can answer is an error.
pub proof fn tasks_are_asked_in_order(resolver: &Resolver, r: Result<Option<&Task>, ResolveError>)
    requires
        resolver.valid(),
        call_ensures(Resolver::next_task, (resolver,), r),
    ensures
        (r matches Ok(None)) <==> resolver.answered == resolver.tasks@.len(),
        r is Ok && r->Ok_0 is Some ==> {
            let next = resolver.tasks@[resolver.answered as int].deep_view();
            r->Ok_0->0.deep_view() == next && (next.provider == Provider::Modrinth || next.provider
                == Provider::Curseforge)
        },
        r is Err ==> {
            let next = resolver.tasks@[resolver.answered as int].deep_view();
            next.provider != Provider::Modrinth && next.provider != Provider::Curseforge
        },
{
    if resolver.answered < resolver.tasks@.len() {
        assert(resolver@.tasks[resolver.answered as int]
            == resolver.tasks@[resolver.answered as int].deep_view());
    }
}

/// What is resolved is a lock with safe names, of the manifest's loader and for its text; it is refused where
/// a local mod is, or where a name is not safe.
pub proof fn a_resolution_gives_a_safe_lock(
    manifest: &Manifest,
    json: &str,
    resolver: &Resolver,
    jars: &Vec<Vec<u8>>,
    r: Result<Lock, ResolveError>,
)
    requires
        resolver.valid(),
        resolver.finished(),
        jars@.len() == local_count(manifest@.mods),
        call_ensures(resolve, (manifest, json, resolver, jars), r),
    ensures
        ({
            let lock = lock_of(manifest@, json@, resolver@.nodes, jars.deep_view());
            &&& r matches Ok(made) ==> made@ == lock
            &&& r is Ok <==> first_local_fault(manifest@.mods) is None && forall|i: int|
                0 <= i < lock.mods.len() ==> safe_name((#[trigger] lock.mods[i]).slug) && safe_name(
                    lock.mods[i].filename,
                )
        }),
{
    let lock = lock_of(manifest@, json@, resolver@.nodes, jars.deep_view());
    match r {
        Ok(made) => {
            assert forall|i: int| 0 <= i < lock.mods.len() implies safe_name(
                (#[trigger] lock.mods[i]).slug,
            ) && safe_name(lock.mods[i].filename) by {
                assert(crate::lock::entry_safe(lock.mods[i]));
            }
        },
        Err(ResolveError::UnsafeEntry(fault)) => {
            let bad = lock.mods[fault.entry as int];
            assert(!safe_name(bad.slug) || !safe_name(bad.filename));
        },
        Err(_) => {},
    }
}

/// The digest of a manifest is the SHA-256 of its text, marked as one.
pub proof fn a_manifest_hash_is_its_digest(json: &str, bytes: &[u8], hash: String, hex: String)
    requires
        bytes@ == utf8(json@),
        call_ensures(manifest_hash, (json,), hash),
        call_ensures(sha256_hex, (bytes,), hex),
    ensures
        hash@ == "sha256:"@ + hex@,
        hex@.len() == 64,
{
}

} // verus!
