//! What a resolution guarantees of the graph it builds, whatever the providers answer.
use vstd::prelude::*;

use crate::hash::{hex_of, sha256_digest, sha512_digest};
use crate::lock::{name_fault, safe_name, DepEdgeView, DepKind, LockView, LockedModView};
use crate::manifest::{constraint_of, pinned, ManifestView, ModSpecView};
use crate::provider::{DownloadMode, Provider};
use crate::providers::{ResolvedDepView, ResolvedVersionView};
use crate::resolve::{
    after, dep_tasks, dependency_with, edges_in, first_local_fault, first_state, is_local,
    last_value, local_entries, lock_of, locked_nodes, node_from, policy_of, project_versions,
    root_task, root_tasks, slug_versions, step, LocalFault, ModeView, NodeView, PolicyView,
    StateView, ROOT_REQUESTER,
};
use crate::side::Side;
use crate::text::utf8;

verus! {

/// Each of the answers was given to a task that was open.
pub open spec fn in_turn(policy: PolicyView, s: StateView, answers: Seq<ResolvedVersionView>) -> bool
    decreases answers.len(),
{
    answers.len() > 0 ==> {
        let before = after(policy, s, answers.drop_last());
        in_turn(policy, s, answers.drop_last()) && before.answered < before.tasks.len()
    }
}

/// The state of a resolution of `mods` after `answers`.
pub open spec fn reached(
    policy: PolicyView,
    mods: Seq<(Seq<char>, ModSpecView)>,
    answers: Seq<ResolvedVersionView>,
) -> StateView {
    after(policy, first_state(policy, mods), answers)
}

/// The answers form a possible resolution of `mods`.
pub open spec fn resolution(
    policy: PolicyView,
    mods: Seq<(Seq<char>, ModSpecView)>,
    answers: Seq<ResolvedVersionView>,
) -> bool {
    in_turn(policy, first_state(policy, mods), answers)
}

/// No task is open.
pub open spec fn complete(s: StateView) -> bool {
    s.answered == s.tasks.len()
}

/// A provider that is asked for a dependency by its project id answers with that project.
pub open spec fn faithful(s: StateView, roots: nat, answers: Seq<ResolvedVersionView>) -> bool {
    forall|k: int|
        roots <= k < answers.len() ==> (#[trigger] answers[k]).project_id == s.tasks[k].id
}

/// Node `i` is what the answer to task `k` led to: it is of the answer's project, and the task's
/// requester is among those that requested it.
pub open spec fn accounts_for(
    s: StateView,
    answers: Seq<ResolvedVersionView>,
    k: int,
    i: int,
) -> bool {
    &&& 0 <= i < s.nodes.len()
    &&& s.nodes[i].resolved.project_id == answers[k].project_id
    &&& s.nodes[i].requested_by.contains(s.tasks[k].requester)
}

/// Task `k` asks for the dependency `d` of node `i`.
pub open spec fn asks_for(s: StateView, k: int, i: int, d: ResolvedDepView) -> bool {
    &&& 0 <= k < s.tasks.len()
    &&& s.tasks[k].id == d.project_id
    &&& s.tasks[k].requester == s.nodes[i].resolved.slug
    &&& s.tasks[k].provider == s.nodes[i].provider
}

/// Node `i` has a required dependency on the project.
pub open spec fn requires_project(node: NodeView, project_id: Seq<char>) -> bool {
    node.resolved.dependencies.contains(
        ResolvedDepView { project_id, kind: DepKind::Required },
    )
}

// ---- one step ---------------------------------------------------------------------------------

/// A found position holds a node of the project; none is found where no node is of the project.
pub proof fn node_found(nodes: Seq<NodeView>, project_id: Seq<char>, i: int)
    requires
        0 <= i <= nodes.len(),
    ensures
        match node_from(nodes, project_id, i) {
            Some(k) => i <= k < nodes.len() && nodes[k].resolved.project_id == project_id,
            None => forall|j: int|
                i <= j < nodes.len() ==> (#[trigger] nodes[j]).resolved.project_id != project_id,
        },
    decreases nodes.len() - i,
{
    if i < nodes.len() && nodes[i].resolved.project_id != project_id {
        node_found(nodes, project_id, i + 1);
    }
}

proof fn dep_tasks_ask(
    policy: PolicyView,
    deps: Seq<ResolvedDepView>,
    requester: Seq<char>,
    provider: crate::provider::Provider,
)
    ensures
        forall|t: int|
            0 <= t < dep_tasks(policy, deps, requester, provider).len() ==> {
                let task = #[trigger] dep_tasks(policy, deps, requester, provider)[t];
                &&& task.requester == requester
                &&& task.provider == provider
                &&& task.constraint == dependency_with(policy, task.id)
                &&& deps.contains(
                    ResolvedDepView { project_id: task.id, kind: DepKind::Required },
                )
            },
        forall|d: int|
            0 <= d < deps.len() && (#[trigger] deps[d]).kind == DepKind::Required ==> exists|t: int|
                0 <= t < dep_tasks(policy, deps, requester, provider).len() && (
                #[trigger] dep_tasks(policy, deps, requester, provider)[t]).id == deps[d].project_id,
    decreases deps.len(),
{
    if deps.len() > 0 {
        let head = deps.drop_last();
        let earlier = dep_tasks(policy, head, requester, provider);
        let all = dep_tasks(policy, deps, requester, provider);
        dep_tasks_ask(policy, head, requester, provider);
        assert forall|t: int| 0 <= t < all.len() implies {
            let task = #[trigger] all[t];
            &&& task.requester == requester
            &&& task.provider == provider
            &&& task.constraint == dependency_with(policy, task.id)
            &&& deps.contains(ResolvedDepView { project_id: task.id, kind: DepKind::Required })
        } by {
            let e = ResolvedDepView { project_id: all[t].id, kind: DepKind::Required };
            if t < earlier.len() {
                assert(all[t] == earlier[t]);
                let d = choose|d: int| 0 <= d < head.len() && head[d] == e;
                assert(deps[d] == e);
            } else {
                assert(deps[deps.len() - 1] == e);
            }
        }
        assert forall|d: int|
            0 <= d < deps.len() && (#[trigger] deps[d]).kind == DepKind::Required implies exists|
            t: int,
        |
            0 <= t < all.len() && (#[trigger] all[t]).id == deps[d].project_id by {
            if d < head.len() {
                assert(head[d] == deps[d]);
                let t = choose|t: int|
                    0 <= t < earlier.len() && (#[trigger] earlier[t]).id == head[d].project_id;
                assert(all[t].id == deps[d].project_id);
            } else {
                assert(all[all.len() - 1].id == deps[d].project_id);
            }
        }
    }
}

// ---- what holds after every answer --------------------------------------------------------------

/// The number of answered tasks is the number of answers, tasks never change once they are
/// queued, and the tasks of the declared mods come first.
pub proof fn tasks_stay(policy: PolicyView, s: StateView, answers: Seq<ResolvedVersionView>)
    requires
        in_turn(policy, s, answers),
        s.answered == 0,
    ensures
        after(policy, s, answers).answered == answers.len(),
        answers.len() <= after(policy, s, answers).tasks.len(),
        s.tasks.len() <= after(policy, s, answers).tasks.len(),
        forall|k: int|
            0 <= k < s.tasks.len() ==> #[trigger] after(policy, s, answers).tasks[k] == s.tasks[k],
    decreases answers.len(),
{
    if answers.len() > 0 {
        tasks_stay(policy, s, answers.drop_last());
    }
}

/// No project has two nodes.
pub open spec fn projects_differ(nodes: Seq<NodeView>) -> bool {
    forall|i: int, j: int|
        0 <= i < j < nodes.len() ==> (#[trigger] nodes[i]).resolved.project_id != (
        #[trigger] nodes[j]).resolved.project_id
}

proof fn projects_stay_different(policy: PolicyView, s: StateView, answers: Seq<ResolvedVersionView>)
    requires
        projects_differ(s.nodes),
    ensures
        projects_differ(after(policy, s, answers).nodes),
    decreases answers.len(),
{
    if answers.len() > 0 {
        projects_stay_different(policy, s, answers.drop_last());
        let before = after(policy, s, answers.drop_last());
        node_found(before.nodes, answers.last().project_id, 0);
    }
}

/// Whoever requested a node is recorded once, and every node was requested by someone.
pub open spec fn requesters_sound(nodes: Seq<NodeView>) -> bool {
    forall|i: int|
        0 <= i < nodes.len() ==> (#[trigger] nodes[i]).requested_by.len() > 0
            && nodes[i].requested_by.no_duplicates()
}

proof fn requesters_stay_sound(policy: PolicyView, s: StateView, answers: Seq<ResolvedVersionView>)
    requires
        requesters_sound(s.nodes),
    ensures
        requesters_sound(after(policy, s, answers).nodes),
    decreases answers.len(),
{
    if answers.len() > 0 {
        requesters_stay_sound(policy, s, answers.drop_last());
        let before = after(policy, s, answers.drop_last());
        let now = after(policy, s, answers);
        node_found(before.nodes, answers.last().project_id, 0);
        assert forall|i: int| 0 <= i < now.nodes.len() implies (
        #[trigger] now.nodes[i]).requested_by.len() > 0 && now.nodes[i].requested_by.no_duplicates() by {
            match node_from(before.nodes, answers.last().project_id, 0) {
                Some(k) => {
                    if i == k {
                        let requester = before.tasks[before.answered].requester;
                        let old_list = before.nodes[k].requested_by;
                        let new_list = now.nodes[k].requested_by;
                        assert(before.nodes[k].requested_by.len() > 0);
                        if !old_list.contains(requester) {
                            assert(new_list == old_list.push(requester));
                            assert forall|a: int, b: int|
                                0 <= a < new_list.len() && 0 <= b < new_list.len() && a
                                    != b implies new_list[a] != new_list[b] by {
                                if a < old_list.len() && b < old_list.len() {
                                    assert(old_list[a] != old_list[b]);
                                } else if a < old_list.len() {
                                    assert(old_list.contains(old_list[a]));
                                } else {
                                    assert(old_list.contains(old_list[b]));
                                }
                            }
                        }
                    } else {
                        assert(now.nodes[i] == before.nodes[i]);
                    }
                },
                None => {
                    if i < before.nodes.len() {
                        assert(now.nodes[i] == before.nodes[i]);
                    }
                },
            }
        }
    }
}

/// Every answer has left its mark: the node of its project records the requester of its task.
pub proof fn every_answer_is_accounted_for(
    policy: PolicyView,
    s: StateView,
    answers: Seq<ResolvedVersionView>,
    k: int,
)
    requires
        in_turn(policy, s, answers),
        s.answered == 0,
        0 <= k < answers.len(),
    ensures
        exists|i: int| accounts_for(after(policy, s, answers), answers, k, i),
    decreases answers.len(),
{
    let head = answers.drop_last();
    let before = after(policy, s, head);
    let now = after(policy, s, answers);
    tasks_stay(policy, s, head);
    tasks_stay(policy, s, answers);
    node_found(before.nodes, answers.last().project_id, 0);
    assert(now.tasks[k] == before.tasks[k]);
    if k == answers.len() - 1 {
        match node_from(before.nodes, answers.last().project_id, 0) {
            Some(i) => {
                let requester = before.tasks[before.answered].requester;
                let old_list = before.nodes[i].requested_by;
                if !old_list.contains(requester) {
                    assert(now.nodes[i].requested_by[old_list.len() as int] == requester);
                }
                assert(accounts_for(now, answers, k, i));
            },
            None => {
                let i = before.nodes.len() as int;
                assert(now.nodes[i].requested_by[0] == now.tasks[k].requester);
                assert(accounts_for(now, answers, k, i));
            },
        }
    } else {
        every_answer_is_accounted_for(policy, s, head, k);
        assert(head[k] == answers[k]);
        let i = choose|i: int| accounts_for(before, head, k, i);
        match node_from(before.nodes, answers.last().project_id, 0) {
            Some(j) => {
                if i == j {
                    let list = before.nodes[i].requested_by;
                    let m = choose|m: int|
                        0 <= m < list.len() && list[m] == before.tasks[k].requester;
                    assert(now.nodes[i].requested_by[m] == before.tasks[k].requester);
                }
            },
            None => {},
        }
        assert(accounts_for(now, answers, k, i));
    }
}

/// Every required dependency of every node has been asked for, in the name of that node.
pub proof fn every_dependency_is_asked_for(
    policy: PolicyView,
    s: StateView,
    answers: Seq<ResolvedVersionView>,
    i: int,
    d: ResolvedDepView,
)
    requires
        in_turn(policy, s, answers),
        s.answered == 0,
        s.nodes.len() == 0,
        0 <= i < after(policy, s, answers).nodes.len(),
        d.kind == DepKind::Required,
        after(policy, s, answers).nodes[i].resolved.dependencies.contains(d),
    ensures
        exists|k: int|
            s.tasks.len() <= k && #[trigger] asks_for(after(policy, s, answers), k, i, d),
    decreases answers.len(),
{
    let now = after(policy, s, answers);
    if answers.len() > 0 {
        let head = answers.drop_last();
        let before = after(policy, s, head);
        tasks_stay(policy, s, head);
        node_found(before.nodes, answers.last().project_id, 0);
        if i < before.nodes.len() {
            assert(now.nodes[i].resolved == before.nodes[i].resolved);
            assert(now.nodes[i].provider == before.nodes[i].provider);
            every_dependency_is_asked_for(policy, s, head, i, d);
            let k = choose|k: int| s.tasks.len() <= k && #[trigger] asks_for(before, k, i, d);
            assert(now.tasks[k] == before.tasks[k]);
            assert(asks_for(now, k, i, d));
        } else {
            let answer = answers.last();
            let provider = before.tasks[before.answered].provider;
            let queued = dep_tasks(policy, answer.dependencies, answer.slug, provider);
            dep_tasks_ask(policy, answer.dependencies, answer.slug, provider);
            let e = choose|e: int|
                0 <= e < answer.dependencies.len() && answer.dependencies[e] == d;
            let t = choose|t: int|
                0 <= t < queued.len() && (#[trigger] queued[t]).id == answer.dependencies[e].project_id;
            let k = before.tasks.len() + t;
            assert(now.tasks[k] == queued[t]);
            assert(asks_for(now, k, i, d));
        }
    }
}

/// Every task is either one of the declared mods, or asks for a required dependency of a node, in
/// the name of that node and of its provider, and with the policy's constraint.
pub proof fn every_task_has_a_reason(
    policy: PolicyView,
    s: StateView,
    answers: Seq<ResolvedVersionView>,
    k: int,
)
    requires
        in_turn(policy, s, answers),
        s.answered == 0,
        s.nodes.len() == 0,
        s.tasks.len() <= k < after(policy, s, answers).tasks.len(),
    ensures
        ({
            let now = after(policy, s, answers);
            &&& now.tasks[k].constraint == dependency_with(policy, now.tasks[k].id)
            &&& exists|i: int|
                0 <= i < now.nodes.len() && (#[trigger] now.nodes[i]).resolved.slug
                    == now.tasks[k].requester && requires_project(now.nodes[i], now.tasks[k].id)
        }),
    decreases answers.len(),
{
    let now = after(policy, s, answers);
    if answers.len() > 0 {
        let head = answers.drop_last();
        let before = after(policy, s, head);
        node_found(before.nodes, answers.last().project_id, 0);
        if k < before.tasks.len() {
            every_task_has_a_reason(policy, s, head, k);
            assert(now.tasks[k] == before.tasks[k]);
            let i = choose|i: int|
                0 <= i < before.nodes.len() && (#[trigger] before.nodes[i]).resolved.slug
                    == before.tasks[k].requester && requires_project(
                    before.nodes[i],
                    before.tasks[k].id,
                );
            assert(now.nodes[i].resolved == before.nodes[i].resolved);
        } else {
            let answer = answers.last();
            let provider = before.tasks[before.answered].provider;
            let queued = dep_tasks(policy, answer.dependencies, answer.slug, provider);
            dep_tasks_ask(policy, answer.dependencies, answer.slug, provider);
            let t = k - before.tasks.len();
            assert(now.tasks[k] == queued[t]);
            let i = before.nodes.len() as int;
            assert(now.nodes[i].resolved == answer);
        }
    }
}

/// Every recorded requester of a node is the requester of a task whose answer was of the node's
/// project.
pub proof fn every_requester_asked(
    policy: PolicyView,
    s: StateView,
    answers: Seq<ResolvedVersionView>,
    i: int,
    requester: Seq<char>,
)
    requires
        in_turn(policy, s, answers),
        s.answered == 0,
        s.nodes.len() == 0,
        0 <= i < after(policy, s, answers).nodes.len(),
        after(policy, s, answers).nodes[i].requested_by.contains(requester),
    ensures
        exists|k: int|
            0 <= k < answers.len() && (#[trigger] answers[k]).project_id == after(
                policy,
                s,
                answers,
            ).nodes[i].resolved.project_id && after(policy, s, answers).tasks[k].requester
                == requester,
    decreases answers.len(),
{
    let now = after(policy, s, answers);
    if answers.len() > 0 {
        let head = answers.drop_last();
        let before = after(policy, s, head);
        tasks_stay(policy, s, head);
        tasks_stay(policy, s, answers);
        node_found(before.nodes, answers.last().project_id, 0);
        let last = answers.len() - 1;
        if i < before.nodes.len() {
            assert(now.nodes[i].resolved == before.nodes[i].resolved);
            if before.nodes[i].requested_by.contains(requester) {
                every_requester_asked(policy, s, head, i, requester);
                let k = choose|k: int|
                    0 <= k < head.len() && (#[trigger] head[k]).project_id
                        == before.nodes[i].resolved.project_id && before.tasks[k].requester
                        == requester;
                assert(answers[k] == head[k]);
                assert(now.tasks[k] == before.tasks[k]);
            } else {
                assert(answers[last].project_id == now.nodes[i].resolved.project_id);
                assert(now.tasks[last].requester == requester) by {
                    let old_list = before.nodes[i].requested_by;
                    let new_list = now.nodes[i].requested_by;
                    let m = choose|m: int| 0 <= m < new_list.len() && new_list[m] == requester;
                    if m < old_list.len() {
                        assert(old_list[m] == requester);
                    }
                }
            }
        } else {
            assert(now.nodes[i].requested_by[0] == now.tasks[last].requester);
            assert(answers[last].project_id == now.nodes[i].resolved.project_id);
        }
    }
}

// ---- the laws ---------------------------------------------------------------------------------

/// However often a project is asked for, it has one node; each node was requested by someone, and
/// records no requester twice.
pub proof fn graph_is_deduplicated(
    policy: PolicyView,
    mods: Seq<(Seq<char>, ModSpecView)>,
    answers: Seq<ResolvedVersionView>,
)
    ensures
        projects_differ(reached(policy, mods, answers).nodes),
        requesters_sound(reached(policy, mods, answers).nodes),
{
    projects_stay_different(policy, first_state(policy, mods), answers);
    requesters_stay_sound(policy, first_state(policy, mods), answers);
}

/// A complete graph holds the answer for every declared mod, marked as requested by the manifest.
pub proof fn declared_mods_are_in_the_graph(
    policy: PolicyView,
    mods: Seq<(Seq<char>, ModSpecView)>,
    answers: Seq<ResolvedVersionView>,
    k: int,
)
    requires
        resolution(policy, mods, answers),
        complete(reached(policy, mods, answers)),
        0 <= k < root_tasks(policy, mods).len(),
    ensures
        k < answers.len(),
        exists|i: int|
            0 <= i < reached(policy, mods, answers).nodes.len() && (#[trigger] reached(
                policy,
                mods,
                answers,
            ).nodes[i]).resolved.project_id == answers[k].project_id && reached(
                policy,
                mods,
                answers,
            ).nodes[i].requested_by.contains(ROOT_REQUESTER@),
{
    let s = first_state(policy, mods);
    let now = reached(policy, mods, answers);
    tasks_stay(policy, s, answers);
    every_answer_is_accounted_for(policy, s, answers, k);
    roots_are_requested_by_the_manifest(policy, mods, k);
    let i = choose|i: int| accounts_for(now, answers, k, i);
    assert(now.nodes[i].requested_by.contains(ROOT_REQUESTER@));
}

proof fn roots_are_requested_by_the_manifest(
    policy: PolicyView,
    mods: Seq<(Seq<char>, ModSpecView)>,
    k: int,
)
    requires
        0 <= k < root_tasks(policy, mods).len(),
    ensures
        root_tasks(policy, mods)[k].requester == ROOT_REQUESTER@,
        exists|m: int|
            0 <= m < mods.len() && !is_local((#[trigger] mods[m]).1) && root_tasks(policy, mods)[k]
                == root_task(policy, mods[m].0, mods[m].1),
    decreases mods.len(),
{
    let head = mods.drop_last();
    let earlier = root_tasks(policy, head);
    if k < earlier.len() {
        roots_are_requested_by_the_manifest(policy, head, k);
        let m = choose|m: int|
            0 <= m < head.len() && !is_local((#[trigger] head[m]).1) && earlier[k] == root_task(
                policy,
                head[m].0,
                head[m].1,
            );
        assert(mods[m] == head[m]);
    } else {
        assert(!is_local(mods[mods.len() - 1].1));
    }
}

/// A complete graph is closed under required dependencies: where a dependency that is asked for
/// by its project id is answered with that project, it is a node, and the node records the mod
/// that required it.
pub proof fn graph_is_closed_under_required_dependencies(
    policy: PolicyView,
    mods: Seq<(Seq<char>, ModSpecView)>,
    answers: Seq<ResolvedVersionView>,
    i: int,
    d: ResolvedDepView,
)
    requires
        resolution(policy, mods, answers),
        complete(reached(policy, mods, answers)),
        faithful(reached(policy, mods, answers), root_tasks(policy, mods).len(), answers),
        0 <= i < reached(policy, mods, answers).nodes.len(),
        d.kind == DepKind::Required,
        reached(policy, mods, answers).nodes[i].resolved.dependencies.contains(d),
    ensures
        exists|j: int|
            0 <= j < reached(policy, mods, answers).nodes.len() && (#[trigger] reached(
                policy,
                mods,
                answers,
            ).nodes[j]).resolved.project_id == d.project_id && reached(
                policy,
                mods,
                answers,
            ).nodes[j].requested_by.contains(
                reached(policy, mods, answers).nodes[i].resolved.slug,
            ),
{
    let s = first_state(policy, mods);
    let now = reached(policy, mods, answers);
    tasks_stay(policy, s, answers);
    every_dependency_is_asked_for(policy, s, answers, i, d);
    let k = choose|k: int| s.tasks.len() <= k && #[trigger] asks_for(now, k, i, d);
    every_answer_is_accounted_for(policy, s, answers, k);
    let j = choose|j: int| accounts_for(now, answers, k, j);
    assert(answers[k].project_id == now.tasks[k].id);
    assert(now.nodes[j].resolved.project_id == d.project_id);
}

/// Nothing is in the graph without a reason: whoever is recorded as a requester of a node is the
/// manifest, or a mod of the graph that requires the node's project. A mod that nothing declares
/// or requires any more is therefore gone after the next resolution.
pub proof fn every_node_has_a_reason(
    policy: PolicyView,
    mods: Seq<(Seq<char>, ModSpecView)>,
    answers: Seq<ResolvedVersionView>,
    i: int,
    requester: Seq<char>,
)
    requires
        resolution(policy, mods, answers),
        faithful(reached(policy, mods, answers), root_tasks(policy, mods).len(), answers),
        0 <= i < reached(policy, mods, answers).nodes.len(),
        reached(policy, mods, answers).nodes[i].requested_by.contains(requester),
    ensures
        requester == ROOT_REQUESTER@ || exists|j: int|
            0 <= j < reached(policy, mods, answers).nodes.len() && (#[trigger] reached(
                policy,
                mods,
                answers,
            ).nodes[j]).resolved.slug == requester && requires_project(
                reached(policy, mods, answers).nodes[j],
                reached(policy, mods, answers).nodes[i].resolved.project_id,
            ),
{
    let s = first_state(policy, mods);
    let now = reached(policy, mods, answers);
    tasks_stay(policy, s, answers);
    every_requester_asked(policy, s, answers, i, requester);
    let k = choose|k: int|
        0 <= k < answers.len() && (#[trigger] answers[k]).project_id
            == now.nodes[i].resolved.project_id && now.tasks[k].requester == requester;
    if k < s.tasks.len() {
        roots_are_requested_by_the_manifest(policy, mods, k);
    } else {
        every_task_has_a_reason(policy, s, answers, k);
        assert(answers[k].project_id == now.tasks[k].id);
    }
}

/// Every node can be traced back to the manifest: the first to request it is the manifest, or a mod
/// that was resolved before it, which can be traced back in turn.
pub proof fn every_node_leads_back_to_the_manifest(
    policy: PolicyView,
    mods: Seq<(Seq<char>, ModSpecView)>,
    answers: Seq<ResolvedVersionView>,
    i: int,
)
    requires
        resolution(policy, mods, answers),
        0 <= i < reached(policy, mods, answers).nodes.len(),
    ensures
        reached(policy, mods, answers).nodes[i].requested_by.len() > 0,
        reached(policy, mods, answers).nodes[i].requested_by[0] == ROOT_REQUESTER@ || exists|j: int|
            0 <= j < i && (#[trigger] reached(policy, mods, answers).nodes[j]).resolved.slug
                == reached(policy, mods, answers).nodes[i].requested_by[0],
    decreases answers.len(),
{
    let s = first_state(policy, mods);
    let now = reached(policy, mods, answers);
    if answers.len() > 0 {
        let head = answers.drop_last();
        let before = reached(policy, mods, head);
        tasks_stay(policy, s, head);
        node_found(before.nodes, answers.last().project_id, 0);
        if i < before.nodes.len() {
            every_node_leads_back_to_the_manifest(policy, mods, head, i);
            assert(now.nodes[i].requested_by[0] == before.nodes[i].requested_by[0]);
            if before.nodes[i].requested_by[0] != ROOT_REQUESTER@ {
                let j = choose|j: int|
                    0 <= j < i && (#[trigger] before.nodes[j]).resolved.slug
                        == before.nodes[i].requested_by[0];
                assert(now.nodes[j].resolved == before.nodes[j].resolved);
            }
        } else {
            let k = before.answered;
            if k < s.tasks.len() {
                roots_are_requested_by_the_manifest(policy, mods, k);
                assert(before.tasks[k] == s.tasks[k]);
            } else {
                every_task_has_a_reason(policy, s, head, k);
                let j = choose|j: int|
                    0 <= j < before.nodes.len() && (#[trigger] before.nodes[j]).resolved.slug
                        == before.tasks[k].requester && requires_project(
                        before.nodes[j],
                        before.tasks[k].id,
                    );
                assert(now.nodes[j].resolved == before.nodes[j].resolved);
            }
        }
    }
}

/// Every dependency edge of a lock entry names the slug of an entry of the same lock.
pub proof fn every_edge_has_a_real_slug(nodes: Seq<NodeView>, i: int, e: int)
    requires
        0 <= i < nodes.len(),
        0 <= e < locked_nodes(nodes)[i].dependencies.len(),
    ensures
        exists|j: int|
            0 <= j < nodes.len() && (#[trigger] locked_nodes(nodes)[j]).slug == locked_nodes(
                nodes,
            )[i].dependencies[e].slug,
{
    edges_name_nodes(nodes, nodes[i].resolved.dependencies, e);
    let j = choose|j: int|
        0 <= j < nodes.len() && (#[trigger] nodes[j]).resolved.slug == edges_in(
            nodes,
            nodes[i].resolved.dependencies,
        )[e].slug;
    assert(locked_nodes(nodes)[j].slug == nodes[j].resolved.slug);
}

proof fn edges_name_nodes(nodes: Seq<NodeView>, deps: Seq<ResolvedDepView>, e: int)
    requires
        0 <= e < edges_in(nodes, deps).len(),
    ensures
        exists|j: int|
            0 <= j < nodes.len() && (#[trigger] nodes[j]).resolved.slug == edges_in(
                nodes,
                deps,
            )[e].slug,
    decreases deps.len(),
{
    let head = deps.drop_last();
    let earlier = edges_in(nodes, head);
    if e < earlier.len() {
        edges_name_nodes(nodes, head, e);
    } else {
        node_found(nodes, deps.last().project_id, 0);
    }
}

/// A CurseForge file is locked without a URL, in the mode in which its ids stand for it.
pub proof fn curseforge_files_are_locked_by_their_ids(
    manifest: ManifestView,
    json: Seq<char>,
    nodes: Seq<NodeView>,
    jars: Seq<Seq<u8>>,
    i: int,
)
    requires
        0 <= i < lock_of(manifest, json, nodes, jars).mods.len(),
        lock_of(manifest, json, nodes, jars).mods[i].provider == Provider::Curseforge,
    ensures
        lock_of(manifest, json, nodes, jars).mods[i].download.url is None,
        lock_of(manifest, json, nodes, jars).mods[i].download.mode
            == DownloadMode::MetadataCurseforge,
{
    let graph = locked_nodes(nodes);
    if i >= graph.len() {
        local_entries_are_local(manifest.mods, manifest.default_side, jars, i - graph.len());
    }
}

proof fn local_entries_are_local(
    mods: Seq<(Seq<char>, ModSpecView)>,
    default_side: Side,
    jars: Seq<Seq<u8>>,
    k: int,
)
    requires
        0 <= k < local_entries(mods, default_side, jars).len(),
    ensures
        local_entries(mods, default_side, jars)[k].provider == Provider::Local,
    decreases mods.len(),
{
    if mods.len() > 0 {
        let head = mods.drop_last();
        if k < local_entries(head, default_side, jars).len() {
            local_entries_are_local(head, default_side, jars, k);
        }
    }
}

/// A dependency on a project that is in the graph is an edge of the lock entry, with its kind.
pub proof fn dependencies_in_the_graph_become_edges(
    nodes: Seq<NodeView>,
    deps: Seq<ResolvedDepView>,
    d: int,
    j: int,
)
    requires
        projects_differ(nodes),
        0 <= d < deps.len(),
        0 <= j < nodes.len(),
        nodes[j].resolved.project_id == deps[d].project_id,
    ensures
        edges_in(nodes, deps).contains(
            DepEdgeView { slug: nodes[j].resolved.slug, kind: deps[d].kind },
        ),
    decreases deps.len(),
{
    let head = deps.drop_last();
    let earlier = edges_in(nodes, head);
    let all = edges_in(nodes, deps);
    let edge = DepEdgeView { slug: nodes[j].resolved.slug, kind: deps[d].kind };
    node_found(nodes, deps.last().project_id, 0);
    if d < head.len() {
        assert(head[d] == deps[d]);
        dependencies_in_the_graph_become_edges(nodes, head, d, j);
        let e = choose|e: int| 0 <= e < earlier.len() && earlier[e] == edge;
        assert(all[e] == edge);
    } else {
        let k = node_from(nodes, deps.last().project_id, 0)->0;
        if k < j {
            assert(nodes[k].resolved.project_id != nodes[j].resolved.project_id);
        } else if j < k {
            assert(nodes[j].resolved.project_id != nodes[k].resolved.project_id);
        }
        assert(all[all.len() - 1] == edge);
    }
}

// ---- versions ---------------------------------------------------------------------------------

/// An update of everything.
pub open spec fn full_update(mode: ModeView) -> bool {
    mode == (ModeView::Update { only: None })
}

/// An update of the mod with this slug alone.
pub open spec fn update_of(mode: ModeView, slug: Seq<char>) -> bool {
    mode == (ModeView::Update { only: Some(slug) })
}

/// Outside an update, a declared mod that the previous lock holds is asked for in its locked
/// version; so is a pinned mod in any mode; and an update of one mod leaves every other mod's
/// version alone.
pub proof fn locked_versions_are_kept(
    lock: LockView,
    mode: ModeView,
    slug: Seq<char>,
    spec: ModSpecView,
    version: Seq<char>,
)
    requires
        last_value(slug_versions(lock.mods), slug) == Some(version),
        mode == ModeView::Locked || pinned(spec) || (!full_update(mode) && !update_of(mode, slug)),
    ensures
        root_task(policy_of(Some(lock), mode), slug, spec).constraint == version,
{
}

/// A mod that the previous lock does not hold, and an unpinned mod that an update means, is asked
/// for by the manifest's own constraint.
pub proof fn new_and_updated_mods_follow_the_manifest(
    policy: PolicyView,
    slug: Seq<char>,
    spec: ModSpecView,
)
    requires
        last_value(policy.by_slug, slug) is None || (!pinned(spec) && (full_update(policy.mode)
            || update_of(policy.mode, slug))),
    ensures
        root_task(policy, slug, spec).constraint == constraint_of(spec),
{
}

/// A dependency keeps its locked version in every mode but a full update, which asks for the
/// latest.
pub proof fn dependencies_freeze_outside_a_full_update(policy: PolicyView, project_id: Seq<char>)
    ensures
        full_update(policy.mode) ==> dependency_with(policy, project_id) == "*"@,
        !full_update(policy.mode) ==> dependency_with(policy, project_id) == (
        match last_value(policy.by_project, project_id) {
            Some(version) => version,
            None => "*"@,
        }),
{
}

/// The version that counts for a slug of the previous lock is that of its last entry.
pub proof fn last_entry_counts(mods: Seq<LockedModView>, slug: Seq<char>, i: int)
    requires
        0 <= i < mods.len(),
        mods[i].slug == slug,
        forall|j: int| i < j < mods.len() ==> (#[trigger] mods[j]).slug != slug,
    ensures
        last_value(slug_versions(mods), slug) == Some(mods[i].version),
    decreases mods.len(),
{
    let pairs = slug_versions(mods);
    assert(pairs.drop_last() =~= slug_versions(mods.drop_last()));
    if i < mods.len() - 1 {
        assert(mods[mods.len() - 1].slug != slug);
        last_entry_counts(mods.drop_last(), slug, i);
    }
}

// ---- what is recorded -------------------------------------------------------------------------

/// The answer `k` is the one that made the node `i`: the node holds it, and no earlier answer was of
/// the same project.
pub open spec fn made_by(s: StateView, answers: Seq<ResolvedVersionView>, i: int, k: int) -> bool {
    &&& 0 <= k < answers.len()
    &&& k < s.tasks.len()
    &&& s.nodes[i].resolved == answers[k]
    &&& forall|j: int| 0 <= j < k ==> (#[trigger] answers[j]).project_id != answers[k].project_id
}

/// A node holds the first answer of its project. Its side is what the task overrides, or else what the
/// provider answered; whether it is optional, its provider and its first requester are the task's.
pub proof fn nodes_hold_their_answers(
    policy: PolicyView,
    s: StateView,
    answers: Seq<ResolvedVersionView>,
    i: int,
)
    requires
        in_turn(policy, s, answers),
        s.answered == 0,
        s.nodes.len() == 0,
        0 <= i < after(policy, s, answers).nodes.len(),
    ensures
        ({
            let now = after(policy, s, answers);
            exists|k: int|
                {
                    &&& #[trigger] made_by(now, answers, i, k)
                    &&& now.tasks[k].side_override matches Some(side) ==> now.nodes[i].side == side
                    &&& now.tasks[k].side_override is None ==> now.nodes[i].side == answers[k].side
                    &&& now.nodes[i].optional == now.tasks[k].optional
                    &&& now.nodes[i].provider == now.tasks[k].provider
                    &&& now.nodes[i].requested_by.len() > 0
                    &&& now.nodes[i].requested_by[0] == now.tasks[k].requester
                }
        }),
    decreases answers.len(),
{
    let head = answers.drop_last();
    let before = after(policy, s, head);
    let now = after(policy, s, answers);
    if answers.len() > 0 {
        tasks_stay(policy, s, head);
        node_found(before.nodes, answers.last().project_id, 0);
        if i < before.nodes.len() {
            nodes_hold_their_answers(policy, s, head, i);
            let k = choose|k: int|
                {
                    &&& #[trigger] made_by(before, head, i, k)
                    &&& before.tasks[k].side_override matches Some(side) ==> before.nodes[i].side
                        == side
                    &&& before.tasks[k].side_override is None ==> before.nodes[i].side
                        == head[k].side
                    &&& before.nodes[i].optional == before.tasks[k].optional
                    &&& before.nodes[i].provider == before.tasks[k].provider
                    &&& before.nodes[i].requested_by.len() > 0
                    &&& before.nodes[i].requested_by[0] == before.tasks[k].requester
                };
            assert(now.tasks[k] == before.tasks[k]);
            assert(forall|j: int| 0 <= j <= k ==> head[j] == #[trigger] answers[j]);
            assert(made_by(now, answers, i, k));
        } else {
            let k = answers.len() - 1;
            assert forall|j: int| 0 <= j < k implies (#[trigger] answers[j]).project_id
                != answers[k].project_id by {
                every_answer_is_accounted_for(policy, s, head, j);
                let n = choose|n: int| accounts_for(before, head, j, n);
                assert(before.nodes[n].resolved.project_id == head[j].project_id);
            }
            assert(now.tasks[k] == before.tasks[k]);
            assert(made_by(now, answers, i, k));
        }
    }
}

/// The lock has one entry per node, in the order of the nodes. Each records the answer that made its
/// node: the project, the version and the file with its hash as the provider gave them, and the side
/// that the manifest overrides or else that of the provider. A file is locked by its URL, except that
/// one of CurseForge has none.
pub proof fn the_lock_records_what_was_answered(
    policy: PolicyView,
    manifest: ManifestView,
    json: Seq<char>,
    answers: Seq<ResolvedVersionView>,
    jars: Seq<Seq<u8>>,
    i: int,
)
    requires
        resolution(policy, manifest.mods, answers),
        0 <= i < reached(policy, manifest.mods, answers).nodes.len(),
    ensures
        ({
            let s = reached(policy, manifest.mods, answers);
            let lock = lock_of(manifest, json, s.nodes, jars);
            let m = lock.mods[i];
            &&& s.nodes.len() <= lock.mods.len()
            &&& exists|k: int|
                {
                    let a = answers[k];
                    let t = s.tasks[k];
                    &&& #[trigger] made_by(s, answers, i, k)
                    &&& m.slug == a.slug && m.name == a.project_name && m.project_id == a.project_id
                    &&& m.file_id == Some(a.file_id) && m.version == a.version
                    &&& m.filename == a.filename && m.download.hash_format == a.hash_format
                    &&& m.download.hash == a.hash && m.download.size == a.size
                    &&& t.side_override matches Some(side) ==> m.side == side
                    &&& t.side_override is None ==> m.side == a.side
                    &&& m.optional == t.optional && m.provider == t.provider
                    &&& m.requested_by == s.nodes[i].requested_by
                    &&& t.provider != Provider::Curseforge ==> m.download.url == a.url
                        && m.download.mode == DownloadMode::Url
                    &&& t.provider == Provider::Curseforge ==> m.download.url is None
                        && m.download.mode == DownloadMode::MetadataCurseforge
                }
        }),
{
    let s = reached(policy, manifest.mods, answers);
    let lock = lock_of(manifest, json, s.nodes, jars);
    nodes_hold_their_answers(policy, first_state(policy, manifest.mods), answers, i);
    let k = choose|k: int|
        {
            &&& #[trigger] made_by(s, answers, i, k)
            &&& s.tasks[k].side_override matches Some(side) ==> s.nodes[i].side == side
            &&& s.tasks[k].side_override is None ==> s.nodes[i].side == answers[k].side
            &&& s.nodes[i].optional == s.tasks[k].optional
            &&& s.nodes[i].provider == s.tasks[k].provider
        };
    assert(lock.mods[i] == locked_nodes(s.nodes)[i]);
    assert(made_by(s, answers, i, k));
}

/// The lock is for the manifest's loader and carries the digest of the manifest's text, so it is stale
/// as soon as that digest changes.
pub proof fn the_lock_is_for_its_manifest(
    manifest: ManifestView,
    json: Seq<char>,
    nodes: Seq<NodeView>,
    jars: Seq<Seq<u8>>,
)
    ensures
        lock_of(manifest, json, nodes, jars).lockfile_version == 1,
        lock_of(manifest, json, nodes, jars).loader == manifest.loader,
        lock_of(manifest, json, nodes, jars).manifest_hash == "sha256:"@ + hex_of(
            sha256_digest(utf8(json)),
        ),
{
}

/// Answers only add to the graph: what a node holds is never changed by a later answer, apart from who
/// requested it, and an answer of a new project becomes the last node.
pub proof fn answers_only_add(policy: PolicyView, s: StateView, answer: ResolvedVersionView)
    requires
        0 <= s.answered < s.tasks.len(),
    ensures
        ({
            let now = step(policy, s, answer);
            let known = exists|i: int|
                0 <= i < s.nodes.len() && (#[trigger] s.nodes[i]).resolved.project_id
                    == answer.project_id;
            &&& now.answered == s.answered + 1
            &&& forall|i: int|
                0 <= i < s.nodes.len() ==> {
                    &&& (#[trigger] now.nodes[i]).resolved == s.nodes[i].resolved
                    &&& now.nodes[i].side == s.nodes[i].side
                    &&& now.nodes[i].optional == s.nodes[i].optional
                    &&& now.nodes[i].provider == s.nodes[i].provider
                    &&& s.nodes[i].requested_by.is_prefix_of(now.nodes[i].requested_by)
                    &&& now.nodes[i].requested_by.len() <= s.nodes[i].requested_by.len() + 1
                }
            &&& known ==> now.nodes.len() == s.nodes.len() && now.tasks == s.tasks
            &&& !known ==> now.nodes.len() == s.nodes.len() + 1 && now.nodes.last().resolved
                == answer && now.nodes.last().requested_by == seq![s.tasks[s.answered].requester]
        }),
{
    node_found(s.nodes, answer.project_id, 0);
    let now = step(policy, s, answer);
    assert forall|i: int| 0 <= i < s.nodes.len() implies s.nodes[i].requested_by.is_prefix_of(
        (#[trigger] now.nodes[i]).requested_by,
    ) by {
        let list = now.nodes[i].requested_by;
        assert(list.subrange(0, s.nodes[i].requested_by.len() as int)
            =~= s.nodes[i].requested_by);
    }
    if exists|i: int|
        0 <= i < s.nodes.len() && (#[trigger] s.nodes[i]).resolved.project_id == answer.project_id {
        let i = choose|i: int|
            0 <= i < s.nodes.len() && (#[trigger] s.nodes[i]).resolved.project_id
                == answer.project_id;
        assert(node_from(s.nodes, answer.project_id, 0) is Some);
    } else {
        match node_from(s.nodes, answer.project_id, 0) {
            Some(k) => {
                assert(s.nodes[k].resolved.project_id == answer.project_id);
            },
            None => {},
        }
    }
}

/// A dependency that the mod cannot do without.
pub open spec fn is_required(d: ResolvedDepView) -> bool {
    d.kind == DepKind::Required
}

/// The answer of a new project queues exactly its required dependencies, behind everything that was
/// queued and in the order in which the project lists them. Each is asked of the provider of that
/// project in its name, overrides no side, and is not optional.
pub proof fn a_new_project_queues_its_required_dependencies(
    policy: PolicyView,
    s: StateView,
    answer: ResolvedVersionView,
    j: int,
)
    requires
        0 <= s.answered < s.tasks.len(),
        forall|i: int|
            0 <= i < s.nodes.len() ==> (#[trigger] s.nodes[i]).resolved.project_id
                != answer.project_id,
    ensures
        ({
            let now = step(policy, s, answer);
            let required = answer.dependencies.filter(|d: ResolvedDepView| is_required(d));
            &&& now.tasks.len() == s.tasks.len() + required.len()
            &&& forall|k: int| 0 <= k < s.tasks.len() ==> #[trigger] now.tasks[k] == s.tasks[k]
            &&& 0 <= j < required.len() ==> {
                let t = now.tasks[s.tasks.len() + j];
                &&& t.id == required[j].project_id
                &&& t.requester == answer.slug
                &&& t.side_override is None
                &&& !t.optional
                &&& t.provider == s.tasks[s.answered].provider
            }
        }),
{
    node_found(s.nodes, answer.project_id, 0);
    if node_from(s.nodes, answer.project_id, 0) is Some {
        let k = node_from(s.nodes, answer.project_id, 0)->0;
        assert(s.nodes[k].resolved.project_id == answer.project_id);
    }
    queued_in_order(policy, answer.dependencies, answer.slug, s.tasks[s.answered].provider);
}

proof fn queued_in_order(
    policy: PolicyView,
    deps: Seq<ResolvedDepView>,
    requester: Seq<char>,
    provider: Provider,
)
    ensures
        ({
            let queued = dep_tasks(policy, deps, requester, provider);
            let required = deps.filter(|d: ResolvedDepView| is_required(d));
            &&& queued.len() == required.len()
            &&& forall|j: int|
                0 <= j < queued.len() ==> {
                    let t = #[trigger] queued[j];
                    &&& t.id == required[j].project_id
                    &&& t.requester == requester
                    &&& t.side_override is None
                    &&& !t.optional
                    &&& t.provider == provider
                }
        }),
    decreases deps.len(),
{
    reveal(Seq::filter);
    if deps.len() > 0 {
        queued_in_order(policy, deps.drop_last(), requester, provider);
    }
}

/// A declared mod that a provider serves.
pub open spec fn is_served(m: (Seq<char>, ModSpecView)) -> bool {
    m.1 matches ModSpecView::Detailed(d) ==> d.provider != Some(Provider::Local)
}

/// A resolution starts with the declared mods that a provider serves, in the order of the manifest.
/// Each is asked for in the manifest's name with what the manifest says of it: its side, whether it is
/// optional, and its provider, which is Modrinth where none is given.
pub proof fn a_resolution_starts_from_the_manifest(
    policy: PolicyView,
    mods: Seq<(Seq<char>, ModSpecView)>,
    k: int,
)
    ensures
        ({
            let start = first_state(policy, mods);
            let served = mods.filter(|m: (Seq<char>, ModSpecView)| is_served(m));
            &&& start.answered == 0 && start.nodes.len() == 0
            &&& start.tasks.len() == served.len()
            &&& 0 <= k < served.len() ==> {
                let t = start.tasks[k];
                &&& t.id == served[k].0
                &&& t.requester == "manifest"@
                &&& served[k].1 matches ModSpecView::Constraint(_) ==> t.side_override is None
                    && !t.optional && t.provider == Provider::Modrinth
                &&& served[k].1 matches ModSpecView::Detailed(d) ==> t.side_override == d.side
                    && t.optional == d.optional && t.provider == (match d.provider {
                    Some(p) => p,
                    None => Provider::Modrinth,
                })
            }
        }),
    decreases mods.len(),
{
    reveal(Seq::filter);
    if mods.len() > 0 {
        a_resolution_starts_from_the_manifest(policy, mods.drop_last(), k);
    }
}

/// The constraint that the manifest gives a mod.
pub open spec fn written_constraint(spec: ModSpecView) -> Seq<char> {
    match spec {
        ModSpecView::Constraint(c) => c,
        ModSpecView::Detailed(d) => d.version,
    }
}

/// A declared mod with an entry in the previous lock is asked for in the version of that entry, unless
/// the mode is an update that means it and it is not pinned: then, as without an entry, it is asked for
/// by what the manifest says.
pub proof fn declared_mods_are_asked_for_by_version(
    lock: LockView,
    mode: ModeView,
    slug: Seq<char>,
    spec: ModSpecView,
    i: int,
)
    ensures
        ({
            let asked = root_task(policy_of(Some(lock), mode), slug, spec).constraint;
            let pin = spec matches ModSpecView::Detailed(d) && d.pin;
            let meant = mode == (ModeView::Update { only: None }) || mode == (ModeView::Update {
                only: Some(slug),
            });
            &&& meant && !pin ==> asked == written_constraint(spec)
            &&& (!meant || pin) && 0 <= i < lock.mods.len() && lock.mods[i].slug == slug && (
            forall|j: int| i < j < lock.mods.len() ==> (#[trigger] lock.mods[j]).slug != slug)
                ==> asked == lock.mods[i].version
            &&& (forall|j: int| 0 <= j < lock.mods.len() ==> (#[trigger] lock.mods[j]).slug != slug)
                ==> asked == written_constraint(spec)
            &&& root_task(policy_of(None, mode), slug, spec).constraint == written_constraint(spec)
        }),
{
    if 0 <= i < lock.mods.len() && lock.mods[i].slug == slug && (forall|j: int|
        i < j < lock.mods.len() ==> (#[trigger] lock.mods[j]).slug != slug) {
        last_entry_counts(lock.mods, slug, i);
    }
    if forall|j: int| 0 <= j < lock.mods.len() ==> (#[trigger] lock.mods[j]).slug != slug {
        no_value_without_an_entry(slug_versions(lock.mods), slug);
    }
}

/// A dependency is asked for in the version that the previous lock has for its project, and without
/// one, or in an update of everything, in the latest.
pub proof fn dependencies_are_asked_for_by_version(
    lock: LockView,
    mode: ModeView,
    project_id: Seq<char>,
    i: int,
)
    ensures
        ({
            let asked = dependency_with(policy_of(Some(lock), mode), project_id);
            let all = mode == (ModeView::Update { only: None });
            &&& all ==> asked == "*"@
            &&& !all && 0 <= i < lock.mods.len() && lock.mods[i].project_id == project_id && (
            forall|j: int|
                i < j < lock.mods.len() ==> (#[trigger] lock.mods[j]).project_id != project_id)
                ==> asked == lock.mods[i].version
            &&& (forall|j: int|
                0 <= j < lock.mods.len() ==> (#[trigger] lock.mods[j]).project_id != project_id)
                ==> asked == "*"@
            &&& dependency_with(policy_of(None, mode), project_id) == "*"@
        }),
{
    if 0 <= i < lock.mods.len() && lock.mods[i].project_id == project_id && (forall|j: int|
        i < j < lock.mods.len() ==> (#[trigger] lock.mods[j]).project_id != project_id) {
        last_project_counts(lock.mods, project_id, i);
    }
    if forall|j: int| 0 <= j < lock.mods.len() ==> (#[trigger] lock.mods[j]).project_id != project_id {
        no_value_without_an_entry(project_versions(lock.mods), project_id);
    }
}

proof fn last_project_counts(mods: Seq<LockedModView>, project_id: Seq<char>, i: int)
    requires
        0 <= i < mods.len(),
        mods[i].project_id == project_id,
        forall|j: int| i < j < mods.len() ==> (#[trigger] mods[j]).project_id != project_id,
    ensures
        last_value(project_versions(mods), project_id) == Some(mods[i].version),
    decreases mods.len(),
{
    let pairs = project_versions(mods);
    assert(pairs.drop_last() =~= project_versions(mods.drop_last()));
    if i < mods.len() - 1 {
        assert(mods[mods.len() - 1].project_id != project_id);
        last_project_counts(mods.drop_last(), project_id, i);
    }
}

proof fn no_value_without_an_entry(pairs: Seq<(Seq<char>, Seq<char>)>, key: Seq<char>)
    requires
        forall|j: int| 0 <= j < pairs.len() ==> (#[trigger] pairs[j]).0 != key,
    ensures
        last_value(pairs, key) is None,
    decreases pairs.len(),
{
    if pairs.len() > 0 {
        assert(pairs[pairs.len() - 1].0 != key);
        no_value_without_an_entry(pairs.drop_last(), key);
    }
}

/// Some node is of this project.
pub open spec fn in_graph(nodes: Seq<NodeView>, project_id: Seq<char>) -> bool {
    exists|j: int| 0 <= j < nodes.len() && (#[trigger] nodes[j]).resolved.project_id == project_id
}

/// The edges of a lock entry are the dependencies of its node that are in the graph, of every kind and
/// in the order in which the project lists them: each has the slug of a node of that project, and the
/// kind of the dependency.
pub proof fn edges_are_the_dependencies_in_the_graph(nodes: Seq<NodeView>, i: int, e: int)
    requires
        0 <= i < nodes.len(),
    ensures
        ({
            let edges = locked_nodes(nodes)[i].dependencies;
            let inside = nodes[i].resolved.dependencies.filter(
                |d: ResolvedDepView| in_graph(nodes, d.project_id),
            );
            &&& edges.len() == inside.len()
            &&& 0 <= e < edges.len() ==> edges[e].kind == inside[e].kind && exists|j: int|
                0 <= j < nodes.len() && (#[trigger] nodes[j]).resolved.project_id
                    == inside[e].project_id && nodes[j].resolved.slug == edges[e].slug
        }),
{
    edges_in_order(nodes, nodes[i].resolved.dependencies, e);
}

proof fn edges_in_order(nodes: Seq<NodeView>, deps: Seq<ResolvedDepView>, e: int)
    ensures
        ({
            let edges = edges_in(nodes, deps);
            let inside = deps.filter(|d: ResolvedDepView| in_graph(nodes, d.project_id));
            &&& edges.len() == inside.len()
            &&& 0 <= e < edges.len() ==> edges[e].kind == inside[e].kind && exists|j: int|
                0 <= j < nodes.len() && (#[trigger] nodes[j]).resolved.project_id
                    == inside[e].project_id && nodes[j].resolved.slug == edges[e].slug
        }),
    decreases deps.len(),
{
    reveal(Seq::filter);
    if deps.len() > 0 {
        edges_in_order(nodes, deps.drop_last(), e);
        node_found(nodes, deps.last().project_id, 0);
        match node_from(nodes, deps.last().project_id, 0) {
            Some(k) => {
                assert(nodes[k].resolved.project_id == deps.last().project_id);
            },
            None => {},
        }
    }
}

/// A mod that is declared as a jar of the pack itself.
pub open spec fn is_supplied(m: (Seq<char>, ModSpecView)) -> bool {
    m.1 matches ModSpecView::Detailed(d) && d.provider == Some(Provider::Local)
}

/// Behind the nodes, the lock has one entry per local jar, in the order of the manifest. Each is found
/// by its file name, carries the digest and the size of the jar's bytes, and has the side that the
/// manifest gives it, or else the pack's default side.
pub proof fn local_jars_are_locked_by_their_bytes(
    manifest: ManifestView,
    json: Seq<char>,
    nodes: Seq<NodeView>,
    jars: Seq<Seq<u8>>,
    k: int,
)
    ensures
        ({
            let lock = lock_of(manifest, json, nodes, jars);
            let supplied = manifest.mods.filter(|m: (Seq<char>, ModSpecView)| is_supplied(m));
            &&& lock.mods.len() == nodes.len() + supplied.len()
            &&& 0 <= k < supplied.len() ==> {
                let m = lock.mods[nodes.len() + k];
                let d = supplied[k].1->Detailed_0;
                &&& m.slug == supplied[k].0 && m.provider == Provider::Local
                &&& d.project_id matches Some(file) ==> m.filename == file
                &&& m.download.url is None
                &&& m.download.hash_format == "sha512"@
                &&& m.download.hash == hex_of(sha512_digest(jars[k]))
                &&& m.download.size == Some(jars[k].len() as u64)
                &&& d.side matches Some(side) ==> m.side == side
                &&& d.side is None ==> m.side == manifest.default_side
                &&& m.optional == d.optional
                &&& m.requested_by == seq!["manifest"@]
                &&& m.dependencies.len() == 0
            }
        }),
{
    supplied_in_order(manifest.mods, manifest.default_side, jars, k);
}

proof fn supplied_in_order(
    mods: Seq<(Seq<char>, ModSpecView)>,
    default_side: Side,
    jars: Seq<Seq<u8>>,
    k: int,
)
    ensures
        ({
            let entries = local_entries(mods, default_side, jars);
            let supplied = mods.filter(|m: (Seq<char>, ModSpecView)| is_supplied(m));
            &&& entries.len() == supplied.len()
            &&& 0 <= k < supplied.len() ==> {
                let m = entries[k];
                let d = supplied[k].1->Detailed_0;
                &&& m.slug == supplied[k].0 && m.provider == Provider::Local
                &&& d.project_id matches Some(file) ==> m.filename == file
                &&& m.download.url is None
                &&& m.download.hash_format == "sha512"@
                &&& m.download.hash == hex_of(sha512_digest(jars[k]))
                &&& m.download.size == Some(jars[k].len() as u64)
                &&& d.side matches Some(side) ==> m.side == side
                &&& d.side is None ==> m.side == default_side
                &&& m.optional == d.optional
                &&& m.requested_by == seq!["manifest"@]
                &&& m.dependencies.len() == 0
            }
        }),
    decreases mods.len(),
{
    reveal(Seq::filter);
    if mods.len() > 0 {
        supplied_in_order(mods.drop_last(), default_side, jars, k);
    }
}

/// A local mod is refused exactly where it names no file or a file outside `local/`: the fault that is
/// reported is that of the first such mod.
pub proof fn local_faults_are_those_of_the_first_bad_mod(mods: Seq<(Seq<char>, ModSpecView)>)
    ensures
        match first_local_fault(mods) {
            None => forall|i: int|
                0 <= i < mods.len() && is_supplied(#[trigger] mods[i]) ==> (
                mods[i].1->Detailed_0.project_id matches Some(file) && safe_name(file)),
            Some(LocalFault::MissingPath(slug)) => exists|i: int|
                #![trigger mods[i]]
                0 <= i < mods.len() && is_supplied(mods[i]) && mods[i].0 == slug
                    && mods[i].1->Detailed_0.project_id is None && sound_before(mods, i),
            Some(LocalFault::UnsafePath(slug, fault)) => exists|i: int|
                #![trigger mods[i]]
                0 <= i < mods.len() && is_supplied(mods[i]) && mods[i].0 == slug && (
                mods[i].1->Detailed_0.project_id matches Some(file) && name_fault(file) == Some(
                    fault,
                )) && sound_before(mods, i),
        },
    decreases mods.len(),
{
    if mods.len() > 0 {
        let head = mods.drop_last();
        local_faults_are_those_of_the_first_bad_mod(head);
        assert(forall|i: int| 0 <= i < head.len() ==> head[i] == #[trigger] mods[i]);
        let last = mods.len() - 1;
        match first_local_fault(head) {
            Some(_) => {
                let i = choose|i: int|
                    #![trigger head[i]]
                    0 <= i < head.len() && is_supplied(head[i]) && (match first_local_fault(
                        head,
                    )->0 {
                        LocalFault::MissingPath(slug) => head[i].0 == slug
                            && head[i].1->Detailed_0.project_id is None,
                        LocalFault::UnsafePath(slug, fault) => head[i].0 == slug && (
                        head[i].1->Detailed_0.project_id matches Some(file) && name_fault(file)
                            == Some(fault)),
                    }) && sound_before(head, i);
                assert(mods[i] == head[i]);
                assert(sound_before(mods, i)) by {
                    assert(forall|j: int| 0 <= j < i ==> head[j] == #[trigger] mods[j]);
                }
            },
            None => {
                assert(sound_before(mods, last)) by {
                    assert(forall|j: int| 0 <= j < last ==> head[j] == #[trigger] mods[j]);
                }
                assert(mods[last] == mods.last());
            },
        }
    }
}

/// Every local mod before the `i`-th entry names a file inside `local/`.
pub open spec fn sound_before(mods: Seq<(Seq<char>, ModSpecView)>, i: int) -> bool {
    forall|j: int|
        0 <= j < i && is_supplied(#[trigger] mods[j]) ==> (
        mods[j].1->Detailed_0.project_id matches Some(file) && safe_name(file))
}

} // verus!
