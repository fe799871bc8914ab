//! Explaining why a mod is in the pack.
use vstd::prelude::*;

use crate::cli::WhyArgs;
use crate::commands::is_direct;
use crate::lock::{entry_from, DepEdgeView, Lock, LockedModView};
use crate::resolve::{contains_text, ROOT_REQUESTER};
use crate::text::same;

verus! {

/// Why a mod is in the pack.
#[derive(Debug)]
pub struct Explanation {
    pub slug: String,
    pub version: String,
    /// Declared directly in the manifest.
    pub direct: bool,
    /// The mods that require it.
    pub required_by: Vec<String>,
    /// The mods that it depends on.
    pub depends_on: Vec<String>,
}

#[verifier::ext_equal]
pub struct ExplanationView {
    pub slug: Seq<char>,
    pub version: Seq<char>,
    pub direct: bool,
    pub required_by: Seq<Seq<char>>,
    pub depends_on: Seq<Seq<char>>,
}

impl View for Explanation {
    type V = ExplanationView;

    open spec fn view(&self) -> ExplanationView {
        ExplanationView {
            slug: self.slug@,
            version: self.version@,
            direct: self.direct,
            required_by: self.required_by.deep_view(),
            depends_on: self.depends_on.deep_view(),
        }
    }
}

/// The requesters other than the manifest, in order.
pub open spec fn parents(requested_by: Seq<Seq<char>>) -> Seq<Seq<char>>
    decreases requested_by.len(),
{
    if requested_by.len() == 0 {
        Seq::empty()
    } else if requested_by.last() == ROOT_REQUESTER@ {
        parents(requested_by.drop_last())
    } else {
        parents(requested_by.drop_last()).push(requested_by.last())
    }
}

/// Why an entry is in the pack.
pub open spec fn explanation_of(m: LockedModView) -> ExplanationView {
    ExplanationView {
        slug: m.slug,
        version: m.version,
        direct: is_direct(m),
        required_by: parents(m.requested_by),
        depends_on: m.dependencies.map_values(|d: DepEdgeView| d.slug),
    }
}

fn parents_of(requested_by: &Vec<String>) -> (r: Vec<String>)
    ensures
        r.deep_view() == parents(requested_by.deep_view()),
{
    let ghost all = requested_by.deep_view();
    let mut out: Vec<String> = Vec::new();
    let mut i: usize = 0;
    assert(out.deep_view() =~= parents(all.take(0)));
    while i < requested_by.len()
        invariant
            all == requested_by.deep_view(),
            i <= requested_by@.len(),
            out.deep_view() == parents(all.take(i as int)),
        decreases requested_by.len() - i,
    {
        proof {
            assert(all[i as int] == requested_by@[i as int]@);
            assert(all.take(i + 1).drop_last() =~= all.take(i as int));
            assert(all.take(i + 1).last() == all[i as int]);
        }
        if !same(requested_by[i].as_str(), ROOT_REQUESTER) {
            let ghost prior = out.deep_view();
            out.push(requested_by[i].clone());
            assert(out.deep_view() =~= prior.push(all[i as int]));
        }
        i = i + 1;
    }
    assert(all.take(i as int) =~= all);
    out
}

/// Explain why a mod is in the pack: declared directly, or pulled in by which other mods (from the
/// lockfile's provenance). Nothing where it is not in the pack.
pub fn explain(lock: &Lock, args: &WhyArgs) -> (r: Option<Explanation>)
    ensures
        match (r, entry_from(lock@.mods, args.name@, 0)) {
            (Some(e), Some(m)) => e@ == explanation_of(m),
            (None, None) => true,
            _ => false,
        },
{
    let node = match lock.find(args.name.as_str()) {
        Some(m) => m,
        None => {
            return None;
        },
    };
    let ghost edges = node@.dependencies;
    let ghost slugs = edges.map_values(|d: DepEdgeView| d.slug);
    let mut depends_on: Vec<String> = Vec::new();
    let mut i: usize = 0;
    while i < node.dependencies.len()
        invariant
            edges == node.dependencies.deep_view(),
            slugs == edges.map_values(|d: DepEdgeView| d.slug),
            i <= node.dependencies@.len(),
            depends_on.deep_view() == slugs.take(i as int),
        decreases node.dependencies.len() - i,
    {
        assert(edges[i as int] == node.dependencies@[i as int].deep_view());
        let ghost prior = depends_on.deep_view();
        depends_on.push(node.dependencies[i].slug.clone());
        i = i + 1;
        assert(depends_on.deep_view() =~= prior.push(slugs[i - 1]));
        assert(depends_on.deep_view() =~= slugs.take(i as int));
    }
    assert(slugs.take(i as int) =~= slugs);
    Some(
        Explanation {
            slug: node.slug.clone(),
            version: node.version.clone(),
            direct: contains_text(&node.requested_by, ROOT_REQUESTER),
            required_by: parents_of(&node.requested_by),
            depends_on,
        },
    )
}

/// An explanation names everyone who requested the mod, and nobody else: the manifest as a direct
/// declaration, the others as mods that require it. A mod that was requested at all is therefore
/// never left unexplained.
pub proof fn why_names_every_requester(m: LockedModView, requester: Seq<char>)
    ensures
        explanation_of(m).direct == m.requested_by.contains(ROOT_REQUESTER@),
        explanation_of(m).required_by.contains(requester) == (m.requested_by.contains(requester)
            && requester != ROOT_REQUESTER@),
        m.requested_by.len() > 0 ==> explanation_of(m).direct || explanation_of(
            m,
        ).required_by.len() > 0,
{
    parents_are_requesters(m.requested_by, requester);
    if m.requested_by.len() > 0 {
        parents_are_requesters(m.requested_by, m.requested_by[0]);
        assert(m.requested_by.contains(m.requested_by[0]));
    }
}

proof fn parents_are_requesters(requested_by: Seq<Seq<char>>, requester: Seq<char>)
    ensures
        parents(requested_by).contains(requester) == (requested_by.contains(requester) && requester
            != ROOT_REQUESTER@),
    decreases requested_by.len(),
{
    if requested_by.len() > 0 {
        let head = requested_by.drop_last();
        let last = requested_by.last();
        parents_are_requesters(head, requester);
        assert(requested_by =~= head.push(last));
        assert(head.push(last).contains(requester) == (head.contains(requester) || last
            == requester)) by {
            if head.contains(requester) {
                let k = choose|k: int| 0 <= k < head.len() && head[k] == requester;
                assert(head.push(last)[k] == requester);
            }
            if last == requester {
                assert(head.push(last)[head.len() as int] == requester);
            }
        }
        if last != ROOT_REQUESTER@ {
            let rest = parents(head);
            assert(rest.push(last).contains(requester) == (rest.contains(requester) || last
                == requester)) by {
                if rest.contains(requester) {
                    let k = choose|k: int| 0 <= k < rest.len() && rest[k] == requester;
                    assert(rest.push(last)[k] == requester);
                }
                if last == requester {
                    assert(rest.push(last)[rest.len() as int] == requester);
                }
            }
        }
    }
}

/// A requester that is a mod.
pub open spec fn is_a_mod(requester: Seq<char>) -> bool {
    requester != "manifest"@
}

/// What is explained is the mod that was asked about, in its version. The mods that require it come in the
/// order in which they are recorded, and so do those that it depends on.
pub proof fn an_explanation_is_of_its_mod(m: LockedModView, k: int)
    ensures
        ({
            let e = explanation_of(m);
            &&& e.slug == m.slug && e.version == m.version
            &&& e.direct <==> m.requested_by.contains("manifest"@)
            &&& e.required_by == m.requested_by.filter(|r: Seq<char>| is_a_mod(r))
            &&& e.depends_on.len() == m.dependencies.len()
            &&& 0 <= k < m.dependencies.len() ==> e.depends_on[k] == m.dependencies[k].slug
        }),
{
    parents_in_order(m.requested_by);
}

proof fn parents_in_order(requested_by: Seq<Seq<char>>)
    ensures
        parents(requested_by) == requested_by.filter(|r: Seq<char>| is_a_mod(r)),
    decreases requested_by.len(),
{
    reveal(Seq::filter);
    if requested_by.len() > 0 {
        parents_in_order(requested_by.drop_last());
    }
}

} // verus!
