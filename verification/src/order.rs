//! Stable sorting by a strict order of the library's own.
use vstd::prelude::*;

verus! {

/// A type whose values are arranged by a strict order on what they hold.
pub trait Ranked: DeepView + Sized {
    /// Whether a value that holds `a` belongs before one that holds `b`.
    spec fn ranks_before(a: Self::V, b: Self::V) -> bool;

    fn is_ranked_before(&self, other: &Self) -> (r: bool)
        ensures
            r == Self::ranks_before(self.deep_view(), other.deep_view()),
    ;
}

/// `x` put into `sorted` behind every item that it does not belong before.
pub open spec fn placed<T: Ranked>(sorted: Seq<T::V>, x: T::V) -> Seq<T::V>
    decreases sorted.len(),
{
    if sorted.len() > 0 && T::ranks_before(x, sorted.last()) {
        placed::<T>(sorted.drop_last(), x).push(sorted.last())
    } else {
        sorted.push(x)
    }
}

/// The items of `s` in order; items of which neither belongs before the other stay as they were.
pub open spec fn arranged<T: Ranked>(s: Seq<T::V>) -> Seq<T::V>
    decreases s.len(),
{
    if s.len() == 0 {
        s
    } else {
        placed::<T>(arranged::<T>(s.drop_last()), s.last())
    }
}

/// Arrange the items of a list.
pub fn arrange<T: Ranked>(items: Vec<T>) -> (r: Vec<T>)
    ensures
        r.deep_view() == arranged::<T>(items.deep_view()),
{
    let ghost all = items.deep_view();
    let mut rest = items;
    let mut out: Vec<T> = Vec::new();
    let ghost mut done: int = 0;
    while rest.len() > 0
        invariant
            rest.deep_view() == all.skip(done),
            0 <= done <= all.len(),
            out.deep_view() == arranged::<T>(all.take(done)),
        decreases rest.len(),
    {
        let ghost prior = rest@;
        assert(rest.deep_view().len() == prior.len());
        assert forall|i: int| 0 <= i < prior.len() implies #[trigger] prior[i].deep_view() == all[done
            + i] by {
            assert(rest.deep_view()[i] == all.skip(done)[i]);
        }
        let x = rest.remove(0);
        proof {
            assert(x.deep_view() == all[done]);
            assert(rest.deep_view() =~= all.skip(done + 1));
            assert(all.take(done + 1).drop_last() =~= all.take(done));
            done = done + 1;
        }
        out = place(out, x);
    }
    assert(all.take(done) =~= all);
    out
}

fn place<T: Ranked>(sorted: Vec<T>, x: T) -> (r: Vec<T>)
    ensures
        r.deep_view() == placed::<T>(sorted.deep_view(), x.deep_view()),
{
    let ghost all = sorted.deep_view();
    let mut out = sorted;
    let mut at: usize = out.len();
    assert(all.take(all.len() as int) =~= all);
    assert(all.skip(all.len() as int) =~= Seq::empty());
    let ghost key = x.deep_view();
    assert(placed::<T>(all, key) =~= placed::<T>(all.take(at as int), key) + all.skip(at as int));
    while at > 0 && x.is_ranked_before(&out[at - 1])
        invariant
            out.deep_view() == all,
            x.deep_view() == key,
            at <= out@.len(),
            placed::<T>(all, key) == placed::<T>(all.take(at as int), key) + all.skip(at as int),
        decreases at,
    {
        proof {
            let cut = all.take(at as int);
            assert(cut.last() == all[at - 1]);
            assert(cut.drop_last() =~= all.take(at - 1));
            assert(placed::<T>(all.take(at - 1), key).push(all[at - 1]) + all.skip(at as int)
                =~= placed::<T>(all.take(at - 1), key) + all.skip(at - 1));
        }
        at = at - 1;
    }
    proof {
        let cut = all.take(at as int);
        if at > 0 {
            assert(cut.last() == all[at - 1]);
        }
        assert(placed::<T>(cut, key) == cut.push(key));
    }
    out.insert(at, x);
    assert(out.deep_view() =~= all.take(at as int).push(key) + all.skip(at as int));
    out
}

/// The items of a list for which a flag is set, in the order of the list.
pub(crate) fn keep<T: DeepView>(
    items: Vec<T>,
    flags: &Vec<bool>,
    Ghost(wanted): Ghost<spec_fn(T::V) -> bool>,
) -> (r: Vec<T>)
    requires
        flags@.len() == items@.len(),
        forall|i: int| 0 <= i < flags@.len() ==> #[trigger] flags@[i] == wanted(items.deep_view()[i]),
    ensures
        r.deep_view() == items.deep_view().filter(wanted),
{
    let ghost all = items.deep_view();
    let mut rest = items;
    let mut out: Vec<T> = Vec::new();
    let mut i: usize = 0;
    proof {
        reveal(Seq::filter);
        assert(rest.deep_view() =~= all.skip(0));
        assert(out.deep_view() =~= all.take(0).filter(wanted));
    }
    while i < flags.len()
        invariant
            flags@.len() == all.len(),
            forall|j: int| 0 <= j < flags@.len() ==> #[trigger] flags@[j] == wanted(all[j]),
            i <= flags@.len(),
            rest.deep_view() == all.skip(i as int),
            out.deep_view() == all.take(i as int).filter(wanted),
        decreases flags.len() - i,
    {
        let ghost prior = rest@;
        assert(rest.deep_view().len() == prior.len());
        assert forall|j: int| 0 <= j < prior.len() implies #[trigger] prior[j].deep_view() == all[i
            + j] by {
            assert(rest.deep_view()[j] == all.skip(i as int)[j]);
        }
        let x = rest.remove(0);
        proof {
            reveal(Seq::filter);
            assert(x.deep_view() == all[i as int]);
            assert(rest.deep_view() =~= all.skip(i + 1));
            assert(all.take(i + 1).drop_last() =~= all.take(i as int));
        }
        if flags[i] {
            let ghost before = out.deep_view();
            out.push(x);
            assert(out.deep_view() =~= before.push(all[i as int]));
        }
        i = i + 1;
    }
    assert(all.take(i as int) =~= all);
    out
}

// ---- what arranging promises ------------------------------------------------------------------

/// The order is strict and its ties are an equivalence: what sorting needs of an order.
pub open spec fn strict_order<T: Ranked>() -> bool {
    &&& forall|a: T::V| !#[trigger] T::ranks_before(a, a)
    &&& forall|a: T::V, b: T::V, c: T::V|
        #[trigger] T::ranks_before(a, b) && #[trigger] T::ranks_before(b, c) ==> T::ranks_before(
            a,
            c,
        )
    &&& forall|a: T::V, b: T::V, c: T::V|
        !#[trigger] T::ranks_before(a, b) && !#[trigger] T::ranks_before(b, c)
            ==> !T::ranks_before(a, c)
}

/// No item stands behind one that it belongs before.
pub open spec fn in_order<T: Ranked>(s: Seq<T::V>) -> bool {
    forall|i: int, j: int|
        0 <= i < j < s.len() ==> !T::ranks_before(#[trigger] s[j], #[trigger] s[i])
}

/// Arranging puts the items in order.
pub proof fn arranging_orders<T: Ranked>(s: Seq<T::V>)
    requires
        strict_order::<T>(),
    ensures
        in_order::<T>(arranged::<T>(s)),
    decreases s.len(),
{
    if s.len() > 0 {
        arranging_orders::<T>(s.drop_last());
        placing_orders::<T>(arranged::<T>(s.drop_last()), s.last());
    }
}

proof fn placing_orders<T: Ranked>(s: Seq<T::V>, x: T::V)
    requires
        strict_order::<T>(),
        in_order::<T>(s),
    ensures
        in_order::<T>(placed::<T>(s, x)),
        forall|y: T::V| #[trigger] placed::<T>(s, x).contains(y) ==> y == x || s.contains(y),
    decreases s.len(),
{
    let p = placed::<T>(s, x);
    if s.len() > 0 && T::ranks_before(x, s.last()) {
        let q = placed::<T>(s.drop_last(), x);
        placing_orders::<T>(s.drop_last(), x);
        assert forall|i: int, j: int| 0 <= i < j < p.len() implies !T::ranks_before(
            #[trigger] p[j],
            #[trigger] p[i],
        ) by {
            if j == p.len() - 1 {
                assert(q.contains(q[i]));
                if q[i] != x {
                    let k = choose|k: int| 0 <= k < s.len() - 1 && s.drop_last()[k] == q[i];
                    assert(s[k] == q[i]);
                    assert(!T::ranks_before(s[s.len() - 1], s[k]));
                } else {
                    assert(!T::ranks_before(x, x));
                    if T::ranks_before(s.last(), x) {
                        assert(T::ranks_before(x, x));
                    }
                }
            } else {
                assert(p[i] == q[i] && p[j] == q[j]);
            }
        }
        assert forall|y: T::V| #[trigger] p.contains(y) implies y == x || s.contains(y) by {
            let k = choose|k: int| 0 <= k < p.len() && p[k] == y;
            if k == p.len() - 1 {
                assert(s[s.len() - 1] == y);
            } else {
                assert(q[k] == y);
                assert(q.contains(y));
                if y != x {
                    let m = choose|m: int| 0 <= m < s.len() - 1 && s.drop_last()[m] == y;
                    assert(s[m] == y);
                }
            }
        }
    } else {
        assert forall|i: int, j: int| 0 <= i < j < p.len() implies !T::ranks_before(
            #[trigger] p[j],
            #[trigger] p[i],
        ) by {
            if j == p.len() - 1 {
                if i < s.len() - 1 {
                    assert(!T::ranks_before(s[s.len() - 1], s[i]));
                    assert(!T::ranks_before(x, s[s.len() - 1]));
                }
            } else {
                assert(p[i] == s[i] && p[j] == s[j]);
            }
        }
        assert forall|y: T::V| #[trigger] p.contains(y) implies y == x || s.contains(y) by {
            let k = choose|k: int| 0 <= k < p.len() && p[k] == y;
            if k < s.len() {
                assert(s[k] == y);
            }
        }
    }
}

/// Arranging loses nothing, adds nothing and repeats nothing.
pub proof fn arranging_permutes<T: Ranked>(s: Seq<T::V>)
    ensures
        arranged::<T>(s).to_multiset() == s.to_multiset(),
        arranged::<T>(s).len() == s.len(),
    decreases s.len(),
{
    broadcast use vstd::seq_lib::group_to_multiset_ensures;

    if s.len() > 0 {
        arranging_permutes::<T>(s.drop_last());
        placing_adds::<T>(arranged::<T>(s.drop_last()), s.last());
        assert(s =~= s.drop_last().push(s.last()));
    }
}

proof fn placing_adds<T: Ranked>(s: Seq<T::V>, x: T::V)
    ensures
        placed::<T>(s, x).to_multiset() == s.to_multiset().insert(x),
        placed::<T>(s, x).len() == s.len() + 1,
    decreases s.len(),
{
    broadcast use vstd::seq_lib::group_to_multiset_ensures;

    if s.len() > 0 && T::ranks_before(x, s.last()) {
        placing_adds::<T>(s.drop_last(), x);
        assert(s =~= s.drop_last().push(s.last()));
        assert(s.to_multiset() =~= s.drop_last().to_multiset().insert(s.last()));
        assert(placed::<T>(s, x).to_multiset() =~= s.to_multiset().insert(x));
    }
}

/// The items that tie with `x`: neither belongs before the other.
pub open spec fn ties_with<T: Ranked>(x: T::V) -> spec_fn(T::V) -> bool {
    |y: T::V| !T::ranks_before(x, y) && !T::ranks_before(y, x)
}

/// Arranging is stable: items that tie keep the order in which they came.
pub proof fn arranging_keeps_ties<T: Ranked>(s: Seq<T::V>, x: T::V)
    requires
        strict_order::<T>(),
    ensures
        arranged::<T>(s).filter(ties_with::<T>(x)) == s.filter(ties_with::<T>(x)),
    decreases s.len(),
{
    if s.len() > 0 {
        reveal(Seq::filter);
        arranging_keeps_ties::<T>(s.drop_last(), x);
        placing_keeps_ties::<T>(arranged::<T>(s.drop_last()), s.last(), x);
    }
}

proof fn placing_keeps_ties<T: Ranked>(s: Seq<T::V>, y: T::V, x: T::V)
    requires
        strict_order::<T>(),
    ensures
        placed::<T>(s, y).filter(ties_with::<T>(x)) == (if ties_with::<T>(x)(y) {
            s.filter(ties_with::<T>(x)).push(y)
        } else {
            s.filter(ties_with::<T>(x))
        }),
    decreases s.len(),
{
    reveal(Seq::filter);
    let p = placed::<T>(s, y);
    if s.len() > 0 && T::ranks_before(y, s.last()) {
        let q = placed::<T>(s.drop_last(), y);
        placing_keeps_ties::<T>(s.drop_last(), y, x);
        assert(p.drop_last() =~= q);
        if ties_with::<T>(x)(y) && ties_with::<T>(x)(s.last()) {
            assert(!T::ranks_before(y, x) && !T::ranks_before(x, s.last()));
        }
    } else {
        assert(p.drop_last() =~= s);
    }
}

/// Any two different items of the list are ordered one way or the other.
pub open spec fn no_ties<T: Ranked>(s: Seq<T::V>) -> bool {
    forall|a: T::V, b: T::V|
        #![trigger T::ranks_before(a, b)]
        s.contains(a) && s.contains(b) ==> a == b || T::ranks_before(a, b) || T::ranks_before(b, a)
}

/// Where no two different items tie, the arrangement does not depend on the order in which the
/// items came.
pub proof fn arranging_ignores_input_order<T: Ranked>(s: Seq<T::V>, t: Seq<T::V>)
    requires
        strict_order::<T>(),
        no_ties::<T>(s),
        s.to_multiset() == t.to_multiset(),
    ensures
        arranged::<T>(s) == arranged::<T>(t),
{
    arranging_orders::<T>(s);
    arranging_orders::<T>(t);
    arranging_permutes::<T>(s);
    arranging_permutes::<T>(t);
    let a = arranged::<T>(s);
    let b = arranged::<T>(t);
    same_members(s, a);
    only_one_order::<T>(a, b);
}

/// Lists with the same multiset have the same members.
pub proof fn same_members<V>(a: Seq<V>, b: Seq<V>)
    requires
        a.to_multiset() == b.to_multiset(),
    ensures
        forall|x: V| #[trigger] a.contains(x) <==> b.contains(x),
{
    broadcast use vstd::seq_lib::group_to_multiset_ensures;

    assert forall|x: V| #[trigger] a.contains(x) <==> b.contains(x) by {
        assert(a.contains(x) <==> a.to_multiset().count(x) > 0);
        assert(b.contains(x) <==> b.to_multiset().count(x) > 0);
    }
}

proof fn only_one_order<T: Ranked>(a: Seq<T::V>, b: Seq<T::V>)
    requires
        in_order::<T>(a),
        in_order::<T>(b),
        no_ties::<T>(a),
        a.to_multiset() == b.to_multiset(),
    ensures
        a == b,
    decreases a.len(),
{
    broadcast use vstd::seq_lib::group_to_multiset_ensures;

    same_members(a, b);
    assert(a.len() == a.to_multiset().len());
    assert(b.len() == b.to_multiset().len());
    if a.len() == 0 {
        assert(a =~= b);
    } else {
        let x = a.last();
        let y = b.last();
        assert(a[a.len() - 1] == x && a.contains(x));
        assert(b[b.len() - 1] == y && b.contains(y));
        assert(a.contains(y) && b.contains(x));
        assert(x == y) by {
            let i = choose|i: int| 0 <= i < a.len() && a[i] == y;
            let j = choose|j: int| 0 <= j < b.len() && b[j] == x;
            if x != y {
                assert(!T::ranks_before(x, a[i]));
                assert(!T::ranks_before(y, b[j]));
            }
        }
        assert(a =~= a.drop_last().push(x));
        assert(b =~= b.drop_last().push(y));
        assert(a.drop_last().to_multiset() =~= a.to_multiset().remove(x));
        assert(b.drop_last().to_multiset() =~= b.to_multiset().remove(x));
        assert forall|p: T::V, q: T::V| #![trigger T::ranks_before(p, q)]
            a.drop_last().contains(p) && a.drop_last().contains(q) implies p == q
            || T::ranks_before(p, q) || T::ranks_before(q, p) by {
            let i = choose|i: int| 0 <= i < a.len() - 1 && a.drop_last()[i] == p;
            let j = choose|j: int| 0 <= j < a.len() - 1 && a.drop_last()[j] == q;
            assert(a[i] == p && a[j] == q);
        }
        only_one_order::<T>(a.drop_last(), b.drop_last());
    }
}

} // verus!
