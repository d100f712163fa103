//! The traversal shared by every rule: depth-first, with a callback on
//! entering and on leaving each node, and early cancellation.
use vstd::prelude::*;

verus! {

/// A node of a tree stage that can list its immediate children.
pub trait TreeNode: Sized {
    /// The children, in traversal order.
    spec fn spec_children(&self) -> Seq<Self>;

    /// A measure that every child has below its parent.
    spec fn rank(&self) -> nat;

    fn children(&self) -> (r: Vec<&Self>)
        ensures
            r@.len() == self.spec_children().len(),
            forall|i: int| 0 <= i < r@.len() ==> *r@[i] == self.spec_children()[i],
            forall|i: int|
                0 <= i < r@.len() ==> (#[trigger] self.spec_children()[i]).rank() < self.rank(),
    ;
}

/// Something whose traversal visits a sequence of nodes of type `T`: a
/// function visits the top-level expressions of its body.
pub trait Visitor<T: TreeNode>: Sized {
    /// The nodes that a traversal starts from, in order.
    spec fn spec_items(&self) -> Seq<T>;

    fn items(&self) -> (r: Vec<&T>)
        ensures
            r@.len() == self.spec_items().len(),
            forall|i: int| 0 <= i < r@.len() ==> *r@[i] == self.spec_items()[i],
    ;
}

/// A callback: called with `leaving == false` on entering a node and with
/// `leaving == true` on leaving it; it returns `true` to stop the traversal.
/// Its state is seen through its view.
pub trait VisitCallback<T>: View + Sized {
    /// The callback's new state and its answer for one call.
    spec fn step(state: Self::V, leaving: bool, node: T) -> (Self::V, bool);

    fn call(&mut self, leaving: bool, node: &T) -> (stop: bool)
        ensures
            (final(self)@, stop) == Self::step(old(self)@, leaving, *node),
    ;
}

/// The calls that a traversal without cancellation makes for `n`: entering
/// `n`, those of each child in order, leaving `n`.
pub open spec fn events<T: TreeNode>(n: T) -> Seq<(bool, T)>
    decreases n.rank() + 1, 0nat,
{
    seq![(false, n)] + events_from(n.spec_children(), n.rank(), 0) + seq![(true, n)]
}

/// The calls for `items[i..]`, each item below the measure `bound`.
pub open spec fn events_from<T: TreeNode>(items: Seq<T>, bound: nat, i: int) -> Seq<(bool, T)>
    decreases bound, items.len() - i,
{
    if 0 <= i < items.len() && items[i].rank() < bound {
        events(items[i]) + events_from(items, bound, i + 1)
    } else {
        Seq::empty()
    }
}

/// Running a callback over calls `evs` until it asks to stop: its final
/// state, whether it stopped, and how many calls it received.
pub open spec fn run<T, C: VisitCallback<T>>(c: C::V, evs: Seq<(bool, T)>) -> (C::V, bool, nat)
    decreases evs.len(),
{
    if evs.len() == 0 {
        (c, false, 0)
    } else {
        let (c2, stop) = C::step(c, evs[0].0, evs[0].1);
        if stop {
            (c2, true, 1)
        } else {
            let r = run::<T, C>(c2, evs.drop_first());
            (r.0, r.1, r.2 + 1)
        }
    }
}

/// Running over `a + b` runs over `a`, then, unless stopped, over `b`.
pub proof fn lemma_run_append<T, C: VisitCallback<T>>(c: C::V, a: Seq<(bool, T)>, b: Seq<(bool, T)>)
    ensures
        run::<T, C>(c, a + b) == if run::<T, C>(c, a).1 {
            run::<T, C>(c, a)
        } else {
            let r = run::<T, C>(run::<T, C>(c, a).0, b);
            (r.0, r.1, r.2 + run::<T, C>(c, a).2)
        },
    decreases a.len(),
{
    if a.len() > 0 {
        let (c2, stop) = C::step(c, a[0].0, a[0].1);
        assert((a + b)[0] == a[0]);
        if !stop {
            assert((a + b).drop_first() =~= a.drop_first() + b);
            lemma_run_append::<T, C>(c2, a.drop_first(), b);
        }
    } else {
        assert(a + b =~= b);
    }
}

/// Visits `item` and, unless stopped, its subtree; returns whether the
/// callback asked to stop.
pub fn visit_item<T: TreeNode, C: VisitCallback<T>>(item: &T, cb: &mut C) -> (stop: bool)
    ensures
        (final(cb)@, stop) == ({
            let r = run::<T, C>(old(cb)@, events(*item));
            (r.0, r.1)
        }),
    decreases item.rank(),
{
    let ghost c0 = cb@;
    let ghost all = events_from(item.spec_children(), item.rank(), 0);
    let stop = cb.call(false, item);
    proof {
        lemma_run_append::<T, C>(c0, seq![(false, *item)], all + seq![(true, *item)]);
        assert(events(*item) =~= seq![(false, *item)] + (all + seq![(true, *item)]));
        assert(seq![(false, *item)].drop_first() =~= Seq::<(bool, T)>::empty());
    }
    if stop {
        return true;
    }
    let ghost c1 = cb@;
    proof {
        assert(run::<T, C>(c1, seq![(false, *item)].drop_first()) == (c1, false, 0nat));
        assert(run::<T, C>(c0, seq![(false, *item)]) == (c1, false, 1nat));
    }
    let children = item.children();
    let mut i: usize = 0;
    while i < children.len()
        invariant
            children@.len() == item.spec_children().len(),
            forall|k: int| 0 <= k < children@.len() ==> *children@[k] == item.spec_children()[k],
            forall|k: int|
                0 <= k < children@.len() ==> (#[trigger] item.spec_children()[k]).rank() < item.rank(),
            i <= children@.len(),
            events(*item) == seq![(false, *item)] + (all + seq![(true, *item)]),
            run::<T, C>(c0, seq![(false, *item)]) == (c1, false, 1nat),
            c0 == old(cb)@,
            all == events_from(item.spec_children(), item.rank(), 0),
            ({
                let r = run::<T, C>(c1, all);
                let s = run::<T, C>(cb@, events_from(item.spec_children(), item.rank(), i as int));
                (r.0, r.1) == (s.0, s.1)
            }),
        decreases children@.len() - i,
    {
        let ghost ci = cb@;
        let ghost rest = events_from(item.spec_children(), item.rank(), i as int + 1);
        proof {
            assert(events_from(item.spec_children(), item.rank(), i as int) == events(
                item.spec_children()[i as int],
            ) + rest);
            lemma_run_append::<T, C>(ci, events(item.spec_children()[i as int]), rest);
        }
        let child: &T = children[i];
        if visit_item(child, cb) {
            proof {
                let s = run::<T, C>(ci, events_from(item.spec_children(), item.rank(), i as int));
                assert(s.0 == cb@ && s.1);
                let r = run::<T, C>(c1, all);
                assert(r.0 == cb@ && r.1);
                lemma_run_append::<T, C>(c1, all, seq![(true, *item)]);
                lemma_run_append::<T, C>(c0, seq![(false, *item)], all + seq![(true, *item)]);
            }
            return true;
        }
        i = i + 1;
    }
    let ghost c2 = cb@;
    let stop = cb.call(true, item);
    proof {
        assert(events_from(item.spec_children(), item.rank(), i as int) =~= Seq::<(bool, T)>::empty());
        lemma_run_append::<T, C>(c1, all, seq![(true, *item)]);
        assert(seq![(true, *item)].drop_first() =~= Seq::<(bool, T)>::empty());
        assert(run::<T, C>(cb@, seq![(true, *item)].drop_first()) == (cb@, false, 0nat));
        lemma_run_append::<T, C>(c0, seq![(false, *item)], all + seq![(true, *item)]);
    }
    stop
}

/// The calls for a traversal that starts from `items[i..]`, in order.
pub open spec fn events_of_items<T: TreeNode>(items: Seq<T>, i: int) -> Seq<(bool, T)>
    decreases items.len() - i,
{
    if 0 <= i < items.len() {
        events(items[i]) + events_of_items(items, i + 1)
    } else {
        Seq::empty()
    }
}

/// Visits every item of `v` with its subtree, in order, until the callback
/// asks to stop; returns whether it did.
pub fn visit<T: TreeNode, V: Visitor<T>, C: VisitCallback<T>>(v: &V, cb: &mut C) -> (stop: bool)
    ensures
        (final(cb)@, stop) == ({
            let r = run::<T, C>(old(cb)@, events_of_items(v.spec_items(), 0));
            (r.0, r.1)
        }),
{
    let items = v.items();
    let ghost c0 = cb@;
    let mut i: usize = 0;
    while i < items.len()
        invariant
            items@.len() == v.spec_items().len(),
            forall|k: int| 0 <= k < items@.len() ==> *items@[k] == v.spec_items()[k],
            i <= items@.len(),
            c0 == old(cb)@,
            ({
                let r = run::<T, C>(c0, events_of_items(v.spec_items(), 0));
                let s = run::<T, C>(cb@, events_of_items(v.spec_items(), i as int));
                (r.0, r.1) == (s.0, s.1)
            }),
        decreases items@.len() - i,
    {
        let ghost ci = cb@;
        proof {
            lemma_run_append::<T, C>(
                ci,
                events(v.spec_items()[i as int]),
                events_of_items(v.spec_items(), i as int + 1),
            );
        }
        let item: &T = items[i];
        if visit_item(item, cb) {
            return true;
        }
        i = i + 1;
    }
    proof {
        assert(events_of_items(v.spec_items(), i as int) =~= Seq::<(bool, T)>::empty());
    }
    false
}

/// A callback that only hears of nodes being entered.
pub struct PreOrder<C> {
    pub inner: C,
}

impl<C: View> View for PreOrder<C> {
    type V = C::V;

    open spec fn view(&self) -> C::V {
        self.inner@
    }
}

impl<T, C: VisitCallback<T>> VisitCallback<T> for PreOrder<C> {
    open spec fn step(state: C::V, leaving: bool, node: T) -> (C::V, bool) {
        if leaving {
            (state, false)
        } else {
            C::step(state, false, node)
        }
    }

    fn call(&mut self, leaving: bool, node: &T) -> (stop: bool) {
        if leaving {
            false
        } else {
            self.inner.call(false, node)
        }
    }
}

/// A callback that only hears of nodes being left.
pub struct PostOrder<C> {
    pub inner: C,
}

impl<C: View> View for PostOrder<C> {
    type V = C::V;

    open spec fn view(&self) -> C::V {
        self.inner@
    }
}

impl<T, C: VisitCallback<T>> VisitCallback<T> for PostOrder<C> {
    open spec fn step(state: C::V, leaving: bool, node: T) -> (C::V, bool) {
        if leaving {
            C::step(state, true, node)
        } else {
            (state, false)
        }
    }

    fn call(&mut self, leaving: bool, node: &T) -> (stop: bool) {
        if leaving {
            self.inner.call(true, node)
        } else {
            false
        }
    }
}

/// Visits the items of `v` in pre-order: `cb` hears only of nodes entered.
pub fn visit_pre<T: TreeNode, V: Visitor<T>, C: VisitCallback<T>>(v: &V, cb: C) -> (r: (C, bool))
    ensures
        (r.0@, r.1) == ({
            let x = run::<T, PreOrder<C>>(cb@, events_of_items(v.spec_items(), 0));
            (x.0, x.1)
        }),
{
    let mut w = PreOrder { inner: cb };
    let stop = visit(v, &mut w);
    (w.inner, stop)
}

/// Visits the items of `v` in post-order: `cb` hears only of nodes left.
pub fn visit_post<T: TreeNode, V: Visitor<T>, C: VisitCallback<T>>(v: &V, cb: C) -> (r: (C, bool))
    ensures
        (r.0@, r.1) == ({
            let x = run::<T, PostOrder<C>>(cb@, events_of_items(v.spec_items(), 0));
            (x.0, x.1)
        }),
{
    let mut w = PostOrder { inner: cb };
    let stop = visit(v, &mut w);
    (w.inner, stop)
}

/// The number of nodes in the subtree of `n`.
pub open spec fn node_count<T: TreeNode>(n: T) -> nat
    decreases n.rank() + 1, 0nat,
{
    1 + count_from(n.spec_children(), n.rank(), 0)
}

/// The number of nodes in the subtrees of `items[i..]`.
pub open spec fn count_from<T: TreeNode>(items: Seq<T>, bound: nat, i: int) -> nat
    decreases bound, items.len() - i,
{
    if 0 <= i < items.len() && items[i].rank() < bound {
        node_count(items[i]) + count_from(items, bound, i + 1)
    } else {
        0
    }
}

proof fn lemma_events_len<T: TreeNode>(n: T)
    ensures
        events(n).len() == 2 * node_count(n),
    decreases n.rank() + 1, 0nat,
{
    lemma_events_from_len(n.spec_children(), n.rank(), 0);
}

proof fn lemma_events_from_len<T: TreeNode>(items: Seq<T>, bound: nat, i: int)
    ensures
        events_from(items, bound, i).len() == 2 * count_from(items, bound, i),
    decreases bound, items.len() - i,
{
    if 0 <= i < items.len() && items[i].rank() < bound {
        lemma_events_len(items[i]);
        lemma_events_from_len(items, bound, i + 1);
    }
}

proof fn lemma_run_without_stop<T, C: VisitCallback<T>>(c: C::V, evs: Seq<(bool, T)>)
    requires
        forall|s: C::V, leaving: bool, m: T| !(#[trigger] C::step(s, leaving, m)).1,
    ensures
        !run::<T, C>(c, evs).1,
        run::<T, C>(c, evs).2 == evs.len(),
    decreases evs.len(),
{
    if evs.len() > 0 {
        lemma_run_without_stop::<T, C>(C::step(c, evs[0].0, evs[0].1).0, evs.drop_first());
    }
}

/// A traversal of a tree of `N` nodes by a callback that never stops calls
/// it exactly `2N` times; each node is entered first, then its children are
/// visited in order, then it is left.
pub proof fn lemma_traversal_complete<T: TreeNode, C: VisitCallback<T>>(c: C::V, root: T)
    requires
        forall|s: C::V, leaving: bool, m: T| !(#[trigger] C::step(s, leaving, m)).1,
    ensures
        !run::<T, C>(c, events(root)).1,
        run::<T, C>(c, events(root)).2 == 2 * node_count(root),
        events(root) == seq![(false, root)] + events_from(root.spec_children(), root.rank(), 0)
            + seq![(true, root)],
{
    lemma_events_len(root);
    lemma_run_without_stop::<T, C>(c, events(root));
}

/// A callback that asks to stop on entering the root is called once: no
/// child is visited and the root is never left.
pub proof fn lemma_cancel_at_root<T: TreeNode, C: VisitCallback<T>>(c: C::V, root: T)
    requires
        C::step(c, false, root).1,
    ensures
        run::<T, C>(c, events(root)) == (C::step(c, false, root).0, true, 1nat),
{
    assert(events(root)[0] == (false, root));
}

} // verus!
