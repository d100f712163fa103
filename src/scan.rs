//! Pre-order searches over a tree stage: a scanner judges each node entered,
//! and a collector gathers its findings until one node breaks an invariant.
use vstd::prelude::*;
use crate::ast::Loc;
use crate::visitor::{TreeNode, VisitCallback, Visitor, events_of_items, run, visit};

verus! {

/// Where a finding points: a source range, or the package manifest.
#[derive(Clone, Copy, Debug, PartialEq, Eq, Structural)]
pub enum Site {
    Source(Loc),
    Manifest,
}

/// One offending node: where it is, and an optional refined description.
#[derive(Debug)]
pub struct Finding {
    pub loc: Site,
    pub description: Option<String>,
}

pub struct FindingView {
    pub loc: Site,
    pub description: Option<Seq<char>>,
}

impl View for Finding {
    type V = FindingView;

    open spec fn view(&self) -> FindingView {
        FindingView {
            loc: self.loc,
            description: match self.description {
                Some(d) => Some(d@),
                None => None,
            },
        }
    }
}

/// What a scanner makes of one node.
#[derive(Debug)]
pub enum ScanOutcome {
    Skip,
    Hit(Finding),
    /// The node does not have the shape the language guarantees.
    Fail,
}

pub enum ScanSpec {
    Skip,
    Hit(FindingView),
    Fail,
}

impl View for ScanOutcome {
    type V = ScanSpec;

    open spec fn view(&self) -> ScanSpec {
        match self {
            ScanOutcome::Skip => ScanSpec::Skip,
            ScanOutcome::Hit(f) => ScanSpec::Hit(f@),
            ScanOutcome::Fail => ScanSpec::Fail,
        }
    }
}

/// A rule's judgement of single nodes of type `T`.
pub trait Scanner<T> {
    spec fn spec_scan(node: T) -> ScanSpec;

    fn scan(&self, node: &T) -> (r: ScanOutcome)
        ensures
            r@ == Self::spec_scan(*node),
    ;
}

/// The findings of `S` over `nodes`, in order, up to the first failure, and
/// whether a failure came.
pub open spec fn scan_nodes<T, S: Scanner<T>>(nodes: Seq<T>) -> (Seq<FindingView>, bool)
    decreases nodes.len(),
{
    if nodes.len() == 0 {
        (Seq::empty(), false)
    } else {
        match S::spec_scan(nodes[0]) {
            ScanSpec::Skip => scan_nodes::<T, S>(nodes.drop_first()),
            ScanSpec::Hit(h) => {
                let r = scan_nodes::<T, S>(nodes.drop_first());
                (seq![h] + r.0, r.1)
            },
            ScanSpec::Fail => (Seq::empty(), true),
        }
    }
}

pub proof fn lemma_scan_append<T, S: Scanner<T>>(a: Seq<T>, b: Seq<T>)
    ensures
        scan_nodes::<T, S>(a + b) == if scan_nodes::<T, S>(a).1 {
            scan_nodes::<T, S>(a)
        } else {
            (scan_nodes::<T, S>(a).0 + scan_nodes::<T, S>(b).0, scan_nodes::<T, S>(b).1)
        },
    decreases a.len(),
{
    if a.len() == 0 {
        assert(a + b =~= b);
        assert(Seq::<FindingView>::empty() + scan_nodes::<T, S>(b).0 =~= scan_nodes::<T, S>(b).0);
    } else {
        assert((a + b)[0] == a[0]);
        assert((a + b).drop_first() =~= a.drop_first() + b);
        lemma_scan_append::<T, S>(a.drop_first(), b);
        match S::spec_scan(a[0]) {
            ScanSpec::Hit(h) => {
                let ra = scan_nodes::<T, S>(a.drop_first());
                assert(seq![h] + (ra.0 + scan_nodes::<T, S>(b).0) =~= (seq![h] + ra.0) + scan_nodes::<T, S>(
                    b,
                ).0);
            },
            _ => {},
        }
    }
}

/// The nodes entered by the calls `evs`, in order.
pub open spec fn entered<T>(evs: Seq<(bool, T)>) -> Seq<T>
    decreases evs.len(),
{
    if evs.len() == 0 {
        Seq::empty()
    } else if !evs[0].0 {
        seq![evs[0].1] + entered(evs.drop_first())
    } else {
        entered(evs.drop_first())
    }
}

/// A callback that runs a scanner on every node entered and keeps its
/// findings; it stops at the first failure.
pub struct Collector<S> {
    pub scanner: S,
    pub hits: Vec<Finding>,
    pub failed: bool,
}

impl<S> View for Collector<S> {
    type V = (Seq<FindingView>, bool);

    open spec fn view(&self) -> (Seq<FindingView>, bool) {
        (self.hits@.map_values(|f: Finding| f@), self.failed)
    }
}

impl<T, S: Scanner<T>> VisitCallback<T> for Collector<S> {
    open spec fn step(state: (Seq<FindingView>, bool), leaving: bool, node: T) -> (
        (Seq<FindingView>, bool),
        bool,
    ) {
        if leaving || state.1 {
            (state, false)
        } else {
            match S::spec_scan(node) {
                ScanSpec::Skip => (state, false),
                ScanSpec::Hit(h) => ((state.0.push(h), false), false),
                ScanSpec::Fail => ((state.0, true), true),
            }
        }
    }

    fn call(&mut self, leaving: bool, node: &T) -> (stop: bool) {
        if leaving || self.failed {
            return false;
        }
        match self.scanner.scan(node) {
            ScanOutcome::Skip => false,
            ScanOutcome::Hit(f) => {
                let ghost before = self.hits@.map_values(|f: Finding| f@);
                let ghost v = f@;
                self.hits.push(f);
                assert(self.hits@.map_values(|f: Finding| f@) =~= before.push(v));
                false
            },
            ScanOutcome::Fail => {
                self.failed = true;
                true
            },
        }
    }
}

/// Running a collector that has not failed over calls `evs` scans the nodes
/// they enter.
pub proof fn lemma_collector_run<T, S: Scanner<T>>(h: Seq<FindingView>, evs: Seq<(bool, T)>)
    ensures
        ({
            let r = run::<T, Collector<S>>((h, false), evs);
            let s = scan_nodes::<T, S>(entered(evs));
            r.0 == (h + s.0, s.1) && r.1 == s.1
        }),
    decreases evs.len(),
{
    if evs.len() == 0 {
        assert(h + Seq::<FindingView>::empty() =~= h);
    } else {
        let rest = evs.drop_first();
        if evs[0].0 {
            lemma_collector_run::<T, S>(h, rest);
        } else {
            let n = evs[0].1;
            assert(entered(evs) == seq![n] + entered(rest));
            assert((seq![n] + entered(rest))[0] == n);
            assert((seq![n] + entered(rest)).drop_first() =~= entered(rest));
            match S::spec_scan(n) {
                ScanSpec::Skip => {
                    lemma_collector_run::<T, S>(h, rest);
                },
                ScanSpec::Hit(x) => {
                    lemma_collector_run::<T, S>(h.push(x), rest);
                    let s = scan_nodes::<T, S>(entered(rest));
                    assert(h.push(x) + s.0 =~= h + (seq![x] + s.0));
                },
                ScanSpec::Fail => {
                    assert(h + Seq::<FindingView>::empty() =~= h);
                },
            }
        }
    }
}

/// The nodes that pre-order traversals of `roots[i..]` enter, in order.
pub open spec fn roots_nodes<T: TreeNode, V: Visitor<T>>(roots: Seq<V>, i: int) -> Seq<T>
    decreases roots.len() - i,
{
    if 0 <= i < roots.len() {
        entered(events_of_items(roots[i].spec_items(), 0)) + roots_nodes(roots, i + 1)
    } else {
        Seq::empty()
    }
}

/// Scans every node of every root, root by root, until a failure.
pub fn scan_roots<T: TreeNode, V: Visitor<T>, S: Scanner<T>>(roots: &Vec<&V>, scanner: S) -> (r: (
    Vec<Finding>,
    bool,
))
    ensures
        (r.0@.map_values(|f: Finding| f@), r.1) == scan_nodes::<T, S>(
            roots_nodes(roots@.map_values(|v: &V| *v), 0),
        ),
{
    let ghost rs = roots@.map_values(|v: &V| *v);
    let ghost all = roots_nodes(rs, 0);
    let mut c = Collector { scanner, hits: Vec::new(), failed: false };
    proof {
        assert(c@.0 =~= Seq::<FindingView>::empty());
        assert(Seq::<FindingView>::empty() + scan_nodes::<T, S>(all).0 =~= scan_nodes::<T, S>(all).0);
    }
    let mut i: usize = 0;
    while i < roots.len()
        invariant
            rs == roots@.map_values(|v: &V| *v),
            all == roots_nodes(rs, 0),
            i <= roots@.len(),
            !c.failed,
            scan_nodes::<T, S>(all) == (c@.0 + scan_nodes::<T, S>(roots_nodes(rs, i as int)).0,
            scan_nodes::<T, S>(roots_nodes(rs, i as int)).1),
        decreases roots@.len() - i,
    {
        let ghost before = c@.0;
        let ghost here = entered(events_of_items(rs[i as int].spec_items(), 0));
        let ghost rest = roots_nodes(rs, i as int + 1);
        proof {
            assert(roots_nodes(rs, i as int) == here + rest);
            lemma_scan_append::<T, S>(here, rest);
            lemma_collector_run::<T, S>(before, events_of_items(rs[i as int].spec_items(), 0));
        }
        let root: &V = roots[i];
        visit(root, &mut c);
        if c.failed {
            return (c.hits, true);
        }
        proof {
            let sh = scan_nodes::<T, S>(here);
            let sr = scan_nodes::<T, S>(rest);
            assert(before + (sh.0 + sr.0) =~= (before + sh.0) + sr.0);
        }
        i = i + 1;
    }
    proof {
        assert(roots_nodes(rs, i as int) =~= Seq::<T>::empty());
        assert(c@.0 + Seq::<FindingView>::empty() =~= c@.0);
    }
    (c.hits, false)
}

} // verus!
