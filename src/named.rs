//! The name-resolved tree stage: expressions before type checking.
use vstd::prelude::*;
use crate::ast::{BuiltinFunction, Loc, ModuleIdent, Value};
use crate::visitor::{TreeNode, Visitor};

verus! {

/// The forms of expression that the rules tell apart.
#[derive(Debug)]
pub enum ExpKind {
    Value(Value),
    /// A built-in call with its argument list.
    Builtin(BuiltinFunction, Vec<Exp>),
    /// Any other form, with its immediate sub-expressions in order.
    Other(Vec<Exp>),
}

#[derive(Debug)]
pub struct Exp {
    pub loc: Loc,
    pub kind: ExpKind,
}

#[derive(Debug)]
pub struct Function {
    pub loc: Loc,
    pub name: String,
    /// The top-level expressions of the body; empty for a native function.
    pub body: Vec<Exp>,
}

#[derive(Debug)]
pub struct Module {
    pub ident: ModuleIdent,
    pub functions: Vec<Function>,
}

/// The immediate sub-expressions that a traversal visits.
pub open spec fn sub_exps(e: Exp) -> Seq<Exp> {
    match e.kind {
        ExpKind::Builtin(_, es) => es@,
        ExpKind::Other(es) => es@,
        ExpKind::Value(_) => Seq::empty(),
    }
}

/// The number of expression nodes in `e`.
pub open spec fn exp_size(e: Exp) -> nat
    decreases e, 0nat,
{
    1 + match e.kind {
        ExpKind::Builtin(_, es) => exps_size(es@, 0),
        ExpKind::Other(es) => exps_size(es@, 0),
        ExpKind::Value(_) => 0,
    }
}

pub open spec fn exps_size(s: Seq<Exp>, i: int) -> nat
    decreases s, s.len() - i,
{
    if 0 <= i < s.len() {
        exp_size(s[i]) + exps_size(s, i + 1)
    } else {
        0
    }
}

proof fn lemma_exps_size(s: Seq<Exp>, i: int, k: int)
    requires
        0 <= i <= k < s.len(),
    ensures
        exp_size(s[k]) <= exps_size(s, i),
    decreases k - i,
{
    if i < k {
        lemma_exps_size(s, i + 1, k);
    }
}

/// References to the elements of `es`, in order.
fn refs(es: &Vec<Exp>) -> (r: Vec<&Exp>)
    ensures
        r@.len() == es@.len(),
        forall|k: int| 0 <= k < r@.len() ==> *r@[k] == es@[k],
{
    let mut r: Vec<&Exp> = Vec::new();
    let mut i: usize = 0;
    while i < es.len()
        invariant
            i <= es@.len(),
            r@.len() == i,
            forall|k: int| 0 <= k < i ==> *r@[k] == es@[k],
        decreases es@.len() - i,
    {
        r.push(&es[i]);
        i = i + 1;
    }
    r
}

impl TreeNode for Exp {
    open spec fn spec_children(&self) -> Seq<Exp> {
        sub_exps(*self)
    }

    open spec fn rank(&self) -> nat {
        exp_size(*self)
    }

    fn children(&self) -> (r: Vec<&Exp>) {
        match &self.kind {
            ExpKind::Builtin(_, es) | ExpKind::Other(es) => {
                let r = refs(es);
                proof {
                    assert forall|k: int| 0 <= k < r@.len() implies (#[trigger] self.spec_children()[k]).rank()
                        < self.rank() by {
                        lemma_exps_size(es@, 0, k);
                    }
                }
                r
            },
            ExpKind::Value(_) => Vec::new(),
        }
    }
}

impl Visitor<Exp> for Function {
    open spec fn spec_items(&self) -> Seq<Exp> {
        self.body@
    }

    fn items(&self) -> (r: Vec<&Exp>) {
        refs(&self.body)
    }
}

/// Every function of `ms[i..]`, module by module, in order.
pub open spec fn all_functions(ms: Seq<Module>, i: int) -> Seq<Function>
    decreases ms.len() - i,
{
    if 0 <= i < ms.len() {
        ms[i].functions@ + all_functions(ms, i + 1)
    } else {
        Seq::empty()
    }
}

/// References to every function, module by module, in order.
pub fn functions(ms: &Vec<Module>) -> (r: Vec<&Function>)
    ensures
        r@.map_values(|f: &Function| *f) == all_functions(ms@, 0),
{
    let mut r: Vec<&Function> = Vec::new();
    let mut i: usize = 0;
    while i < ms.len()
        invariant
            i <= ms@.len(),
            r@.map_values(|f: &Function| *f) + all_functions(ms@, i as int) == all_functions(ms@, 0),
        decreases ms@.len() - i,
    {
        let fs = &ms[i].functions;
        let ghost start = r@.map_values(|f: &Function| *f);
        let mut j: usize = 0;
        while j < fs.len()
            invariant
                i < ms@.len(),
                fs@ == ms@[i as int].functions@,
                j <= fs@.len(),
                r@.map_values(|f: &Function| *f) == start + fs@.subrange(0, j as int),
            decreases fs@.len() - j,
        {
            let ghost prev = r@.map_values(|f: &Function| *f);
            r.push(&fs[j]);
            proof {
                assert(r@.map_values(|f: &Function| *f) =~= prev.push(fs@[j as int]));
                assert(fs@.subrange(0, j as int + 1) =~= fs@.subrange(0, j as int).push(fs@[j as int]));
                assert(r@.map_values(|f: &Function| *f) =~= start + fs@.subrange(0, j as int + 1));
            }
            j = j + 1;
        }
        proof {
            assert(fs@.subrange(0, j as int) =~= fs@);
            assert(start + fs@ + all_functions(ms@, i as int + 1) =~= start + (fs@ + all_functions(
                ms@,
                i as int + 1,
            )));
        }
        i = i + 1;
    }
    proof {
        let v = r@.map_values(|f: &Function| *f);
        assert(v + Seq::<Function>::empty() =~= v);
    }
    r
}

} // verus!
