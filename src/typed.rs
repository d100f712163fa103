//! The typed tree stage: every expression carries its type.
use vstd::prelude::*;
use crate::ast::{BinOp, BuiltinFunction, Loc, ModuleIdent, Type, Value, Visibility};
use crate::visitor::{TreeNode, VisitCallback, Visitor};

verus! {

/// A local variable occurrence.
#[derive(Debug)]
pub struct Var {
    pub name: String,
    pub loc: Loc,
}

/// How an expression reads a local variable.
#[derive(Clone, Copy, Debug, PartialEq, Eq, Structural)]
pub enum VarUse {
    Use,
    Move,
    Copy,
    BorrowLocal,
}

/// The target of an assignment or binding.
#[derive(Debug)]
pub enum LValue {
    Ignore,
    Var(Var),
    /// A struct pattern, with the targets of its fields.
    Unpack(Vec<LValue>),
}

/// One item of a sequence of statements.
#[derive(Debug)]
pub enum SequenceItem {
    Expr(Exp),
    Declare(Vec<LValue>),
    Bind(Vec<LValue>, Exp),
}

/// The forms of expression.
#[derive(Debug)]
pub enum ExpKind {
    Value(Value),
    Var(VarUse, Var),
    ModuleCall { module: ModuleIdent, name: String, arguments: Box<Exp> },
    Builtin(BuiltinFunction, Box<Exp>),
    Block(Vec<SequenceItem>),
    Assign(Vec<LValue>, Box<Exp>),
    BinopExp(Box<Exp>, BinOp, Box<Exp>),
    Cast(Box<Exp>, Type),
    /// Any other form (conditionals, loops, borrows, packs, lists, ...),
    /// with its immediate sub-expressions in evaluation order.
    Other(Vec<Exp>),
}

/// An expression with its type and location.
#[derive(Debug)]
pub struct Exp {
    pub ty: Type,
    pub loc: Loc,
    pub kind: ExpKind,
}

/// A function body: statements, or none for a native function.
#[derive(Debug)]
pub enum FunctionBody {
    Defined(Vec<SequenceItem>),
    Native,
}

#[derive(Debug)]
pub struct Function {
    pub loc: Loc,
    pub name: String,
    pub visibility: Visibility,
    pub parameters: Vec<Var>,
    pub body: FunctionBody,
}

#[derive(Debug)]
pub struct Module {
    pub ident: ModuleIdent,
    pub functions: Vec<Function>,
}

/// The expressions of the items `s[i..]` that hold one, in order.
pub open spec fn block_exps(s: Seq<SequenceItem>, i: int) -> Seq<Exp>
    decreases s.len() - i,
{
    if 0 <= i < s.len() {
        match s[i] {
            SequenceItem::Expr(e) => seq![e] + block_exps(s, i + 1),
            SequenceItem::Bind(_, e) => seq![e] + block_exps(s, i + 1),
            SequenceItem::Declare(_) => block_exps(s, i + 1),
        }
    } else {
        Seq::empty()
    }
}

/// The immediate sub-expressions that a traversal visits.
pub open spec fn sub_exps(e: Exp) -> Seq<Exp> {
    match e.kind {
        ExpKind::Block(items) => block_exps(items@, 0),
        ExpKind::ModuleCall { arguments, .. } => seq![*arguments],
        ExpKind::Builtin(_, a) => seq![*a],
        ExpKind::Assign(_, a) => seq![*a],
        ExpKind::Cast(a, _) => seq![*a],
        ExpKind::BinopExp(a, _, b) => seq![*a, *b],
        ExpKind::Other(es) => es@,
        _ => Seq::empty(),
    }
}

/// The number of expression nodes in `e`.
pub open spec fn exp_size(e: Exp) -> nat
    decreases e, 0nat,
{
    1 + match e.kind {
        ExpKind::Block(items) => items_size(items@, 0),
        ExpKind::ModuleCall { arguments, .. } => exp_size(*arguments),
        ExpKind::Builtin(_, a) => exp_size(*a),
        ExpKind::Assign(_, a) => exp_size(*a),
        ExpKind::Cast(a, _) => exp_size(*a),
        ExpKind::BinopExp(a, _, b) => exp_size(*a) + exp_size(*b),
        ExpKind::Other(es) => exps_size(es@, 0),
        _ => 0,
    }
}

pub open spec fn items_size(s: Seq<SequenceItem>, i: int) -> nat
    decreases s, s.len() - i,
{
    if 0 <= i < s.len() {
        match s[i] {
            SequenceItem::Expr(e) => exp_size(e) + items_size(s, i + 1),
            SequenceItem::Bind(_, e) => exp_size(e) + items_size(s, i + 1),
            SequenceItem::Declare(_) => items_size(s, i + 1),
        }
    } else {
        0
    }
}

pub open spec fn exps_size(s: Seq<Exp>, i: int) -> nat
    decreases s, s.len() - i,
{
    if 0 <= i < s.len() {
        exp_size(s[i]) + exps_size(s, i + 1)
    } else {
        0
    }
}

proof fn lemma_exps_size(s: Seq<Exp>, i: int, k: int)
    requires
        0 <= i <= k < s.len(),
    ensures
        exp_size(s[k]) <= exps_size(s, i),
    decreases k - i,
{
    if i < k {
        lemma_exps_size(s, i + 1, k);
    }
}

proof fn lemma_block_size(s: Seq<SequenceItem>, i: int, k: int)
    requires
        0 <= i,
        0 <= k < block_exps(s, i).len(),
    ensures
        exp_size(block_exps(s, i)[k]) <= items_size(s, i),
    decreases s.len() - i,
{
    if 0 <= i < s.len() {
        match s[i] {
            SequenceItem::Declare(_) => {
                lemma_block_size(s, i + 1, k);
            },
            _ => {
                if k > 0 {
                    lemma_block_size(s, i + 1, k - 1);
                }
            },
        }
    }
}

/// References to the expressions of the items of a block, in order.
fn block_refs(items: &Vec<SequenceItem>) -> (r: Vec<&Exp>)
    ensures
        r@.len() == block_exps(items@, 0).len(),
        forall|k: int| 0 <= k < r@.len() ==> *r@[k] == block_exps(items@, 0)[k],
{
    let mut r: Vec<&Exp> = Vec::new();
    let mut i: usize = 0;
    while i < items.len()
        invariant
            i <= items@.len(),
            r@.len() + block_exps(items@, i as int).len() == block_exps(items@, 0).len(),
            forall|k: int| 0 <= k < r@.len() ==> *r@[k] == block_exps(items@, 0)[k],
            forall|k: int|
                0 <= k < block_exps(items@, i as int).len() ==> block_exps(items@, i as int)[k]
                    == block_exps(items@, 0)[r@.len() + k],
        decreases items@.len() - i,
    {
        let ghost rest = block_exps(items@, i as int + 1);
        match &items[i] {
            SequenceItem::Expr(e) => {
                assert(block_exps(items@, i as int) == seq![*e] + rest);
                assert(block_exps(items@, i as int)[0] == *e);
                assert forall|k: int| 0 <= k < rest.len() implies rest[k] == block_exps(items@, 0)[r@.len()
                    + 1 + k] by {
                    assert(block_exps(items@, i as int)[k + 1] == rest[k]);
                }
                r.push(e);
            },
            SequenceItem::Bind(_, e) => {
                assert(block_exps(items@, i as int) == seq![*e] + rest);
                assert(block_exps(items@, i as int)[0] == *e);
                assert forall|k: int| 0 <= k < rest.len() implies rest[k] == block_exps(items@, 0)[r@.len()
                    + 1 + k] by {
                    assert(block_exps(items@, i as int)[k + 1] == rest[k]);
                }
                r.push(e);
            },
            SequenceItem::Declare(_) => {},
        }
        i = i + 1;
    }
    r
}

impl TreeNode for Exp {
    open spec fn spec_children(&self) -> Seq<Exp> {
        sub_exps(*self)
    }

    open spec fn rank(&self) -> nat {
        exp_size(*self)
    }

    fn children(&self) -> (r: Vec<&Exp>) {
        let r: Vec<&Exp> = match &self.kind {
            ExpKind::Block(items) => {
                let r = block_refs(items);
                proof {
                    assert forall|k: int| 0 <= k < r@.len() implies (#[trigger] self.spec_children()[k]).rank()
                        < self.rank() by {
                        lemma_block_size(items@, 0, k);
                    }
                }
                r
            },
            ExpKind::ModuleCall { arguments, .. } => vec![&**arguments],
            ExpKind::Builtin(_, a) => vec![&**a],
            ExpKind::Assign(_, a) => vec![&**a],
            ExpKind::Cast(a, _) => vec![&**a],
            ExpKind::BinopExp(a, _, b) => vec![&**a, &**b],
            ExpKind::Other(es) => {
                let mut r: Vec<&Exp> = Vec::new();
                let mut i: usize = 0;
                while i < es.len()
                    invariant
                        i <= es@.len(),
                        r@.len() == i,
                        forall|k: int| 0 <= k < i ==> *r@[k] == es@[k],
                    decreases es@.len() - i,
                {
                    r.push(&es[i]);
                    i = i + 1;
                }
                proof {
                    assert forall|k: int| 0 <= k < r@.len() implies (#[trigger] self.spec_children()[k]).rank()
                        < self.rank() by {
                        lemma_exps_size(es@, 0, k);
                    }
                }
                r
            },
            _ => Vec::new(),
        };
        r
    }
}

impl Visitor<Exp> for Function {
    open spec fn spec_items(&self) -> Seq<Exp> {
        match self.body {
            FunctionBody::Defined(items) => block_exps(items@, 0),
            FunctionBody::Native => Seq::empty(),
        }
    }

    fn items(&self) -> (r: Vec<&Exp>) {
        match &self.body {
            FunctionBody::Defined(items) => block_refs(items),
            FunctionBody::Native => Vec::new(),
        }
    }
}

/// Every function of `ms[i..]`, module by module, in order.
pub open spec fn all_functions(ms: Seq<Module>, i: int) -> Seq<Function>
    decreases ms.len() - i,
{
    if 0 <= i < ms.len() {
        ms[i].functions@ + all_functions(ms, i + 1)
    } else {
        Seq::empty()
    }
}

/// References to every function, module by module, in order.
pub fn functions(ms: &Vec<Module>) -> (r: Vec<&Function>)
    ensures
        r@.map_values(|f: &Function| *f) == all_functions(ms@, 0),
{
    let mut r: Vec<&Function> = Vec::new();
    let mut i: usize = 0;
    while i < ms.len()
        invariant
            i <= ms@.len(),
            r@.map_values(|f: &Function| *f) + all_functions(ms@, i as int) == all_functions(ms@, 0),
        decreases ms@.len() - i,
    {
        let fs = &ms[i].functions;
        let ghost start = r@.map_values(|f: &Function| *f);
        let mut j: usize = 0;
        while j < fs.len()
            invariant
                i < ms@.len(),
                fs@ == ms@[i as int].functions@,
                j <= fs@.len(),
                r@.map_values(|f: &Function| *f) == start + fs@.subrange(0, j as int),
            decreases fs@.len() - j,
        {
            let ghost prev = r@.map_values(|f: &Function| *f);
            r.push(&fs[j]);
            proof {
                assert(r@.map_values(|f: &Function| *f) =~= prev.push(fs@[j as int]));
                assert(fs@.subrange(0, j as int + 1) =~= fs@.subrange(0, j as int).push(fs@[j as int]));
                assert(r@.map_values(|f: &Function| *f) =~= start + fs@.subrange(0, j as int + 1));
            }
            j = j + 1;
        }
        proof {
            assert(fs@.subrange(0, j as int) =~= fs@);
            assert(start + fs@ + all_functions(ms@, i as int + 1) =~= start + (fs@ + all_functions(
                ms@,
                i as int + 1,
            )));
        }
        i = i + 1;
    }
    proof {
        let v = r@.map_values(|f: &Function| *f);
        assert(v + Seq::<Function>::empty() =~= v);
    }
    r
}

/// A callback that records each call, as whether it leaves and the node's
/// location, and asks to stop once it has received `stop_at` calls.
pub struct Trace {
    pub calls: Vec<(bool, Loc)>,
    pub stop_at: Option<usize>,
}

impl View for Trace {
    type V = (Seq<(bool, Loc)>, Option<usize>);

    open spec fn view(&self) -> (Seq<(bool, Loc)>, Option<usize>) {
        (self.calls@, self.stop_at)
    }
}

impl VisitCallback<Exp> for Trace {
    open spec fn step(state: (Seq<(bool, Loc)>, Option<usize>), leaving: bool, node: Exp) -> (
        (Seq<(bool, Loc)>, Option<usize>),
        bool,
    ) {
        let calls = state.0.push((leaving, node.loc));
        ((calls, state.1), state.1 == Some(calls.len() as usize))
    }

    fn call(&mut self, leaving: bool, node: &Exp) -> (stop: bool) {
        self.calls.push((leaving, node.loc));
        match self.stop_at {
            Some(n) => n == self.calls.len(),
            None => false,
        }
    }
}

} // verus!
