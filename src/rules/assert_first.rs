//! Assertions on parameters that come after other statements of a body:
//! placed first, a failing check would abort before spending gas.
//!
//! A pass walks each function body in order with the set of parameters not
//! yet rebound. An assertion is out of place when a statement of the body
//! before it, or the statement holding it, is not a built-in call. Within
//! such an assertion, each read of a parameter still bound is a finding.
use vstd::prelude::*;
use crate::ast::{BuiltinFunction, Loc};
use crate::text::str_eq;
use crate::typed::{all_functions, Exp, ExpKind, Function, FunctionBody, LValue, SequenceItem, VarUse};

verus! {

/// The state of a pass over one body.
pub struct Pass {
    pub params: Set<Seq<char>>,
    pub mixed: bool,
    pub hits: Seq<Loc>,
}

/// `params` without the names that `lv` binds.
pub open spec fn unbind(params: Set<Seq<char>>, lv: LValue) -> Set<Seq<char>>
    decreases lv, 0nat,
{
    match lv {
        LValue::Ignore => params,
        LValue::Var(v) => params.remove(v.name@),
        LValue::Unpack(ls) => unbind_all(params, ls@, 0),
    }
}

pub open spec fn unbind_all(params: Set<Seq<char>>, ls: Seq<LValue>, i: int) -> Set<Seq<char>>
    decreases ls, ls.len() - i,
{
    if 0 <= i < ls.len() {
        unbind_all(unbind(params, ls[i]), ls, i + 1)
    } else {
        params
    }
}

/// The pass over expression `e`; `in_assert` tells whether `e` lies in an
/// assertion out of place.
pub open spec fn pass_exp(e: Exp, st: Pass, in_assert: bool) -> Pass
    decreases e, 0nat,
{
    if st.params.is_empty() {
        st
    } else {
        match e.kind {
            ExpKind::Assign(lvs, a) => pass_exp(
                *a,
                Pass { params: unbind_all(st.params, lvs@, 0), ..st },
                in_assert,
            ),
            ExpKind::Builtin(f, a) => pass_exp(
                *a,
                st,
                in_assert || (f == BuiltinFunction::Assert && st.mixed),
            ),
            ExpKind::Var(u, v) => if u != VarUse::BorrowLocal && in_assert && st.params.contains(
                v.name@,
            ) {
                Pass { hits: st.hits.push(v.loc), ..st }
            } else {
                st
            },
            ExpKind::Block(items) => {
                let inner = pass_items(items@, 0, st, false, in_assert);
                Pass { params: st.params, ..inner }
            },
            ExpKind::ModuleCall { arguments, .. } => pass_exp(*arguments, st, in_assert),
            ExpKind::Cast(a, _) => pass_exp(*a, st, in_assert),
            ExpKind::BinopExp(a, _, b) => pass_exp(*b, pass_exp(*a, st, in_assert), in_assert),
            ExpKind::Other(es) => pass_exps(es@, 0, st, in_assert),
            ExpKind::Value(_) => st,
        }
    }
}

pub open spec fn pass_exps(es: Seq<Exp>, i: int, st: Pass, in_assert: bool) -> Pass
    decreases es, es.len() - i,
{
    if 0 <= i < es.len() {
        pass_exps(es, i + 1, pass_exp(es[i], st, in_assert), in_assert)
    } else {
        st
    }
}

/// Whether a statement is a built-in call.
pub open spec fn is_builtin_stmt(item: SequenceItem) -> bool {
    item matches SequenceItem::Expr(e) && e.kind is Builtin
}

/// The pass over `items[i..]`; `is_body` tells whether they are the
/// statements of the function body itself.
pub open spec fn pass_items(items: Seq<SequenceItem>, i: int, st: Pass, is_body: bool, in_assert: bool) -> Pass
    decreases items, items.len() - i,
{
    if 0 <= i < items.len() {
        let st1 = if is_body && !is_builtin_stmt(items[i]) {
            Pass { mixed: true, ..st }
        } else {
            st
        };
        let st2 = match items[i] {
            SequenceItem::Bind(lvs, _) => Pass { params: unbind_all(st1.params, lvs@, 0), ..st1 },
            SequenceItem::Declare(lvs) => Pass { params: unbind_all(st1.params, lvs@, 0), ..st1 },
            SequenceItem::Expr(e) => pass_exp(e, st1, in_assert),
        };
        pass_items(items, i + 1, st2, is_body, in_assert)
    } else {
        st
    }
}

/// The names that `v` holds.
pub open spec fn name_set(v: Seq<Seq<char>>) -> Set<Seq<char>> {
    Set::new(|s: Seq<char>| v.contains(s))
}

/// The findings of the pass over function `f`, after `hits`.
pub open spec fn pass_function(f: Function, hits: Seq<Loc>) -> Seq<Loc> {
    let params = name_set(f.parameters@.map_values(|v: crate::typed::Var| v.name@));
    if f.parameters@.len() == 0 {
        hits
    } else {
        match f.body {
            FunctionBody::Defined(items) => pass_items(
                items@,
                0,
                Pass { params, mixed: false, hits },
                true,
                false,
            ).hits,
            FunctionBody::Native => hits,
        }
    }
}

proof fn lemma_push_contains(q: Seq<Seq<char>>, x: Seq<char>, s: Seq<char>)
    ensures
        q.push(x).contains(s) <==> (q.contains(s) || x == s),
{
    if q.push(x).contains(s) {
        let k = choose|k: int| 0 <= k < q.len() + 1 && #[trigger] q.push(x)[k] == s;
        if k < q.len() {
            assert(q[k] == s);
        }
    }
    if q.contains(s) {
        let k = choose|k: int| 0 <= k < q.len() && #[trigger] q[k] == s;
        assert(q.push(x)[k] == s);
    }
    if x == s {
        assert(q.push(x)[q.len() as int] == s);
    }
}

/// A set of names, borrowed from the tree.
struct Params<'a> {
    names: Vec<&'a str>,
}

impl<'a> View for Params<'a> {
    type V = Set<Seq<char>>;

    closed spec fn view(&self) -> Set<Seq<char>> {
        name_set(self.names@.map_values(|n: &str| n@))
    }
}

impl<'a> Params<'a> {
    fn contains(&self, name: &str) -> (r: bool)
        ensures
            r == self@.contains(name@),
    {
        let ghost v = self.names@.map_values(|n: &str| n@);
        let mut i: usize = 0;
        while i < self.names.len()
            invariant
                v == self.names@.map_values(|n: &str| n@),
                i <= v.len(),
                forall|k: int| 0 <= k < i ==> v[k] != name@,
            decreases v.len() - i,
        {
            if str_eq(self.names[i], name) {
                assert(v[i as int] == name@);
                return true;
            }
            i = i + 1;
        }
        false
    }

    fn is_empty(&self) -> (r: bool)
        ensures
            r == self@.is_empty(),
    {
        let ghost v = self.names@.map_values(|n: &str| n@);
        if self.names.len() == 0 {
            assert(self@ =~= Set::<Seq<char>>::empty());
            true
        } else {
            assert(self@.contains(v[0]));
            false
        }
    }

    fn remove(&mut self, name: &str)
        ensures
            final(self)@ == old(self)@.remove(name@),
    {
        let ghost v = self.names@.map_values(|n: &str| n@);
        let mut kept: Vec<&'a str> = Vec::new();
        let mut i: usize = 0;
        while i < self.names.len()
            invariant
                v == self.names@.map_values(|n: &str| n@),
                v == old(self).names@.map_values(|n: &str| n@),
                i <= v.len(),
                forall|s: Seq<char>|
                    kept@.map_values(|n: &str| n@).contains(s) <==> (v.subrange(0, i as int).contains(s)
                        && s != name@),
            decreases v.len() - i,
        {
            let n = self.names[i];
            let ghost before = kept@.map_values(|n: &str| n@);
            if !str_eq(n, name) {
                kept.push(n);
            }
            proof {
                let after = kept@.map_values(|n: &str| n@);
                let pre = v.subrange(0, i as int);
                assert(v.subrange(0, i as int + 1) =~= pre.push(n@));
                if n@ != name@ {
                    assert(after =~= before.push(n@));
                } else {
                    assert(after =~= before);
                }
                assert forall|s: Seq<char>| after.contains(s) <==> (v.subrange(0, i as int + 1).contains(s)
                    && s != name@) by {
                    lemma_push_contains(pre, n@, s);
                    lemma_push_contains(before, n@, s);
                }
            }
            i = i + 1;
        }
        self.names = kept;
        proof {
            assert(v.subrange(0, i as int) =~= v);
            assert(self@ =~= old(self)@.remove(name@));
        }
    }

    fn copy(&self) -> (r: Self)
        ensures
            r@ == self@,
    {
        let mut names: Vec<&'a str> = Vec::new();
        let mut i: usize = 0;
        while i < self.names.len()
            invariant
                i <= self.names@.len(),
                names@ == self.names@.subrange(0, i as int),
            decreases self.names@.len() - i,
        {
            names.push(self.names[i]);
            proof {
                assert(names@ =~= self.names@.subrange(0, i as int + 1));
            }
            i = i + 1;
        }
        proof {
            assert(names@ =~= self.names@);
        }
        Self { names }
    }
}

struct PassState<'a> {
    params: Params<'a>,
    mixed: bool,
    hits: Vec<Loc>,
}

impl<'a> View for PassState<'a> {
    type V = Pass;

    closed spec fn view(&self) -> Pass {
        Pass { params: self.params@, mixed: self.mixed, hits: self.hits@ }
    }
}

fn unbind_exec<'a>(params: &mut Params<'a>, lv: &LValue)
    ensures
        final(params)@ == unbind(old(params)@, *lv),
    decreases lv,
{
    match lv {
        LValue::Ignore => {},
        LValue::Var(v) => params.remove(v.name.as_str()),
        LValue::Unpack(ls) => unbind_all_exec(params, ls),
    }
}

fn unbind_all_exec<'a>(params: &mut Params<'a>, ls: &Vec<LValue>)
    ensures
        final(params)@ == unbind_all(old(params)@, ls@, 0),
    decreases ls@,
{
    let mut i: usize = 0;
    while i < ls.len()
        invariant
            i <= ls@.len(),
            unbind_all(old(params)@, ls@, 0) == unbind_all(params@, ls@, i as int),
        decreases ls@.len() - i,
    {
        unbind_exec(params, &ls[i]);
        i = i + 1;
    }
}

fn pass_exp_exec<'a>(e: &'a Exp, st: &mut PassState<'a>, in_assert: bool)
    ensures
        final(st)@ == pass_exp(*e, old(st)@, in_assert),
    decreases e,
{
    if st.params.is_empty() {
        return;
    }
    match &e.kind {
        ExpKind::Assign(lvs, a) => {
            unbind_all_exec(&mut st.params, lvs);
            pass_exp_exec(a, st, in_assert);
        },
        ExpKind::Builtin(f, a) => {
            let ia = in_assert || (*f == BuiltinFunction::Assert && st.mixed);
            pass_exp_exec(a, st, ia);
        },
        ExpKind::Var(u, v) => {
            if *u != VarUse::BorrowLocal && in_assert && st.params.contains(v.name.as_str()) {
                st.hits.push(v.loc);
            }
        },
        ExpKind::Block(items) => {
            let saved = st.params.copy();
            pass_items_exec(items, st, false, in_assert);
            st.params = saved;
        },
        ExpKind::ModuleCall { arguments, .. } => pass_exp_exec(arguments, st, in_assert),
        ExpKind::Cast(a, _) => pass_exp_exec(a, st, in_assert),
        ExpKind::BinopExp(a, _, b) => {
            pass_exp_exec(a, st, in_assert);
            pass_exp_exec(b, st, in_assert);
        },
        ExpKind::Other(es) => pass_exps_exec(es, st, in_assert),
        ExpKind::Value(_) => {},
    }
}

fn pass_exps_exec<'a>(es: &'a Vec<Exp>, st: &mut PassState<'a>, in_assert: bool)
    ensures
        final(st)@ == pass_exps(es@, 0, old(st)@, in_assert),
    decreases es@,
{
    let mut i: usize = 0;
    while i < es.len()
        invariant
            i <= es@.len(),
            pass_exps(es@, 0, old(st)@, in_assert) == pass_exps(es@, i as int, st@, in_assert),
        decreases es@.len() - i,
    {
        pass_exp_exec(&es[i], st, in_assert);
        i = i + 1;
    }
}

fn pass_items_exec<'a>(items: &'a Vec<SequenceItem>, st: &mut PassState<'a>, is_body: bool, in_assert: bool)
    ensures
        final(st)@ == pass_items(items@, 0, old(st)@, is_body, in_assert),
    decreases items@,
{
    let mut i: usize = 0;
    while i < items.len()
        invariant
            i <= items@.len(),
            pass_items(items@, 0, old(st)@, is_body, in_assert) == pass_items(
                items@,
                i as int,
                st@,
                is_body,
                in_assert,
            ),
        decreases items@.len() - i,
    {
        let item = &items[i];
        let builtin = match item {
            SequenceItem::Expr(e) => match &e.kind {
                ExpKind::Builtin(_, _) => true,
                _ => false,
            },
            _ => false,
        };
        if is_body && !builtin {
            st.mixed = true;
        }
        match item {
            SequenceItem::Bind(lvs, _) => unbind_all_exec(&mut st.params, lvs),
            SequenceItem::Declare(lvs) => unbind_all_exec(&mut st.params, lvs),
            SequenceItem::Expr(e) => pass_exp_exec(e, st, in_assert),
        }
        i = i + 1;
    }
}

/// The findings of the passes over `fs[i..]`, after `hits`.
pub open spec fn functions_hits(fs: Seq<Function>, i: int, hits: Seq<Loc>) -> Seq<Loc>
    decreases fs.len() - i,
{
    if 0 <= i < fs.len() {
        functions_hits(fs, i + 1, pass_function(fs[i], hits))
    } else {
        hits
    }
}

fn pass_function_exec<'a>(f: &'a Function, hits: Vec<Loc>) -> (r: Vec<Loc>)
    ensures
        r@ == pass_function(*f, hits@),
{
    if f.parameters.len() == 0 {
        return hits;
    }
    let mut names: Vec<&'a str> = Vec::new();
    let mut i: usize = 0;
    while i < f.parameters.len()
        invariant
            i <= f.parameters@.len(),
            names@.map_values(|n: &str| n@) == f.parameters@.subrange(0, i as int).map_values(
                |v: crate::typed::Var| v.name@,
            ),
        decreases f.parameters@.len() - i,
    {
        let ghost before = names@.map_values(|n: &str| n@);
        names.push(f.parameters[i].name.as_str());
        proof {
            assert(names@.map_values(|n: &str| n@) =~= before.push(f.parameters@[i as int].name@));
            assert(f.parameters@.subrange(0, i as int + 1) =~= f.parameters@.subrange(0, i as int).push(
                f.parameters@[i as int],
            ));
            assert(names@.map_values(|n: &str| n@) =~= f.parameters@.subrange(0, i as int + 1).map_values(
                |v: crate::typed::Var| v.name@,
            ));
        }
        i = i + 1;
    }
    proof {
        assert(f.parameters@.subrange(0, i as int) =~= f.parameters@);
    }
    match &f.body {
        FunctionBody::Defined(items) => {
            let mut st = PassState { params: Params { names }, mixed: false, hits };
            pass_items_exec(items, &mut st, true, false);
            st.hits
        },
        FunctionBody::Native => hits,
    }
}

/// The reads of parameters within out-of-place assertions, function by
/// function, in order.
pub fn assert_first_hits(fs: &Vec<&Function>) -> (r: Vec<Loc>)
    ensures
        r@ == functions_hits(fs@.map_values(|f: &Function| *f), 0, Seq::empty()),
{
    let ghost all = fs@.map_values(|f: &Function| *f);
    let mut hits: Vec<Loc> = Vec::new();
    let mut i: usize = 0;
    while i < fs.len()
        invariant
            all == fs@.map_values(|f: &Function| *f),
            i <= fs@.len(),
            functions_hits(all, 0, Seq::empty()) == functions_hits(all, i as int, hits@),
        decreases fs@.len() - i,
    {
        hits = pass_function_exec(fs[i], hits);
        i = i + 1;
    }
    hits
}

} // verus!
