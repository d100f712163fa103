//! Private functions that no call in the package targets.
//!
//! Private functions are gathered into a map keyed by
//! `"<address>::<module>::<function>"` (ascending key order; a later
//! function under an equal key takes the place of the earlier one); the
//! keys that some call names are then left out.
use vstd::prelude::*;
use vstd::string::StrSliceExecFns;
use crate::ast::{Loc, ModuleIdent, Visibility};
use crate::scan::{entered, roots_nodes};
use crate::text::str_eq;
use crate::typed::{Exp, ExpKind, Function, Module};
use crate::visitor::{events_of_items, run, visit, VisitCallback, Visitor};

verus! {

/// The key of function `name` of module `m`: `"<address>::<module>::<name>"`.
pub open spec fn key_of(m: ModuleIdent, name: Seq<char>) -> Seq<char> {
    m.address_name@ + "::"@ + m.module@ + "::"@ + name
}

fn key_string(m: &ModuleIdent, name: &str) -> (r: String)
    ensures
        r@ == key_of(*m, name@),
{
    String::from_str(m.address_name.as_str()).concat("::").concat(m.module.as_str()).concat("::").concat(
        name,
    )
}

/// Whether `a` comes before `b` in the order of strings: character by
/// character from position `i` on, a proper prefix first.
pub open spec fn key_lt_from(a: Seq<char>, b: Seq<char>, i: int) -> bool
    decreases a.len() - i,
{
    if i < 0 || i >= a.len() {
        0 <= i < b.len()
    } else if i >= b.len() {
        false
    } else if a[i] != b[i] {
        (a[i] as int) < (b[i] as int)
    } else {
        key_lt_from(a, b, i + 1)
    }
}

pub open spec fn key_lt(a: Seq<char>, b: Seq<char>) -> bool {
    key_lt_from(a, b, 0)
}

proof fn lemma_key_trichotomy_from(a: Seq<char>, b: Seq<char>, i: int)
    requires
        0 <= i,
        i <= a.len(),
        i <= b.len(),
        !key_lt_from(a, b, i),
        !key_lt_from(b, a, i),
    ensures
        a.len() == b.len(),
        forall|k: int| i <= k < a.len() ==> a[k] == b[k],
    decreases a.len() - i,
{
    if i < a.len() && i < b.len() {
        if a[i] == b[i] {
            lemma_key_trichotomy_from(a, b, i + 1);
        } else {
            assert((a[i] as int) != (b[i] as int));
        }
    }
}

/// Two keys are equal, or one comes before the other.
proof fn lemma_key_trichotomy(a: Seq<char>, b: Seq<char>)
    ensures
        a == b || key_lt(a, b) || key_lt(b, a),
{
    if !key_lt(a, b) && !key_lt(b, a) {
        lemma_key_trichotomy_from(a, b, 0);
        assert(a =~= b);
    }
}

fn str_lt(a: &str, b: &str) -> (r: bool)
    ensures
        r == key_lt(a@, b@),
{
    let n = a.unicode_len();
    let m = b.unicode_len();
    let mut i: usize = 0;
    while i < n && i < m
        invariant
            n == a@.len(),
            m == b@.len(),
            i <= n,
            i <= m,
            key_lt(a@, b@) == key_lt_from(a@, b@, i as int),
        decreases n - i,
    {
        let ca = a.get_char(i);
        let cb = b.get_char(i);
        if ca != cb {
            return (ca as u32) < (cb as u32);
        }
        i = i + 1;
    }
    i < m && i >= n
}

/// The keys of the calls among `nodes`, in order.
pub open spec fn call_keys(nodes: Seq<Exp>) -> Seq<Seq<char>>
    decreases nodes.len(),
{
    if nodes.len() == 0 {
        Seq::empty()
    } else {
        let rest = call_keys(nodes.drop_first());
        match nodes[0].kind {
            ExpKind::ModuleCall { module, name, .. } => seq![key_of(module, name@)] + rest,
            _ => rest,
        }
    }
}

proof fn lemma_call_keys_append(a: Seq<Exp>, b: Seq<Exp>)
    ensures
        call_keys(a + b) == call_keys(a) + call_keys(b),
    decreases a.len(),
{
    if a.len() == 0 {
        assert(a + b =~= b);
        assert(Seq::<Seq<char>>::empty() + call_keys(b) =~= call_keys(b));
    } else {
        assert((a + b)[0] == a[0]);
        assert((a + b).drop_first() =~= a.drop_first() + b);
        lemma_call_keys_append(a.drop_first(), b);
        match a[0].kind {
            ExpKind::ModuleCall { module, name, .. } => {
                let t = key_of(module, name@);
                assert(seq![t] + (call_keys(a.drop_first()) + call_keys(b)) =~= (seq![t]
                    + call_keys(a.drop_first())) + call_keys(b));
            },
            _ => {},
        }
    }
}

/// A callback that records the key of every call it enters.
struct CallCollector {
    found: Vec<String>,
}

impl View for CallCollector {
    type V = Seq<Seq<char>>;

    closed spec fn view(&self) -> Seq<Seq<char>> {
        self.found@.map_values(|t: String| t@)
    }
}

impl VisitCallback<Exp> for CallCollector {
    open spec fn step(state: Seq<Seq<char>>, leaving: bool, node: Exp) -> (Seq<Seq<char>>, bool) {
        if leaving {
            (state, false)
        } else {
            (state + call_keys(seq![node]), false)
        }
    }

    fn call(&mut self, leaving: bool, node: &Exp) -> (stop: bool) {
        if leaving {
            return false;
        }
        let ghost before = self@;
        proof {
            assert(seq![*node].drop_first() =~= Seq::<Exp>::empty());
            assert(seq![*node][0] == *node);
            assert(call_keys(Seq::<Exp>::empty()) == Seq::<Seq<char>>::empty());
        }
        match &node.kind {
            ExpKind::ModuleCall { module, name, .. } => {
                let t = key_string(module, name.as_str());
                let ghost tv = t@;
                self.found.push(t);
                proof {
                    assert(self@ =~= before.push(tv));
                    assert(before + call_keys(seq![*node]) =~= before.push(tv));
                }
            },
            _ => {
                assert(before + call_keys(seq![*node]) =~= before);
            },
        }
        false
    }
}

proof fn lemma_collect_run(h: Seq<Seq<char>>, evs: Seq<(bool, Exp)>)
    ensures
        run::<Exp, CallCollector>(h, evs).0 == h + call_keys(entered(evs)),
    decreases evs.len(),
{
    if evs.len() == 0 {
        assert(h + Seq::<Seq<char>>::empty() =~= h);
    } else {
        let rest = evs.drop_first();
        if evs[0].0 {
            lemma_collect_run(h, rest);
        } else {
            let n = evs[0].1;
            lemma_collect_run(h + call_keys(seq![n]), rest);
            lemma_call_keys_append(seq![n], entered(rest));
            assert(entered(evs) == seq![n] + entered(rest));
            assert(h + call_keys(seq![n]) + call_keys(entered(rest)) =~= h + (call_keys(seq![n])
                + call_keys(entered(rest))));
        }
    }
}

/// The keys of every call in the functions `fs`, in pre-order.
fn collect_calls(fs: &Vec<&Function>) -> (r: Vec<String>)
    ensures
        r@.map_values(|t: String| t@) == call_keys(roots_nodes(fs@.map_values(|f: &Function| *f), 0)),
{
    let ghost rs = fs@.map_values(|f: &Function| *f);
    let mut c = CallCollector { found: Vec::new() };
    proof {
        assert(c@ =~= Seq::<Seq<char>>::empty());
        assert(Seq::<Seq<char>>::empty() + call_keys(roots_nodes(rs, 0)) =~= call_keys(
            roots_nodes(rs, 0),
        ));
    }
    let mut i: usize = 0;
    while i < fs.len()
        invariant
            rs == fs@.map_values(|f: &Function| *f),
            i <= fs@.len(),
            call_keys(roots_nodes(rs, 0)) == c@ + call_keys(roots_nodes(rs, i as int)),
        decreases fs@.len() - i,
    {
        let ghost before = c@;
        let ghost here = entered(events_of_items(rs[i as int].spec_items(), 0));
        let ghost rest = roots_nodes(rs, i as int + 1);
        proof {
            assert(roots_nodes(rs, i as int) == here + rest);
            lemma_call_keys_append(here, rest);
            lemma_collect_run(before, events_of_items(rs[i as int].spec_items(), 0));
            assert(before + (call_keys(here) + call_keys(rest)) =~= (before + call_keys(here))
                + call_keys(rest));
        }
        visit(fs[i], &mut c);
        i = i + 1;
    }
    proof {
        assert(roots_nodes(rs, i as int) =~= Seq::<Exp>::empty());
        assert(c@ + Seq::<Seq<char>>::empty() =~= c@);
    }
    c.found
}

fn is_called(calls: &Vec<String>, key: &str) -> (r: bool)
    ensures
        r == calls@.map_values(|t: String| t@).contains(key@),
{
    let ghost v = calls@.map_values(|t: String| t@);
    let mut i: usize = 0;
    while i < calls.len()
        invariant
            v == calls@.map_values(|t: String| t@),
            i <= v.len(),
            forall|k: int| 0 <= k < i ==> v[k] != key@,
        decreases v.len() - i,
    {
        if str_eq(calls[i].as_str(), key) {
            assert(v[i as int] == key@);
            return true;
        }
        i = i + 1;
    }
    false
}

/// The private functions of `ms[i..]` as (key, location), module by
/// module, in declaration order.
pub open spec fn candidates(ms: Seq<Module>, i: int) -> Seq<(Seq<char>, Loc)>
    decreases ms.len() - i,
{
    if 0 <= i < ms.len() {
        candidates_in(ms[i], ms[i].functions@, 0) + candidates(ms, i + 1)
    } else {
        Seq::empty()
    }
}

pub open spec fn candidates_in(m: Module, fs: Seq<Function>, j: int) -> Seq<(Seq<char>, Loc)>
    decreases fs.len() - j,
{
    if 0 <= j < fs.len() {
        let rest = candidates_in(m, fs, j + 1);
        if fs[j].visibility == Visibility::Internal {
            seq![(key_of(m.ident, fs[j].name@), fs[j].loc)] + rest
        } else {
            rest
        }
    } else {
        Seq::empty()
    }
}

/// `s`, ordered by key, with `x` put in: in key order, in place of an entry
/// with an equal key.
pub open spec fn map_insert(s: Seq<(Seq<char>, Loc)>, x: (Seq<char>, Loc)) -> Seq<(Seq<char>, Loc)>
    decreases s.len(),
{
    if s.len() == 0 {
        seq![x]
    } else if key_lt(x.0, s[0].0) {
        seq![x] + s
    } else if x.0 == s[0].0 {
        seq![x] + s.drop_first()
    } else {
        seq![s[0]] + map_insert(s.drop_first(), x)
    }
}

/// The map built by putting `cs[i..]` in order into `acc`.
pub open spec fn map_of(cs: Seq<(Seq<char>, Loc)>, i: int, acc: Seq<(Seq<char>, Loc)>) -> Seq<
    (Seq<char>, Loc),
>
    decreases cs.len() - i,
{
    if 0 <= i < cs.len() {
        map_of(cs, i + 1, map_insert(acc, cs[i]))
    } else {
        acc
    }
}

/// Whether the keys of `s` strictly ascend.
pub open spec fn keys_ascending(s: Seq<(Seq<char>, Loc)>) -> bool {
    forall|k: int| 0 <= k < s.len() - 1 ==> key_lt(#[trigger] s[k].0, s[k + 1].0)
}

proof fn lemma_map_insert_ascending(s: Seq<(Seq<char>, Loc)>, x: (Seq<char>, Loc))
    requires
        keys_ascending(s),
    ensures
        keys_ascending(map_insert(s, x)),
        map_insert(s, x).len() > 0,
        s.len() > 0 ==> map_insert(s, x)[0].0 == s[0].0 || map_insert(s, x)[0] == x,
    decreases s.len(),
{
    if s.len() == 0 {
    } else if key_lt(x.0, s[0].0) {
        let r = seq![x] + s;
        assert forall|k: int| 0 <= k < r.len() - 1 implies key_lt(#[trigger] r[k].0, r[k + 1].0) by {
            if k > 0 {
                assert(r[k] == s[k - 1] && r[k + 1] == s[k]);
            }
        }
    } else if x.0 == s[0].0 {
        let r = seq![x] + s.drop_first();
        assert forall|k: int| 0 <= k < r.len() - 1 implies key_lt(#[trigger] r[k].0, r[k + 1].0) by {
            assert(r[k + 1] == s[k + 1]);
            if k > 0 {
                assert(r[k] == s[k]);
            }
        }
    } else {
        let t = s.drop_first();
        assert(keys_ascending(t)) by {
            assert forall|k: int| 0 <= k < t.len() - 1 implies key_lt(#[trigger] t[k].0, t[k + 1].0) by {
                assert(t[k] == s[k + 1] && t[k + 1] == s[k + 2]);
            }
        }
        lemma_map_insert_ascending(t, x);
        lemma_key_trichotomy(x.0, s[0].0);
        let r = seq![s[0]] + map_insert(t, x);
        assert forall|k: int| 0 <= k < r.len() - 1 implies key_lt(#[trigger] r[k].0, r[k + 1].0) by {
            if k == 0 {
                if t.len() > 0 {
                    assert(key_lt(s[0].0, s[1].0));
                    assert(t[0] == s[1]);
                }
            } else {
                assert(r[k] == map_insert(t, x)[k - 1] && r[k + 1] == map_insert(t, x)[k]);
            }
        }
    }
}

proof fn lemma_map_of_ascending(cs: Seq<(Seq<char>, Loc)>, i: int, acc: Seq<(Seq<char>, Loc)>)
    requires
        keys_ascending(acc),
    ensures
        keys_ascending(map_of(cs, i, acc)),
    decreases cs.len() - i,
{
    if 0 <= i < cs.len() {
        lemma_map_insert_ascending(acc, cs[i]);
        lemma_map_of_ascending(cs, i + 1, map_insert(acc, cs[i]));
    }
}

/// The locations of the entries of `s` whose key no call names, in order.
pub open spec fn uncalled(s: Seq<(Seq<char>, Loc)>, calls: Seq<Seq<char>>) -> Seq<Loc>
    decreases s.len(),
{
    if s.len() == 0 {
        Seq::empty()
    } else if calls.contains(s[0].0) {
        uncalled(s.drop_first(), calls)
    } else {
        seq![s[0].1] + uncalled(s.drop_first(), calls)
    }
}

/// The locations of the private functions of `ms` that no call among
/// `calls` names, in ascending key order.
pub open spec fn unused_private(ms: Seq<Module>, calls: Seq<Seq<char>>) -> Seq<Loc> {
    uncalled(map_of(candidates(ms, 0), 0, Seq::empty()), calls)
}

/// The map of private functions is ordered by strictly ascending key.
pub proof fn lemma_private_map_ascending(ms: Seq<Module>)
    ensures
        keys_ascending(map_of(candidates(ms, 0), 0, Seq::empty())),
{
    lemma_map_of_ascending(candidates(ms, 0), 0, Seq::empty());
}

/// Keys and locations as plain values.
pub open spec fn entries_view(v: Seq<(String, Loc)>) -> Seq<(Seq<char>, Loc)> {
    v.map_values(|e: (String, Loc)| (e.0@, e.1))
}

fn private_candidates(ms: &Vec<Module>) -> (r: Vec<(String, Loc)>)
    ensures
        entries_view(r@) == candidates(ms@, 0),
{
    let mut out: Vec<(String, Loc)> = Vec::new();
    let mut i: usize = 0;
    proof {
        assert(entries_view(out@) + candidates(ms@, 0) =~= candidates(ms@, 0));
    }
    while i < ms.len()
        invariant
            i <= ms@.len(),
            candidates(ms@, 0) == entries_view(out@) + candidates(ms@, i as int),
        decreases ms@.len() - i,
    {
        let m = &ms[i];
        let ghost start = entries_view(out@);
        proof {
            assert(start + candidates_in(*m, m.functions@, 0) + candidates(ms@, i as int + 1) =~= start
                + (candidates_in(*m, m.functions@, 0) + candidates(ms@, i as int + 1)));
        }
        let mut j: usize = 0;
        while j < m.functions.len()
            invariant
                i < ms@.len(),
                *m == ms@[i as int],
                j <= m.functions@.len(),
                start + candidates_in(*m, m.functions@, 0) == entries_view(out@) + candidates_in(
                    *m,
                    m.functions@,
                    j as int,
                ),
            decreases m.functions@.len() - j,
        {
            let f = &m.functions[j];
            let ghost rest = candidates_in(*m, m.functions@, j as int + 1);
            if f.visibility == Visibility::Internal {
                let ghost before = entries_view(out@);
                let key = key_string(&m.ident, f.name.as_str());
                let ghost e = (key@, f.loc);
                out.push((key, f.loc));
                proof {
                    assert(entries_view(out@) =~= before.push(e));
                    assert(before + (seq![e] + rest) =~= before.push(e) + rest);
                }
            }
            j = j + 1;
        }
        proof {
            assert(candidates_in(*m, m.functions@, j as int) =~= Seq::<(Seq<char>, Loc)>::empty());
            assert(entries_view(out@) + Seq::<(Seq<char>, Loc)>::empty() =~= entries_view(out@));
        }
        i = i + 1;
    }
    proof {
        assert(candidates(ms@, i as int) =~= Seq::<(Seq<char>, Loc)>::empty());
        assert(entries_view(out@) + Seq::<(Seq<char>, Loc)>::empty() =~= entries_view(out@));
    }
    out
}

fn map_insert_exec(entries: &mut Vec<(String, Loc)>, key: String, loc: Loc)
    ensures
        entries_view(final(entries)@) == map_insert(entries_view(old(entries)@), (key@, loc)),
{
    let ghost v0 = entries_view(entries@);
    let ghost x = (key@, loc);
    let mut k: usize = 0;
    proof {
        assert(v0.subrange(0, 0) + map_insert(v0.subrange(0, v0.len() as int), x) =~= map_insert(v0, x))
            by {
            assert(v0.subrange(0, v0.len() as int) =~= v0);
        }
    }
    while k < entries.len()
        invariant
            v0 == entries_view(entries@),
            v0 == entries_view(old(entries)@),
            x == (key@, loc),
            k <= v0.len(),
            map_insert(v0, x) == v0.subrange(0, k as int) + map_insert(
                v0.subrange(k as int, v0.len() as int),
                x,
            ),
        decreases v0.len() - k,
    {
        let ghost tail = v0.subrange(k as int, v0.len() as int);
        proof {
            assert(tail[0] == v0[k as int]);
            assert(v0[k as int] == (entries@[k as int].0@, entries@[k as int].1));
            assert(tail.drop_first() =~= v0.subrange(k as int + 1, v0.len() as int));
        }
        if str_lt(key.as_str(), entries[k].0.as_str()) {
            proof {
                assert(map_insert(tail, x) == seq![x] + tail);
            }
            let ghost old_e = entries@;
            entries.insert(k, (key, loc));
            proof {
                assert(entries@ == old_e.insert(k as int, (key, loc)));
                assert(entries_view(entries@) =~= v0.subrange(0, k as int) + (seq![x] + tail));
            }
            return;
        }
        if str_eq(key.as_str(), entries[k].0.as_str()) {
            proof {
                assert(map_insert(tail, x) == seq![x] + tail.drop_first());
            }
            let ghost old_e = entries@;
            let _ = entries.remove(k);
            entries.insert(k, (key, loc));
            proof {
                assert(entries@ == old_e.update(k as int, (key, loc)));
                assert(entries_view(entries@) =~= v0.subrange(0, k as int) + (seq![x] + tail.drop_first()));
            }
            return;
        }
        proof {
            assert(v0.subrange(0, k as int) + (seq![v0[k as int]] + map_insert(tail.drop_first(), x))
                =~= v0.subrange(0, k as int + 1) + map_insert(tail.drop_first(), x));
        }
        k = k + 1;
    }
    let ghost before = entries_view(entries@);
    entries.push((key, loc));
    proof {
        assert(v0.subrange(k as int, v0.len() as int) =~= Seq::<(Seq<char>, Loc)>::empty());
        assert(v0.subrange(0, k as int) =~= v0);
        assert(entries_view(entries@) =~= before.push(x));
        assert(entries_view(entries@) =~= v0 + seq![x]);
    }
}

/// The locations of the private functions that no call names, in ascending
/// key order.
pub fn unused_private_functions(ms: &Vec<Module>, fs: &Vec<&Function>) -> (r: Vec<Loc>)
    ensures
        r@ == unused_private(ms@, call_keys(roots_nodes(fs@.map_values(|f: &Function| *f), 0))),
{
    let calls = collect_calls(fs);
    let ghost cv = calls@.map_values(|t: String| t@);
    let cands = private_candidates(ms);
    let ghost cs = entries_view(cands@);
    let mut map: Vec<(String, Loc)> = Vec::new();
    let mut i: usize = 0;
    proof {
        assert(entries_view(map@) =~= Seq::<(Seq<char>, Loc)>::empty());
    }
    while i < cands.len()
        invariant
            cs == entries_view(cands@),
            i <= cs.len(),
            map_of(cs, 0, Seq::empty()) == map_of(cs, i as int, entries_view(map@)),
        decreases cs.len() - i,
    {
        let key = cands[i].0.clone();
        map_insert_exec(&mut map, key, cands[i].1);
        i = i + 1;
    }
    let ghost e = entries_view(map@);
    let mut out: Vec<Loc> = Vec::new();
    let mut k: usize = 0;
    proof {
        assert(e.subrange(0, e.len() as int) =~= e);
        assert(out@ + uncalled(e.subrange(0, e.len() as int), cv) =~= uncalled(e, cv));
    }
    while k < map.len()
        invariant
            e == entries_view(map@),
            cv == calls@.map_values(|t: String| t@),
            k <= e.len(),
            uncalled(e, cv) == out@ + uncalled(e.subrange(k as int, e.len() as int), cv),
        decreases e.len() - k,
    {
        let ghost tail = e.subrange(k as int, e.len() as int);
        proof {
            assert(tail[0] == e[k as int]);
            assert(tail.drop_first() =~= e.subrange(k as int + 1, e.len() as int));
        }
        if !is_called(&calls, map[k].0.as_str()) {
            let ghost before = out@;
            out.push(map[k].1);
            proof {
                assert(before + (seq![e[k as int].1] + uncalled(tail.drop_first(), cv)) =~= out@
                    + uncalled(tail.drop_first(), cv));
            }
        }
        k = k + 1;
    }
    proof {
        assert(e.subrange(k as int, e.len() as int) =~= Seq::<(Seq<char>, Loc)>::empty());
        assert(out@ + Seq::<Loc>::empty() =~= out@);
    }
    out
}

} // verus!
