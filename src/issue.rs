//! Findings, their locations, and the duplicate-free collection of them.
use vstd::multiset::Multiset;
use vstd::prelude::*;
use crate::ast::Loc;
use crate::detector::{DetectorInfo, DetectorInfoView, DetectorLevel};
use crate::file::{lemma_newlines_bounded, lines_of_range, FileSource, FileSources};
use crate::scan::{Finding, FindingView, Site};
use crate::text::{lines_eq, opt_str_eq, opt_view, str_eq};

verus! {

/// The rule metadata attached to one finding, with an optional refinement.
#[derive(Debug)]
pub struct IssueInfo {
    pub no: u16,
    pub wiki: String,
    pub title: String,
    pub verbose: String,
    pub level: DetectorLevel,
    pub description: Option<String>,
}

pub struct IssueInfoView {
    pub no: u16,
    pub wiki: Seq<char>,
    pub title: Seq<char>,
    pub verbose: Seq<char>,
    pub level: DetectorLevel,
    pub description: Option<Seq<char>>,
}

impl View for IssueInfo {
    type V = IssueInfoView;

    open spec fn view(&self) -> IssueInfoView {
        IssueInfoView {
            no: self.no,
            wiki: self.wiki@,
            title: self.title@,
            verbose: self.verbose@,
            level: self.level,
            description: opt_view(&self.description),
        }
    }
}

/// The finding metadata of a rule, before any refinement.
pub open spec fn info_of(d: DetectorInfoView) -> IssueInfoView {
    IssueInfoView {
        no: d.no,
        wiki: d.wiki,
        title: d.title,
        verbose: d.verbose,
        level: d.level,
        description: None,
    }
}

/// The same metadata refined by `text`.
pub open spec fn refined(i: IssueInfoView, text: Seq<char>) -> IssueInfoView {
    IssueInfoView { description: Some(text), ..i }
}

impl IssueInfo {
    pub fn from(info: &DetectorInfo) -> (r: Self)
        ensures
            r@ == info_of(info@),
    {
        let info = info.clone();
        Self {
            no: info.no,
            wiki: info.wiki,
            title: info.title,
            verbose: info.verbose,
            level: info.level,
            description: None,
        }
    }

    /// The same metadata with its description set to `description`.
    pub fn description(self, description: String) -> (r: Self)
        ensures
            r@ == refined(self@, description@),
    {
        Self { description: Some(description), ..self }
    }
}

impl IssueInfo {
    /// A copy of this metadata.
    pub fn duplicate(&self) -> (r: Self)
        ensures
            r@ == self@,
    {
        IssueInfo {
            no: self.no,
            wiki: self.wiki.clone(),
            title: self.title.clone(),
            verbose: self.verbose.clone(),
            level: self.level,
            description: match &self.description {
                Some(d) => Some(d.clone()),
                None => None,
            },
        }
    }
}

impl PartialEq for IssueInfo {
    fn eq(&self, other: &Self) -> (r: bool)
        ensures
            r == (self@ == other@),
    {
        self.no == other.no && str_eq(self.wiki.as_str(), other.wiki.as_str()) && str_eq(
            self.title.as_str(),
            other.title.as_str(),
        ) && str_eq(self.verbose.as_str(), other.verbose.as_str()) && self.level == other.level
            && opt_str_eq(&self.description, &other.description)
    }
}

impl vstd::std_specs::cmp::PartialEqSpecImpl for IssueInfo {
    open spec fn obeys_eq_spec() -> bool {
        true
    }

    open spec fn eq_spec(&self, other: &IssueInfo) -> bool {
        self@ == other@
    }
}

/// Where a finding is: file name, byte range and the lines it covers.
#[derive(Debug)]
pub struct IssueLoc {
    pub file: String,
    pub start: u32,
    pub end: u32,
    pub lines: Vec<u32>,
}

pub struct IssueLocView {
    pub file: Seq<char>,
    pub start: u32,
    pub end: u32,
    pub lines: Seq<u32>,
}

impl View for IssueLoc {
    type V = IssueLocView;

    open spec fn view(&self) -> IssueLocView {
        IssueLocView { file: self.file@, start: self.start, end: self.end, lines: self.lines@ }
    }
}

/// The location that stands for "no position".
pub open spec fn empty_loc() -> IssueLocView {
    IssueLocView { file: Seq::empty(), start: 0, end: 0, lines: Seq::empty() }
}

/// A range that lies within a file's text.
pub open spec fn loc_in_text(f: FileSource, loc: Loc) -> bool {
    &&& loc.start <= loc.end
    &&& loc.end <= f.text_of().len()
    &&& loc.end < u32::MAX
}

/// The resolved location of `loc`: its file's name and the lines it covers,
/// or the empty location where the file is unknown or the range lies outside it.
pub open spec fn resolve_loc(files: FileSources, loc: Loc) -> IssueLocView {
    match files.spec_get(loc.file) {
        Some(f) => if loc_in_text(f, loc) {
            IssueLocView {
                file: f.spec_filename(),
                start: loc.start,
                end: loc.end,
                lines: lines_of_range(f.text_of(), loc.start as int, loc.end as int),
            }
        } else {
            empty_loc()
        },
        None => empty_loc(),
    }
}

impl IssueLoc {
    pub fn from(files: &FileSources, loc: &Loc) -> (r: Self)
        ensures
            r@ == resolve_loc(*files, *loc),
    {
        match files.get_file(&loc.file) {
            Some(f) => {
                let len = f.content().as_str().as_bytes().len();
                if loc.start <= loc.end && (loc.end as usize) <= len && loc.end < u32::MAX {
                    proof {
                        lemma_newlines_bounded(f.text_of(), loc.end as int);
                    }
                    Self {
                        file: f.filename(),
                        start: loc.start,
                        end: loc.end,
                        lines: f.get_lines(loc.start as usize..loc.end as usize),
                    }
                } else {
                    Self::empty()
                }
            },
            None => Self::empty(),
        }
    }

    pub fn empty() -> (r: Self)
        ensures
            r@ == empty_loc(),
    {
        let r = Self { file: String::new(), start: 0, end: 0, lines: Vec::new() };
        assert(r@.file =~= empty_loc().file);
        assert(r@.lines =~= empty_loc().lines);
        r
    }
}

impl IssueLoc {
    /// A copy of this location.
    pub fn duplicate(&self) -> (r: Self)
        ensures
            r@ == self@,
    {
        let mut lines: Vec<u32> = Vec::new();
        let mut i: usize = 0;
        while i < self.lines.len()
            invariant
                i <= self.lines@.len(),
                lines@ == self.lines@.subrange(0, i as int),
            decreases self.lines@.len() - i,
        {
            lines.push(self.lines[i]);
            proof {
                assert(lines@ =~= self.lines@.subrange(0, i as int + 1));
            }
            i = i + 1;
        }
        proof {
            assert(lines@ =~= self.lines@);
        }
        IssueLoc { file: self.file.clone(), start: self.start, end: self.end, lines }
    }
}

impl PartialEq for IssueLoc {
    fn eq(&self, other: &Self) -> (r: bool)
        ensures
            r == (self@ == other@),
    {
        str_eq(self.file.as_str(), other.file.as_str()) && self.start == other.start && self.end
            == other.end && lines_eq(&self.lines, &other.lines)
    }
}

impl vstd::std_specs::cmp::PartialEqSpecImpl for IssueLoc {
    open spec fn obeys_eq_spec() -> bool {
        true
    }

    open spec fn eq_spec(&self, other: &IssueLoc) -> bool {
        self@ == other@
    }
}

/// One finding: rule metadata and resolved location.
#[derive(Debug)]
pub struct Issue {
    pub info: IssueInfo,
    pub loc: IssueLoc,
}

pub struct IssueView {
    pub info: IssueInfoView,
    pub loc: IssueLocView,
}

impl View for Issue {
    type V = IssueView;

    open spec fn view(&self) -> IssueView {
        IssueView { info: self.info@, loc: self.loc@ }
    }
}

impl Issue {
    pub fn new(info: IssueInfo, loc: IssueLoc) -> (r: Self)
        ensures
            r@ == (IssueView { info: info@, loc: loc@ }),
    {
        Self { info, loc }
    }
}

impl Issue {
    /// A copy of this finding.
    pub fn duplicate(&self) -> (r: Self)
        ensures
            r@ == self@,
    {
        Issue { info: self.info.duplicate(), loc: self.loc.duplicate() }
    }
}

impl PartialEq for Issue {
    fn eq(&self, other: &Self) -> (r: bool)
        ensures
            r == (self@ == other@),
    {
        self.info.eq(&other.info) && self.loc.eq(&other.loc)
    }
}

impl vstd::std_specs::cmp::PartialEqSpecImpl for Issue {
    open spec fn obeys_eq_spec() -> bool {
        true
    }

    open spec fn eq_spec(&self, other: &Issue) -> bool {
        self@ == other@
    }
}

/// `s` with `x` appended unless an equal finding is already there.
pub open spec fn added(s: Seq<IssueView>, x: IssueView) -> Seq<IssueView> {
    if s.contains(x) {
        s
    } else {
        s.push(x)
    }
}

/// Inserting a finding that is already present changes nothing: adding the
/// same finding twice leaves what adding it once left.
pub proof fn lemma_add_idempotent(s: Seq<IssueView>, x: IssueView)
    ensures
        added(added(s, x), x) == added(s, x),
        added(added(Seq::empty(), x), x).len() == 1,
{
    if !s.contains(x) {
        assert(s.push(x)[s.len() as int] == x);
    }
    assert(Seq::<IssueView>::empty().push(x)[0] == x);
}

/// An order-preserving collection of findings without duplicates.
#[derive(Debug)]
pub struct Issues(Vec<Issue>);

impl View for Issues {
    type V = Seq<IssueView>;

    closed spec fn view(&self) -> Seq<IssueView> {
        self.0@.map_values(|i: Issue| i@)
    }
}

impl Issues {
    /// The findings themselves, in order.
    pub closed spec fn items(&self) -> Seq<Issue> {
        self.0@
    }

    #[verifier::type_invariant]
    spec fn inv(&self) -> bool {
        self@.no_duplicates()
    }

    pub fn new() -> (r: Self)
        ensures
            r@ == Seq::<IssueView>::empty(),
    {
        let r = Self(Vec::new());
        assert(r@ =~= Seq::<IssueView>::empty());
        r
    }

    /// References to the findings, in order.
    pub fn to_vec(&self) -> (r: Vec<&Issue>)
        ensures
            r@.len() == self@.len(),
            forall|i: int| 0 <= i < r@.len() ==> (#[trigger] r@[i])@ == self@[i],
    {
        let mut r: Vec<&Issue> = Vec::new();
        let mut i: usize = 0;
        while i < self.0.len()
            invariant
                i <= self.0@.len(),
                r@.len() == i,
                forall|k: int| 0 <= k < i ==> (#[trigger] r@[k])@ == self@[k],
            decreases self.0@.len() - i,
        {
            r.push(&self.0[i]);
            i = i + 1;
        }
        r
    }

    pub fn contains(&self, x: &Issue) -> (r: bool)
        ensures
            r == self@.contains(x@),
    {
        let mut i: usize = 0;
        while i < self.0.len()
            invariant
                i <= self.0@.len(),
                forall|k: int| 0 <= k < i ==> self@[k] != x@,
            decreases self.0@.len() - i,
        {
            if self.0[i].eq(x) {
                assert(self@[i as int] == x@);
                return true;
            }
            i = i + 1;
        }
        false
    }

    pub fn get(&self, idx: usize) -> (r: &Issue)
        requires
            idx < self@.len(),
        ensures
            r@ == self@[idx as int],
    {
        &self.0[idx]
    }

    /// Appends `x` unless an equal finding is already present.
    pub fn add(&mut self, x: Issue)
        ensures
            final(self)@ == added(old(self)@, x@),
    {
        proof {
            use_type_invariant(&*self);
        }
        if !self.contains(&x) {
            let ghost v = x@;
            let mut items = Vec::new();
            core::mem::swap(&mut self.0, &mut items);
            items.push(x);
            assert(items@.map_values(|i: Issue| i@) =~= old(self)@.push(v));
            self.0 = items;
        }
    }

    pub fn len(&self) -> (r: usize)
        ensures
            r == self@.len(),
    {
        self.0.len()
    }

    /// A copy of the collection.
    pub fn duplicate(&self) -> (r: Self)
        ensures
            r@ == self@,
    {
        proof {
            use_type_invariant(self);
        }
        let mut items: Vec<Issue> = Vec::new();
        let mut i: usize = 0;
        while i < self.0.len()
            invariant
                i <= self.0@.len(),
                items@.map_values(|x: Issue| x@) == self@.subrange(0, i as int),
            decreases self.0@.len() - i,
        {
            let ghost before = items@.map_values(|x: Issue| x@);
            let x = self.0[i].duplicate();
            items.push(x);
            proof {
                assert(items@.map_values(|x: Issue| x@) =~= before.push(self@[i as int]));
                assert(self@.subrange(0, i as int + 1) =~= self@.subrange(0, i as int).push(self@[i as int]));
            }
            i = i + 1;
        }
        proof {
            assert(self@.subrange(0, i as int) =~= self@);
        }
        Issues(items)
    }

    pub fn is_empty(&self) -> (r: bool)
        ensures
            r == (self@.len() == 0),
    {
        self.0.len() == 0
    }
}

/// The location that findings about the package manifest carry.
pub open spec fn manifest_loc() -> IssueLocView {
    IssueLocView { file: "Move.toml"@, start: 0, end: 0, lines: seq![0u32] }
}

/// The resolved location of a site.
pub open spec fn site_loc(files: FileSources, site: Site) -> IssueLocView {
    match site {
        Site::Source(loc) => resolve_loc(files, loc),
        Site::Manifest => manifest_loc(),
    }
}

/// The finding `f` of the rule with metadata `d`, as an issue.
pub open spec fn issue_for(d: DetectorInfoView, files: FileSources, f: FindingView) -> IssueView {
    IssueView {
        info: match f.description {
            Some(t) => refined(info_of(d), t),
            None => info_of(d),
        },
        loc: site_loc(files, f.loc),
    }
}

pub open spec fn issues_for(d: DetectorInfoView, files: FileSources, fs: Seq<FindingView>) -> Seq<
    IssueView,
> {
    fs.map_values(|f: FindingView| issue_for(d, files, f))
}

/// `s` after adding each of `xs` in order.
pub open spec fn add_all(s: Seq<IssueView>, xs: Seq<IssueView>) -> Seq<IssueView>
    decreases xs.len(),
{
    if xs.len() == 0 {
        s
    } else {
        add_all(added(s, xs[0]), xs.drop_first())
    }
}

pub proof fn lemma_add_all_push(s: Seq<IssueView>, xs: Seq<IssueView>, x: IssueView)
    ensures
        add_all(s, xs.push(x)) == added(add_all(s, xs), x),
    decreases xs.len(),
{
    if xs.len() == 0 {
        assert(xs.push(x).drop_first() =~= Seq::<IssueView>::empty());
        assert(xs.push(x)[0] == x);
        assert(add_all(added(s, x), Seq::<IssueView>::empty()) == added(s, x));
    } else {
        assert(xs.push(x)[0] == xs[0]);
        assert(xs.push(x).drop_first() =~= xs.drop_first().push(x));
        lemma_add_all_push(added(s, xs[0]), xs.drop_first(), x);
    }
}

fn manifest_issue_loc() -> (r: IssueLoc)
    ensures
        r@ == manifest_loc(),
{
    let r = IssueLoc { file: String::from_str("Move.toml"), start: 0, end: 0, lines: vec![0u32] };
    assert(r@.lines =~= seq![0u32]);
    r
}

impl Issue {
    /// The finding `f` of the rule with metadata `info`, as an issue.
    pub fn of_finding(info: &DetectorInfo, files: &FileSources, f: &Finding) -> (r: Self)
        ensures
            r@ == issue_for(info@, *files, f@),
    {
        let base = IssueInfo::from(info);
        let info = match &f.description {
            Some(t) => base.description(t.clone()),
            None => base,
        };
        let loc = match f.loc {
            Site::Source(l) => IssueLoc::from(files, &l),
            Site::Manifest => manifest_issue_loc(),
        };
        Issue::new(info, loc)
    }
}

impl Issues {
    /// Adds, in order, the findings of the rule with metadata `info`.
    pub fn add_findings(&mut self, info: &DetectorInfo, files: &FileSources, findings: &Vec<Finding>)
        ensures
            final(self)@ == add_all(
                old(self)@,
                issues_for(info@, *files, findings@.map_values(|f: Finding| f@)),
            ),
    {
        let ghost xs = issues_for(info@, *files, findings@.map_values(|f: Finding| f@));
        let mut i: usize = 0;
        proof {
            assert(xs.subrange(0, 0) =~= Seq::<IssueView>::empty());
        }
        while i < findings.len()
            invariant
                i <= findings@.len(),
                xs == issues_for(info@, *files, findings@.map_values(|f: Finding| f@)),
                self@ == add_all(old(self)@, xs.subrange(0, i as int)),
            decreases findings@.len() - i,
        {
            let issue = Issue::of_finding(info, files, &findings[i]);
            proof {
                assert(xs.subrange(0, i as int + 1) =~= xs.subrange(0, i as int).push(issue@));
                lemma_add_all_push(old(self)@, xs.subrange(0, i as int), issue@);
            }
            self.add(issue);
            i = i + 1;
        }
        proof {
            assert(xs.subrange(0, i as int) =~= xs);
        }
    }
}

/// Whether `compare` never answers `Greater` for `a` before `b`.
pub open spec fn not_after<F: Fn(&Issue, &Issue) -> core::cmp::Ordering>(compare: F, a: Issue, b: Issue) -> bool {
    forall|o: core::cmp::Ordering|
        #[trigger] compare.ensures((&a, &b), o) ==> o != core::cmp::Ordering::Greater
}

/// `compare` gives one answer per pair, and answers `Greater` for a pair only
/// when it would not answer `Greater` for the pair swapped.
pub open spec fn consistent<F: Fn(&Issue, &Issue) -> core::cmp::Ordering>(compare: F) -> bool {
    &&& forall|a: &Issue, b: &Issue, o1: core::cmp::Ordering, o2: core::cmp::Ordering|
        #![trigger compare.ensures((a, b), o1), compare.ensures((a, b), o2)]
        compare.ensures((a, b), o1) && compare.ensures((a, b), o2) ==> o1 == o2
    &&& forall|a: &Issue, b: &Issue|
        #[trigger] compare.ensures((a, b), core::cmp::Ordering::Greater) ==> not_after(compare, *b, *a)
}

/// `sorted` holds the findings of `orig` in the order that positions `pos`
/// give (`sorted[i]` is `orig[pos[i]]`), and a finding that came first in
/// `orig` is placed after a later one only where `compare` answered
/// `Greater` for it against that later one: findings that compare `Equal`
/// keep their order.
pub open spec fn stable_arrangement<F: Fn(&Issue, &Issue) -> core::cmp::Ordering>(
    compare: F,
    orig: Seq<Issue>,
    sorted: Seq<Issue>,
    pos: Seq<int>,
) -> bool {
    &&& pos.len() == sorted.len()
    &&& forall|i: int|
        0 <= i < pos.len() ==> 0 <= #[trigger] pos[i] < orig.len() && sorted[i] == orig[pos[i]]
    &&& forall|i: int, j: int| 0 <= i < j < pos.len() ==> #[trigger] pos[i] != #[trigger] pos[j]
    &&& forall|i: int, j: int|
        0 <= i < j < pos.len() && #[trigger] pos[i] > #[trigger] pos[j] ==> compare.ensures(
            (&sorted[j], &sorted[i]),
            core::cmp::Ordering::Greater,
        )
}

impl Issues {
    /// Sorts the findings by `compare`, by insertion: a finding moves only
    /// past findings that compare `Greater` than it. The findings stay the
    /// same; where `compare` is consistent, each is not after the next.
    pub fn sort_by<F>(&mut self, compare: F)
        where
            F: Fn(&Issue, &Issue) -> core::cmp::Ordering,
        requires
            forall|a: &Issue, b: &Issue| compare.requires((a, b)),
        ensures
            final(self)@.to_multiset() == old(self)@.to_multiset(),
            final(self)@ == final(self).items().map_values(|i: Issue| i@),
            consistent(compare) ==> forall|i: int|
                0 <= i < final(self)@.len() - 1 ==> not_after(
                    compare,
                    #[trigger] final(self).items()[i],
                    final(self).items()[i + 1],
                ),
            exists|pos: Seq<int>|
                stable_arrangement(compare, old(self).items(), final(self).items(), pos)
                    && pos.len() == old(self).items().len(),
    {
        broadcast use vstd::seq_lib::group_to_multiset_ensures;

        proof {
            use_type_invariant(&*self);
        }
        let ghost total = old(self)@.to_multiset();
        let mut input: Vec<Issue> = Vec::new();
        core::mem::swap(&mut self.0, &mut input);
        let ghost orig = input@;
        let ghost mut pos: Seq<int> = Seq::empty();
        let mut out: Vec<Issue> = Vec::new();
        proof {
            assert(out@.map_values(|i: Issue| i@) =~= Seq::<IssueView>::empty());
            assert(input@ =~= orig.subrange(0, orig.len() as int));
        }
        while input.len() > 0
            invariant
                forall|a: &Issue, b: &Issue| compare.requires((a, b)),
                orig == old(self).items(),
                out@.len() + input@.len() == orig.len(),
                input@ == orig.subrange(out@.len() as int, orig.len() as int),
                stable_arrangement(compare, orig, out@, pos),
                forall|i: int| 0 <= i < pos.len() ==> #[trigger] pos[i] < out@.len(),
                out@.map_values(|i: Issue| i@).to_multiset().add(
                    input@.map_values(|i: Issue| i@).to_multiset(),
                ) == total,
                consistent(compare) ==> forall|i: int|
                    0 <= i < out@.len() - 1 ==> not_after(compare, #[trigger] out@[i], out@[i + 1]),
            decreases input@.len(),
        {
            let ghost in_before = input@.map_values(|i: Issue| i@);
            let ghost out_before = out@.map_values(|i: Issue| i@);
            let x = input.remove(0);
            proof {
                assert(input@.map_values(|i: Issue| i@) =~= in_before.remove(0));
            }
            let mut j: usize = out.len();
            while j > 0
                invariant
                    forall|a: &Issue, b: &Issue| compare.requires((a, b)),
                    j <= out@.len(),
                    forall|k: int|
                        j <= k < out@.len() ==> compare.ensures(
                            (#[trigger] &out@[k], &x),
                            core::cmp::Ordering::Greater,
                        ),
                ensures
                    j <= out@.len(),
                    forall|k: int|
                        j <= k < out@.len() ==> compare.ensures(
                            (#[trigger] &out@[k], &x),
                            core::cmp::Ordering::Greater,
                        ),
                    consistent(compare) && j > 0 ==> not_after(compare, out@[j - 1], x),
                decreases j,
            {
                let o = compare(&out[j - 1], &x);
                proof {
                    assert(compare.ensures((&out@[j - 1], &x), o));
                }
                match o {
                    core::cmp::Ordering::Greater => {
                        proof {
                            assert(compare.ensures((&out@[j - 1], &x), core::cmp::Ordering::Greater));
                        }
                    },
                    _ => {
                        proof {
                            if consistent(compare) {
                                assert(not_after(compare, out@[j - 1], x));
                            }
                        }
                        break;
                    },
                }
                j = j - 1;
            }
            let ghost xv = x@;
            let ghost out_old = out@;
            let ghost pos_old = pos;
            let ghost n = out_old.len() as int;
            proof {
                assert(x == orig[n]) by {
                    assert(in_before.len() > 0);
                }
            }
            out.insert(j, x);
            proof {
                pos = pos_old.insert(j as int, n);
                assert(input@ =~= orig.subrange(out@.len() as int, orig.len() as int));
                assert forall|i: int| 0 <= i < pos.len() implies 0 <= #[trigger] pos[i] < orig.len()
                    && out@[i] == orig[pos[i]] && pos[i] < out@.len() by {
                    if i < j {
                        assert(pos[i] == pos_old[i]);
                    } else if i > j {
                        assert(pos[i] == pos_old[i - 1]);
                    }
                }
                assert forall|a: int, b: int| 0 <= a < b < pos.len() implies #[trigger] pos[a]
                    != #[trigger] pos[b] by {
                    if a != j && b != j {
                        let a0 = if a < j { a } else { a - 1 };
                        let b0 = if b < j { b } else { b - 1 };
                        assert(pos[a] == pos_old[a0] && pos[b] == pos_old[b0]);
                    } else if a == j {
                        assert(pos[b] == pos_old[b - 1]);
                    } else {
                        assert(pos[a] == pos_old[a]);
                    }
                }
                assert forall|a: int, b: int|
                    0 <= a < b < pos.len() && #[trigger] pos[a] > #[trigger] pos[b] implies compare.ensures(
                    (&out@[b], &out@[a]),
                    core::cmp::Ordering::Greater,
                ) by {
                    if a != j && b != j {
                        let a0 = if a < j { a } else { a - 1 };
                        let b0 = if b < j { b } else { b - 1 };
                        assert(pos[a] == pos_old[a0] && pos[b] == pos_old[b0]);
                        assert(out@[a] == out_old[a0] && out@[b] == out_old[b0]);
                    } else if a == j {
                        assert(out@[a] == x && out@[b] == out_old[b - 1]);
                        assert(compare.ensures((&out_old[b - 1], &x), core::cmp::Ordering::Greater));
                    } else {
                        assert(pos[a] == pos_old[a]);
                        assert(pos_old[a] < n);
                    }
                }
                assert(stable_arrangement(compare, orig, out@, pos));
                assert(out@.map_values(|i: Issue| i@) =~= out_before.insert(j as int, xv));
                let m_out = out_before.to_multiset();
                let m_in = in_before.to_multiset();
                assert(in_before[0] == xv);
                let new_out = out@.map_values(|i: Issue| i@);
                let new_in = input@.map_values(|i: Issue| i@);
                vstd::seq_lib::to_multiset_insert(out_before, j as int, xv);
                vstd::seq_lib::to_multiset_remove(in_before, 0);
                assert(new_out.to_multiset() == m_out.insert(xv));
                assert(new_in.to_multiset() == m_in.remove(xv));
                vstd::seq_lib::to_multiset_contains(in_before, xv);
                assert(in_before.contains(xv));
                assert(m_in.count(xv) > 0);
                assert(m_out.insert(xv).add(m_in.remove(xv)) =~= m_out.add(m_in));
                if consistent(compare) {
                    if j < out_old.len() {
                        assert(not_after(compare, x, out_old[j as int]));
                    }
                    assert forall|i: int| 0 <= i < out@.len() - 1 implies not_after(
                        compare,
                        #[trigger] out@[i],
                        out@[i + 1],
                    ) by {
                        if i + 1 < j {
                            assert(out@[i] == out_old[i] && out@[i + 1] == out_old[i + 1]);
                        } else if i + 1 == j {
                            assert(out@[i] == out_old[i] && out@[i + 1] == x);
                        } else if i == j {
                            assert(out@[i] == x && out@[i + 1] == out_old[i]);
                        } else {
                            assert(out@[i] == out_old[i - 1] && out@[i + 1] == out_old[i]);
                        }
                    }
                }
            }
        }
        proof {
            let v = out@.map_values(|i: Issue| i@);
            assert(input@.map_values(|i: Issue| i@) =~= Seq::<IssueView>::empty());
            assert(Seq::<IssueView>::empty().to_multiset() =~= Multiset::<IssueView>::empty());
            assert(v.to_multiset().add(Multiset::empty()) =~= v.to_multiset());
            assert(v.to_multiset() == total);
            old(self)@.lemma_multiset_has_no_duplicates();
            v.lemma_multiset_has_no_duplicates_conv();
            assert(stable_arrangement(compare, old(self).items(), out@, pos));
        }
        self.0 = out;
        proof {
            assert(stable_arrangement(compare, old(self).items(), self.items(), pos) && pos.len()
                == old(self).items().len());
        }
    }
}

} // verus!
