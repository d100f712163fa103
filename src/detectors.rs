//! The registry: an ordered sequence of detectors.
use vstd::prelude::*;
use crate::detector::{Detector, DetectorView};
use crate::rules::{
    fresh, AbstractDetector, Detector1, Detector2, Detector3, Detector4, Detector5, Detector6,
    Detector7, Detector8, Rule,
};

verus! {

/// The default registry: one fresh detector per rule, by rule number.
pub open spec fn default_registry() -> Seq<DetectorView> {
    seq![
        fresh(Rule::AssertFirst),
        fresh(Rule::AssertZeroCode),
        fresh(Rule::UnnecessaryCast),
        fresh(Rule::UnusedPrivate),
        fresh(Rule::ShiftOverflow),
        fresh(Rule::DeprecatedCall),
        fresh(Rule::MulBeforeDiv),
        fresh(Rule::BranchDependency),
    ]
}

/// Detectors in the order they run. Each one added is kept, even beside
/// another of the same rule.
pub struct Detectors(Vec<Detector>);

impl View for Detectors {
    type V = Seq<DetectorView>;

    closed spec fn view(&self) -> Seq<DetectorView> {
        self.0@.map_values(|d: Detector| d@)
    }
}

impl Default for Detectors {
    fn default() -> (r: Self)
        ensures
            r@ == default_registry(),
    {
        let v = vec![
            Detector1::detector(),
            Detector2::detector(),
            Detector3::detector(),
            Detector4::detector(),
            Detector5::detector(),
            Detector6::detector(),
            Detector7::detector(),
            Detector8::detector(),
        ];
        let r = Self(v);
        assert(r@ =~= default_registry());
        r
    }
}

impl Detectors {
    pub fn new() -> (r: Self)
        ensures
            r@ == Seq::<DetectorView>::empty(),
    {
        let r = Self(Vec::new());
        assert(r@ =~= Seq::<DetectorView>::empty());
        r
    }

    pub fn from(v: Vec<Detector>) -> (r: Self)
        ensures
            r@ == v@.map_values(|d: Detector| d@),
    {
        Self(v)
    }

    /// The detectors, in order.
    pub fn meta(self) -> (r: Vec<Detector>)
        ensures
            r@.map_values(|d: Detector| d@) == self@,
    {
        self.0
    }

    /// Appends `x`; it runs after those already there.
    pub fn add(&mut self, x: Detector)
        ensures
            final(self)@ == old(self)@.push(x@),
    {
        let ghost v = x@;
        self.0.push(x);
        assert(self@ =~= old(self)@.push(v));
    }

    pub fn len(&self) -> (r: usize)
        ensures
            r == self@.len(),
    {
        self.0.len()
    }

    pub fn is_empty(&self) -> (r: bool)
        ensures
            r == (self@.len() == 0),
    {
        self.0.len() == 0
    }

    pub fn get(&self, idx: usize) -> (r: &Detector)
        requires
            idx < self@.len(),
        ensures
            r@ == self@[idx as int],
    {
        &self.0[idx]
    }
}

} // verus!
