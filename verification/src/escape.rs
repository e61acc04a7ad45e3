//! Escape classification: the decision kernel of the iterated-map
//! divergence test.
//!
//! The numeric evaluator iterates `z ↦ z² + c` in double precision and
//! reports the first iteration (if any, within the budget) at which the
//! iterate's magnitude exceeded the bailout radius, together with the
//! continuous ("smoothed") escape index it derived from the escaping
//! magnitude. Everything discrete about the outcome — whether the point is
//! inside or outside, and at which iteration it escaped — is decided here.

use vstd::prelude::*;

verus! {

/// The discrete outcome of the divergence test.
#[derive(Clone, Copy, PartialEq, Eq, Structural, Debug)]
pub enum DiscreteEscape {
    /// The iteration budget was exhausted without the iterate diverging.
    Inside,
    /// The iterate's magnitude first exceeded the bailout radius at this
    /// iteration (counted from zero).
    EscapedAt(u64),
}

/// The per-pixel escape datum consumed by the colour mapping.
#[derive(Clone, Copy, PartialEq, Eq, Structural, Debug)]
pub enum EscapeResult {
    /// The point never diverged within the iteration budget; it is drawn
    /// solid black.
    Inside,
    /// The point diverged; the payload is the continuous escape index in
    /// unsigned Q32.32 fixed point. The index is nonnegative by
    /// construction: an index that the smoothing formula would place
    /// slightly below zero (possible for points escaping on the very first
    /// iteration with a large bailout radius) is clamped to zero.
    Outside(u64),
}

/// The discrete classification of a point, given the first iteration at
/// which divergence was observed (if any) and the iteration budget: a
/// divergence within the budget classifies the point as escaped at that
/// iteration, anything else as inside.
pub open spec fn classification_spec(first_divergence: Option<u64>, max_iterations: u64) -> DiscreteEscape {
    match first_divergence {
        Option::Some(m) => if m < max_iterations {
            DiscreteEscape::EscapedAt(m)
        } else {
            DiscreteEscape::Inside
        },
        Option::None => DiscreteEscape::Inside,
    }
}

/// Decides whether a point is inside the set or escaped, from the observed
/// first divergence and the iteration budget.
pub fn classify(first_divergence: Option<u64>, max_iterations: u64) -> (r: DiscreteEscape)
    ensures
        r == classification_spec(first_divergence, max_iterations),
        r is EscapedAt <==> (first_divergence is Some && first_divergence->0 < max_iterations),
    {
    match first_divergence {
        Some(m) => {
            if m < max_iterations {
                DiscreteEscape::EscapedAt(m)
            } else {
                DiscreteEscape::Inside
            }
        },
        None => DiscreteEscape::Inside,
    }
}

/// Raising the iteration budget never changes the classification of a
/// point that already escaped under the smaller budget: the escape
/// iteration is a property of the point alone, only the `Inside`
/// classification depends on the cap.
pub proof fn lemma_classification_monotonic(m: u64, smaller: u64, larger: u64)
    requires
        m < smaller,
        smaller <= larger,
    ensures
        classification_spec(Option::Some(m), smaller) == DiscreteEscape::EscapedAt(m),
        classification_spec(Option::Some(m), larger) == DiscreteEscape::EscapedAt(m),
        classification_spec(Option::Some(m), smaller) == classification_spec(
            Option::Some(m),
            larger,
        ),
{
}

/// The continuous index used when smoothing is disabled: exactly the
/// escape iteration, represented in Q32.32 fixed point.
pub fn unsmoothed_index(m: u64) -> (i: u64)
    requires
        m <= u32::MAX,
    ensures
        i == m * crate::FRAC_ONE,
{
    m * crate::FRAC_ONE
}

impl EscapeResult {
    /// Whether the point is inside the set.
    pub fn is_inside(&self) -> (r: bool)
        ensures
            r <==> (*self is Inside),
    {
        match self {
            EscapeResult::Inside => true,
            EscapeResult::Outside(_) => false,
        }
    }
}

} // verus!
