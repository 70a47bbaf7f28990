//! The three-valued sign used for feature biases and weight directions.

use vstd::prelude::*;

verus! {

/// A ternary value: Negative, Neutral, or Positive.
#[derive(Debug, Clone, Copy, PartialEq, Eq, Hash, Structural)]
pub enum Ternary {
    Negative,
    Neutral,
    Positive,
}

impl Ternary {
    /// The integer that the trit stands for: -1, 0 or +1.
    pub open spec fn value(self) -> int {
        match self {
            Ternary::Negative => -1,
            Ternary::Neutral => 0,
            Ternary::Positive => 1,
        }
    }

    /// The trit whose value is `v`, where there is one.
    pub open spec fn spec_from_int(v: int) -> Option<Ternary> {
        if v == -1 {
            Some(Ternary::Negative)
        } else if v == 0 {
            Some(Ternary::Neutral)
        } else if v == 1 {
            Some(Ternary::Positive)
        } else {
            None
        }
    }

    /// Reads a trit from its integer value; any value outside {-1, 0, 1} gives `None`.
    pub fn from_i8(v: i8) -> (r: Option<Ternary>)
        ensures
            r == Self::spec_from_int(v as int),
            r is Some <==> -1 <= v <= 1,
            r matches Some(t) ==> t.value() == v,
    {
        match v {
            -1 => Some(Ternary::Negative),
            0 => Some(Ternary::Neutral),
            1 => Some(Ternary::Positive),
            _ => None,
        }
    }

    /// The integer value of the trit.
    pub fn to_i8(self) -> (r: i8)
        ensures
            r == self.value(),
            -1 <= r <= 1,
    {
        match self {
            Ternary::Negative => -1,
            Ternary::Neutral => 0,
            Ternary::Positive => 1,
        }
    }
}

/// Reading back the value of a trit gives the same trit: `from_i8(to_i8(t)) == Some(t)`.
pub proof fn lemma_ternary_value_round_trip(t: Ternary)
    ensures
        Ternary::spec_from_int(t.value()) == Some(t),
        -1 <= t.value() <= 1,
{
}

/// Every integer that `from_i8` accepts is the value of the trit it returns, so
/// `to_i8(from_i8(v).unwrap()) == v`, and distinct trits have distinct values.
pub proof fn lemma_ternary_int_round_trip(v: int, t: Ternary, u: Ternary)
    ensures
        Ternary::spec_from_int(v) matches Some(s) ==> s.value() == v,
        t.value() == u.value() ==> t == u,
{
}

} // verus!
