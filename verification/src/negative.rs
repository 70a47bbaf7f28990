//! Risk levels of negative transfer, and the advice that goes with a verdict.

use vstd::prelude::*;

verus! {

/// Risk level for negative transfer, ordered from the least to the most severe.
#[derive(Debug, Clone, Copy, PartialEq, Eq, Structural)]
pub enum RiskLevel {
    Low,
    Medium,
    High,
    Critical,
}

/// The advice that goes with a verdict on negative transfer and a risk level.
pub open spec fn spec_recommendation(detected: bool, risk: RiskLevel) -> Seq<char> {
    if detected {
        "Abort transfer — negative impact likely. Consider learning from scratch."@
    } else if risk == RiskLevel::High || risk == RiskLevel::Critical {
        "High risk — use progressive or selective transfer with caution."@
    } else if risk == RiskLevel::Medium {
        "Moderate risk — weighted blend recommended."@
    } else {
        "Low risk — direct copy or weighted blend should work well."@
    }
}

/// Advice for a transfer: abort when negative transfer was detected, otherwise
/// advice graded by the risk level.
pub fn recommendation(detected: bool, risk: RiskLevel) -> (r: &'static str)
    ensures
        r@ == spec_recommendation(detected, risk),
{
    if detected {
        "Abort transfer — negative impact likely. Consider learning from scratch."
    } else if risk == RiskLevel::High || risk == RiskLevel::Critical {
        "High risk — use progressive or selective transfer with caution."
    } else if risk == RiskLevel::Medium {
        "Moderate risk — weighted blend recommended."
    } else {
        "Low risk — direct copy or weighted blend should work well."
    }
}

/// Once negative transfer is detected the advice is to abort, whatever the risk
/// level; otherwise High and Critical risk get the same advice, and Low, Medium and
/// High each get different advice.
pub proof fn lemma_advice_by_verdict(r1: RiskLevel, r2: RiskLevel)
    ensures
        spec_recommendation(true, r1) == spec_recommendation(true, r2),
        spec_recommendation(true, r1) == "Abort transfer — negative impact likely. Consider learning from scratch."@,
        spec_recommendation(false, RiskLevel::High) == spec_recommendation(false, RiskLevel::Critical),
        (r1 != r2 && r1 != RiskLevel::Critical && r2 != RiskLevel::Critical)
            ==> spec_recommendation(false, r1) != spec_recommendation(false, r2),
        spec_recommendation(false, r1) != spec_recommendation(true, r2),
{
    reveal_strlit("Abort transfer — negative impact likely. Consider learning from scratch.");
    reveal_strlit("High risk — use progressive or selective transfer with caution.");
    reveal_strlit("Moderate risk — weighted blend recommended.");
    reveal_strlit("Low risk — direct copy or weighted blend should work well.");
    let a = "Abort transfer — negative impact likely. Consider learning from scratch."@;
    let h = "High risk — use progressive or selective transfer with caution."@;
    let m = "Moderate risk — weighted blend recommended."@;
    let l = "Low risk — direct copy or weighted blend should work well."@;
    assert(a[0] != h[0]);
    assert(a[0] != m[0]);
    assert(a[0] != l[0]);
    assert(h[0] != m[0]);
    assert(h[0] != l[0]);
    assert(m[0] != l[0]);
}

} // verus!
