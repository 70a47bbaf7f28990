use ternary_transfer::domain::FeatureMatch;
use ternary_transfer::negative::{recommendation, RiskLevel};
use ternary_transfer::seed::{lcg_step, sample, seed_samples};
use ternary_transfer::strategy::{direct_copy_plan, selective_plan, SlotOrigin, StrategyKind};
use ternary_transfer::strategy::SlotOrigin::{Baseline, Source, Zero};
use ternary_transfer::task::{position_of_name, shared_features, FeatureTag};
use ternary_transfer::Ternary;

fn tag(name: &str, bias: Ternary) -> FeatureTag {
    FeatureTag { name: name.to_string(), ternary_bias: bias }
}

fn positive_tags(count: usize) -> Vec<FeatureTag> {
    (0..count).map(|i| tag(&format!("f{}", i), Ternary::Positive)).collect()
}

// --- Ternary ---

#[test]
fn ternary_from_i8() {
    assert_eq!(Ternary::from_i8(-1), Some(Ternary::Negative));
    assert_eq!(Ternary::from_i8(0), Some(Ternary::Neutral));
    assert_eq!(Ternary::from_i8(1), Some(Ternary::Positive));
    assert_eq!(Ternary::from_i8(2), None);
}

#[test]
fn ternary_from_i8_rejects_out_of_range() {
    assert_eq!(Ternary::from_i8(-2), None);
    assert_eq!(Ternary::from_i8(i8::MIN), None);
    assert_eq!(Ternary::from_i8(i8::MAX), None);
}

#[test]
fn ternary_to_i8_values() {
    assert_eq!(Ternary::Negative.to_i8(), -1);
    assert_eq!(Ternary::Neutral.to_i8(), 0);
    assert_eq!(Ternary::Positive.to_i8(), 1);
}

#[test]
fn ternary_round_trip() {
    for t in [Ternary::Negative, Ternary::Neutral, Ternary::Positive] {
        assert_eq!(Ternary::from_i8(t.to_i8()), Some(t));
    }
    for v in -1i8..=1 {
        assert_eq!(Ternary::from_i8(v).unwrap().to_i8(), v);
    }
}

// --- Feature names ---

#[test]
fn position_of_name_finds_first() {
    let features = vec![
        tag("a", Ternary::Positive),
        tag("b", Ternary::Negative),
        tag("b", Ternary::Neutral),
    ];
    assert_eq!(position_of_name(&features, &"b".to_string()), Some(1));
    assert_eq!(position_of_name(&features, &"a".to_string()), Some(0));
    assert_eq!(position_of_name(&features, &"z".to_string()), None);
    assert_eq!(position_of_name(&Vec::new(), &"a".to_string()), None);
}

#[test]
fn shared_features_keeps_source_order() {
    let source = vec![
        tag("speed", Ternary::Positive),
        tag("obstacle", Ternary::Negative),
        tag("fuel", Ternary::Neutral),
    ];
    let target = vec![tag("fuel", Ternary::Positive), tag("speed", Ternary::Positive)];
    assert_eq!(
        shared_features(&source, &target),
        vec!["speed".to_string(), "fuel".to_string()]
    );
    assert!(shared_features(&source, &Vec::new()).is_empty());
}

#[test]
fn shared_features_repeats_repeated_source_names() {
    let source = vec![tag("a", Ternary::Positive), tag("a", Ternary::Positive)];
    let target = vec![tag("a", Ternary::Positive)];
    assert_eq!(shared_features(&source, &target), vec!["a".to_string(), "a".to_string()]);
}

#[test]
fn tag_clone_keeps_fields() {
    let t = tag("speed", Ternary::Negative);
    let c = t.clone();
    assert_eq!(c.name, "speed");
    assert_eq!(c.ternary_bias, Ternary::Negative);
}

// --- Feature matching ---

#[test]
fn feature_match_identical_tasks() {
    let m = FeatureMatch::compute(&positive_tags(2), &positive_tags(2));
    assert_eq!(m.partners, vec![Some(0), Some(1)]);
    assert_eq!(m.shared_count, 2);
    assert_eq!(m.bias_disagreements, 0);
    assert_eq!(m.total_features, 4);
}

#[test]
fn feature_match_disjoint_tasks() {
    let source = vec![tag("x", Ternary::Negative)];
    let target = vec![tag("z", Ternary::Positive)];
    let m = FeatureMatch::compute(&source, &target);
    assert_eq!(m.partners, vec![None]);
    assert_eq!(m.shared_count, 0);
    assert_eq!(m.bias_disagreements, 0);
    assert_eq!(m.total_features, 2);
}

#[test]
fn feature_match_both_empty() {
    let m = FeatureMatch::compute(&Vec::new(), &Vec::new());
    assert!(m.partners.is_empty());
    assert_eq!(m.shared_count, 0);
    assert_eq!(m.bias_disagreements, 0);
    assert_eq!(m.total_features, 0);
}

#[test]
fn feature_match_counts_bias_disagreements_against_first_partner() {
    let source = vec![
        tag("speed", Ternary::Positive),
        tag("obstacle", Ternary::Negative),
        tag("fuel", Ternary::Neutral),
    ];
    let target = vec![
        tag("obstacle", Ternary::Positive),
        tag("speed", Ternary::Positive),
        tag("obstacle", Ternary::Negative),
    ];
    let m = FeatureMatch::compute(&source, &target);
    assert_eq!(m.partners, vec![Some(1), Some(0), None]);
    assert_eq!(m.shared_count, 2);
    // "obstacle" is compared with its first partner, which expects Positive.
    assert_eq!(m.bias_disagreements, 1);
    assert_eq!(m.total_features, 6);
}

#[test]
fn feature_match_shared_count_equals_shared_features() {
    let source = vec![tag("a", Ternary::Positive), tag("b", Ternary::Positive), tag("c", Ternary::Neutral)];
    let target = vec![tag("c", Ternary::Negative), tag("a", Ternary::Neutral)];
    let m = FeatureMatch::compute(&source, &target);
    assert_eq!(m.shared_count, shared_features(&source, &target).len());
    assert_eq!(m.bias_disagreements, 2);
}

#[test]
fn overlap_at_most_one_with_distinct_names() {
    let source = vec![tag("a", Ternary::Positive), tag("b", Ternary::Positive)];
    let target = vec![tag("a", Ternary::Positive), tag("b", Ternary::Positive), tag("c", Ternary::Positive)];
    let m = FeatureMatch::compute(&source, &target);
    assert!(2 * m.shared_count <= m.total_features);
    assert_eq!(m.shared_count, 2);
}

#[test]
fn overlap_can_exceed_one_with_repeated_source_names() {
    let source = vec![tag("a", Ternary::Positive), tag("a", Ternary::Positive)];
    let target = vec![tag("a", Ternary::Positive)];
    let m = FeatureMatch::compute(&source, &target);
    assert_eq!(m.shared_count, 2);
    assert_eq!(m.total_features, 3);
    assert!(2 * m.shared_count > m.total_features);
}

// --- Strategy plans ---

#[test]
fn strategy_kind_names() {
    assert_eq!(StrategyKind::DirectCopy.name(), "direct_copy");
    assert_eq!(StrategyKind::WeightedBlend.name(), "weighted_blend");
    assert_eq!(StrategyKind::SelectiveTransfer.name(), "selective_transfer");
    assert_eq!(StrategyKind::Progressive.name(), "progressive");
}

#[test]
fn direct_copy_plan_pads_and_truncates() {
    assert_eq!(direct_copy_plan(3, 1), vec![Source, Zero, Zero]);
    assert_eq!(direct_copy_plan(3, 4), vec![Source, Source, Source]);
    assert_eq!(direct_copy_plan(2, 2), vec![Source, Source]);
    assert!(direct_copy_plan(0, 5).is_empty());
}

#[test]
fn selective_plan_selected_and_baseline() {
    assert_eq!(selective_plan(&vec![0, 2], 3, 3, 3), vec![Source, Baseline, Source]);
}

#[test]
fn selective_plan_ignores_out_of_range_indices() {
    assert_eq!(selective_plan(&vec![0, 5], 3, 3, 3), vec![Source, Baseline, Baseline]);
}

#[test]
fn selective_plan_respects_source_and_baseline_lengths() {
    // Index 2 is in the target but past the end of the source: it keeps the baseline.
    assert_eq!(selective_plan(&vec![2, 0, 0], 4, 2, 3), vec![Source, Baseline, Baseline, Zero]);
    assert_eq!(selective_plan(&vec![], 2, 2, 0), vec![Zero, Zero]);
}

// --- Seed stream ---

#[test]
fn lcg_step_known_values() {
    assert_eq!(lcg_step(0), 1442695040888963407);
    assert_eq!(
        lcg_step(42),
        42u64.wrapping_mul(6364136223846793005).wrapping_add(1442695040888963407)
    );
    assert_eq!(lcg_step(1), 6364136223846793005u64.wrapping_add(1442695040888963407));
}

#[test]
fn sample_reads_high_bits_signed() {
    assert_eq!(sample(0), 0);
    assert_eq!(sample(0x7fff_ffff_0000_0000), i32::MAX);
    assert_eq!(sample(0x8000_0000_0000_0000), i32::MIN);
    assert_eq!(sample(0xffff_ffff_ffff_ffff), -1);
    assert_eq!(sample(0x0000_0001_ffff_ffff), 1);
}

#[test]
fn seed_samples_follow_the_generator() {
    let samples = seed_samples(3, 7);
    let s1 = lcg_step(7);
    let s2 = lcg_step(s1);
    let s3 = lcg_step(s2);
    assert_eq!(samples, vec![sample(s1), sample(s2), sample(s3)]);
    assert!(seed_samples(0, 7).is_empty());
}

#[test]
fn seed_samples_deterministic() {
    assert_eq!(seed_samples(10, 42), seed_samples(10, 42));
    assert_eq!(seed_samples(64, 7), seed_samples(64, 7));
}

#[test]
fn seed_samples_cover_both_signs() {
    let samples = seed_samples(200, 42);
    assert_eq!(samples.len(), 200);
    assert!(samples.iter().any(|&v| v < 0));
    assert!(samples.iter().any(|&v| v > 0));
    let weights: Vec<f64> = samples.iter().map(|&v| v as f64 / 2147483648.0).collect();
    assert!(weights.iter().all(|&w| (-1.0..=1.0).contains(&w)));
}

// --- Negative transfer advice ---

#[test]
fn recommendation_abort_when_detected() {
    for risk in [RiskLevel::Low, RiskLevel::Medium, RiskLevel::High, RiskLevel::Critical] {
        assert_eq!(
            recommendation(true, risk),
            "Abort transfer — negative impact likely. Consider learning from scratch."
        );
    }
}

#[test]
fn recommendation_by_risk_level() {
    assert_eq!(
        recommendation(false, RiskLevel::Low),
        "Low risk — direct copy or weighted blend should work well."
    );
    assert_eq!(
        recommendation(false, RiskLevel::Medium),
        "Moderate risk — weighted blend recommended."
    );
    assert_eq!(
        recommendation(false, RiskLevel::High),
        "High risk — use progressive or selective transfer with caution."
    );
    assert_eq!(
        recommendation(false, RiskLevel::Critical),
        "High risk — use progressive or selective transfer with caution."
    );
}
