//! # ternary-transfer
//!
//! Transfer learning for ternary agents: the trit algebra {-1, 0, +1} that the
//! feature biases are written in, the name matching between a source and a
//! target domain behind the domain gap, the slot-by-slot plans of the copying
//! transfer strategies, the deterministic seed stream for knowledge matrices,
//! and the advice given for a negative-transfer risk level.

pub mod domain;
pub mod negative;
pub mod seed;
pub mod strategy;
pub mod task;
pub mod ternary;

pub use domain::FeatureMatch;
pub use negative::{recommendation, RiskLevel};
pub use seed::seed_samples;
pub use strategy::{direct_copy_plan, selective_plan, SlotOrigin, StrategyKind};
pub use task::{position_of_name, shared_features, FeatureTag};
pub use ternary::Ternary;
