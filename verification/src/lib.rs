//! Fixed-step explicit Euler integration with a multi-rate schedule:
//! instantaneous event updates, observation bursts and report-rate output
//! sampling, nested from finest to coarsest granularity.

pub mod dop_shared;
pub mod euler;

pub use dop_shared::IntegrationError;
pub use dop_shared::StateOps;
pub use dop_shared::Stats;
pub use dop_shared::System;
pub use dop_shared::TimeOps;
pub use euler::Euler;
pub use euler::StepCounts;
