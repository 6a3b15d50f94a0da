pub mod dry_runner;
pub mod errors;
pub mod events;
pub mod execution_plan;
pub mod executor;
pub mod hashing;
pub mod histogram;
pub mod metrics;
pub mod run_engine;
pub mod sampler;
pub mod scheduler;
pub mod schema;
pub mod text;
pub mod validation;
pub mod vu_runner;

pub use crate::dry_runner::{dry_run, dry_run_plan_only, dry_run_simulated};
pub use crate::execution_plan::plan;

use vstd::prelude::*;
use crate::schema::Scenario;

verus! {

/// The application's shared context: the scenario under execution.
pub struct AppContext {
    pub scenario: std::sync::Arc<Scenario>,
}

} // verus!
