//! Verified decision logic of the Colonizing Pirkanmaa AI trainer.

pub mod cnn;
pub mod spatial;
pub mod metrics;
pub mod hard_ai;
pub mod safety;
pub mod mlp;
pub mod features;
pub mod policy;
pub mod candidates;
pub mod policy_spatial;
pub mod run;
pub mod search;
pub mod selfplay;
pub mod order;
pub mod assault;
pub mod defence;
pub mod march;
pub mod placement;
pub mod intents;
pub mod planes;
pub mod staffing;
pub mod spatial_arch;
