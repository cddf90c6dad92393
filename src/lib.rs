//! Decision core of a controller that injects a configuration sidecar into
//! annotated workloads: annotation extraction, validation, desired-state
//! building, the reconciliation decision and the finalizer lifecycle.
pub mod annotations;
pub mod config;
pub mod diagnostics;
pub mod engine;
pub mod error;
pub mod keys;
pub mod lifecycle;
pub mod sidecar;
pub mod text;

pub use crate::config::CirrusEnvironment;
pub use crate::diagnostics::Diagnostics;
pub use crate::engine::{decide, ControllerType, Decision, ManagedObject};
pub use crate::error::Error;
pub use crate::lifecycle::{error_policy, Action};
