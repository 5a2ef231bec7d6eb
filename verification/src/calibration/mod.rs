//! Calibration datasets: inputs, automatic admission, coverage assessment and the session.
pub mod admission;
pub mod admission_laws;
pub mod assess;
pub mod coverage;
pub mod coverage_laws;
pub mod error;
pub mod input;
pub mod item;
pub mod laws;
pub mod pnp;
pub mod session;
pub mod session_laws;
