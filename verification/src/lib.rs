//! Crowd-funded agricultural investment projects: project creation with a
//! funding goal, incremental investment toward that goal, and post-maturity
//! proportional-return claims, plus administrative pause and owner withdrawal.
//!
//! The core is a verified state machine over plain values. The hosting
//! environment supplies the external collaborators: the current timestamp
//! (a monotonically non-decreasing clock) and the result of the capability
//! check `authorize(principal) -> bool`. Each operation takes those as
//! arguments, validates, and either commits its whole effect or returns an
//! error with no state change at all.

pub mod errors;
pub mod types;
pub mod indexes;
pub mod state;
pub mod ops;
pub mod laws;

pub use errors::Error;
pub use types::{Principal, Project, Investment, ProjectStats};
pub use indexes::UserIndex;
pub use state::AgroCoinContract;
