//! Verified core of a library for simulating and evaluating point processes:
//! the regions on which spatial processes are sampled, and the acceptance
//! step of simulation by thinning.

pub mod error;
pub mod region;
pub mod thinning;

pub use error::ProcessError;
pub use region::Rectangle;
pub use thinning::{thin, Candidate};
