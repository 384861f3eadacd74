//! Verified driver model for a RISC-V Platform-Level Interrupt Controller.
//!
//! The crate proves two things about the controller:
//! - the register address model: every abstract (source, context) pair is
//!   translated to an exact byte offset and bit position inside the flat
//!   memory-mapped register file, and distinct pairs never collide; and
//! - the claim/complete protocol: claiming returns the highest-priority
//!   eligible source (lowest id on ties), clears its pending bit, and keeps
//!   it out of further claims until it is completed and asserted again.

mod bits;
pub mod layout;
mod hart;
mod controller;

pub use bits::{nth_bit, set_bit, clear_bit, test_bit};
pub use hart::{HartContext, Mode, SimpleContext, privilege_prefix_sum};
pub use controller::{
    Plic, same_priorities, same_pending, same_enables, same_thresholds, same_claims, same_limits,
    lemma_arbitration_unique, lemma_not_pending_not_eligible, lemma_zero_threshold_eligibility,
};
