//! Typed extension models.
//!
//! Each extension carries contextual metadata with an explicit
//! mutability tier enforced by the pipeline. Extensions always travel
//! beside the payload, never inside it.

pub mod tiers;
pub mod monotonic;
pub mod guarded;
pub mod http;
pub mod security;
pub mod delegation;
pub mod records;
pub mod container;
pub mod filter;
