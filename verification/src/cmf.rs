//! The common message format (CMF): messages made of typed content
//! parts, and per-part views for policy evaluation.

pub mod constants;
pub mod enums;
pub mod content;
pub mod message;
pub mod view;
