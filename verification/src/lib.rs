//! CPEX — a plugin runtime core: hook registry, route resolution,
//! capability-gated extensions, and the five-phase execution pipeline.

pub mod text;
pub mod assoc;
pub mod json;
pub mod error;
pub mod hooks;
pub mod plugin;
pub mod config;
pub mod extensions;
pub mod context;
pub mod registry;
pub mod executor;
pub mod manager;
pub mod cmf;
pub mod plugins;
pub mod boundary;
