//! What a hook handler returns.

use vstd::prelude::*;

use crate::error::PluginViolation;
use crate::extensions::container::OwnedExtensions;
use crate::json::JsonValue;

verus! {

/// Result returned by a hook handler.
///
/// Payload and extension changes travel separately: an extension-only
/// change never copies the payload. The executor interprets the result
/// by the plugin's mode: only sequential and transform plugins may
/// modify; only sequential and concurrent plugins may halt.
#[derive(Debug)]
pub struct PluginResult<P> {
    /// `false` asks to halt the pipeline (a deny).
    pub continue_processing: bool,
    /// The modified payload, if the content changed.
    pub modified_payload: Option<P>,
    /// The modified extensions, from `Extensions::cow_copy`.
    pub modified_extensions: Option<OwnedExtensions>,
    /// The violation behind a deny.
    pub violation: Option<PluginViolation>,
    /// Telemetry; never used for decisions.
    pub metadata: Option<JsonValue>,
}

impl<P> PluginResult<P> {
    /// Continue, changing nothing.
    pub fn allow() -> (r: Self)
        ensures
            r.continue_processing,
            r.modified_payload is None,
            r.modified_extensions is None,
            r.violation is None,
            r.metadata is None,
    {
        PluginResult {
            continue_processing: true,
            modified_payload: None,
            modified_extensions: None,
            violation: None,
            metadata: None,
        }
    }

    /// Halt with a violation.
    pub fn deny(violation: PluginViolation) -> (r: Self)
        ensures
            !r.continue_processing,
            r.modified_payload is None,
            r.modified_extensions is None,
            r.violation == Some(violation),
            r.metadata is None,
    {
        PluginResult {
            continue_processing: false,
            modified_payload: None,
            modified_extensions: None,
            violation: Some(violation),
            metadata: None,
        }
    }

    /// Continue with a new payload; extensions unchanged.
    pub fn modify_payload(payload: P) -> (r: Self)
        ensures
            r.continue_processing,
            r.modified_payload == Some(payload),
            r.modified_extensions is None,
            r.violation is None,
            r.metadata is None,
    {
        PluginResult {
            continue_processing: true,
            modified_payload: Some(payload),
            modified_extensions: None,
            violation: None,
            metadata: None,
        }
    }

    /// Continue with new extensions; payload unchanged.
    pub fn modify_extensions(extensions: OwnedExtensions) -> (r: Self)
        ensures
            r.continue_processing,
            r.modified_payload is None,
            r.modified_extensions == Some(extensions),
            r.violation is None,
            r.metadata is None,
    {
        PluginResult {
            continue_processing: true,
            modified_payload: None,
            modified_extensions: Some(extensions),
            violation: None,
            metadata: None,
        }
    }

    /// Continue with a new payload and new extensions.
    pub fn modify(payload: P, extensions: OwnedExtensions) -> (r: Self)
        ensures
            r.continue_processing,
            r.modified_payload == Some(payload),
            r.modified_extensions == Some(extensions),
            r.violation is None,
            r.metadata is None,
    {
        PluginResult {
            continue_processing: true,
            modified_payload: Some(payload),
            modified_extensions: Some(extensions),
            violation: None,
            metadata: None,
        }
    }

    /// Whether this result is a deny.
    pub fn is_denied(&self) -> (r: bool)
        ensures
            r == !self.continue_processing,
    {
        !self.continue_processing
    }

    /// Whether this result carries a new payload.
    pub fn is_payload_modified(&self) -> (r: bool)
        ensures
            r == self.modified_payload is Some,
    {
        self.modified_payload.is_some()
    }

    /// Whether this result carries new extensions.
    pub fn is_extensions_modified(&self) -> (r: bool)
        ensures
            r == self.modified_extensions is Some,
    {
        self.modified_extensions.is_some()
    }
}

impl<P> Default for PluginResult<P> {
    /// Allow.
    fn default() -> (r: Self)
        ensures
            r.continue_processing,
            r.modified_payload is None,
            r.modified_extensions is None,
            r.violation is None,
            r.metadata is None,
    {
        PluginResult::allow()
    }
}

} // verus!
