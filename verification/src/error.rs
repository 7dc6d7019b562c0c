//! Errors, policy violations, and the flat error record surfaced to
//! callers for failures that did not halt a pipeline.

use vstd::prelude::*;
use vstd::string::*;

use crate::json::{JsonValue, JsonView};
use crate::text::push_decimal;
use crate::text::decimal;
use crate::text::{opt_str_view, clone_opt_string};

verus! {

/// Structured diagnostic data: keys in order, each with a JSON value.
pub type Details = Vec<(String, JsonValue)>;

/// The content of a details map.
pub open spec fn details_view(d: Seq<(String, JsonValue)>) -> Seq<(Seq<char>, JsonView)>
    decreases d.len(),
{
    if d.len() == 0 {
        Seq::empty()
    } else {
        details_view(d.drop_last()).push((d.last().0@, d.last().1@))
    }
}

/// Copy a details map.
pub fn clone_details(d: &Details) -> (r: Details)
    ensures
        details_view(r@) == details_view(d@),
{
    let mut out: Details = Vec::new();
    let mut i: usize = 0;
    while i < d.len()
        invariant
            i <= d.len(),
            details_view(out@) == details_view(d@.subrange(0, i as int)),
        decreases d.len() - i,
    {
        let k = d[i].0.clone();
        let v = d[i].1.clone();
        let ghost before = out@;
        out.push((k, v));
        assert(out@.drop_last() == before);
        assert(d@.subrange(0, i + 1).drop_last() == d@.subrange(0, i as int));
        i += 1;
    }
    assert(d@.subrange(0, d.len() as int) == d@);
    out
}

/// Structured policy violation returned by a plugin that denies execution.
#[derive(Debug)]
pub struct PluginViolation {
    /// Machine-readable violation identifier (e.g. `"missing_permission"`).
    pub code: String,
    /// Short human-readable reason for the denial.
    pub reason: String,
    /// Optional detailed explanation.
    pub description: Option<String>,
    /// Structured diagnostic data.
    pub details: Details,
    /// Name of the plugin that produced the violation; set by the framework.
    pub plugin_name: Option<String>,
    /// Protocol-level error code for the host to map to its wire format.
    pub proto_error_code: Option<i64>,
}

impl PluginViolation {
    /// A violation with a code and reason and nothing else.
    pub fn new(code: &str, reason: &str) -> (v: PluginViolation)
        ensures
            v.code@ == code@,
            v.reason@ == reason@,
            v.description is None,
            v.details@.len() == 0,
            v.plugin_name is None,
            v.proto_error_code is None,
    {
        PluginViolation {
            code: String::from_str(code),
            reason: String::from_str(reason),
            description: None,
            details: Vec::new(),
            plugin_name: None,
            proto_error_code: None,
        }
    }

    /// Attach a detailed description.
    pub fn with_description(self, description: &str) -> (v: PluginViolation)
        ensures
            v.description matches Some(d) && d@ == description@,
            v.code == self.code,
            v.reason == self.reason,
            v.details == self.details,
            v.plugin_name == self.plugin_name,
            v.proto_error_code == self.proto_error_code,
    {
        PluginViolation { description: Some(String::from_str(description)), ..self }
    }

    /// Attach structured diagnostic details.
    pub fn with_details(self, details: Details) -> (v: PluginViolation)
        ensures
            v.details == details,
            v.code == self.code,
            v.reason == self.reason,
            v.description == self.description,
            v.plugin_name == self.plugin_name,
            v.proto_error_code == self.proto_error_code,
    {
        PluginViolation { details, ..self }
    }

    /// Attach a protocol-level error code.
    pub fn with_proto_error_code(self, code: i64) -> (v: PluginViolation)
        ensures
            v.proto_error_code == Some(code),
            v.code == self.code,
            v.reason == self.reason,
            v.description == self.description,
            v.details == self.details,
            v.plugin_name == self.plugin_name,
    {
        PluginViolation { proto_error_code: Some(code), ..self }
    }

    /// Copy this violation.
    pub fn duplicate(&self) -> (v: PluginViolation)
        ensures
            v.code@ == self.code@,
            v.reason@ == self.reason@,
            opt_str_view(v.description) == opt_str_view(self.description),
            details_view(v.details@) == details_view(self.details@),
            opt_str_view(v.plugin_name) == opt_str_view(self.plugin_name),
            v.proto_error_code == self.proto_error_code,
    {
        PluginViolation {
            code: self.code.clone(),
            reason: self.reason.clone(),
            description: clone_opt_string(&self.description),
            details: clone_details(&self.details),
            plugin_name: clone_opt_string(&self.plugin_name),
            proto_error_code: self.proto_error_code,
        }
    }

    /// The text form `[code] reason`.
    pub fn to_display_string(&self) -> (s: String)
        ensures
            s@ == "["@ + self.code@ + "] "@ + self.reason@,
    {
        let mut s = String::from_str("[");
        s.append(self.code.as_str());
        s.append("] ");
        s.append(self.reason.as_str());
        s
    }
}

/// Top-level error type for the framework.
#[derive(Debug)]
pub enum PluginError {
    /// A plugin raised an execution error.
    Execution {
        plugin_name: String,
        message: String,
        /// Business-logic error code set by the plugin.
        code: Option<String>,
        /// Structured diagnostic data.
        details: Details,
        /// Protocol-level error code for the host.
        proto_error_code: Option<i64>,
    },
    /// A plugin exceeded its execution timeout.
    Timeout { plugin_name: String, timeout_ms: u64, proto_error_code: Option<i64> },
    /// A plugin returned a policy violation (deny).
    Violation { plugin_name: String, violation: PluginViolation },
    /// Configuration parsing or validation failed.
    Config { message: String },
    /// A hook type was not found in the registry.
    UnknownHook { hook_type: String },
}

/// The human-readable text of an error.
pub open spec fn error_text(e: PluginError) -> Seq<char> {
    match e {
        PluginError::Execution { plugin_name, message, .. } =>
            "plugin '"@ + plugin_name@ + "' failed: "@ + message@,
        PluginError::Timeout { plugin_name, timeout_ms, .. } =>
            "plugin '"@ + plugin_name@ + "' timed out after "@ + decimal(timeout_ms as nat) + "ms"@,
        PluginError::Violation { plugin_name, violation } =>
            "plugin '"@ + plugin_name@ + "' denied: "@ + violation.reason@,
        PluginError::Config { message } => "configuration error: "@ + message@,
        PluginError::UnknownHook { hook_type } => "unknown hook type: "@ + hook_type@,
    }
}

impl PluginError {
    /// Box this error.
    pub fn boxed(self) -> (b: Box<PluginError>)
        ensures
            *b == self,
    {
        Box::new(self)
    }

    /// The human-readable text of this error.
    pub fn to_display_string(&self) -> (s: String)
        ensures
            s@ == error_text(*self),
    {
        match self {
            PluginError::Execution { plugin_name, message, .. } => {
                let mut s = String::from_str("plugin '");
                s.append(plugin_name.as_str());
                s.append("' failed: ");
                s.append(message.as_str());
                s
            },
            PluginError::Timeout { plugin_name, timeout_ms, .. } => {
                let mut s = String::from_str("plugin '");
                s.append(plugin_name.as_str());
                s.append("' timed out after ");
                push_decimal_u64(&mut s, *timeout_ms);
                s.append("ms");
                s
            },
            PluginError::Violation { plugin_name, violation } => {
                let mut s = String::from_str("plugin '");
                s.append(plugin_name.as_str());
                s.append("' denied: ");
                s.append(violation.reason.as_str());
                s
            },
            PluginError::Config { message } => {
                let mut s = String::from_str("configuration error: ");
                s.append(message.as_str());
                s
            },
            PluginError::UnknownHook { hook_type } => {
                let mut s = String::from_str("unknown hook type: ");
                s.append(hook_type.as_str());
                s
            },
        }
    }
}

/// Append the decimal rendering of a `u64`.
pub fn push_decimal_u64(s: &mut String, n: u64)
    ensures
        final(s)@ == old(s)@ + decimal(n as nat),
    decreases n,
{
    if n < 10 {
        push_decimal(s, n as usize);
    } else {
        push_decimal_u64(s, n / 10);
        push_decimal(s, (n % 10) as usize);
        assert(decimal((n % 10) as nat) == seq![crate::text::digit_char((n % 10) as nat)]);
        assert(old(s)@ + decimal(n as nat / 10) + decimal((n % 10) as nat)
            == old(s)@ + decimal(n as nat));
    }
}

/// A flat, copyable snapshot of an error, as surfaced in pipeline results.
#[derive(Debug)]
pub struct PluginErrorRecord {
    pub plugin_name: String,
    pub message: String,
    pub code: Option<String>,
    pub details: Details,
    pub proto_error_code: Option<i64>,
}

/// The content of an error record: plugin name, message, code, details
/// and protocol code.
pub struct RecordView {
    pub plugin_name: Seq<char>,
    pub message: Seq<char>,
    pub code: Option<Seq<char>>,
    pub details: Seq<(Seq<char>, JsonView)>,
    pub proto_error_code: Option<i64>,
}

impl View for PluginErrorRecord {
    type V = RecordView;

    open spec fn view(&self) -> RecordView {
        RecordView {
            plugin_name: self.plugin_name@,
            message: self.message@,
            code: opt_str_view(self.code),
            details: details_view(self.details@),
            proto_error_code: self.proto_error_code,
        }
    }
}

/// The record an error flattens to.
pub open spec fn record_of(e: PluginError) -> RecordView {
    match e {
        PluginError::Execution { plugin_name, message, code, details, proto_error_code } =>
            RecordView {
                plugin_name: plugin_name@,
                message: message@,
                code: opt_str_view(code),
                details: details_view(details@),
                proto_error_code,
            },
        PluginError::Timeout { plugin_name, timeout_ms, proto_error_code } => RecordView {
            plugin_name: plugin_name@,
            message: "plugin timed out after "@ + decimal(timeout_ms as nat) + "ms"@,
            code: Some("timeout"@),
            details: Seq::empty(),
            proto_error_code,
        },
        PluginError::Violation { plugin_name, violation } => RecordView {
            plugin_name: plugin_name@,
            message: "plugin denied: "@ + violation.reason@,
            code: Some(violation.code@),
            details: details_view(violation.details@),
            proto_error_code: violation.proto_error_code,
        },
        PluginError::Config { message } => RecordView {
            plugin_name: Seq::empty(),
            message: message@,
            code: Some("config"@),
            details: Seq::empty(),
            proto_error_code: None,
        },
        PluginError::UnknownHook { hook_type } => RecordView {
            plugin_name: Seq::empty(),
            message: "unknown hook type: "@ + hook_type@,
            code: Some("unknown_hook"@),
            details: Seq::empty(),
            proto_error_code: None,
        },
    }
}

impl PluginErrorRecord {
    /// Flatten an error into a record.
    pub fn from(e: &PluginError) -> (r: PluginErrorRecord)
        ensures
            r@ == record_of(*e),
    {
        match e {
            PluginError::Execution { plugin_name, message, code, details, proto_error_code } =>
                PluginErrorRecord {
                    plugin_name: plugin_name.clone(),
                    message: message.clone(),
                    code: clone_opt_string(code),
                    details: clone_details(details),
                    proto_error_code: *proto_error_code,
                },
            PluginError::Timeout { plugin_name, timeout_ms, proto_error_code } => {
                let mut m = String::from_str("plugin timed out after ");
                push_decimal_u64(&mut m, *timeout_ms);
                m.append("ms");
                PluginErrorRecord {
                    plugin_name: plugin_name.clone(),
                    message: m,
                    code: Some(String::from_str("timeout")),
                    details: Vec::new(),
                    proto_error_code: *proto_error_code,
                }
            },
            PluginError::Violation { plugin_name, violation } => {
                let mut m = String::from_str("plugin denied: ");
                m.append(violation.reason.as_str());
                PluginErrorRecord {
                    plugin_name: plugin_name.clone(),
                    message: m,
                    code: Some(violation.code.clone()),
                    details: clone_details(&violation.details),
                    proto_error_code: violation.proto_error_code,
                }
            },
            PluginError::Config { message } => PluginErrorRecord {
                plugin_name: String::new(),
                message: message.clone(),
                code: Some(String::from_str("config")),
                details: Vec::new(),
                proto_error_code: None,
            },
            PluginError::UnknownHook { hook_type } => {
                let mut m = String::from_str("unknown hook type: ");
                m.append(hook_type.as_str());
                PluginErrorRecord {
                    plugin_name: String::new(),
                    message: m,
                    code: Some(String::from_str("unknown_hook")),
                    details: Vec::new(),
                    proto_error_code: None,
                }
            },
        }
    }
}

} // verus!
