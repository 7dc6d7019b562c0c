//! Reference plugins: an identity checker that guards PII-labelled
//! tools, a header injector that labels and tags what it sees, and an
//! audit logger that records each tool invocation.
//!
//! The decisions are here; printing what they saw is the host's part.

use vstd::prelude::*;
use vstd::string::*;

use crate::cmf::content::ContentPart;
use crate::cmf::message::{Message, MessagePayload, PartKind, indices_of};
use crate::context::PluginContext;
use crate::error::details_view;
use crate::extensions::container::{Extensions, OwnedExtensions, same_immutable};
use crate::extensions::delegation::same_delegation;
use crate::extensions::http::header_value;
use crate::extensions::monotonic::has_label_spec;
use crate::extensions::security::{SecurityExtension, same_subject, same_agent, same_objects, same_data};
use crate::hooks::PluginResult;
use crate::text::{pairs_view, strs_view, strings_contain, clone_strings};

verus! {

/// A plugin's verdict where only allow and deny exist.
///
/// It maps onto both an allow/deny variant at a component boundary and
/// the full [`PluginResult`]; shared plugin functions return it and
/// each caller converts.
#[derive(Debug, Clone)]
pub enum SimplePluginResult {
    Allow,
    Deny { code: String, reason: String },
}

/// Whether a message carries a tool result.
pub open spec fn carries_result(m: Message) -> bool {
    exists|i: int| 0 <= i < m.content@.len() && m.content@[i] is ToolResult
}

/// The name of the first tool called, or `unknown`.
pub open spec fn first_call_name(parts: Seq<ContentPart>) -> Seq<char> {
    let idx = indices_of(parts, PartKind::ToolCall);
    if idx.len() == 0 {
        "unknown"@
    } else {
        match parts[idx[0]] {
            ContentPart::ToolCall { content } => content.name@,
            _ => "unknown"@,
        }
    }
}

/// The tool name of the first result, or `unknown`.
pub open spec fn first_result_name(parts: Seq<ContentPart>) -> Seq<char> {
    let idx = indices_of(parts, PartKind::ToolResult);
    if idx.len() == 0 {
        "unknown"@
    } else {
        match parts[idx[0]] {
            ContentPart::ToolResult { content } => content.tool_name@,
            _ => "unknown"@,
        }
    }
}

/// Whether the first result reports an error (`false` if there is none).
pub open spec fn first_result_error(parts: Seq<ContentPart>) -> bool {
    let idx = indices_of(parts, PartKind::ToolResult);
    if idx.len() == 0 {
        false
    } else {
        match parts[idx[0]] {
            ContentPart::ToolResult { content } => content.is_error,
            _ => false,
        }
    }
}

/// The tool a message is about: the first result's tool for a result,
/// else the first tool called.
pub open spec fn tool_of(m: Message) -> Seq<char> {
    if carries_result(m) {
        first_result_name(m.content@)
    } else {
        first_call_name(m.content@)
    }
}

/// Whether the identity check refuses a message: a tool call (not a
/// result) whose security context has a subject and a `PII` label (in
/// any case), where the subject lacks the `hr_admin` role.
pub open spec fn identity_denies(m: Message, e: Extensions) -> bool {
    &&& !carries_result(m)
    &&& e.security matches Some(s)
    &&& s.subject matches Some(sub)
    &&& has_label_spec(s.labels@, "PII"@)
    &&& !strs_view(sub.roles@).contains("hr_admin"@)
}

/// The reason given when the identity check refuses a call of `tool`.
pub open spec fn identity_reason(tool: Seq<char>) -> Seq<char> {
    "Tool '"@ + tool + "' requires 'hr_admin' role for PII data"@
}

fn first_call_name_of(m: &Message) -> (r: &str)
    ensures
        r@ == first_call_name(m.content@),
{
    let calls = m.get_tool_calls();
    if calls.len() > 0 {
        calls[0].name.as_str()
    } else {
        "unknown"
    }
}

fn first_result_of(m: &Message) -> (r: (&str, bool))
    ensures
        r.0@ == first_result_name(m.content@),
        r.1 == first_result_error(m.content@),
{
    let results = m.get_tool_results();
    if results.len() > 0 {
        (results[0].tool_name.as_str(), results[0].is_error)
    } else {
        ("unknown", false)
    }
}

/// Refuse a tool call on PII-labelled data unless the subject holds the
/// `hr_admin` role; allow results and everything else.
pub fn identity_check(payload: &MessagePayload, extensions: &Extensions) -> (r: SimplePluginResult)
    ensures
        identity_denies(payload.message, *extensions) <==> r is Deny,
        r matches SimplePluginResult::Deny { code, reason } ==> code@ == "insufficient_role"@
            && reason@ == identity_reason(first_call_name(payload.message.content@)),
{
    if payload.message.is_tool_result() {
        return SimplePluginResult::Allow;
    }
    let tool = first_call_name_of(&payload.message);
    match &extensions.security {
        Some(security) => match &security.subject {
            Some(subject) => {
                if security.has_label("PII") && !strings_contain(&subject.roles, "hr_admin") {
                    let mut reason = String::from_str("Tool '");
                    reason.append(tool);
                    reason.append("' requires 'hr_admin' role for PII data");
                    return SimplePluginResult::Deny { code: String::from_str("insufficient_role"), reason };
                }
            },
            None => {},
        },
        None => {},
    }
    SimplePluginResult::Allow
}

/// `labels` with `label` added unless already present.
pub open spec fn labels_with(labels: Seq<Seq<char>>, label: Seq<char>) -> Seq<Seq<char>> {
    if labels.contains(label) {
        labels
    } else {
        labels.push(label)
    }
}

/// Whether two security extensions agree on everything but the labels.
pub open spec fn same_security_but_labels(a: SecurityExtension, b: SecurityExtension) -> bool {
    &&& a.classification == b.classification
    &&& (a.subject is Some <==> b.subject is Some)
    &&& (a.subject is Some ==> same_subject(a.subject.unwrap(), b.subject.unwrap()))
    &&& (a.agent is Some <==> b.agent is Some)
    &&& (a.agent is Some ==> same_agent(a.agent.unwrap(), b.agent.unwrap()))
    &&& a.auth_method == b.auth_method
    &&& same_objects(a.objects@, b.objects@)
    &&& same_data(a.data@, b.data@)
}

/// What the header injector hands back for extensions `e`: a copy in
/// which, where the plugin holds the label token, the security labels
/// gained `PROCESSED`, and where it holds the HTTP token, request
/// header `X-Processed-By` reads `header-injector`. Everything else is
/// as in `e`.
pub open spec fn injected(e: Extensions, o: OwnedExtensions) -> bool {
    &&& same_immutable(e, o)
    &&& (o.security is Some) == (e.security is Some)
    &&& (o.security matches Some(s) ==> {
        let orig = *e.security.unwrap();
        &&& same_security_but_labels(s, orig)
        &&& s.labels@ == if e.labels_write_token is Some {
            labels_with(orig.labels@, "PROCESSED"@)
        } else {
            orig.labels@
        }
    })
    &&& (o.http is Some) == (e.http is Some)
    &&& (o.http matches Some(g) ==> {
        let orig = *e.http.unwrap();
        &&& pairs_view(g.value().response_headers@) == pairs_view(orig.response_headers@)
        &&& if e.http_write_token is Some {
            &&& header_value(g.value().request_headers@, "X-Processed-By"@) == Some("header-injector"@)
            &&& forall|n: Seq<char>| n != "X-Processed-By"@ ==> #[trigger] header_value(g.value().request_headers@, n)
                == header_value(orig.request_headers@, n)
        } else {
            pairs_view(g.value().request_headers@) == pairs_view(orig.request_headers@)
        }
    })
    &&& (o.delegation is Some) == (e.delegation is Some)
    &&& (o.delegation matches Some(d) ==> same_delegation(d, *e.delegation.unwrap()))
    &&& (o.custom is Some) == (e.custom is Some)
    &&& (o.custom matches Some(c) ==> details_view(c@) == details_view(e.custom.unwrap()@))
    &&& (o.http_write_token is Some) == (e.http_write_token is Some)
    &&& (o.labels_write_token is Some) == (e.labels_write_token is Some)
    &&& (o.delegation_write_token is Some) == (e.delegation_write_token is Some)
}

/// Label what passes with `PROCESSED` and tag its request with
/// `X-Processed-By: header-injector`, each where the plugin was granted
/// the write; the payload is left alone.
pub fn inject_headers(_payload: &MessagePayload, extensions: &Extensions, _ctx: &PluginContext)
    -> (r: PluginResult<MessagePayload>)
    requires
        extensions.labels_write_token is Some ==> extensions.security is Some,
        extensions.http_write_token is Some ==> extensions.http is Some,
    ensures
        r.continue_processing,
        r.modified_payload is None,
        r.violation is None,
        r.metadata is None,
        r.modified_extensions matches Some(o) && injected(*extensions, o),
{
    let mut modified = extensions.cow_copy();
    if modified.labels_write_token.is_some() {
        match modified.security.take() {
            Some(mut security) => {
                security.add_label("PROCESSED");
                modified.security = Some(security);
            },
            None => {},
        }
    }
    match &modified.http_write_token {
        Some(token) => {
            match modified.http.take() {
                Some(mut http) => {
                    http.write(token).set_header("X-Processed-By", "header-injector");
                    modified.http = Some(http);
                },
                None => {},
            }
        },
        None => {},
    }
    PluginResult::modify_extensions(modified)
}

/// What the audit logger records of one invocation.
#[derive(Debug)]
pub struct AuditEntry {
    /// `PRE` for a tool call, `POST` for a tool result.
    pub phase: String,
    /// The tool concerned (`unknown` when the message names none).
    pub tool_name: String,
    /// The security labels, when the security context is visible.
    pub labels: Option<Vec<String>>,
    /// The `X-Request-ID` request header, when HTTP is visible and sets it.
    pub request_id: Option<String>,
    /// For a result: whether the first result reports an error.
    pub is_error: Option<bool>,
}

/// The audit record of a message seen with extensions `extensions`.
pub fn audit_entry(payload: &MessagePayload, extensions: &Extensions) -> (a: AuditEntry)
    ensures
        a.phase@ == if carries_result(payload.message) { "POST"@ } else { "PRE"@ },
        a.tool_name@ == tool_of(payload.message),
        (a.labels is Some) == (extensions.security is Some),
        a.labels matches Some(l) ==> strs_view(l@) == extensions.security.unwrap().labels@,
        match extensions.http {
            Some(h) => match header_value(h.request_headers@, "X-Request-ID"@) {
                Some(v) => a.request_id matches Some(x) && x@ == v,
                None => a.request_id is None,
            },
            None => a.request_id is None,
        },
        a.is_error == if carries_result(payload.message) {
            Some(first_result_error(payload.message.content@))
        } else {
            None::<bool>
        },
{
    let is_result = payload.message.is_tool_result();
    let (phase, tool_name, is_error) = if is_result {
        let (name, err) = first_result_of(&payload.message);
        (String::from_str("POST"), String::from_str(name), Some(err))
    } else {
        (String::from_str("PRE"), String::from_str(first_call_name_of(&payload.message)), None)
    };
    let labels = match &extensions.security {
        Some(security) => Some(clone_strings(security.labels.labels())),
        None => None,
    };
    let request_id = match &extensions.http {
        Some(http) => match http.get_header("X-Request-ID") {
            Some(v) => Some(String::from_str(v)),
            None => None,
        },
        None => None,
    };
    AuditEntry { phase, tool_name, labels, request_id, is_error }
}

} // verus!
