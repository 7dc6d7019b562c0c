use std::sync::Arc;

use cpex::boundary::{
    payload_dropped_record, requested_workers, worker_threads_setting, SafeRun, RC_OK, RC_PANIC,
    RC_TIMEOUT,
};
use cpex::cmf::content::{ContentPart, ToolCall, ToolResult};
use cpex::cmf::enums::Role;
use cpex::cmf::message::{Message, MessagePayload};
use cpex::context::PluginContext;
use cpex::extensions::container::Extensions;
use cpex::extensions::guarded::WriteToken;
use cpex::extensions::http::HttpExtension;
use cpex::extensions::security::{SecurityExtension, SubjectExtension};
use cpex::json::JsonValue;
use cpex::plugins::{audit_entry, identity_check, inject_headers, SimplePluginResult};

fn call_message(tool: &str) -> MessagePayload {
    MessagePayload {
        message: Message {
            schema_version: "2.0".into(),
            role: Role::Assistant,
            content: vec![ContentPart::ToolCall {
                content: ToolCall {
                    tool_call_id: "tc_1".into(),
                    name: tool.into(),
                    arguments: Vec::new(),
                    namespace: None,
                },
            }],
            channel: None,
        },
    }
}

fn result_message(tool: &str, is_error: bool) -> MessagePayload {
    MessagePayload {
        message: Message {
            schema_version: "2.0".into(),
            role: Role::Tool,
            content: vec![ContentPart::ToolResult {
                content: ToolResult {
                    tool_call_id: "tc_1".into(),
                    tool_name: tool.into(),
                    content: JsonValue::Null,
                    is_error,
                },
            }],
            channel: None,
        },
    }
}

fn secured(labels: &[&str], roles: Option<&[&str]>) -> Extensions {
    let mut security = SecurityExtension::default();
    for l in labels {
        security.add_label(l);
    }
    security.subject = roles.map(|rs| SubjectExtension {
        id: Some("alice".into()),
        roles: rs.iter().map(|r| r.to_string()).collect(),
        ..Default::default()
    });
    Extensions { security: Some(Arc::new(security)), ..Default::default() }
}

#[test]
fn identity_check_denies_pii_without_hr_admin() {
    let r = identity_check(&call_message("get_compensation"), &secured(&["pii"], Some(&["viewer"])));
    match r {
        SimplePluginResult::Deny { code, reason } => {
            assert_eq!(code, "insufficient_role");
            assert_eq!(reason, "Tool 'get_compensation' requires 'hr_admin' role for PII data");
        }
        SimplePluginResult::Allow => panic!("expected a deny"),
    }
}

#[test]
fn identity_check_allows_hr_admin_and_non_pii() {
    let ok = identity_check(&call_message("get_compensation"), &secured(&["PII"], Some(&["hr_admin"])));
    assert!(matches!(ok, SimplePluginResult::Allow));
    let no_pii = identity_check(&call_message("get_weather"), &secured(&["PUBLIC"], Some(&["viewer"])));
    assert!(matches!(no_pii, SimplePluginResult::Allow));
    let no_subject = identity_check(&call_message("get_compensation"), &secured(&["PII"], None));
    assert!(matches!(no_subject, SimplePluginResult::Allow));
    let no_security = identity_check(&call_message("get_compensation"), &Extensions::default());
    assert!(matches!(no_security, SimplePluginResult::Allow));
}

#[test]
fn identity_check_allows_results() {
    let r = identity_check(&result_message("get_compensation", false), &secured(&["PII"], Some(&["viewer"])));
    assert!(matches!(r, SimplePluginResult::Allow));
}

#[test]
fn identity_check_names_unknown_tool() {
    let empty = MessagePayload { message: Message::text(Role::User, "hi") };
    let r = identity_check(&empty, &secured(&["PII"], Some(&[])));
    match r {
        SimplePluginResult::Deny { reason, .. } => {
            assert_eq!(reason, "Tool 'unknown' requires 'hr_admin' role for PII data")
        }
        SimplePluginResult::Allow => panic!("expected a deny"),
    }
}

#[test]
fn inject_headers_labels_and_tags_with_tokens() {
    let mut http = HttpExtension::default();
    http.set_header("X-Request-ID", "req-9");
    let mut ext = secured(&["PII"], None);
    ext.http = Some(Arc::new(http));
    ext.labels_write_token = Some(WriteToken::new());
    ext.http_write_token = Some(WriteToken::new());
    let r = inject_headers(&call_message("t"), &ext, &PluginContext::new());
    assert!(r.continue_processing);
    assert!(r.modified_payload.is_none());
    let o = r.modified_extensions.unwrap();
    let sec = o.security.as_ref().unwrap();
    assert!(sec.labels.contains("PROCESSED"));
    assert!(sec.has_label("PII"));
    let h = o.http.as_ref().unwrap().read();
    assert_eq!(h.get_header("X-Processed-By"), Some("header-injector"));
    assert_eq!(h.get_header("X-Request-ID"), Some("req-9"));
    assert!(ext.validate_immutable(&o));
}

#[test]
fn inject_headers_without_tokens_changes_nothing() {
    let mut ext = secured(&["PII"], None);
    ext.http = Some(Arc::new(HttpExtension::default()));
    let r = inject_headers(&call_message("t"), &ext, &PluginContext::new());
    let o = r.modified_extensions.unwrap();
    assert!(!o.security.as_ref().unwrap().labels.contains("PROCESSED"));
    assert_eq!(o.http.as_ref().unwrap().read().get_header("X-Processed-By"), None);
}

#[test]
fn audit_entry_for_call_and_result() {
    let mut http = HttpExtension::default();
    http.set_header("X-Request-ID", "req-1");
    let mut ext = secured(&["PII", "HR"], None);
    ext.http = Some(Arc::new(http));

    let pre = audit_entry(&call_message("get_compensation"), &ext);
    assert_eq!(pre.phase, "PRE");
    assert_eq!(pre.tool_name, "get_compensation");
    assert_eq!(pre.labels, Some(vec!["PII".to_string(), "HR".to_string()]));
    assert_eq!(pre.request_id.as_deref(), Some("req-1"));
    assert_eq!(pre.is_error, None);

    let post = audit_entry(&result_message("get_compensation", true), &Extensions::default());
    assert_eq!(post.phase, "POST");
    assert_eq!(post.tool_name, "get_compensation");
    assert_eq!(post.labels, None);
    assert_eq!(post.request_id, None);
    assert_eq!(post.is_error, Some(true));
}

#[test]
fn safe_run_status_codes() {
    assert_eq!(SafeRun::Done(1u8).rc(), RC_OK);
    assert_eq!(SafeRun::<u8>::Timeout.rc(), RC_TIMEOUT);
    assert_eq!(SafeRun::<u8>::Panicked.rc(), RC_PANIC);
    assert_eq!(RC_TIMEOUT, -6);
    assert_eq!(RC_PANIC, -7);
}

#[test]
fn worker_threads_setting_parses_positive_integers_only() {
    assert_eq!(worker_threads_setting("4"), Some(4));
    assert_eq!(worker_threads_setting("+8"), Some(8));
    assert_eq!(worker_threads_setting("0"), None);
    assert_eq!(worker_threads_setting("-1"), None);
    assert_eq!(worker_threads_setting("abc"), None);
    assert_eq!(worker_threads_setting(""), None);
    assert_eq!(worker_threads_setting(" 4"), None);
    assert_eq!(worker_threads_setting("99999999999999999999999"), None);
}

#[test]
fn requested_workers_rejects_non_positive() {
    assert_eq!(requested_workers(0), None);
    assert_eq!(requested_workers(-3), None);
    assert_eq!(requested_workers(2), Some(2));
}

#[test]
fn payload_dropped_record_content() {
    let r = payload_dropped_record("unknown payload type");
    assert_eq!(r.plugin_name, "<ffi>");
    assert_eq!(r.message, "modified payload could not be serialized across FFI: unknown payload type");
    assert_eq!(r.code.as_deref(), Some("ffi_serialize_error"));
    assert!(r.details.is_empty());
    assert_eq!(r.proto_error_code, None);
}
