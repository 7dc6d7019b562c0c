use cpex::context::{PluginContext, PluginContextTable, StateMap};
use cpex::error::{PluginError, PluginErrorRecord, PluginViolation};
use cpex::json::JsonValue;

#[test]
fn violation_builders_and_display() {
    let v = PluginViolation::new("rate_limited", "too many requests")
        .with_description("100 per minute")
        .with_details(vec![("limit".to_string(), JsonValue::Number("100".into()))])
        .with_proto_error_code(429);
    assert_eq!(v.code, "rate_limited");
    assert_eq!(v.reason, "too many requests");
    assert_eq!(v.description.as_deref(), Some("100 per minute"));
    assert_eq!(v.details.len(), 1);
    assert_eq!(v.proto_error_code, Some(429));
    assert!(v.plugin_name.is_none());
    assert_eq!(v.to_display_string(), "[rate_limited] too many requests");
}

#[test]
fn error_texts() {
    let t = PluginError::Timeout { plugin_name: "slow".into(), timeout_ms: 30000, proto_error_code: None };
    assert_eq!(t.to_display_string(), "plugin 'slow' timed out after 30000ms");
    let c = PluginError::Config { message: "bad".into() };
    assert_eq!(c.to_display_string(), "configuration error: bad");
    let u = PluginError::UnknownHook { hook_type: "nope".into() };
    assert_eq!(u.to_display_string(), "unknown hook type: nope");
    let d = PluginError::Violation { plugin_name: "p".into(), violation: PluginViolation::new("x", "no") };
    assert_eq!(d.to_display_string(), "plugin 'p' denied: no");
    let e = PluginError::Execution {
        plugin_name: "p".into(),
        message: "boom".into(),
        code: None,
        details: Vec::new(),
        proto_error_code: None,
    };
    assert_eq!(e.to_display_string(), "plugin 'p' failed: boom");
    let boxed = c.boxed();
    assert!(matches!(*boxed, PluginError::Config { .. }));
}

#[test]
fn error_records_flatten_each_variant() {
    let t = PluginErrorRecord::from(&PluginError::Timeout { plugin_name: "slow".into(), timeout_ms: 250, proto_error_code: Some(504) });
    assert_eq!(t.plugin_name, "slow");
    assert_eq!(t.message, "plugin timed out after 250ms");
    assert_eq!(t.code.as_deref(), Some("timeout"));
    assert_eq!(t.proto_error_code, Some(504));

    let v = PluginErrorRecord::from(&PluginError::Violation {
        plugin_name: "guard".into(),
        violation: PluginViolation::new("blocked", "not allowed"),
    });
    assert_eq!(v.message, "plugin denied: not allowed");
    assert_eq!(v.code.as_deref(), Some("blocked"));

    let c = PluginErrorRecord::from(&PluginError::Config { message: "oops".into() });
    assert_eq!(c.plugin_name, "");
    assert_eq!(c.message, "oops");
    assert_eq!(c.code.as_deref(), Some("config"));

    let u = PluginErrorRecord::from(&PluginError::UnknownHook { hook_type: "h".into() });
    assert_eq!(u.message, "unknown hook type: h");
    assert_eq!(u.code.as_deref(), Some("unknown_hook"));

    let e = PluginErrorRecord::from(&PluginError::Execution {
        plugin_name: "p".into(),
        message: "m".into(),
        code: Some("E1".into()),
        details: vec![("k".into(), JsonValue::Bool(true))],
        proto_error_code: None,
    });
    assert_eq!(e.message, "m");
    assert_eq!(e.code.as_deref(), Some("E1"));
    assert_eq!(e.details.len(), 1);
}

#[test]
fn state_map_insert_replaces() {
    let mut m = StateMap::new();
    m.insert("a", JsonValue::Bool(true));
    m.insert("b", JsonValue::Null);
    m.insert("a", JsonValue::Bool(false));
    assert_eq!(m.len(), 2);
    assert!(matches!(m.get("a"), Some(JsonValue::Bool(false))));
    assert!(m.get("zzz").is_none());
}

#[test]
fn context_local_and_global_state() {
    let mut ctx = PluginContext::new();
    ctx.set_local("k", JsonValue::Str("v".into()));
    ctx.set_global("g", JsonValue::Number("1".into()));
    assert!(matches!(ctx.get_local("k"), Some(JsonValue::Str(s)) if s == "v"));
    assert!(ctx.get_global("k").is_none());
    assert!(matches!(ctx.get_global("g"), Some(JsonValue::Number(n)) if n == "1"));
    let mut shared = StateMap::new();
    shared.insert("x", JsonValue::Null);
    let ctx2 = PluginContext::with_global_state(shared);
    assert!(ctx2.get_global("x").is_some());
    assert!(ctx2.get_local("x").is_none());
}

#[test]
fn context_table_store_then_take() {
    let mut table = PluginContextTable::new();
    assert!(table.is_empty());
    let mut ctx = PluginContext::new();
    ctx.set_local("count", JsonValue::Number("3".into()));
    ctx.set_global("shared", JsonValue::Bool(true));
    table.store_context(42, ctx);
    assert_eq!(table.len(), 1);

    let snap = table.snapshot_context(42);
    assert!(matches!(snap.get_local("count"), Some(JsonValue::Number(n)) if n == "3"));
    assert_eq!(table.len(), 1);

    let taken = table.take_context(42);
    assert!(matches!(taken.get_local("count"), Some(JsonValue::Number(n)) if n == "3"));
    assert!(matches!(taken.get_global("shared"), Some(JsonValue::Bool(true))));
    assert!(table.is_empty());

    let fresh = table.take_context(7);
    assert!(fresh.get_local("count").is_none());
    assert!(matches!(fresh.get_global("shared"), Some(JsonValue::Bool(true))));
}
