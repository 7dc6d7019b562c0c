use std::sync::Arc;

use cpex::context::PluginContextTable;
use cpex::error::{PluginError, PluginViolation};
use cpex::executor::{
    erase_result, extract_erased, Dispatch, ErasedResult, Executor, FinishedRun, InvokeOutcome,
    PipelineResult, PipelineRun, Step,
};
use cpex::extensions::container::Extensions;
use cpex::extensions::security::SecurityExtension;
use cpex::hooks::PluginResult;
use cpex::json::JsonValue;
use cpex::manager::{ManagerConfig, PluginManager};
use cpex::plugin::{OnError, PluginConfig, PluginMode};
use cpex::registry::HookEntry;

#[derive(Debug)]
struct TestPayload {
    value: String,
}

fn payload(v: &str) -> TestPayload {
    TestPayload { value: v.to_string() }
}

#[test]
fn test_erase_result_allow() {
    let result: PluginResult<TestPayload> = PluginResult::allow();
    let erased = erase_result(result);
    let fields = extract_erased(erased).unwrap();
    assert!(fields.continue_processing);
    assert!(fields.violation.is_none());
    assert!(fields.modified_payload.is_none());
}

#[test]
fn test_erase_result_deny() {
    let result: PluginResult<TestPayload> = PluginResult::deny(PluginViolation::new("test", "denied"));
    let erased = erase_result(result);
    let fields = extract_erased(erased).unwrap();
    assert!(!fields.continue_processing);
    assert_eq!(fields.violation.as_ref().unwrap().code, "test");
}

#[test]
fn test_erase_result_modify_payload() {
    let result: PluginResult<TestPayload> = PluginResult::modify_payload(payload("modified"));
    let erased = erase_result(result);
    let fields = extract_erased(erased).unwrap();
    assert!(fields.continue_processing);
    assert!(fields.modified_payload.is_some());
    assert_eq!(fields.modified_payload.unwrap().value, "modified");
}

#[test]
fn test_erase_result_modify_extensions() {
    let mut security = SecurityExtension::default();
    security.add_label("PII");
    let ext = Extensions { security: Some(Arc::new(security)), ..Default::default() };
    let owned = ext.cow_copy();
    let result: PluginResult<TestPayload> = PluginResult::modify_extensions(owned);
    let erased = erase_result(result);
    let fields = extract_erased(erased).unwrap();
    assert!(fields.continue_processing);
    assert!(fields.modified_extensions.is_some());
    let sec = fields.modified_extensions.as_ref().unwrap().security.as_ref().unwrap();
    assert!(sec.has_label("PII"));
}

#[test]
fn extract_unexpected_result_is_none() {
    let unexpected: ErasedResult<TestPayload> = ErasedResult::Unexpected;
    assert!(extract_erased(unexpected).is_none());
}

#[test]
fn test_pipeline_result_allowed() {
    let result = PipelineResult::allowed_with(payload("test"), Extensions::default(), PluginContextTable::new());
    assert!(result.continue_processing);
    assert!(result.modified_payload.is_some());
    assert!(result.violation.is_none());
    assert!(!result.is_denied());
}

#[test]
fn test_pipeline_result_denied() {
    let violation = PluginViolation::new("test", "denied");
    let result: PipelineResult<TestPayload> =
        PipelineResult::denied(violation, Extensions::default(), PluginContextTable::new());
    assert!(!result.continue_processing);
    assert!(result.modified_payload.is_none());
    assert!(result.violation.is_some());
    assert!(result.is_denied());
}

/// Run a pipeline to its end, answering each dispatch with `handler`.
fn drive<P>(
    mut run: PipelineRun<P>,
    mut handler: impl FnMut(&mut Dispatch) -> InvokeOutcome<P>,
) -> (FinishedRun<P>, Vec<String>) {
    let mut calls: Vec<String> = Vec::new();
    loop {
        match run.next_step() {
            Step::Serial(mut d) => {
                calls.push(d.plugin_name.clone());
                let out = handler(&mut d);
                run.serial_result(out, d.context);
            }
            Step::Audit(mut d) => {
                calls.push(d.plugin_name.clone());
                let out = handler(&mut d);
                run.audit_result(out);
            }
            Step::Concurrent(ds) => {
                for mut d in ds {
                    calls.push(d.plugin_name.clone());
                    let out = handler(&mut d);
                    if run.concurrent_result(d.index, out) {
                        break;
                    }
                }
            }
            Step::Background(ds) => {
                for d in ds {
                    calls.push(format!("bg:{}", d.plugin_name));
                }
            }
            Step::Finished => return (run.finish(), calls),
        }
    }
}

fn allow<P>() -> InvokeOutcome<P> {
    InvokeOutcome::Returned(erase_result(PluginResult::allow()))
}

fn deny<P>(code: &str) -> InvokeOutcome<P> {
    InvokeOutcome::Returned(erase_result(PluginResult::deny(PluginViolation::new(code, "denied"))))
}

fn entry(name: &str, id: u128, mode: PluginMode, on_error: OnError, priority: i32) -> HookEntry {
    HookEntry { plugin_name: name.to_string(), plugin_id: id, mode, on_error, priority, capabilities: Vec::new() }
}

fn config(name: &str, mode: PluginMode, priority: i32, on_error: OnError) -> PluginConfig {
    let mut c = PluginConfig::new(name, "builtin");
    c.hooks = vec!["test_hook".to_string()];
    c.mode = mode;
    c.priority = priority;
    c.on_error = on_error;
    c
}

#[test]
fn test_executor_empty_entries() {
    let executor = Executor::default();
    let run = executor.start(&Vec::new(), payload("test"), Extensions::default(), None);
    let (finished, calls) = drive(run, |_| allow());
    assert!(calls.is_empty());
    assert!(finished.result.continue_processing);
    assert!(finished.result.modified_payload.is_some());
    assert!(finished.result.modified_extensions.is_none());
}

#[test]
fn sequential_deny_halts_and_names_the_plugin() {
    let entries = vec![
        entry("first", 1, PluginMode::Sequential, OnError::Fail, 10),
        entry("second", 2, PluginMode::Sequential, OnError::Fail, 20),
    ];
    let run = Executor::default().start(&entries, payload("p"), Extensions::default(), None);
    let (finished, calls) = drive(run, |d| if d.plugin_name == "first" { deny("denied") } else { allow() });
    assert_eq!(calls, vec!["first"]);
    assert!(!finished.result.continue_processing);
    assert!(finished.result.modified_payload.is_none());
    let v = finished.result.violation.unwrap();
    assert_eq!(v.code, "denied");
    assert_eq!(v.plugin_name.as_deref(), Some("first"));
}

#[test]
fn lower_priority_value_runs_first() {
    let mut mgr = PluginManager::default();
    mgr.register_for_names(config("late", PluginMode::Sequential, 50, OnError::Fail), &vec!["h".to_string()]).unwrap();
    mgr.register_for_names(config("early", PluginMode::Sequential, 5, OnError::Fail), &vec!["h".to_string()]).unwrap();
    let run = mgr.start_invocation("h", payload("p"), Extensions::default(), None);
    let (_, calls) = drive(run, |_| allow());
    assert_eq!(calls, vec!["early", "late"]);
}

#[test]
fn phases_run_in_order() {
    let entries = vec![
        entry("ff", 1, PluginMode::FireAndForget, OnError::Fail, 1),
        entry("conc", 2, PluginMode::Concurrent, OnError::Fail, 1),
        entry("aud", 3, PluginMode::Audit, OnError::Fail, 1),
        entry("tr", 4, PluginMode::Transform, OnError::Fail, 1),
        entry("seq", 5, PluginMode::Sequential, OnError::Fail, 1),
        entry("off", 6, PluginMode::Disabled, OnError::Fail, 1),
    ];
    let run = Executor::default().start(&entries, payload("p"), Extensions::default(), None);
    let (finished, calls) = drive(run, |_| allow());
    assert_eq!(calls, vec!["seq", "tr", "aud", "conc", "bg:ff"]);
    assert!(finished.result.continue_processing);
    assert_eq!(finished.background, vec!["ff".to_string()]);
}

#[test]
fn transform_modifies_payload_and_cannot_block() {
    let entries = vec![entry("tr", 1, PluginMode::Transform, OnError::Fail, 1)];
    let run = Executor::default().start(&entries, payload("original"), Extensions::default(), None);
    let (finished, _) = drive(run, |_| InvokeOutcome::Returned(erase_result(PluginResult::modify_payload(payload("original_transformed")))));
    assert!(finished.result.continue_processing);
    assert_eq!(finished.result.modified_payload.unwrap().value, "original_transformed");

    let run = Executor::default().start(&entries, payload("x"), Extensions::default(), None);
    let (finished, _) = drive(run, |_| deny("nope"));
    assert!(finished.result.continue_processing);
}

#[test]
fn audit_plugin_cannot_block_or_modify() {
    let entries = vec![entry("aud", 1, PluginMode::Audit, OnError::Fail, 1)];
    let run = Executor::default().start(&entries, payload("same"), Extensions::default(), None);
    let (finished, _) = drive(run, |_| InvokeOutcome::Returned(erase_result(PluginResult::deny(PluginViolation::new("denied", "no")))));
    assert!(finished.result.continue_processing);
    assert_eq!(finished.result.modified_payload.unwrap().value, "same");

    let run = Executor::default().start(&entries, payload("same"), Extensions::default(), None);
    let (finished, _) = drive(run, |_| InvokeOutcome::Returned(erase_result(PluginResult::modify_payload(payload("changed")))));
    assert_eq!(finished.result.modified_payload.unwrap().value, "same");
}

#[test]
fn concurrent_deny_halts_after_all_report() {
    let entries = vec![
        entry("a", 1, PluginMode::Concurrent, OnError::Fail, 1),
        entry("b", 2, PluginMode::Concurrent, OnError::Fail, 2),
        entry("later", 3, PluginMode::FireAndForget, OnError::Fail, 3),
    ];
    let run = Executor::default().start(&entries, payload("p"), Extensions::default(), None);
    let (finished, calls) = drive(run, |d| if d.plugin_name == "a" { deny("conc_denied") } else { allow() });
    assert!(!finished.result.continue_processing);
    assert_eq!(finished.result.violation.as_ref().unwrap().code, "conc_denied");
    assert!(!calls.iter().any(|c| c == "bg:later"));
}

#[test]
fn on_error_fail_halts_with_plugin_error() {
    let entries = vec![entry("err", 1, PluginMode::Sequential, OnError::Fail, 1)];
    let run = Executor::default().start(&entries, payload("p"), Extensions::default(), None);
    let (finished, _) = drive(run, |_| InvokeOutcome::Failed(PluginError::Execution {
        plugin_name: "err".to_string(),
        message: "boom".to_string(),
        code: None,
        details: Vec::new(),
        proto_error_code: None,
    }));
    assert!(!finished.result.continue_processing);
    let v = finished.result.violation.unwrap();
    assert_eq!(v.code, "plugin_error");
    assert!(v.reason.starts_with("Plugin 'err' failed: "));
    assert_eq!(v.plugin_name.as_deref(), Some("err"));
}

#[test]
fn on_error_ignore_records_and_continues() {
    let entries = vec![
        entry("err", 1, PluginMode::Sequential, OnError::Ignore, 1),
        entry("ok", 2, PluginMode::Sequential, OnError::Fail, 2),
    ];
    let run = Executor::default().start(&entries, payload("p"), Extensions::default(), None);
    let (finished, calls) = drive(run, |d| if d.plugin_name == "err" { InvokeOutcome::TimedOut } else { allow() });
    assert_eq!(calls, vec!["err", "ok"]);
    assert!(finished.result.continue_processing);
    assert_eq!(finished.result.errors.len(), 1);
    assert_eq!(finished.result.errors[0].plugin_name, "err");
    assert!(finished.disabled.is_empty());
}

#[test]
fn on_error_disable_marks_plugin_for_disabling() {
    let entries = vec![entry("flaky", 1, PluginMode::Sequential, OnError::Disable, 1)];
    let run = Executor::default().start(&entries, payload("p"), Extensions::default(), None);
    let (finished, _) = drive(run, |_| InvokeOutcome::TimedOut);
    assert!(finished.result.continue_processing);
    assert_eq!(finished.disabled, vec!["flaky".to_string()]);
}

#[test]
fn timeout_with_on_error_fail_denies() {
    let entries = vec![entry("slow", 1, PluginMode::Sequential, OnError::Fail, 1)];
    let run = Executor::default().start(&entries, payload("p"), Extensions::default(), None);
    let (finished, _) = drive(run, |_| InvokeOutcome::TimedOut);
    let v = finished.result.violation.unwrap();
    assert_eq!(v.code, "plugin_timeout");
    assert_eq!(v.reason, "Plugin 'slow' timed out");
}

#[test]
fn global_state_flows_between_serial_plugins() {
    let entries = vec![
        entry("writer", 1, PluginMode::Sequential, OnError::Fail, 10),
        entry("reader", 2, PluginMode::Sequential, OnError::Fail, 20),
    ];
    let run = Executor::default().start(&entries, payload("p"), Extensions::default(), None);
    let mut seen = false;
    let (finished, _) = drive(run, |d| {
        if d.plugin_name == "writer" {
            d.context.set_global("written_by", JsonValue::Str("writer".into()));
        } else {
            seen = matches!(d.context.get_global("written_by"), Some(JsonValue::Str(s)) if s == "writer");
        }
        allow()
    });
    assert!(finished.result.continue_processing);
    assert!(seen);
}

#[test]
fn local_state_persists_across_invocations() {
    let entries = vec![entry("counter", 7, PluginMode::Sequential, OnError::Fail, 1)];
    let run = Executor::default().start(&entries, payload("p"), Extensions::default(), None);
    let (finished, _) = drive(run, |d| {
        d.context.set_local("count", JsonValue::Number("1".into()));
        allow()
    });
    let table = finished.result.context_table;
    let run = Executor::default().start(&entries, payload("p"), Extensions::default(), Some(table));
    let mut found = false;
    drive(run, |d| {
        found = matches!(d.context.get_local("count"), Some(JsonValue::Number(n)) if n == "1");
        allow()
    });
    assert!(found);
}

#[test]
fn manager_lifecycle_and_registry_queries() {
    let mut mgr = PluginManager::new(ManagerConfig::default());
    assert!(!mgr.is_initialized());
    assert_eq!(mgr.plugin_count(), 0);
    assert!(!mgr.has_hooks_for("test_hook"));

    mgr.register_for_names(config("allow", PluginMode::Sequential, 10, OnError::Fail), &vec!["test_hook".to_string()]).unwrap();
    assert_eq!(mgr.plugin_count(), 1);
    assert!(mgr.has_hooks_for("test_hook"));
    assert!(!mgr.has_hooks_for("other_hook"));
    assert_eq!(mgr.plugin_names(), vec!["allow"]);
    assert_eq!(mgr.get_plugin("allow").unwrap().name(), "allow");

    let plan = mgr.initialization_plan().unwrap();
    assert_eq!(plan, vec!["allow".to_string()]);
    mgr.mark_initialized();
    assert!(mgr.is_initialized());
    assert!(mgr.initialization_plan().is_none());
    assert_eq!(mgr.shutdown_plan().unwrap(), vec!["allow".to_string()]);
    mgr.mark_shutdown();
    assert!(!mgr.is_initialized());
    assert!(mgr.shutdown_plan().is_none());

    let removed = mgr.unregister("allow");
    assert!(removed.is_some());
    assert_eq!(mgr.plugin_count(), 0);
    assert!(!mgr.has_hooks_for("test_hook"));
}

#[test]
fn duplicate_registration_is_a_config_error() {
    let mut mgr = PluginManager::default();
    mgr.register_for_names(config("dup", PluginMode::Sequential, 1, OnError::Fail), &vec!["h".to_string()]).unwrap();
    let err = mgr.register_for_names(config("dup", PluginMode::Audit, 2, OnError::Fail), &vec!["h".to_string()]).unwrap_err();
    assert!(matches!(&err, PluginError::Config { message } if message == "plugin 'dup' is already registered"));
    assert_eq!(mgr.plugin_count(), 1);
}

#[test]
fn registered_plugins_get_distinct_ids() {
    let mut mgr = PluginManager::default();
    mgr.register_for_names(config("a", PluginMode::Sequential, 1, OnError::Fail), &vec!["h".to_string()]).unwrap();
    mgr.register_for_names(config("b", PluginMode::Sequential, 1, OnError::Fail), &vec!["h".to_string()]).unwrap();
    let a = mgr.get_plugin("a").unwrap().id();
    let b = mgr.get_plugin("b").unwrap().id();
    assert_ne!(a, b);
}

#[test]
fn invocation_through_the_manager_and_disabling() {
    let mut mgr = PluginManager::default();
    mgr.register_for_names(config("flaky", PluginMode::Sequential, 5, OnError::Disable), &vec!["test_hook".to_string()]).unwrap();
    mgr.register_for_names(config("allow", PluginMode::Sequential, 10, OnError::Fail), &vec!["test_hook".to_string()]).unwrap();

    let run = mgr.start_invocation("test_hook", payload("p"), Extensions::default(), None);
    let (finished, calls) = drive(run, |d| if d.plugin_name == "flaky" { InvokeOutcome::TimedOut } else { allow() });
    assert_eq!(calls, vec!["flaky", "allow"]);
    assert!(finished.result.continue_processing);
    mgr.apply_disables(&finished.disabled);
    let flaky = mgr.get_plugin("flaky").unwrap();
    assert!(flaky.is_disabled());
    assert_eq!(flaky.mode(), PluginMode::Disabled);

    let run = mgr.start_invocation("test_hook", payload("p"), Extensions::default(), None);
    let (finished, calls) = drive(run, |_| allow());
    assert_eq!(calls, vec!["allow"]);
    assert!(finished.result.continue_processing);
}

#[test]
fn invoking_a_hook_without_plugins_allows() {
    let mgr = PluginManager::default();
    let run = mgr.start_invocation("nothing_here", payload("p"), Extensions::default(), None);
    let (finished, calls) = drive(run, |_| allow());
    assert!(calls.is_empty());
    assert!(finished.result.continue_processing);
    assert_eq!(finished.result.modified_payload.unwrap().value, "p");
}

#[test]
fn initialization_failure_message_and_rollback_plan() {
    let e = PluginManager::initialization_error("bad", "no database");
    assert!(matches!(&e, PluginError::Execution { plugin_name, message, .. }
        if plugin_name == "bad" && message == "initialization failed: no database"));
    let plan = vec!["a".to_string(), "b".to_string(), "c".to_string(), "d".to_string()];
    let order = PluginManager::rollback_plan(&plan, 3);
    assert_eq!(order, vec!["c".to_string(), "b".to_string(), "a".to_string()]);
    assert!(PluginManager::rollback_plan(&plan, 0).is_empty());
}

#[test]
fn concurrent_plugins_cannot_modify() {
    let entries = vec![entry("c", 1, PluginMode::Concurrent, OnError::Fail, 1)];
    let run = Executor::default().start(&entries, payload("kept"), Extensions::default(), None);
    let (finished, calls) = drive(run, |_| InvokeOutcome::Returned(erase_result(PluginResult::modify_payload(payload("changed")))));
    assert_eq!(calls, vec!["c"]);
    assert!(finished.result.continue_processing);
    assert_eq!(finished.result.modified_payload.unwrap().value, "kept");
}

#[test]
fn newly_registered_plugin_is_enabled_with_its_config() {
    let mut mgr = PluginManager::default();
    mgr.register_for_names(config("p", PluginMode::Audit, 7, OnError::Ignore), &vec!["h".to_string()]).unwrap();
    let p = mgr.get_plugin("p").unwrap();
    assert!(!p.is_disabled());
    assert_eq!(p.mode(), PluginMode::Audit);
    assert_eq!(p.trusted_config().priority, 7);
    assert_eq!(p.trusted_config().on_error, OnError::Ignore);
}

#[test]
fn accepted_workspace_is_merged() {
    let mut e = entry("labeler", 1, PluginMode::Sequential, OnError::Fail, 1);
    e.capabilities = vec!["read_labels".to_string(), "append_labels".to_string()];
    let mut security = SecurityExtension::default();
    security.add_label("PII");
    let ext = Extensions { security: Some(Arc::new(security)), ..Default::default() };
    let run = Executor::default().start(&vec![e], payload("p"), ext, None);
    let (finished, _) = drive(run, |d| {
        let mut cow = d.extensions.cow_copy();
        cow.security.as_mut().unwrap().add_label("CHECKED");
        InvokeOutcome::Returned(erase_result(PluginResult::modify_extensions(cow)))
    });
    let sec = finished.result.modified_extensions.unwrap().security.unwrap();
    assert!(sec.has_label("PII"));
    assert!(sec.has_label("CHECKED"));
}

#[test]
fn unmodified_extensions_are_not_reported() {
    let mut security = SecurityExtension::default();
    security.add_label("PII");
    let ext = Extensions { security: Some(Arc::new(security)), ..Default::default() };
    let entries = vec![entry("reader", 1, PluginMode::Sequential, OnError::Fail, 1)];
    let run = Executor::default().start(&entries, payload("p"), ext, None);
    let (finished, _) = drive(run, |_| allow());
    assert!(finished.result.modified_extensions.is_none());
}

#[test]
fn rejected_workspace_leaves_extensions_unmodified() {
    let mut e = entry("dropper", 1, PluginMode::Sequential, OnError::Fail, 1);
    e.capabilities = vec!["read_labels".to_string(), "append_labels".to_string()];
    let mut security = SecurityExtension::default();
    security.add_label("PII");
    let ext = Extensions { security: Some(Arc::new(security)), ..Default::default() };
    let run = Executor::default().start(&vec![e], payload("p"), ext, None);
    let (finished, _) = drive(run, |d| {
        let mut cow = d.extensions.cow_copy();
        cow.security = Some(SecurityExtension::default());
        InvokeOutcome::Returned(erase_result(PluginResult::modify_extensions(cow)))
    });
    assert!(finished.result.modified_extensions.is_none());
}

#[test]
fn shutdown_runs_in_reverse_registration_order() {
    let mut mgr = PluginManager::default();
    mgr.register_for_names(config("first", PluginMode::Sequential, 1, OnError::Fail), &vec!["h".to_string()]).unwrap();
    mgr.register_for_names(config("second", PluginMode::Sequential, 2, OnError::Fail), &vec!["h".to_string()]).unwrap();
    assert_eq!(mgr.initialization_plan().unwrap(), vec!["first".to_string(), "second".to_string()]);
    mgr.mark_initialized();
    assert_eq!(mgr.shutdown_plan().unwrap(), vec!["second".to_string(), "first".to_string()]);
}

#[test]
fn registration_touches_only_its_hooks() {
    let mut mgr = PluginManager::default();
    mgr.register_for_names(config("p1", PluginMode::Sequential, 10, OnError::Fail), &vec!["test_hook".to_string()]).unwrap();
    assert!(mgr.has_hooks_for("test_hook"));
    assert!(!mgr.has_hooks_for("other_hook"));
    assert!(mgr.unregister("p1").is_some());
    assert_eq!(mgr.plugin_count(), 0);
    assert!(!mgr.has_hooks_for("test_hook"));
}

#[test]
fn denied_run_spawns_nothing_in_the_background() {
    let entries = vec![
        entry("gate", 1, PluginMode::Sequential, OnError::Fail, 1),
        entry("tr", 2, PluginMode::Transform, OnError::Fail, 2),
        entry("bg", 3, PluginMode::FireAndForget, OnError::Fail, 3),
    ];
    let run = Executor::default().start(&entries, payload("p"), Extensions::default(), None);
    let (finished, calls) = drive(run, |d| if d.plugin_name == "gate" { deny("blocked") } else { allow() });
    assert_eq!(calls, vec!["gate"]);
    assert!(finished.background.is_empty());
    assert!(finished.result.modified_payload.is_none());
    assert_eq!(finished.result.violation.unwrap().plugin_name.as_deref(), Some("gate"));
}
