use cpex::cmf::message::CmfHook;
use cpex::extensions::monotonic::MonotonicSet;
use cpex::extensions::security::{
    AgentIdentity, DataPolicy, ObjectSecurityProfile, RetentionPolicy, SecurityExtension,
    SubjectExtension, SubjectType,
};
use cpex::hooks::{builtin_hook_types, hook_type_from_str, HookType, HookTypeDef};

#[test]
fn test_hook_type_equality() {
    let a = HookType::new("tool_pre_invoke");
    let b = HookType::new("tool_pre_invoke");
    assert_eq!(a, b);
}

#[test]
fn test_hook_type_display() {
    let h = HookType::new("cmf.llm_input");
    assert_eq!(h.to_display_string(), "cmf.llm_input");
}

#[test]
fn test_hook_type_from_str() {
    let h: HookType = "custom_hook".into();
    assert_eq!(h.as_str(), "custom_hook");
}

#[test]
fn test_builtin_hook_types_count() {
    let builtins = builtin_hook_types();
    // 8 legacy + 8 CMF
    assert_eq!(builtins.len(), 16);
}

#[test]
fn hook_types_with_different_names_differ() {
    assert_ne!(HookType::new("tool_pre_invoke"), HookType::new("tool_post_invoke"));
    assert_eq!(hook_type_from_str("cmf.llm_output").as_str(), "cmf.llm_output");
}

#[test]
fn builtin_hook_types_are_distinct_and_include_cmf_names() {
    let builtins = builtin_hook_types();
    for i in 0..builtins.len() {
        for j in (i + 1)..builtins.len() {
            assert_ne!(builtins[i], builtins[j]);
        }
    }
    assert!(builtins.iter().any(|h| h.as_str() == "tool_pre_invoke"));
    assert!(builtins.iter().any(|h| h.as_str() == "cmf.tool_pre_invoke"));
}

#[test]
fn test_cmf_hook_type_def() {
    assert_eq!(CmfHook::NAME, "cmf");
    assert_eq!(<CmfHook as HookTypeDef>::NAME, "cmf");
}

#[test]
fn test_security_labels_monotonic() {
    let mut sec = SecurityExtension::default();
    sec.add_label("PII");
    sec.add_label("HIPAA");
    assert!(sec.has_label("PII"));
    assert!(sec.has_label("pii")); // case-insensitive
    assert!(sec.has_label("HIPAA"));
    assert!(!sec.has_label("SOX"));
}

#[test]
fn adding_a_label_twice_keeps_one() {
    let mut sec = SecurityExtension::default();
    sec.add_label("PII");
    sec.add_label("PII");
    assert_eq!(sec.labels.len(), 1);
    sec.add_label("pii");
    assert_eq!(sec.labels.len(), 2);
    assert!(sec.labels.contains("PII"));
    assert!(!sec.labels.contains("Pii"));
}

#[test]
fn test_security_classification() {
    let sec = SecurityExtension {
        classification: Some("confidential".into()),
        ..Default::default()
    };
    assert_eq!(sec.classification.as_deref(), Some("confidential"));
}

#[test]
fn test_subject_extension() {
    let subject = SubjectExtension {
        id: Some("alice".into()),
        subject_type: Some(SubjectType::User),
        roles: vec!["admin".to_string(), "hr".to_string()],
        permissions: vec!["read_all".to_string()],
        teams: vec!["engineering".to_string()],
        claims: vec![("iss".to_string(), "auth.example.com".to_string())],
    };
    assert_eq!(subject.id.as_deref(), Some("alice"));
    assert_eq!(subject.subject_type, Some(SubjectType::User));
    assert!(subject.roles.iter().any(|r| r == "admin"));
    assert!(subject.permissions.iter().any(|p| p == "read_all"));
    assert!(subject.teams.iter().any(|t| t == "engineering"));
    let iss = subject.claims.iter().find(|(k, _)| k == "iss").map(|(_, v)| v.as_str());
    assert_eq!(iss.unwrap(), "auth.example.com");
}

#[test]
fn test_agent_identity() {
    let agent = AgentIdentity {
        client_id: Some("weather-agent".into()),
        workload_id: Some("spiffe://example.com/ns/team1/sa/weather-tool".into()),
        trust_domain: Some("example.com".into()),
    };
    assert_eq!(agent.client_id.as_deref(), Some("weather-agent"));
    assert_eq!(
        agent.workload_id.as_deref(),
        Some("spiffe://example.com/ns/team1/sa/weather-tool")
    );
    assert_eq!(agent.trust_domain.as_deref(), Some("example.com"));
}

#[test]
fn test_agent_identity_default() {
    let agent = AgentIdentity::default();
    assert!(agent.client_id.is_none());
    assert!(agent.workload_id.is_none());
    assert!(agent.trust_domain.is_none());
}

#[test]
fn test_security_with_agent_and_subject() {
    let sec = SecurityExtension {
        labels: {
            let mut l = MonotonicSet::new();
            l.add_label("PII");
            l
        },
        classification: Some("confidential".into()),
        subject: Some(SubjectExtension {
            id: Some("alice".into()),
            subject_type: Some(SubjectType::User),
            ..Default::default()
        }),
        agent: Some(AgentIdentity {
            client_id: Some("hr-agent".into()),
            workload_id: Some("spiffe://corp.com/hr-agent".into()),
            trust_domain: Some("corp.com".into()),
        }),
        auth_method: Some("jwt".into()),
        ..Default::default()
    };

    // Caller identity
    assert_eq!(sec.subject.as_ref().unwrap().id.as_deref(), Some("alice"));
    // Agent identity (distinct from caller)
    assert_eq!(sec.agent.as_ref().unwrap().client_id.as_deref(), Some("hr-agent"));
    assert_eq!(sec.agent.as_ref().unwrap().trust_domain.as_deref(), Some("corp.com"));
    // Auth method
    assert_eq!(sec.auth_method.as_deref(), Some("jwt"));
    // Labels
    assert!(sec.has_label("PII"));
}

#[test]
fn security_duplicate_keeps_content() {
    let mut sec = SecurityExtension::new();
    sec.add_label("PII");
    sec.classification = Some("internal".into());
    sec.agent = Some(AgentIdentity { client_id: Some("my-agent".into()), ..Default::default() });
    sec.auth_method = Some("mtls".into());
    let copy = sec.duplicate();
    assert!(copy.has_label("PII"));
    assert_eq!(copy.classification.as_deref(), Some("internal"));
    assert_eq!(copy.agent.as_ref().unwrap().client_id.as_deref(), Some("my-agent"));
    assert_eq!(copy.auth_method.as_deref(), Some("mtls"));
}

#[test]
fn test_object_security_profile() {
    let profile = ObjectSecurityProfile {
        managed_by: Some("hr-system".into()),
        permissions: vec!["read".into(), "write".into()],
        trust_domain: Some("corp.com".into()),
        data_scope: vec!["employee_data".into()],
    };
    assert_eq!(profile.managed_by.as_deref(), Some("hr-system"));
    assert_eq!(profile.permissions.len(), 2);
}

#[test]
fn test_data_policy() {
    let policy = DataPolicy {
        apply_labels: vec!["PII".into()],
        allowed_actions: Some(vec!["read".into()]),
        denied_actions: vec!["delete".into()],
        retention: Some(RetentionPolicy {
            max_age_seconds: Some(86400),
            policy: "30-day".into(),
            delete_after: Some("2026-05-01".into()),
        }),
    };
    assert_eq!(policy.apply_labels[0], "PII");
    assert!(policy.retention.is_some());
    assert_eq!(policy.retention.as_ref().unwrap().max_age_seconds, Some(86400));
}
