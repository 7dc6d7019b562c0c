use std::sync::Arc;

use cpex::extensions::container::Extensions;
use cpex::extensions::delegation::DelegationExtension;
use cpex::extensions::filter::{build_filtered_security, build_filtered_subject, filter_extensions};
use cpex::extensions::http::HttpExtension;
use cpex::extensions::records::{AgentExtension, MetaExtension, RequestExtension};
use cpex::extensions::security::{SecurityExtension, SubjectExtension, SubjectType};
use cpex::json::JsonValue;

fn caps(names: &[&str]) -> Vec<String> {
    names.iter().map(|s| s.to_string()).collect()
}

fn contains(v: &[String], s: &str) -> bool {
    v.iter().any(|x| x == s)
}

fn make_subject() -> SubjectExtension {
    SubjectExtension {
        id: Some("alice".into()),
        subject_type: Some(SubjectType::User),
        roles: vec!["admin".to_string()],
        permissions: vec!["read_all".to_string()],
        teams: vec!["engineering".to_string()],
        claims: vec![("iss".to_string(), "example.com".to_string())],
    }
}

fn make_full_extensions() -> Extensions {
    let mut security = SecurityExtension::default();
    security.add_label("PII");
    security.classification = Some("confidential".into());
    security.subject = Some(make_subject());

    let mut http = HttpExtension::default();
    http.set_header("Authorization", "Bearer token123");

    Extensions {
        request: Some(Arc::new(RequestExtension { request_id: Some("req-001".into()), ..Default::default() })),
        security: Some(Arc::new(security)),
        http: Some(Arc::new(http)),
        agent: Some(Arc::new(AgentExtension { agent_id: Some("agent-1".into()), ..Default::default() })),
        delegation: Some(Arc::new(DelegationExtension { delegated: true, ..Default::default() })),
        meta: Some(Arc::new(MetaExtension {
            entity_type: Some("tool".into()),
            entity_name: Some("get_compensation".into()),
            ..Default::default()
        })),
        custom: Some(Arc::new(vec![("key".to_string(), JsonValue::Str("value".into()))])),
        ..Default::default()
    }
}

#[test]
fn test_no_capabilities_sees_unrestricted_only() {
    let ext = make_full_extensions();
    let filtered = filter_extensions(&ext, &Vec::new());

    // Unrestricted slots visible
    assert!(filtered.request.is_some());
    assert!(filtered.meta.is_some());
    assert!(filtered.custom.is_some());

    // Capability-gated slots hidden
    assert!(filtered.http.is_none());
    assert!(filtered.agent.is_none());
    assert!(filtered.delegation.is_none());

    // Security: objects/data/classification visible, labels/subject hidden
    let sec = filtered.security.as_ref().unwrap();
    assert!(sec.labels.is_empty());
    assert!(sec.subject.is_none());
    assert_eq!(sec.classification, Some("confidential".into()));
}

#[test]
fn test_read_headers_capability() {
    let ext = make_full_extensions();
    let filtered = filter_extensions(&ext, &caps(&["read_headers"]));

    assert!(filtered.http.is_some());
    assert_eq!(filtered.http.as_ref().unwrap().get_header("Authorization"), Some("Bearer token123"));
    // Still no agent access
    assert!(filtered.agent.is_none());
}

#[test]
fn test_read_agent_capability() {
    let ext = make_full_extensions();
    let filtered = filter_extensions(&ext, &caps(&["read_agent"]));

    assert!(filtered.agent.is_some());
    assert_eq!(filtered.agent.as_ref().unwrap().agent_id, Some("agent-1".into()));
    assert!(filtered.http.is_none());
}

#[test]
fn test_read_labels_capability() {
    let ext = make_full_extensions();
    let filtered = filter_extensions(&ext, &caps(&["read_labels"]));

    let sec = filtered.security.as_ref().unwrap();
    assert!(sec.has_label("PII"));
    // No subject access — just label access
    assert!(sec.subject.is_none());
}

#[test]
fn test_read_subject_sees_id_and_type_only() {
    let ext = make_full_extensions();
    let filtered = filter_extensions(&ext, &caps(&["read_subject"]));

    let sec = filtered.security.as_ref().unwrap();
    let subject = sec.subject.as_ref().unwrap();
    assert_eq!(subject.id, Some("alice".into()));
    assert_eq!(subject.subject_type, Some(SubjectType::User));
    // Sub-fields empty without specific capabilities
    assert!(subject.roles.is_empty());
    assert!(subject.permissions.is_empty());
    assert!(subject.teams.is_empty());
    assert!(subject.claims.is_empty());
}

#[test]
fn test_read_roles_implies_subject_access() {
    let ext = make_full_extensions();
    let filtered = filter_extensions(&ext, &caps(&["read_roles"]));

    let sec = filtered.security.as_ref().unwrap();
    let subject = sec.subject.as_ref().unwrap();
    // Has subject access (implied by read_roles)
    assert_eq!(subject.id, Some("alice".into()));
    // Has roles
    assert!(contains(&subject.roles, "admin"));
    // No other sub-fields
    assert!(subject.permissions.is_empty());
    assert!(subject.teams.is_empty());
}

#[test]
fn test_full_capabilities() {
    let ext = make_full_extensions();
    let all = caps(&[
        "read_headers",
        "read_agent",
        "read_delegation",
        "read_labels",
        "read_subject",
        "read_roles",
        "read_permissions",
        "read_teams",
        "read_claims",
    ]);

    let filtered = filter_extensions(&ext, &all);

    // Everything visible
    assert!(filtered.http.is_some());
    assert!(filtered.agent.is_some());
    assert!(filtered.delegation.is_some());

    let sec = filtered.security.as_ref().unwrap();
    assert!(sec.has_label("PII"));
    let subject = sec.subject.as_ref().unwrap();
    assert!(contains(&subject.roles, "admin"));
    assert!(contains(&subject.permissions, "read_all"));
    assert!(contains(&subject.teams, "engineering"));
    assert!(subject.claims.iter().any(|(k, _)| k == "iss"));
}

#[test]
fn test_read_delegation_capability() {
    let ext = make_full_extensions();
    let filtered = filter_extensions(&ext, &caps(&["read_delegation"]));

    assert!(filtered.delegation.is_some());
    assert!(filtered.delegation.as_ref().unwrap().delegated);
}

#[test]
fn filtering_never_grants_write_tokens() {
    let ext = make_full_extensions();
    let filtered = filter_extensions(&ext, &caps(&["read_headers", "read_labels"]));
    assert!(filtered.http_write_token.is_none());
    assert!(filtered.labels_write_token.is_none());
    assert!(filtered.delegation_write_token.is_none());
}

#[test]
fn filtered_subject_keeps_only_granted_fields() {
    let subject = make_subject();
    let f = build_filtered_subject(&subject, &caps(&["read_permissions", "read_claims"]));
    assert_eq!(f.id.as_deref(), Some("alice"));
    assert!(f.roles.is_empty());
    assert!(contains(&f.permissions, "read_all"));
    assert!(f.teams.is_empty());
    assert_eq!(f.claims.len(), 1);
}

#[test]
fn filtered_security_without_capabilities_hides_labels_and_subject() {
    let mut sec = SecurityExtension::default();
    sec.add_label("SECRET");
    sec.subject = Some(make_subject());
    sec.auth_method = Some("jwt".into());
    let f = build_filtered_security(&sec, &Vec::new());
    assert!(f.labels.is_empty());
    assert!(f.subject.is_none());
    assert_eq!(f.auth_method.as_deref(), Some("jwt"));
    let g = build_filtered_security(&sec, &caps(&["read_labels", "read_teams"]));
    assert!(g.has_label("secret"));
    let s = g.subject.as_ref().unwrap();
    assert!(contains(&s.teams, "engineering"));
    assert!(s.roles.is_empty());
}
