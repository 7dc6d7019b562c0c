use std::sync::Arc;

use cpex::extensions::container::Extensions;
use cpex::extensions::delegation::{DelegationExtension, DelegationHop};
use cpex::extensions::guarded::{Guarded, WriteToken};
use cpex::extensions::http::HttpExtension;
use cpex::extensions::records::{MetaExtension, RequestExtension};
use cpex::extensions::security::SecurityExtension;
use cpex::json::JsonValue;

fn make_extensions() -> Extensions {
    let mut security = SecurityExtension::default();
    security.add_label("PII");

    let mut http = HttpExtension::default();
    http.set_header("Authorization", "Bearer token");

    Extensions {
        request: Some(Arc::new(RequestExtension { request_id: Some("req-001".into()), ..Default::default() })),
        security: Some(Arc::new(security)),
        http: Some(Arc::new(http)),
        delegation: Some(Arc::new(DelegationExtension::default())),
        meta: Some(Arc::new(MetaExtension { entity_type: Some("tool".into()), ..Default::default() })),
        ..Default::default()
    }
}

fn lookup<'a>(d: &'a [(String, JsonValue)], key: &str) -> Option<&'a JsonValue> {
    d.iter().find(|(k, _)| k == key).map(|(_, v)| v)
}

#[test]
fn test_cow_copy_shares_immutable_arcs() {
    let ext = make_extensions();
    let cow = ext.cow_copy();

    // Immutable slots share the same Arc — zero copy
    assert!(Arc::ptr_eq(ext.request.as_ref().unwrap(), cow.request.as_ref().unwrap()));
    assert!(Arc::ptr_eq(ext.meta.as_ref().unwrap(), cow.meta.as_ref().unwrap()));
}

#[test]
fn test_cow_copy_deep_clones_mutable_slots() {
    let ext = make_extensions();
    let cow = ext.cow_copy();

    // Mutable/monotonic slots are deep cloned — independent copies
    assert!(cow.security.is_some());
    assert!(cow.http.is_some());
    assert!(cow.delegation.is_some());

    assert!(cow.security.as_ref().unwrap().has_label("PII"));
}

#[test]
fn test_cow_copy_propagates_write_tokens() {
    let mut ext = make_extensions();

    // No tokens on the source → no tokens on the copy
    let cow_no_tokens = ext.cow_copy();
    assert!(cow_no_tokens.http_write_token.is_none());
    assert!(cow_no_tokens.labels_write_token.is_none());
    assert!(cow_no_tokens.delegation_write_token.is_none());

    // Executor sets tokens based on capabilities
    ext.http_write_token = Some(WriteToken::new());
    ext.labels_write_token = Some(WriteToken::new());

    // COW copy propagates only the tokens that exist
    let cow_with_tokens = ext.cow_copy();
    assert!(cow_with_tokens.http_write_token.is_some());
    assert!(cow_with_tokens.labels_write_token.is_some());
    assert!(cow_with_tokens.delegation_write_token.is_none()); // wasn't set
}

#[test]
fn test_cow_copy_write_token_enables_guarded_write() {
    let mut ext = make_extensions();
    ext.http_write_token = Some(WriteToken::new());

    let mut cow = ext.cow_copy();

    // Can read without token
    assert_eq!(cow.http.as_ref().unwrap().read().get_header("Authorization"), Some("Bearer token"));

    // Can write with token from COW
    let token = cow.http_write_token.as_ref().unwrap();
    cow.http.as_mut().unwrap().write(token).set_header("X-Custom", "value");

    assert_eq!(cow.http.as_ref().unwrap().read().get_header("X-Custom"), Some("value"));

    // Source unchanged
    assert!(ext.http.as_ref().unwrap().get_header("X-Custom").is_none());
}

#[test]
fn test_cow_copy_monotonic_label_insert() {
    let mut ext = make_extensions();
    ext.labels_write_token = Some(WriteToken::new());

    let mut cow = ext.cow_copy();

    // Can add labels on the COW copy
    cow.security.as_mut().unwrap().add_label("HIPAA");
    assert!(cow.security.as_ref().unwrap().has_label("HIPAA"));

    // Source unchanged
    assert!(!ext.security.as_ref().unwrap().has_label("HIPAA"));
}

#[test]
fn test_validate_immutable_passes_for_cow() {
    let ext = make_extensions();
    let cow = ext.cow_copy();

    // COW copy shares immutable Arcs → validation passes
    assert!(ext.validate_immutable(&cow));
}

#[test]
fn test_validate_immutable_fails_when_tampered() {
    let ext = make_extensions();
    let mut cow = ext.cow_copy();

    // Tamper with an immutable slot
    cow.request = Some(Arc::new(RequestExtension { request_id: Some("TAMPERED".into()), ..Default::default() }));

    // Validation fails — different Arc pointer
    assert!(!ext.validate_immutable(&cow));
}

#[test]
fn validate_immutable_fails_when_slot_removed() {
    let ext = make_extensions();
    let mut cow = ext.cow_copy();
    cow.meta = None;
    assert!(!ext.validate_immutable(&cow));
}

#[test]
fn test_validate_immutable_both_none_passes() {
    let ext = Extensions::default();
    let cow = ext.cow_copy();
    assert!(ext.validate_immutable(&cow));
}

#[test]
fn test_clone_drops_write_tokens() {
    let mut ext = make_extensions();
    ext.http_write_token = Some(WriteToken::new());
    ext.labels_write_token = Some(WriteToken::new());
    ext.delegation_write_token = Some(WriteToken::new());

    // Regular clone drops all tokens
    let cloned = ext.clone();
    assert!(cloned.http_write_token.is_none());
    assert!(cloned.labels_write_token.is_none());
    assert!(cloned.delegation_write_token.is_none());

    // cow_copy propagates them
    let cow = ext.cow_copy();
    assert!(cow.http_write_token.is_some());
    assert!(cow.labels_write_token.is_some());
    assert!(cow.delegation_write_token.is_some());
}

#[test]
fn test_cow_copy_modify_multiple_fields() {
    // Build extensions with security, http, delegation, custom
    let mut security = SecurityExtension::default();
    security.add_label("PII");

    let mut http = HttpExtension::default();
    http.set_header("Authorization", "Bearer token");

    let mut ext = Extensions {
        security: Some(Arc::new(security)),
        http: Some(Arc::new(http)),
        delegation: Some(Arc::new(DelegationExtension::default())),
        custom: Some(Arc::new(vec![("existing".to_string(), JsonValue::Str("value".into()))])),
        meta: Some(Arc::new(MetaExtension { entity_type: Some("tool".into()), ..Default::default() })),
        ..Default::default()
    };

    // Executor sets all write tokens
    ext.http_write_token = Some(WriteToken::new());
    ext.labels_write_token = Some(WriteToken::new());
    ext.delegation_write_token = Some(WriteToken::new());

    // Plugin does one cow_copy, modifies multiple fields
    let mut cow = ext.cow_copy();

    // 1. Add security labels (monotonic)
    cow.security.as_mut().unwrap().add_label("CHECKED");
    cow.security.as_mut().unwrap().add_label("COMPLIANT");

    // 2. Inject HTTP headers (guarded)
    let token = cow.http_write_token.as_ref().unwrap();
    cow.http.as_mut().unwrap().write(token).set_header("X-Checked", "true");
    cow.http.as_mut().unwrap().write(token).set_header("X-Policy", "v2");

    // 3. Append delegation hop (monotonic)
    cow.delegation.as_mut().unwrap().append_hop(DelegationHop {
        subject_id: "service-a".into(),
        scopes_granted: vec!["read_hr".into()],
        ..Default::default()
    });

    // 4. Add custom data (mutable, no token needed)
    cow.custom.as_mut().unwrap().push(("audit.timestamp".into(), JsonValue::Str("2026-04-29".into())));

    // Verify COW copy has all modifications
    let sec = cow.security.as_ref().unwrap();
    assert!(sec.has_label("PII")); // kept
    assert!(sec.has_label("CHECKED")); // added
    assert!(sec.has_label("COMPLIANT")); // added

    let http = cow.http.as_ref().unwrap().read();
    assert_eq!(http.get_header("Authorization"), Some("Bearer token")); // kept
    assert_eq!(http.get_header("X-Checked"), Some("true")); // added
    assert_eq!(http.get_header("X-Policy"), Some("v2")); // added

    assert_eq!(cow.delegation.as_ref().unwrap().chain.len(), 1);
    assert_eq!(cow.delegation.as_ref().unwrap().chain[0].subject_id, "service-a");

    let custom = cow.custom.as_ref().unwrap();
    assert!(matches!(lookup(custom, "existing"), Some(JsonValue::Str(s)) if s == "value"));
    assert!(matches!(lookup(custom, "audit.timestamp"), Some(JsonValue::Str(s)) if s == "2026-04-29"));

    // The source is unchanged
    assert!(!ext.security.as_ref().unwrap().has_label("CHECKED"));
    assert!(ext.http.as_ref().unwrap().get_header("X-Checked").is_none());
    assert!(ext.delegation.as_ref().unwrap().chain.is_empty());
    assert!(lookup(ext.custom.as_ref().unwrap(), "audit.timestamp").is_none());

    // Immutable slots still valid
    assert!(ext.validate_immutable(&cow));

    // Merging the workspace back takes the changes
    ext.merge_owned(cow);
    assert!(ext.security.as_ref().unwrap().has_label("COMPLIANT"));
    assert_eq!(ext.http.as_ref().unwrap().get_header("X-Policy"), Some("v2"));
    assert_eq!(ext.delegation.as_ref().unwrap().depth, 1);
}

#[test]
fn test_read_only_plugin_zero_cost() {
    // Plugin that only reads — no cow_copy, no clone
    let ext = make_extensions();

    let has_pii = ext.security.as_ref().map(|s| s.has_label("PII")).unwrap_or(false);
    assert!(has_pii);

    let auth = ext.http.as_ref().and_then(|h| h.get_header("Authorization"));
    assert_eq!(auth, Some("Bearer token"));

    let entity = ext.meta.as_ref().and_then(|m| m.entity_type.as_deref());
    assert_eq!(entity, Some("tool"));
}

#[test]
fn header_set_twice_reads_last_value() {
    let mut http = HttpExtension::new();
    http.set_header("X-A", "1");
    http.set_header("X-B", "2");
    http.set_header("X-A", "3");
    assert_eq!(http.get_header("X-A"), Some("3"));
    assert_eq!(http.get_header("X-B"), Some("2"));
    assert_eq!(http.get_header("x-a"), None);
    http.set_response_header("Content-Type", "text/plain");
    assert_eq!(http.get_response_header("Content-Type"), Some("text/plain"));
    assert_eq!(http.get_header("Content-Type"), None);
}

#[test]
fn guarded_value_round_trip() {
    let token = WriteToken::new();
    let mut g = Guarded::new(5u32);
    assert_eq!(*g.read(), 5);
    *g.write(&token) = 9;
    assert_eq!(g.into_inner(), 9);
}

#[test]
fn test_delegation_starts_empty() {
    let del = DelegationExtension::default();
    assert!(del.chain.is_empty());
    assert_eq!(del.depth, 0);
    assert!(!del.delegated);
}

#[test]
fn test_append_hop() {
    let mut del = DelegationExtension::default();
    del.append_hop(DelegationHop {
        subject_id: "alice".into(),
        scopes_granted: vec!["read_hr".into()],
        ..Default::default()
    });

    assert_eq!(del.chain.len(), 1);
    assert_eq!(del.depth, 1);
    assert!(del.delegated);
    assert_eq!(del.chain[0].subject_id, "alice");
    assert_eq!(del.chain[0].scopes_granted, vec!["read_hr"]);
}

#[test]
fn test_append_multiple_hops() {
    let mut del = DelegationExtension { origin_subject_id: Some("alice".into()), ..Default::default() };

    del.append_hop(DelegationHop {
        subject_id: "alice".into(),
        audience: Some("service-b".into()),
        scopes_granted: vec!["read".into(), "write".into()],
        strategy: Some("token_exchange".into()),
        ..Default::default()
    });

    del.append_hop(DelegationHop {
        subject_id: "service-b".into(),
        audience: Some("service-c".into()),
        scopes_granted: vec!["read".into()], // narrowed scope
        ..Default::default()
    });

    assert_eq!(del.chain.len(), 2);
    assert_eq!(del.depth, 2);
    // Second hop has narrower scope
    assert_eq!(del.chain[1].scopes_granted, vec!["read"]);
    assert_eq!(del.origin_subject_id.as_deref(), Some("alice"));
}

#[test]
fn delegation_duplicate_keeps_chain() {
    let mut del = DelegationExtension::new();
    del.append_hop(DelegationHop { subject_id: "a".into(), ..Default::default() });
    let copy = del.duplicate();
    assert_eq!(copy.chain.len(), 1);
    assert_eq!(copy.chain[0].subject_id, "a");
    assert_eq!(copy.depth, 1);
    assert!(copy.delegated);
}

#[test]
fn default_delegation_is_empty_and_undelegated() {
    let d = DelegationExtension::default();
    assert!(d.chain.is_empty());
    assert_eq!(d.depth, 0);
    assert!(!d.delegated);
    assert!(d.origin_subject_id.is_none() && d.actor_subject_id.is_none());
}
