use std::sync::Arc;

use cpex::cmf::content::{ContentPart, Resource, ToolCall};
use cpex::cmf::enums::{ResourceType, Role};
use cpex::cmf::message::Message;
use cpex::cmf::view::{ViewAction, ViewKind};
use cpex::extensions::container::Extensions;
use cpex::extensions::http::HttpExtension;
use cpex::extensions::records::{AgentExtension, MetaExtension, RequestExtension};
use cpex::extensions::security::{SecurityExtension, SubjectExtension, SubjectType};
use cpex::json::JsonValue;

fn member<'a>(v: &'a JsonValue, key: &str) -> Option<&'a JsonValue> {
    match v {
        JsonValue::Object(members) => members.iter().find(|(k, _)| k == key).map(|(_, v)| v),
        _ => None,
    }
}

fn str_of(v: Option<&JsonValue>) -> Option<&str> {
    match v {
        Some(JsonValue::Str(s)) => Some(s.as_str()),
        _ => None,
    }
}

fn bool_of(v: Option<&JsonValue>) -> Option<bool> {
    match v {
        Some(JsonValue::Bool(b)) => Some(*b),
        _ => None,
    }
}

fn array_has_str(v: Option<&JsonValue>, s: &str) -> bool {
    match v {
        Some(JsonValue::Array(items)) => items.iter().any(|i| matches!(i, JsonValue::Str(x) if x == s)),
        _ => false,
    }
}

fn make_test_message() -> Message {
    Message {
        schema_version: "2.0".into(),
        role: Role::Assistant,
        content: vec![
            ContentPart::Thinking { text: "Let me think...".into() },
            ContentPart::Text { text: "Here's the answer.".into() },
            ContentPart::ToolCall {
                content: ToolCall {
                    tool_call_id: "tc_001".into(),
                    name: "get_weather".into(),
                    arguments: vec![("city".to_string(), JsonValue::Str("London".into()))],
                    namespace: None,
                },
            },
            ContentPart::Resource {
                content: Resource {
                    resource_request_id: "rr_001".into(),
                    uri: "file:///data.csv".into(),
                    name: Some("Data File".into()),
                    resource_type: ResourceType::File,
                    content: Some("col1,col2".into()),
                    mime_type: Some("text/csv".into()),
                    ..Default::default()
                },
            },
        ],
        channel: None,
    }
}

#[test]
fn test_tool_call_construction() {
    let tc = ToolCall {
        tool_call_id: "tc_001".into(),
        name: "search".into(),
        arguments: vec![("query".to_string(), JsonValue::Str("rust".into()))],
        namespace: None,
    };
    assert_eq!(tc.name, "search");
    let q = tc.arguments.iter().find(|(k, _)| k == "query").map(|(_, v)| v);
    assert_eq!(str_of(q), Some("rust"));
}

#[test]
fn test_resource_is_embedded() {
    let embedded = Resource {
        resource_request_id: "rr_001".into(),
        uri: "file:///data.txt".into(),
        name: None,
        description: None,
        resource_type: ResourceType::File,
        content: Some("data".into()),
        blob: None,
        mime_type: None,
        size_bytes: None,
        annotations: Vec::new(),
        version: None,
    };
    assert!(embedded.is_embedded());
    assert_eq!(embedded.get_text_content(), Some("data"));

    let reference = Resource { uri: "file:///other.txt".into(), ..Default::default() };
    assert!(!reference.is_embedded());
    assert_eq!(reference.get_text_content(), None);

    let binary = Resource { blob: Some(vec![1, 2, 3]), ..Default::default() };
    assert!(binary.is_embedded());
}

#[test]
fn test_iter_views_count() {
    let msg = make_test_message();
    let views = msg.iter_views(None, None);
    assert_eq!(views.len(), 4);
}

#[test]
fn test_view_kinds() {
    let msg = make_test_message();
    let views = msg.iter_views(None, None);
    assert_eq!(views[0].kind(), ViewKind::Thinking);
    assert_eq!(views[1].kind(), ViewKind::Text);
    assert_eq!(views[2].kind(), ViewKind::ToolCall);
    assert_eq!(views[3].kind(), ViewKind::Resource);
}

#[test]
fn test_view_content() {
    let msg = make_test_message();
    let views = msg.iter_views(None, None);
    assert_eq!(views[0].content(), Some("Let me think..."));
    assert_eq!(views[1].content(), Some("Here's the answer."));
    assert!(views[2].content().is_none()); // tool call has no text content
    assert_eq!(views[3].content(), Some("col1,col2")); // resource has text content
}

#[test]
fn test_view_name() {
    let msg = make_test_message();
    let views = msg.iter_views(None, None);
    assert!(views[0].name().is_none()); // thinking has no name
    assert!(views[1].name().is_none()); // text has no name
    assert_eq!(views[2].name(), Some("get_weather"));
    assert_eq!(views[3].name(), Some("Data File"));
}

#[test]
fn test_view_uri() {
    let msg = make_test_message();
    let views = msg.iter_views(None, None);
    assert_eq!(views[2].uri(), Some("tool://_/get_weather".to_string()));
    assert_eq!(views[3].uri(), Some("file:///data.csv".to_string()));
    assert_eq!(views[1].uri(), None);
}

#[test]
fn test_view_args() {
    let msg = make_test_message();
    let views = msg.iter_views(None, None);
    let tool_view = &views[2];
    assert!(tool_view.has_arg("city"));
    assert_eq!(str_of(tool_view.get_arg("city")), Some("London"));
    assert!(!tool_view.has_arg("nonexistent"));
}

#[test]
fn test_view_action() {
    let msg = make_test_message();
    let views = msg.iter_views(None, None);
    assert_eq!(views[0].action(), ViewAction::Generate); // thinking from assistant
    assert_eq!(views[1].action(), ViewAction::Generate); // text from assistant
    assert_eq!(views[2].action(), ViewAction::Execute); // tool call
    assert_eq!(views[3].action(), ViewAction::Read); // resource
}

#[test]
fn test_view_action_user_role() {
    let msg = Message::text(Role::User, "Hello");
    let views = msg.iter_views(None, None);
    assert_eq!(views[0].action(), ViewAction::Send); // text from user
}

#[test]
fn test_view_hook_pre_post() {
    let msg = make_test_message();
    let pre_views = msg.iter_views(Some("tool_pre_invoke"), None);
    assert!(pre_views[0].is_pre());
    assert!(!pre_views[0].is_post());

    let post_views = msg.iter_views(Some("tool_post_invoke"), None);
    assert!(post_views[0].is_post());
    assert!(!post_views[0].is_pre());

    let no_hook = msg.iter_views(None, None);
    assert!(!no_hook[0].is_pre());
    assert!(!no_hook[0].is_post());
}

#[test]
fn test_view_type_helpers() {
    let msg = make_test_message();
    let views = msg.iter_views(None, None);
    assert!(views[0].is_text()); // thinking
    assert!(views[1].is_text()); // text
    assert!(views[2].is_tool()); // tool call
    assert!(views[3].is_resource()); // resource
    assert!(!views[2].is_text());
    assert!(!views[3].is_media());
}

#[test]
fn test_view_mime_type() {
    let msg = make_test_message();
    let views = msg.iter_views(None, None);
    assert_eq!(views[3].mime_type(), Some("text/csv"));
    assert_eq!(views[1].mime_type(), None);
}

#[test]
fn test_view_with_extensions() {
    let mut security = SecurityExtension::default();
    security.add_label("PII");

    let mut http = HttpExtension::default();
    http.set_header("Authorization", "Bearer tok");

    let ext = Extensions {
        security: Some(Arc::new(security)),
        http: Some(Arc::new(http)),
        ..Default::default()
    };

    let msg = make_test_message();
    let views = msg.iter_views(None, Some(&ext));

    assert!(views[0].has_label("PII"));
    assert!(!views[0].has_label("HIPAA"));
    assert_eq!(views[0].get_header("Authorization"), Some("Bearer tok"));
}

#[test]
fn view_without_extensions_has_no_labels_or_headers() {
    let msg = make_test_message();
    let views = msg.iter_views(None, None);
    assert!(!views[0].has_label("PII"));
    assert_eq!(views[0].get_header("Authorization"), None);
}

#[test]
fn test_to_dict_basic() {
    let msg = Message::text(Role::User, "Hello world");
    let views = msg.iter_views(Some("llm_input"), None);
    let dict = views[0].to_dict(true, false);

    assert_eq!(str_of(member(&dict, "kind")), Some("text"));
    assert_eq!(str_of(member(&dict, "role")), Some("user"));
    assert_eq!(str_of(member(&dict, "action")), Some("send"));
    assert_eq!(str_of(member(&dict, "hook")), Some("llm_input"));
    assert_eq!(str_of(member(&dict, "content")), Some("Hello world"));
    assert!(matches!(member(&dict, "size_bytes"), Some(JsonValue::Number(n)) if n == "11"));
    assert_eq!(bool_of(member(&dict, "is_pre")), Some(false));
    assert_eq!(bool_of(member(&dict, "is_post")), Some(false));
}

#[test]
fn to_dict_size_counts_utf8_bytes() {
    let msg = Message::text(Role::User, "héllo");
    let views = msg.iter_views(None, None);
    let dict = views[0].to_dict(true, false);
    assert!(matches!(member(&dict, "size_bytes"), Some(JsonValue::Number(n)) if n == "6"));
}

#[test]
fn test_to_dict_tool_call() {
    let msg = make_test_message();
    let views = msg.iter_views(Some("tool_pre_invoke"), None);
    let dict = views[2].to_dict(true, false); // tool call

    assert_eq!(str_of(member(&dict, "kind")), Some("tool_call"));
    assert_eq!(str_of(member(&dict, "name")), Some("get_weather"));
    assert_eq!(str_of(member(&dict, "uri")), Some("tool://_/get_weather"));
    assert_eq!(str_of(member(&dict, "action")), Some("execute"));
    assert_eq!(bool_of(member(&dict, "is_pre")), Some(true));
    let args = member(&dict, "arguments");
    assert!(matches!(args, Some(JsonValue::Object(_))));
    assert_eq!(str_of(member(args.unwrap(), "city")), Some("London"));
}

#[test]
fn test_to_dict_without_content() {
    let msg = Message::text(Role::User, "Secret message");
    let views = msg.iter_views(None, None);
    let dict = views[0].to_dict(false, false);

    assert!(member(&dict, "content").is_none());
    assert!(member(&dict, "size_bytes").is_none());
}

#[test]
fn test_to_dict_with_extensions() {
    let mut security = SecurityExtension::default();
    security.add_label("PII");
    security.subject = Some(SubjectExtension {
        id: Some("alice".into()),
        subject_type: Some(SubjectType::User),
        roles: vec!["admin".to_string()],
        ..Default::default()
    });

    let mut http = HttpExtension::default();
    http.set_header("Authorization", "Bearer secret");
    http.set_header("X-Request-ID", "req-123");

    let ext = Extensions {
        security: Some(Arc::new(security)),
        http: Some(Arc::new(http)),
        request: Some(Arc::new(RequestExtension {
            environment: Some("production".into()),
            ..Default::default()
        })),
        agent: Some(Arc::new(AgentExtension {
            session_id: Some("sess-001".into()),
            agent_id: Some("agent-x".into()),
            ..Default::default()
        })),
        meta: Some(Arc::new(MetaExtension {
            entity_type: Some("tool".into()),
            entity_name: Some("get_compensation".into()),
            tags: vec!["pii".to_string()],
            ..Default::default()
        })),
        ..Default::default()
    };

    let msg = Message::text(Role::User, "test");
    let views = msg.iter_views(None, Some(&ext));
    let dict = views[0].to_dict(true, true);

    let extensions = member(&dict, "extensions").unwrap();

    // Subject visible
    let subject = member(extensions, "subject").unwrap();
    assert_eq!(str_of(member(subject, "id")), Some("alice"));
    assert_eq!(str_of(member(subject, "type")), Some("user"));
    assert!(array_has_str(member(subject, "roles"), "admin"));

    // Labels visible
    assert!(array_has_str(member(extensions, "labels"), "PII"));

    // Environment visible
    assert_eq!(str_of(member(extensions, "environment")), Some("production"));

    // Headers visible — but Authorization stripped (sensitive)
    let headers = member(extensions, "headers").unwrap();
    assert!(member(headers, "Authorization").is_none());
    assert_eq!(str_of(member(headers, "X-Request-ID")), Some("req-123"));

    // Agent context visible
    let agent = member(extensions, "agent").unwrap();
    assert_eq!(str_of(member(agent, "session_id")), Some("sess-001"));
    assert_eq!(str_of(member(agent, "agent_id")), Some("agent-x"));

    // Meta visible
    let meta = member(extensions, "meta").unwrap();
    assert_eq!(str_of(member(meta, "entity_type")), Some("tool"));
    assert_eq!(str_of(member(meta, "entity_name")), Some("get_compensation"));
    assert!(array_has_str(member(meta, "tags"), "pii"));
}

#[test]
fn to_dict_sorts_roles_and_hides_cookie_headers_in_any_case() {
    let mut security = SecurityExtension::default();
    security.subject = Some(SubjectExtension {
        roles: vec!["viewer".to_string(), "admin".to_string(), "editor".to_string()],
        ..Default::default()
    });
    let mut http = HttpExtension::default();
    http.set_header("COOKIE", "a=b");
    http.set_header("x-api-key", "k");
    http.set_header("Accept", "text/plain");
    let ext = Extensions {
        security: Some(Arc::new(security)),
        http: Some(Arc::new(http)),
        ..Default::default()
    };
    let msg = Message::text(Role::User, "x");
    let views = msg.iter_views(None, Some(&ext));
    let dict = views[0].to_dict(false, true);
    let extensions = member(&dict, "extensions").unwrap();
    let roles = member(member(extensions, "subject").unwrap(), "roles").unwrap();
    match roles {
        JsonValue::Array(items) => {
            let names: Vec<&str> = items
                .iter()
                .map(|i| match i {
                    JsonValue::Str(s) => s.as_str(),
                    _ => "",
                })
                .collect();
            assert_eq!(names, vec!["admin", "editor", "viewer"]);
        }
        _ => panic!("roles is not an array"),
    }
    let headers = member(extensions, "headers").unwrap();
    assert!(member(headers, "COOKIE").is_none());
    assert!(member(headers, "x-api-key").is_none());
    assert_eq!(str_of(member(headers, "Accept")), Some("text/plain"));
    // Context is left out unless asked for.
    let plain = views[0].to_dict(false, false);
    assert!(member(&plain, "extensions").is_none());
}

#[test]
fn test_to_opa_input() {
    let msg = Message::text(Role::User, "Hello");
    let views = msg.iter_views(None, None);
    let opa = views[0].to_opa_input(true);

    let input = member(&opa, "input");
    assert!(input.is_some());
    assert_eq!(str_of(member(input.unwrap(), "kind")), Some("text"));
    assert_eq!(str_of(member(input.unwrap(), "role")), Some("user"));
    assert_eq!(str_of(member(input.unwrap(), "content")), Some("Hello"));
}

#[test]
fn to_dict_leaves_out_empty_context_objects_and_lists() {
    let mut security = SecurityExtension::default();
    security.subject = Some(SubjectExtension::default());
    let ext = Extensions {
        security: Some(Arc::new(security)),
        agent: Some(Arc::new(AgentExtension::default())),
        meta: Some(Arc::new(MetaExtension::default())),
        http: Some(Arc::new(HttpExtension::default())),
        ..Default::default()
    };
    let msg = Message::text(Role::User, "x");
    let views = msg.iter_views(None, Some(&ext));
    let dict = views[0].to_dict(true, true);
    // Every part of the context is empty, so the context itself is left out.
    assert!(member(&dict, "extensions").is_none());
    assert!(member(&dict, "content").is_some());
    assert!(member(&dict, "size_bytes").is_some());
}

#[test]
fn to_dict_lists_each_role_once_in_order() {
    let mut security = SecurityExtension::default();
    security.subject = Some(SubjectExtension {
        roles: vec!["editor".to_string(), "admin".to_string(), "editor".to_string()],
        ..Default::default()
    });
    let ext = Extensions { security: Some(Arc::new(security)), ..Default::default() };
    let msg = Message::text(Role::User, "x");
    let views = msg.iter_views(None, Some(&ext));
    let dict = views[0].to_dict(false, true);
    let extensions = member(&dict, "extensions").unwrap();
    let roles = member(member(extensions, "subject").unwrap(), "roles").unwrap();
    match roles {
        JsonValue::Array(items) => {
            let names: Vec<&str> = items
                .iter()
                .map(|i| match i {
                    JsonValue::Str(s) => s.as_str(),
                    _ => "",
                })
                .collect();
            assert_eq!(names, vec!["admin", "editor"]);
        }
        _ => panic!("roles is not an array"),
    }
}
