use cpex::cmf::content::{ContentPart, Resource, ResourceReference, ToolCall, ToolResult};
use cpex::cmf::enums::{Channel, ResourceType, Role};
use cpex::cmf::message::{default_schema_version, Message};
use cpex::json::JsonValue;

#[test]
fn test_message_text_helper() {
    let msg = Message::text(Role::User, "What is the weather?");
    assert_eq!(msg.get_text_content(), "What is the weather?");
    assert_eq!(msg.role, Role::User);
    assert_eq!(msg.schema_version, "2.0");
}

#[test]
fn test_message_multi_part_text() {
    let msg = Message {
        schema_version: "2.0".into(),
        role: Role::Assistant,
        content: vec![
            ContentPart::Text { text: "Hello ".into() },
            ContentPart::Text { text: "world!".into() },
        ],
        channel: None,
    };
    assert_eq!(msg.get_text_content(), "Hello world!");
}

#[test]
fn test_message_thinking_content() {
    let msg = Message {
        schema_version: "2.0".into(),
        role: Role::Assistant,
        content: vec![
            ContentPart::Thinking { text: "Let me think...".into() },
            ContentPart::Text { text: "Here's my answer.".into() },
        ],
        channel: Some(Channel::Final),
    };
    assert_eq!(msg.get_thinking_content(), Some("Let me think...".to_string()));
    assert_eq!(msg.get_text_content(), "Here's my answer.");
}

#[test]
fn message_without_thinking_has_none() {
    let msg = Message::text(Role::Assistant, "plain");
    assert_eq!(msg.get_thinking_content(), None);
}

#[test]
fn test_message_tool_calls() {
    let msg = Message {
        schema_version: "2.0".into(),
        role: Role::Assistant,
        content: vec![
            ContentPart::Text { text: "Let me check.".into() },
            ContentPart::ToolCall {
                content: ToolCall {
                    tool_call_id: "tc_001".into(),
                    name: "get_weather".into(),
                    arguments: vec![("city".to_string(), JsonValue::Str("London".into()))],
                    namespace: None,
                },
            },
            ContentPart::ToolCall {
                content: ToolCall {
                    tool_call_id: "tc_002".into(),
                    name: "get_time".into(),
                    arguments: vec![("timezone".to_string(), JsonValue::Str("UTC".into()))],
                    namespace: None,
                },
            },
        ],
        channel: None,
    };
    assert!(msg.is_tool_call());
    assert!(!msg.is_tool_result());
    let calls = msg.get_tool_calls();
    assert_eq!(calls.len(), 2);
    assert_eq!(calls[0].name, "get_weather");
    assert_eq!(calls[1].name, "get_time");
}

#[test]
fn test_message_tool_results() {
    let msg = Message {
        schema_version: "2.0".into(),
        role: Role::Tool,
        content: vec![ContentPart::ToolResult {
            content: ToolResult {
                tool_call_id: "tc_001".into(),
                tool_name: "get_weather".into(),
                content: JsonValue::Object(vec![("temp".to_string(), JsonValue::Number("20".into()))]),
                is_error: false,
            },
        }],
        channel: None,
    };
    assert!(msg.is_tool_result());
    assert!(!msg.is_tool_call());
    let results = msg.get_tool_results();
    assert_eq!(results.len(), 1);
    assert_eq!(results[0].tool_name, "get_weather");
}

#[test]
fn test_message_resources() {
    let msg = Message {
        schema_version: "2.0".into(),
        role: Role::Assistant,
        content: vec![
            ContentPart::Resource {
                content: Resource {
                    resource_request_id: "rr_001".into(),
                    uri: "file:///data.txt".into(),
                    name: Some("Data File".into()),
                    description: None,
                    resource_type: ResourceType::File,
                    content: Some("file contents".into()),
                    blob: None,
                    mime_type: None,
                    size_bytes: None,
                    annotations: Vec::new(),
                    version: None,
                },
            },
            ContentPart::ResourceRef {
                content: ResourceReference {
                    resource_request_id: "rr_002".into(),
                    uri: "db://users/42".into(),
                    name: None,
                    resource_type: ResourceType::Database,
                    range_start: None,
                    range_end: None,
                    selector: None,
                },
            },
        ],
        channel: None,
    };
    assert!(msg.has_resources());
    assert_eq!(msg.get_resources().len(), 1);
    assert_eq!(msg.get_resource_refs().len(), 1);
    let uris = msg.get_all_resource_uris();
    assert_eq!(uris.len(), 2);
    assert!(uris.contains(&"file:///data.txt"));
    assert!(uris.contains(&"db://users/42"));
    assert_eq!(uris, vec!["file:///data.txt", "db://users/42"]);
}

#[test]
fn test_message_no_resources() {
    let msg = Message::text(Role::User, "Hello");
    assert!(!msg.has_resources());
    assert!(msg.get_resources().is_empty());
}

#[test]
fn test_message_default_schema_version() {
    assert_eq!(default_schema_version(), "2.0");
    assert_eq!(Message::text(Role::User, "x").schema_version, default_schema_version());
}
