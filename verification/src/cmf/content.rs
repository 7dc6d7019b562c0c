//! Typed content parts of a message.

use vstd::prelude::*;

use crate::cmf::enums::ResourceType;
use crate::cmf::message::Message;
use crate::json::JsonValue;
use crate::text::opt_str_view;

verus! {

/// A request to invoke a tool.
#[derive(Debug)]
pub struct ToolCall {
    pub tool_call_id: String,
    pub name: String,
    /// Arguments by name.
    pub arguments: Vec<(String, JsonValue)>,
    pub namespace: Option<String>,
}

/// The result of a tool invocation.
#[derive(Debug)]
pub struct ToolResult {
    pub tool_call_id: String,
    pub tool_name: String,
    pub content: JsonValue,
    pub is_error: bool,
}

/// A resource, possibly with embedded content.
#[derive(Debug, Default)]
pub struct Resource {
    pub resource_request_id: String,
    pub uri: String,
    pub name: Option<String>,
    pub description: Option<String>,
    pub resource_type: ResourceType,
    /// Embedded text content.
    pub content: Option<String>,
    /// Embedded binary content.
    pub blob: Option<Vec<u8>>,
    pub mime_type: Option<String>,
    pub size_bytes: Option<u64>,
    pub annotations: Vec<(String, JsonValue)>,
    pub version: Option<String>,
}

impl Resource {
    /// Whether the resource carries its content (text or binary).
    pub fn is_embedded(&self) -> (r: bool)
        ensures
            r == (self.content is Some || self.blob is Some),
    {
        self.content.is_some() || self.blob.is_some()
    }

    /// The embedded text content, if any.
    pub fn get_text_content(&self) -> (r: Option<&str>)
        ensures
            match self.content {
                Some(c) => r matches Some(x) && x@ == c@,
                None => r is None,
            },
    {
        match &self.content {
            Some(c) => Some(c.as_str()),
            None => None,
        }
    }
}

/// A reference to a resource, without content.
#[derive(Debug)]
pub struct ResourceReference {
    pub resource_request_id: String,
    pub uri: String,
    pub name: Option<String>,
    pub resource_type: ResourceType,
    pub range_start: Option<u64>,
    pub range_end: Option<u64>,
    pub selector: Option<String>,
}

/// A request to render a prompt template.
#[derive(Debug)]
pub struct PromptRequest {
    pub prompt_request_id: String,
    pub name: String,
    pub arguments: Vec<(String, JsonValue)>,
    pub server_id: Option<String>,
}

/// A rendered prompt template.
#[derive(Debug)]
pub struct PromptResult {
    pub prompt_request_id: String,
    pub prompt_name: String,
    pub messages: Vec<Message>,
    pub content: Option<String>,
    pub is_error: bool,
    pub error_message: Option<String>,
}

/// Image content (URL or base64).
#[derive(Debug)]
pub struct ImageSource {
    /// `url` or `base64`.
    pub source_type: String,
    pub data: String,
    pub media_type: Option<String>,
}

/// Video content.
#[derive(Debug)]
pub struct VideoSource {
    pub source_type: String,
    pub data: String,
    pub media_type: Option<String>,
    pub duration_ms: Option<u64>,
}

/// Audio content.
#[derive(Debug)]
pub struct AudioSource {
    pub source_type: String,
    pub data: String,
    pub media_type: Option<String>,
    pub duration_ms: Option<u64>,
}

/// Document content (PDF, Word, ...).
#[derive(Debug)]
pub struct DocumentSource {
    pub source_type: String,
    pub data: String,
    pub media_type: Option<String>,
    pub title: Option<String>,
}

/// One part of a message's content.
#[derive(Debug)]
#[allow(inconsistent_fields)]
pub enum ContentPart {
    Text { text: String },
    Thinking { text: String },
    ToolCall { content: ToolCall },
    ToolResult { content: ToolResult },
    Resource { content: Resource },
    ResourceRef { content: ResourceReference },
    PromptRequest { content: PromptRequest },
    PromptResult { content: PromptResult },
    Image { content: ImageSource },
    Video { content: VideoSource },
    Audio { content: AudioSource },
    Document { content: DocumentSource },
}

} // verus!
