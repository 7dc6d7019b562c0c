//! Host-provided, read-only extensions: request, agent, completion,
//! model, framework, MCP entity metadata, operational metadata and
//! provenance.

use vstd::prelude::*;

use crate::json::JsonValue;

verus! {

/// Execution environment and request tracing.
#[derive(Debug, Default)]
pub struct RequestExtension {
    pub environment: Option<String>,
    pub request_id: Option<String>,
    pub timestamp: Option<String>,
    pub trace_id: Option<String>,
    pub span_id: Option<String>,
}

/// Conversation history and summary.
#[derive(Debug, Default)]
pub struct ConversationContext {
    pub history: Vec<JsonValue>,
    pub summary: Option<String>,
    pub topics: Vec<String>,
}

/// Agent execution context: session, conversation, lineage.
#[derive(Debug, Default)]
pub struct AgentExtension {
    pub input: Option<String>,
    pub session_id: Option<String>,
    pub conversation_id: Option<String>,
    pub turn: Option<u32>,
    pub agent_id: Option<String>,
    pub parent_agent_id: Option<String>,
    pub conversation: Option<ConversationContext>,
}

/// Why a model stopped generating.
#[derive(Debug, Clone, Copy, PartialEq, Eq, Structural)]
pub enum StopReason {
    End,
    Return,
    Call,
    MaxTokens,
    StopSequence,
}

/// Token counts of a completion.
#[derive(Debug, Default, Clone, Copy)]
pub struct TokenUsage {
    pub input_tokens: u32,
    pub output_tokens: u32,
    pub total_tokens: u32,
}

/// Completion information from a model call.
#[derive(Debug, Default)]
pub struct CompletionExtension {
    pub stop_reason: Option<StopReason>,
    pub tokens: Option<TokenUsage>,
    pub model: Option<String>,
    pub raw_format: Option<String>,
    pub created_at: Option<String>,
    pub latency_ms: Option<u64>,
}

/// Model identity and capabilities.
#[derive(Debug, Default)]
pub struct LLMExtension {
    pub model_id: Option<String>,
    pub provider: Option<String>,
    pub capabilities: Vec<String>,
}

/// Agentic framework context.
#[derive(Debug, Default)]
pub struct FrameworkExtension {
    pub framework: Option<String>,
    pub framework_version: Option<String>,
    pub node_id: Option<String>,
    pub graph_id: Option<String>,
    pub metadata: Vec<(String, JsonValue)>,
}

/// Metadata of an MCP tool.
#[derive(Debug, Default)]
pub struct ToolMetadata {
    pub name: String,
    pub title: Option<String>,
    pub description: Option<String>,
    pub input_schema: Option<JsonValue>,
    pub output_schema: Option<JsonValue>,
    pub server_id: Option<String>,
    pub namespace: Option<String>,
    pub annotations: Vec<(String, JsonValue)>,
}

/// Metadata of an MCP resource.
#[derive(Debug, Default)]
pub struct ResourceMetadata {
    pub uri: String,
    pub name: Option<String>,
    pub description: Option<String>,
    pub mime_type: Option<String>,
    pub server_id: Option<String>,
    pub annotations: Vec<(String, JsonValue)>,
}

/// Metadata of an MCP prompt.
#[derive(Debug, Default)]
pub struct PromptMetadata {
    pub name: String,
    pub description: Option<String>,
    pub arguments: Option<Vec<JsonValue>>,
    pub server_id: Option<String>,
    pub annotations: Vec<(String, JsonValue)>,
}

/// MCP entity metadata.
#[derive(Debug, Default)]
pub struct MCPExtension {
    pub tool: Option<ToolMetadata>,
    pub resource: Option<ResourceMetadata>,
    pub prompt: Option<PromptMetadata>,
}

/// Host-provided operational metadata about the entity and request.
#[derive(Debug, Default)]
pub struct MetaExtension {
    /// `tool`, `resource`, `prompt` or `llm`.
    pub entity_type: Option<String>,
    pub entity_name: Option<String>,
    /// Runtime tags (a set).
    pub tags: Vec<String>,
    /// Host-defined scope (virtual server, namespace).
    pub scope: Option<String>,
    pub properties: Vec<(String, String)>,
}

/// Origin and message threading.
#[derive(Debug, Default)]
pub struct ProvenanceExtension {
    pub source: Option<String>,
    pub message_id: Option<String>,
    pub parent_id: Option<String>,
}

} // verus!
