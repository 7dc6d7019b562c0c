//! Roles, channels, content types and resource types.

use vstd::prelude::*;

verus! {

/// Who produced a message.
#[derive(Debug, Clone, Copy, PartialEq, Eq, Structural)]
pub enum Role {
    System,
    Developer,
    User,
    Assistant,
    Tool,
}

/// Output channel of an assistant message.
#[derive(Debug, Clone, Copy, PartialEq, Eq, Structural)]
pub enum Channel {
    Analysis,
    Commentary,
    Final,
}

/// Kind of a content part.
#[derive(Debug, Clone, Copy, PartialEq, Eq, Structural)]
pub enum ContentType {
    Text,
    Thinking,
    ToolCall,
    ToolResult,
    Resource,
    ResourceRef,
    PromptRequest,
    PromptResult,
    Image,
    Video,
    Audio,
    Document,
}

/// Kind of a resource.
#[derive(Debug, Clone, Copy, PartialEq, Eq, Structural, Default)]
pub enum ResourceType {
    #[default]
    File,
    Blob,
    Uri,
    Database,
    Api,
    Memory,
    Artifact,
}

/// The snake_case name of a role.
pub open spec fn role_name(r: Role) -> Seq<char> {
    match r {
        Role::System => "system"@,
        Role::Developer => "developer"@,
        Role::User => "user"@,
        Role::Assistant => "assistant"@,
        Role::Tool => "tool"@,
    }
}

impl Role {
    /// The snake_case name of the role.
    pub fn as_str(&self) -> (s: &'static str)
        ensures
            s@ == role_name(*self),
    {
        match self {
            Role::System => "system",
            Role::Developer => "developer",
            Role::User => "user",
            Role::Assistant => "assistant",
            Role::Tool => "tool",
        }
    }
}

} // verus!
