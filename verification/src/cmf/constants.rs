//! Schema version and the field names of message views.

use vstd::prelude::*;

verus! {

/// Version of the message schema.
pub const SCHEMA_VERSION: &'static str = "2.0";

pub const FIELD_KIND: &'static str = "kind";
pub const FIELD_ROLE: &'static str = "role";
pub const FIELD_IS_PRE: &'static str = "is_pre";
pub const FIELD_IS_POST: &'static str = "is_post";
pub const FIELD_ACTION: &'static str = "action";
pub const FIELD_HOOK: &'static str = "hook";
pub const FIELD_URI: &'static str = "uri";
pub const FIELD_NAME: &'static str = "name";
pub const FIELD_CONTENT: &'static str = "content";
pub const FIELD_SIZE_BYTES: &'static str = "size_bytes";
pub const FIELD_MIME_TYPE: &'static str = "mime_type";
pub const FIELD_ARGUMENTS: &'static str = "arguments";
pub const FIELD_EXTENSIONS: &'static str = "extensions";
pub const FIELD_SUBJECT: &'static str = "subject";
pub const FIELD_ID: &'static str = "id";
pub const FIELD_TYPE: &'static str = "type";
pub const FIELD_ROLES: &'static str = "roles";
pub const FIELD_PERMISSIONS: &'static str = "permissions";
pub const FIELD_TEAMS: &'static str = "teams";
pub const FIELD_LABELS: &'static str = "labels";
pub const FIELD_ENVIRONMENT: &'static str = "environment";
pub const FIELD_HEADERS: &'static str = "headers";
pub const FIELD_AGENT: &'static str = "agent";
pub const FIELD_INPUT: &'static str = "input";
pub const FIELD_SESSION_ID: &'static str = "session_id";
pub const FIELD_CONVERSATION_ID: &'static str = "conversation_id";
pub const FIELD_TURN: &'static str = "turn";
pub const FIELD_AGENT_ID: &'static str = "agent_id";
pub const FIELD_PARENT_AGENT_ID: &'static str = "parent_agent_id";
pub const FIELD_META: &'static str = "meta";
pub const FIELD_ENTITY_TYPE: &'static str = "entity_type";
pub const FIELD_ENTITY_NAME: &'static str = "entity_name";
pub const FIELD_TAGS: &'static str = "tags";
pub const FIELD_OPA_INPUT: &'static str = "input";

} // verus!
