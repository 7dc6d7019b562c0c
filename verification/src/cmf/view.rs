//! Per-part views of a message for policy evaluation: what kind of
//! thing a part is, what action it stands for, and a flat dictionary of
//! its properties and of the request's context.

use vstd::prelude::*;
use vstd::string::*;

use crate::cmf::content::ContentPart;
use crate::cmf::enums::{ContentType, Role, role_name};
use crate::cmf::message::Message;
use crate::extensions::container::Extensions;
use crate::extensions::http::header_value;
use crate::extensions::monotonic::has_label_spec;
use crate::extensions::records::{AgentExtension, MetaExtension, RequestExtension};
use crate::extensions::security::{SecurityExtension, SubjectExtension, SubjectType};
use crate::json::{JsonValue, JsonView, json_view_members};
use crate::text::{has_substring, contains_str, strs_view, sorted_set, sorted_set_of, str_eq,
    lemma_sorted_set, lex_lt,
    to_lowercase, unicode_lowercase, decimal, push_decimal, opt_str_view};

verus! {

/// What kind of thing a content part is.
#[derive(Debug, Clone, Copy, PartialEq, Eq, Structural)]
pub enum ViewKind {
    Text,
    Thinking,
    ToolCall,
    ToolResult,
    Resource,
    ResourceRef,
    PromptRequest,
    PromptResult,
    Image,
    Video,
    Audio,
    Document,
}

/// The action a content part stands for.
#[derive(Debug, Clone, Copy, PartialEq, Eq, Structural)]
pub enum ViewAction {
    Read,
    Write,
    Execute,
    Invoke,
    Send,
    Receive,
    Generate,
}

/// The view kind of each content type.
pub open spec fn kind_of_type(ct: ContentType) -> ViewKind {
    match ct {
        ContentType::Text => ViewKind::Text,
        ContentType::Thinking => ViewKind::Thinking,
        ContentType::ToolCall => ViewKind::ToolCall,
        ContentType::ToolResult => ViewKind::ToolResult,
        ContentType::Resource => ViewKind::Resource,
        ContentType::ResourceRef => ViewKind::ResourceRef,
        ContentType::PromptRequest => ViewKind::PromptRequest,
        ContentType::PromptResult => ViewKind::PromptResult,
        ContentType::Image => ViewKind::Image,
        ContentType::Video => ViewKind::Video,
        ContentType::Audio => ViewKind::Audio,
        ContentType::Document => ViewKind::Document,
    }
}

/// The action a kind of part stands for: tool calls execute, results
/// are received, resources read, prompt requests invoke; text, thinking
/// and media depend on who produced them (user: send, assistant:
/// generate, tool: receive, system or developer: write).
pub open spec fn action_of(k: ViewKind, role: Role) -> ViewAction {
    match k {
        ViewKind::ToolCall => ViewAction::Execute,
        ViewKind::ToolResult => ViewAction::Receive,
        ViewKind::Resource | ViewKind::ResourceRef => ViewAction::Read,
        ViewKind::PromptRequest => ViewAction::Invoke,
        ViewKind::PromptResult => ViewAction::Receive,
        _ => match role {
            Role::User => ViewAction::Send,
            Role::Assistant => ViewAction::Generate,
            Role::Tool => ViewAction::Receive,
            Role::System | Role::Developer => ViewAction::Write,
        },
    }
}

/// The snake_case name of a kind.
pub open spec fn kind_name(k: ViewKind) -> Seq<char> {
    match k {
        ViewKind::Text => "text"@,
        ViewKind::Thinking => "thinking"@,
        ViewKind::ToolCall => "tool_call"@,
        ViewKind::ToolResult => "tool_result"@,
        ViewKind::Resource => "resource"@,
        ViewKind::ResourceRef => "resource_ref"@,
        ViewKind::PromptRequest => "prompt_request"@,
        ViewKind::PromptResult => "prompt_result"@,
        ViewKind::Image => "image"@,
        ViewKind::Video => "video"@,
        ViewKind::Audio => "audio"@,
        ViewKind::Document => "document"@,
    }
}

/// The snake_case name of an action.
pub open spec fn action_name(a: ViewAction) -> Seq<char> {
    match a {
        ViewAction::Read => "read"@,
        ViewAction::Write => "write"@,
        ViewAction::Execute => "execute"@,
        ViewAction::Invoke => "invoke"@,
        ViewAction::Send => "send"@,
        ViewAction::Receive => "receive"@,
        ViewAction::Generate => "generate"@,
    }
}

/// What each kind of part does: only tool calls execute; tool and
/// prompt results are received whoever carries them; only resources and
/// resource references are read; only prompt requests invoke. Text,
/// thinking and media parts take their action from their producer alone:
/// a user sends, an assistant generates, a tool's output is received,
/// and a system or developer writes.
pub proof fn lemma_view_actions(part: ContentPart, k: ViewKind, role: Role)
    ensures
        action_of(k, role) == ViewAction::Execute <==> k == ViewKind::ToolCall,
        action_of(k, role) == ViewAction::Read <==> (k == ViewKind::Resource || k == ViewKind::ResourceRef),
        action_of(k, role) == ViewAction::Invoke <==> k == ViewKind::PromptRequest,
        (k == ViewKind::ToolResult || k == ViewKind::PromptResult) ==> action_of(k, role) == ViewAction::Receive,
        part is ToolResult ==> action_of(kind_of(part), role) == ViewAction::Receive
            && action_name(action_of(kind_of(part), role)) == "receive"@,
        part is ToolCall ==> action_of(kind_of(part), role) == ViewAction::Execute
            && action_name(action_of(kind_of(part), role)) == "execute"@,
        action_name(ViewAction::Read) == "read"@ && action_name(ViewAction::Write) == "write"@
            && action_name(ViewAction::Execute) == "execute"@ && action_name(ViewAction::Invoke) == "invoke"@
            && action_name(ViewAction::Send) == "send"@ && action_name(ViewAction::Receive) == "receive"@
            && action_name(ViewAction::Generate) == "generate"@,
        (k == ViewKind::Text || k == ViewKind::Thinking || k == ViewKind::Image || k == ViewKind::Video
            || k == ViewKind::Audio || k == ViewKind::Document) ==> {
            &&& action_of(k, role) == action_of(ViewKind::Text, role)
            &&& (action_of(k, role) == ViewAction::Send <==> role == Role::User)
            &&& (action_of(k, role) == ViewAction::Generate <==> role == Role::Assistant)
            &&& (action_of(k, role) == ViewAction::Receive <==> role == Role::Tool)
            &&& (action_of(k, role) == ViewAction::Write <==> (role == Role::System || role == Role::Developer))
        },
{
}

impl ViewKind {
    /// The view kind of a content type.
    pub fn from_content_type(ct: ContentType) -> (k: ViewKind)
        ensures
            k == kind_of_type(ct),
    {
        match ct {
            ContentType::Text => ViewKind::Text,
            ContentType::Thinking => ViewKind::Thinking,
            ContentType::ToolCall => ViewKind::ToolCall,
            ContentType::ToolResult => ViewKind::ToolResult,
            ContentType::Resource => ViewKind::Resource,
            ContentType::ResourceRef => ViewKind::ResourceRef,
            ContentType::PromptRequest => ViewKind::PromptRequest,
            ContentType::PromptResult => ViewKind::PromptResult,
            ContentType::Image => ViewKind::Image,
            ContentType::Video => ViewKind::Video,
            ContentType::Audio => ViewKind::Audio,
            ContentType::Document => ViewKind::Document,
        }
    }

    /// The action this kind of part stands for, given its producer.
    pub fn default_action(&self, role: Role) -> (a: ViewAction)
        ensures
            a == action_of(*self, role),
    {
        match self {
            ViewKind::ToolCall => ViewAction::Execute,
            ViewKind::ToolResult => ViewAction::Receive,
            ViewKind::Resource | ViewKind::ResourceRef => ViewAction::Read,
            ViewKind::PromptRequest => ViewAction::Invoke,
            ViewKind::PromptResult => ViewAction::Receive,
            ViewKind::Text | ViewKind::Thinking | ViewKind::Image | ViewKind::Video | ViewKind::Audio
            | ViewKind::Document => match role {
                Role::User => ViewAction::Send,
                Role::Assistant => ViewAction::Generate,
                Role::Tool => ViewAction::Receive,
                Role::System | Role::Developer => ViewAction::Write,
            },
        }
    }

    /// Tool call or tool result.
    pub fn is_tool(&self) -> (r: bool)
        ensures
            r == (*self == ViewKind::ToolCall || *self == ViewKind::ToolResult),
    {
        matches!(self, ViewKind::ToolCall | ViewKind::ToolResult)
    }

    /// Resource or resource reference.
    pub fn is_resource(&self) -> (r: bool)
        ensures
            r == (*self == ViewKind::Resource || *self == ViewKind::ResourceRef),
    {
        matches!(self, ViewKind::Resource | ViewKind::ResourceRef)
    }

    /// Prompt request or prompt result.
    pub fn is_prompt(&self) -> (r: bool)
        ensures
            r == (*self == ViewKind::PromptRequest || *self == ViewKind::PromptResult),
    {
        matches!(self, ViewKind::PromptRequest | ViewKind::PromptResult)
    }

    /// Image, video, audio or document.
    pub fn is_media(&self) -> (r: bool)
        ensures
            r == (*self == ViewKind::Image || *self == ViewKind::Video || *self == ViewKind::Audio
                || *self == ViewKind::Document),
    {
        matches!(self, ViewKind::Image | ViewKind::Video | ViewKind::Audio | ViewKind::Document)
    }

    /// Text or thinking.
    pub fn is_text(&self) -> (r: bool)
        ensures
            r == (*self == ViewKind::Text || *self == ViewKind::Thinking),
    {
        matches!(self, ViewKind::Text | ViewKind::Thinking)
    }

    /// The snake_case name of the kind.
    pub fn as_str(&self) -> (s: &'static str)
        ensures
            s@ == kind_name(*self),
    {
        match self {
            ViewKind::Text => "text",
            ViewKind::Thinking => "thinking",
            ViewKind::ToolCall => "tool_call",
            ViewKind::ToolResult => "tool_result",
            ViewKind::Resource => "resource",
            ViewKind::ResourceRef => "resource_ref",
            ViewKind::PromptRequest => "prompt_request",
            ViewKind::PromptResult => "prompt_result",
            ViewKind::Image => "image",
            ViewKind::Video => "video",
            ViewKind::Audio => "audio",
            ViewKind::Document => "document",
        }
    }
}

impl ViewAction {
    /// The snake_case name of the action.
    pub fn as_str(&self) -> (s: &'static str)
        ensures
            s@ == action_name(*self),
    {
        match self {
            ViewAction::Read => "read",
            ViewAction::Write => "write",
            ViewAction::Execute => "execute",
            ViewAction::Invoke => "invoke",
            ViewAction::Send => "send",
            ViewAction::Receive => "receive",
            ViewAction::Generate => "generate",
        }
    }
}

/// The kind of a content part.
pub open spec fn kind_of(p: ContentPart) -> ViewKind {
    match p {
        ContentPart::Text { .. } => ViewKind::Text,
        ContentPart::Thinking { .. } => ViewKind::Thinking,
        ContentPart::ToolCall { .. } => ViewKind::ToolCall,
        ContentPart::ToolResult { .. } => ViewKind::ToolResult,
        ContentPart::Resource { .. } => ViewKind::Resource,
        ContentPart::ResourceRef { .. } => ViewKind::ResourceRef,
        ContentPart::PromptRequest { .. } => ViewKind::PromptRequest,
        ContentPart::PromptResult { .. } => ViewKind::PromptResult,
        ContentPart::Image { .. } => ViewKind::Image,
        ContentPart::Video { .. } => ViewKind::Video,
        ContentPart::Audio { .. } => ViewKind::Audio,
        ContentPart::Document { .. } => ViewKind::Document,
    }
}

/// The text content of a part: text and thinking parts, a tool result
/// whose content is a JSON string, a resource's or prompt result's
/// embedded text.
pub open spec fn content_of(p: ContentPart) -> Option<Seq<char>> {
    match p {
        ContentPart::Text { text } => Some(text@),
        ContentPart::Thinking { text } => Some(text@),
        ContentPart::ToolResult { content } => match content.content@ {
            JsonView::Str(s) => Some(s),
            _ => None,
        },
        ContentPart::Resource { content } => opt_str_view(content.content),
        ContentPart::PromptResult { content } => opt_str_view(content.content),
        _ => None,
    }
}

/// The name of the entity a part concerns: tool, resource (its name, or
/// its URI if unnamed) or prompt.
pub open spec fn name_of(p: ContentPart) -> Option<Seq<char>> {
    match p {
        ContentPart::ToolCall { content } => Some(content.name@),
        ContentPart::ToolResult { content } => Some(content.tool_name@),
        ContentPart::Resource { content } => match content.name {
            Some(n) => Some(n@),
            None => Some(content.uri@),
        },
        ContentPart::ResourceRef { content } => match content.name {
            Some(n) => Some(n@),
            None => Some(content.uri@),
        },
        ContentPart::PromptRequest { content } => Some(content.name@),
        ContentPart::PromptResult { content } => Some(content.prompt_name@),
        _ => None,
    }
}

/// The URI of the entity a part concerns: `tool://_/<name>` for a tool
/// call, `prompt://_/<name>` for a prompt request, a resource's own URI.
pub open spec fn uri_of(p: ContentPart) -> Option<Seq<char>> {
    match p {
        ContentPart::ToolCall { content } => Some("tool://_/"@ + content.name@),
        ContentPart::Resource { content } => Some(content.uri@),
        ContentPart::ResourceRef { content } => Some(content.uri@),
        ContentPart::PromptRequest { content } => Some("prompt://_/"@ + content.name@),
        _ => None,
    }
}

/// The arguments of a tool call or prompt request.
pub open spec fn args_of(p: ContentPart) -> Option<Seq<(String, JsonValue)>> {
    match p {
        ContentPart::ToolCall { content } => Some(content.arguments@),
        ContentPart::PromptRequest { content } => Some(content.arguments@),
        _ => None,
    }
}

/// The MIME type of a resource or media part.
pub open spec fn mime_of(p: ContentPart) -> Option<Seq<char>> {
    match p {
        ContentPart::Resource { content } => opt_str_view(content.mime_type),
        ContentPart::Image { content } => opt_str_view(content.media_type),
        ContentPart::Video { content } => opt_str_view(content.media_type),
        ContentPart::Audio { content } => opt_str_view(content.media_type),
        ContentPart::Document { content } => opt_str_view(content.media_type),
        _ => None,
    }
}

/// Whether a part reports an error.
pub open spec fn error_of(p: ContentPart) -> bool {
    match p {
        ContentPart::ToolResult { content } => content.is_error,
        ContentPart::PromptResult { content } => content.is_error,
        _ => false,
    }
}

/// The keys and values of an argument list.
pub open spec fn member_pairs(a: Seq<(String, JsonValue)>) -> Seq<(Seq<char>, JsonView)> {
    a.map_values(|e: (String, JsonValue)| (e.0@, e.1@))
}

/// A read-only view of one content part, with the message's role, the
/// hook it is seen at, and the request's extensions.
pub struct MessageView<'a> {
    part: &'a ContentPart,
    kind: ViewKind,
    role: Role,
    hook: Option<&'a str>,
    extensions: Option<&'a Extensions>,
}

impl<'a> MessageView<'a> {
    pub closed spec fn spec_part(&self) -> ContentPart {
        *self.part
    }

    pub closed spec fn spec_role(&self) -> Role {
        self.role
    }

    pub closed spec fn spec_hook(&self) -> Option<Seq<char>> {
        match self.hook {
            Some(h) => Some(h@),
            None => None,
        }
    }

    pub closed spec fn spec_extensions(&self) -> Option<Extensions> {
        match self.extensions {
            Some(e) => Some(*e),
            None => None,
        }
    }

    pub closed spec fn spec_kind(&self) -> ViewKind {
        self.kind
    }

    pub closed spec fn wf(&self) -> bool {
        self.kind == kind_of(*self.part)
    }

    /// A view of a part.
    pub fn new(part: &'a ContentPart, role: Role, hook: Option<&'a str>, extensions: Option<&'a Extensions>)
        -> (v: MessageView<'a>)
        ensures
            v.wf(),
            v.spec_part() == *part,
            v.spec_role() == role,
            v.spec_hook() == match hook { Some(h) => Some(h@), None => None::<Seq<char>> },
            v.spec_extensions() == match extensions { Some(e) => Some(*e), None => None::<Extensions> },
    {
        let kind = match part {
            ContentPart::Text { .. } => ViewKind::Text,
            ContentPart::Thinking { .. } => ViewKind::Thinking,
            ContentPart::ToolCall { .. } => ViewKind::ToolCall,
            ContentPart::ToolResult { .. } => ViewKind::ToolResult,
            ContentPart::Resource { .. } => ViewKind::Resource,
            ContentPart::ResourceRef { .. } => ViewKind::ResourceRef,
            ContentPart::PromptRequest { .. } => ViewKind::PromptRequest,
            ContentPart::PromptResult { .. } => ViewKind::PromptResult,
            ContentPart::Image { .. } => ViewKind::Image,
            ContentPart::Video { .. } => ViewKind::Video,
            ContentPart::Audio { .. } => ViewKind::Audio,
            ContentPart::Document { .. } => ViewKind::Document,
        };
        MessageView { part, kind, role, hook, extensions }
    }

    /// The kind of the part.
    pub fn kind(&self) -> (k: ViewKind)
        requires
            self.wf(),
        ensures
            k == kind_of(self.spec_part()),
    {
        self.kind
    }

    /// The role of the message.
    pub fn role(&self) -> (r: Role)
        ensures
            r == self.spec_role(),
    {
        self.role
    }

    /// The part itself.
    pub fn raw(&self) -> (p: &'a ContentPart)
        ensures
            *p == self.spec_part(),
    {
        self.part
    }

    /// The hook the part is seen at.
    pub fn hook(&self) -> (h: Option<&'a str>)
        ensures
            match h { Some(x) => Some(x@), None => None::<Seq<char>> } == self.spec_hook(),
    {
        self.hook
    }

    /// The action the part stands for.
    pub fn action(&self) -> (a: ViewAction)
        requires
            self.wf(),
        ensures
            a == action_of(kind_of(self.spec_part()), self.spec_role()),
    {
        self.kind.default_action(self.role)
    }

    /// Whether the hook is a "pre" hook (its name contains `pre`).
    pub fn is_pre(&self) -> (r: bool)
        ensures
            r == (self.spec_hook() matches Some(h) && has_substring(h, "pre"@)),
    {
        match self.hook {
            Some(h) => contains_str(h, "pre"),
            None => false,
        }
    }

    /// Whether the hook is a "post" hook (its name contains `post`).
    pub fn is_post(&self) -> (r: bool)
        ensures
            r == (self.spec_hook() matches Some(h) && has_substring(h, "post"@)),
    {
        match self.hook {
            Some(h) => contains_str(h, "post"),
            None => false,
        }
    }

    /// The part's text content (see `content_of`).
    pub fn content(&self) -> (r: Option<&'a str>)
        ensures
            match r { Some(x) => Some(x@), None => None::<Seq<char>> } == content_of(self.spec_part()),
    {
        match self.part {
            ContentPart::Text { text } => Some(text.as_str()),
            ContentPart::Thinking { text } => Some(text.as_str()),
            ContentPart::ToolResult { content } => match &content.content {
                JsonValue::Str(s) => Some(s.as_str()),
                _ => None,
            },
            ContentPart::Resource { content } => match &content.content {
                Some(c) => Some(c.as_str()),
                None => None,
            },
            ContentPart::PromptResult { content } => match &content.content {
                Some(c) => Some(c.as_str()),
                None => None,
            },
            _ => None,
        }
    }

    /// The entity name (see `name_of`).
    pub fn name(&self) -> (r: Option<&'a str>)
        ensures
            match r { Some(x) => Some(x@), None => None::<Seq<char>> } == name_of(self.spec_part()),
    {
        match self.part {
            ContentPart::ToolCall { content } => Some(content.name.as_str()),
            ContentPart::ToolResult { content } => Some(content.tool_name.as_str()),
            ContentPart::Resource { content } => match &content.name {
                Some(n) => Some(n.as_str()),
                None => Some(content.uri.as_str()),
            },
            ContentPart::ResourceRef { content } => match &content.name {
                Some(n) => Some(n.as_str()),
                None => Some(content.uri.as_str()),
            },
            ContentPart::PromptRequest { content } => Some(content.name.as_str()),
            ContentPart::PromptResult { content } => Some(content.prompt_name.as_str()),
            _ => None,
        }
    }

    /// The entity URI (see `uri_of`).
    pub fn uri(&self) -> (r: Option<String>)
        ensures
            crate::text::opt_str_view(r) == uri_of(self.spec_part()),
    {
        match self.part {
            ContentPart::ToolCall { content } => {
                let mut s = String::from_str("tool://_/");
                s.append(content.name.as_str());
                Some(s)
            },
            ContentPart::Resource { content } => Some(content.uri.clone()),
            ContentPart::ResourceRef { content } => Some(content.uri.clone()),
            ContentPart::PromptRequest { content } => {
                let mut s = String::from_str("prompt://_/");
                s.append(content.name.as_str());
                Some(s)
            },
            _ => None,
        }
    }

    /// The arguments of a tool call or prompt request.
    pub fn args(&self) -> (r: Option<&'a Vec<(String, JsonValue)>>)
        ensures
            match r { Some(a) => Some(a@), None => None::<Seq<(String, JsonValue)>> } == args_of(self.spec_part()),
    {
        match self.part {
            ContentPart::ToolCall { content } => Some(&content.arguments),
            ContentPart::PromptRequest { content } => Some(&content.arguments),
            _ => None,
        }
    }

    /// The argument named `name`, if any (the first so named).
    pub fn get_arg(&self, name: &str) -> (r: Option<&'a JsonValue>)
        ensures
            match args_of(self.spec_part()) {
                None => r is None,
                Some(a) => match crate::assoc::assoc_get(member_pairs(a), name@) {
                    None => r is None,
                    Some(v) => r matches Some(x) && x@ == v,
                },
            },
    {
        match self.args() {
            None => None,
            Some(a) => {
                let ghost s = member_pairs(a@);
                let mut i: usize = 0;
                while i < a.len()
                    invariant
                        i <= a.len(),
                        s == member_pairs(a@),
                        args_of(self.spec_part()) == Some(a@),
                        forall|j: int| 0 <= j < i ==> s[j].0 != name@,
                    decreases a.len() - i,
                {
                    assert(s[i as int] == (a@[i as int].0@, a@[i as int].1@));
                    if str_eq(a[i].0.as_str(), name) {
                        proof {
                            crate::assoc::lemma_assoc_get_index(s, name@, i as int);
                        }
                        assert(args_of(self.spec_part()) == Some(a@));
                        assert(crate::assoc::assoc_get(member_pairs(a@), name@) == Some(a@[i as int].1@));
                        return Some(&a[i].1);
                    }
                    i += 1;
                }
                proof {
                    crate::assoc::lemma_assoc_get_absent(s, name@);
                }
                None
            },
        }
    }

    /// Whether there is an argument named `name`.
    pub fn has_arg(&self, name: &str) -> (r: bool)
        ensures
            r == (args_of(self.spec_part()) matches Some(a)
                && crate::assoc::assoc_get(member_pairs(a), name@) is Some),
    {
        self.get_arg(name).is_some()
    }

    /// The MIME type (see `mime_of`).
    pub fn mime_type(&self) -> (r: Option<&'a str>)
        ensures
            match r { Some(x) => Some(x@), None => None::<Seq<char>> } == mime_of(self.spec_part()),
    {
        let m = match self.part {
            ContentPart::Resource { content } => &content.mime_type,
            ContentPart::Image { content } => &content.media_type,
            ContentPart::Video { content } => &content.media_type,
            ContentPart::Audio { content } => &content.media_type,
            ContentPart::Document { content } => &content.media_type,
            _ => {
                return None;
            },
        };
        match m {
            Some(x) => Some(x.as_str()),
            None => None,
        }
    }

    /// Whether the part reports an error.
    pub fn is_error(&self) -> (r: bool)
        ensures
            r == error_of(self.spec_part()),
    {
        match self.part {
            ContentPart::ToolResult { content } => content.is_error,
            ContentPart::PromptResult { content } => content.is_error,
            _ => false,
        }
    }

    pub fn is_tool(&self) -> (r: bool)
        requires
            self.wf(),
        ensures
            r == (kind_of(self.spec_part()) == ViewKind::ToolCall || kind_of(self.spec_part()) == ViewKind::ToolResult),
    {
        self.kind.is_tool()
    }

    pub fn is_resource(&self) -> (r: bool)
        requires
            self.wf(),
        ensures
            r == (kind_of(self.spec_part()) == ViewKind::Resource || kind_of(self.spec_part()) == ViewKind::ResourceRef),
    {
        self.kind.is_resource()
    }

    pub fn is_prompt(&self) -> (r: bool)
        requires
            self.wf(),
        ensures
            r == (kind_of(self.spec_part()) == ViewKind::PromptRequest
                || kind_of(self.spec_part()) == ViewKind::PromptResult),
    {
        self.kind.is_prompt()
    }

    pub fn is_media(&self) -> (r: bool)
        requires
            self.wf(),
        ensures
            r == (kind_of(self.spec_part()) == ViewKind::Image || kind_of(self.spec_part()) == ViewKind::Video
                || kind_of(self.spec_part()) == ViewKind::Audio || kind_of(self.spec_part()) == ViewKind::Document),
    {
        self.kind.is_media()
    }

    pub fn is_text(&self) -> (r: bool)
        requires
            self.wf(),
        ensures
            r == (kind_of(self.spec_part()) == ViewKind::Text || kind_of(self.spec_part()) == ViewKind::Thinking),
    {
        self.kind.is_text()
    }

    /// The request's extensions.
    pub fn extensions(&self) -> (r: Option<&'a Extensions>)
        ensures
            match r { Some(e) => Some(*e), None => None::<Extensions> } == self.spec_extensions(),
    {
        self.extensions
    }

    /// Whether the request carries a security label, ignoring case.
    pub fn has_label(&self, label: &str) -> (r: bool)
        ensures
            r == (self.spec_extensions() matches Some(e) && e.security matches Some(s)
                && has_label_spec(s.labels@, label@)),
    {
        match self.extensions {
            Some(e) => match &e.security {
                Some(s) => s.has_label(label),
                None => false,
            },
            None => false,
        }
    }

    /// The value of a request header.
    pub fn get_header(&self, name: &str) -> (r: Option<&'a str>)
        ensures
            match r { Some(x) => Some(x@), None => None::<Seq<char>> } == match self.spec_extensions() {
                Some(e) => match e.http {
                    Some(h) => header_value(h.request_headers@, name@),
                    None => None,
                },
                None => None,
            },
    {
        match self.extensions {
            Some(e) => match &e.http {
                Some(h) => h.get_header(name),
                None => None,
            },
            None => None,
        }
    }
}

/// Views of every part of a message, in order.
pub fn iter_views<'a>(message: &'a Message, hook: Option<&'a str>, extensions: Option<&'a Extensions>)
    -> (r: Vec<MessageView<'a>>)
    ensures
        r@.len() == message.content@.len(),
        forall|i: int| 0 <= i < r@.len() ==> {
            let v = #[trigger] r@[i];
            &&& v.wf()
            &&& v.spec_part() == message.content@[i]
            &&& v.spec_role() == message.role
            &&& v.spec_hook() == match hook { Some(h) => Some(h@), None => None::<Seq<char>> }
            &&& v.spec_extensions() == match extensions { Some(e) => Some(*e), None => None::<Extensions> }
        },
{
    let mut out: Vec<MessageView<'a>> = Vec::new();
    let mut i: usize = 0;
    while i < message.content.len()
        invariant
            i <= message.content.len(),
            out@.len() == i,
            forall|j: int| 0 <= j < i ==> {
                let v = #[trigger] out@[j];
                &&& v.wf()
                &&& v.spec_part() == message.content@[j]
                &&& v.spec_role() == message.role
                &&& v.spec_hook() == match hook { Some(h) => Some(h@), None => None::<Seq<char>> }
                &&& v.spec_extensions() == match extensions { Some(e) => Some(*e), None => None::<Extensions> }
            },
        decreases message.content.len() - i,
    {
        out.push(MessageView::new(&message.content[i], message.role, hook, extensions));
        i += 1;
    }
    out
}

impl Message {
    /// Views of every part of this message, in order.
    pub fn iter_views<'a>(&'a self, hook: Option<&'a str>, extensions: Option<&'a Extensions>)
        -> (r: Vec<MessageView<'a>>)
        ensures
            r@.len() == self.content@.len(),
            forall|i: int| 0 <= i < r@.len() ==> {
                let v = #[trigger] r@[i];
                &&& v.wf()
                &&& v.spec_part() == self.content@[i]
                &&& v.spec_role() == self.role
            },
    {
        iter_views(self, hook, extensions)
    }
}

// ---------------------------------------------------------------------------
// Dictionary form
// ---------------------------------------------------------------------------

/// Members of a JSON object, in order.
pub type Members = Seq<(Seq<char>, JsonView)>;

/// A member for an optional string.
pub open spec fn opt_str_member(key: Seq<char>, v: Option<Seq<char>>) -> Members {
    match v {
        Some(x) => seq![(key, JsonView::Str(x))],
        None => Seq::empty(),
    }
}

/// JSON strings, in order.
pub open spec fn str_items(s: Seq<Seq<char>>) -> Seq<JsonView>
    decreases s.len(),
{
    if s.len() == 0 {
        Seq::empty()
    } else {
        str_items(s.drop_last()).push(JsonView::Str(s.last()))
    }
}

/// A member holding the distinct strings in order, if there are any.
pub open spec fn sorted_member(key: Seq<char>, s: Seq<Seq<char>>) -> Members {
    if s.len() == 0 {
        Seq::empty()
    } else {
        seq![(key, JsonView::Array(str_items(sorted_set(s))))]
    }
}

/// A member holding an object, if it has any member.
pub open spec fn object_member(key: Seq<char>, m: Members) -> Members {
    if m.len() == 0 {
        Seq::empty()
    } else {
        seq![(key, JsonView::Object(m))]
    }
}

/// The snake_case name of a subject type.
pub open spec fn subject_type_name(t: SubjectType) -> Seq<char> {
    match t {
        SubjectType::User => "user"@,
        SubjectType::Agent => "agent"@,
        SubjectType::Service => "service"@,
        SubjectType::System => "system"@,
    }
}

/// The subject as seen in a view's context: id, type, and sorted roles,
/// permissions and teams (each only if present).
pub open spec fn subject_members(s: SubjectExtension) -> Members {
    opt_str_member("id"@, opt_str_view(s.id))
        + (match s.subject_type {
            Some(t) => seq![("type"@, JsonView::Str(subject_type_name(t)))],
            None => Seq::empty(),
        })
        + sorted_member("roles"@, strs_view(s.roles@))
        + sorted_member("permissions"@, strs_view(s.permissions@))
        + sorted_member("teams"@, strs_view(s.teams@))
}

/// The security context: the subject (if any of it shows) and the
/// sorted labels (if any).
pub open spec fn security_members(sec: SecurityExtension) -> Members {
    (match sec.subject {
        Some(s) => object_member("subject"@, subject_members(s)),
        None => Seq::empty(),
    }) + sorted_member("labels"@, sec.labels@)
}

/// Whether a header must not be shown: authorization, cookies and API
/// keys, in any case.
pub open spec fn sensitive_header(name: Seq<char>) -> bool {
    unicode_lowercase(name) == "authorization"@ || unicode_lowercase(name) == "cookie"@
        || unicode_lowercase(name) == "x-api-key"@
}

/// The headers that may be shown, in order.
pub open spec fn safe_headers(h: Seq<(String, String)>) -> Members
    decreases h.len(),
{
    if h.len() == 0 {
        Seq::empty()
    } else {
        safe_headers(h.drop_last()) + (if sensitive_header(h.last().0@) {
            Seq::empty()
        } else {
            seq![(h.last().0@, JsonView::Str(h.last().1@))]
        })
    }
}

/// The agent context.
pub open spec fn agent_members(a: AgentExtension) -> Members {
    opt_str_member("input"@, opt_str_view(a.input))
        + opt_str_member("session_id"@, opt_str_view(a.session_id))
        + opt_str_member("conversation_id"@, opt_str_view(a.conversation_id))
        + (match a.turn {
            Some(t) => seq![("turn"@, JsonView::Number(decimal(t as nat)))],
            None => Seq::empty(),
        })
        + opt_str_member("agent_id"@, opt_str_view(a.agent_id))
        + opt_str_member("parent_agent_id"@, opt_str_view(a.parent_agent_id))
}

/// The entity metadata.
pub open spec fn meta_members(m: MetaExtension) -> Members {
    opt_str_member("entity_type"@, opt_str_view(m.entity_type))
        + opt_str_member("entity_name"@, opt_str_view(m.entity_name))
        + sorted_member("tags"@, strs_view(m.tags@))
}

/// The request context of a view: security, environment, the headers
/// that may be shown, agent and entity metadata.
pub open spec fn context_members(e: Extensions) -> Members {
    (match e.security {
        Some(s) => security_members(*s),
        None => Seq::empty(),
    }) + (match e.request {
        Some(r) => opt_str_member("environment"@, opt_str_view(r.environment)),
        None => Seq::empty(),
    }) + (match e.http {
        Some(h) => object_member("headers"@, safe_headers(h.request_headers@)),
        None => Seq::empty(),
    }) + (match e.agent {
        Some(a) => object_member("agent"@, agent_members(*a)),
        None => Seq::empty(),
    }) + (match e.meta {
        Some(m) => object_member("meta"@, meta_members(*m)),
        None => Seq::empty(),
    })
}

/// The head of a view's dictionary: kind, role, phase flags and action,
/// then hook, URI and name when known.
pub open spec fn head_members(part: ContentPart, role: Role, hook: Option<Seq<char>>) -> Members {
    seq![
        ("kind"@, JsonView::Str(kind_name(kind_of(part)))),
        ("role"@, JsonView::Str(role_name(role))),
        ("is_pre"@, JsonView::Bool(hook matches Some(h) && has_substring(h, "pre"@))),
        ("is_post"@, JsonView::Bool(hook matches Some(h) && has_substring(h, "post"@))),
        ("action"@, JsonView::Str(action_name(action_of(kind_of(part), role)))),
    ]
        + opt_str_member("hook"@, hook)
        + opt_str_member("uri"@, uri_of(part))
        + opt_str_member("name"@, name_of(part))
}

/// The text content and its size in UTF-8 bytes, when asked for and
/// present.
pub open spec fn content_members(part: ContentPart, include_content: bool) -> Members {
    if include_content {
        match content_of(part) {
            Some(t) => seq![
                ("size_bytes"@, JsonView::Number(decimal((vstd::utf8::encode_utf8(t).len() as usize) as nat))),
                ("content"@, JsonView::Str(t)),
            ],
            None => Seq::empty(),
        }
    } else {
        Seq::empty()
    }
}

/// The body of a view's dictionary: content (when asked for), then MIME
/// type and arguments when present.
pub open spec fn body_members(part: ContentPart, include_content: bool) -> Members {
    content_members(part, include_content)
        + opt_str_member("mime_type"@, mime_of(part))
        + (match args_of(part) {
            Some(a) => seq![("arguments"@, JsonView::Object(member_pairs(a)))],
            None => Seq::empty(),
        })
}

/// The request context of a view's dictionary, when asked for.
pub open spec fn context_part(ext: Option<Extensions>, include_context: bool) -> Members {
    if include_context {
        match ext {
            Some(e) => object_member("extensions"@, context_members(e)),
            None => Seq::empty(),
        }
    } else {
        Seq::empty()
    }
}

/// The dictionary of a view: its head, its body and its request context.
pub open spec fn dict_members(part: ContentPart, role: Role, hook: Option<Seq<char>>, ext: Option<Extensions>,
    include_content: bool, include_context: bool) -> Members
{
    head_members(part, role, hook) + body_members(part, include_content) + context_part(ext, include_context)
}

/// Whether some member has key `k`.
pub open spec fn has_key(m: Members, k: Seq<char>) -> bool {
    exists|i: int| 0 <= i < m.len() && (#[trigger] m[i]).0 == k
}

proof fn lemma_has_key_concat(a: Members, b: Members, k: Seq<char>)
    ensures
        has_key(a + b, k) <==> (has_key(a, k) || has_key(b, k)),
{
    if has_key(a + b, k) {
        let i = choose|i: int| 0 <= i < (a + b).len() && (#[trigger] (a + b)[i]).0 == k;
        if i < a.len() {
            assert(a[i] == (a + b)[i]);
        } else {
            assert(b[i - a.len()] == (a + b)[i]);
        }
    }
    if has_key(a, k) {
        let i = choose|i: int| 0 <= i < a.len() && (#[trigger] a[i]).0 == k;
        assert((a + b)[i] == a[i]);
    }
    if has_key(b, k) {
        let i = choose|i: int| 0 <= i < b.len() && (#[trigger] b[i]).0 == k;
        assert((a + b)[a.len() + i] == b[i]);
    }
}

/// Whether a view's dictionary has a member with key `k`, read off the
/// view: the five head members always; each optional member when the view
/// has its value; content and its size when asked for and present; the
/// request context when asked for and not empty.
pub open spec fn dict_key_present(part: ContentPart, role: Role, hook: Option<Seq<char>>, ext: Option<Extensions>,
    include_content: bool, include_context: bool, k: Seq<char>) -> bool
{
    ||| k == "kind"@ || k == "role"@ || k == "is_pre"@ || k == "is_post"@ || k == "action"@
    ||| hook is Some && k == "hook"@
    ||| uri_of(part) is Some && k == "uri"@
    ||| name_of(part) is Some && k == "name"@
    ||| include_content && content_of(part) is Some && (k == "size_bytes"@ || k == "content"@)
    ||| mime_of(part) is Some && k == "mime_type"@
    ||| args_of(part) is Some && k == "arguments"@
    ||| include_context && ext is Some && context_members(ext->0).len() > 0 && k == "extensions"@
}

proof fn lemma_single_key(m: Members, key: Seq<char>, k: Seq<char>)
    requires
        forall|i: int| 0 <= i < m.len() ==> (#[trigger] m[i]).0 == key,
    ensures
        has_key(m, k) <==> (m.len() > 0 && key == k),
{
    if m.len() > 0 && key == k {
        assert(m[0].0 == k);
    }
}

proof fn lemma_dict_key(part: ContentPart, role: Role, hook: Option<Seq<char>>, ext: Option<Extensions>,
    include_content: bool, include_context: bool, k: Seq<char>)
    ensures
        has_key(dict_members(part, role, hook, ext, include_content, include_context), k)
            <==> dict_key_present(part, role, hook, ext, include_content, include_context, k),
{
    let five: Members = seq![
        ("kind"@, JsonView::Str(kind_name(kind_of(part)))),
        ("role"@, JsonView::Str(role_name(role))),
        ("is_pre"@, JsonView::Bool(hook matches Some(h) && has_substring(h, "pre"@))),
        ("is_post"@, JsonView::Bool(hook matches Some(h) && has_substring(h, "post"@))),
        ("action"@, JsonView::Str(action_name(action_of(kind_of(part), role)))),
    ];
    let m1 = opt_str_member("hook"@, hook);
    let m2 = opt_str_member("uri"@, uri_of(part));
    let m3 = opt_str_member("name"@, name_of(part));
    let c = content_members(part, include_content);
    let m4 = opt_str_member("mime_type"@, mime_of(part));
    let args: Members = match args_of(part) {
        Some(a) => seq![("arguments"@, JsonView::Object(member_pairs(a)))],
        None => Seq::empty(),
    };
    let ctx = context_part(ext, include_context);
    assert(has_key(five, k) <==> (k == "kind"@ || k == "role"@ || k == "is_pre"@ || k == "is_post"@
        || k == "action"@)) by {
        if k == "kind"@ { assert(five[0].0 == k); }
        if k == "role"@ { assert(five[1].0 == k); }
        if k == "is_pre"@ { assert(five[2].0 == k); }
        if k == "is_post"@ { assert(five[3].0 == k); }
        if k == "action"@ { assert(five[4].0 == k); }
    }
    lemma_single_key(m1, "hook"@, k);
    lemma_single_key(m2, "uri"@, k);
    lemma_single_key(m3, "name"@, k);
    lemma_single_key(m4, "mime_type"@, k);
    lemma_single_key(args, "arguments"@, k);
    if include_context && ext is Some {
        assert(ctx == object_member("extensions"@, context_members(ext->0)));
    } else {
        assert(ctx.len() == 0);
    }
    lemma_single_key(ctx, "extensions"@, k);
    assert(has_key(c, k) <==> (include_content && content_of(part) is Some
        && (k == "size_bytes"@ || k == "content"@))) by {
        if include_content && content_of(part) is Some {
            if k == "size_bytes"@ { assert(c[0].0 == k); }
            if k == "content"@ { assert(c[1].0 == k); }
        } else {
            assert(c.len() == 0);
        }
    }
    lemma_has_key_concat(five, m1, k);
    lemma_has_key_concat(five + m1, m2, k);
    lemma_has_key_concat(five + m1 + m2, m3, k);
    lemma_has_key_concat(c, m4, k);
    lemma_has_key_concat(c + m4, args, k);
    let head = five + m1 + m2 + m3;
    let body = c + m4 + args;
    lemma_has_key_concat(head, body, k);
    lemma_has_key_concat(head + body, ctx, k);
    assert(head_members(part, role, hook) == head);
    assert(body_members(part, include_content) == body);
    assert(dict_members(part, role, hook, ext, include_content, include_context) == head + body + ctx);
}

/// Which members a view's dictionary (`to_dict`) has: the head members
/// always; `hook`, `uri`, `name`, `mime_type` and `arguments` exactly when
/// the view has them; the text content and its size exactly when content is
/// asked for and the part has text content; the request context only when
/// asked for, and exactly when there are extensions and they are not empty.
pub proof fn lemma_dict_keys(part: ContentPart, role: Role, hook: Option<Seq<char>>, ext: Option<Extensions>,
    include_content: bool, include_context: bool)
    ensures ({
        let d = dict_members(part, role, hook, ext, include_content, include_context);
        &&& forall|k: Seq<char>| has_key(d, k)
            <==> dict_key_present(part, role, hook, ext, include_content, include_context, k)
        &&& has_key(d, "kind"@) && has_key(d, "role"@) && has_key(d, "action"@)
        &&& has_key(d, "is_pre"@) && has_key(d, "is_post"@)
        &&& has_key(d, "hook"@) <==> hook is Some
        &&& has_key(d, "uri"@) <==> uri_of(part) is Some
        &&& has_key(d, "name"@) <==> name_of(part) is Some
        &&& has_key(d, "mime_type"@) <==> mime_of(part) is Some
        &&& has_key(d, "arguments"@) <==> args_of(part) is Some
        &&& has_key(d, "content"@) <==> (include_content && content_of(part) is Some)
        &&& has_key(d, "size_bytes"@) <==> (include_content && content_of(part) is Some)
        &&& has_key(d, "extensions"@) <==> (include_context && ext is Some
            && context_members(ext->0).len() > 0)
    }),
{
    assert forall|k: Seq<char>| has_key(dict_members(part, role, hook, ext, include_content, include_context), k)
        <==> dict_key_present(part, role, hook, ext, include_content, include_context, k) by {
        lemma_dict_key(part, role, hook, ext, include_content, include_context, k);
    }
    reveal_strlit("content");
    reveal_strlit("size_bytes");
    reveal_strlit("kind");
    reveal_strlit("role");
    reveal_strlit("is_pre");
    reveal_strlit("is_post");
    reveal_strlit("action");
    reveal_strlit("hook");
    reveal_strlit("uri");
    reveal_strlit("name");
    reveal_strlit("mime_type");
    reveal_strlit("arguments");
    reveal_strlit("extensions");
    let keys = seq!["kind"@, "role"@, "is_pre"@, "is_post"@, "action"@, "hook"@, "uri"@, "name"@,
        "size_bytes"@, "content"@, "mime_type"@, "arguments"@, "extensions"@];
    assert forall|i: int, j: int| 0 <= i < j < keys.len() implies #[trigger] keys[i] != #[trigger] keys[j] by {
        if keys[i].len() == keys[j].len() {
            assert(keys[i][0] != keys[j][0]);
        }
    }
    assert(keys[0] == "kind"@);
    assert(keys[1] == "role"@);
    assert(keys[2] == "is_pre"@);
    assert(keys[3] == "is_post"@);
    assert(keys[4] == "action"@);
    assert(keys[5] == "hook"@);
    assert(keys[6] == "uri"@);
    assert(keys[7] == "name"@);
    assert(keys[8] == "size_bytes"@);
    assert(keys[9] == "content"@);
    assert(keys[10] == "mime_type"@);
    assert(keys[11] == "arguments"@);
    assert(keys[12] == "extensions"@);
    lemma_dict_key(part, role, hook, ext, include_content, include_context, "kind"@);
    lemma_dict_key(part, role, hook, ext, include_content, include_context, "role"@);
    lemma_dict_key(part, role, hook, ext, include_content, include_context, "is_pre"@);
    lemma_dict_key(part, role, hook, ext, include_content, include_context, "is_post"@);
    lemma_dict_key(part, role, hook, ext, include_content, include_context, "action"@);
    lemma_dict_key(part, role, hook, ext, include_content, include_context, "hook"@);
    lemma_dict_key(part, role, hook, ext, include_content, include_context, "uri"@);
    lemma_dict_key(part, role, hook, ext, include_content, include_context, "name"@);
    lemma_dict_key(part, role, hook, ext, include_content, include_context, "size_bytes"@);
    lemma_dict_key(part, role, hook, ext, include_content, include_context, "content"@);
    lemma_dict_key(part, role, hook, ext, include_content, include_context, "mime_type"@);
    lemma_dict_key(part, role, hook, ext, include_content, include_context, "arguments"@);
    lemma_dict_key(part, role, hook, ext, include_content, include_context, "extensions"@);
}

proof fn lemma_str_items(s: Seq<Seq<char>>)
    ensures
        str_items(s).len() == s.len(),
        forall|i: int| 0 <= i < s.len() ==> #[trigger] str_items(s)[i] == JsonView::Str(s[i]),
    decreases s.len(),
{
    if s.len() > 0 {
        lemma_str_items(s.drop_last());
    }
}

/// A list of strings in a view's request context (labels, roles,
/// permissions, teams, tags) stands for a set: it is left out when empty;
/// otherwise its array is strictly ascending and holds exactly the
/// strings of the source.
pub proof fn lemma_sorted_member(key: Seq<char>, s: Seq<Seq<char>>)
    ensures
        sorted_member(key, s).len() == 0 <==> s.len() == 0,
        s.len() > 0 ==> sorted_member(key, s) == seq![(key, JsonView::Array(str_items(sorted_set(s))))],
        str_items(sorted_set(s)).len() == sorted_set(s).len(),
        sorted_set(s).len() > 0 <==> s.len() > 0,
        forall|i: int| 0 <= i < sorted_set(s).len()
            ==> #[trigger] str_items(sorted_set(s))[i] == JsonView::Str(sorted_set(s)[i]),
        forall|i: int, j: int| 0 <= i < j < sorted_set(s).len()
            ==> lex_lt(#[trigger] sorted_set(s)[i], #[trigger] sorted_set(s)[j]),
        forall|x: Seq<char>| sorted_set(s).contains(x) <==> s.contains(x),
{
    lemma_sorted_set(s);
    lemma_str_items(sorted_set(s));
}

/// Whether every object and every array among the members is non-empty.
pub open spec fn no_empty_containers(m: Members) -> bool {
    forall|k: int| 0 <= k < m.len() ==> match (#[trigger] m[k]).1 {
        JsonView::Object(o) => o.len() > 0,
        JsonView::Array(a) => a.len() > 0,
        _ => true,
    }
}

proof fn lemma_no_empty_concat(a: Members, b: Members)
    requires
        no_empty_containers(a),
        no_empty_containers(b),
    ensures
        no_empty_containers(a + b),
{
    assert forall|k: int| 0 <= k < (a + b).len() implies match (#[trigger] (a + b)[k]).1 {
        JsonView::Object(o) => o.len() > 0,
        JsonView::Array(x) => x.len() > 0,
        _ => true,
    } by {
        if k < a.len() {
            assert((a + b)[k] == a[k]);
        } else {
            assert((a + b)[k] == b[k - a.len()]);
        }
    }
}

proof fn lemma_sorted_member_nonempty(key: Seq<char>, s: Seq<Seq<char>>)
    ensures
        no_empty_containers(sorted_member(key, s)),
        tidy(sorted_member(key, s)),
{
    lemma_sorted_member(key, s);
}

/// Whether a member's value, if an object, is a non-empty object whose
/// own objects and arrays are non-empty, and, if an array, is non-empty.
pub open spec fn tidy_value(v: JsonView) -> bool {
    match v {
        JsonView::Object(o) => o.len() > 0 && no_empty_containers(o),
        JsonView::Array(a) => a.len() > 0,
        _ => true,
    }
}

/// Whether every member's value is tidy.
pub open spec fn tidy(m: Members) -> bool {
    forall|k: int| 0 <= k < m.len() ==> tidy_value((#[trigger] m[k]).1)
}

proof fn lemma_tidy_concat(a: Members, b: Members)
    requires
        tidy(a),
        tidy(b),
    ensures
        tidy(a + b),
{
    assert forall|k: int| 0 <= k < (a + b).len() implies tidy_value((#[trigger] (a + b)[k]).1) by {
        if k < a.len() {
            assert((a + b)[k] == a[k]);
        } else {
            assert((a + b)[k] == b[k - a.len()]);
        }
    }
}

proof fn lemma_object_member_tidy(key: Seq<char>, m: Members)
    requires
        no_empty_containers(m),
    ensures
        tidy(object_member(key, m)),
{
}

proof fn lemma_safe_headers_plain(h: Seq<(String, String)>)
    ensures
        no_empty_containers(safe_headers(h)),
    decreases h.len(),
{
    if h.len() > 0 {
        lemma_safe_headers_plain(h.drop_last());
        let tail: Members = if sensitive_header(h.last().0@) {
            Seq::empty()
        } else {
            seq![(h.last().0@, JsonView::Str(h.last().1@))]
        };
        lemma_no_empty_concat(safe_headers(h.drop_last()), tail);
    }
}

proof fn lemma_security_tidy(s: SecurityExtension)
    ensures
        tidy(security_members(s)),
{
    let subj: Members = match s.subject {
        Some(x) => object_member("subject"@, subject_members(x)),
        None => Seq::empty(),
    };
    if s.subject is Some {
        let x = s.subject.unwrap();
        let p1 = opt_str_member("id"@, opt_str_view(x.id));
        let p2: Members = match x.subject_type {
            Some(t) => seq![("type"@, JsonView::Str(subject_type_name(t)))],
            None => Seq::empty(),
        };
        let r = sorted_member("roles"@, strs_view(x.roles@));
        let q = sorted_member("permissions"@, strs_view(x.permissions@));
        let t = sorted_member("teams"@, strs_view(x.teams@));
        lemma_sorted_member_nonempty("roles"@, strs_view(x.roles@));
        lemma_sorted_member_nonempty("permissions"@, strs_view(x.permissions@));
        lemma_sorted_member_nonempty("teams"@, strs_view(x.teams@));
        lemma_no_empty_concat(p1, p2);
        lemma_no_empty_concat(p1 + p2, r);
        lemma_no_empty_concat(p1 + p2 + r, q);
        lemma_no_empty_concat(p1 + p2 + r + q, t);
        assert(subject_members(x) == p1 + p2 + r + q + t);
        lemma_object_member_tidy("subject"@, subject_members(x));
    }
    lemma_sorted_member_nonempty("labels"@, s.labels@);
    assert(security_members(s) == subj + sorted_member("labels"@, s.labels@));
    lemma_tidy_concat(subj, sorted_member("labels"@, s.labels@));
}

proof fn lemma_agent_tidy(a: AgentExtension)
    ensures
        tidy(object_member("agent"@, agent_members(a))),
{
    let p1 = opt_str_member("input"@, opt_str_view(a.input));
    let p2 = opt_str_member("session_id"@, opt_str_view(a.session_id));
    let p3 = opt_str_member("conversation_id"@, opt_str_view(a.conversation_id));
    let p4: Members = match a.turn {
        Some(t) => seq![("turn"@, JsonView::Number(decimal(t as nat)))],
        None => Seq::empty(),
    };
    let p5 = opt_str_member("agent_id"@, opt_str_view(a.agent_id));
    let p6 = opt_str_member("parent_agent_id"@, opt_str_view(a.parent_agent_id));
    lemma_no_empty_concat(p1, p2);
    lemma_no_empty_concat(p1 + p2, p3);
    lemma_no_empty_concat(p1 + p2 + p3, p4);
    lemma_no_empty_concat(p1 + p2 + p3 + p4, p5);
    lemma_no_empty_concat(p1 + p2 + p3 + p4 + p5, p6);
    assert(agent_members(a) == p1 + p2 + p3 + p4 + p5 + p6);
    lemma_object_member_tidy("agent"@, agent_members(a));
}

proof fn lemma_meta_tidy(m: MetaExtension)
    ensures
        tidy(object_member("meta"@, meta_members(m))),
{
    let p1 = opt_str_member("entity_type"@, opt_str_view(m.entity_type));
    let p2 = opt_str_member("entity_name"@, opt_str_view(m.entity_name));
    let p3 = sorted_member("tags"@, strs_view(m.tags@));
    lemma_sorted_member_nonempty("tags"@, strs_view(m.tags@));
    lemma_no_empty_concat(p1, p2);
    lemma_no_empty_concat(p1 + p2, p3);
    assert(meta_members(m) == p1 + p2 + p3);
    lemma_object_member_tidy("meta"@, meta_members(m));
}

/// The value an `Arc` shares.
pub open spec fn shared_value<T>(a: std::sync::Arc<T>) -> T {
    *a
}

/// A view's request context holds no empty object and no empty array, at
/// any depth: an empty subject, header set, agent or metadata object, and
/// an empty list of labels, roles, permissions, teams or tags, are left
/// out.
pub proof fn lemma_context_tidy(e: Extensions)
    ensures
        tidy(context_members(e)),
{
    let sec: Members = match e.security {
        Some(x) => security_members(shared_value(x)),
        None => Seq::empty(),
    };
    let env: Members = match e.request {
        Some(x) => opt_str_member("environment"@, opt_str_view(shared_value(x).environment)),
        None => Seq::empty(),
    };
    let hdr: Members = match e.http {
        Some(h) => object_member("headers"@, safe_headers(h.request_headers@)),
        None => Seq::empty(),
    };
    let agent: Members = match e.agent {
        Some(x) => object_member("agent"@, agent_members(shared_value(x))),
        None => Seq::empty(),
    };
    let meta: Members = match e.meta {
        Some(x) => object_member("meta"@, meta_members(shared_value(x))),
        None => Seq::empty(),
    };
    assert(context_members(e) == sec + env + hdr + agent + meta);
    if e.security is Some {
        lemma_security_tidy(shared_value(e.security.unwrap()));
    }
    if e.http is Some {
        lemma_safe_headers_plain(e.http.unwrap().request_headers@);
        lemma_object_member_tidy("headers"@, safe_headers(e.http.unwrap().request_headers@));
    }
    if e.agent is Some {
        lemma_agent_tidy(shared_value(e.agent.unwrap()));
    }
    if e.meta is Some {
        lemma_meta_tidy(shared_value(e.meta.unwrap()));
    }
    lemma_tidy_concat(sec, env);
    lemma_tidy_concat(sec + env, hdr);
    lemma_tidy_concat(sec + env + hdr, agent);
    lemma_tidy_concat(sec + env + hdr + agent, meta);
}

type Obj = Vec<(String, JsonValue)>;

fn push_member(out: &mut Obj, key: &str, v: JsonValue)
    ensures
        json_view_members(final(out)@) == json_view_members(old(out)@).push((key@, v@)),
{
    let ghost before = out@;
    let ghost vv = v@;
    out.push((String::from_str(key), v));
    assert(out@.drop_last() == before);
}

fn push_opt_str(out: &mut Obj, key: &str, v: Option<&str>)
    ensures
        json_view_members(final(out)@) == json_view_members(old(out)@)
            + opt_str_member(key@, match v { Some(x) => Some(x@), None => None::<Seq<char>> }),
{
    let ghost before = json_view_members(out@);
    match v {
        Some(x) => {
            push_member(out, key, JsonValue::Str(String::from_str(x)));
            assert(before.push((key@, JsonView::Str(x@))) == before + seq![(key@, JsonView::Str(x@))]);
        },
        None => {
            assert(before + Seq::<(Seq<char>, JsonView)>::empty() == before);
        },
    }
}

fn opt_as_str(o: &Option<String>) -> (r: Option<&str>)
    ensures
        match r { Some(x) => Some(x@), None => None::<Seq<char>> } == opt_str_view(*o),
{
    match o {
        Some(s) => Some(s.as_str()),
        None => None,
    }
}

fn push_sorted(out: &mut Obj, key: &str, v: &Vec<String>)
    ensures
        json_view_members(final(out)@) == json_view_members(old(out)@) + sorted_member(key@, strs_view(v@)),
{
    let ghost before = json_view_members(out@);
    if v.len() == 0 {
        assert(before + Seq::<(Seq<char>, JsonView)>::empty() == before);
        return;
    }
    let sorted = sorted_set_of(v);
    let mut items: Vec<JsonValue> = Vec::new();
    let mut i: usize = 0;
    while i < sorted.len()
        invariant
            i <= sorted.len(),
            crate::json::json_view_items(items@) == str_items(strs_view(sorted@).take(i as int)),
        decreases sorted.len() - i,
    {
        let ghost b = items@;
        let ghost sv = strs_view(sorted@);
        let x = JsonValue::Str(sorted[i].clone());
        assert(x@ == JsonView::Str(sorted@[i as int]@));
        items.push(x);
        assert(items@.drop_last() == b);
        assert(items@.last() == x);
        assert(crate::json::json_view_items(items@) == crate::json::json_view_items(b).push(JsonView::Str(sorted@[i as int]@)));
        assert(sv.take(i + 1).drop_last() == sv.take(i as int));
        assert(sv.take(i + 1).last() == sorted@[i as int]@);
        assert(str_items(sv.take(i + 1)) == str_items(sv.take(i as int)).push(JsonView::Str(sorted@[i as int]@)));
        i += 1;
    }
    assert(strs_view(sorted@).take(sorted.len() as int) == strs_view(sorted@));
    push_member(out, key, JsonValue::Array(items));
    assert(before.push((key@, JsonView::Array(str_items(sorted_set(strs_view(v@))))))
        == before + sorted_member(key@, strs_view(v@)));
}

fn push_object(out: &mut Obj, key: &str, m: Obj)
    ensures
        json_view_members(final(out)@) == json_view_members(old(out)@) + object_member(key@, json_view_members(m@)),
{
    let ghost before = json_view_members(out@);
    let ghost mv = json_view_members(m@);
    if m.len() == 0 {
        assert(mv.len() == 0) by {
            assert(m@ == Seq::<(String, JsonValue)>::empty());
        }
        assert(before + Seq::<(Seq<char>, JsonView)>::empty() == before);
        return;
    }
    proof {
        lemma_members_len(m@);
    }
    push_member(out, key, JsonValue::Object(m));
    assert(before.push((key@, JsonView::Object(mv))) == before + object_member(key@, mv));
}

proof fn lemma_members_concat(a: Seq<(String, JsonValue)>, b: Seq<(String, JsonValue)>)
    ensures
        json_view_members(a + b) == json_view_members(a) + json_view_members(b),
    decreases b.len(),
{
    if b.len() == 0 {
        assert(a + b == a);
        assert(json_view_members(a) + json_view_members(b) == json_view_members(a));
    } else {
        lemma_members_concat(a, b.drop_last());
        assert((a + b).drop_last() == a + b.drop_last());
        assert((a + b).last() == b.last());
    }
}

proof fn lemma_members_len(s: Seq<(String, JsonValue)>)
    ensures
        json_view_members(s).len() == s.len(),
    decreases s.len(),
{
    if s.len() > 0 {
        lemma_members_len(s.drop_last());
    }
}

fn subject_type_str(t: SubjectType) -> (s: &'static str)
    ensures
        s@ == subject_type_name(t),
{
    match t {
        SubjectType::User => "user",
        SubjectType::Agent => "agent",
        SubjectType::Service => "service",
        SubjectType::System => "system",
    }
}

fn subject_object(s: &SubjectExtension) -> (r: Obj)
    ensures
        json_view_members(r@) == subject_members(*s),
{
    let mut out: Obj = Vec::new();
    assert(json_view_members(out@) == Seq::<(Seq<char>, JsonView)>::empty());
    push_opt_str(&mut out, "id", opt_as_str(&s.id));
    let ghost a = json_view_members(out@);
    match s.subject_type {
        Some(t) => {
            push_member(&mut out, "type", JsonValue::Str(String::from_str(subject_type_str(t))));
            assert(a.push(("type"@, JsonView::Str(subject_type_name(t)))) == a + seq![("type"@, JsonView::Str(subject_type_name(t)))]);
        },
        None => {
            assert(a + Seq::<(Seq<char>, JsonView)>::empty() == a);
        },
    }
    push_sorted(&mut out, "roles", &s.roles);
    push_sorted(&mut out, "permissions", &s.permissions);
    push_sorted(&mut out, "teams", &s.teams);
    assert(Seq::<(Seq<char>, JsonView)>::empty() + opt_str_member("id"@, opt_str_view(s.id))
        == opt_str_member("id"@, opt_str_view(s.id)));
    out
}

fn security_object(sec: &SecurityExtension, out: &mut Obj)
    ensures
        json_view_members(final(out)@) == json_view_members(old(out)@) + security_members(*sec),
{
    let ghost before = json_view_members(out@);
    match &sec.subject {
        Some(s) => {
            push_object(out, "subject", subject_object(s));
        },
        None => {
            assert(before + Seq::<(Seq<char>, JsonView)>::empty() == before);
        },
    }
    let ghost mid = json_view_members(out@);
    push_sorted(out, "labels", sec.labels.labels());
    assert(json_view_members(out@) == before + security_members(*sec));
}

fn is_sensitive(name: &str) -> (r: bool)
    ensures
        r == sensitive_header(name@),
{
    let lower = to_lowercase(name);
    str_eq(lower.as_str(), "authorization") || str_eq(lower.as_str(), "cookie")
        || str_eq(lower.as_str(), "x-api-key")
}

fn headers_object(h: &Vec<(String, String)>) -> (r: Obj)
    ensures
        json_view_members(r@) == safe_headers(h@),
{
    let mut out: Obj = Vec::new();
    let mut i: usize = 0;
    while i < h.len()
        invariant
            i <= h.len(),
            json_view_members(out@) == safe_headers(h@.take(i as int)),
        decreases h.len() - i,
    {
        let ghost b = json_view_members(out@);
        assert(h@.take(i + 1).drop_last() == h@.take(i as int));
        assert(h@.take(i + 1).last() == h@[i as int]);
        if !is_sensitive(h[i].0.as_str()) {
            push_member(&mut out, h[i].0.as_str(), JsonValue::Str(h[i].1.clone()));
            assert(b.push((h@[i as int].0@, JsonView::Str(h@[i as int].1@)))
                == b + seq![(h@[i as int].0@, JsonView::Str(h@[i as int].1@))]);
        } else {
            assert(b + Seq::<(Seq<char>, JsonView)>::empty() == b);
        }
        i += 1;
    }
    assert(h@.take(h.len() as int) == h@);
    out
}

fn decimal_value(n: u32) -> (v: JsonValue)
    ensures
        v@ == JsonView::Number(decimal(n as nat)),
{
    let mut s = String::new();
    push_decimal(&mut s, n as usize);
    JsonValue::Number(s)
}

fn agent_object(a: &AgentExtension) -> (r: Obj)
    ensures
        json_view_members(r@) == agent_members(*a),
{
    let mut out: Obj = Vec::new();
    assert(json_view_members(out@) == Seq::<(Seq<char>, JsonView)>::empty());
    push_opt_str(&mut out, "input", opt_as_str(&a.input));
    push_opt_str(&mut out, "session_id", opt_as_str(&a.session_id));
    push_opt_str(&mut out, "conversation_id", opt_as_str(&a.conversation_id));
    let ghost b = json_view_members(out@);
    match a.turn {
        Some(t) => {
            push_member(&mut out, "turn", decimal_value(t));
            assert(b.push(("turn"@, JsonView::Number(decimal(t as nat))))
                == b + seq![("turn"@, JsonView::Number(decimal(t as nat)))]);
        },
        None => {
            assert(b + Seq::<(Seq<char>, JsonView)>::empty() == b);
        },
    }
    push_opt_str(&mut out, "agent_id", opt_as_str(&a.agent_id));
    push_opt_str(&mut out, "parent_agent_id", opt_as_str(&a.parent_agent_id));
    assert(Seq::<(Seq<char>, JsonView)>::empty() + opt_str_member("input"@, opt_str_view(a.input))
        == opt_str_member("input"@, opt_str_view(a.input)));
    out
}

fn meta_object(m: &MetaExtension) -> (r: Obj)
    ensures
        json_view_members(r@) == meta_members(*m),
{
    let mut out: Obj = Vec::new();
    assert(json_view_members(out@) == Seq::<(Seq<char>, JsonView)>::empty());
    push_opt_str(&mut out, "entity_type", opt_as_str(&m.entity_type));
    push_opt_str(&mut out, "entity_name", opt_as_str(&m.entity_name));
    push_sorted(&mut out, "tags", &m.tags);
    assert(Seq::<(Seq<char>, JsonView)>::empty() + opt_str_member("entity_type"@, opt_str_view(m.entity_type))
        == opt_str_member("entity_type"@, opt_str_view(m.entity_type)));
    out
}

fn context_object(e: &Extensions) -> (r: Obj)
    ensures
        json_view_members(r@) == context_members(*e),
{
    let mut out: Obj = Vec::new();
    let ghost e0 = json_view_members(out@);
    assert(e0 == Seq::<(Seq<char>, JsonView)>::empty());
    match &e.security {
        Some(s) => {
            security_object(s, &mut out);
        },
        None => {},
    }
    let ghost a = json_view_members(out@);
    match &e.request {
        Some(r) => {
            push_opt_str(&mut out, "environment", opt_as_str(&r.environment));
        },
        None => {
            assert(a + Seq::<(Seq<char>, JsonView)>::empty() == a);
        },
    }
    let ghost b = json_view_members(out@);
    match &e.http {
        Some(h) => {
            push_object(&mut out, "headers", headers_object(&h.request_headers));
        },
        None => {
            assert(b + Seq::<(Seq<char>, JsonView)>::empty() == b);
        },
    }
    let ghost c = json_view_members(out@);
    match &e.agent {
        Some(ag) => {
            push_object(&mut out, "agent", agent_object(ag));
        },
        None => {
            assert(c + Seq::<(Seq<char>, JsonView)>::empty() == c);
        },
    }
    let ghost d = json_view_members(out@);
    match &e.meta {
        Some(m) => {
            push_object(&mut out, "meta", meta_object(m));
        },
        None => {
            assert(d + Seq::<(Seq<char>, JsonView)>::empty() == d);
        },
    }
    assert(e0 + (match e.security { Some(s) => security_members(*s), None => Seq::empty() })
        == (match e.security { Some(s) => security_members(*s), None => Seq::<(Seq<char>, JsonView)>::empty() }));
    out
}

fn clone_members(a: &Obj) -> (r: Obj)
    ensures
        json_view_members(r@) == member_pairs(a@),
{
    let mut out: Obj = Vec::new();
    let mut i: usize = 0;
    while i < a.len()
        invariant
            i <= a.len(),
            json_view_members(out@) == member_pairs(a@.take(i as int)),
        decreases a.len() - i,
    {
        let ghost b = out@;
        out.push((a[i].0.clone(), a[i].1.clone()));
        assert(out@.drop_last() == b);
        assert(member_pairs(a@.take(i + 1)) == member_pairs(a@.take(i as int)).push((a@[i as int].0@, a@[i as int].1@)));
        i += 1;
    }
    assert(a@.take(a.len() as int) == a@);
    out
}

impl<'a> MessageView<'a> {
    fn head_object(&self) -> (r: Obj)
        requires
            self.wf(),
        ensures
            json_view_members(r@) == head_members(self.spec_part(), self.spec_role(), self.spec_hook()),
    {
        let mut out: Obj = Vec::new();
        assert(json_view_members(out@) == Seq::<(Seq<char>, JsonView)>::empty());
        push_member(&mut out, "kind", JsonValue::Str(String::from_str(self.kind.as_str())));
        push_member(&mut out, "role", JsonValue::Str(String::from_str(self.role.as_str())));
        push_member(&mut out, "is_pre", JsonValue::Bool(self.is_pre()));
        push_member(&mut out, "is_post", JsonValue::Bool(self.is_post()));
        push_member(&mut out, "action", JsonValue::Str(String::from_str(self.action().as_str())));
        assert(json_view_members(out@) =~= seq![
            ("kind"@, JsonView::Str(kind_name(kind_of(self.spec_part())))),
            ("role"@, JsonView::Str(role_name(self.spec_role()))),
            ("is_pre"@, JsonView::Bool(self.spec_hook() matches Some(h) && has_substring(h, "pre"@))),
            ("is_post"@, JsonView::Bool(self.spec_hook() matches Some(h) && has_substring(h, "post"@))),
            ("action"@, JsonView::Str(action_name(action_of(kind_of(self.spec_part()), self.spec_role())))),
        ]);
        push_opt_str(&mut out, "hook", self.hook);
        let uri = self.uri();
        push_opt_str(&mut out, "uri", opt_as_str(&uri));
        push_opt_str(&mut out, "name", self.name());
        out
    }

    fn push_content(&self, out: &mut Obj, include_content: bool)
        requires
            self.wf(),
        ensures
            json_view_members(final(out)@) == json_view_members(old(out)@)
                + content_members(self.spec_part(), include_content),
    {
        let ghost b = json_view_members(out@);
        if include_content {
            match self.content() {
                Some(t) => {
                    let mut size = String::new();
                    let n = t.len();
                    push_decimal(&mut size, n);
                    push_member(out, "size_bytes", JsonValue::Number(size));
                    push_member(out, "content", JsonValue::Str(String::from_str(t)));
                    assert(json_view_members(out@) =~= b + seq![
                        ("size_bytes"@, JsonView::Number(decimal(n as nat))),
                        ("content"@, JsonView::Str(t@)),
                    ]);
                },
                None => {
                    assert(b + Seq::<(Seq<char>, JsonView)>::empty() == b);
                },
            }
        } else {
            assert(b + Seq::<(Seq<char>, JsonView)>::empty() == b);
        }
    }

    fn body_object(&self, include_content: bool) -> (r: Obj)
        requires
            self.wf(),
        ensures
            json_view_members(r@) == body_members(self.spec_part(), include_content),
    {
        let mut out: Obj = Vec::new();
        let ghost e = json_view_members(out@);
        assert(e == Seq::<(Seq<char>, JsonView)>::empty());
        self.push_content(&mut out, include_content);
        assert(e + content_members(self.spec_part(), include_content)
            == content_members(self.spec_part(), include_content));
        push_opt_str(&mut out, "mime_type", self.mime_type());
        let ghost c = json_view_members(out@);
        match self.args() {
            Some(a) => {
                push_member(&mut out, "arguments", JsonValue::Object(clone_members(a)));
                assert(c.push(("arguments"@, JsonView::Object(member_pairs(a@))))
                    == c + seq![("arguments"@, JsonView::Object(member_pairs(a@)))]);
            },
            None => {
                assert(c + Seq::<(Seq<char>, JsonView)>::empty() == c);
            },
        }
        out
    }

    fn push_context(&self, out: &mut Obj, include_context: bool)
        requires
            self.wf(),
        ensures
            json_view_members(final(out)@) == json_view_members(old(out)@)
                + context_part(self.spec_extensions(), include_context),
    {
        let ghost d = json_view_members(out@);
        if include_context {
            match self.extensions {
                Some(e) => {
                    push_object(out, "extensions", context_object(e));
                },
                None => {
                    assert(d + Seq::<(Seq<char>, JsonView)>::empty() == d);
                },
            }
        } else {
            assert(d + Seq::<(Seq<char>, JsonView)>::empty() == d);
        }
    }

    /// The view as a JSON object (see `dict_members`).
    pub fn to_dict(&self, include_content: bool, include_context: bool) -> (r: JsonValue)
        requires
            self.wf(),
        ensures
            r@ == JsonView::Object(dict_members(self.spec_part(), self.spec_role(), self.spec_hook(),
                self.spec_extensions(), include_content, include_context)),
    {
        let mut out = self.head_object();
        let mut body = self.body_object(include_content);
        let ghost h = out@;
        let ghost bv = body@;
        out.append(&mut body);
        proof {
            lemma_members_concat(h, bv);
        }
        self.push_context(&mut out, include_context);
        JsonValue::Object(out)
    }

    /// The view wrapped as the `input` of a policy query, with the
    /// request context included.
    pub fn to_opa_input(&self, include_content: bool) -> (r: JsonValue)
        requires
            self.wf(),
        ensures
            r@ == JsonView::Object(seq![("input"@, JsonView::Object(dict_members(self.spec_part(),
                self.spec_role(), self.spec_hook(), self.spec_extensions(), include_content, true)))]),
    {
        let d = self.to_dict(include_content, true);
        let mut out: Obj = Vec::new();
        assert(json_view_members(out@) == Seq::<(Seq<char>, JsonView)>::empty());
        push_member(&mut out, "input", d);
        assert(json_view_members(out@) =~= seq![("input"@, d@)]);
        JsonValue::Object(out)
    }
}

} // verus!
