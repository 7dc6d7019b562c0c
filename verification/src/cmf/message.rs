//! Messages: a role, content parts and an optional channel.

use vstd::prelude::*;
use vstd::string::*;

use crate::cmf::constants::SCHEMA_VERSION;
use crate::cmf::content::{ContentPart, PromptRequest, PromptResult, Resource, ResourceReference,
    ToolCall, ToolResult};
use crate::cmf::enums::{Channel, Role};
use crate::hooks::HookTypeDef;

verus! {

/// A message in the common format.
#[derive(Debug)]
pub struct Message {
    pub schema_version: String,
    pub role: Role,
    pub content: Vec<ContentPart>,
    pub channel: Option<Channel>,
}

/// The schema version a message takes when none is given.
pub fn default_schema_version() -> (s: String)
    ensures
        s@ == SCHEMA_VERSION@,
{
    String::from_str(SCHEMA_VERSION)
}

/// The texts of the parts that are `Text` (or `Thinking`, when
/// `thinking`), in order, concatenated.
pub open spec fn texts_of(parts: Seq<ContentPart>, thinking: bool) -> Seq<char>
    decreases parts.len(),
{
    if parts.len() == 0 {
        Seq::empty()
    } else {
        texts_of(parts.drop_last(), thinking) + match parts.last() {
            ContentPart::Text { text } => if !thinking { text@ } else { Seq::empty() },
            ContentPart::Thinking { text } => if thinking { text@ } else { Seq::empty() },
            _ => Seq::empty(),
        }
    }
}

/// Whether any part is `Thinking`.
pub open spec fn has_thinking(parts: Seq<ContentPart>) -> bool {
    exists|i: int| 0 <= i < parts.len() && parts[i] is Thinking
}

/// Content types a selection picks from a message.
#[derive(Debug, Clone, Copy, PartialEq, Eq, Structural)]
pub enum PartKind {
    ToolCall,
    ToolResult,
    Resource,
    ResourceRef,
    PromptRequest,
    PromptResult,
}

pub open spec fn is_kind(p: ContentPart, k: PartKind) -> bool {
    match k {
        PartKind::ToolCall => p is ToolCall,
        PartKind::ToolResult => p is ToolResult,
        PartKind::Resource => p is Resource,
        PartKind::ResourceRef => p is ResourceRef,
        PartKind::PromptRequest => p is PromptRequest,
        PartKind::PromptResult => p is PromptResult,
    }
}

/// The indices of the parts of a kind, in order.
pub open spec fn indices_of(parts: Seq<ContentPart>, k: PartKind) -> Seq<int>
    decreases parts.len(),
{
    if parts.len() == 0 {
        Seq::empty()
    } else {
        let rest = indices_of(parts.drop_last(), k);
        if is_kind(parts.last(), k) { rest.push(parts.len() - 1) } else { rest }
    }
}

/// The URIs of the resource and resource-reference parts, in order.
pub open spec fn resource_uris(parts: Seq<ContentPart>) -> Seq<Seq<char>>
    decreases parts.len(),
{
    if parts.len() == 0 {
        Seq::empty()
    } else {
        let rest = resource_uris(parts.drop_last());
        match parts.last() {
            ContentPart::Resource { content } => rest.push(content.uri@),
            ContentPart::ResourceRef { content } => rest.push(content.uri@),
            _ => rest,
        }
    }
}

impl Message {
    /// A message of one text part, at the current schema version.
    pub fn text(role: Role, text: &str) -> (m: Message)
        ensures
            m.schema_version@ == SCHEMA_VERSION@,
            m.role == role,
            m.content@.len() == 1,
            m.content@[0] matches ContentPart::Text { text: t } && t@ == text@,
            m.channel is None,
    {
        let mut content: Vec<ContentPart> = Vec::new();
        content.push(ContentPart::Text { text: String::from_str(text) });
        Message { schema_version: default_schema_version(), role, content, channel: None }
    }

    fn concat_texts(&self, thinking: bool) -> (r: (String, bool))
        ensures
            r.0@ == texts_of(self.content@, thinking),
            r.1 == exists|i: int| 0 <= i < self.content@.len()
                && (if thinking { self.content@[i] is Thinking } else { self.content@[i] is Text }),
    {
        let mut out = String::new();
        let mut found = false;
        let mut i: usize = 0;
        while i < self.content.len()
            invariant
                i <= self.content.len(),
                out@ == texts_of(self.content@.take(i as int), thinking),
                found == exists|j: int| 0 <= j < i
                    && (if thinking { self.content@[j] is Thinking } else { self.content@[j] is Text }),
            decreases self.content.len() - i,
        {
            assert(self.content@.take(i + 1).drop_last() == self.content@.take(i as int));
            assert(self.content@.take(i + 1).last() == self.content@[i as int]);
            match &self.content[i] {
                ContentPart::Text { text } => {
                    if !thinking {
                        out.append(text.as_str());
                        found = true;
                    }
                },
                ContentPart::Thinking { text } => {
                    if thinking {
                        out.append(text.as_str());
                        found = true;
                    }
                },
                _ => {},
            }
            i += 1;
        }
        assert(self.content@.take(self.content.len() as int) == self.content@);
        (out, found)
    }

    /// The text parts, concatenated in order.
    pub fn get_text_content(&self) -> (s: String)
        ensures
            s@ == texts_of(self.content@, false),
    {
        self.concat_texts(false).0
    }

    /// The thinking parts, concatenated in order; `None` if there are
    /// none.
    pub fn get_thinking_content(&self) -> (s: Option<String>)
        ensures
            has_thinking(self.content@) <==> s is Some,
            s matches Some(t) ==> t@ == texts_of(self.content@, true),
    {
        let (t, found) = self.concat_texts(true);
        if found { Some(t) } else { None }
    }

    fn indices(&self, k: PartKind) -> (r: Vec<usize>)
        ensures
            r@.len() == indices_of(self.content@, k).len(),
            forall|j: int| 0 <= j < r@.len() ==> #[trigger] r@[j] as int == indices_of(self.content@, k)[j]
                && r@[j] < self.content@.len(),
    {
        let mut out: Vec<usize> = Vec::new();
        let mut i: usize = 0;
        while i < self.content.len()
            invariant
                i <= self.content.len(),
                out@.len() == indices_of(self.content@.take(i as int), k).len(),
                forall|j: int| 0 <= j < out@.len() ==> #[trigger] out@[j] as int
                    == indices_of(self.content@.take(i as int), k)[j] && out@[j] < i,
            decreases self.content.len() - i,
        {
            assert(self.content@.take(i + 1).drop_last() == self.content@.take(i as int));
            assert(self.content@.take(i + 1).last() == self.content@[i as int]);
            let hit = match (&self.content[i], k) {
                (ContentPart::ToolCall { .. }, PartKind::ToolCall) => true,
                (ContentPart::ToolResult { .. }, PartKind::ToolResult) => true,
                (ContentPart::Resource { .. }, PartKind::Resource) => true,
                (ContentPart::ResourceRef { .. }, PartKind::ResourceRef) => true,
                (ContentPart::PromptRequest { .. }, PartKind::PromptRequest) => true,
                (ContentPart::PromptResult { .. }, PartKind::PromptResult) => true,
                _ => false,
            };
            assert(hit == is_kind(self.content@[i as int], k));
            if hit {
                out.push(i);
            }
            i += 1;
        }
        assert(self.content@.take(self.content.len() as int) == self.content@);
        out
    }

    /// The tool calls, in order.
    pub fn get_tool_calls(&self) -> (r: Vec<&ToolCall>)
        ensures
            r@.len() == indices_of(self.content@, PartKind::ToolCall).len(),
            forall|j: int| 0 <= j < r@.len() ==> (self.content@[indices_of(self.content@, PartKind::ToolCall)[j]]
                matches ContentPart::ToolCall { content } && *#[trigger] r@[j] == content),
    {
        let idx = self.indices(PartKind::ToolCall);
        let mut out: Vec<&ToolCall> = Vec::new();
        let mut j: usize = 0;
        while j < idx.len()
            invariant
                j <= idx.len(),
                idx@.len() == indices_of(self.content@, PartKind::ToolCall).len(),
                forall|q: int| 0 <= q < idx@.len() ==> #[trigger] idx@[q] as int
                    == indices_of(self.content@, PartKind::ToolCall)[q] && idx@[q] < self.content@.len(),
                out@.len() == j,
                forall|q: int| 0 <= q < j ==> (self.content@[idx@[q] as int] matches ContentPart::ToolCall { content }
                    && *#[trigger] out@[q] == content),
            decreases idx.len() - j,
        {
            proof {
                lemma_indices_kind(self.content@, PartKind::ToolCall, j as int);
            }
            match &self.content[idx[j]] {
                ContentPart::ToolCall { content } => {
                    out.push(content);
                },
                _ => {},
            }
            j += 1;
        }
        out
    }

    /// The tool results, in order.
    pub fn get_tool_results(&self) -> (r: Vec<&ToolResult>)
        ensures
            r@.len() == indices_of(self.content@, PartKind::ToolResult).len(),
            forall|j: int| 0 <= j < r@.len() ==> (self.content@[indices_of(self.content@, PartKind::ToolResult)[j]]
                matches ContentPart::ToolResult { content } && *#[trigger] r@[j] == content),
    {
        let idx = self.indices(PartKind::ToolResult);
        let mut out: Vec<&ToolResult> = Vec::new();
        let mut j: usize = 0;
        while j < idx.len()
            invariant
                j <= idx.len(),
                idx@.len() == indices_of(self.content@, PartKind::ToolResult).len(),
                forall|q: int| 0 <= q < idx@.len() ==> #[trigger] idx@[q] as int
                    == indices_of(self.content@, PartKind::ToolResult)[q] && idx@[q] < self.content@.len(),
                out@.len() == j,
                forall|q: int| 0 <= q < j ==> (self.content@[idx@[q] as int] matches ContentPart::ToolResult { content }
                    && *#[trigger] out@[q] == content),
            decreases idx.len() - j,
        {
            proof {
                lemma_indices_kind(self.content@, PartKind::ToolResult, j as int);
            }
            match &self.content[idx[j]] {
                ContentPart::ToolResult { content } => {
                    out.push(content);
                },
                _ => {},
            }
            j += 1;
        }
        out
    }

    /// The embedded resources, in order.
    pub fn get_resources(&self) -> (r: Vec<&Resource>)
        ensures
            r@.len() == indices_of(self.content@, PartKind::Resource).len(),
            forall|j: int| 0 <= j < r@.len() ==> (self.content@[indices_of(self.content@, PartKind::Resource)[j]]
                matches ContentPart::Resource { content } && *#[trigger] r@[j] == content),
    {
        let idx = self.indices(PartKind::Resource);
        let mut out: Vec<&Resource> = Vec::new();
        let mut j: usize = 0;
        while j < idx.len()
            invariant
                j <= idx.len(),
                idx@.len() == indices_of(self.content@, PartKind::Resource).len(),
                forall|q: int| 0 <= q < idx@.len() ==> #[trigger] idx@[q] as int
                    == indices_of(self.content@, PartKind::Resource)[q] && idx@[q] < self.content@.len(),
                out@.len() == j,
                forall|q: int| 0 <= q < j ==> (self.content@[idx@[q] as int] matches ContentPart::Resource { content }
                    && *#[trigger] out@[q] == content),
            decreases idx.len() - j,
        {
            proof {
                lemma_indices_kind(self.content@, PartKind::Resource, j as int);
            }
            match &self.content[idx[j]] {
                ContentPart::Resource { content } => {
                    out.push(content);
                },
                _ => {},
            }
            j += 1;
        }
        out
    }

    /// The resource references, in order.
    pub fn get_resource_refs(&self) -> (r: Vec<&ResourceReference>)
        ensures
            r@.len() == indices_of(self.content@, PartKind::ResourceRef).len(),
            forall|j: int| 0 <= j < r@.len() ==> (self.content@[indices_of(self.content@, PartKind::ResourceRef)[j]]
                matches ContentPart::ResourceRef { content } && *#[trigger] r@[j] == content),
    {
        let idx = self.indices(PartKind::ResourceRef);
        let mut out: Vec<&ResourceReference> = Vec::new();
        let mut j: usize = 0;
        while j < idx.len()
            invariant
                j <= idx.len(),
                idx@.len() == indices_of(self.content@, PartKind::ResourceRef).len(),
                forall|q: int| 0 <= q < idx@.len() ==> #[trigger] idx@[q] as int
                    == indices_of(self.content@, PartKind::ResourceRef)[q] && idx@[q] < self.content@.len(),
                out@.len() == j,
                forall|q: int| 0 <= q < j ==> (self.content@[idx@[q] as int] matches ContentPart::ResourceRef { content }
                    && *#[trigger] out@[q] == content),
            decreases idx.len() - j,
        {
            proof {
                lemma_indices_kind(self.content@, PartKind::ResourceRef, j as int);
            }
            match &self.content[idx[j]] {
                ContentPart::ResourceRef { content } => {
                    out.push(content);
                },
                _ => {},
            }
            j += 1;
        }
        out
    }

    /// The prompt requests, in order.
    pub fn get_prompt_requests(&self) -> (r: Vec<&PromptRequest>)
        ensures
            r@.len() == indices_of(self.content@, PartKind::PromptRequest).len(),
            forall|j: int| 0 <= j < r@.len() ==> (self.content@[indices_of(self.content@, PartKind::PromptRequest)[j]]
                matches ContentPart::PromptRequest { content } && *#[trigger] r@[j] == content),
    {
        let idx = self.indices(PartKind::PromptRequest);
        let mut out: Vec<&PromptRequest> = Vec::new();
        let mut j: usize = 0;
        while j < idx.len()
            invariant
                j <= idx.len(),
                idx@.len() == indices_of(self.content@, PartKind::PromptRequest).len(),
                forall|q: int| 0 <= q < idx@.len() ==> #[trigger] idx@[q] as int
                    == indices_of(self.content@, PartKind::PromptRequest)[q] && idx@[q] < self.content@.len(),
                out@.len() == j,
                forall|q: int| 0 <= q < j ==> (self.content@[idx@[q] as int] matches ContentPart::PromptRequest { content }
                    && *#[trigger] out@[q] == content),
            decreases idx.len() - j,
        {
            proof {
                lemma_indices_kind(self.content@, PartKind::PromptRequest, j as int);
            }
            match &self.content[idx[j]] {
                ContentPart::PromptRequest { content } => {
                    out.push(content);
                },
                _ => {},
            }
            j += 1;
        }
        out
    }

    /// The prompt results, in order.
    pub fn get_prompt_results(&self) -> (r: Vec<&PromptResult>)
        ensures
            r@.len() == indices_of(self.content@, PartKind::PromptResult).len(),
            forall|j: int| 0 <= j < r@.len() ==> (self.content@[indices_of(self.content@, PartKind::PromptResult)[j]]
                matches ContentPart::PromptResult { content } && *#[trigger] r@[j] == content),
    {
        let idx = self.indices(PartKind::PromptResult);
        let mut out: Vec<&PromptResult> = Vec::new();
        let mut j: usize = 0;
        while j < idx.len()
            invariant
                j <= idx.len(),
                idx@.len() == indices_of(self.content@, PartKind::PromptResult).len(),
                forall|q: int| 0 <= q < idx@.len() ==> #[trigger] idx@[q] as int
                    == indices_of(self.content@, PartKind::PromptResult)[q] && idx@[q] < self.content@.len(),
                out@.len() == j,
                forall|q: int| 0 <= q < j ==> (self.content@[idx@[q] as int] matches ContentPart::PromptResult { content }
                    && *#[trigger] out@[q] == content),
            decreases idx.len() - j,
        {
            proof {
                lemma_indices_kind(self.content@, PartKind::PromptResult, j as int);
            }
            match &self.content[idx[j]] {
                ContentPart::PromptResult { content } => {
                    out.push(content);
                },
                _ => {},
            }
            j += 1;
        }
        out
    }

    fn any_of(&self, k: PartKind) -> (r: bool)
        ensures
            r == exists|i: int| 0 <= i < self.content@.len() && is_kind(self.content@[i], k),
    {
        let mut i: usize = 0;
        while i < self.content.len()
            invariant
                i <= self.content.len(),
                forall|j: int| 0 <= j < i ==> !is_kind(self.content@[j], k),
            decreases self.content.len() - i,
        {
            let hit = match (&self.content[i], k) {
                (ContentPart::ToolCall { .. }, PartKind::ToolCall) => true,
                (ContentPart::ToolResult { .. }, PartKind::ToolResult) => true,
                (ContentPart::Resource { .. }, PartKind::Resource) => true,
                (ContentPart::ResourceRef { .. }, PartKind::ResourceRef) => true,
                (ContentPart::PromptRequest { .. }, PartKind::PromptRequest) => true,
                (ContentPart::PromptResult { .. }, PartKind::PromptResult) => true,
                _ => false,
            };
            if hit {
                return true;
            }
            i += 1;
        }
        false
    }

    /// Whether any part is a tool call.
    pub fn is_tool_call(&self) -> (r: bool)
        ensures
            r == exists|i: int| 0 <= i < self.content@.len() && self.content@[i] is ToolCall,
    {
        self.any_of(PartKind::ToolCall)
    }

    /// Whether any part is a tool result.
    pub fn is_tool_result(&self) -> (r: bool)
        ensures
            r == exists|i: int| 0 <= i < self.content@.len() && self.content@[i] is ToolResult,
    {
        self.any_of(PartKind::ToolResult)
    }

    /// Whether any part is a resource or a resource reference.
    pub fn has_resources(&self) -> (r: bool)
        ensures
            r == exists|i: int| 0 <= i < self.content@.len()
                && (self.content@[i] is Resource || self.content@[i] is ResourceRef),
    {
        let a = self.any_of(PartKind::Resource);
        let b = self.any_of(PartKind::ResourceRef);
        a || b
    }

    /// The URIs of all resources and resource references, in order.
    pub fn get_all_resource_uris(&self) -> (r: Vec<&str>)
        ensures
            r@.len() == resource_uris(self.content@).len(),
            forall|j: int| 0 <= j < r@.len() ==> #[trigger] r@[j]@ == resource_uris(self.content@)[j],
    {
        let mut out: Vec<&str> = Vec::new();
        let mut i: usize = 0;
        while i < self.content.len()
            invariant
                i <= self.content.len(),
                out@.len() == resource_uris(self.content@.take(i as int)).len(),
                forall|j: int| 0 <= j < out@.len() ==> #[trigger] out@[j]@ == resource_uris(self.content@.take(i as int))[j],
            decreases self.content.len() - i,
        {
            assert(self.content@.take(i + 1).drop_last() == self.content@.take(i as int));
            assert(self.content@.take(i + 1).last() == self.content@[i as int]);
            match &self.content[i] {
                ContentPart::Resource { content } => {
                    out.push(content.uri.as_str());
                },
                ContentPart::ResourceRef { content } => {
                    out.push(content.uri.as_str());
                },
                _ => {},
            }
            i += 1;
        }
        assert(self.content@.take(self.content.len() as int) == self.content@);
        out
    }
}

proof fn lemma_indices_kind(parts: Seq<ContentPart>, k: PartKind, j: int)
    requires
        0 <= j < indices_of(parts, k).len(),
    ensures
        0 <= indices_of(parts, k)[j] < parts.len(),
        is_kind(parts[indices_of(parts, k)[j]], k),
    decreases parts.len(),
{
    if parts.len() > 0 {
        let rest = indices_of(parts.drop_last(), k);
        if j < rest.len() {
            lemma_indices_kind(parts.drop_last(), k, j);
        }
    }
}

/// The payload of the CMF hooks: one message.
#[derive(Debug)]
pub struct MessagePayload {
    pub message: Message,
}

/// The CMF hook: one handler covering the `cmf.*` hook names.
pub struct CmfHook;

impl CmfHook {
    /// The hook's name.
    pub const NAME: &'static str = "cmf";
}

impl HookTypeDef for CmfHook {
    const NAME: &'static str = "cmf";
}

} // verus!
