//! Extension containers: the shared, read-only `Extensions` handed to
//! plugins, and the `OwnedExtensions` workspace a plugin modifies.

use std::sync::Arc;

use vstd::prelude::*;

use crate::error::{Details, clone_details, details_view};
use crate::extensions::delegation::{DelegationExtension, same_delegation};
use crate::extensions::guarded::{Guarded, WriteToken};
use crate::extensions::http::HttpExtension;
use crate::extensions::records::{AgentExtension, CompletionExtension, FrameworkExtension,
    LLMExtension, MCPExtension, MetaExtension, ProvenanceExtension, RequestExtension};
use crate::extensions::security::{SecurityExtension, same_security};
use crate::text::pairs_view;

verus! {

/// Another handle on a shared value (`Arc::clone`): it points to the
/// same allocation, hence to the same value.
#[verifier::external_body]
pub(crate) fn share<T>(a: &Arc<T>) -> (r: Arc<T>)
    ensures
        r == *a,
{
    Arc::clone(a)
}

/// Whether two handles point to the same allocation (`Arc::ptr_eq`).
/// Handles to one allocation hold one value; handles to two
/// allocations may hold equal values, so equal values say nothing
/// about the result.
#[verifier::external_body]
pub(crate) fn same_allocation<T>(a: &Arc<T>, b: &Arc<T>) -> (r: bool)
    ensures
        r ==> *a == *b,
{
    Arc::ptr_eq(a, b)
}

fn share_opt<T>(o: &Option<Arc<T>>) -> (r: Option<Arc<T>>)
    ensures
        r == *o,
{
    match o {
        Some(a) => Some(share(a)),
        None => None,
    }
}

fn same_allocation_opt<T>(a: &Option<Arc<T>>, b: &Option<Arc<T>>) -> (r: bool)
    ensures
        r ==> *a == *b,
        (a is Some) != (b is Some) ==> !r,
        (a is None && b is None) ==> r,
{
    match (a, b) {
        (Some(x), Some(y)) => same_allocation(x, y),
        (None, None) => true,
        _ => false,
    }
}

/// Typed container for all extensions of a message.
///
/// Every slot is shared and read-only. To change the mutable, monotonic
/// or guarded slots a plugin takes a [`Extensions::cow_copy`]. Write
/// tokens are set by the executor per plugin and are never copied by
/// [`Clone`].
#[derive(Debug, Default)]
pub struct Extensions {
    pub request: Option<Arc<RequestExtension>>,
    pub agent: Option<Arc<AgentExtension>>,
    pub http: Option<Arc<HttpExtension>>,
    pub security: Option<Arc<SecurityExtension>>,
    pub delegation: Option<Arc<DelegationExtension>>,
    pub mcp: Option<Arc<MCPExtension>>,
    pub completion: Option<Arc<CompletionExtension>>,
    pub provenance: Option<Arc<ProvenanceExtension>>,
    pub llm: Option<Arc<LLMExtension>>,
    pub framework: Option<Arc<FrameworkExtension>>,
    pub meta: Option<Arc<MetaExtension>>,
    pub custom: Option<Arc<Details>>,
    pub http_write_token: Option<WriteToken>,
    pub labels_write_token: Option<WriteToken>,
    pub delegation_write_token: Option<WriteToken>,
}

/// A plugin's writable copy of extensions.
///
/// Immutable slots share the source's values; the mutable, monotonic
/// and guarded slots are owned copies. Write tokens come from the
/// source.
#[derive(Debug)]
pub struct OwnedExtensions {
    pub request: Option<Arc<RequestExtension>>,
    pub agent: Option<Arc<AgentExtension>>,
    pub mcp: Option<Arc<MCPExtension>>,
    pub completion: Option<Arc<CompletionExtension>>,
    pub provenance: Option<Arc<ProvenanceExtension>>,
    pub llm: Option<Arc<LLMExtension>>,
    pub framework: Option<Arc<FrameworkExtension>>,
    pub meta: Option<Arc<MetaExtension>>,
    pub http: Option<Guarded<HttpExtension>>,
    pub security: Option<SecurityExtension>,
    pub delegation: Option<DelegationExtension>,
    pub custom: Option<Details>,
    pub http_write_token: Option<WriteToken>,
    pub labels_write_token: Option<WriteToken>,
    pub delegation_write_token: Option<WriteToken>,
}

/// Whether a workspace holds the same immutable slots as `e`.
pub open spec fn same_immutable(e: Extensions, o: OwnedExtensions) -> bool {
    &&& o.request == e.request
    &&& o.agent == e.agent
    &&& o.mcp == e.mcp
    &&& o.completion == e.completion
    &&& o.provenance == e.provenance
    &&& o.llm == e.llm
    &&& o.framework == e.framework
    &&& o.meta == e.meta
}

/// Whether every immutable slot is absent, in `e` and in `o` alike.
pub open spec fn immutable_all_absent(e: Extensions, o: OwnedExtensions) -> bool {
    &&& e.request is None && o.request is None
    &&& e.agent is None && o.agent is None
    &&& e.mcp is None && o.mcp is None
    &&& e.completion is None && o.completion is None
    &&& e.provenance is None && o.provenance is None
    &&& e.llm is None && o.llm is None
    &&& e.framework is None && o.framework is None
    &&& e.meta is None && o.meta is None
}

/// Whether some immutable slot is present in one and absent in the other.
pub open spec fn immutable_presence_differs(e: Extensions, o: OwnedExtensions) -> bool {
    ||| (e.request is Some) != (o.request is Some)
    ||| (e.agent is Some) != (o.agent is Some)
    ||| (e.mcp is Some) != (o.mcp is Some)
    ||| (e.completion is Some) != (o.completion is Some)
    ||| (e.provenance is Some) != (o.provenance is Some)
    ||| (e.llm is Some) != (o.llm is Some)
    ||| (e.framework is Some) != (o.framework is Some)
    ||| (e.meta is Some) != (o.meta is Some)
}

/// The HTTP headers of a guarded slot.
pub open spec fn guarded_http(o: Option<Guarded<HttpExtension>>) -> Option<HttpExtension> {
    match o {
        Some(g) => Some(g.value()),
        None => None,
    }
}

impl Extensions {
    /// No extensions and no write tokens.
    pub fn empty() -> (e: Extensions)
        ensures
            e.request is None && e.agent is None && e.http is None && e.security is None,
            e.delegation is None && e.mcp is None && e.completion is None,
            e.provenance is None && e.llm is None && e.framework is None && e.meta is None,
            e.custom is None,
            e.http_write_token is None && e.labels_write_token is None && e.delegation_write_token is None,
    {
        Extensions {
            request: None,
            agent: None,
            http: None,
            security: None,
            delegation: None,
            mcp: None,
            completion: None,
            provenance: None,
            llm: None,
            framework: None,
            meta: None,
            custom: None,
            http_write_token: None,
            labels_write_token: None,
            delegation_write_token: None,
        }
    }

    /// A writable copy: immutable slots are shared as they are, the
    /// HTTP, security, delegation and custom slots are copied out, and
    /// each write token present here is present in the copy.
    pub fn cow_copy(&self) -> (o: OwnedExtensions)
        ensures
            same_immutable(*self, o),
            (o.http is Some) == (self.http is Some),
            o.http matches Some(g) ==> pairs_view(g.value().request_headers@)
                == pairs_view(self.http.unwrap().request_headers@)
                && pairs_view(g.value().response_headers@) == pairs_view(self.http.unwrap().response_headers@),
            (o.security is Some) == (self.security is Some),
            o.security matches Some(s) ==> same_security(s, *self.security.unwrap()),
            (o.delegation is Some) == (self.delegation is Some),
            o.delegation matches Some(d) ==> same_delegation(d, *self.delegation.unwrap()),
            (o.custom is Some) == (self.custom is Some),
            o.custom matches Some(c) ==> details_view(c@) == details_view(self.custom.unwrap()@),
            (o.http_write_token is Some) == (self.http_write_token is Some),
            (o.labels_write_token is Some) == (self.labels_write_token is Some),
            (o.delegation_write_token is Some) == (self.delegation_write_token is Some),
    {
        OwnedExtensions {
            request: share_opt(&self.request),
            agent: share_opt(&self.agent),
            mcp: share_opt(&self.mcp),
            completion: share_opt(&self.completion),
            provenance: share_opt(&self.provenance),
            llm: share_opt(&self.llm),
            framework: share_opt(&self.framework),
            meta: share_opt(&self.meta),
            http: match &self.http {
                Some(h) => Some(Guarded::new((**h).clone())),
                None => None,
            },
            security: match &self.security {
                Some(s) => Some(s.duplicate()),
                None => None,
            },
            delegation: match &self.delegation {
                Some(d) => Some(d.duplicate()),
                None => None,
            },
            custom: match &self.custom {
                Some(c) => Some(clone_details(c)),
                None => None,
            },
            http_write_token: if self.http_write_token.is_some() { Some(WriteToken::new()) } else { None },
            labels_write_token: if self.labels_write_token.is_some() { Some(WriteToken::new()) } else { None },
            delegation_write_token: if self.delegation_write_token.is_some() {
                Some(WriteToken::new())
            } else {
                None
            },
        }
    }

    /// Whether a workspace left the immutable slots as they are: each
    /// must still be the very value shared by [`Extensions::cow_copy`].
    /// A slot added, removed, or replaced by another value fails.
    pub fn validate_immutable(&self, modified: &OwnedExtensions) -> (r: bool)
        ensures
            r ==> same_immutable(*self, *modified),
            immutable_presence_differs(*self, *modified) ==> !r,
            immutable_all_absent(*self, *modified) ==> r,
    {
        same_allocation_opt(&self.request, &modified.request)
            && same_allocation_opt(&self.agent, &modified.agent)
            && same_allocation_opt(&self.mcp, &modified.mcp)
            && same_allocation_opt(&self.completion, &modified.completion)
            && same_allocation_opt(&self.provenance, &modified.provenance)
            && same_allocation_opt(&self.llm, &modified.llm)
            && same_allocation_opt(&self.framework, &modified.framework)
            && same_allocation_opt(&self.meta, &modified.meta)
    }

    /// Take a workspace's HTTP, security, delegation and custom slots;
    /// every other slot, and the write tokens, stay as they are.
    pub fn merge_owned(&mut self, owned: OwnedExtensions)
        ensures
            final(self).http == match guarded_http(owned.http) {
                Some(h) => Some(Arc::new(h)),
                None => None,
            },
            final(self).security == match owned.security {
                Some(s) => Some(Arc::new(s)),
                None => None,
            },
            final(self).delegation == match owned.delegation {
                Some(d) => Some(Arc::new(d)),
                None => None,
            },
            final(self).custom == match owned.custom {
                Some(c) => Some(Arc::new(c)),
                None => None,
            },
            final(self).request == old(self).request,
            final(self).agent == old(self).agent,
            final(self).mcp == old(self).mcp,
            final(self).completion == old(self).completion,
            final(self).provenance == old(self).provenance,
            final(self).llm == old(self).llm,
            final(self).framework == old(self).framework,
            final(self).meta == old(self).meta,
            final(self).http_write_token == old(self).http_write_token,
            final(self).labels_write_token == old(self).labels_write_token,
            final(self).delegation_write_token == old(self).delegation_write_token,
    {
        self.http = match owned.http {
            Some(g) => Some(Arc::new(g.into_inner())),
            None => None,
        };
        self.security = match owned.security {
            Some(s) => Some(Arc::new(s)),
            None => None,
        };
        self.delegation = match owned.delegation {
            Some(d) => Some(Arc::new(d)),
            None => None,
        };
        self.custom = match owned.custom {
            Some(c) => Some(Arc::new(c)),
            None => None,
        };
    }
}

impl Clone for Extensions {
    /// Shares every slot; write tokens are not copied.
    fn clone(&self) -> (r: Self)
        ensures
            r.request == self.request && r.agent == self.agent && r.http == self.http,
            r.security == self.security && r.delegation == self.delegation && r.mcp == self.mcp,
            r.completion == self.completion && r.provenance == self.provenance && r.llm == self.llm,
            r.framework == self.framework && r.meta == self.meta && r.custom == self.custom,
            r.http_write_token is None && r.labels_write_token is None && r.delegation_write_token is None,
    {
        Extensions {
            request: share_opt(&self.request),
            agent: share_opt(&self.agent),
            http: share_opt(&self.http),
            security: share_opt(&self.security),
            delegation: share_opt(&self.delegation),
            mcp: share_opt(&self.mcp),
            completion: share_opt(&self.completion),
            provenance: share_opt(&self.provenance),
            llm: share_opt(&self.llm),
            framework: share_opt(&self.framework),
            meta: share_opt(&self.meta),
            custom: share_opt(&self.custom),
            http_write_token: None,
            labels_write_token: None,
            delegation_write_token: None,
        }
    }
}

} // verus!
