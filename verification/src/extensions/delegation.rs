//! Delegation chain extension.

use vstd::prelude::*;
use vstd::string::*;

use crate::text::{strs_view, clone_strings, clone_opt_string};

verus! {

/// One hop of a delegation chain.
#[derive(Debug, Default)]
pub struct DelegationHop {
    pub subject_id: String,
    pub subject_type: Option<String>,
    pub audience: Option<String>,
    pub scopes_granted: Vec<String>,
    pub timestamp: Option<String>,
    pub ttl_seconds: Option<u64>,
    pub strategy: Option<String>,
    pub from_cache: bool,
}

/// The delegation chain of a request: it only grows.
#[derive(Debug)]
pub struct DelegationExtension {
    pub chain: Vec<DelegationHop>,
    /// Number of hops.
    pub depth: usize,
    pub origin_subject_id: Option<String>,
    pub actor_subject_id: Option<String>,
    /// Whether any delegation happened.
    pub delegated: bool,
}

impl Default for DelegationExtension {
    fn default() -> (d: Self)
        ensures
            d.chain@.len() == 0,
            d.depth == 0,
            d.origin_subject_id is None,
            d.actor_subject_id is None,
            !d.delegated,
    {
        DelegationExtension {
            chain: Vec::new(),
            depth: 0,
            origin_subject_id: None,
            actor_subject_id: None,
            delegated: false,
        }
    }
}

pub open spec fn same_hop(a: DelegationHop, b: DelegationHop) -> bool {
    &&& a.subject_id == b.subject_id
    &&& a.subject_type == b.subject_type
    &&& a.audience == b.audience
    &&& strs_view(a.scopes_granted@) == strs_view(b.scopes_granted@)
    &&& a.timestamp == b.timestamp
    &&& a.ttl_seconds == b.ttl_seconds
    &&& a.strategy == b.strategy
    &&& a.from_cache == b.from_cache
}

/// Whether two delegation extensions hold the same content.
pub open spec fn same_delegation(a: DelegationExtension, b: DelegationExtension) -> bool {
    &&& a.chain@.len() == b.chain@.len()
    &&& forall|i: int| 0 <= i < a.chain@.len() ==> same_hop(#[trigger] a.chain@[i], b.chain@[i])
    &&& a.depth == b.depth
    &&& a.origin_subject_id == b.origin_subject_id
    &&& a.actor_subject_id == b.actor_subject_id
    &&& a.delegated == b.delegated
}

impl DelegationHop {
    /// Copy this hop.
    pub fn duplicate(&self) -> (r: DelegationHop)
        ensures
            same_hop(r, *self),
    {
        DelegationHop {
            subject_id: self.subject_id.clone(),
            subject_type: clone_opt_string(&self.subject_type),
            audience: clone_opt_string(&self.audience),
            scopes_granted: clone_strings(&self.scopes_granted),
            timestamp: clone_opt_string(&self.timestamp),
            ttl_seconds: self.ttl_seconds,
            strategy: clone_opt_string(&self.strategy),
            from_cache: self.from_cache,
        }
    }
}

impl DelegationExtension {
    /// An empty chain.
    pub fn new() -> (d: DelegationExtension)
        ensures
            d.chain@.len() == 0,
            d.depth == 0,
            d.origin_subject_id is None,
            d.actor_subject_id is None,
            !d.delegated,
    {
        DelegationExtension {
            chain: Vec::new(),
            depth: 0,
            origin_subject_id: None,
            actor_subject_id: None,
            delegated: false,
        }
    }

    /// Append a hop: the chain grows by it, the depth becomes the chain's
    /// length, and the request counts as delegated.
    pub fn append_hop(&mut self, hop: DelegationHop)
        requires
            old(self).chain@.len() < usize::MAX,
        ensures
            final(self).chain@ == old(self).chain@.push(hop),
            final(self).depth == final(self).chain@.len(),
            final(self).delegated,
            final(self).origin_subject_id == old(self).origin_subject_id,
            final(self).actor_subject_id == old(self).actor_subject_id,
    {
        self.chain.push(hop);
        self.depth = self.chain.len();
        self.delegated = true;
    }

    /// Copy this extension.
    pub fn duplicate(&self) -> (r: DelegationExtension)
        ensures
            same_delegation(r, *self),
    {
        let mut chain: Vec<DelegationHop> = Vec::new();
        let mut i: usize = 0;
        while i < self.chain.len()
            invariant
                i <= self.chain.len(),
                chain@.len() == i,
                forall|j: int| 0 <= j < i ==> same_hop(#[trigger] chain@[j], self.chain@[j]),
            decreases self.chain.len() - i,
        {
            chain.push(self.chain[i].duplicate());
            i += 1;
        }
        DelegationExtension {
            chain,
            depth: self.depth,
            origin_subject_id: clone_opt_string(&self.origin_subject_id),
            actor_subject_id: clone_opt_string(&self.actor_subject_id),
            delegated: self.delegated,
        }
    }
}

} // verus!
