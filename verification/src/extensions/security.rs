//! Security extension: labels, classification, caller identity, this
//! agent's identity, object profiles and data policies.

use vstd::prelude::*;
use vstd::string::*;

use crate::extensions::monotonic::{MonotonicSet, has_label_spec};
use crate::text::{strs_view, clone_strings, pairs_view, clone_pairs, clone_opt_string};

verus! {

/// Kind of authenticated subject.
#[derive(Debug, Clone, Copy, PartialEq, Eq, Structural)]
pub enum SubjectType {
    User,
    Agent,
    Service,
    System,
}

/// The authenticated caller.
#[derive(Debug, Default)]
pub struct SubjectExtension {
    /// Subject identifier (e.g. a token's `sub`).
    pub id: Option<String>,
    pub subject_type: Option<SubjectType>,
    /// Assigned roles (a set).
    pub roles: Vec<String>,
    /// Granted permissions (a set).
    pub permissions: Vec<String>,
    /// Team memberships (a set).
    pub teams: Vec<String>,
    /// Raw claims, name to value.
    pub claims: Vec<(String, String)>,
}

/// Security profile of a managed object.
#[derive(Debug, Default)]
pub struct ObjectSecurityProfile {
    pub managed_by: Option<String>,
    pub permissions: Vec<String>,
    pub trust_domain: Option<String>,
    pub data_scope: Vec<String>,
}

/// How long data may be kept.
#[derive(Debug, Default)]
pub struct RetentionPolicy {
    pub max_age_seconds: Option<u64>,
    pub policy: String,
    pub delete_after: Option<String>,
}

/// Policy for a named data element.
#[derive(Debug, Default)]
pub struct DataPolicy {
    /// Labels to apply.
    pub apply_labels: Vec<String>,
    /// Allowed actions (`None`: all allowed).
    pub allowed_actions: Option<Vec<String>>,
    pub denied_actions: Vec<String>,
    pub retention: Option<RetentionPolicy>,
}

/// This agent's own workload identity (not the caller's).
#[derive(Debug, Default)]
pub struct AgentIdentity {
    /// OAuth client id of this agent.
    pub client_id: Option<String>,
    /// Workload identity URI (e.g. a SPIFFE id).
    pub workload_id: Option<String>,
    /// Trust domain of the workload identity.
    pub trust_domain: Option<String>,
}

/// Security-related extensions.
#[derive(Debug, Default)]
pub struct SecurityExtension {
    /// Labels: add-only.
    pub labels: MonotonicSet,
    /// Data classification level.
    pub classification: Option<String>,
    /// Who is calling.
    pub subject: Option<SubjectExtension>,
    /// Who this agent is; set by the host.
    pub agent: Option<AgentIdentity>,
    /// Authentication method (e.g. `jwt`, `mtls`).
    pub auth_method: Option<String>,
    /// Object security profiles by object name.
    pub objects: Vec<(String, ObjectSecurityProfile)>,
    /// Data policies by data element name.
    pub data: Vec<(String, DataPolicy)>,
}

impl Default for MonotonicSet {
    fn default() -> (s: Self)
        ensures
            s@.len() == 0,
    {
        MonotonicSet::new()
    }
}

// -- Copies -----------------------------------------------------------------

/// Whether two subjects hold the same content.
pub open spec fn same_subject(a: SubjectExtension, b: SubjectExtension) -> bool {
    &&& a.id == b.id
    &&& a.subject_type == b.subject_type
    &&& strs_view(a.roles@) == strs_view(b.roles@)
    &&& strs_view(a.permissions@) == strs_view(b.permissions@)
    &&& strs_view(a.teams@) == strs_view(b.teams@)
    &&& pairs_view(a.claims@) == pairs_view(b.claims@)
}

pub open spec fn same_profile(a: ObjectSecurityProfile, b: ObjectSecurityProfile) -> bool {
    &&& a.managed_by == b.managed_by
    &&& strs_view(a.permissions@) == strs_view(b.permissions@)
    &&& a.trust_domain == b.trust_domain
    &&& strs_view(a.data_scope@) == strs_view(b.data_scope@)
}

pub open spec fn same_policy(a: DataPolicy, b: DataPolicy) -> bool {
    &&& strs_view(a.apply_labels@) == strs_view(b.apply_labels@)
    &&& (a.allowed_actions is Some <==> b.allowed_actions is Some)
    &&& (a.allowed_actions is Some ==> strs_view(a.allowed_actions.unwrap()@) == strs_view(b.allowed_actions.unwrap()@))
    &&& strs_view(a.denied_actions@) == strs_view(b.denied_actions@)
    &&& (a.retention is Some <==> b.retention is Some)
    &&& (a.retention is Some ==> ({
        let x = a.retention.unwrap();
        let y = b.retention.unwrap();
        x.max_age_seconds == y.max_age_seconds && x.policy == y.policy && x.delete_after == y.delete_after
    }))
}

pub open spec fn same_agent(a: AgentIdentity, b: AgentIdentity) -> bool {
    a.client_id == b.client_id && a.workload_id == b.workload_id && a.trust_domain == b.trust_domain
}

pub open spec fn same_objects(a: Seq<(String, ObjectSecurityProfile)>, b: Seq<(String, ObjectSecurityProfile)>) -> bool {
    a.len() == b.len() && forall|i: int| 0 <= i < a.len() ==> #[trigger] a[i].0 == b[i].0 && same_profile(a[i].1, b[i].1)
}

pub open spec fn same_data(a: Seq<(String, DataPolicy)>, b: Seq<(String, DataPolicy)>) -> bool {
    a.len() == b.len() && forall|i: int| 0 <= i < a.len() ==> #[trigger] a[i].0 == b[i].0 && same_policy(a[i].1, b[i].1)
}

/// Whether two security extensions hold the same content.
pub open spec fn same_security(a: SecurityExtension, b: SecurityExtension) -> bool {
    &&& a.labels@ == b.labels@
    &&& a.classification == b.classification
    &&& (a.subject is Some <==> b.subject is Some)
    &&& (a.subject is Some ==> same_subject(a.subject.unwrap(), b.subject.unwrap()))
    &&& (a.agent is Some <==> b.agent is Some)
    &&& (a.agent is Some ==> same_agent(a.agent.unwrap(), b.agent.unwrap()))
    &&& a.auth_method == b.auth_method
    &&& same_objects(a.objects@, b.objects@)
    &&& same_data(a.data@, b.data@)
}

impl SubjectExtension {
    /// Copy this subject.
    pub fn duplicate(&self) -> (r: SubjectExtension)
        ensures
            same_subject(r, *self),
    {
        SubjectExtension {
            id: clone_opt_string(&self.id),
            subject_type: self.subject_type,
            roles: clone_strings(&self.roles),
            permissions: clone_strings(&self.permissions),
            teams: clone_strings(&self.teams),
            claims: clone_pairs(&self.claims),
        }
    }
}

impl AgentIdentity {
    /// Copy this identity.
    pub fn duplicate(&self) -> (r: AgentIdentity)
        ensures
            same_agent(r, *self),
    {
        AgentIdentity {
            client_id: clone_opt_string(&self.client_id),
            workload_id: clone_opt_string(&self.workload_id),
            trust_domain: clone_opt_string(&self.trust_domain),
        }
    }
}

fn clone_objects(v: &Vec<(String, ObjectSecurityProfile)>) -> (r: Vec<(String, ObjectSecurityProfile)>)
    ensures
        same_objects(r@, v@),
{
    let mut out: Vec<(String, ObjectSecurityProfile)> = Vec::new();
    let mut i: usize = 0;
    while i < v.len()
        invariant
            i <= v.len(),
            out@.len() == i,
            forall|j: int| 0 <= j < i ==> #[trigger] out@[j].0 == v@[j].0 && same_profile(out@[j].1, v@[j].1),
        decreases v.len() - i,
    {
        let p = &v[i].1;
        let c = ObjectSecurityProfile {
            managed_by: clone_opt_string(&p.managed_by),
            permissions: clone_strings(&p.permissions),
            trust_domain: clone_opt_string(&p.trust_domain),
            data_scope: clone_strings(&p.data_scope),
        };
        out.push((v[i].0.clone(), c));
        i += 1;
    }
    out
}

fn clone_data(v: &Vec<(String, DataPolicy)>) -> (r: Vec<(String, DataPolicy)>)
    ensures
        same_data(r@, v@),
{
    let mut out: Vec<(String, DataPolicy)> = Vec::new();
    let mut i: usize = 0;
    while i < v.len()
        invariant
            i <= v.len(),
            out@.len() == i,
            forall|j: int| 0 <= j < i ==> #[trigger] out@[j].0 == v@[j].0 && same_policy(out@[j].1, v@[j].1),
        decreases v.len() - i,
    {
        let p = &v[i].1;
        let c = DataPolicy {
            apply_labels: clone_strings(&p.apply_labels),
            allowed_actions: match &p.allowed_actions {
                Some(a) => Some(clone_strings(a)),
                None => None,
            },
            denied_actions: clone_strings(&p.denied_actions),
            retention: match &p.retention {
                Some(r) => Some(RetentionPolicy {
                    max_age_seconds: r.max_age_seconds,
                    policy: r.policy.clone(),
                    delete_after: clone_opt_string(&r.delete_after),
                }),
                None => None,
            },
        };
        out.push((v[i].0.clone(), c));
        i += 1;
    }
    out
}

impl SecurityExtension {
    /// No labels, classification, identities, profiles or policies.
    pub fn new() -> (s: SecurityExtension)
        ensures
            s.labels@.len() == 0,
            s.classification is None,
            s.subject is None,
            s.agent is None,
            s.auth_method is None,
            s.objects@.len() == 0,
            s.data@.len() == 0,
    {
        SecurityExtension {
            labels: MonotonicSet::new(),
            classification: None,
            subject: None,
            agent: None,
            auth_method: None,
            objects: Vec::new(),
            data: Vec::new(),
        }
    }

    /// Add a security label (it can never be removed).
    pub fn add_label(&mut self, label: &str)
        ensures
            final(self).labels@ == if old(self).labels@.contains(label@) {
                old(self).labels@
            } else {
                old(self).labels@.push(label@)
            },
            final(self).classification == old(self).classification,
            final(self).subject == old(self).subject,
            final(self).agent == old(self).agent,
            final(self).auth_method == old(self).auth_method,
            final(self).objects == old(self).objects,
            final(self).data == old(self).data,
    {
        self.labels.add_label(label);
    }

    /// Whether a label is present, ignoring case.
    pub fn has_label(&self, label: &str) -> (r: bool)
        ensures
            r == has_label_spec(self.labels@, label@),
    {
        self.labels.has_label(label)
    }

    /// Copy this extension.
    pub fn duplicate(&self) -> (r: SecurityExtension)
        ensures
            same_security(r, *self),
    {
        SecurityExtension {
            labels: self.labels.clone(),
            classification: clone_opt_string(&self.classification),
            subject: match &self.subject {
                Some(s) => Some(s.duplicate()),
                None => None,
            },
            agent: match &self.agent {
                Some(a) => Some(a.duplicate()),
                None => None,
            },
            auth_method: clone_opt_string(&self.auth_method),
            objects: clone_objects(&self.objects),
            data: clone_data(&self.data),
        }
    }
}

/// Whatever labels are added, a label once present stays present, and
/// stays found by a case-insensitive lookup.
pub proof fn lemma_label_stays(before: Seq<Seq<char>>, added: Seq<char>, label: Seq<char>)
    requires
        has_label_spec(before, label),
    ensures
        has_label_spec(if before.contains(added) { before } else { before.push(added) }, label),
{
    let after = if before.contains(added) { before } else { before.push(added) };
    let i = choose|i: int| 0 <= i < before.len()
        && crate::text::unicode_lowercase(#[trigger] before[i]) == crate::text::unicode_lowercase(label);
    assert(after[i] == before[i]);
}

} // verus!
