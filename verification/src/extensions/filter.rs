//! Capability-gated visibility of extensions.
//!
//! A plugin receives a filtered view built from scratch: a slot is
//! present only if it is unrestricted or the plugin holds its read
//! capability. Secure by default: a slot not copied here stays hidden.

use std::sync::Arc;

use vstd::prelude::*;
use vstd::string::*;

use crate::extensions::container::{Extensions, share};
use crate::extensions::monotonic::MonotonicSet;
use crate::extensions::security::{SecurityExtension, SubjectExtension, same_agent, same_objects,
    same_data};
use crate::extensions::tiers::{AccessPolicy, Capability, MutabilityTier, SlotPolicy, capability_name};
use crate::text::{strs_view, strings_contain, clone_strings, pairs_view, clone_pairs, clone_opt_string};

verus! {

/// Extension slots, with the security extension's sub-slots.
#[derive(Debug, Clone, Copy, PartialEq, Eq, Structural)]
pub enum SlotName {
    Request,
    Agent,
    Http,
    Meta,
    Delegation,
    Custom,
    Mcp,
    Completion,
    Provenance,
    Llm,
    Framework,
    SecurityLabels,
    SecuritySubject,
    SecuritySubjectRoles,
    SecuritySubjectTeams,
    SecuritySubjectClaims,
    SecuritySubjectPermissions,
    SecurityObjects,
    SecurityData,
}

pub open spec fn policy(tier: MutabilityTier, access: AccessPolicy, read_cap: Option<Capability>,
    write_cap: Option<Capability>) -> SlotPolicy
{
    SlotPolicy { tier, access, read_cap, write_cap }
}

/// The policy of each slot. Request, provenance, completion, model,
/// framework, MCP and meta are immutable and visible to all; custom is
/// mutable and visible to all; agent and the subject's fields are
/// immutable and gated; HTTP is mutable and gated (`read_headers`,
/// `write_headers`); delegation and labels are monotonic and gated
/// (`read_delegation`/`append_delegation`, `read_labels`/`append_labels`);
/// objects and data policies are immutable and visible to all.
pub open spec fn slot_policy_spec(slot: SlotName) -> SlotPolicy {
    match slot {
        SlotName::Request | SlotName::Provenance | SlotName::Completion | SlotName::Llm
        | SlotName::Framework | SlotName::Mcp | SlotName::Meta | SlotName::SecurityObjects
        | SlotName::SecurityData => policy(MutabilityTier::Immutable, AccessPolicy::Unrestricted, None, None),
        SlotName::Custom => policy(MutabilityTier::Mutable, AccessPolicy::Unrestricted, None, None),
        SlotName::Agent => policy(MutabilityTier::Immutable, AccessPolicy::CapabilityGated,
            Some(Capability::ReadAgent), None),
        SlotName::Http => policy(MutabilityTier::Mutable, AccessPolicy::CapabilityGated,
            Some(Capability::ReadHeaders), Some(Capability::WriteHeaders)),
        SlotName::Delegation => policy(MutabilityTier::Monotonic, AccessPolicy::CapabilityGated,
            Some(Capability::ReadDelegation), Some(Capability::AppendDelegation)),
        SlotName::SecurityLabels => policy(MutabilityTier::Monotonic, AccessPolicy::CapabilityGated,
            Some(Capability::ReadLabels), Some(Capability::AppendLabels)),
        SlotName::SecuritySubject => policy(MutabilityTier::Immutable, AccessPolicy::CapabilityGated,
            Some(Capability::ReadSubject), None),
        SlotName::SecuritySubjectRoles => policy(MutabilityTier::Immutable, AccessPolicy::CapabilityGated,
            Some(Capability::ReadRoles), None),
        SlotName::SecuritySubjectTeams => policy(MutabilityTier::Immutable, AccessPolicy::CapabilityGated,
            Some(Capability::ReadTeams), None),
        SlotName::SecuritySubjectClaims => policy(MutabilityTier::Immutable, AccessPolicy::CapabilityGated,
            Some(Capability::ReadClaims), None),
        SlotName::SecuritySubjectPermissions => policy(MutabilityTier::Immutable,
            AccessPolicy::CapabilityGated, Some(Capability::ReadPermissions), None),
    }
}

/// The policy of a slot.
pub fn slot_policy(slot: SlotName) -> (p: SlotPolicy)
    ensures
        p == slot_policy_spec(slot),
{
    match slot {
        SlotName::Request => SlotPolicy {
            tier: MutabilityTier::Immutable,
            access: AccessPolicy::Unrestricted,
            read_cap: None,
            write_cap: None,
        },
        SlotName::Provenance => SlotPolicy {
            tier: MutabilityTier::Immutable,
            access: AccessPolicy::Unrestricted,
            read_cap: None,
            write_cap: None,
        },
        SlotName::Completion => SlotPolicy {
            tier: MutabilityTier::Immutable,
            access: AccessPolicy::Unrestricted,
            read_cap: None,
            write_cap: None,
        },
        SlotName::Llm => SlotPolicy {
            tier: MutabilityTier::Immutable,
            access: AccessPolicy::Unrestricted,
            read_cap: None,
            write_cap: None,
        },
        SlotName::Framework => SlotPolicy {
            tier: MutabilityTier::Immutable,
            access: AccessPolicy::Unrestricted,
            read_cap: None,
            write_cap: None,
        },
        SlotName::Mcp => SlotPolicy {
            tier: MutabilityTier::Immutable,
            access: AccessPolicy::Unrestricted,
            read_cap: None,
            write_cap: None,
        },
        SlotName::Meta => SlotPolicy {
            tier: MutabilityTier::Immutable,
            access: AccessPolicy::Unrestricted,
            read_cap: None,
            write_cap: None,
        },
        SlotName::Custom => SlotPolicy {
            tier: MutabilityTier::Mutable,
            access: AccessPolicy::Unrestricted,
            read_cap: None,
            write_cap: None,
        },
        SlotName::Agent => SlotPolicy {
            tier: MutabilityTier::Immutable,
            access: AccessPolicy::CapabilityGated,
            read_cap: Some(Capability::ReadAgent),
            write_cap: None,
        },
        SlotName::Http => SlotPolicy {
            tier: MutabilityTier::Mutable,
            access: AccessPolicy::CapabilityGated,
            read_cap: Some(Capability::ReadHeaders),
            write_cap: Some(Capability::WriteHeaders),
        },
        SlotName::Delegation => SlotPolicy {
            tier: MutabilityTier::Monotonic,
            access: AccessPolicy::CapabilityGated,
            read_cap: Some(Capability::ReadDelegation),
            write_cap: Some(Capability::AppendDelegation),
        },
        SlotName::SecurityLabels => SlotPolicy {
            tier: MutabilityTier::Monotonic,
            access: AccessPolicy::CapabilityGated,
            read_cap: Some(Capability::ReadLabels),
            write_cap: Some(Capability::AppendLabels),
        },
        SlotName::SecuritySubject => SlotPolicy {
            tier: MutabilityTier::Immutable,
            access: AccessPolicy::CapabilityGated,
            read_cap: Some(Capability::ReadSubject),
            write_cap: None,
        },
        SlotName::SecuritySubjectRoles => SlotPolicy {
            tier: MutabilityTier::Immutable,
            access: AccessPolicy::CapabilityGated,
            read_cap: Some(Capability::ReadRoles),
            write_cap: None,
        },
        SlotName::SecuritySubjectTeams => SlotPolicy {
            tier: MutabilityTier::Immutable,
            access: AccessPolicy::CapabilityGated,
            read_cap: Some(Capability::ReadTeams),
            write_cap: None,
        },
        SlotName::SecuritySubjectClaims => SlotPolicy {
            tier: MutabilityTier::Immutable,
            access: AccessPolicy::CapabilityGated,
            read_cap: Some(Capability::ReadClaims),
            write_cap: None,
        },
        SlotName::SecuritySubjectPermissions => SlotPolicy {
            tier: MutabilityTier::Immutable,
            access: AccessPolicy::CapabilityGated,
            read_cap: Some(Capability::ReadPermissions),
            write_cap: None,
        },
        SlotName::SecurityObjects => SlotPolicy {
            tier: MutabilityTier::Immutable,
            access: AccessPolicy::Unrestricted,
            read_cap: None,
            write_cap: None,
        },
        SlotName::SecurityData => SlotPolicy {
            tier: MutabilityTier::Immutable,
            access: AccessPolicy::Unrestricted,
            read_cap: None,
            write_cap: None,
        },
    }
}

/// Whether a list of declared capabilities holds `c`.
pub open spec fn holds(caps: Seq<Seq<char>>, c: Capability) -> bool {
    caps.contains(capability_name(c))
}

/// Whether the capabilities grant any access to the subject.
pub open spec fn any_subject_capability(caps: Seq<Seq<char>>) -> bool {
    holds(caps, Capability::ReadSubject) || holds(caps, Capability::ReadRoles)
        || holds(caps, Capability::ReadTeams) || holds(caps, Capability::ReadClaims)
        || holds(caps, Capability::ReadPermissions)
}

/// Whether the capabilities grant read access under a policy: an
/// unrestricted slot is readable by all; a gated one by holders of its
/// read capability; the subject also by holders of any subject
/// capability.
pub open spec fn read_access(p: SlotPolicy, caps: Seq<Seq<char>>) -> bool {
    ||| p.access == AccessPolicy::Unrestricted
    ||| (p.read_cap matches Some(c) && holds(caps, c))
    ||| (p.read_cap == Some(Capability::ReadSubject) && any_subject_capability(caps))
}

/// The name a capability is declared by.
fn cap_str(cap: Capability) -> (s: &'static str)
    ensures
        s@ == capability_name(cap),
{
    cap.as_str()
}

fn holds_cap(capabilities: &Vec<String>, cap: Capability) -> (r: bool)
    ensures
        r == holds(strs_view(capabilities@), cap),
{
    strings_contain(capabilities, cap_str(cap))
}

fn has_any_subject_capability(capabilities: &Vec<String>) -> (r: bool)
    ensures
        r == any_subject_capability(strs_view(capabilities@)),
{
    holds_cap(capabilities, Capability::ReadSubject)
        || holds_cap(capabilities, Capability::ReadRoles)
        || holds_cap(capabilities, Capability::ReadTeams)
        || holds_cap(capabilities, Capability::ReadClaims)
        || holds_cap(capabilities, Capability::ReadPermissions)
}

fn has_read_access(policy: &SlotPolicy, capabilities: &Vec<String>) -> (r: bool)
    ensures
        r == read_access(*policy, strs_view(capabilities@)),
{
    if policy.access == AccessPolicy::Unrestricted {
        return true;
    }
    match policy.read_cap {
        Some(c) => {
            if holds_cap(capabilities, c) {
                return true;
            }
        },
        None => {},
    }
    if policy.read_cap == Some(Capability::ReadSubject) {
        return has_any_subject_capability(capabilities);
    }
    false
}

/// What a plugin with `caps` sees of a subject: id and type always; each
/// of roles, permissions, teams and claims only with its capability.
pub open spec fn filtered_subject_ok(f: SubjectExtension, s: SubjectExtension, caps: Seq<Seq<char>>) -> bool {
    &&& f.id == s.id
    &&& f.subject_type == s.subject_type
    &&& strs_view(f.roles@) == if holds(caps, Capability::ReadRoles) { strs_view(s.roles@) } else { Seq::empty() }
    &&& strs_view(f.permissions@) == if holds(caps, Capability::ReadPermissions) {
        strs_view(s.permissions@)
    } else {
        Seq::empty()
    }
    &&& strs_view(f.teams@) == if holds(caps, Capability::ReadTeams) { strs_view(s.teams@) } else { Seq::empty() }
    &&& pairs_view(f.claims@) == if holds(caps, Capability::ReadClaims) {
        pairs_view(s.claims@)
    } else {
        Seq::empty()
    }
}

/// What a plugin with `caps` sees of the security extension: objects,
/// data policies, classification, agent identity and auth method always;
/// labels only with `read_labels`; the subject only with a subject
/// capability, filtered field by field.
pub open spec fn filtered_security_ok(f: SecurityExtension, s: SecurityExtension, caps: Seq<Seq<char>>) -> bool {
    &&& same_objects(f.objects@, s.objects@)
    &&& same_data(f.data@, s.data@)
    &&& f.classification == s.classification
    &&& (f.agent is Some <==> s.agent is Some)
    &&& (f.agent is Some ==> same_agent(f.agent.unwrap(), s.agent.unwrap()))
    &&& f.auth_method == s.auth_method
    &&& f.labels@ == if read_access(slot_policy_spec(SlotName::SecurityLabels), caps) {
        s.labels@
    } else {
        Seq::empty()
    }
    &&& (f.subject is Some <==> (s.subject is Some && any_subject_capability(caps)))
    &&& (f.subject is Some ==> filtered_subject_ok(f.subject.unwrap(), s.subject.unwrap(), caps))
}

/// A gated slot as a plugin sees it.
pub open spec fn gated<T>(slot: Option<Arc<T>>, p: SlotPolicy, caps: Seq<Seq<char>>) -> Option<Arc<T>> {
    if slot is Some && read_access(p, caps) { slot } else { None }
}

/// Whether `f` is the view of `e` for a plugin declaring `caps`.
pub open spec fn is_filtered_view(f: Extensions, e: Extensions, caps: Seq<Seq<char>>) -> bool {
    &&& f.request == e.request
    &&& f.provenance == e.provenance
    &&& f.completion == e.completion
    &&& f.llm == e.llm
    &&& f.framework == e.framework
    &&& f.mcp == e.mcp
    &&& f.meta == e.meta
    &&& f.custom == e.custom
    &&& f.delegation == gated(e.delegation, slot_policy_spec(SlotName::Delegation), caps)
    &&& f.agent == gated(e.agent, slot_policy_spec(SlotName::Agent), caps)
    &&& f.http == gated(e.http, slot_policy_spec(SlotName::Http), caps)
    &&& (f.security is Some <==> e.security is Some)
    &&& (f.security is Some ==> filtered_security_ok(*f.security.unwrap(), *e.security.unwrap(), caps))
    &&& f.http_write_token is None
    &&& f.labels_write_token is None
    &&& f.delegation_write_token is None
}

/// The subject as seen by a plugin with the given capabilities.
pub fn build_filtered_subject(subject: &SubjectExtension, capabilities: &Vec<String>) -> (f: SubjectExtension)
    ensures
        filtered_subject_ok(f, *subject, strs_view(capabilities@)),
{
    let roles = if holds_cap(capabilities, Capability::ReadRoles) {
        clone_strings(&subject.roles)
    } else {
        empty_strings()
    };
    let permissions = if holds_cap(capabilities, Capability::ReadPermissions) {
        clone_strings(&subject.permissions)
    } else {
        empty_strings()
    };
    let teams = if holds_cap(capabilities, Capability::ReadTeams) {
        clone_strings(&subject.teams)
    } else {
        empty_strings()
    };
    let claims = if holds_cap(capabilities, Capability::ReadClaims) {
        clone_pairs(&subject.claims)
    } else {
        let v: Vec<(String, String)> = Vec::new();
        assert(pairs_view(v@) =~= Seq::<(Seq<char>, Seq<char>)>::empty());
        v
    };
    SubjectExtension {
        id: clone_opt_string(&subject.id),
        subject_type: subject.subject_type,
        roles,
        permissions,
        teams,
        claims,
    }
}

fn empty_strings() -> (v: Vec<String>)
    ensures
        strs_view(v@) == Seq::<Seq<char>>::empty(),
{
    let v: Vec<String> = Vec::new();
    assert(strs_view(v@) =~= Seq::<Seq<char>>::empty());
    v
}

/// The security extension as seen by a plugin with the given
/// capabilities.
pub fn build_filtered_security(security: &SecurityExtension, capabilities: &Vec<String>) -> (f: SecurityExtension)
    ensures
        filtered_security_ok(f, *security, strs_view(capabilities@)),
{
    let copy = security.duplicate();
    let labels_policy = slot_policy(SlotName::SecurityLabels);
    let labels = if has_read_access(&labels_policy, capabilities) {
        copy.labels
    } else {
        let m = MonotonicSet::new();
        assert(m@ =~= Seq::<Seq<char>>::empty());
        m
    };
    let subject = match &security.subject {
        Some(s) => {
            if has_any_subject_capability(capabilities) {
                Some(build_filtered_subject(s, capabilities))
            } else {
                None
            }
        },
        None => None,
    };
    SecurityExtension {
        labels,
        classification: copy.classification,
        subject,
        agent: copy.agent,
        auth_method: copy.auth_method,
        objects: copy.objects,
        data: copy.data,
    }
}

fn gate<T>(slot: &Option<Arc<T>>, name: SlotName, capabilities: &Vec<String>) -> (r: Option<Arc<T>>)
    ensures
        r == gated(*slot, slot_policy_spec(name), strs_view(capabilities@)),
{
    match slot {
        Some(a) => {
            let p = slot_policy(name);
            if has_read_access(&p, capabilities) {
                Some(share(a))
            } else {
                None
            }
        },
        None => None,
    }
}

fn share_slot<T>(o: &Option<Arc<T>>) -> (r: Option<Arc<T>>)
    ensures
        r == *o,
{
    match o {
        Some(a) => Some(share(a)),
        None => None,
    }
}

/// The extensions a plugin declaring `capabilities` may see (see
/// [`is_filtered_view`]). No write tokens are set.
pub fn filter_extensions(extensions: &Extensions, capabilities: &Vec<String>) -> (f: Extensions)
    ensures
        is_filtered_view(f, *extensions, strs_view(capabilities@)),
{
    let mut filtered = Extensions::empty();
    filtered.request = share_slot(&extensions.request);
    filtered.provenance = share_slot(&extensions.provenance);
    filtered.completion = share_slot(&extensions.completion);
    filtered.llm = share_slot(&extensions.llm);
    filtered.framework = share_slot(&extensions.framework);
    filtered.mcp = share_slot(&extensions.mcp);
    filtered.meta = share_slot(&extensions.meta);
    filtered.custom = share_slot(&extensions.custom);
    filtered.delegation = gate(&extensions.delegation, SlotName::Delegation, capabilities);
    filtered.agent = gate(&extensions.agent, SlotName::Agent, capabilities);
    filtered.http = gate(&extensions.http, SlotName::Http, capabilities);
    filtered.security = match &extensions.security {
        Some(s) => Some(Arc::new(build_filtered_security(s, capabilities))),
        None => None,
    };
    filtered
}

/// A plugin that declares no capability sees no HTTP headers, agent
/// context, delegation chain, security labels or subject.
pub proof fn lemma_no_capabilities_hides_gated_slots(f: Extensions, e: Extensions)
    requires
        is_filtered_view(f, e, Seq::empty()),
    ensures
        f.http is None,
        f.agent is None,
        f.delegation is None,
        f.security matches Some(s) ==> s.labels@.len() == 0 && s.subject is None,
{
}

/// A plugin sees a gated slot exactly when the slot is present and the
/// plugin holds its read capability; then it sees the slot unchanged.
pub proof fn lemma_gated_slot_visibility(f: Extensions, e: Extensions, caps: Seq<Seq<char>>)
    requires
        is_filtered_view(f, e, caps),
    ensures
        f.http is Some <==> (e.http is Some && caps.contains("read_headers"@)),
        f.agent is Some <==> (e.agent is Some && caps.contains("read_agent"@)),
        f.delegation is Some <==> (e.delegation is Some && caps.contains("read_delegation"@)),
        f.http is Some ==> f.http == e.http,
        f.agent is Some ==> f.agent == e.agent,
        f.delegation is Some ==> f.delegation == e.delegation,
{
}

/// Security labels show only with `read_labels`. Each subject capability
/// opens the subject: a plugin sees the subject
/// exactly when there is one and it declares `read_subject`, `read_roles`,
/// `read_teams`, `read_claims` or `read_permissions`. It then sees the
/// subject's id and type, and its roles, teams, claims and permissions
/// each exactly when it declares the matching capability (none
/// otherwise).
pub proof fn lemma_subject_capabilities(f: Extensions, e: Extensions, caps: Seq<Seq<char>>)
    requires
        is_filtered_view(f, e, caps),
        e.security is Some,
    ensures ({
        let fs = *f.security.unwrap();
        let es = *e.security.unwrap();
        &&& fs.labels@ == if caps.contains("read_labels"@) { es.labels@ } else { Seq::empty() }
        &&& fs.subject is Some <==> (es.subject is Some && (caps.contains("read_subject"@)
            || caps.contains("read_roles"@) || caps.contains("read_teams"@)
            || caps.contains("read_claims"@) || caps.contains("read_permissions"@)))
        &&& fs.subject is Some ==> {
            let fsub = fs.subject.unwrap();
            let esub = es.subject.unwrap();
            &&& fsub.id == esub.id
            &&& fsub.subject_type == esub.subject_type
            &&& strs_view(fsub.roles@) == if caps.contains("read_roles"@) { strs_view(esub.roles@) } else { Seq::empty() }
            &&& strs_view(fsub.teams@) == if caps.contains("read_teams"@) { strs_view(esub.teams@) } else { Seq::empty() }
            &&& pairs_view(fsub.claims@) == if caps.contains("read_claims"@) { pairs_view(esub.claims@) } else { Seq::empty() }
            &&& strs_view(fsub.permissions@) == if caps.contains("read_permissions"@) {
                strs_view(esub.permissions@)
            } else {
                Seq::empty()
            }
        }
    }),
{
}

} // verus!
