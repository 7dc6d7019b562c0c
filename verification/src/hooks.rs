//! Hook names: open string identifiers for interception points.
//!
//! The framework does not prescribe a fixed set of hook points; hosts
//! register their own beside the built-in names below.

pub mod hook_names;
pub mod cmf_hook_names;
pub mod plugin_result;

pub use plugin_result::PluginResult;

use vstd::prelude::*;
use vstd::string::*;

use crate::text::str_eq;

verus! {

/// A named hook point in the host's execution lifecycle.
///
/// Hook types are open: hosts register their own alongside the
/// built-in names.
#[derive(Debug)]
pub struct HookType {
    name: String,
}

impl View for HookType {
    type V = Seq<char>;

    closed spec fn view(&self) -> Seq<char> {
        self.name@
    }
}

impl HookType {
    /// Create a hook type from its name.
    pub fn new(name: &str) -> (h: HookType)
        ensures
            h@ == name@,
    {
        HookType { name: String::from_str(name) }
    }

    /// Create a hook type that takes ownership of its name.
    pub fn from_string(name: String) -> (h: HookType)
        ensures
            h@ == name@,
    {
        HookType { name }
    }

    /// The hook name.
    pub fn as_str(&self) -> (s: &str)
        ensures
            s@ == self@,
    {
        self.name.as_str()
    }

    /// The hook name as an owned string (what `Display` shows).
    pub fn to_display_string(&self) -> (s: String)
        ensures
            s@ == self@,
    {
        self.name.clone()
    }
}

impl Clone for HookType {
    fn clone(&self) -> (r: Self)
        ensures
            r@ == self@,
    {
        HookType { name: self.name.clone() }
    }
}

impl PartialEq for HookType {
    fn eq(&self, other: &Self) -> (r: bool) {
        str_eq(self.name.as_str(), other.name.as_str())
    }
}

impl Eq for HookType {}

impl vstd::std_specs::cmp::PartialEqSpecImpl for HookType {
    open spec fn obeys_eq_spec() -> bool {
        true
    }

    open spec fn eq_spec(&self, other: &Self) -> bool {
        self@ == other@
    }
}

impl<'a> From<&'a str> for HookType {
    fn from(s: &'a str) -> (h: HookType) {
        HookType::new(s)
    }
}

impl<'a> vstd::std_specs::convert::FromSpecImpl<&'a str> for HookType {
    /// No closed form is claimed for the conversion; `HookType::new`
    /// states what it builds.
    open spec fn obeys_from_spec() -> bool {
        false
    }

    open spec fn from_spec(v: &'a str) -> HookType {
        arbitrary()
    }
}

/// The names of the built-in hooks: eight with typed payloads, then
/// eight that carry a CMF message.
pub open spec fn builtin_hook_names() -> Seq<Seq<char>> {
    seq![
        "tool_pre_invoke"@, "tool_post_invoke"@, "prompt_pre_fetch"@, "prompt_post_fetch"@,
        "resource_pre_fetch"@, "resource_post_fetch"@, "identity_resolve"@, "token_delegate"@,
        "cmf.tool_pre_invoke"@, "cmf.tool_post_invoke"@, "cmf.llm_input"@, "cmf.llm_output"@,
        "cmf.prompt_pre_fetch"@, "cmf.prompt_post_fetch"@, "cmf.resource_pre_fetch"@,
        "cmf.resource_post_fetch"@,
    ]
}

/// The names of a sequence of hook types.
pub open spec fn hook_type_names(s: Seq<HookType>) -> Seq<Seq<char>> {
    s.map_values(|h: HookType| h@)
}

/// All built-in hook types, in canonical order.
pub fn builtin_hook_types() -> (r: Vec<HookType>)
    ensures
        hook_type_names(r@) == builtin_hook_names(),
        r@.len() == 16,
{
    let r = vec![
        HookType::new("tool_pre_invoke"),
        HookType::new("tool_post_invoke"),
        HookType::new("prompt_pre_fetch"),
        HookType::new("prompt_post_fetch"),
        HookType::new("resource_pre_fetch"),
        HookType::new("resource_post_fetch"),
        HookType::new("identity_resolve"),
        HookType::new("token_delegate"),
        HookType::new("cmf.tool_pre_invoke"),
        HookType::new("cmf.tool_post_invoke"),
        HookType::new("cmf.llm_input"),
        HookType::new("cmf.llm_output"),
        HookType::new("cmf.prompt_pre_fetch"),
        HookType::new("cmf.prompt_post_fetch"),
        HookType::new("cmf.resource_pre_fetch"),
        HookType::new("cmf.resource_post_fetch"),
    ];
    assert(hook_type_names(r@) =~= builtin_hook_names());
    r
}

/// Look up a hook type by name. Every name is a valid hook type: a
/// built-in name gives the built-in hook, any other a custom one.
pub fn hook_type_from_str(name: &str) -> (h: HookType)
    ensures
        h@ == name@,
{
    HookType::new(name)
}

/// A hook's contract: the name under which it is registered.
///
/// Each hook is a marker type implementing this trait.
pub trait HookTypeDef {
    /// The hook name used as registry key and in configuration.
    const NAME: &'static str;
}

} // verus!
