//! Plugin declarations: execution mode, error policy, and the
//! authoritative configuration the executor schedules by.

use vstd::prelude::*;

use crate::json::JsonValue;
use crate::text::{clone_strings, strs_view, clone_opt_string};

verus! {

/// Execution mode of a plugin: its phase, and with it what the plugin
/// may do.
///
/// | Mode          | Can block | Can modify |
/// |---------------|-----------|------------|
/// | Sequential    | yes       | yes        |
/// | Transform     | no        | yes        |
/// | Audit         | no        | no         |
/// | Concurrent    | yes       | no         |
/// | FireAndForget | no        | no         |
/// | Disabled      | never runs               |
#[derive(Debug, Clone, Copy, PartialEq, Eq, Structural)]
pub enum PluginMode {
    Sequential,
    Transform,
    Audit,
    Concurrent,
    FireAndForget,
    Disabled,
}

/// What the pipeline does when a plugin fails or times out.
#[derive(Debug, Clone, Copy, PartialEq, Eq, Structural)]
pub enum OnError {
    /// Halt the pipeline (in phases that can block).
    Fail,
    /// Record the error and continue.
    Ignore,
    /// Record the error, disable the plugin, and continue.
    Disable,
}

/// Default priority of a plugin that declares none.
pub const DEFAULT_PRIORITY: i32 = 100;

/// A plugin declaration, as read from configuration.
///
/// This is the authoritative configuration: the executor takes every
/// scheduling decision from it, never from the plugin itself.
#[derive(Debug)]
pub struct PluginConfig {
    /// Unique plugin name.
    pub name: String,
    /// Plugin kind (factory key).
    pub kind: String,
    pub description: Option<String>,
    pub author: Option<String>,
    pub version: Option<String>,
    /// Hook names the plugin handles.
    pub hooks: Vec<String>,
    pub mode: PluginMode,
    /// Lower runs first.
    pub priority: i32,
    pub on_error: OnError,
    /// Declared capabilities (e.g. `read_labels`, `write_headers`).
    pub capabilities: Vec<String>,
    pub tags: Vec<String>,
    /// Plugin-declared firing conditions, used when routing is off.
    pub conditions: Vec<JsonValue>,
    /// Plugin-specific configuration.
    pub config: Option<JsonValue>,
}

impl PluginConfig {
    /// A configuration with the given name and kind and every other
    /// field at its default: sequential mode, priority 100, fail on
    /// error, no hooks, capabilities, tags, conditions or settings.
    pub fn new(name: &str, kind: &str) -> (c: PluginConfig)
        ensures
            c.name@ == name@,
            c.kind@ == kind@,
            c.description is None,
            c.author is None,
            c.version is None,
            c.hooks@.len() == 0,
            c.mode == PluginMode::Sequential,
            c.priority == DEFAULT_PRIORITY,
            c.on_error == OnError::Fail,
            c.capabilities@.len() == 0,
            c.tags@.len() == 0,
            c.conditions@.len() == 0,
            c.config is None,
    {
        PluginConfig {
            name: String::from_str(name),
            kind: String::from_str(kind),
            description: None,
            author: None,
            version: None,
            hooks: Vec::new(),
            mode: PluginMode::Sequential,
            priority: DEFAULT_PRIORITY,
            on_error: OnError::Fail,
            capabilities: Vec::new(),
            tags: Vec::new(),
            conditions: Vec::new(),
            config: None,
        }
    }

    /// Whether the plugin declared a capability.
    pub fn has_capability(&self, cap: &str) -> (r: bool)
        ensures
            r == strs_view(self.capabilities@).contains(cap@),
    {
        crate::text::strings_contain(&self.capabilities, cap)
    }

    /// Copy this configuration.
    pub fn duplicate(&self) -> (c: PluginConfig)
        ensures
            c.name == self.name,
            c.kind == self.kind,
            c.description == self.description,
            c.author == self.author,
            c.version == self.version,
            strs_view(c.hooks@) == strs_view(self.hooks@),
            c.mode == self.mode,
            c.priority == self.priority,
            c.on_error == self.on_error,
            strs_view(c.capabilities@) == strs_view(self.capabilities@),
            strs_view(c.tags@) == strs_view(self.tags@),
            c.conditions@.len() == self.conditions@.len(),
            forall|i: int| 0 <= i < c.conditions@.len() ==> c.conditions@[i]@ == self.conditions@[i]@,
            c.config matches Some(v) ==> self.config matches Some(w) && v@ == w@,
            c.config is None <==> self.config is None,
    {
        let mut conditions: Vec<JsonValue> = Vec::new();
        let mut i: usize = 0;
        while i < self.conditions.len()
            invariant
                i <= self.conditions.len(),
                conditions@.len() == i,
                forall|j: int| 0 <= j < i ==> conditions@[j]@ == self.conditions@[j]@,
            decreases self.conditions.len() - i,
        {
            conditions.push(self.conditions[i].clone());
            i += 1;
        }
        PluginConfig {
            name: self.name.clone(),
            kind: self.kind.clone(),
            description: clone_opt_string(&self.description),
            author: clone_opt_string(&self.author),
            version: clone_opt_string(&self.version),
            hooks: clone_strings(&self.hooks),
            mode: self.mode,
            priority: self.priority,
            on_error: self.on_error,
            capabilities: clone_strings(&self.capabilities),
            tags: clone_strings(&self.tags),
            conditions,
            config: match &self.config {
                Some(v) => Some(v.clone()),
                None => None,
            },
        }
    }
}

} // verus!
