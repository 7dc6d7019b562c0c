//! The plugin manager: registration, lifecycle state, and the start of
//! each hook invocation.
//!
//! Lifecycle: `new` → register plugins → initialize → invoke hooks →
//! shutdown. The manager holds the authoritative configuration of every
//! plugin; the executor takes every scheduling decision from it.

use vstd::prelude::*;
use vstd::string::*;

use crate::context::PluginContextTable;
use crate::error::PluginError;
use crate::executor::{Executor, ExecutorConfig, PipelineRun, Phase};
use crate::extensions::container::Extensions;
use crate::hooks::HookTypeDef;
use crate::plugin::PluginConfig;
use crate::registry::{named_in, PluginRef, PluginRegistry, HookEntry, entry_views, plugin_index, ref_names};
use crate::text::strs_view;

verus! {

/// Configuration of the manager.
#[derive(Debug, Clone, Copy)]
pub struct ManagerConfig {
    pub executor: ExecutorConfig,
}

impl Default for ManagerConfig {
    fn default() -> (c: Self)
        ensures
            c.executor.timeout_seconds == 30,
            c.executor.short_circuit_on_deny,
    {
        ManagerConfig { executor: ExecutorConfig::default() }
    }
}

/// Central plugin lifecycle and dispatch manager.
#[derive(Debug)]
pub struct PluginManager {
    registry: PluginRegistry,
    executor: Executor,
    initialized: bool,
}

/// The message of a failed initialization.
pub open spec fn initialization_message(cause: Seq<char>) -> Seq<char> {
    "initialization failed: "@ + cause
}

impl PluginManager {
    pub closed spec fn spec_registry(&self) -> PluginRegistry {
        self.registry
    }

    pub closed spec fn spec_executor(&self) -> Executor {
        self.executor
    }

    pub closed spec fn spec_initialized(&self) -> bool {
        self.initialized
    }

    /// A manager with no plugins, not yet initialized.
    pub fn new(config: ManagerConfig) -> (m: PluginManager)
        ensures
            m.spec_registry().spec_plugins().len() == 0,
            m.spec_registry().spec_hooks().len() == 0,
            m.spec_executor().config == config.executor,
            !m.spec_initialized(),
    {
        PluginManager { registry: PluginRegistry::new(), executor: Executor::new(config.executor), initialized: false }
    }

    fn register_names(&mut self, config: PluginConfig, names: &Vec<String>) -> (r: Result<(), PluginError>)
        ensures
            final(self).spec_executor() == old(self).spec_executor(),
            final(self).spec_initialized() == old(self).spec_initialized(),
            r is Ok <==> plugin_index(old(self).spec_registry().spec_plugins(), config.name@) is None,
            r is Ok ==> final(self).spec_registry().spec_plugins().drop_last() == old(self).spec_registry().spec_plugins()
                && final(self).spec_registry().spec_plugins().len() == old(self).spec_registry().spec_plugins().len() + 1
                && final(self).spec_registry().spec_plugins().last().spec_config() == config
                && forall|h: Seq<char>| strs_view(names@).contains(h)
                    ==> #[trigger] final(self).spec_registry().hook_names(h).contains(config.name@),
            r matches Err(e) ==> (e matches PluginError::Config { message }
                && message@ == "plugin '"@ + config.name@ + "' is already registered"@)
                && final(self).spec_registry().spec_plugins() == old(self).spec_registry().spec_plugins(),
            r is Ok ==> forall|h: Seq<char>| #[trigger] final(self).spec_registry().hook_names(h)
                == if strs_view(names@).contains(h) && !old(self).spec_registry().hook_names(h).contains(config.name@) {
                    old(self).spec_registry().hook_names(h).push(config.name@)
                } else {
                    old(self).spec_registry().hook_names(h)
                },
            r is Err ==> final(self).spec_registry().spec_hooks() == old(self).spec_registry().spec_hooks(),
    {
        let ghost name = config.name@;
        let ghost cfg = config;
        match self.registry.register(config, names) {
            Ok(id) => {
                assert forall|h: Seq<char>| strs_view(names@).contains(h)
                    implies #[trigger] self.registry.hook_names(h).contains(name) by {
                    if !old(self).registry.hook_names(h).contains(name) {
                        assert(self.registry.hook_names(h) == old(self).registry.hook_names(h).push(name));
                        assert(self.registry.hook_names(h)[old(self).registry.hook_names(h).len() as int] == name);
                    }
                }
                proof {
                    crate::registry::lemma_new_spec_config(id, cfg);
                }
                Ok(())
            },
            Err(message) => Err(PluginError::Config { message }),
        }
    }

    /// Register a plugin's configuration for hook `H`. Fails with a
    /// configuration error if a plugin of that name is registered.
    pub fn register_raw<H: HookTypeDef>(&mut self, config: PluginConfig) -> (r: Result<(), PluginError>)
        ensures
            r is Ok <==> plugin_index(old(self).spec_registry().spec_plugins(), config.name@) is None,
            r is Ok ==> final(self).spec_registry().spec_plugins().drop_last() == old(self).spec_registry().spec_plugins()
                && final(self).spec_registry().spec_plugins().len() == old(self).spec_registry().spec_plugins().len() + 1
                && final(self).spec_registry().spec_plugins().last().spec_config() == config
                && final(self).spec_registry().hook_names(H::NAME@).contains(config.name@),
            r matches Err(e) ==> (e matches PluginError::Config { message }
                && message@ == "plugin '"@ + config.name@ + "' is already registered"@)
                && final(self).spec_registry().spec_plugins() == old(self).spec_registry().spec_plugins(),
            final(self).spec_initialized() == old(self).spec_initialized(),
            r is Ok ==> forall|h: Seq<char>| #[trigger] final(self).spec_registry().hook_names(h)
                == if h == H::NAME@ && !old(self).spec_registry().hook_names(h).contains(config.name@) {
                    old(self).spec_registry().hook_names(h).push(config.name@)
                } else {
                    old(self).spec_registry().hook_names(h)
                },
            r is Err ==> final(self).spec_registry().spec_hooks() == old(self).spec_registry().spec_hooks(),
    {
        let mut names: Vec<String> = Vec::new();
        names.push(String::from_str(H::NAME));
        proof {
            assert(strs_view(names@)[0] == H::NAME@);
            assert forall|h: Seq<char>| strs_view(names@).contains(h) <==> h == H::NAME@ by {
                if strs_view(names@).contains(h) {
                    let k = choose|k: int| 0 <= k < strs_view(names@).len() && strs_view(names@)[k] == h;
                    assert(k == 0);
                }
            }
        }
        self.register_names(config, &names)
    }

    /// Register a plugin's configuration for several hook names (one
    /// handler covering many hooks).
    pub fn register_for_names(&mut self, config: PluginConfig, names: &Vec<String>) -> (r: Result<(), PluginError>)
        ensures
            r is Ok <==> plugin_index(old(self).spec_registry().spec_plugins(), config.name@) is None,
            r is Ok ==> final(self).spec_registry().spec_plugins().drop_last() == old(self).spec_registry().spec_plugins()
                && final(self).spec_registry().spec_plugins().len() == old(self).spec_registry().spec_plugins().len() + 1
                && final(self).spec_registry().spec_plugins().last().spec_config() == config
                && forall|h: Seq<char>| strs_view(names@).contains(h)
                    ==> #[trigger] final(self).spec_registry().hook_names(h).contains(config.name@),
            r matches Err(e) ==> (e matches PluginError::Config { message }
                && message@ == "plugin '"@ + config.name@ + "' is already registered"@)
                && final(self).spec_registry().spec_plugins() == old(self).spec_registry().spec_plugins(),
            final(self).spec_initialized() == old(self).spec_initialized(),
            r is Ok ==> forall|h: Seq<char>| #[trigger] final(self).spec_registry().hook_names(h)
                == if strs_view(names@).contains(h) && !old(self).spec_registry().hook_names(h).contains(config.name@) {
                    old(self).spec_registry().hook_names(h).push(config.name@)
                } else {
                    old(self).spec_registry().hook_names(h)
                },
            r is Err ==> final(self).spec_registry().spec_hooks() == old(self).spec_registry().spec_hooks(),
    {
        self.register_names(config, names)
    }

    /// The plugins to initialize, in registration order; `None` if the
    /// manager is initialized already (initialization is idempotent).
    pub fn initialization_plan(&self) -> (r: Option<Vec<String>>)
        ensures
            self.spec_initialized() <==> r is None,
            r matches Some(v) ==> strs_view(v@) == ref_names(self.spec_registry().spec_plugins()),
    {
        if self.initialized {
            return None;
        }
        let names = self.registry.plugin_names();
        let mut out: Vec<String> = Vec::new();
        let mut i: usize = 0;
        while i < names.len()
            invariant
                i <= names.len(),
                names@.len() == self.spec_registry().spec_plugins().len(),
                forall|j: int| 0 <= j < names@.len() ==> #[trigger] names@[j]@
                    == self.spec_registry().spec_plugins()[j].spec_config().name@,
                strs_view(out@) == ref_names(self.spec_registry().spec_plugins()).take(i as int),
            decreases names.len() - i,
        {
            let ghost before = out@;
            out.push(String::from_str(names[i]));
            assert(strs_view(out@) == strs_view(before).push(names@[i as int]@));
            assert(ref_names(self.spec_registry().spec_plugins()).take(i + 1)
                == ref_names(self.spec_registry().spec_plugins()).take(i as int).push(names@[i as int]@));
            i += 1;
        }
        assert(ref_names(self.spec_registry().spec_plugins()).take(names.len() as int)
            == ref_names(self.spec_registry().spec_plugins()));
        Some(out)
    }

    /// The error for a plugin that failed to initialize.
    pub fn initialization_error(plugin_name: &str, cause: &str) -> (e: PluginError)
        ensures
            e matches PluginError::Execution { plugin_name: n, message, code, details, proto_error_code }
                && n@ == plugin_name@ && message@ == initialization_message(cause@) && code is None
                && details@.len() == 0 && proto_error_code is None,
    {
        let mut message = String::from_str("initialization failed: ");
        message.append(cause);
        PluginError::Execution {
            plugin_name: String::from_str(plugin_name),
            message,
            code: None,
            details: Vec::new(),
            proto_error_code: None,
        }
    }

    /// Record that every plugin initialized.
    pub fn mark_initialized(&mut self)
        ensures
            final(self).spec_initialized(),
            final(self).spec_registry() == old(self).spec_registry(),
            final(self).spec_executor() == old(self).spec_executor(),
    {
        self.initialized = true;
    }

    /// The plugins to shut down, in reverse registration order; `None`
    /// if the manager is not initialized.
    pub fn shutdown_plan(&self) -> (r: Option<Vec<String>>)
        ensures
            !self.spec_initialized() <==> r is None,
            r matches Some(v) ==> strs_view(v@) == ref_names(self.spec_registry().spec_plugins()).reverse(),
    {
        if !self.initialized {
            return None;
        }
        let names = self.registry.plugin_names();
        let ghost all = ref_names(self.spec_registry().spec_plugins());
        let mut out: Vec<String> = Vec::new();
        let mut i: usize = names.len();
        while i > 0
            invariant
                i <= names.len(),
                names@.len() == self.spec_registry().spec_plugins().len(),
                all == ref_names(self.spec_registry().spec_plugins()),
                forall|j: int| 0 <= j < names@.len() ==> #[trigger] names@[j]@
                    == self.spec_registry().spec_plugins()[j].spec_config().name@,
                strs_view(out@) == all.subrange(i as int, all.len() as int).reverse(),
            decreases i,
        {
            i -= 1;
            let ghost before = out@;
            out.push(String::from_str(names[i]));
            assert(strs_view(out@) == strs_view(before).push(names@[i as int]@));
            assert(all[i as int] == names@[i as int]@);
            assert(all.subrange(i as int, all.len() as int).reverse()
                =~= all.subrange(i + 1, all.len() as int).reverse().push(all[i as int]));
        }
        assert(all.subrange(0, all.len() as int) == all);
        Some(out)
    }

    /// The plugins to shut down when the one at position `failed` of an
    /// initialization plan fails: those before it, most recent first.
    pub fn rollback_plan(plan: &Vec<String>, failed: usize) -> (r: Vec<String>)
        requires
            failed <= plan@.len(),
        ensures
            strs_view(r@) == strs_view(plan@).take(failed as int).reverse(),
    {
        let mut out: Vec<String> = Vec::new();
        let mut i: usize = failed;
        while i > 0
            invariant
                i <= failed,
                failed <= plan@.len(),
                strs_view(out@) == strs_view(plan@).take(failed as int).subrange(i as int, failed as int).reverse(),
            decreases i,
        {
            i -= 1;
            let ghost before = out@;
            let ghost t = strs_view(plan@).take(failed as int);
            out.push(plan[i].clone());
            assert(strs_view(out@) == strs_view(before).push(plan@[i as int]@));
            assert(t[i as int] == plan@[i as int]@);
            assert(t.subrange(i as int, failed as int).reverse()
                =~= t.subrange(i + 1, failed as int).reverse().push(t[i as int]));
        }
        assert(strs_view(plan@).take(failed as int).subrange(0, failed as int) == strs_view(plan@).take(failed as int));
        out
    }

    /// Record that the manager shut down.
    pub fn mark_shutdown(&mut self)
        ensures
            !final(self).spec_initialized(),
            final(self).spec_registry() == old(self).spec_registry(),
            final(self).spec_executor() == old(self).spec_executor(),
    {
        self.initialized = false;
    }

    /// Start an invocation of a hook: a pipeline over the hook's entries.
    /// With no plugin registered for the hook, the pipeline finishes at
    /// once, allowing the payload and extensions unchanged.
    pub fn start_invocation<P>(&self, hook_name: &str, payload: P, extensions: Extensions,
        context_table: Option<PluginContextTable>) -> (r: PipelineRun<P>)
        ensures
            r.config == self.spec_executor().config,
            r.phase == Phase::Sequential,
            r.payload == payload,
            r.extensions == extensions,
            r.halted is None,
            self.spec_registry().hook_entries(hook_name@).len() == 0 ==> r.sequential@.len() == 0
                && r.transform@.len() == 0 && r.audit@.len() == 0 && r.concurrent@.len() == 0
                && r.fire_and_forget@.len() == 0,
    {
        let entries = self.registry.entries_for_hook(hook_name);
        let r = self.executor.start(&entries, payload, extensions, context_table);
        proof {
            if entries@.len() == 0 {
                assert(crate::registry::of_mode(entry_views(entries@), crate::plugin::PluginMode::Sequential).len() == 0);
            }
        }
        r
    }

    /// Take plugins out of rotation after a run, by name: each plugin a
    /// name designates is disabled; identities, configurations and hooks
    /// are unchanged.
    pub fn apply_disables(&mut self, names: &Vec<String>)
        ensures
            final(self).spec_initialized() == old(self).spec_initialized(),
            final(self).spec_executor() == old(self).spec_executor(),
            final(self).spec_registry().spec_hooks() == old(self).spec_registry().spec_hooks(),
            final(self).spec_registry().spec_plugins().len() == old(self).spec_registry().spec_plugins().len(),
            forall|i: int| 0 <= i < old(self).spec_registry().spec_plugins().len() ==> ({
                let a = old(self).spec_registry().spec_plugins()[i];
                let b = #[trigger] final(self).spec_registry().spec_plugins()[i];
                &&& b.spec_id() == a.spec_id()
                &&& b.spec_config() == a.spec_config()
                &&& b.spec_disabled() == (a.spec_disabled()
                    || named_in(old(self).spec_registry().spec_plugins(), strs_view(names@), i))
            }),
    {
        let ghost start = old(self).spec_registry().spec_plugins();
        let mut j: usize = 0;
        while j < names.len()
            invariant
                j <= names.len(),
                self.spec_initialized() == old(self).spec_initialized(),
                self.spec_executor() == old(self).spec_executor(),
                self.spec_registry().spec_hooks() == old(self).spec_registry().spec_hooks(),
                start == old(self).spec_registry().spec_plugins(),
                self.spec_registry().spec_plugins().len() == start.len(),
                forall|i: int| 0 <= i < start.len() ==> ({
                    let a = start[i];
                    let b = #[trigger] self.spec_registry().spec_plugins()[i];
                    &&& b.spec_id() == a.spec_id()
                    &&& b.spec_config() == a.spec_config()
                    &&& b.spec_disabled() == (a.spec_disabled()
                        || named_in(start, strs_view(names@).take(j as int), i))
                }),
            decreases names.len() - j,
        {
            let ghost cur = self.spec_registry().spec_plugins();
            proof {
                assert forall|i: int| 0 <= i < cur.len() implies #[trigger] cur[i].spec_config().name
                    == start[i].spec_config().name by {
                    assert(cur[i].spec_config() == start[i].spec_config());
                }
                crate::registry::lemma_plugin_index_same_names(cur, start, names@[j as int]@);
            }
            self.registry.disable(names[j].as_str());
            proof {
                let taken = strs_view(names@).take(j as int);
                let next = strs_view(names@).take(j + 1);
                assert(next == taken.push(names@[j as int]@));
                assert forall|i: int| 0 <= i < start.len() implies
                    named_in(start, next, i) == (named_in(start, taken, i)
                        || plugin_index(start, names@[j as int]@) == Some(i)) by {
                    if plugin_index(start, names@[j as int]@) == Some(i) {
                        assert(next[j as int] == names@[j as int]@);
                    }
                    if named_in(start, taken, i) {
                        let k = choose|k: int| 0 <= k < taken.len() && plugin_index(start, #[trigger] taken[k]) == Some(i);
                        assert(next[k] == taken[k]);
                    }
                    if named_in(start, next, i) {
                        let k = choose|k: int| 0 <= k < next.len() && plugin_index(start, #[trigger] next[k]) == Some(i);
                        if k < j {
                            assert(taken[k] == next[k]);
                        }
                    }
                }
            }
            j += 1;
        }
        assert(strs_view(names@).take(names.len() as int) == strs_view(names@));
    }

    /// Whether any plugin is registered for a hook.
    pub fn has_hooks_for(&self, hook_name: &str) -> (r: bool)
        ensures
            r == (self.spec_registry().hook_names(hook_name@).len() > 0),
    {
        self.registry.has_hooks_for(hook_name)
    }

    /// The plugin with a name.
    pub fn get_plugin(&self, name: &str) -> (r: Option<&PluginRef>)
        ensures
            match plugin_index(self.spec_registry().spec_plugins(), name@) {
                None => r is None,
                Some(i) => r matches Some(p) && *p == self.spec_registry().spec_plugins()[i],
            },
    {
        self.registry.get(name)
    }

    /// Number of registered plugins.
    pub fn plugin_count(&self) -> (n: usize)
        ensures
            n == self.spec_registry().spec_plugins().len(),
    {
        self.registry.plugin_count()
    }

    /// Names of the registered plugins, in registration order.
    pub fn plugin_names(&self) -> (r: Vec<&str>)
        ensures
            r@.len() == self.spec_registry().spec_plugins().len(),
            forall|i: int| 0 <= i < r@.len() ==> #[trigger] r@[i]@
                == self.spec_registry().spec_plugins()[i].spec_config().name@,
    {
        self.registry.plugin_names()
    }

    /// Whether the manager is initialized.
    pub fn is_initialized(&self) -> (r: bool)
        ensures
            r == self.spec_initialized(),
    {
        self.initialized
    }

    /// Remove a plugin by name, returning it if it was registered.
    pub fn unregister(&mut self, name: &str) -> (r: Option<PluginRef>)
        ensures
            (r is Some) == (plugin_index(old(self).spec_registry().spec_plugins(), name@) is Some),
            match plugin_index(old(self).spec_registry().spec_plugins(), name@) {
                None => final(self).spec_registry().spec_plugins() == old(self).spec_registry().spec_plugins(),
                Some(i) => final(self).spec_registry().spec_plugins() == old(self).spec_registry().spec_plugins().remove(i),
            },
            final(self).spec_registry().spec_hooks()
                == crate::registry::hooks_without(old(self).spec_registry().spec_hooks(), name@),
            forall|hook: Seq<char>| #[trigger] final(self).spec_registry().hook_names(hook)
                == crate::registry::drop_name(old(self).spec_registry().hook_names(hook), name@),
            forall|hook: Seq<char>, x: Seq<char>| #[trigger] final(self).spec_registry().hook_names(hook).contains(x)
                <==> (old(self).spec_registry().hook_names(hook).contains(x) && x != name@),
            final(self).spec_initialized() == old(self).spec_initialized(),
    {
        self.registry.unregister(name)
    }
}

impl Default for PluginManager {
    fn default() -> (m: Self)
        ensures
            m.spec_registry().spec_plugins().len() == 0,
            m.spec_registry().spec_hooks().len() == 0,
            !m.spec_initialized(),
    {
        PluginManager::new(ManagerConfig::default())
    }
}

} // verus!
