//! The plugin registry: registered plugins with their authoritative
//! configuration, and which plugins handle which hook.

use vstd::prelude::*;
use vstd::string::*;

use crate::assoc::{assoc_get, lemma_assoc_get_index, lemma_assoc_get_absent};
use crate::plugin::{OnError, PluginConfig, PluginMode};
use crate::text::{str_eq, strs_view, strings_contain, clone_strings};

verus! {

/// A fresh plugin identifier (`uuid::Uuid::new_v4`, as a 128-bit
/// integer). The value is random: nothing is claimed of it.
#[verifier::external_body]
fn fresh_plugin_id() -> (id: u128) {
    uuid::Uuid::new_v4().as_u128()
}

/// A registered plugin: its identifier, its authoritative configuration
/// and whether it has been disabled.
#[derive(Debug)]
pub struct PluginRef {
    id: u128,
    config: PluginConfig,
    disabled: bool,
}

impl PluginRef {
    pub closed spec fn spec_id(&self) -> u128 {
        self.id
    }

    pub closed spec fn spec_config(&self) -> PluginConfig {
        self.config
    }

    pub closed spec fn spec_disabled(&self) -> bool {
        self.disabled
    }

    /// The mode the executor schedules the plugin by: its configured
    /// mode, or `Disabled` once disabled.
    pub open spec fn spec_mode(&self) -> PluginMode {
        if self.spec_disabled() { PluginMode::Disabled } else { self.spec_config().mode }
    }

    /// Wrap a configuration under an identifier.
    pub fn new(id: u128, config: PluginConfig) -> (r: PluginRef)
        ensures
            r.spec_id() == id,
            r.spec_config() == config,
            !r.spec_disabled(),
    {
        PluginRef { id, config, disabled: false }
    }

    /// The plugin's name.
    pub fn name(&self) -> (s: &str)
        ensures
            s@ == self.spec_config().name@,
    {
        self.config.name.as_str()
    }

    /// The plugin's identifier.
    pub fn id(&self) -> (i: u128)
        ensures
            i == self.spec_id(),
    {
        self.id
    }

    /// The authoritative configuration.
    pub fn trusted_config(&self) -> (c: &PluginConfig)
        ensures
            *c == self.spec_config(),
    {
        &self.config
    }

    /// The effective mode.
    pub fn mode(&self) -> (m: PluginMode)
        ensures
            m == self.spec_mode(),
    {
        if self.disabled { PluginMode::Disabled } else { self.config.mode }
    }

    /// Whether the plugin has been disabled.
    pub fn is_disabled(&self) -> (r: bool)
        ensures
            r == self.spec_disabled(),
    {
        self.disabled
    }

    /// Take the plugin out of rotation.
    pub fn disable(&mut self)
        ensures
            final(self).spec_disabled(),
            final(self).spec_id() == old(self).spec_id(),
            final(self).spec_config() == old(self).spec_config(),
    {
        self.disabled = true;
    }
}

/// What the executor needs to schedule one plugin for one hook: a
/// snapshot of its identity and trusted configuration.
#[derive(Debug)]
pub struct HookEntry {
    pub plugin_name: String,
    pub plugin_id: u128,
    pub mode: PluginMode,
    pub on_error: OnError,
    pub priority: i32,
    pub capabilities: Vec<String>,
}

/// The content of a hook entry.
pub struct EntryView {
    pub name: Seq<char>,
    pub id: u128,
    pub mode: PluginMode,
    pub on_error: OnError,
    pub priority: i32,
    pub capabilities: Seq<Seq<char>>,
}

pub open spec fn entry_view(e: HookEntry) -> EntryView {
    EntryView {
        name: e.plugin_name@,
        id: e.plugin_id,
        mode: e.mode,
        on_error: e.on_error,
        priority: e.priority,
        capabilities: strs_view(e.capabilities@),
    }
}

pub open spec fn entry_views(s: Seq<HookEntry>) -> Seq<EntryView> {
    s.map_values(|e: HookEntry| entry_view(e))
}

/// The entry of a registered plugin.
pub open spec fn entry_of(p: PluginRef) -> EntryView {
    EntryView {
        name: p.spec_config().name@,
        id: p.spec_id(),
        mode: p.spec_mode(),
        on_error: p.spec_config().on_error,
        priority: p.spec_config().priority,
        capabilities: strs_view(p.spec_config().capabilities@),
    }
}

impl HookEntry {
    /// Copy this entry.
    pub fn duplicate(&self) -> (r: HookEntry)
        ensures
            entry_view(r) == entry_view(*self),
    {
        HookEntry {
            plugin_name: self.plugin_name.clone(),
            plugin_id: self.plugin_id,
            mode: self.mode,
            on_error: self.on_error,
            priority: self.priority,
            capabilities: clone_strings(&self.capabilities),
        }
    }
}

/// Insert an entry into a priority-sorted sequence after every entry of
/// lower or equal priority (a stable insertion).
pub open spec fn insert_by_priority(s: Seq<EntryView>, e: EntryView) -> Seq<EntryView>
    decreases s.len(),
{
    if s.len() > 0 && e.priority < s.last().priority {
        insert_by_priority(s.drop_last(), e).push(s.last())
    } else {
        s.push(e)
    }
}

/// The entries ordered by priority, lowest first; entries of equal
/// priority keep their order.
pub open spec fn sort_by_priority(s: Seq<EntryView>) -> Seq<EntryView>
    decreases s.len(),
{
    if s.len() == 0 {
        s
    } else {
        insert_by_priority(sort_by_priority(s.drop_last()), s.last())
    }
}

/// Whether entries come in nondecreasing priority.
pub open spec fn priority_sorted(s: Seq<EntryView>) -> bool {
    forall|i: int, j: int| 0 <= i < j < s.len() ==> #[trigger] s[i].priority <= #[trigger] s[j].priority
}

/// Registered plugins and the plugins registered for each hook.
#[derive(Debug)]
pub struct PluginRegistry {
    plugins: Vec<PluginRef>,
    hooks: Vec<(String, Vec<String>)>,
}

/// The names of a sequence of plugins.
pub open spec fn ref_names(s: Seq<PluginRef>) -> Seq<Seq<char>> {
    s.map_values(|p: PluginRef| p.spec_config().name@)
}

/// The index of the first plugin named `n`.
pub open spec fn plugin_index(s: Seq<PluginRef>, n: Seq<char>) -> Option<int>
    decreases s.len(),
{
    if s.len() == 0 {
        None
    } else if s.last().spec_config().name@ == n && plugin_index(s.drop_last(), n) is None {
        Some(s.len() - 1)
    } else {
        plugin_index(s.drop_last(), n)
    }
}

/// The content of the hook table.
pub open spec fn hooks_view(h: Seq<(String, Vec<String>)>) -> Seq<(Seq<char>, Seq<Seq<char>>)> {
    h.map_values(|e: (String, Vec<String>)| (e.0@, strs_view(e.1@)))
}

/// The entries of the plugins named, in order, each name resolved to
/// its plugin (names without a plugin are skipped).
pub open spec fn entries_named(plugins: Seq<PluginRef>, names: Seq<Seq<char>>) -> Seq<EntryView>
    decreases names.len(),
{
    if names.len() == 0 {
        Seq::empty()
    } else {
        let rest = entries_named(plugins, names.drop_last());
        match plugin_index(plugins, names.last()) {
            Some(i) => rest.push(entry_of(plugins[i])),
            None => rest,
        }
    }
}

impl PluginRegistry {
    pub closed spec fn spec_plugins(&self) -> Seq<PluginRef> {
        self.plugins@
    }

    pub closed spec fn spec_hooks(&self) -> Seq<(Seq<char>, Seq<Seq<char>>)> {
        hooks_view(self.hooks@)
    }

    /// The names registered for a hook, in registration order.
    pub open spec fn hook_names(&self, hook: Seq<char>) -> Seq<Seq<char>> {
        match assoc_get(self.spec_hooks(), hook) {
            Some(ns) => ns,
            None => Seq::empty(),
        }
    }

    /// The entries the executor runs for a hook, in priority order.
    pub open spec fn hook_entries(&self, hook: Seq<char>) -> Seq<EntryView> {
        sort_by_priority(entries_named(self.spec_plugins(), self.hook_names(hook)))
    }

    /// An empty registry.
    pub fn new() -> (r: PluginRegistry)
        ensures
            r.spec_plugins().len() == 0,
            r.spec_hooks().len() == 0,
    {
        PluginRegistry { plugins: Vec::new(), hooks: Vec::new() }
    }

    fn find(&self, name: &str) -> (r: Option<usize>)
        ensures
            match plugin_index(self.spec_plugins(), name@) {
                None => r is None,
                Some(i) => r == Some(i as usize),
            },
            r matches Some(i) ==> i < self.spec_plugins().len(),
    {
        proof {
            lemma_plugin_index_bounds(self.plugins@, name@);
        }
        let ghost s = self.plugins@;
        let mut i: usize = 0;
        while i < self.plugins.len()
            invariant
                i <= self.plugins.len(),
                s == self.plugins@,
                plugin_index(s.take(i as int), name@) is None,
            decreases self.plugins.len() - i,
        {
            assert(s.take(i + 1).drop_last() == s.take(i as int));
            if str_eq(self.plugins[i].name(), name) {
                proof {
                    assert(plugin_index(s.take(i + 1), name@) == Some(i as int));
                    lemma_plugin_index_prefix(s, name@, i + 1);
                }
                return Some(i);
            }
            i += 1;
        }
        assert(s.take(s.len() as int) == s);
        None
    }

    /// The plugin with a name.
    pub fn get(&self, name: &str) -> (r: Option<&PluginRef>)
        ensures
            match plugin_index(self.spec_plugins(), name@) {
                None => r is None,
                Some(i) => r matches Some(p) && *p == self.spec_plugins()[i],
            },
    {
        proof {
            lemma_plugin_index_bounds(self.plugins@, name@);
            assert(self.plugins@.len() == self.plugins.len());
        }
        match self.find(name) {
            Some(i) => {
                let p = &self.plugins[i];
                assert(plugin_index(self.spec_plugins(), name@) == Some(i as int));
                Some(p)
            },
            None => None,
        }
    }

    /// Number of registered plugins.
    pub fn plugin_count(&self) -> (n: usize)
        ensures
            n == self.spec_plugins().len(),
    {
        self.plugins.len()
    }

    /// The names of the registered plugins, in registration order.
    pub fn plugin_names(&self) -> (r: Vec<&str>)
        ensures
            r@.len() == self.spec_plugins().len(),
            forall|i: int| 0 <= i < r@.len() ==> #[trigger] r@[i]@ == self.spec_plugins()[i].spec_config().name@,
    {
        let mut out: Vec<&str> = Vec::new();
        let mut i: usize = 0;
        while i < self.plugins.len()
            invariant
                i <= self.plugins.len(),
                out@.len() == i,
                forall|j: int| 0 <= j < i ==> #[trigger] out@[j]@ == self.plugins@[j].spec_config().name@,
            decreases self.plugins.len() - i,
        {
            out.push(self.plugins[i].name());
            i += 1;
        }
        out
    }

    /// Whether any plugin is registered for a hook.
    pub fn has_hooks_for(&self, hook: &str) -> (r: bool)
        ensures
            r == (self.hook_names(hook@).len() > 0),
    {
        match self.hook_list(hook) {
            Some(i) => self.hooks[i].1.len() > 0,
            None => false,
        }
    }

    fn hook_list(&self, hook: &str) -> (r: Option<usize>)
        ensures
            match r {
                None => assoc_get(self.spec_hooks(), hook@) is None,
                Some(i) => i < self.hooks@.len() && assoc_get(self.spec_hooks(), hook@)
                    == Some(strs_view(self.hooks@[i as int].1@))
                    && self.spec_hooks()[i as int].0 == hook@
                    && forall|j: int| 0 <= j < i ==> self.spec_hooks()[j].0 != hook@,
            },
    {
        let ghost s = self.spec_hooks();
        let mut i: usize = 0;
        while i < self.hooks.len()
            invariant
                i <= self.hooks.len(),
                s == self.spec_hooks(),
                forall|j: int| 0 <= j < i ==> s[j].0 != hook@,
            decreases self.hooks.len() - i,
        {
            if str_eq(self.hooks[i].0.as_str(), hook) {
                proof {
                    lemma_assoc_get_index(s, hook@, i as int);
                }
                return Some(i);
            }
            i += 1;
        }
        proof {
            lemma_assoc_get_absent(s, hook@);
        }
        None
    }

    /// Register a plugin for the given hook names under a fresh
    /// identifier. Fails if a plugin of that name is already registered.
    pub fn register(&mut self, config: PluginConfig, hook_names: &Vec<String>) -> (r: Result<u128, String>)
        ensures
            match r {
                Err(msg) => plugin_index(old(self).spec_plugins(), config.name@) is Some
                    && msg@ == "plugin '"@ + config.name@ + "' is already registered"@
                    && final(self).spec_plugins() == old(self).spec_plugins()
                    && final(self).spec_hooks() == old(self).spec_hooks(),
                Ok(id) => plugin_index(old(self).spec_plugins(), config.name@) is None
                    && final(self).spec_plugins().len() == old(self).spec_plugins().len() + 1
                    && final(self).spec_plugins().drop_last() == old(self).spec_plugins()
                    && final(self).spec_plugins().last() == PluginRef::new_spec(id, config)
                    && forall|h: Seq<char>| #[trigger] final(self).hook_names(h) == if strs_view(hook_names@).contains(h)
                        && !old(self).hook_names(h).contains(config.name@) {
                        old(self).hook_names(h).push(config.name@)
                    } else {
                        old(self).hook_names(h)
                    },
            },
    {
        if self.find(config.name.as_str()).is_some() {
            let mut msg = String::from_str("plugin '");
            msg.append(config.name.as_str());
            msg.append("' is already registered");
            return Err(msg);
        }
        let id = fresh_plugin_id();
        let name = config.name.clone();
        let ghost old_hooks = self.spec_hooks();
        let ghost old_self_hooks = old(self).spec_hooks();
        assert(old_hooks == old_self_hooks);
        let mut k: usize = 0;
        while k < hook_names.len()
            invariant
                k <= hook_names.len(),
                name@ == config.name@,
                self.plugins == old(self).plugins,
                forall|h: Seq<char>| #[trigger] assoc_get(self.spec_hooks(), h)
                    == if strs_view(hook_names@).take(k as int).contains(h) {
                        Some(added(list_of(old_hooks, h), name@))
                    } else {
                        assoc_get(old_hooks, h)
                    },
            decreases hook_names.len() - k,
        {
            let ghost before = self.spec_hooks();
            let ghost hk = hook_names@[k as int]@;
            self.add_to_hook(hook_names[k].as_str(), name.as_str());
            assert forall|h: Seq<char>| #[trigger] assoc_get(self.spec_hooks(), h)
                == if strs_view(hook_names@).take(k + 1).contains(h) {
                    Some(added(list_of(old_hooks, h), name@))
                } else {
                    assoc_get(old_hooks, h)
                } by {
                assert(strs_view(hook_names@).take(k + 1) == strs_view(hook_names@).take(k as int).push(hk));
                if h != hk {
                    assert(strs_view(hook_names@).take(k + 1).contains(h)
                        == strs_view(hook_names@).take(k as int).contains(h));
                } else {
                    assert(strs_view(hook_names@).take(k + 1)[k as int] == h);
                    if strs_view(hook_names@).take(k as int).contains(h) {
                        assert(list_of(before, h) == added(list_of(old_hooks, h), name@));
                        lemma_added_idempotent(list_of(old_hooks, h), name@);
                    }
                }
            }
            k += 1;
        }
        assert(strs_view(hook_names@).take(k as int) == strs_view(hook_names@));
        let ghost final_hooks = self.spec_hooks();
        assert forall|h: Seq<char>| #[trigger] assoc_get(final_hooks, h) == if strs_view(hook_names@).contains(h) {
            Some(added(list_of(old_hooks, h), name@))
        } else {
            assoc_get(old_hooks, h)
        } by {
            assert(assoc_get(self.spec_hooks(), h) == if strs_view(hook_names@).take(k as int).contains(h) {
                Some(added(list_of(old_hooks, h), name@))
            } else {
                assoc_get(old_hooks, h)
            });
        }
        let ghost cfg = config;
        self.plugins.push(PluginRef { id, config, disabled: false });
        assert(self.spec_plugins().drop_last() == old(self).spec_plugins());
        assert(self.spec_plugins().last() == PluginRef::new_spec(id, cfg));
        assert forall|h: Seq<char>| #[trigger] self.hook_names(h) == if strs_view(hook_names@).contains(h)
            && !old(self).hook_names(h).contains(cfg.name@) {
            old(self).hook_names(h).push(cfg.name@)
        } else {
            old(self).hook_names(h)
        } by {
            assert(self.spec_hooks() == final_hooks);
            assert(assoc_get(final_hooks, h) == if strs_view(hook_names@).contains(h) {
                Some(added(list_of(old_hooks, h), name@))
            } else {
                assoc_get(old_hooks, h)
            });
        }
        Ok(id)
    }

    /// Add a plugin name to a hook's list unless it is there already.
    fn add_to_hook(&mut self, hook: &str, name: &str)
        ensures
            final(self).plugins == old(self).plugins,
            assoc_get(final(self).spec_hooks(), hook@) == Some(added(list_of(old(self).spec_hooks(), hook@), name@)),
            forall|h: Seq<char>| h != hook@ ==> #[trigger] assoc_get(final(self).spec_hooks(), h)
                == assoc_get(old(self).spec_hooks(), h),
    {
        let ghost s = self.spec_hooks();
        match self.hook_list(hook) {
            Some(i) => {
                if !strings_contain(&self.hooks[i].1, name) {
                    let mut entry: (String, Vec<String>) = (String::new(), Vec::new());
                    std::mem::swap(&mut entry, &mut self.hooks[i]);
                    entry.1.push(String::from_str(name));
                    proof {
                        assert(strs_view(entry.1@) == s[i as int].1.push(name@));
                    }
                    self.hooks.set(i, entry);
                    proof {
                        assert(self.spec_hooks() == s.update(i as int, (s[i as int].0, s[i as int].1.push(name@))));
                        crate::assoc::lemma_assoc_get_index(self.spec_hooks(), hook@, i as int);
                        assert forall|h: Seq<char>| h != hook@ implies #[trigger] assoc_get(self.spec_hooks(), h)
                            == assoc_get(s, h) by {
                            crate::assoc::lemma_assoc_get_update(s, i as int, s[i as int].1.push(name@), h);
                        }
                    }
                }
            },
            None => {
                let mut names: Vec<String> = Vec::new();
                names.push(String::from_str(name));
                self.hooks.push((String::from_str(hook), names));
                proof {
                    assert(strs_view(names@) =~= seq![name@]);
                    assert(self.spec_hooks() == s.push((hook@, seq![name@])));
                    crate::assoc::lemma_assoc_get_push(s, (hook@, seq![name@]), hook@);
                    assert(Seq::<Seq<char>>::empty().push(name@) =~= seq![name@]);
                    assert forall|h: Seq<char>| h != hook@ implies #[trigger] assoc_get(self.spec_hooks(), h)
                        == assoc_get(s, h) by {
                        crate::assoc::lemma_assoc_get_push(s, (hook@, seq![name@]), h);
                    }
                }
            },
        }
    }
}

/// A hook's list of plugin names (empty if the hook has none).
pub open spec fn list_of(h: Seq<(Seq<char>, Seq<Seq<char>>)>, hook: Seq<char>) -> Seq<Seq<char>> {
    match assoc_get(h, hook) {
        Some(ns) => ns,
        None => Seq::empty(),
    }
}

/// A list with a name added unless present.
pub open spec fn added(list: Seq<Seq<char>>, name: Seq<char>) -> Seq<Seq<char>> {
    if list.contains(name) { list } else { list.push(name) }
}

proof fn lemma_added_idempotent(list: Seq<Seq<char>>, name: Seq<char>)
    ensures
        added(added(list, name), name) == added(list, name),
{
    if !list.contains(name) {
        assert(list.push(name)[list.len() as int] == name);
    }
}

impl PluginRef {
    /// The reference `new` builds.
    pub closed spec fn new_spec(id: u128, config: PluginConfig) -> PluginRef {
        PluginRef { id, config, disabled: false }
    }
}

/// A newly registered plugin carries its configuration and identifier
/// and is not disabled.
pub proof fn lemma_new_spec_config(id: u128, config: PluginConfig)
    ensures
        PluginRef::new_spec(id, config).spec_config() == config,
        PluginRef::new_spec(id, config).spec_id() == id,
        !PluginRef::new_spec(id, config).spec_disabled(),
{
}

proof fn lemma_plugin_index_bounds(s: Seq<PluginRef>, n: Seq<char>)
    ensures
        plugin_index(s, n) matches Some(i) ==> 0 <= i < s.len() && s[i].spec_config().name@ == n,
    decreases s.len(),
{
    if s.len() > 0 {
        lemma_plugin_index_bounds(s.drop_last(), n);
    }
}

/// Plugins with the same names, position by position, are found at the
/// same positions.
pub(crate) proof fn lemma_plugin_index_same_names(a: Seq<PluginRef>, b: Seq<PluginRef>, n: Seq<char>)
    requires
        a.len() == b.len(),
        forall|i: int| 0 <= i < a.len() ==> #[trigger] a[i].spec_config().name == b[i].spec_config().name,
    ensures
        plugin_index(a, n) == plugin_index(b, n),
    decreases a.len(),
{
    if a.len() > 0 {
        lemma_plugin_index_same_names(a.drop_last(), b.drop_last(), n);
        assert(a.last().spec_config().name == b.last().spec_config().name);
    }
}

/// Whether some name of `names` designates the plugin at position `i`.
pub open spec fn named_in(plugins: Seq<PluginRef>, names: Seq<Seq<char>>, i: int) -> bool {
    exists|k: int| 0 <= k < names.len() && plugin_index(plugins, #[trigger] names[k]) == Some(i)
}

proof fn lemma_plugin_index_prefix(s: Seq<PluginRef>, n: Seq<char>, m: int)
    requires
        0 <= m <= s.len(),
        plugin_index(s.take(m), n) is Some,
    ensures
        plugin_index(s, n) == plugin_index(s.take(m), n),
    decreases s.len() - m,
{
    if m < s.len() {
        assert(s.take(m + 1).drop_last() == s.take(m));
        lemma_plugin_index_prefix(s, n, m + 1);
    } else {
        assert(s.take(m) == s);
    }
}

/// The names of `s` other than `n`, in order.
pub open spec fn drop_name(s: Seq<Seq<char>>, n: Seq<char>) -> Seq<Seq<char>>
    decreases s.len(),
{
    if s.len() == 0 {
        s
    } else {
        let rest = drop_name(s.drop_last(), n);
        if s.last() == n { rest } else { rest.push(s.last()) }
    }
}

proof fn lemma_drop_name_contains(s: Seq<Seq<char>>, n: Seq<char>, x: Seq<char>)
    ensures
        drop_name(s, n).contains(x) <==> (s.contains(x) && x != n),
    decreases s.len(),
{
    if s.len() > 0 {
        let p = s.drop_last();
        lemma_drop_name_contains(p, n, x);
        let rest = drop_name(p, n);
        assert(s == p.push(s.last()));
        if s.contains(x) && x != n && !p.contains(x) {
            assert(x == s.last());
            assert(rest.push(s.last())[rest.len() as int] == x);
        }
        if p.contains(x) {
            let k = choose|k: int| 0 <= k < p.len() && p[k] == x;
            assert(s[k] == x);
        }
        if s.last() != n && rest.contains(x) {
            let k = choose|k: int| 0 <= k < rest.len() && rest[k] == x;
            assert(rest.push(s.last())[k] == x);
        }
        if s.last() != n && rest.push(s.last()).contains(x) {
            let k = choose|k: int| 0 <= k < rest.len() + 1 && rest.push(s.last())[k] == x;
            if k < rest.len() {
                assert(rest[k] == x);
            } else {
                assert(s[s.len() - 1] == x);
            }
        }
    }
}

/// The hook table with a plugin name removed from every list.
pub open spec fn hooks_without(h: Seq<(Seq<char>, Seq<Seq<char>>)>, n: Seq<char>) -> Seq<(Seq<char>, Seq<Seq<char>>)> {
    h.map_values(|e: (Seq<char>, Seq<Seq<char>>)| (e.0, drop_name(e.1, n)))
}

proof fn lemma_assoc_get_map_lists(h: Seq<(Seq<char>, Seq<Seq<char>>)>, n: Seq<char>, k: Seq<char>)
    ensures
        assoc_get(hooks_without(h, n), k) == match assoc_get(h, k) {
            Some(l) => Some(drop_name(l, n)),
            None => None,
        },
    decreases h.len(),
{
    if h.len() > 0 {
        assert(hooks_without(h, n).drop_first() == hooks_without(h.drop_first(), n));
        lemma_assoc_get_map_lists(h.drop_first(), n, k);
    }
}

fn strings_without(v: &Vec<String>, n: &str) -> (r: Vec<String>)
    ensures
        strs_view(r@) == drop_name(strs_view(v@), n@),
{
    let ghost s = strs_view(v@);
    let mut out: Vec<String> = Vec::new();
    let mut i: usize = 0;
    while i < v.len()
        invariant
            i <= v.len(),
            s == strs_view(v@),
            strs_view(out@) == drop_name(s.take(i as int), n@),
        decreases v.len() - i,
    {
        assert(s.take(i + 1).drop_last() == s.take(i as int));
        assert(s.take(i + 1).last() == v@[i as int]@);
        if !str_eq(v[i].as_str(), n) {
            let ghost before = out@;
            out.push(v[i].clone());
            assert(strs_view(out@) == strs_view(before).push(v@[i as int]@));
        }
        i += 1;
    }
    assert(s.take(v.len() as int) == s);
    out
}

/// Insert an entry into a priority-sorted list (see `insert_by_priority`).
fn insert_entry(out: &mut Vec<HookEntry>, e: HookEntry)
    ensures
        entry_views(final(out)@) == insert_by_priority(entry_views(old(out)@), entry_view(e)),
    decreases old(out)@.len(),
{
    let n = out.len();
    if n > 0 && e.priority < out[n - 1].priority {
        let ghost s = entry_views(out@);
        let last = out.pop().unwrap();
        assert(entry_views(out@) == s.drop_last());
        assert(entry_view(last) == s.last());
        insert_entry(out, e);
        let ghost mid = entry_views(out@);
        out.push(last);
        assert(entry_views(out@) == mid.push(s.last()));
    } else {
        let ghost s = entry_views(out@);
        out.push(e);
        assert(entry_views(out@) == s.push(entry_view(e)));
    }
}

/// The entries in priority order (see `sort_by_priority`).
fn sort_entries(v: Vec<HookEntry>) -> (r: Vec<HookEntry>)
    ensures
        entry_views(r@) == sort_by_priority(entry_views(v@)),
{
    let ghost s = entry_views(v@);
    let mut out: Vec<HookEntry> = Vec::new();
    let mut i: usize = 0;
    while i < v.len()
        invariant
            i <= v.len(),
            s == entry_views(v@),
            entry_views(out@) == sort_by_priority(s.take(i as int)),
        decreases v.len() - i,
    {
        assert(s.take(i + 1).drop_last() == s.take(i as int));
        assert(s.take(i + 1).last() == s[i as int]);
        insert_entry(&mut out, v[i].duplicate());
        i += 1;
    }
    assert(s.take(v.len() as int) == s);
    out
}

/// Whether an entry runs in a mode.
pub open spec fn of_mode(s: Seq<EntryView>, m: PluginMode) -> Seq<EntryView>
    decreases s.len(),
{
    if s.len() == 0 {
        s
    } else {
        let rest = of_mode(s.drop_last(), m);
        if s.last().mode == m { rest.push(s.last()) } else { rest }
    }
}

fn entries_of_mode(entries: &Vec<HookEntry>, m: PluginMode) -> (r: Vec<HookEntry>)
    ensures
        entry_views(r@) == of_mode(entry_views(entries@), m),
{
    let ghost s = entry_views(entries@);
    let mut out: Vec<HookEntry> = Vec::new();
    let mut i: usize = 0;
    while i < entries.len()
        invariant
            i <= entries.len(),
            s == entry_views(entries@),
            entry_views(out@) == of_mode(s.take(i as int), m),
        decreases entries.len() - i,
    {
        assert(s.take(i + 1).drop_last() == s.take(i as int));
        assert(s.take(i + 1).last() == s[i as int]);
        if entries[i].mode == m {
            let ghost before = out@;
            out.push(entries[i].duplicate());
            assert(entry_views(out@) == entry_views(before).push(s[i as int]));
        }
        i += 1;
    }
    assert(s.take(entries.len() as int) == s);
    out
}

/// Plugins grouped by mode, each group in the given order:
/// (sequential, transform, audit, concurrent, fire-and-forget).
/// Disabled plugins are in no group.
pub fn group_by_mode(entries: &Vec<HookEntry>) -> (r: (Vec<HookEntry>, Vec<HookEntry>, Vec<HookEntry>,
    Vec<HookEntry>, Vec<HookEntry>))
    ensures
        entry_views(r.0@) == of_mode(entry_views(entries@), PluginMode::Sequential),
        entry_views(r.1@) == of_mode(entry_views(entries@), PluginMode::Transform),
        entry_views(r.2@) == of_mode(entry_views(entries@), PluginMode::Audit),
        entry_views(r.3@) == of_mode(entry_views(entries@), PluginMode::Concurrent),
        entry_views(r.4@) == of_mode(entry_views(entries@), PluginMode::FireAndForget),
{
    (
        entries_of_mode(entries, PluginMode::Sequential),
        entries_of_mode(entries, PluginMode::Transform),
        entries_of_mode(entries, PluginMode::Audit),
        entries_of_mode(entries, PluginMode::Concurrent),
        entries_of_mode(entries, PluginMode::FireAndForget),
    )
}

impl PluginRegistry {
    /// The entry of a registered plugin.
    fn entry_for(p: &PluginRef) -> (e: HookEntry)
        ensures
            entry_view(e) == entry_of(*p),
    {
        HookEntry {
            plugin_name: p.config.name.clone(),
            plugin_id: p.id,
            mode: p.mode(),
            on_error: p.config.on_error,
            priority: p.config.priority,
            capabilities: clone_strings(&p.config.capabilities),
        }
    }

    /// The entries to run for a hook: the plugins registered for it, in
    /// priority order (lowest first; registration order among equals),
    /// each with its current mode.
    pub fn entries_for_hook(&self, hook: &str) -> (r: Vec<HookEntry>)
        ensures
            entry_views(r@) == self.hook_entries(hook@),
    {
        let ghost names = self.hook_names(hook@);
        let mut collected: Vec<HookEntry> = Vec::new();
        match self.hook_list(hook) {
            Some(h) => {
                let list = &self.hooks[h].1;
                assert(strs_view(list@) == names);
                let mut i: usize = 0;
                while i < list.len()
                    invariant
                        i <= list.len(),
                        names == strs_view(list@),
                        entry_views(collected@) == entries_named(self.spec_plugins(), names.take(i as int)),
                    decreases list.len() - i,
                {
                    assert(names.take(i + 1).drop_last() == names.take(i as int));
                    assert(names.take(i + 1).last() == list@[i as int]@);
                    proof {
                        lemma_plugin_index_bounds(self.plugins@, list@[i as int]@);
                    }
                    match self.get(list[i].as_str()) {
                        Some(p) => {
                            let ghost before = collected@;
                            collected.push(PluginRegistry::entry_for(p));
                            assert(entry_views(collected@) == entry_views(before).push(entry_of(*p)));
                        },
                        None => {},
                    }
                    i += 1;
                }
                assert(names.take(list.len() as int) == names);
            },
            None => {
                assert(names == Seq::<Seq<char>>::empty());
                assert(entry_views(collected@) =~= entries_named(self.spec_plugins(), names));
            },
        }
        sort_entries(collected)
    }

    /// Disable the plugin with a name, if registered. Returns whether
    /// one was.
    pub fn disable(&mut self, name: &str) -> (r: bool)
        ensures
            r == plugin_index(old(self).spec_plugins(), name@) is Some,
            final(self).spec_hooks() == old(self).spec_hooks(),
            final(self).spec_plugins().len() == old(self).spec_plugins().len(),
            forall|i: int| 0 <= i < old(self).spec_plugins().len() ==> ({
                let a = old(self).spec_plugins()[i];
                let b = #[trigger] final(self).spec_plugins()[i];
                &&& b.spec_id() == a.spec_id()
                &&& b.spec_config() == a.spec_config()
                &&& b.spec_disabled() == (a.spec_disabled() || plugin_index(old(self).spec_plugins(), name@) == Some(i))
            }),
    {
        proof {
            lemma_plugin_index_bounds(self.plugins@, name@);
            assert(self.plugins@.len() == self.plugins.len());
        }
        match self.find(name) {
            Some(i) => {
                let mut p = PluginRef { id: 0, config: crate::plugin::PluginConfig::new("", ""), disabled: false };
                std::mem::swap(&mut p, &mut self.plugins[i]);
                p.disable();
                self.plugins.set(i, p);
                true
            },
            None => false,
        }
    }

    /// Remove the plugin with a name, and the name from every hook.
    pub fn unregister(&mut self, name: &str) -> (r: Option<PluginRef>)
        ensures
            match plugin_index(old(self).spec_plugins(), name@) {
                None => r is None && final(self).spec_plugins() == old(self).spec_plugins(),
                Some(i) => r == Some(old(self).spec_plugins()[i])
                    && final(self).spec_plugins() == old(self).spec_plugins().remove(i),
            },
            final(self).spec_hooks() == hooks_without(old(self).spec_hooks(), name@),
            forall|hook: Seq<char>| #[trigger] final(self).hook_names(hook) == drop_name(old(self).hook_names(hook), name@),
            forall|hook: Seq<char>, x: Seq<char>| #[trigger] final(self).hook_names(hook).contains(x)
                <==> (old(self).hook_names(hook).contains(x) && x != name@),
    {
        let ghost h = self.spec_hooks();
        proof {
            assert forall|hook: Seq<char>| assoc_get(hooks_without(h, name@), hook) == match assoc_get(h, hook) {
                Some(l) => Some(drop_name(l, name@)),
                None => None,
            } by {
                lemma_assoc_get_map_lists(h, name@, hook);
            }
            assert(drop_name(Seq::<Seq<char>>::empty(), name@) == Seq::<Seq<char>>::empty());
        }
        let mut j: usize = 0;
        while j < self.hooks.len()
            invariant
                j <= self.hooks.len(),
                self.hooks@.len() == old(self).hooks@.len(),
                self.plugins == old(self).plugins,
                h == hooks_view(old(self).hooks@),
                forall|k: int| 0 <= k < j ==> #[trigger] hooks_view(self.hooks@)[k]
                    == (h[k].0, drop_name(h[k].1, name@)),
                forall|k: int| j <= k < self.hooks@.len() ==> #[trigger] self.hooks@[k] == old(self).hooks@[k],
            decreases self.hooks.len() - j,
        {
            let kept = strings_without(&self.hooks[j].1, name);
            let key = self.hooks[j].0.clone();
            assert(self.hooks@[j as int] == old(self).hooks@[j as int]);
            assert(h[j as int] == (old(self).hooks@[j as int].0@, strs_view(old(self).hooks@[j as int].1@)));
            let ghost before = self.hooks@;
            self.hooks.set(j, (key, kept));
            assert(hooks_view(self.hooks@)[j as int] == (h[j as int].0, drop_name(h[j as int].1, name@)));
            assert forall|k: int| 0 <= k < j implies #[trigger] hooks_view(self.hooks@)[k]
                == (h[k].0, drop_name(h[k].1, name@)) by {
                assert(self.hooks@[k] == before[k]);
                assert(hooks_view(before)[k] == (h[k].0, drop_name(h[k].1, name@)));
            }
            j += 1;
        }
        assert(self.spec_hooks() =~= hooks_without(h, name@));
        proof {
            lemma_plugin_index_bounds(self.plugins@, name@);
            assert(self.plugins@.len() == self.plugins.len());
        }
        let r = match self.find(name) {
            Some(i) => {
                let p = self.plugins.remove(i);
                Some(p)
            },
            None => None,
        };
        proof {
            assert forall|hook: Seq<char>, x: Seq<char>| #[trigger] self.hook_names(hook).contains(x)
                <==> (old(self).hook_names(hook).contains(x) && x != name@) by {
                lemma_drop_name_contains(old(self).hook_names(hook), name@, x);
            }
        }
        r
    }
}

/// Entries come out in priority order.
pub proof fn lemma_sorted_by_priority(s: Seq<EntryView>)
    ensures
        priority_sorted(sort_by_priority(s)),
        sort_by_priority(s).len() == s.len(),
    decreases s.len(),
{
    if s.len() > 0 {
        lemma_sorted_by_priority(s.drop_last());
        lemma_insert_sorted(sort_by_priority(s.drop_last()), s.last());
    }
}

proof fn lemma_insert_sorted(s: Seq<EntryView>, e: EntryView)
    requires
        priority_sorted(s),
    ensures
        priority_sorted(insert_by_priority(s, e)),
        insert_by_priority(s, e).len() == s.len() + 1,
        forall|i: int| 0 <= i < insert_by_priority(s, e).len() ==> ({
            let x = #[trigger] insert_by_priority(s, e)[i];
            x == e || s.contains(x)
        }),
    decreases s.len(),
{
    if s.len() > 0 && e.priority < s.last().priority {
        let t = s.drop_last();
        assert(priority_sorted(t)) by {
            assert forall|i: int, j: int| 0 <= i < j < t.len() implies #[trigger] t[i].priority <= #[trigger] t[j].priority by {
                assert(t[i] == s[i] && t[j] == s[j]);
            }
        }
        lemma_insert_sorted(t, e);
        let r = insert_by_priority(t, e);
        assert forall|i: int| 0 <= i < r.len() implies #[trigger] r[i].priority <= s.last().priority by {
            let x = r[i];
            if x != e {
                let k = choose|k: int| 0 <= k < t.len() && t[k] == x;
                assert(s[k] == x);
            }
        }
        let rr = r.push(s.last());
        assert forall|i: int, j: int| 0 <= i < j < rr.len() implies #[trigger] rr[i].priority <= #[trigger] rr[j].priority by {
            if j < r.len() {
                assert(rr[i] == r[i] && rr[j] == r[j]);
            } else {
                assert(rr[i] == r[i]);
            }
        }
        assert forall|i: int| 0 <= i < rr.len() implies ({
            let x = #[trigger] rr[i];
            x == e || s.contains(x)
        }) by {
            if i < r.len() {
                let x = r[i];
                assert(rr[i] == x);
                if x != e {
                    let k = choose|k: int| 0 <= k < t.len() && t[k] == x;
                    assert(s[k] == x);
                }
            } else {
                assert(s[s.len() - 1] == s.last());
            }
        }
    } else {
        let rr = s.push(e);
        assert forall|i: int, j: int| 0 <= i < j < rr.len() implies #[trigger] rr[i].priority <= #[trigger] rr[j].priority by {
            if j < s.len() {
                assert(rr[i] == s[i] && rr[j] == s[j]);
            } else if s.len() > 0 {
                assert(rr[i] == s[i]);
                assert(s[i].priority <= s[s.len() - 1].priority);
            }
        }
        assert forall|i: int| 0 <= i < rr.len() implies ({
            let x = #[trigger] rr[i];
            x == e || s.contains(x)
        }) by {
            if i < s.len() {
                assert(rr[i] == s[i]);
            }
        }
    }
}

} // verus!
