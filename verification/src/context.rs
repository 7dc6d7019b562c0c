//! Execution contexts: per-plugin local state and pipeline-wide global
//! state, and the table that carries both from one hook invocation to
//! the next.

use vstd::prelude::*;
use vstd::string::*;

use crate::assoc::{assoc_get, assoc_without, lemma_assoc_get_index, lemma_assoc_get_absent,
    lemma_assoc_get_update, lemma_assoc_get_push, lemma_assoc_without};
use crate::json::{JsonValue, JsonView};
use crate::text::str_eq;

verus! {

/// The content of a state map: keys and values, read at a key's first
/// entry.
pub type StateView = Seq<(Seq<char>, JsonView)>;

/// A string-keyed map of JSON values.
#[derive(Debug)]
pub struct StateMap {
    entries: Vec<(String, JsonValue)>,
}

pub open spec fn entries_view(s: Seq<(String, JsonValue)>) -> StateView {
    s.map_values(|e: (String, JsonValue)| (e.0@, e.1@))
}

impl View for StateMap {
    type V = StateView;

    closed spec fn view(&self) -> StateView {
        entries_view(self.entries@)
    }
}

impl StateMap {
    /// The empty map.
    pub fn new() -> (m: StateMap)
        ensures
            m@.len() == 0,
    {
        StateMap { entries: Vec::new() }
    }

    /// The value at `key`, if any.
    pub fn get(&self, key: &str) -> (r: Option<&JsonValue>)
        ensures
            match assoc_get(self@, key@) {
                None => r is None,
                Some(v) => r matches Some(x) && x@ == v,
            },
    {
        let mut i: usize = 0;
        while i < self.entries.len()
            invariant
                i <= self.entries.len(),
                forall|j: int| 0 <= j < i ==> self@[j].0 != key@,
            decreases self.entries.len() - i,
        {
            if str_eq(self.entries[i].0.as_str(), key) {
                proof {
                    lemma_assoc_get_index(self@, key@, i as int);
                }
                return Some(&self.entries[i].1);
            }
            i += 1;
        }
        proof {
            lemma_assoc_get_absent(self@, key@);
        }
        None
    }

    /// Set `key` to `value`; every other key keeps its value.
    pub fn insert(&mut self, key: &str, value: JsonValue)
        ensures
            assoc_get(final(self)@, key@) == Some(value@),
            forall|k: Seq<char>| k != key@ ==> #[trigger] assoc_get(final(self)@, k) == assoc_get(old(self)@, k),
    {
        let ghost s = self@;
        let ghost v = value@;
        let mut i: usize = 0;
        while i < self.entries.len()
            invariant
                i <= self.entries.len(),
                self@ == s,
                v == value@,
                *self == *old(self),
                forall|j: int| 0 <= j < i ==> s[j].0 != key@,
            decreases self.entries.len() - i,
        {
            if str_eq(self.entries[i].0.as_str(), key) {
                self.entries.set(i, (String::from_str(key), value));
                proof {
                    assert(self@ == s.update(i as int, (s[i as int].0, v)));
                    lemma_assoc_get_index(self@, key@, i as int);
                    assert forall|k: Seq<char>| k != key@ implies #[trigger] assoc_get(self@, k)
                        == assoc_get(s, k) by {
                        lemma_assoc_get_update(s, i as int, v, k);
                    }
                }
                return;
            }
            i += 1;
        }
        self.entries.push((String::from_str(key), value));
        proof {
            assert(self@ == s.push((key@, v)));
            lemma_assoc_get_absent(s, key@);
            lemma_assoc_get_push(s, (key@, v), key@);
            assert forall|k: Seq<char>| k != key@ implies #[trigger] assoc_get(self@, k)
                == assoc_get(s, k) by {
                lemma_assoc_get_push(s, (key@, v), k);
            }
        }
    }

    /// Number of entries.
    pub fn len(&self) -> (n: usize)
        ensures
            n == self@.len(),
    {
        self.entries.len()
    }

    /// The entries, in order.
    pub fn entries(&self) -> (v: &Vec<(String, JsonValue)>)
        ensures
            entries_view(v@) == self@,
    {
        &self.entries
    }

    /// Copy this map.
    pub fn duplicate(&self) -> (r: StateMap)
        ensures
            r@ == self@,
    {
        let mut out: Vec<(String, JsonValue)> = Vec::new();
        let mut i: usize = 0;
        while i < self.entries.len()
            invariant
                i <= self.entries.len(),
                entries_view(out@) == self@.take(i as int),
            decreases self.entries.len() - i,
        {
            let ghost before = out@;
            out.push((self.entries[i].0.clone(), self.entries[i].1.clone()));
            assert(entries_view(out@) == entries_view(before).push(self@[i as int]));
            assert(self@.take(i + 1) == self@.take(i as int).push(self@[i as int]));
            i += 1;
        }
        assert(self@.take(self@.len() as int) == self@);
        StateMap { entries: out }
    }
}

/// Per-plugin, per-invocation execution context.
///
/// `local_state` is private to the plugin and persists across the hooks
/// of one request; `global_state` is shared by the plugins of a
/// pipeline.
#[derive(Debug)]
pub struct PluginContext {
    pub local_state: StateMap,
    pub global_state: StateMap,
}

impl PluginContext {
    /// Empty local and global state.
    pub fn new() -> (c: PluginContext)
        ensures
            c.local_state@.len() == 0,
            c.global_state@.len() == 0,
    {
        PluginContext { local_state: StateMap::new(), global_state: StateMap::new() }
    }

    /// Empty local state and the given global state.
    pub fn with_global_state(global_state: StateMap) -> (c: PluginContext)
        ensures
            c.local_state@.len() == 0,
            c.global_state == global_state,
    {
        PluginContext { local_state: StateMap::new(), global_state }
    }

    /// A value of local state.
    pub fn get_local(&self, key: &str) -> (r: Option<&JsonValue>)
        ensures
            match assoc_get(self.local_state@, key@) {
                None => r is None,
                Some(v) => r matches Some(x) && x@ == v,
            },
    {
        self.local_state.get(key)
    }

    /// Set a value of local state.
    pub fn set_local(&mut self, key: &str, value: JsonValue)
        ensures
            assoc_get(final(self).local_state@, key@) == Some(value@),
            forall|k: Seq<char>| k != key@ ==> #[trigger] assoc_get(final(self).local_state@, k)
                == assoc_get(old(self).local_state@, k),
            final(self).global_state == old(self).global_state,
    {
        self.local_state.insert(key, value);
    }

    /// A value of global state.
    pub fn get_global(&self, key: &str) -> (r: Option<&JsonValue>)
        ensures
            match assoc_get(self.global_state@, key@) {
                None => r is None,
                Some(v) => r matches Some(x) && x@ == v,
            },
    {
        self.global_state.get(key)
    }

    /// Set a value of global state.
    pub fn set_global(&mut self, key: &str, value: JsonValue)
        ensures
            assoc_get(final(self).global_state@, key@) == Some(value@),
            forall|k: Seq<char>| k != key@ ==> #[trigger] assoc_get(final(self).global_state@, k)
                == assoc_get(old(self).global_state@, k),
            final(self).local_state == old(self).local_state,
    {
        self.global_state.insert(key, value);
    }
}

impl Default for PluginContext {
    fn default() -> (c: Self)
        ensures
            c.local_state@.len() == 0,
            c.global_state@.len() == 0,
    {
        PluginContext::new()
    }
}

/// State carried from one hook invocation to the next within a request:
/// the canonical global state, and each plugin's local state by plugin id.
#[derive(Debug)]
pub struct PluginContextTable {
    pub global_state: StateMap,
    /// Stored local state by plugin id; an id is read at its first entry.
    pub local_states: Vec<(u128, StateMap)>,
}

/// The content of the per-plugin local states.
pub open spec fn locals_view(s: Seq<(u128, StateMap)>) -> Seq<(u128, StateView)> {
    s.map_values(|e: (u128, StateMap)| (e.0, e.1@))
}

/// A plugin's stored local state, or the empty state.
pub open spec fn local_or_empty(locals: Seq<(u128, StateView)>, id: u128) -> StateView {
    match assoc_get(locals, id) {
        Some(v) => v,
        None => Seq::empty(),
    }
}

impl PluginContextTable {
    /// The stored local states.
    pub open spec fn locals(&self) -> Seq<(u128, StateView)> {
        locals_view(self.local_states@)
    }

    /// An empty table.
    pub fn new() -> (t: PluginContextTable)
        ensures
            t.global_state@.len() == 0,
            t.locals().len() == 0,
    {
        PluginContextTable { global_state: StateMap::new(), local_states: Vec::new() }
    }

    /// Take a plugin's context out of the table: its stored local state
    /// (removed from the table; empty if none) and a copy of the global
    /// state.
    pub fn take_context(&mut self, plugin_id: u128) -> (c: PluginContext)
        ensures
            c.local_state@ == local_or_empty(old(self).locals(), plugin_id),
            c.global_state@ == old(self).global_state@,
            final(self).locals() == assoc_without(old(self).locals(), plugin_id),
            final(self).global_state == old(self).global_state,
    {
        let ghost s = self.locals();
        let mut kept: Vec<(u128, StateMap)> = Vec::new();
        let mut found: Option<StateMap> = None;
        let mut rest: Vec<(u128, StateMap)> = Vec::new();
        std::mem::swap(&mut rest, &mut self.local_states);
        let ghost all = rest@;
        assert(locals_view(all) == s);
        let mut i: usize = 0;
        while i < rest.len()
            invariant
                i <= rest.len(),
                rest@ == all,
                locals_view(all) == s,
                locals_view(kept@) == assoc_without(s.take(i as int), plugin_id),
                match found {
                    None => assoc_get(s.take(i as int), plugin_id) is None,
                    Some(m) => assoc_get(s.take(i as int), plugin_id) == Some(m@),
                },
            decreases rest.len() - i,
        {
            let ghost t = s.take(i as int);
            assert(s.take(i + 1) == t.push(s[i as int]));
            assert(s.take(i + 1).drop_last() == t);
            proof {
                lemma_assoc_get_push(t, s[i as int], plugin_id);
            }
            if rest[i].0 == plugin_id {
                if found.is_none() {
                    found = Some(rest[i].1.duplicate());
                }
            } else {
                let ghost before = kept@;
                kept.push((rest[i].0, rest[i].1.duplicate()));
                assert(locals_view(kept@) == locals_view(before).push(s[i as int]));
            }
            i += 1;
        }
        assert(s.take(rest.len() as int) == s);
        self.local_states = kept;
        let local = match found {
            Some(m) => m,
            None => {
                let m = StateMap::new();
                assert(m@ =~= Seq::<(Seq<char>, JsonView)>::empty());
                m
            },
        };
        PluginContext { local_state: local, global_state: self.global_state.duplicate() }
    }

    /// A plugin's context without changing the table: a copy of its
    /// stored local state (empty if none) and of the global state.
    pub fn snapshot_context(&self, plugin_id: u128) -> (c: PluginContext)
        ensures
            c.local_state@ == local_or_empty(self.locals(), plugin_id),
            c.global_state@ == self.global_state@,
    {
        let ghost s = self.locals();
        let mut i: usize = 0;
        while i < self.local_states.len()
            invariant
                i <= self.local_states.len(),
                s == self.locals(),
                forall|j: int| 0 <= j < i ==> s[j].0 != plugin_id,
            decreases self.local_states.len() - i,
        {
            if self.local_states[i].0 == plugin_id {
                proof {
                    lemma_assoc_get_index(s, plugin_id, i as int);
                }
                return PluginContext {
                    local_state: self.local_states[i].1.duplicate(),
                    global_state: self.global_state.duplicate(),
                };
            }
            i += 1;
        }
        proof {
            lemma_assoc_get_absent(s, plugin_id);
        }
        let m = StateMap::new();
        assert(m@ =~= Seq::<(Seq<char>, JsonView)>::empty());
        PluginContext { local_state: m, global_state: self.global_state.duplicate() }
    }

    /// Commit a plugin's context after it ran: its global state becomes
    /// the canonical one, and its local state replaces the plugin's
    /// stored one.
    pub fn store_context(&mut self, plugin_id: u128, ctx: PluginContext)
        ensures
            final(self).global_state == ctx.global_state,
            final(self).locals() == assoc_without(old(self).locals(), plugin_id).push((plugin_id, ctx.local_state@)),
    {
        let ghost s = self.locals();
        let mut rest: Vec<(u128, StateMap)> = Vec::new();
        std::mem::swap(&mut rest, &mut self.local_states);
        let ghost all = rest@;
        let mut kept: Vec<(u128, StateMap)> = Vec::new();
        let mut i: usize = 0;
        while i < rest.len()
            invariant
                i <= rest.len(),
                rest@ == all,
                locals_view(all) == s,
                locals_view(kept@) == assoc_without(s.take(i as int), plugin_id),
            decreases rest.len() - i,
        {
            let ghost t = s.take(i as int);
            assert(s.take(i + 1) == t.push(s[i as int]));
            assert(s.take(i + 1).drop_last() == t);
            if rest[i].0 != plugin_id {
                let ghost before = kept@;
                kept.push((rest[i].0, rest[i].1.duplicate()));
                assert(locals_view(kept@) == locals_view(before).push(s[i as int]));
            }
            i += 1;
        }
        assert(s.take(rest.len() as int) == s);
        let ghost before = kept@;
        let ghost local_view = ctx.local_state@;
        kept.push((plugin_id, ctx.local_state));
        assert(locals_view(kept@) == locals_view(before).push((plugin_id, local_view)));
        self.local_states = kept;
        self.global_state = ctx.global_state;
    }

    /// Number of plugins with stored local state.
    pub fn len(&self) -> (n: usize)
        ensures
            n == self.locals().len(),
    {
        self.local_states.len()
    }

    /// Whether no plugin has stored local state.
    pub fn is_empty(&self) -> (r: bool)
        ensures
            r == (self.locals().len() == 0),
    {
        self.local_states.len() == 0
    }
}

impl Default for PluginContextTable {
    fn default() -> (t: Self)
        ensures
            t.global_state@.len() == 0,
            t.locals().len() == 0,
    {
        PluginContextTable::new()
    }
}

/// What a plugin stored is what it finds next time: after storing a
/// context, the plugin's local state and the global state read back as
/// stored, and every other plugin's local state is unchanged.
pub proof fn lemma_store_then_read(locals: Seq<(u128, StateView)>, id: u128, local: StateView, other: u128)
    ensures
        local_or_empty(assoc_without(locals, id).push((id, local)), id) == local,
        other != id ==> local_or_empty(assoc_without(locals, id).push((id, local)), other)
            == local_or_empty(locals, other),
{
    lemma_assoc_without(locals, id, other);
    lemma_assoc_get_push(assoc_without(locals, id), (id, local), id);
    lemma_assoc_get_push(assoc_without(locals, id), (id, local), other);
}

/// Taking a context and storing it back unchanged leaves the plugin's
/// local state as it was.
pub proof fn lemma_take_then_store(locals: Seq<(u128, StateView)>, id: u128)
    ensures
        local_or_empty(assoc_without(assoc_without(locals, id), id).push((id, local_or_empty(locals, id))), id)
            == local_or_empty(locals, id),
{
    lemma_store_then_read(assoc_without(locals, id), id, local_or_empty(locals, id), id);
}

} // verus!
