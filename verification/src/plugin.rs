//! Plugins: hook discovery and dispatch for live plugin modules, the plugin registry and
//! its command aliases, and the commands that a registered plugin runs.
use vstd::prelude::*;

use crate::paths::{expand_tilde, expand_tilde_spec};
use crate::registry::{insert_spec, Registry, RegistryEntry};
use crate::text::{
    concat, first_index, lemma_first_index, lemma_first_index_unique, str_eq, views,
};
use crate::theme::pair_views;

verus! {

// ---------------------------------------------------------------------------------------
// Live plugins: modules whose top-level callables are event hooks.
// ---------------------------------------------------------------------------------------

/// Whether a top-level name of a module can be a hook: names starting with `_` are not.
pub open spec fn is_hook_name_spec(name: Seq<char>) -> bool {
    !(name.len() > 0 && name[0] == '_')
}

/// Whether a top-level name of a module can be a hook.
pub fn is_hook_name(name: &str) -> (r: bool)
    ensures
        r == is_hook_name_spec(name@),
{
    let n = name.unicode_len();
    !(n > 0 && name.get_char(0) == '_')
}

/// The hooks among a module's top-level names (`callable[i]` tells whether `names[i]` is
/// bound to a callable), in order.
pub open spec fn hooks_spec(names: Seq<Seq<char>>, callable: Seq<bool>) -> Seq<Seq<char>>
    decreases names.len(),
{
    if names.len() == 0 || callable.len() == 0 {
        seq![]
    } else {
        let prev = hooks_spec(names.drop_last(), callable.drop_last());
        if is_hook_name_spec(names.last()) && callable.last() {
            prev.push(names.last())
        } else {
            prev
        }
    }
}

/// The hooks of a module: its public top-level callables, in order; `None` when it has
/// none, in which case the module is skipped.
pub fn collect_hooks(names: &Vec<String>, callable: &Vec<bool>) -> (r: Option<Vec<String>>)
    requires
        names@.len() == callable@.len(),
    ensures
        match r {
            Some(h) => views(h@) == hooks_spec(views(names@), callable@) && h@.len() > 0,
            None => hooks_spec(views(names@), callable@).len() == 0,
        },
{
    let ghost ns = views(names@);
    let mut hooks: Vec<String> = Vec::new();
    let mut i: usize = 0;
    while i < names.len()
        invariant
            i <= names@.len(),
            names@.len() == callable@.len(),
            ns == views(names@),
            views(hooks@) == hooks_spec(ns.take(i as int), callable@.take(i as int)),
        decreases names@.len() - i,
    {
        assert(ns.take(i + 1).drop_last() =~= ns.take(i as int));
        assert(callable@.take(i + 1).drop_last() =~= callable@.take(i as int));
        assert(ns.take(i + 1).last() == names@[i as int]@);
        if is_hook_name(names[i].as_str()) && callable[i] {
            hooks.push(names[i].clone());
        }
        assert(views(hooks@) =~= hooks_spec(ns.take(i + 1), callable@.take(i + 1)));
        i = i + 1;
    }
    assert(ns.take(names@.len() as int) =~= ns);
    assert(callable@.take(names@.len() as int) =~= callable@);
    if hooks.len() == 0 {
        None
    } else {
        Some(hooks)
    }
}

/// No hook of a module starts with `_`, and each is one of its callables.
pub proof fn hooks_are_public_callables(names: Seq<Seq<char>>, callable: Seq<bool>)
    requires
        names.len() == callable.len(),
    ensures
        forall|k: int|
            0 <= k < hooks_spec(names, callable).len() ==> is_hook_name_spec(
                #[trigger] hooks_spec(names, callable)[k],
            ),
        forall|k: int|
            0 <= k < hooks_spec(names, callable).len() ==> exists|j: int|
                0 <= j < names.len() && callable[j] && names[j] == #[trigger] hooks_spec(
                    names,
                    callable,
                )[k],
    decreases names.len(),
{
    if names.len() > 0 {
        let dn = names.drop_last();
        let dc = callable.drop_last();
        hooks_are_public_callables(dn, dc);
        let prev = hooks_spec(dn, dc);
        let h = hooks_spec(names, callable);
        assert forall|k: int| 0 <= k < h.len() implies is_hook_name_spec(#[trigger] h[k]) by {
            if k < prev.len() {
                assert(h[k] == prev[k]);
            }
        }
        assert forall|k: int| 0 <= k < h.len() implies exists|j: int|
            0 <= j < names.len() && callable[j] && names[j] == #[trigger] h[k] by {
            if k < prev.len() {
                assert(h[k] == prev[k]);
                let j = choose|j: int| 0 <= j < dn.len() && dc[j] && dn[j] == #[trigger] prev[k];
                assert(names[j] == dn[j] && callable[j] == dc[j]);
            } else {
                assert(names[names.len() - 1] == h[k]);
            }
        }
    }
}

/// Every public callable of a module is one of its hooks: no name that can be a hook and
/// is bound to a callable is left out.
pub proof fn every_public_callable_is_a_hook(names: Seq<Seq<char>>, callable: Seq<bool>)
    requires
        names.len() == callable.len(),
    ensures
        forall|j: int|
            0 <= j < names.len() && is_hook_name_spec(names[j]) && callable[j] ==> hooks_spec(
                names,
                callable,
            ).contains(#[trigger] names[j]),
    decreases names.len(),
{
    if names.len() > 0 {
        let dn = names.drop_last();
        let dc = callable.drop_last();
        every_public_callable_is_a_hook(dn, dc);
        let prev = hooks_spec(dn, dc);
        let h = hooks_spec(names, callable);
        assert forall|j: int|
            0 <= j < names.len() && is_hook_name_spec(names[j]) && callable[j] implies h.contains(
            #[trigger] names[j],
        ) by {
            if j < dn.len() {
                assert(names[j] == dn[j] && callable[j] == dc[j]);
                let k = choose|k: int| 0 <= k < prev.len() && prev[k] == dn[j];
                assert(h[k] == prev[k]);
            } else {
                assert(h[h.len() - 1] == names[j]);
            }
        }
    }
}

/// A plugin module that was imported and has hooks.
struct LoadedPlugin<M> {
    name: String,
    module: M,
    hooks: Vec<String>,
}

/// Live plugin manager: imported plugin modules (of the host's type `M`) and their hooks.
pub struct PluginManager<M> {
    plugins: Vec<LoadedPlugin<M>>,
}

/// The indices of the plugins that declare `event` as a hook, in order.
pub open spec fn targets_spec<M>(s: Seq<(Seq<char>, Seq<Seq<char>>, M)>, event: Seq<char>) -> Seq<int>
    decreases s.len(),
{
    if s.len() == 0 {
        seq![]
    } else {
        let prev = targets_spec(s.drop_last(), event);
        if s.last().1.contains(event) {
            prev.push(s.len() - 1)
        } else {
            prev
        }
    }
}

impl<M> Default for PluginManager<M> {
    /// Empty plugin manager.
    fn default() -> (r: Self)
        ensures
            r@ == Seq::<(Seq<char>, Seq<Seq<char>>, M)>::empty(),
    {
        Self::new()
    }
}

impl<M> PluginManager<M> {
    /// The live plugins: name, hooks and module, in load order.
    pub closed spec fn view(&self) -> Seq<(Seq<char>, Seq<Seq<char>>, M)> {
        self.plugins@.map_values(|p: LoadedPlugin<M>| (p.name@, views(p.hooks@), p.module))
    }

    /// Empty plugin manager.
    pub fn new() -> (r: Self)
        ensures
            r@ == Seq::<(Seq<char>, Seq<Seq<char>>, M)>::empty(),
    {
        let r = PluginManager { plugins: Vec::new() };
        assert(r@ =~= Seq::<(Seq<char>, Seq<Seq<char>>, M)>::empty());
        r
    }

    /// Add a loaded plugin module with its hooks.
    pub fn add(&mut self, name: String, module: M, hooks: Vec<String>)
        ensures
            final(self)@ == old(self)@.push((name@, views(hooks@), module)),
    {
        let ghost entry = (name@, views(hooks@), module);
        self.plugins.push(LoadedPlugin { name, module, hooks });
        assert(self@ =~= old(self)@.push(entry));
    }

    /// Number of live plugins.
    pub fn count(&self) -> (r: usize)
        ensures
            r == self@.len(),
    {
        self.plugins.len()
    }

    /// Names of the live plugins, in load order.
    pub fn names(&self) -> (r: Vec<String>)
        ensures
            views(r@) == self@.map_values(|p: (Seq<char>, Seq<Seq<char>>, M)| p.0),
    {
        let mut r: Vec<String> = Vec::new();
        let mut i: usize = 0;
        while i < self.plugins.len()
            invariant
                i <= self@.len(),
                self@.len() == self.plugins@.len(),
                r@.len() == i,
                forall|j: int| 0 <= j < i ==> #[trigger] r@[j]@ == self@[j].0,
            decreases self.plugins@.len() - i,
        {
            assert(self@[i as int].0 == self.plugins@[i as int].name@);
            r.push(self.plugins[i].name.clone());
            i = i + 1;
        }
        assert(views(r@) =~= self@.map_values(|p: (Seq<char>, Seq<Seq<char>>, M)| p.0));
        r
    }

    /// The module of the plugin at position `i`.
    pub fn module(&self, i: usize) -> (r: &M)
        requires
            i < self@.len(),
        ensures
            *r == self@[i as int].2,
    {
        &self.plugins[i].module
    }

    /// Whether a list of hooks holds `event`.
    fn declares(hooks: &Vec<String>, event: &str) -> (r: bool)
        ensures
            r == views(hooks@).contains(event@),
    {
        let mut i: usize = 0;
        while i < hooks.len()
            invariant
                i <= hooks@.len(),
                forall|j: int| 0 <= j < i ==> (#[trigger] hooks@[j])@ != event@,
            decreases hooks@.len() - i,
        {
            if str_eq(hooks[i].as_str(), event) {
                assert(views(hooks@)[i as int] == event@);
                return true;
            }
            i = i + 1;
        }
        assert forall|j: int| 0 <= j < views(hooks@).len() implies views(hooks@)[j] != event@ by {
            assert(views(hooks@)[j] == hooks@[j]@);
        }
        false
    }

    /// The positions of the plugins that declare a hook for `event`, in load order: the
    /// plugins that `fire` calls, each with the event data as keyword arguments.
    pub fn hook_targets(&self, event: &str) -> (r: Vec<usize>)
        ensures
            r@.map_values(|i: usize| i as int) == targets_spec(self@, event@),
    {
        let mut r: Vec<usize> = Vec::new();
        let mut i: usize = 0;
        while i < self.plugins.len()
            invariant
                i <= self@.len(),
                self@.len() == self.plugins@.len(),
                r@.map_values(|i: usize| i as int) == targets_spec(self@.take(i as int), event@),
            decreases self.plugins@.len() - i,
        {
            assert(self@.take(i + 1).drop_last() =~= self@.take(i as int));
            assert(self@.take(i + 1).last() == self@[i as int]);
            assert(self@[i as int].1 == views(self.plugins@[i as int].hooks@));
            if Self::declares(&self.plugins[i].hooks, event) {
                r.push(i);
            }
            assert(r@.map_values(|i: usize| i as int) =~= targets_spec(self@.take(i + 1), event@));
            i = i + 1;
        }
        assert(self@.take(self@.len() as int) =~= self@);
        r
    }
}

/// An event reaches exactly the plugins that declare a hook for it, each once, in load
/// order.
pub proof fn fire_reaches_exactly_declaring_plugins<M>(
    s: Seq<(Seq<char>, Seq<Seq<char>>, M)>,
    event: Seq<char>,
)
    ensures
        forall|i: int|
            0 <= i < s.len() ==> (targets_spec(s, event).contains(i) <==> s[i].1.contains(event)),
        forall|k: int|
            0 <= k < targets_spec(s, event).len() ==> 0 <= #[trigger] targets_spec(s, event)[k]
                < s.len(),
        forall|a: int, b: int|
            0 <= a < b < targets_spec(s, event).len() ==> #[trigger] targets_spec(s, event)[a]
                < #[trigger] targets_spec(s, event)[b],
    decreases s.len(),
{
    if s.len() > 0 {
        let d = s.drop_last();
        fire_reaches_exactly_declaring_plugins(d, event);
        let prev = targets_spec(d, event);
        let t = targets_spec(s, event);
        assert forall|i: int| 0 <= i < s.len() implies (t.contains(i) <==> s[i].1.contains(
            event,
        )) by {
            if i < d.len() {
                assert(s[i] == d[i]);
                if prev.contains(i) {
                    let k = choose|k: int| 0 <= k < prev.len() && prev[k] == i;
                    assert(t[k] == i);
                }
                if t.contains(i) {
                    let k = choose|k: int| 0 <= k < t.len() && t[k] == i;
                    if k < prev.len() {
                        assert(prev[k] == i);
                    }
                }
            } else {
                if s.last().1.contains(event) {
                    assert(t[t.len() - 1] == i);
                } else {
                    if t.contains(i) {
                        let k = choose|k: int| 0 <= k < t.len() && t[k] == i;
                        assert(prev[k] == i);
                    }
                }
            }
        }
        assert forall|k: int| 0 <= k < t.len() implies 0 <= #[trigger] t[k] < s.len() by {
            if k < prev.len() {
                assert(t[k] == prev[k]);
            }
        }
        assert forall|a: int, b: int| 0 <= a < b < t.len() implies #[trigger] t[a] < #[trigger] t[b] by {
            if b < prev.len() {
                assert(t[a] == prev[a] && t[b] == prev[b]);
            } else {
                assert(t[a] == prev[a]);
            }
        }
    }
}

// ---------------------------------------------------------------------------------------
// The plugin registry: plugins installed via `p.desc` or a component's CLI.
// ---------------------------------------------------------------------------------------

/// The view of a plugin entry: display name, module path and command aliases.
pub struct PluginEntryView {
    pub name: Seq<char>,
    pub path: Seq<char>,
    pub aliases: Seq<(Seq<char>, Seq<char>)>,
}

/// A registered plugin from a `p.desc` descriptor.
#[derive(Debug, Clone)]
pub struct PluginEntry {
    pub name: String,
    pub path: String,
    /// Command aliases: alias name to the command it runs.
    pub aliases: Vec<(String, String)>,
}

/// A list of string pairs, copied.
fn copy_pairs(v: &Vec<(String, String)>) -> (r: Vec<(String, String)>)
    ensures
        pair_views(r@) == pair_views(v@),
{
    let mut r: Vec<(String, String)> = Vec::new();
    let mut i: usize = 0;
    while i < v.len()
        invariant
            i <= v@.len(),
            r@.len() == i,
            forall|j: int|
                0 <= j < i ==> #[trigger] r@[j].0@ == v@[j].0@ && r@[j].1@ == v@[j].1@,
        decreases v@.len() - i,
    {
        r.push((v[i].0.clone(), v[i].1.clone()));
        i = i + 1;
    }
    assert(pair_views(r@) =~= pair_views(v@));
    r
}

impl View for PluginEntry {
    type V = PluginEntryView;

    open spec fn view(&self) -> PluginEntryView {
        PluginEntryView { name: self.name@, path: self.path@, aliases: pair_views(self.aliases@) }
    }
}

impl RegistryEntry for PluginEntry {
    open spec fn name_of(v: PluginEntryView) -> Seq<char> {
        v.name
    }

    fn display_name(&self) -> (r: &str) {
        self.name.as_str()
    }

    fn duplicate(&self) -> (r: Self) {
        PluginEntry {
            name: self.name.clone(),
            path: self.path.clone(),
            aliases: copy_pairs(&self.aliases),
        }
    }

    type Desc = PluginDescEntry;

    open spec fn desc_view(d: PluginDescEntry, home: Option<Seq<char>>) -> PluginEntryView {
        desc_entry_view(d, home)
    }

    fn from_desc(d: &PluginDescEntry, home: Option<&str>) -> (r: Self) {
        PluginEntry {
            name: d.name.clone(),
            path: expand_tilde(d.path.as_str(), home),
            aliases: copy_pairs(&d.aliases),
        }
    }
}

/// The registry of plugins installed via `p.desc` or a component's CLI.
pub type PluginRegistry = Registry<PluginEntry>;

/// One `[plugin.<id>]` section of a `p.desc` descriptor, as parsed.
pub struct PluginDescEntry {
    pub name: String,
    pub path: String,
    /// The section's `aliases` table; empty when it has none.
    pub aliases: Vec<(String, String)>,
}

/// The entry a descriptor section registers: its path `~`-expanded.
pub open spec fn desc_entry_view(d: PluginDescEntry, home: Option<Seq<char>>) -> PluginEntryView {
    PluginEntryView {
        name: d.name@,
        path: expand_tilde_spec(d.path@, home),
        aliases: pair_views(d.aliases@),
    }
}

/// Whether a binding is for `alias`.
pub open spec fn has_key(alias: Seq<char>) -> spec_fn((Seq<char>, Seq<char>)) -> bool {
    |p: (Seq<char>, Seq<char>)| p.0 == alias
}

/// The command bound to `alias`: the first binding of that alias.
pub open spec fn alias_lookup(aliases: Seq<(Seq<char>, Seq<char>)>, alias: Seq<char>) -> Option<
    Seq<char>,
> {
    let k = first_index(aliases, has_key(alias));
    if k < aliases.len() {
        Some(aliases[k].1)
    } else {
        None
    }
}

/// Whether a registered plugin binds `alias`.
pub open spec fn binds(alias: Seq<char>) -> spec_fn((Seq<char>, PluginEntryView)) -> bool {
    |p: (Seq<char>, PluginEntryView)| alias_lookup(p.1.aliases, alias) is Some
}

/// Looking an alias up: the first registered plugin that binds it, with the command.
pub open spec fn by_alias_spec(s: Seq<(Seq<char>, PluginEntryView)>, alias: Seq<char>) -> Option<
    (PluginEntryView, Seq<char>),
> {
    let k = first_index(s, binds(alias));
    if k < s.len() {
        Some((s[k].1, alias_lookup(s[k].1.aliases, alias).unwrap()))
    } else {
        None
    }
}

/// The command bound to `alias` in a list of aliases.
fn alias_command<'a>(aliases: &'a Vec<(String, String)>, alias: &str) -> (r: Option<&'a String>)
    ensures
        match r {
            Some(c) => alias_lookup(pair_views(aliases@), alias@) == Some(c@),
            None => alias_lookup(pair_views(aliases@), alias@) is None,
        },
{
    let ghost pv = pair_views(aliases@);
    let mut i: usize = 0;
    while i < aliases.len()
        invariant
            i <= aliases@.len(),
            pv == pair_views(aliases@),
            forall|j: int| 0 <= j < i ==> (#[trigger] pv[j]).0 != alias@,
        decreases aliases@.len() - i,
    {
        assert(pv[i as int] == (aliases@[i as int].0@, aliases@[i as int].1@));
        if str_eq(aliases[i].0.as_str(), alias) {
            proof {
                lemma_first_index_unique(pv, has_key(alias@), i as int);
            }
            return Some(&aliases[i].1);
        }
        i = i + 1;
    }
    proof {
        lemma_first_index_unique(pv, has_key(alias@), i as int);
    }
    None
}

impl Registry<PluginEntry> {
    /// Register a plugin under `name` with a display name and alias map.
    pub fn register_desc(
        &mut self,
        name: &str,
        display_name: &str,
        dest: &str,
        aliases: &Vec<(String, String)>,
    )
        ensures
            final(self)@ == insert_spec(
                old(self)@,
                name@,
                PluginEntryView { name: display_name@, path: dest@, aliases: pair_views(aliases@) },
            ),
    {
        let entry = PluginEntry {
            name: String::from_str(display_name),
            path: String::from_str(dest),
            aliases: copy_pairs(aliases),
        };
        self.insert(name, entry);
    }

    /// Register a plugin under `name`, displayed as `name`.
    pub fn register(&mut self, name: &str, dest: &str, aliases: &Vec<(String, String)>)
        ensures
            final(self)@ == insert_spec(
                old(self)@,
                name@,
                PluginEntryView { name: name@, path: dest@, aliases: pair_views(aliases@) },
            ),
    {
        self.register_desc(name, name, dest, aliases);
    }

    /// Look a plugin up by one of its command aliases: the entry plus the command bound to
    /// that alias, so the caller can run it.
    pub fn by_alias(&self, alias: &str) -> (r: Option<(PluginEntry, String)>)
        ensures
            match r {
                Some((e, c)) => by_alias_spec(self@, alias@) == Some((e@, c@)),
                None => by_alias_spec(self@, alias@) is None,
            },
    {
        let mut i: usize = 0;
        while i < self.len()
            invariant
                i <= self@.len(),
                forall|j: int| 0 <= j < i ==> !binds(alias@)(#[trigger] self@[j]),
            decreases self@.len() - i,
        {
            let e = self.entry(i);
            if let Some(c) = alias_command(&e.aliases, alias) {
                proof {
                    lemma_first_index_unique(self@, binds(alias@), i as int);
                }
                return Some((e.duplicate(), c.clone()));
            }
            i = i + 1;
        }
        proof {
            lemma_first_index_unique(self@, binds(alias@), i as int);
        }
        None
    }
}

/// A plugin registered with an alias can be found by it afterwards (the first registered
/// plugin that binds the alias answers).
pub proof fn registered_alias_is_found(
    s: Seq<(Seq<char>, PluginEntryView)>,
    id: Seq<char>,
    e: PluginEntryView,
    alias: Seq<char>,
)
    requires
        alias_lookup(e.aliases, alias) is Some,
    ensures
        by_alias_spec(insert_spec(s, id, e), alias) is Some,
{
    let t = insert_spec(s, id, e);
    lemma_first_index(s, crate::registry::has_id::<PluginEntryView>(id));
    let k = crate::registry::id_pos(s, id);
    let pos = if k < s.len() {
        k
    } else {
        s.len() as int
    };
    assert(t[pos] == (id, e));
    assert(binds(alias)(t[pos]));
    lemma_first_index(t, binds(alias));
    if first_index(t, binds(alias)) == t.len() {
        assert(!binds(alias)(t[pos]));
    }
}

/// The command `alias_lookup` answers is one the alias is bound to; it answers nothing
/// only when the alias is not bound at all.
pub proof fn alias_lookup_finds_a_binding(aliases: Seq<(Seq<char>, Seq<char>)>, alias: Seq<char>)
    ensures
        alias_lookup(aliases, alias) matches Some(c) ==> exists|j: int|
            0 <= j < aliases.len() && #[trigger] aliases[j] == (alias, c),
        alias_lookup(aliases, alias) is None <==> forall|j: int|
            0 <= j < aliases.len() ==> (#[trigger] aliases[j]).0 != alias,
{
    let p = has_key(alias);
    lemma_first_index(aliases, p);
    let k = first_index(aliases, p);
    if k < aliases.len() {
        assert(aliases[k] == (alias, aliases[k].1));
    }
}

/// Looking an alias up answers with a registered plugin that itself binds the alias to the
/// command returned; it answers nothing only when no registered plugin binds the alias.
pub proof fn by_alias_answers_with_the_binding_plugin(
    s: Seq<(Seq<char>, PluginEntryView)>,
    alias: Seq<char>,
)
    ensures
        by_alias_spec(s, alias) matches Some((e, c)) ==> exists|i: int|
            0 <= i < s.len() && #[trigger] s[i].1 == e && exists|j: int|
                0 <= j < e.aliases.len() && #[trigger] e.aliases[j] == (alias, c),
        by_alias_spec(s, alias) is None <==> forall|i: int, j: int|
            0 <= i < s.len() && 0 <= j < s[i].1.aliases.len() ==> (#[trigger] s[i].1.aliases[j]).0
                != alias,
{
    lemma_first_index(s, binds(alias));
    let k = first_index(s, binds(alias));
    if k < s.len() {
        alias_lookup_finds_a_binding(s[k].1.aliases, alias);
        let c = alias_lookup(s[k].1.aliases, alias).unwrap();
        let j = choose|j: int| 0 <= j < s[k].1.aliases.len() && #[trigger] s[k].1.aliases[j] == (alias, c);
        assert(s[k].1.aliases[j].0 == alias);
    } else {
        assert forall|i: int, j: int|
            0 <= i < s.len() && 0 <= j < s[i].1.aliases.len() implies (#[trigger] s[i].1.aliases[j]).0
            != alias by {
            assert(!binds(alias)(s[i]));
            alias_lookup_finds_a_binding(s[i].1.aliases, alias);
        }
    }
}

/// A `p.desc` section, once loaded, is registered under its id with its whole alias table,
/// in order, and each of its aliases can then be looked up.
pub proof fn loaded_section_keeps_every_alias(
    s: Seq<(Seq<char>, PluginEntryView)>,
    id: String,
    d: PluginDescEntry,
    home: Option<Seq<char>>,
)
    requires
        crate::registry::distinct_ids(s),
    ensures
        ({
            let t = crate::registry::load_desc_spec::<PluginEntry>(s, seq![(id, d)], home);
            &&& crate::registry::id_lookup(t, id@) matches Some(e) && e.name == d.name@ && e.path
                == expand_tilde_spec(d.path@, home) && e.aliases.len() == d.aliases@.len() && (
            forall|j: int|
                0 <= j < d.aliases@.len() ==> #[trigger] e.aliases[j] == (
                    d.aliases@[j].0@,
                    d.aliases@[j].1@,
                ))
            &&& forall|j: int|
                0 <= j < d.aliases@.len() ==> by_alias_spec(t, (#[trigger] d.aliases@[j]).0@) is Some
        }),
{
    reveal_with_fuel(crate::registry::load_desc_spec, 2);
    let ds = seq![(id, d)];
    assert(ds.drop_last() =~= Seq::<(String, PluginDescEntry)>::empty());
    let e = desc_entry_view(d, home);
    let t = insert_spec(s, id@, e);
    assert(crate::registry::load_desc_spec::<PluginEntry>(s, ds, home) == t);
    crate::registry::registered_entry_is_found::<PluginEntry>(s, id@, e, id@ + seq!['!']);
    assert forall|j: int| 0 <= j < d.aliases@.len() implies by_alias_spec(
        t,
        (#[trigger] d.aliases@[j]).0@,
    ) is Some by {
        let a = d.aliases@[j].0@;
        assert(e.aliases[j].0 == a);
        alias_lookup_finds_a_binding(e.aliases, a);
        registered_alias_is_found(s, id@, e, a);
    }
}

// ---------------------------------------------------------------------------------------
// Running a registered plugin: the command line.
// ---------------------------------------------------------------------------------------

/// The run arguments joined with single spaces.
pub open spec fn joined(args: Seq<Seq<char>>) -> Seq<char>
    decreases args.len(),
{
    if args.len() == 0 {
        seq![]
    } else if args.len() == 1 {
        args[0]
    } else {
        joined(args.drop_last()) + " "@ + args.last()
    }
}

/// Whether `s` holds the placeholder `{}`.
pub open spec fn has_placeholder(s: Seq<char>) -> bool {
    exists|i: int| 0 <= i < s.len() - 1 && s[i] == '{' && #[trigger] s[i + 1] == '}'
}

/// `s` with every `{}` (left to right, not overlapping) replaced by `r`.
pub open spec fn replace_placeholder(s: Seq<char>, r: Seq<char>) -> Seq<char>
    decreases s.len(),
{
    if s.len() < 2 {
        s
    } else if s[0] == '{' && s[1] == '}' {
        r + replace_placeholder(s.skip(2), r)
    } else {
        seq![s[0]] + replace_placeholder(s.skip(1), r)
    }
}

/// The shell command that runs an alias's command `func` with `args`: each `{}` in the
/// command is replaced by the arguments joined with spaces; without a `{}`, the joined
/// arguments (when there are any) are appended after a space.
pub open spec fn command_spec(func: Seq<char>, args: Seq<Seq<char>>) -> Seq<char> {
    if has_placeholder(func) {
        replace_placeholder(func, joined(args))
    } else if joined(args).len() > 0 {
        func + " "@ + joined(args)
    } else {
        func
    }
}

/// The run arguments joined with single spaces.
pub fn join_args(args: &Vec<String>) -> (r: String)
    ensures
        r@ == joined(views(args@)),
{
    let ghost a = views(args@);
    let mut r = String::new();
    let mut i: usize = 0;
    while i < args.len()
        invariant
            i <= args@.len(),
            a == views(args@),
            r@ == joined(a.take(i as int)),
        decreases args@.len() - i,
    {
        assert(a.take(i + 1).drop_last() =~= a.take(i as int));
        assert(a.take(i + 1).last() == args@[i as int]@);
        if i > 0 {
            r.append(" ");
        } else {
            assert(a.take(0) =~= Seq::<Seq<char>>::empty());
            assert(a.take(1)[0] == a[0]);
        }
        r.append(args[i].as_str());
        i = i + 1;
    }
    assert(a.take(args@.len() as int) =~= a);
    r
}

/// Whether `s` holds the placeholder `{}`.
fn contains_placeholder(s: &str) -> (r: bool)
    ensures
        r == has_placeholder(s@),
{
    let n = s.unicode_len();
    if n == 0 {
        return false;
    }
    let mut i: usize = 0;
    while i < n - 1
        invariant
            n > 0,
            n == s@.len(),
            i <= n,
            forall|j: int| 0 <= j < i && j < n - 1 ==> !(s@[j] == '{' && #[trigger] s@[j + 1] == '}'),
        decreases n - i,
    {
        if s.get_char(i) == '{' && s.get_char(i + 1) == '}' {
            assert(s@[i + 1] == '}');
            return true;
        }
        i = i + 1;
    }
    assert forall|j: int| 0 <= j < n - 1 && s@[j] == '{' implies #[trigger] s@[j + 1] != '}' by {
    }
    false
}

/// `s` with every `{}` replaced by `r`.
fn replace_placeholder_exec(s: &str, r: &str) -> (out: String)
    ensures
        out@ == replace_placeholder(s@, r@),
{
    let n = s.unicode_len();
    let mut out = String::new();
    let mut i: usize = 0;
    assert(s@.skip(0) =~= s@);
    assert(out@ + replace_placeholder(s@, r@) =~= replace_placeholder(s@, r@));
    while i < n
        invariant
            n == s@.len(),
            i <= n,
            out@ + replace_placeholder(s@.skip(i as int), r@) == replace_placeholder(s@, r@),
        decreases n - i,
    {
        let ghost rest = s@.skip(i as int);
        if i + 1 < n && s.get_char(i) == '{' && s.get_char(i + 1) == '}' {
            assert(rest[0] == '{' && rest[1] == '}');
            assert(rest.skip(2) =~= s@.skip(i + 2));
            let ghost before = out@;
            out.append(r);
            assert(out@ + replace_placeholder(s@.skip(i + 2), r@) =~= before
                + replace_placeholder(rest, r@));
            i = i + 2;
        } else {
            let one = s.substring_char(i, i + 1);
            assert(one@ =~= seq![rest[0]]);
            assert(rest.skip(1) =~= s@.skip(i + 1));
            let ghost before = out@;
            out.append(one);
            proof {
                if rest.len() < 2 {
                    assert(s@.skip(i + 1) =~= Seq::<char>::empty());
                    assert(replace_placeholder(rest, r@) == rest);
                    assert(rest =~= seq![rest[0]]);
                }
            }
            assert(out@ + replace_placeholder(s@.skip(i + 1), r@) =~= before
                + replace_placeholder(rest, r@));
            i = i + 1;
        }
    }
    assert(s@.skip(n as int) =~= Seq::<char>::empty());
    assert(out@ + Seq::<char>::empty() =~= out@);
    out
}

/// The shell command that runs an alias's command `func` with `args` (see `command_spec`).
pub fn plugin_command(func: &str, args: &Vec<String>) -> (r: String)
    ensures
        r@ == command_spec(func@, views(args@)),
{
    let joined = join_args(args);
    if contains_placeholder(func) {
        replace_placeholder_exec(func, joined.as_str())
    } else if !joined.as_str().is_empty() {
        let mut c = concat(func, " ");
        c.append(joined.as_str());
        c
    } else {
        String::from_str(func)
    }
}

/// A command without a placeholder and no arguments runs as is; with a placeholder, the
/// arguments go where it stands.
pub proof fn placeholder_takes_the_arguments(func: Seq<char>, args: Seq<Seq<char>>)
    ensures
        !has_placeholder(func) && args.len() == 0 ==> command_spec(func, args) == func,
        !has_placeholder(func) ==> replace_placeholder(func, joined(args)) == func,
    decreases func.len(),
{
    if !has_placeholder(func) && func.len() >= 2 {
        if func[0] == '{' && func[1] == '}' {
            assert(func[0int + 1] == '}');
        }
        let rest = func.skip(1);
        assert(!has_placeholder(rest)) by {
            if has_placeholder(rest) {
                let i = choose|i: int| 0 <= i < rest.len() - 1 && rest[i] == '{' && #[trigger] rest[i
                    + 1] == '}';
                assert(func[i + 1] == '{' && func[i + 2] == '}');
            }
        }
        placeholder_takes_the_arguments(rest, args);
        assert(seq![func[0]] + rest =~= func);
    }
}

} // verus!
