//! TUIs: the registry of full-screen Python applications.
use vstd::prelude::*;

use crate::paths::{expand_tilde, expand_tilde_spec};
use crate::registry::{insert_spec, Registry, RegistryEntry};
use crate::theme::EntryView;

verus! {

/// A registered TUI from a `t.desc` descriptor.
#[derive(Debug, Clone)]
pub struct TuiEntry {
    pub name: String,
    pub path: String,
    pub description: String,
}

impl View for TuiEntry {
    type V = EntryView;

    open spec fn view(&self) -> EntryView {
        EntryView { name: self.name@, path: self.path@, description: self.description@ }
    }
}

impl RegistryEntry for TuiEntry {
    open spec fn name_of(v: EntryView) -> Seq<char> {
        v.name
    }

    fn display_name(&self) -> (r: &str) {
        self.name.as_str()
    }

    fn duplicate(&self) -> (r: Self) {
        TuiEntry {
            name: self.name.clone(),
            path: self.path.clone(),
            description: self.description.clone(),
        }
    }

    type Desc = TuiDescEntry;

    open spec fn desc_view(d: TuiDescEntry, home: Option<Seq<char>>) -> EntryView {
        desc_entry_view(d, home)
    }

    fn from_desc(d: &TuiDescEntry, home: Option<&str>) -> (r: Self) {
        TuiEntry {
            name: d.name.clone(),
            path: expand_tilde(d.path.as_str(), home),
            description: match &d.description {
                Some(s) => s.clone(),
                None => String::new(),
            },
        }
    }
}

/// The registry of TUIs installed via `t.desc` or a component's CLI.
pub type TuiRegistry = Registry<TuiEntry>;

/// One `[tui.<id>]` section of a `t.desc` descriptor, as parsed.
pub struct TuiDescEntry {
    pub name: String,
    pub path: String,
    pub description: Option<String>,
}

/// The entry a descriptor section registers: its path `~`-expanded, a missing description
/// read as empty.
pub open spec fn desc_entry_view(d: TuiDescEntry, home: Option<Seq<char>>) -> EntryView {
    EntryView {
        name: d.name@,
        path: expand_tilde_spec(d.path@, home),
        description: match d.description {
            Some(s) => s@,
            None => Seq::empty(),
        },
    }
}

impl Registry<TuiEntry> {
    /// Register a TUI under `name` with a display name and description.
    pub fn register_desc(&mut self, name: &str, display_name: &str, dest: &str, description: &str)
        ensures
            final(self)@ == insert_spec(
                old(self)@,
                name@,
                EntryView { name: display_name@, path: dest@, description: description@ },
            ),
    {
        let entry = TuiEntry {
            name: String::from_str(display_name),
            path: String::from_str(dest),
            description: String::from_str(description),
        };
        self.insert(name, entry);
    }

    /// Register a TUI under `name`, displayed as `name`, with a blank description.
    pub fn register(&mut self, name: &str, dest: &str)
        ensures
            final(self)@ == insert_spec(
                old(self)@,
                name@,
                EntryView { name: name@, path: dest@, description: Seq::empty() },
            ),
    {
        proof {
            reveal_strlit("");
        }
        assert(""@ =~= Seq::<char>::empty());
        self.register_desc(name, name, dest, "");
    }
}

} // verus!
