//! Themes: the theme registry and the reading of what a theme's functions return.
//!
//! The host calls the theme module's Python functions; what they return is handed here
//! as a `PyValue`, or as `None` when the call raised.
use vstd::prelude::*;

use crate::paths::{expand_tilde, expand_tilde_spec};
use crate::registry::{insert_spec, Registry, RegistryEntry};
use crate::text::{concat, first_index, lemma_first_index_unique, str_eq, views};

verus! {

/// The view of a theme or TUI entry: display name, module path and description.
pub struct EntryView {
    pub name: Seq<char>,
    pub path: Seq<char>,
    pub description: Seq<char>,
}

/// A registered theme from a `t.desc` descriptor.
#[derive(Debug, Clone)]
pub struct ThemeEntry {
    pub name: String,
    pub path: String,
    pub description: String,
}

impl View for ThemeEntry {
    type V = EntryView;

    open spec fn view(&self) -> EntryView {
        EntryView { name: self.name@, path: self.path@, description: self.description@ }
    }
}

impl RegistryEntry for ThemeEntry {
    open spec fn name_of(v: EntryView) -> Seq<char> {
        v.name
    }

    fn display_name(&self) -> (r: &str) {
        self.name.as_str()
    }

    fn duplicate(&self) -> (r: Self) {
        ThemeEntry {
            name: self.name.clone(),
            path: self.path.clone(),
            description: self.description.clone(),
        }
    }

    type Desc = ThemeDescEntry;

    open spec fn desc_view(d: ThemeDescEntry, home: Option<Seq<char>>) -> EntryView {
        desc_entry_view(d, home)
    }

    fn from_desc(d: &ThemeDescEntry, home: Option<&str>) -> (r: Self) {
        ThemeEntry {
            name: d.name.clone(),
            path: expand_tilde(d.path.as_str(), home),
            description: match &d.description {
                Some(s) => s.clone(),
                None => String::new(),
            },
        }
    }
}

/// The registry of themes installed via `t.desc` or a component's CLI.
pub type ThemeRegistry = Registry<ThemeEntry>;

/// One `[theme.<id>]` section of a `t.desc` descriptor, as parsed.
pub struct ThemeDescEntry {
    pub name: String,
    pub path: String,
    pub description: Option<String>,
}

/// The entry a descriptor section registers: its path `~`-expanded, a missing description
/// read as empty.
pub open spec fn desc_entry_view(d: ThemeDescEntry, home: Option<Seq<char>>) -> EntryView {
    EntryView {
        name: d.name@,
        path: expand_tilde_spec(d.path@, home),
        description: match d.description {
            Some(s) => s@,
            None => Seq::empty(),
        },
    }
}

impl Registry<ThemeEntry> {
    /// Register a theme under `name` with a display name and description.
    pub fn register_desc(&mut self, name: &str, display_name: &str, dest: &str, description: &str)
        ensures
            final(self)@ == insert_spec(
                old(self)@,
                name@,
                EntryView { name: display_name@, path: dest@, description: description@ },
            ),
    {
        let entry = ThemeEntry {
            name: String::from_str(display_name),
            path: String::from_str(dest),
            description: String::from_str(description),
        };
        self.insert(name, entry);
    }

    /// Register a theme under `name`, displayed as `name`, with a blank description.
    pub fn register(&mut self, name: &str, dest: &str)
        ensures
            final(self)@ == insert_spec(
                old(self)@,
                name@,
                EntryView { name: name@, path: dest@, description: Seq::empty() },
            ),
    {
        proof {
            reveal_strlit("");
        }
        assert(""@ =~= Seq::<char>::empty());
        self.register_desc(name, name, dest, "");
    }
}

/// A Python value returned by a theme function, as far as the engine reads it.
pub enum PyValue {
    /// A `str`.
    Str(String),
    /// A `list`.
    List(Vec<PyValue>),
    /// A `dict`, its items in iteration order.
    Dict(Vec<(PyValue, PyValue)>),
    /// Anything else.
    Other,
}

/// The text of a value that is a `str`.
pub open spec fn str_of(v: PyValue) -> Option<Seq<char>> {
    match v {
        PyValue::Str(s) => Some(s@),
        _ => None,
    }
}

/// The text of a value that is a `str`, or empty.
pub open spec fn text_or_empty(v: PyValue) -> Seq<char> {
    match v {
        PyValue::Str(s) => s@,
        _ => Seq::empty(),
    }
}

/// Whether an item's key is the `str` `key`.
pub open spec fn keyed(key: Seq<char>) -> spec_fn((PyValue, PyValue)) -> bool {
    |p: (PyValue, PyValue)| str_of(p.0) == Some(key)
}

/// `d[key]`: the value of the first item whose key is the `str` `key`.
pub open spec fn dict_get(d: Seq<(PyValue, PyValue)>, key: Seq<char>) -> Option<PyValue> {
    if first_index(d, keyed(key)) < d.len() {
        Some(d[first_index(d, keyed(key))].1)
    } else {
        None
    }
}

/// The strings of a list, in order; other elements are skipped.
pub open spec fn str_items(l: Seq<PyValue>) -> Seq<Seq<char>> {
    l.filter_map(|x: PyValue| str_of(x))
}

/// An item whose key and value are both `str`, as a pair of texts.
pub open spec fn str_pair(p: (PyValue, PyValue)) -> Option<(Seq<char>, Seq<char>)> {
    match (str_of(p.0), str_of(p.1)) {
        (Some(k), Some(v)) => Some((k, v)),
        _ => None,
    }
}

/// The `str` to `str` items of a dict, in order.
pub open spec fn str_pairs(d: Seq<(PyValue, PyValue)>) -> Seq<(Seq<char>, Seq<char>)> {
    d.filter_map(|p: (PyValue, PyValue)| str_pair(p))
}

/// The keys that `render_prompt`'s dict gives a meaning to.
pub open spec fn is_reserved(k: Seq<char>) -> bool {
    k == "lines_above"@ || k == "input_prefix"@ || k == "right_prompt"@ || k == "colors"@
}

/// A `str` to `str` item whose key has no meaning of its own.
pub open spec fn extra_pair(p: (PyValue, PyValue)) -> Option<(Seq<char>, Seq<char>)> {
    match str_pair(p) {
        Some(kv) => if is_reserved(kv.0) {
            None
        } else {
            Some(kv)
        },
        None => None,
    }
}

/// The `str` to `str` items of a dict whose keys have no meaning of their own.
pub open spec fn extra_pairs(d: Seq<(PyValue, PyValue)>) -> Seq<(Seq<char>, Seq<char>)> {
    d.filter_map(|p: (PyValue, PyValue)| extra_pair(p))
}

/// The view of a `ThemeResult`.
pub struct ThemeResultView {
    pub lines_above: Seq<Seq<char>>,
    pub input_prefix: Seq<char>,
    pub right_prompt: Seq<char>,
    pub colors: Seq<(Seq<char>, Seq<char>)>,
    pub extra: Seq<(Seq<char>, Seq<char>)>,
}

/// The structured result of a `render_prompt` call.
#[derive(Debug, Clone, PartialEq)]
pub struct ThemeResult {
    /// Lines printed above the prompt (header / multi-line content).
    pub lines_above: Vec<String>,
    /// The final input prefix, e.g. `"~/code ❯ "`.
    pub input_prefix: String,
    /// Right-aligned suffix (git info, time, ...).
    pub right_prompt: String,
    /// Named colors, in the order the theme gave them.
    pub colors: Vec<(String, String)>,
    /// Any other `str` entries returned by the theme, untouched by the engine.
    pub extra: Vec<(String, String)>,
}

/// The views of a list of string pairs.
pub open spec fn pair_views(v: Seq<(String, String)>) -> Seq<(Seq<char>, Seq<char>)> {
    v.map_values(|p: (String, String)| (p.0@, p.1@))
}

impl View for ThemeResult {
    type V = ThemeResultView;

    open spec fn view(&self) -> ThemeResultView {
        ThemeResultView {
            lines_above: views(self.lines_above@),
            input_prefix: self.input_prefix@,
            right_prompt: self.right_prompt@,
            colors: pair_views(self.colors@),
            extra: pair_views(self.extra@),
        }
    }
}

/// The empty result.
pub open spec fn empty_result() -> ThemeResultView {
    ThemeResultView {
        lines_above: Seq::empty(),
        input_prefix: Seq::empty(),
        right_prompt: Seq::empty(),
        colors: Seq::empty(),
        extra: Seq::empty(),
    }
}

/// What a `render_prompt` return value means: a dict with the documented keys, or a plain
/// string used as the single line above the prompt. Anything else means nothing.
pub open spec fn parse_spec(v: PyValue) -> ThemeResultView {
    match v {
        PyValue::Dict(d) => ThemeResultView {
            lines_above: match dict_get(d@, "lines_above"@) {
                Some(PyValue::List(l)) => str_items(l@),
                _ => Seq::empty(),
            },
            input_prefix: match dict_get(d@, "input_prefix"@) {
                Some(x) => text_or_empty(x),
                None => Seq::empty(),
            },
            right_prompt: match dict_get(d@, "right_prompt"@) {
                Some(x) => text_or_empty(x),
                None => Seq::empty(),
            },
            colors: match dict_get(d@, "colors"@) {
                Some(PyValue::Dict(c)) => str_pairs(c@),
                _ => Seq::empty(),
            },
            extra: extra_pairs(d@),
        },
        PyValue::Str(s) => ThemeResultView { lines_above: seq![s@], ..empty_result() },
        _ => empty_result(),
    }
}

/// The key-value pairs of a context map.
pub open spec fn context_get(ctx: Seq<(String, String)>, key: Seq<char>) -> Option<Seq<char>> {
    let k = first_index(ctx, |p: (String, String)| p.0@ == key);
    if k < ctx.len() {
        Some(ctx[k].1@)
    } else {
        None
    }
}

/// The native fallback prompt: `"<cwd> ❯ "`, with `~` when the context has no `cwd`.
pub open spec fn default_prompt_spec(ctx: Seq<(String, String)>) -> ThemeResultView {
    let cwd = match context_get(ctx, "cwd"@) {
        Some(c) => c,
        None => "~"@,
    };
    ThemeResultView { input_prefix: cwd + " ❯ "@, ..empty_result() }
}

impl Default for ThemeResult {
    /// The empty result.
    fn default() -> (r: Self)
        ensures
            r@ == empty_result(),
    {
        let r = ThemeResult {
            lines_above: Vec::new(),
            input_prefix: String::new(),
            right_prompt: String::new(),
            colors: Vec::new(),
            extra: Vec::new(),
        };
        assert(r@.lines_above =~= Seq::<Seq<char>>::empty());
        assert(r@.colors =~= Seq::<(Seq<char>, Seq<char>)>::empty());
        assert(r@.extra =~= Seq::<(Seq<char>, Seq<char>)>::empty());
        r
    }
}

/// The value of a context entry.
fn context_value<'a>(ctx: &'a Vec<(String, String)>, key: &str) -> (r: Option<&'a String>)
    ensures
        match r {
            Some(v) => context_get(ctx@, key@) == Some(v@),
            None => context_get(ctx@, key@) is None,
        },
{
    let mut i: usize = 0;
    while i < ctx.len()
        invariant
            i <= ctx@.len(),
            forall|j: int| 0 <= j < i ==> (#[trigger] ctx@[j]).0@ != key@,
        decreases ctx@.len() - i,
    {
        if str_eq(ctx[i].0.as_str(), key) {
            proof {
                lemma_first_index_unique(ctx@, |p: (String, String)| p.0@ == key@, i as int);
            }
            return Some(&ctx[i].1);
        }
        i = i + 1;
    }
    proof {
        lemma_first_index_unique(ctx@, |p: (String, String)| p.0@ == key@, i as int);
    }
    None
}

impl ThemeResult {
    /// The native fallback prompt used when Python is unavailable or errors.
    pub fn default_prompt(context: &Vec<(String, String)>) -> (r: Self)
        ensures
            r@ == default_prompt_spec(context@),
    {
        let mut r = ThemeResult::default();
        r.input_prefix = match context_value(context, "cwd") {
            Some(c) => concat(c.as_str(), " ❯ "),
            None => concat("~", " ❯ "),
        };
        r
    }
}

/// `d[key]`, when `d` has a `str` key `key`.
fn dict_get_exec<'a>(d: &'a Vec<(PyValue, PyValue)>, key: &str) -> (r: Option<&'a PyValue>)
    ensures
        match r {
            Some(v) => dict_get(d@, key@) == Some(*v),
            None => dict_get(d@, key@) is None,
        },
{
    let mut i: usize = 0;
    while i < d.len()
        invariant
            i <= d@.len(),
            forall|j: int| 0 <= j < i ==> !keyed(key@)(#[trigger] d@[j]),
        decreases d@.len() - i,
    {
        let hit = match &d[i].0 {
            PyValue::Str(s) => str_eq(s.as_str(), key),
            _ => false,
        };
        if hit {
            proof {
                lemma_first_index_unique(d@, keyed(key@), i as int);
            }
            return Some(&d[i].1);
        }
        i = i + 1;
    }
    proof {
        lemma_first_index_unique(d@, keyed(key@), i as int);
    }
    None
}

/// The strings of a list, in order.
fn str_items_exec(l: &Vec<PyValue>) -> (r: Vec<String>)
    ensures
        views(r@) == str_items(l@),
{
    let mut r: Vec<String> = Vec::new();
    let mut i: usize = 0;
    while i < l.len()
        invariant
            i <= l@.len(),
            views(r@) == str_items(l@.take(i as int)),
        decreases l@.len() - i,
    {
        assert(l@.take(i + 1).drop_last() =~= l@.take(i as int));
        if let PyValue::Str(s) = &l[i] {
            r.push(s.clone());
        }
        assert(views(r@) =~= str_items(l@.take(i + 1)));
        i = i + 1;
    }
    assert(l@.take(l@.len() as int) =~= l@);
    r
}

/// The `str` to `str` items of a dict, in order; with `skip_reserved`, only those whose
/// keys have no meaning of their own.
fn str_pairs_exec(d: &Vec<(PyValue, PyValue)>, skip_reserved: bool) -> (r: Vec<(String, String)>)
    ensures
        pair_views(r@) == if skip_reserved {
            extra_pairs(d@)
        } else {
            str_pairs(d@)
        },
{
    let mut r: Vec<(String, String)> = Vec::new();
    let mut i: usize = 0;
    while i < d.len()
        invariant
            i <= d@.len(),
            pair_views(r@) == if skip_reserved {
                extra_pairs(d@.take(i as int))
            } else {
                str_pairs(d@.take(i as int))
            },
        decreases d@.len() - i,
    {
        assert(d@.take(i + 1).drop_last() =~= d@.take(i as int));
        assert(d@.take(i + 1).last() == d@[i as int]);
        if let (PyValue::Str(k), PyValue::Str(v)) = (&d[i].0, &d[i].1) {
            let reserved = str_eq(k.as_str(), "lines_above") || str_eq(k.as_str(), "input_prefix")
                || str_eq(k.as_str(), "right_prompt") || str_eq(k.as_str(), "colors");
            if !(skip_reserved && reserved) {
                r.push((k.clone(), v.clone()));
            }
        }
        assert(pair_views(r@) =~= if skip_reserved {
            extra_pairs(d@.take(i + 1))
        } else {
            str_pairs(d@.take(i + 1))
        });
        i = i + 1;
    }
    assert(d@.take(d@.len() as int) =~= d@);
    r
}

/// Read a Python return value as a `ThemeResult` (see `parse_spec`).
pub fn parse_theme_result(val: &PyValue) -> (r: ThemeResult)
    ensures
        r@ == parse_spec(*val),
{
    let mut res = ThemeResult::default();
    match val {
        PyValue::Dict(d) => {
            if let Some(PyValue::List(l)) = dict_get_exec(d, "lines_above") {
                res.lines_above = str_items_exec(l);
            }
            if let Some(v) = dict_get_exec(d, "input_prefix") {
                if let PyValue::Str(s) = v {
                    res.input_prefix = s.clone();
                }
            }
            if let Some(v) = dict_get_exec(d, "right_prompt") {
                if let PyValue::Str(s) = v {
                    res.right_prompt = s.clone();
                }
            }
            if let Some(PyValue::Dict(c)) = dict_get_exec(d, "colors") {
                res.colors = str_pairs_exec(c, false);
            }
            res.extra = str_pairs_exec(d, true);
        },
        PyValue::Str(s) => {
            res.lines_above.push(s.clone());
            assert(views(res.lines_above@) =~= seq![s@]);
        },
        _ => {},
    }
    res
}

/// What `render_prompt` yields for a theme call that returned `reply`, or raised (`None`):
/// the parsed reply, or the native fallback prompt for `context`.
pub fn render_prompt(context: &Vec<(String, String)>, reply: Option<&PyValue>) -> (r: ThemeResult)
    ensures
        r@ == match reply {
            Some(v) => parse_spec(*v),
            None => default_prompt_spec(context@),
        },
{
    match reply {
        Some(v) => parse_theme_result(v),
        None => ThemeResult::default_prompt(context),
    }
}

/// What a theme function that must return a string yields for a call that returned
/// `reply`, or raised (`None`): the string, or empty.
pub fn reply_text(reply: Option<&PyValue>) -> (r: String)
    ensures
        r@ == match reply {
            Some(v) => text_or_empty(*v),
            None => Seq::empty(),
        },
{
    match reply {
        Some(PyValue::Str(s)) => s.clone(),
        _ => String::new(),
    }
}

/// The extra entries of a prompt never hold a key that has a meaning of its own, and
/// every extra entry is a `str` to `str` item of the dict.
pub proof fn extra_excludes_reserved_keys(d: Seq<(PyValue, PyValue)>)
    ensures
        forall|k: int| 0 <= k < extra_pairs(d).len() ==> !is_reserved(#[trigger] extra_pairs(d)[k].0),
    decreases d.len(),
{
    if d.len() > 0 {
        extra_excludes_reserved_keys(d.drop_last());
        let prev = extra_pairs(d.drop_last());
        assert forall|k: int| 0 <= k < extra_pairs(d).len() implies !is_reserved(
            #[trigger] extra_pairs(d)[k].0,
        ) by {
            if k < prev.len() {
                assert(extra_pairs(d)[k] == prev[k]);
            }
        }
    }
}

/// A theme that returns a plain string gets exactly that line above the prompt and
/// nothing else.
pub proof fn plain_string_is_one_line(s: String)
    ensures
        parse_spec(PyValue::Str(s)).lines_above == seq![s@],
        parse_spec(PyValue::Str(s)).input_prefix.len() == 0,
        parse_spec(PyValue::Str(s)).colors.len() == 0,
        parse_spec(PyValue::Str(s)).extra.len() == 0,
{
}

/// Whether an item's key and value are both `str`.
pub open spec fn is_str_item() -> spec_fn((PyValue, PyValue)) -> bool {
    |p: (PyValue, PyValue)| str_of(p.0) is Some && str_of(p.1) is Some
}

/// `str_pairs` keeps every `str` to `str` item, keeps nothing else, and has one pair per
/// such item.
proof fn lemma_str_pairs(c: Seq<(PyValue, PyValue)>)
    ensures
        forall|j: int|
            0 <= j < c.len() && str_of(c[j].0) is Some && str_of(c[j].1) is Some ==> str_pairs(
                c,
            ).contains((str_of(c[j].0).unwrap(), str_of(c[j].1).unwrap())),
        forall|k: int|
            0 <= k < str_pairs(c).len() ==> exists|j: int|
                0 <= j < c.len() && str_of(c[j].0) == Some((#[trigger] str_pairs(c)[k]).0)
                    && str_of(c[j].1) == Some(str_pairs(c)[k].1),
        str_pairs(c).len() == c.filter(is_str_item()).len(),
    decreases c.len(),
{
    reveal(Seq::filter);
    if c.len() > 0 {
        let d = c.drop_last();
        lemma_str_pairs(d);
        let pd = str_pairs(d);
        let pc = str_pairs(c);
        assert(pc == match str_pair(c.last()) {
            Some(kv) => pd + seq![kv],
            None => pd,
        });
        assert forall|j: int|
            0 <= j < c.len() && str_of(c[j].0) is Some && str_of(c[j].1) is Some implies pc.contains(
            (str_of(c[j].0).unwrap(), str_of(c[j].1).unwrap()),
        ) by {
            if j < d.len() {
                assert(c[j] == d[j]);
                let k = choose|k: int|
                    0 <= k < pd.len() && pd[k] == (str_of(d[j].0).unwrap(), str_of(d[j].1).unwrap());
                assert(pc[k] == pd[k]);
            } else {
                assert(pc[pc.len() - 1] == (str_of(c[j].0).unwrap(), str_of(c[j].1).unwrap()));
            }
        }
        assert forall|k: int| 0 <= k < pc.len() implies exists|j: int|
            0 <= j < c.len() && str_of(c[j].0) == Some((#[trigger] pc[k]).0) && str_of(c[j].1)
                == Some(pc[k].1) by {
            if k < pd.len() {
                assert(pc[k] == pd[k]);
                let j = choose|j: int|
                    0 <= j < d.len() && str_of(d[j].0) == Some((#[trigger] pd[k]).0) && str_of(
                        d[j].1,
                    ) == Some(pd[k].1);
                assert(c[j] == d[j]);
            } else {
                assert(str_of(c[c.len() - 1].0) == Some(pc[k].0));
            }
        }
    }
}

/// The colors of a prompt are exactly the `str` to `str` items of the reply's `colors`
/// dict: each such item is there, nothing else is, and there is one color per item.
pub proof fn colors_are_every_string_item(d: Vec<(PyValue, PyValue)>, c: Vec<(PyValue, PyValue)>)
    requires
        dict_get(d@, "colors"@) == Some(PyValue::Dict(c)),
    ensures
        forall|j: int|
            0 <= j < c@.len() && str_of(c@[j].0) is Some && str_of(c@[j].1) is Some ==> parse_spec(
                PyValue::Dict(d),
            ).colors.contains((str_of(c@[j].0).unwrap(), str_of(c@[j].1).unwrap())),
        forall|k: int|
            0 <= k < parse_spec(PyValue::Dict(d)).colors.len() ==> exists|j: int|
                0 <= j < c@.len() && str_of(c@[j].0) == Some(
                    (#[trigger] parse_spec(PyValue::Dict(d)).colors[k]).0,
                ) && str_of(c@[j].1) == Some(parse_spec(PyValue::Dict(d)).colors[k].1),
        parse_spec(PyValue::Dict(d)).colors.len() == c@.filter(is_str_item()).len(),
{
    lemma_str_pairs(c@);
    assert(parse_spec(PyValue::Dict(d)).colors == str_pairs(c@));
}

} // verus!
