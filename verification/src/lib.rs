//! cps: the shared Python subsystem of the Cudane components (plugins, themes, TUIs).
//!
//! This crate holds the subsystem's decisions and data: the configuration contract,
//! path handling, the theme / TUI / plugin registries, the engine's boot and shutdown
//! life cycle, hook dispatch and the reading of a theme's prompt. Talking to the Python
//! interpreter, the file system and the process environment is left to the host, which
//! hands the results to the functions here.
pub mod config;
pub mod engine;
pub mod paths;
pub mod plugin;
pub mod registry;
pub mod text;
pub mod theme;
pub mod tui;

use std::sync::Arc;
use vstd::prelude::*;

pub use config::PythonConfig;
pub use engine::EngineState;
pub use paths::expand_tilde;
pub use plugin::{PluginEntry, PluginManager, PluginRegistry};
pub use theme::{ThemeEntry, ThemeRegistry, ThemeResult};
pub use tui::{TuiEntry, TuiRegistry};

use crate::paths::{join_spec, join_path, opt_view};

verus! {

/// Emits the subsystem's status messages through the host component's own UI.
pub trait Reporter: Send + Sync {
    /// Informational message (theme/plugin/TUI successfully loaded).
    fn info(&self, msg: &str);

    /// Recoverable problem (missing file, unavailable engine).
    fn warning(&self, msg: &str);

    /// Hard failure (Python exception while loading).
    fn error(&self, msg: &str);
}

/// Per-process options for the subsystem: the host's brand, the directories searched for
/// `t.desc` / `p.desc` descriptor files, and where status messages go.
pub struct Options<R: Reporter + ?Sized = dyn Reporter> {
    /// Component name used to build the default descriptor/config paths.
    pub brand: String,
    /// Directories searched for `t.desc` and `p.desc` descriptor files.
    pub desc_dirs: Vec<String>,
    /// Where status messages are delivered.
    pub reporter: Arc<R>,
}

/// The default descriptor directories of a brand: `<home>/.config/<brand>` (when the
/// home directory is known), `/etc/<brand>` and `.`.
pub open spec fn default_desc_dirs(brand: Seq<char>, home: Option<Seq<char>>) -> Seq<Seq<char>> {
    let rest = seq![join_spec("/etc"@, brand), "."@];
    match home {
        Some(h) => seq![join_spec(join_spec(h, ".config"@), brand)] + rest,
        None => rest,
    }
}

impl<R: Reporter + ?Sized> Options<R> {
    /// The descriptor directories, as character sequences.
    pub open spec fn dirs_view(&self) -> Seq<Seq<char>> {
        self.desc_dirs@.map_values(|s: String| s@)
    }

    /// Defaults for a brand: descriptor directories `<home>/.config/<brand>` (when `home`,
    /// the value of `$HOME`, is known), `/etc/<brand>` and `.`, reporting to `reporter`.
    pub fn new(brand: &str, home: Option<&str>, reporter: Arc<R>) -> (r: Self)
        ensures
            r.brand@ == brand@,
            r.dirs_view() == default_desc_dirs(brand@, opt_view(home)),
            r.reporter == reporter,
    {
        let mut desc_dirs: Vec<String> = Vec::new();
        if let Some(h) = home {
            let config = join_path(h, ".config");
            desc_dirs.push(join_path(config.as_str(), brand));
        }
        desc_dirs.push(join_path("/etc", brand));
        desc_dirs.push(String::from_str("."));
        proof {
            reveal_strlit(".");
        }
        let r = Options { brand: String::from_str(brand), desc_dirs, reporter };
        assert(r.dirs_view() =~= default_desc_dirs(brand@, opt_view(home)));
        r
    }

    /// Override the descriptor search directories.
    pub fn with_desc_dirs(self, dirs: Vec<String>) -> (r: Self)
        ensures
            r.brand == self.brand,
            r.desc_dirs == dirs,
            r.reporter == self.reporter,
    {
        let mut s = self;
        s.desc_dirs = dirs;
        s
    }

    /// Override the message reporter.
    pub fn with_reporter(self, reporter: Arc<R>) -> (r: Self)
        ensures
            r.brand == self.brand,
            r.desc_dirs == self.desc_dirs,
            r.reporter == reporter,
    {
        let mut s = self;
        s.reporter = reporter;
        s
    }
}

/// The subsystem's options once set: empty until the first `configure` (or the first
/// use of `options`), fixed afterwards.
pub struct OptionsSlot<R: Reporter + ?Sized = dyn Reporter> {
    current: Option<Options<R>>,
}

impl<R: Reporter + ?Sized> OptionsSlot<R> {
    /// The options held, if any.
    pub closed spec fn view(&self) -> Option<Options<R>> {
        self.current
    }

    /// A slot that holds no options yet.
    pub fn new() -> (r: Self)
        ensures
            r@ is None,
    {
        OptionsSlot { current: None }
    }

    /// The options held, if any.
    pub fn get(&self) -> (r: Option<&Options<R>>)
        ensures
            match r {
                Some(o) => self@ == Some(*o),
                None => self@ is None,
            },
    {
        match &self.current {
            Some(o) => Some(o),
            None => None,
        }
    }
}

/// What a slot holds after `opts` is offered to it: the first options win.
pub open spec fn settle<R: Reporter + ?Sized>(held: Option<Options<R>>, opts: Options<R>) -> Option<
    Options<R>,
> {
    match held {
        Some(o) => Some(o),
        None => Some(opts),
    }
}

/// Install the subsystem options. The first call wins; later calls are ignored.
pub fn configure<R: Reporter + ?Sized>(slot: &mut OptionsSlot<R>, opts: Options<R>)
    ensures
        final(slot)@ == settle(old(slot)@, opts),
{
    if slot.current.is_none() {
        slot.current = Some(opts);
    }
}

/// The brand used when no options were ever configured.
pub open spec fn fallback_brand() -> Seq<char> {
    "cudane"@
}

/// The active options: those installed by `configure`, or else defaults for the
/// `"cudane"` brand (descriptor directories from `home`, messages to `reporter`), which from
/// then on stay in place: a later `configure` is ignored.
pub fn options<'a, R: Reporter + ?Sized>(
    slot: &'a mut OptionsSlot<R>,
    home: Option<&str>,
    reporter: Arc<R>,
) -> (r: &'a Options<R>)
    ensures
        old(slot)@ is Some ==> final(slot)@ == old(slot)@,
        old(slot)@ is None ==> r.brand@ == fallback_brand() && r.dirs_view() == default_desc_dirs(
            fallback_brand(),
            opt_view(home),
        ) && r.reporter == reporter,
        final(slot)@ == Some(*r),
{
    if slot.current.is_none() {
        slot.current = Some(Options::new("cudane", home, reporter));
    }
    slot.current.as_ref().unwrap()
}

/// Informational message through the reporter of `opts`.
pub fn info<R: Reporter + ?Sized>(opts: &Options<R>, msg: &str) {
    opts.reporter.info(msg);
}

/// Warning message through the reporter of `opts`.
pub fn warning<R: Reporter + ?Sized>(opts: &Options<R>, msg: &str) {
    opts.reporter.warning(msg);
}

/// Error message through the reporter of `opts`.
pub fn error<R: Reporter + ?Sized>(opts: &Options<R>, msg: &str) {
    opts.reporter.error(msg);
}

/// Configuring twice keeps the first options: later calls are ignored.
pub proof fn configure_first_call_wins<R: Reporter + ?Sized>(
    held: Option<Options<R>>,
    first: Options<R>,
    second: Options<R>,
)
    requires
        held is None,
    ensures
        settle(settle(held, first), second) == Some(first),
{
}

/// Once options are in place, whether by `configure` or by a use of `options` before any
/// `configure`, no later `configure` replaces them.
pub proof fn options_are_fixed_once_set<R: Reporter + ?Sized>(
    held: Option<Options<R>>,
    offered: Options<R>,
)
    requires
        held is Some,
    ensures
        settle(held, offered) == held,
{
}

} // verus!
