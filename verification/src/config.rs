//! The shared configuration contract of the Python subsystem.
use vstd::prelude::*;

verus! {

/// Shared configuration contract for the Python subsystem: the `[python]` section that
/// every Cudane component reads.
#[derive(Debug, Clone, PartialEq)]
pub struct PythonConfig {
    /// Master switch. When `false` the interpreter is never touched and the engine
    /// degrades to an empty native fallback.
    pub enabled: bool,
    /// Path to the Python theme module. Empty disables theming.
    pub theme: String,
    /// Path to the Python TUI module (must expose `run()`). Empty disables the TUI.
    pub tui: String,
    /// Paths to Python plugin modules whose top-level callables are event hooks.
    pub plugins: Vec<String>,
    /// If `true` (the default), any Python failure falls back to the native behaviour
    /// instead of surfacing as an error.
    pub fallback_on_error: bool,
    /// Optional virtual environment whose `site-packages` is put first on `sys.path`.
    pub venv_path: String,
    /// When `true`, the theme's `run()` is invoked after startup.
    pub tui_mode: bool,
}

impl PythonConfig {
    /// The documented defaults: everything off and empty, except `fallback_on_error`.
    pub open spec fn is_default(&self) -> bool {
        &&& !self.enabled
        &&& self.theme@.len() == 0
        &&& self.tui@.len() == 0
        &&& self.plugins@.len() == 0
        &&& self.fallback_on_error
        &&& self.venv_path@.len() == 0
        &&& !self.tui_mode
    }
}

impl Default for PythonConfig {
    /// Python disabled, nothing configured, and `fallback_on_error` on: a broken theme or
    /// plugin must never take down the host component.
    fn default() -> (r: Self)
        ensures
            r.is_default(),
    {
        PythonConfig {
            enabled: false,
            theme: String::new(),
            tui: String::new(),
            plugins: Vec::new(),
            fallback_on_error: true,
            venv_path: String::new(),
            tui_mode: false,
        }
    }
}

/// The `[python]` section of the first config candidate that was read and parsed, or the
/// defaults when none was: `parsed` holds one entry per candidate, in priority order,
/// `None` where the file was missing or did not parse.
pub fn load_config(parsed: Vec<Option<PythonConfig>>) -> (r: PythonConfig)
    ensures
        ({
            let k = crate::text::first_some_index(parsed@);
            if k < parsed@.len() {
                r == parsed@[k].unwrap()
            } else {
                r.is_default()
            }
        }),
{
    let k = crate::text::first_some(&parsed);
    if k < parsed.len() {
        let mut all = parsed;
        match all.remove(k) {
            Some(cfg) => cfg,
            None => PythonConfig::default(),
        }
    } else {
        PythonConfig::default()
    }
}

} // verus!
