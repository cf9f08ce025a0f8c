//! The engine's life cycle: when the interpreter boots, what is loaded, and shutdown.
//!
//! The host drives the interpreter. It asks `EngineState::decide` what to do for a
//! config, performs that step (initialising the interpreter, or loading what the plan
//! names), and reports the outcome of an initialisation back with `record_init`.
use vstd::prelude::*;

use crate::config::PythonConfig;
use crate::paths::{expand_tilde, expand_tilde_spec, opt_view};
use crate::text::views;

verus! {

/// What is known about the interpreter in this process.
#[derive(Clone, Copy, Debug, PartialEq, Eq)]
pub struct Lifecycle {
    /// Initialisation of the interpreter has been attempted.
    pub init_attempted: bool,
    /// That attempt failed, so Python is unavailable for the rest of the process.
    pub init_failed: bool,
    /// The interpreter is up and has not been finalised.
    pub booted: bool,
    /// `shutdown` has been called: later engines degrade instead of rebooting.
    pub shut_down: bool,
}

/// The life cycle of a process that has not touched Python yet.
pub open spec fn fresh() -> Lifecycle {
    Lifecycle { init_attempted: false, init_failed: false, booted: false, shut_down: false }
}

/// Whether a config asks for anything at all: Python enabled, the engine not shut down,
/// and a theme, a TUI or a plugin configured (there is something to load).
pub open spec fn needs_boot_spec(s: Lifecycle, cfg: PythonConfig) -> bool {
    &&& cfg.enabled
    &&& !s.shut_down
    &&& (cfg.theme@.len() != 0 || cfg.tui@.len() != 0 || cfg.plugins@.len() != 0)
}

/// The kinds of step `decide` can ask for.
#[derive(Clone, Copy, Debug, PartialEq, Eq)]
pub enum StepKind {
    Disabled,
    Initialise,
    Unavailable,
    Load,
}

/// The step for a config in a given state: nothing to boot, initialise the interpreter
/// (once), report that Python is unavailable, or load.
pub open spec fn step_kind(s: Lifecycle, cfg: PythonConfig) -> StepKind {
    if !needs_boot_spec(s, cfg) {
        StepKind::Disabled
    } else if !s.init_attempted {
        StepKind::Initialise
    } else if s.init_failed {
        StepKind::Unavailable
    } else {
        StepKind::Load
    }
}

/// The state after an initialisation attempt that succeeded (`ok`) or failed. Only the
/// first attempt counts.
pub open spec fn after_init(s: Lifecycle, ok: bool) -> Lifecycle {
    if s.init_attempted {
        s
    } else {
        Lifecycle { init_attempted: true, init_failed: !ok, booted: ok, ..s }
    }
}

/// The state after `shutdown`.
pub open spec fn after_shutdown(s: Lifecycle) -> Lifecycle {
    Lifecycle { booted: false, shut_down: true, ..s }
}

/// What to load once the interpreter is up.
pub struct LoadPlan {
    /// The venv to activate (as configured, before `~` expansion), if one is configured.
    pub venv: Option<String>,
    /// The theme module's path, `~`-expanded, if a theme is configured.
    pub theme: Option<String>,
    /// The TUI module's path, `~`-expanded, if a TUI is configured.
    pub tui: Option<String>,
    /// The plugin modules' paths, `~`-expanded, in the configured order.
    pub plugins: Vec<String>,
    /// Mirrors `cfg.tui_mode`.
    pub tui_mode: bool,
}

/// A configured path, `~`-expanded; `None` when it is empty.
pub open spec fn configured_path(p: Seq<char>, home: Option<Seq<char>>) -> Option<Seq<char>> {
    if p.len() == 0 {
        None
    } else {
        Some(expand_tilde_spec(p, home))
    }
}

/// The views of an optional `String`.
pub open spec fn opt_string_view(o: Option<String>) -> Option<Seq<char>> {
    match o {
        Some(s) => Some(s@),
        None => None,
    }
}

impl LoadPlan {
    /// The plan for `cfg` with home directory `home`.
    pub open spec fn matches(&self, cfg: PythonConfig, home: Option<Seq<char>>) -> bool {
        &&& opt_string_view(self.venv) == (if cfg.venv_path@.len() == 0 {
            None
        } else {
            Some(cfg.venv_path@)
        })
        &&& opt_string_view(self.theme) == configured_path(cfg.theme@, home)
        &&& opt_string_view(self.tui) == configured_path(cfg.tui@, home)
        &&& views(self.plugins@) == views(cfg.plugins@).map_values(
            |p: Seq<char>| expand_tilde_spec(p, home),
        )
        &&& self.tui_mode == cfg.tui_mode
    }
}

/// The step the host should take next.
pub enum BootStep {
    /// Nothing to boot: build the disabled engine (no theme, no TUI, no plugins).
    Disabled,
    /// Initialise the interpreter, then report the outcome with `record_init`.
    Initialise,
    /// Initialisation failed earlier: warn and build the disabled engine.
    Unavailable,
    /// Activate the venv, then load what the plan names.
    Load(LoadPlan),
}

impl BootStep {
    /// The kind of this step.
    pub open spec fn kind(&self) -> StepKind {
        match self {
            BootStep::Disabled => StepKind::Disabled,
            BootStep::Initialise => StepKind::Initialise,
            BootStep::Unavailable => StepKind::Unavailable,
            BootStep::Load(_) => StepKind::Load,
        }
    }
}

/// The process-wide state of the interpreter.
pub struct EngineState {
    status: Lifecycle,
}

/// A copy of a configured path, `~`-expanded, or `None` when it is empty.
fn configured(p: &String, home: Option<&str>) -> (r: Option<String>)
    ensures
        opt_string_view(r) == configured_path(p@, opt_view(home)),
{
    if p.as_str().is_empty() {
        None
    } else {
        Some(expand_tilde(p.as_str(), home))
    }
}

impl EngineState {
    /// What is known about the interpreter.
    pub closed spec fn view(&self) -> Lifecycle {
        self.status
    }

    /// A process in which Python has not been touched.
    pub fn new() -> (r: Self)
        ensures
            r@ == fresh(),
    {
        EngineState {
            status: Lifecycle {
                init_attempted: false,
                init_failed: false,
                booted: false,
                shut_down: false,
            },
        }
    }

    /// What is known about the interpreter, as a plain value.
    pub fn status(&self) -> (r: Lifecycle)
        ensures
            r == self@,
    {
        self.status
    }

    /// Whether building an engine for `cfg` would boot anything at all. Side-effect free.
    pub fn needs_boot(&self, cfg: &PythonConfig) -> (r: bool)
        ensures
            r == needs_boot_spec(self@, *cfg),
    {
        cfg.enabled && !self.status.shut_down && (!cfg.theme.as_str().is_empty()
            || !cfg.tui.as_str().is_empty() || cfg.plugins.len() != 0)
    }

    /// The next step in building an engine for `cfg`; `home` is the value of `$HOME`.
    pub fn decide(&self, cfg: &PythonConfig, home: Option<&str>) -> (r: BootStep)
        ensures
            r.kind() == step_kind(self@, *cfg),
            r matches BootStep::Load(plan) ==> plan.matches(*cfg, opt_view(home)),
    {
        if !self.needs_boot(cfg) {
            return BootStep::Disabled;
        }
        if !self.status.init_attempted {
            return BootStep::Initialise;
        }
        if self.status.init_failed {
            return BootStep::Unavailable;
        }
        let venv = if cfg.venv_path.as_str().is_empty() {
            None
        } else {
            Some(cfg.venv_path.clone())
        };
        let theme = configured(&cfg.theme, home);
        let tui = configured(&cfg.tui, home);
        let mut plugins: Vec<String> = Vec::new();
        let mut i: usize = 0;
        while i < cfg.plugins.len()
            invariant
                i <= cfg.plugins@.len(),
                plugins@.len() == i,
                forall|j: int|
                    0 <= j < i ==> #[trigger] plugins@[j]@ == expand_tilde_spec(
                        cfg.plugins@[j]@,
                        opt_view(home),
                    ),
            decreases cfg.plugins@.len() - i,
        {
            plugins.push(expand_tilde(cfg.plugins[i].as_str(), home));
            i = i + 1;
        }
        let plan = LoadPlan { venv, theme, tui, plugins, tui_mode: cfg.tui_mode };
        assert(views(plan.plugins@) =~= views(cfg.plugins@).map_values(
            |p: Seq<char>| expand_tilde_spec(p, opt_view(home)),
        ));
        BootStep::Load(plan)
    }

    /// Record the outcome of initialising the interpreter. Only the first attempt counts.
    pub fn record_init(&mut self, ok: bool)
        ensures
            final(self)@ == after_init(old(self)@, ok),
    {
        if !self.status.init_attempted {
            self.status = Lifecycle {
                init_attempted: true,
                init_failed: !ok,
                booted: ok,
                shut_down: self.status.shut_down,
            };
        }
    }

    /// Mark the engine shut down. Returns whether the interpreter was up and must now be
    /// finalised; after this every `decide` answers `Disabled`.
    pub fn shutdown(&mut self) -> (finalize: bool)
        ensures
            finalize == old(self)@.booted,
            final(self)@ == after_shutdown(old(self)@),
    {
        let was_booted = self.status.booted;
        self.status = Lifecycle {
            init_attempted: self.status.init_attempted,
            init_failed: self.status.init_failed,
            booted: false,
            shut_down: true,
        };
        was_booted
    }
}

/// With Python switched off in the config, nothing ever boots.
pub proof fn disabled_config_never_boots(s: Lifecycle, cfg: PythonConfig)
    requires
        !cfg.enabled,
    ensures
        step_kind(s, cfg) == StepKind::Disabled,
{
}

/// With nothing to load (no theme, TUI or plugin), nothing boots.
pub proof fn empty_config_never_boots(s: Lifecycle, cfg: PythonConfig)
    requires
        cfg.theme@.len() == 0,
        cfg.tui@.len() == 0,
        cfg.plugins@.len() == 0,
    ensures
        step_kind(s, cfg) == StepKind::Disabled,
{
}

/// The interpreter is initialised at most once per process: once an outcome has been
/// recorded, no config is ever answered with another initialisation, and recording a
/// second outcome changes nothing.
pub proof fn interpreter_initialised_at_most_once(s: Lifecycle, ok: bool, again: bool, cfg: PythonConfig)
    ensures
        step_kind(after_init(s, ok), cfg) != StepKind::Initialise,
        after_init(after_init(s, ok), again) == after_init(s, ok),
{
}

/// A failed initialisation leaves Python unavailable: every config that needs booting is
/// answered with `Unavailable` afterwards, until shutdown.
pub proof fn failed_init_degrades(s: Lifecycle, cfg: PythonConfig)
    requires
        !s.init_attempted,
        needs_boot_spec(after_init(s, false), cfg),
    ensures
        step_kind(after_init(s, false), cfg) == StepKind::Unavailable,
{
}

/// After shutdown no engine boots again, whatever happens next, and a second shutdown
/// finalises nothing and changes nothing.
pub proof fn shutdown_is_final(s: Lifecycle, ok: bool, cfg: PythonConfig)
    ensures
        step_kind(after_shutdown(s), cfg) == StepKind::Disabled,
        step_kind(after_init(after_shutdown(s), ok), cfg) == StepKind::Disabled,
        !after_shutdown(s).booted,
        after_shutdown(after_shutdown(s)) == after_shutdown(s),
{
}

/// In a fresh process a config that needs booting first asks for initialisation, and
/// after a successful one it asks for loading.
pub proof fn successful_boot_loads(cfg: PythonConfig)
    requires
        needs_boot_spec(fresh(), cfg),
    ensures
        step_kind(fresh(), cfg) == StepKind::Initialise,
        step_kind(after_init(fresh(), true), cfg) == StepKind::Load,
        after_init(fresh(), true).booted,
{
}

/// An engine boots exactly when Python is enabled, it has not been shut down, and there is
/// something to load: any one of a theme, a TUI or a plugin suffices. A fresh process then
/// initialises the interpreter and, once that succeeded, loads; the plan names the theme
/// and TUI paths, `~`-expanded, exactly when they are configured.
pub proof fn boots_when_something_is_configured(s: Lifecycle, cfg: PythonConfig, home: Option<Seq<char>>, p: Seq<char>)
    ensures
        needs_boot_spec(s, cfg) <==> (cfg.enabled && !s.shut_down && (cfg.theme@.len() != 0
            || cfg.tui@.len() != 0 || cfg.plugins@.len() != 0)),
        cfg.enabled && (cfg.theme@.len() != 0 || cfg.tui@.len() != 0 || cfg.plugins@.len() != 0)
            ==> step_kind(fresh(), cfg) == StepKind::Initialise && step_kind(
            after_init(fresh(), true),
            cfg,
        ) == StepKind::Load,
        p.len() != 0 ==> configured_path(p, home) == Some(expand_tilde_spec(p, home)),
        p.len() == 0 ==> configured_path(p, home) is None,
{
}

} // verus!
