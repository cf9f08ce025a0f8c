//! Integration tests for cps: configuration, paths, registries, the engine's life cycle,
//! hooks, plugin commands and the reading of theme replies. None needs an interpreter.

use std::sync::{Arc, Mutex};

use cps::config::load_config;
use cps::engine::{BootStep, EngineState};
use cps::paths::{config_candidates, desc_candidates, first_usable, join_path, venv_site_packages};
use cps::plugin::{
    collect_hooks, is_hook_name, join_args, plugin_command, PluginDescEntry, PluginManager,
    PluginRegistry,
};
use cps::theme::{
    parse_theme_result, render_prompt, reply_text, PyValue, ThemeDescEntry, ThemeRegistry,
    ThemeResult,
};
use cps::tui::{TuiDescEntry, TuiRegistry};
use cps::{configure, options, Options, OptionsSlot, PythonConfig, Reporter};

/// A reporter that just records what it received, so tests can assert on messages.
#[derive(Default)]
struct RecordingReporter {
    lines: Mutex<Vec<String>>,
}

impl Reporter for RecordingReporter {
    fn info(&self, msg: &str) {
        self.lines.lock().unwrap().push(format!("info: {msg}"));
    }
    fn warning(&self, msg: &str) {
        self.lines.lock().unwrap().push(format!("warn: {msg}"));
    }
    fn error(&self, msg: &str) {
        self.lines.lock().unwrap().push(format!("err: {msg}"));
    }
}

fn fresh_options(brand: &str) -> Options {
    let reporter: Arc<dyn Reporter> = Arc::new(RecordingReporter::default());
    Options::new(brand, Some("/tmp/fakehome"), reporter)
}

fn s(x: &str) -> String {
    x.to_string()
}

fn pairs(items: &[(&str, &str)]) -> Vec<(String, String)> {
    items.iter().map(|(k, v)| (s(k), s(v))).collect()
}

fn enabled_config() -> PythonConfig {
    let mut cfg = PythonConfig::default();
    cfg.enabled = true;
    cfg.theme = s("~/themes/x.py");
    cfg.tui = s("/opt/tui.py");
    cfg.plugins = vec![s("~/plug/a.py"), s("/etc/plug/b.py")];
    cfg.venv_path = s("~/venv");
    cfg.tui_mode = true;
    cfg
}

// ----------------------------------------------------------------------------------------
// Configuration
// ----------------------------------------------------------------------------------------

#[test]
fn python_config_defaults_are_sane() {
    let cfg = PythonConfig::default();
    assert!(!cfg.enabled);
    assert!(cfg.theme.is_empty());
    assert!(cfg.tui.is_empty());
    assert!(cfg.plugins.is_empty());
    assert!(cfg.fallback_on_error);
    assert!(cfg.venv_path.is_empty());
    assert!(!cfg.tui_mode);
}

#[test]
fn load_config_takes_first_parsed_candidate() {
    let mut first = PythonConfig::default();
    first.theme = s("first.py");
    let mut second = PythonConfig::default();
    second.theme = s("second.py");
    let cfg = load_config(vec![None, Some(first), Some(second)]);
    assert_eq!(cfg.theme, "first.py");
}

#[test]
fn load_config_falls_back_to_defaults() {
    let cfg = load_config(vec![None, None]);
    assert_eq!(cfg, PythonConfig::default());
    let cfg = load_config(vec![]);
    assert_eq!(cfg, PythonConfig::default());
}

#[test]
fn config_candidates_follow_priority_order() {
    assert_eq!(
        config_candidates(Some("/home/u")),
        vec![s("/home/u/.config/cps/config.toml"), s("/etc/cps/config.toml"), s("./cps.toml")]
    );
    assert_eq!(config_candidates(None), vec![s("/etc/cps/config.toml"), s("./cps.toml")]);
}

// ----------------------------------------------------------------------------------------
// Options
// ----------------------------------------------------------------------------------------

#[test]
fn options_default_desc_dirs_cover_config_etc_and_cwd() {
    let reporter: Arc<dyn Reporter> = Arc::new(RecordingReporter::default());
    let opts = Options::new("brand-x", Some("/tmp/fakehome"), reporter);
    let dirs = opts.desc_dirs.clone();
    assert!(dirs.contains(&"/tmp/fakehome/.config/brand-x".to_string()));
    assert!(dirs.contains(&"/etc/brand-x".to_string()));
    assert!(dirs.contains(&".".to_string()));
}

#[test]
fn options_without_home_skip_the_config_dir() {
    let reporter: Arc<dyn Reporter> = Arc::new(RecordingReporter::default());
    let opts = Options::new("ctx", None, reporter);
    assert_eq!(opts.brand, "ctx");
    assert_eq!(opts.desc_dirs, vec![s("/etc/ctx"), s(".")]);
}

#[test]
fn options_builders_replace_one_field() {
    let opts = fresh_options("b").with_desc_dirs(vec![s("/x"), s("/y")]);
    assert_eq!(opts.brand, "b");
    assert_eq!(opts.desc_dirs, vec![s("/x"), s("/y")]);
    let recorder = Arc::new(RecordingReporter::default());
    let as_dyn: Arc<dyn Reporter> = recorder.clone();
    let opts = opts.with_reporter(as_dyn);
    cps::warning(&opts, "careful");
    cps::info(&opts, "done");
    cps::error(&opts, "broken");
    assert_eq!(
        *recorder.lines.lock().unwrap(),
        vec![s("warn: careful"), s("info: done"), s("err: broken")]
    );
    assert_eq!(opts.desc_dirs, vec![s("/x"), s("/y")]);
}

#[test]
fn configure_first_call_wins() {
    let mut slot: OptionsSlot = OptionsSlot::new();
    assert!(slot.get().is_none());
    configure(&mut slot, fresh_options("first"));
    configure(&mut slot, fresh_options("second"));
    assert_eq!(slot.get().unwrap().brand, "first");
    let reporter: Arc<dyn Reporter> = Arc::new(RecordingReporter::default());
    let active = options(&mut slot, Some("/h"), reporter);
    assert_eq!(active.brand, "first");
}

#[test]
fn options_default_to_fallback_and_stay() {
    let mut slot: OptionsSlot = OptionsSlot::new();
    let reporter: Arc<dyn Reporter> = Arc::new(RecordingReporter::default());
    let active = options(&mut slot, Some("/h"), reporter);
    assert_eq!(active.brand, "cudane");
    assert_eq!(active.desc_dirs, vec![s("/h/.config/cudane"), s("/etc/cudane"), s(".")]);
    configure(&mut slot, fresh_options("late"));
    assert_eq!(slot.get().unwrap().brand, "cudane");
}

// ----------------------------------------------------------------------------------------
// Paths
// ----------------------------------------------------------------------------------------

#[test]
fn expand_tilde_resolves_home() {
    let home = Some("/tmp/fakehome");
    assert_eq!(cps::expand_tilde("~/x/y.py", home), "/tmp/fakehome/x/y.py");
    assert_eq!(cps::expand_tilde("/abs/path", home), "/abs/path");
    assert_eq!(cps::expand_tilde("relative", home), "relative");
}

#[test]
fn expand_tilde_edge_cases() {
    assert_eq!(cps::expand_tilde("~/x", None), "~/x");
    assert_eq!(cps::expand_tilde("~", Some("/h")), "/h");
    assert_eq!(cps::expand_tilde("~user/x", Some("/h")), "/huser/x");
    assert_eq!(cps::expand_tilde("a~b", Some("/h")), "a~b");
    assert_eq!(cps::expand_tilde("", Some("/h")), "");
}

#[test]
fn join_path_follows_posix_rules() {
    assert_eq!(join_path("/a", "b"), "/a/b");
    assert_eq!(join_path("/a/", "b"), "/a/b");
    assert_eq!(join_path("/a", "/b"), "/b");
    assert_eq!(join_path("", "b"), "b");
    assert_eq!(join_path("a", ""), "a/");
}

#[test]
fn desc_candidates_cover_dirs_then_cwd() {
    let dirs = vec![s("/home/u/.config/cps"), s("/etc/cps"), s(".")];
    assert_eq!(
        desc_candidates(&dirs, "t.desc", Some("/work")),
        vec![s("/home/u/.config/cps/t.desc"), s("/etc/cps/t.desc"), s("./t.desc"), s("/work/t.desc")]
    );
    assert_eq!(desc_candidates(&dirs, "p.desc", None).len(), 3);
}

#[test]
fn venv_candidates_posix_and_windows() {
    let entries = vec![s("python3.12"), s("site"), s("python3.11")];
    assert_eq!(
        venv_site_packages("/v", false, &entries),
        vec![
            s("/v/lib/python3.12/site-packages"),
            s("/v/lib/python3.11/site-packages"),
            s("/v/Lib/site-packages"),
        ]
    );
    assert_eq!(venv_site_packages("/v", true, &entries), vec![s("/v/Lib/site-packages")]);
    assert_eq!(venv_site_packages("/v", false, &vec![]), vec![s("/v/Lib/site-packages")]);
}

#[test]
fn first_usable_candidate_wins() {
    assert_eq!(first_usable(&vec![false, true, true]), Some(1));
    assert_eq!(first_usable(&vec![false, false]), None);
    assert_eq!(first_usable(&vec![]), None);
}

// ----------------------------------------------------------------------------------------
// Engine life cycle
// ----------------------------------------------------------------------------------------

#[test]
fn engine_is_disabled_when_config_is_disabled() {
    let mut slot: OptionsSlot = OptionsSlot::new();
    configure(&mut slot, fresh_options("cps-test-disabled"));
    assert_eq!(slot.get().unwrap().brand, "cps-test-disabled");

    let state = EngineState::new();
    let cfg = PythonConfig::default();
    assert!(!state.needs_boot(&cfg));
    assert!(matches!(state.decide(&cfg, Some("/h")), BootStep::Disabled));
    let plugins: PluginManager<()> = PluginManager::new();
    assert_eq!(plugins.count(), 0);
}

#[test]
fn enabled_but_empty_config_does_not_boot() {
    let state = EngineState::new();
    let mut cfg = PythonConfig::default();
    cfg.enabled = true;
    assert!(!state.needs_boot(&cfg));
    cfg.tui_mode = true;
    assert!(!state.needs_boot(&cfg));
    assert!(matches!(state.decide(&cfg, None), BootStep::Disabled));
    cfg.tui = s("/t.py");
    assert!(state.needs_boot(&cfg));
}

#[test]
fn boot_sequence_initialises_once_then_loads() {
    let mut state = EngineState::new();
    let cfg = enabled_config();
    assert!(matches!(state.decide(&cfg, Some("/h")), BootStep::Initialise));
    state.record_init(true);
    match state.decide(&cfg, Some("/h")) {
        BootStep::Load(plan) => {
            assert_eq!(plan.venv, Some(s("~/venv")));
            assert_eq!(plan.theme, Some(s("/h/themes/x.py")));
            assert_eq!(plan.tui, Some(s("/opt/tui.py")));
            assert_eq!(plan.plugins, vec![s("/h/plug/a.py"), s("/etc/plug/b.py")]);
            assert!(plan.tui_mode);
        }
        _ => panic!("expected a load plan"),
    }
    state.record_init(false);
    assert!(matches!(state.decide(&cfg, Some("/h")), BootStep::Load(_)));
}

#[test]
fn plan_leaves_unconfigured_parts_out() {
    let mut state = EngineState::new();
    state.record_init(true);
    let mut cfg = PythonConfig::default();
    cfg.enabled = true;
    cfg.plugins = vec![s("p.py")];
    match state.decide(&cfg, None) {
        BootStep::Load(plan) => {
            assert_eq!(plan.venv, None);
            assert_eq!(plan.theme, None);
            assert_eq!(plan.tui, None);
            assert_eq!(plan.plugins, vec![s("p.py")]);
            assert!(!plan.tui_mode);
        }
        _ => panic!("expected a load plan"),
    }
}

#[test]
fn failed_init_makes_python_unavailable() {
    let mut state = EngineState::new();
    state.record_init(false);
    assert!(matches!(state.decide(&enabled_config(), None), BootStep::Unavailable));
    state.record_init(true);
    assert!(matches!(state.decide(&enabled_config(), None), BootStep::Unavailable));
    assert!(!state.shutdown());
}

#[test]
fn shutdown_finalises_once_and_never_reboots() {
    let mut state = EngineState::new();
    state.record_init(true);
    assert!(state.shutdown());
    assert!(!state.shutdown());
    assert!(!state.needs_boot(&enabled_config()));
    assert!(matches!(state.decide(&enabled_config(), None), BootStep::Disabled));
    let st = state.status();
    assert!(st.shut_down && !st.booted);
}

// ----------------------------------------------------------------------------------------
// Registries
// ----------------------------------------------------------------------------------------

#[test]
fn theme_registry_register_lookup_unregister() {
    let mut themes = ThemeRegistry::new();
    let id = format!("theme-{}", 7);
    themes.register(&id, "/tmp/fake.py");
    assert!(themes.by_name(&id).is_some());
    assert!(themes.list().iter().any(|t| t.name == id));
    themes.unregister(&id);
    assert!(themes.by_name(&id).is_none());
}

#[test]
fn plugin_registry_register_lookup_unregister() {
    let mut plugins = PluginRegistry::new();
    let id = format!("plug-{}", 7);
    let aliases = pairs(&[("greet", "echo hello {}")]);
    plugins.register(&id, "/tmp/plug.py", &aliases);

    let found = plugins.by_alias("greet");
    assert!(found.is_some());
    let (entry, cmd) = found.unwrap();
    assert_eq!(entry.name, id);
    assert_eq!(cmd, "echo hello {}");

    plugins.unregister(&id);
    assert!(plugins.by_alias("greet").is_none());
}

#[test]
fn tui_registry_register_lookup_unregister() {
    let mut tuis = TuiRegistry::new();
    let id = format!("tui-{}", 7);
    tuis.register(&id, "/tmp/tui.py");
    assert!(tuis.by_name(&id).is_some());
    tuis.unregister(&id);
    assert!(tuis.by_name(&id).is_none());
}

#[test]
fn registering_an_id_again_replaces_its_entry() {
    let mut themes = ThemeRegistry::new();
    themes.register_desc("cps", "CPS", "/a.py", "first");
    themes.register("other", "/o.py");
    themes.register_desc("cps", "CPS 2", "/b.py", "second");
    assert_eq!(themes.len(), 2);
    let e = themes.by_name("cps").unwrap();
    assert_eq!((e.name.as_str(), e.path.as_str(), e.description.as_str()), ("CPS 2", "/b.py", "second"));
    let names: Vec<String> = themes.list().into_iter().map(|t| t.name).collect();
    assert_eq!(names, vec![s("CPS 2"), s("other")]);
}

#[test]
fn lookup_falls_back_to_display_name() {
    let mut themes = ThemeRegistry::new();
    themes.register_desc("cps", "Default", "/a.py", "");
    themes.register_desc("min", "Minimal", "/m.py", "");
    assert_eq!(themes.by_name("Minimal").unwrap().path, "/m.py");
    assert_eq!(themes.by_name("cps").unwrap().name, "Default");
    assert!(themes.by_name("nothing").is_none());
}

#[test]
fn lookup_prefers_id_over_display_name() {
    let mut themes = ThemeRegistry::new();
    themes.register_desc("a", "b", "/first.py", "");
    themes.register_desc("b", "x", "/second.py", "");
    assert_eq!(themes.by_name("b").unwrap().path, "/second.py");
}

#[test]
fn unregister_removes_by_display_name_too() {
    let mut tuis = TuiRegistry::new();
    tuis.register_desc("inst", "Installer", "/i.py", "");
    tuis.register_desc("inst2", "Installer", "/j.py", "");
    tuis.register_desc("keep", "Keep", "/k.py", "");
    tuis.unregister("Installer");
    assert_eq!(tuis.len(), 1);
    assert_eq!(tuis.list()[0].name, "Keep");
    tuis.unregister("keep");
    assert_eq!(tuis.len(), 0);
}

#[test]
fn by_alias_reports_the_bound_command() {
    let mut plugins = PluginRegistry::new();
    plugins.register_desc("ex", "Example", "/e.py", &pairs(&[("hi", "echo hi"), ("build", "make {}")]));
    let (entry, cmd) = plugins.by_alias("build").unwrap();
    assert_eq!(entry.name, "Example");
    assert_eq!(entry.aliases.len(), 2);
    assert_eq!(cmd, "make {}");
    assert!(plugins.by_alias("deploy").is_none());
}

#[test]
fn descriptor_sections_are_registered_with_expanded_paths() {
    let mut themes = ThemeRegistry::new();
    let sections = vec![
        (s("cps"), ThemeDescEntry { name: s("cps"), path: s("~/CPS/themes/cps.py"), description: Some(s("Default")) }),
        (s("min"), ThemeDescEntry { name: s("Minimal"), path: s("/m.py"), description: None }),
    ];
    themes.load_desc(&sections, Some("/home/u"));
    let cps = themes.by_name("cps").unwrap();
    assert_eq!(cps.path, "/home/u/CPS/themes/cps.py");
    assert_eq!(cps.description, "Default");
    assert_eq!(themes.by_name("min").unwrap().description, "");
}

#[test]
fn first_parsed_descriptor_wins() {
    let mut tuis = TuiRegistry::new();
    let parsed = vec![
        None,
        Some(vec![(s("installer"), TuiDescEntry { name: s("Installer"), path: s("~/i.py"), description: None })]),
        Some(vec![(s("other"), TuiDescEntry { name: s("Other"), path: s("/o.py"), description: None })]),
    ];
    assert_eq!(tuis.load_first_desc(&parsed, Some("/h")), Some(1));
    assert_eq!(tuis.len(), 1);
    assert_eq!(tuis.by_name("Installer").unwrap().path, "/h/i.py");
    assert!(tuis.by_name("other").is_none());

    let mut plugins = PluginRegistry::new();
    let none: Vec<Option<Vec<(String, PluginDescEntry)>>> = vec![None, None];
    assert_eq!(plugins.load_first_desc(&none, None), None);
    assert_eq!(plugins.len(), 0);
    let parsed = vec![Some(vec![(
        s("example"),
        PluginDescEntry { name: s("Example"), path: s("~/ex.py"), aliases: pairs(&[("hi", "echo hi")]) },
    )])];
    assert_eq!(plugins.load_first_desc(&parsed, Some("/h")), Some(0));
    assert_eq!(plugins.by_alias("hi").unwrap().0.path, "/h/ex.py");
}

// ----------------------------------------------------------------------------------------
// Live plugins
// ----------------------------------------------------------------------------------------

#[test]
fn hooks_skip_private_and_non_callable_names() {
    let names = vec![s("_private"), s("on_startup"), s("VERSION"), s("on_command"), s("__doc__")];
    let callable = vec![true, true, false, true, false];
    assert_eq!(collect_hooks(&names, &callable), Some(vec![s("on_startup"), s("on_command")]));
    assert_eq!(collect_hooks(&vec![s("_x"), s("y")], &vec![true, false]), None);
    assert!(is_hook_name("on_x"));
    assert!(!is_hook_name("_on_x"));
    assert!(is_hook_name(""));
}

#[test]
fn events_reach_only_declaring_plugins() {
    let mut manager: PluginManager<u32> = PluginManager::new();
    manager.add(s("a"), 10, vec![s("on_startup"), s("on_command")]);
    manager.add(s("b"), 20, vec![s("on_shutdown")]);
    manager.add(s("c"), 30, vec![s("on_command")]);
    assert_eq!(manager.count(), 3);
    assert_eq!(manager.names(), vec![s("a"), s("b"), s("c")]);
    assert_eq!(manager.hook_targets("on_command"), vec![0, 2]);
    assert_eq!(manager.hook_targets("on_shutdown"), vec![1]);
    assert_eq!(manager.hook_targets("on_other"), Vec::<usize>::new());
    assert_eq!(*manager.module(2), 30);
}

#[test]
fn plugin_command_substitutes_or_appends_arguments() {
    let args = vec![s("-j"), s("4")];
    assert_eq!(plugin_command("make -C . {}", &args), "make -C . -j 4");
    assert_eq!(plugin_command("echo {} and {}", &args), "echo -j 4 and -j 4");
    assert_eq!(plugin_command("make", &args), "make -j 4");
    assert_eq!(plugin_command("make", &vec![]), "make");
    assert_eq!(plugin_command("echo {}", &vec![]), "echo ");
    assert_eq!(plugin_command("echo {", &args), "echo { -j 4");
    assert_eq!(plugin_command("{}}", &vec![s("x")]), "x}");
}

#[test]
fn join_args_uses_single_spaces() {
    assert_eq!(join_args(&vec![]), "");
    assert_eq!(join_args(&vec![s("a")]), "a");
    assert_eq!(join_args(&vec![s("a"), s(""), s("c")]), "a  c");
}

// ----------------------------------------------------------------------------------------
// Theme replies
// ----------------------------------------------------------------------------------------

fn dict(items: Vec<(PyValue, PyValue)>) -> PyValue {
    PyValue::Dict(items)
}

fn st(x: &str) -> PyValue {
    PyValue::Str(s(x))
}

#[test]
fn dict_reply_fills_every_field() {
    let reply = dict(vec![
        (st("lines_above"), PyValue::List(vec![st("[cps]"), PyValue::Other, st("two")])),
        (st("input_prefix"), st("~/code ❯ ")),
        (st("right_prompt"), st("main")),
        (st("colors"), dict(vec![(st("accent"), st("#22d3ee")), (st("bad"), PyValue::Other)])),
        (st("mood"), st("calm")),
        (PyValue::Other, st("ignored")),
        (st("count"), PyValue::Other),
    ]);
    let r = parse_theme_result(&reply);
    assert_eq!(r.lines_above, vec![s("[cps]"), s("two")]);
    assert_eq!(r.input_prefix, "~/code ❯ ");
    assert_eq!(r.right_prompt, "main");
    assert_eq!(r.colors, pairs(&[("accent", "#22d3ee")]));
    assert_eq!(r.extra, pairs(&[("mood", "calm")]));
}

#[test]
fn dict_reply_with_wrong_types_reads_as_empty() {
    let reply = dict(vec![
        (st("lines_above"), st("not a list")),
        (st("input_prefix"), PyValue::Other),
        (st("colors"), PyValue::List(vec![])),
    ]);
    let r = parse_theme_result(&reply);
    assert!(r.lines_above.is_empty());
    assert_eq!(r.input_prefix, "");
    assert!(r.colors.is_empty());
    assert!(r.extra.is_empty());
}

#[test]
fn string_reply_is_the_line_above() {
    let r = parse_theme_result(&st("hello"));
    assert_eq!(r.lines_above, vec![s("hello")]);
    assert_eq!(r.input_prefix, "");
    let r = parse_theme_result(&PyValue::Other);
    assert!(r.lines_above.is_empty() && r.input_prefix.is_empty());
}

#[test]
fn failed_render_falls_back_to_native_prompt() {
    let ctx = pairs(&[("user", "u"), ("cwd", "/home/cudane")]);
    let r = render_prompt(&ctx, None);
    assert_eq!(r.input_prefix, "/home/cudane ❯ ");
    assert!(r.lines_above.is_empty() && r.right_prompt.is_empty());
    let r = ThemeResult::default_prompt(&pairs(&[("user", "u")]));
    assert_eq!(r.input_prefix, "~ ❯ ");
    let r = render_prompt(&ctx, Some(&st("top")));
    assert_eq!(r.lines_above, vec![s("top")]);
}

#[test]
fn text_replies_default_to_empty() {
    assert_eq!(reply_text(Some(&st("12:00"))), "12:00");
    assert_eq!(reply_text(Some(&PyValue::Other)), "");
    assert_eq!(reply_text(None), "");
}

#[test]
fn register_then_unregister_restores_the_registry() {
    let mut themes = ThemeRegistry::new();
    themes.register_desc("cps", "Default", "/a.py", "d");
    themes.register_desc("min", "Minimal", "/m.py", "");
    let before: Vec<(String, String)> = themes.list().into_iter().map(|t| (t.name, t.path)).collect();
    themes.register("fresh", "/f.py");
    assert_eq!(themes.len(), 3);
    themes.unregister("fresh");
    let after: Vec<(String, String)> = themes.list().into_iter().map(|t| (t.name, t.path)).collect();
    assert_eq!(before, after);
}
