# cps

The shared Python subsystem of the Cudane components: one contract for themes, plugins
and full-screen TUIs, embedded by every host.

- `src/` is the library, verified with Verus: the `[python]` configuration contract
  (`config`), path handling and search lists (`paths`), the host options (`lib`), the
  interpreter's boot and shutdown life cycle (`engine`), the id-keyed registries
  (`registry`, with entries in `theme`, `tui`, `plugin`), hook discovery and dispatch,
  plugin command lines, and the reading of what a theme returns (`theme`).
- `app/` is the `cps` command-line tool and the host-side glue: it reads files and the
  environment, parses TOML descriptors and configs, runs the embedded interpreter through
  pyo3, and hands plain values to the library.
- `tests/` exercises the library on concrete values.
