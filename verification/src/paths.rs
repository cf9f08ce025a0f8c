//! Path helpers: joining, `~` expansion, descriptor, config and venv search lists.
use vstd::prelude::*;

use crate::text::{concat, drop_first_char, first_index, starts_with};

verus! {

/// Joining `part` onto `base` the way a POSIX path is extended: an absolute `part`
/// replaces `base`; otherwise a `/` is put between the two unless `base` is empty or
/// already ends in one.
pub open spec fn join_spec(base: Seq<char>, part: Seq<char>) -> Seq<char> {
    if part.len() > 0 && part[0] == '/' {
        part
    } else if base.len() == 0 || base.last() == '/' {
        base + part
    } else {
        base + seq!['/'] + part
    }
}

/// `base` joined with `part` (see `join_spec`).
pub fn join_path(base: &str, part: &str) -> (r: String)
    ensures
        r@ == join_spec(base@, part@),
{
    let pn = part.unicode_len();
    if pn > 0 && part.get_char(0) == '/' {
        return String::from_str(part);
    }
    let bn = base.unicode_len();
    if bn == 0 || base.get_char(bn - 1) == '/' {
        concat(base, part)
    } else {
        let sep = "/";
        proof {
            reveal_strlit("/");
        }
        let mut r = concat(base, sep);
        r.append(part);
        r
    }
}

/// `path` with a leading `~` replaced by `home`; unchanged when it does not start with
/// `~` or when no home directory is known.
pub open spec fn expand_tilde_spec(path: Seq<char>, home: Option<Seq<char>>) -> Seq<char> {
    if path.len() > 0 && path[0] == '~' && home is Some {
        home.unwrap() + path.drop_first()
    } else {
        path
    }
}

/// Expand a leading `~` in a path against the home directory `home` (the value of
/// `$HOME`, when it is set).
pub fn expand_tilde(path: &str, home: Option<&str>) -> (r: String)
    ensures
        r@ == expand_tilde_spec(path@, match home { Some(h) => Some(h@), None => None }),
{
    match home {
        Some(h) => {
            if path.unicode_len() > 0 && path.get_char(0) == '~' {
                let rest = drop_first_char(path);
                concat(h, rest.as_str())
            } else {
                String::from_str(path)
            }
        },
        None => String::from_str(path),
    }
}

/// The views of an optional string.
pub open spec fn opt_view(o: Option<&str>) -> Option<Seq<char>> {
    match o {
        Some(s) => Some(s@),
        None => None,
    }
}

/// `name` joined onto each directory, then onto the working directory when it is known.
pub open spec fn candidates_spec(dirs: Seq<Seq<char>>, name: Seq<char>, cwd: Option<Seq<char>>) -> Seq<
    Seq<char>,
> {
    let base = dirs.map_values(|d: Seq<char>| join_spec(d, name));
    match cwd {
        Some(c) => base.push(join_spec(c, name)),
        None => base,
    }
}

/// Candidate files called `name` in each of `dirs`, then in the working directory `cwd`
/// when it is known. The first candidate that exists and parses is the one to use.
pub fn desc_candidates(dirs: &Vec<String>, name: &str, cwd: Option<&str>) -> (r: Vec<String>)
    ensures
        r@.map_values(|s: String| s@) == candidates_spec(
            dirs@.map_values(|s: String| s@),
            name@,
            opt_view(cwd),
        ),
{
    let mut r: Vec<String> = Vec::new();
    let mut i: usize = 0;
    while i < dirs.len()
        invariant
            i <= dirs@.len(),
            r@.len() == i,
            forall|j: int| 0 <= j < i ==> #[trigger] r@[j]@ == join_spec(dirs@[j]@, name@),
        decreases dirs@.len() - i,
    {
        r.push(join_path(dirs[i].as_str(), name));
        i = i + 1;
    }
    if let Some(c) = cwd {
        r.push(join_path(c, name));
    }
    assert(r@.map_values(|s: String| s@) =~= candidates_spec(
        dirs@.map_values(|s: String| s@),
        name@,
        opt_view(cwd),
    ));
    r
}

/// The standard config files, in priority order.
pub open spec fn config_candidates_spec(home: Option<Seq<char>>) -> Seq<Seq<char>> {
    let rest = seq!["/etc/cps/config.toml"@, "./cps.toml"@];
    match home {
        Some(h) => seq![join_spec(h, ".config/cps/config.toml"@)] + rest,
        None => rest,
    }
}

/// Standard config file candidates: `~/.config/cps/config.toml` (when the home directory
/// is known), `/etc/cps/config.toml` and `./cps.toml`.
pub fn config_candidates(home: Option<&str>) -> (r: Vec<String>)
    ensures
        r@.map_values(|s: String| s@) == config_candidates_spec(opt_view(home)),
{
    let mut v: Vec<String> = Vec::new();
    if let Some(h) = home {
        v.push(join_path(h, ".config/cps/config.toml"));
    }
    v.push(String::from_str("/etc/cps/config.toml"));
    v.push(String::from_str("./cps.toml"));
    assert(v@.map_values(|s: String| s@) =~= config_candidates_spec(opt_view(home)));
    v
}

/// Names of directories under `<venv>/lib` that hold an interpreter's packages.
pub open spec fn is_python_dir(name: Seq<char>) -> bool {
    "python"@.is_prefix_of(name)
}

/// The `site-packages` directory of a layout directory.
pub open spec fn site_packages_in(dir: Seq<char>) -> Seq<char> {
    join_spec(dir, "site-packages"@)
}

/// The POSIX candidates contributed by the `lib` entries seen so far.
pub open spec fn posix_site_packages(venv: Seq<char>, entries: Seq<Seq<char>>) -> Seq<Seq<char>>
    decreases entries.len(),
{
    if entries.len() == 0 {
        seq![]
    } else {
        let prev = posix_site_packages(venv, entries.drop_last());
        if is_python_dir(entries.last()) {
            prev.push(site_packages_in(join_spec(join_spec(venv, "lib"@), entries.last())))
        } else {
            prev
        }
    }
}

/// The `site-packages` directories to try, in order, for a venv.
pub open spec fn venv_candidates_spec(venv: Seq<char>, windows: bool, entries: Seq<Seq<char>>) -> Seq<
    Seq<char>,
> {
    let win = site_packages_in(join_spec(venv, "Lib"@));
    if windows {
        seq![win]
    } else {
        posix_site_packages(venv, entries).push(win)
    }
}

/// Where a venv keeps its packages: `<venv>/Lib/site-packages` on Windows; elsewhere
/// `<venv>/lib/<entry>/site-packages` for each entry of `<venv>/lib` (in the order given)
/// whose name starts with `python`, then `<venv>/Lib/site-packages`. The first of them
/// that exists is the one to activate.
pub fn venv_site_packages(venv: &str, windows: bool, lib_entries: &Vec<String>) -> (r: Vec<String>)
    ensures
        r@.map_values(|s: String| s@) == venv_candidates_spec(
            venv@,
            windows,
            lib_entries@.map_values(|s: String| s@),
        ),
{
    proof {
        reveal_strlit("Lib");
        reveal_strlit("lib");
        reveal_strlit("python");
        reveal_strlit("site-packages");
    }
    let upper = join_path(venv, "Lib");
    let win = join_path(upper.as_str(), "site-packages");
    let mut v: Vec<String> = Vec::new();
    if windows {
        v.push(win);
        assert(v@.map_values(|s: String| s@) =~= venv_candidates_spec(
            venv@,
            windows,
            lib_entries@.map_values(|s: String| s@),
        ));
        return v;
    }
    let lower = join_path(venv, "lib");
    let ghost ents = lib_entries@.map_values(|s: String| s@);
    let mut i: usize = 0;
    while i < lib_entries.len()
        invariant
            i <= lib_entries@.len(),
            ents == lib_entries@.map_values(|s: String| s@),
            lower@ == join_spec(venv@, "lib"@),
            v@.map_values(|s: String| s@) == posix_site_packages(venv@, ents.take(i as int)),
        decreases lib_entries@.len() - i,
    {
        let name = lib_entries[i].as_str();
        assert(ents.take(i + 1).drop_last() =~= ents.take(i as int));
        assert(ents.take(i + 1).last() == name@);
        if starts_with(name, "python") {
            let dir = join_path(lower.as_str(), name);
            v.push(join_path(dir.as_str(), "site-packages"));
        }
        assert(v@.map_values(|s: String| s@) =~= posix_site_packages(venv@, ents.take(i + 1)));
        i = i + 1;
    }
    assert(ents.take(lib_entries@.len() as int) =~= ents);
    v.push(win);
    assert(v@.map_values(|s: String| s@) =~= venv_candidates_spec(
        venv@,
        windows,
        lib_entries@.map_values(|s: String| s@),
    ));
    v
}

/// The position of the first candidate that can be used, if any: "the first existing
/// (and valid) one wins".
pub fn first_usable(usable: &Vec<bool>) -> (r: Option<usize>)
    ensures
        match r {
            Some(i) => i == first_index(usable@, |b: bool| b) && i < usable@.len(),
            None => first_index(usable@, |b: bool| b) == usable@.len(),
        },
{
    let mut i: usize = 0;
    while i < usable.len()
        invariant
            i <= usable@.len(),
            forall|j: int| 0 <= j < i ==> !#[trigger] usable@[j],
        decreases usable@.len() - i,
    {
        if usable[i] {
            proof {
                crate::text::lemma_first_index_unique(usable@, |b: bool| b, i as int);
            }
            return Some(i);
        }
        i = i + 1;
    }
    proof {
        crate::text::lemma_first_index_unique(usable@, |b: bool| b, usable@.len() as int);
    }
    None
}

} // verus!
