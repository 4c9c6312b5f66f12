//! Where the configuration file is looked for.

use vstd::prelude::*;
use crate::config::Config;
use crate::utils::path::{path_join, paths_equal, spec_path_eq, spec_path_join};

verus! {

/// A configuration loaded from a file.
#[derive(Debug)]
pub struct ConfigFile {
    /// Where the configuration was loaded from (empty for defaults).
    pub path: String,
    /// The configuration.
    pub config: Config,
}

/// A place the configuration file is looked for.
#[derive(Debug)]
pub struct ConfigPath {
    /// The file path.
    pub path: String,
    /// How the place is shown to users.
    pub description: String,
}


/// The platform whose configuration directory is searched.
#[derive(Debug, Clone, Copy, PartialEq, Eq, Structural)]
pub enum Platform {
    /// macOS: `~/Library/Application Support` is searched.
    MacOs,
    /// Linux: `~/.config` is searched when `XDG_CONFIG_HOME` is unset.
    Linux,
    /// Any other Unix.
    Other,
}

/// `base/a/b`.
pub open spec fn join2(base: Seq<char>, a: Seq<char>, b: Seq<char>) -> Seq<char> {
    spec_path_join(spec_path_join(base, a), b)
}

/// `~/.config/authsock-filter/config.toml` under home `h`.
pub open spec fn dot_config_path(h: Seq<char>) -> Seq<char> {
    spec_path_join(join2(h, ".config"@, "authsock-filter"@), "config.toml"@)
}

/// `paths` already holds `p`, compared as paths (component by component).
pub open spec fn holds_path(paths: Seq<(Seq<char>, Seq<char>)>, p: Seq<char>) -> bool {
    exists|i: int| 0 <= i < paths.len() && spec_path_eq((#[trigger] paths[i]).0, p)
}

/// The configuration search paths, with their descriptions, in priority
/// order: `$XDG_CONFIG_HOME/authsock-filter/config.toml` when the variable
/// is set; on macOS `~/Library/Application Support/authsock-filter/config.toml`;
/// on Linux without `XDG_CONFIG_HOME`, `~/.config/authsock-filter/config.toml`;
/// then `~/.config/authsock-filter/config.toml` unless an entry already
/// listed is the same path;
/// `~/.authsock-filter/config.toml`; `~/.authsock-filter.toml`; and
/// `/etc/authsock-filter/config.toml`. Entries under `~` need a home
/// directory.
pub open spec fn spec_config_search_paths(
    xdg: Option<Seq<char>>,
    home: Option<Seq<char>>,
    platform: Platform,
) -> Seq<(Seq<char>, Seq<char>)> {
    let s1: Seq<(Seq<char>, Seq<char>)> = match xdg {
        Some(x) => seq![(join2(x, "authsock-filter"@, "config.toml"@), "$XDG_CONFIG_HOME/authsock-filter/config.toml"@)],
        None => Seq::empty(),
    };
    let s2 = match home {
        Some(h) => if platform == Platform::MacOs {
            s1.push((join2(spec_path_join(h, "Library/Application Support"@), "authsock-filter"@, "config.toml"@),
                "~/Library/Application Support/authsock-filter/config.toml"@))
        } else if platform == Platform::Linux && xdg is None {
            s1.push((dot_config_path(h), "~/.config/authsock-filter/config.toml"@))
        } else {
            s1
        },
        None => s1,
    };
    let s3 = match home {
        Some(h) => if holds_path(s2, dot_config_path(h)) {
            s2
        } else {
            s2.push((dot_config_path(h), "~/.config/authsock-filter/config.toml"@))
        },
        None => s2,
    };
    let s4 = match home {
        Some(h) => s3.push((join2(h, ".authsock-filter"@, "config.toml"@), "~/.authsock-filter/config.toml"@)).push(
            (spec_path_join(h, ".authsock-filter.toml"@), "~/.authsock-filter.toml"@),
        ),
        None => s3,
    };
    s4.push((join2("/etc"@, "authsock-filter"@, "config.toml"@), "/etc/authsock-filter/config.toml"@))
}

/// The view of search paths as pairs of path and description.
pub open spec fn config_paths_view(v: Seq<ConfigPath>) -> Seq<(Seq<char>, Seq<char>)> {
    v.map_values(|c: ConfigPath| (c.path@, c.description@))
}

fn push_config_path(v: &mut Vec<ConfigPath>, path: String, description: &str)
    ensures
        config_paths_view(final(v)@) == config_paths_view(old(v)@).push((path@, description@)),
{
    v.push(ConfigPath { path, description: description.to_string() });
    assert(config_paths_view(final(v)@) =~= config_paths_view(old(v)@).push((path@, description@)));
}

fn join_two(base: &str, a: &str, b: &str) -> (r: String)
    ensures
        r@ == join2(base@, a@, b@),
{
    let first = path_join(base, a);
    path_join(first.as_str(), b)
}

/// All configuration search paths in priority order, as
/// [`spec_config_search_paths`] states; `xdg_config_home` is the value of
/// `XDG_CONFIG_HOME` and `home` the home directory, when known.
pub fn config_search_paths(xdg_config_home: Option<String>, home: Option<String>, platform: Platform) -> (r: Vec<
    ConfigPath,
>)
    ensures
        config_paths_view(r@) == spec_config_search_paths(
            match xdg_config_home {
                Some(x) => Some(x@),
                None => None,
            },
            match home {
                Some(h) => Some(h@),
                None => None,
            },
            platform,
        ),
{
    let ghost xdg = match &xdg_config_home {
        Some(x) => Some(x@),
        None => None,
    };
    let ghost hm = match &home {
        Some(h) => Some(h@),
        None => None,
    };
    let mut paths: Vec<ConfigPath> = Vec::new();
    match &xdg_config_home {
        Some(x) => {
            let p = join_two(x.as_str(), "authsock-filter", "config.toml");
            push_config_path(&mut paths, p, "$XDG_CONFIG_HOME/authsock-filter/config.toml");
        },
        None => {},
    }
    let ghost s1 = config_paths_view(paths@);
    assert(s1 =~= match xdg {
        Some(x) => seq![(join2(x, "authsock-filter"@, "config.toml"@), "$XDG_CONFIG_HOME/authsock-filter/config.toml"@)],
        None => Seq::<(Seq<char>, Seq<char>)>::empty(),
    });
    match &home {
        Some(h) => {
            if platform == Platform::MacOs {
                let base = path_join(h.as_str(), "Library/Application Support");
                let p = join_two(base.as_str(), "authsock-filter", "config.toml");
                push_config_path(&mut paths, p, "~/Library/Application Support/authsock-filter/config.toml");
            } else if platform == Platform::Linux && xdg_config_home.is_none() {
                let d = join_two(h.as_str(), ".config", "authsock-filter");
                let p = path_join(d.as_str(), "config.toml");
                push_config_path(&mut paths, p, "~/.config/authsock-filter/config.toml");
            }
        },
        None => {},
    }
    match &home {
        Some(h) => {
            let d = join_two(h.as_str(), ".config", "authsock-filter");
            let dotconfig = path_join(d.as_str(), "config.toml");
            let mut present = false;
            let mut i: usize = 0;
            while i < paths.len()
                invariant
                    i <= paths@.len(),
                    present <==> exists|j: int| 0 <= j < i && spec_path_eq((#[trigger] paths@[j]).path@, dotconfig@),
                decreases paths@.len() - i,
            {
                if paths_equal(paths[i].path.as_str(), dotconfig.as_str()) {
                    present = true;
                }
                i = i + 1;
            }
            proof {
                let v = config_paths_view(paths@);
                if present {
                    let j = choose|j: int| 0 <= j < paths@.len() && spec_path_eq((#[trigger] paths@[j]).path@, dotconfig@);
                    assert(v[j].0 == paths@[j].path@);
                } else {
                    assert forall|j: int| 0 <= j < v.len() implies !spec_path_eq((#[trigger] v[j]).0, dotconfig@) by {
                        assert(v[j].0 == paths@[j].path@);
                    }
                }
            }
            if !present {
                push_config_path(&mut paths, dotconfig, "~/.config/authsock-filter/config.toml");
            }
        },
        None => {},
    }
    match &home {
        Some(h) => {
            let p4 = join_two(h.as_str(), ".authsock-filter", "config.toml");
            push_config_path(&mut paths, p4, "~/.authsock-filter/config.toml");
            let p5 = path_join(h.as_str(), ".authsock-filter.toml");
            push_config_path(&mut paths, p5, "~/.authsock-filter.toml");
        },
        None => {},
    }
    let p6 = join_two("/etc", "authsock-filter", "config.toml");
    push_config_path(&mut paths, p6, "/etc/authsock-filter/config.toml");
    paths
}

/// The first candidate, in order, that exists as a file.
pub open spec fn spec_first_existing(candidates: Seq<(Seq<char>, bool)>) -> Option<int> {
    if exists|i: int| 0 <= i < candidates.len() && candidates[i].1 {
        Some(choose|i: int| 0 <= i < candidates.len() && candidates[i].1 && forall|j: int|
            0 <= j < i ==> !candidates[j].1)
    } else {
        None
    }
}

/// Picks the configuration file among the search paths, in priority order:
/// the first one that exists as a file (`is_file` tells, for each search
/// path, whether a regular file is there). `None` when there is none.
pub fn find_config_file(search_paths: &[ConfigPath], is_file: &[bool]) -> (r: Option<String>)
    requires
        search_paths@.len() == is_file@.len(),
    ensures
        match r {
            Some(p) => exists|i: int| 0 <= i < search_paths@.len() && is_file@[i] && p@
                == search_paths@[i].path@ && forall|j: int| 0 <= j < i ==> !is_file@[j],
            None => forall|i: int| 0 <= i < is_file@.len() ==> !is_file@[i],
        },
{
    let mut i: usize = 0;
    while i < search_paths.len()
        invariant
            i <= search_paths@.len(),
            search_paths@.len() == is_file@.len(),
            forall|j: int| 0 <= j < i ==> !is_file@[j],
        decreases search_paths@.len() - i,
    {
        if is_file[i] {
            return Some(search_paths[i].path.clone());
        }
        i = i + 1;
    }
    None
}

/// The configuration from the default location: the loaded file when one
/// was found, else the defaults with an empty path.
pub fn load_config_from_default_location(found: Option<ConfigFile>) -> (r: ConfigFile)
    ensures
        match found {
            Some(f) => r == f,
            None => r.path@ == Seq::<char>::empty() && r.config.upstream@ == "$SSH_AUTH_SOCK"@
                && r.config.log_path is None && r.config.sockets@.len() == 0
                && r.config.github.cache_ttl@ == "1h"@ && r.config.github.timeout@ == "10s"@,
        },
{
    match found {
        Some(f) => f,
        None => ConfigFile { path: String::new(), config: Config::default() },
    }
}

/// The configuration from an explicit path when one was given, else from
/// the default location: `from_path` is the file loaded from the given
/// path, `from_default` the result of the default search.
pub fn load_config_from_path_or_default<E>(
    path_given: bool,
    from_path: Result<ConfigFile, E>,
    from_default: Result<ConfigFile, E>,
) -> (r: Result<ConfigFile, E>)
    ensures
        path_given ==> r == from_path,
        !path_given ==> r == from_default,
{
    if path_given {
        from_path
    } else {
        from_default
    }
}

} // verus!
