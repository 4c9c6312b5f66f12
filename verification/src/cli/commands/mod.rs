//! The computing parts of the commands, and version-manager detection
//! shared by the service and upgrade commands.

pub mod run;
pub mod service;
pub mod config;
pub mod command_line;
pub mod upgrade;
pub mod status;
pub mod register;

use vstd::prelude::*;
use crate::text::{spec_contains, str_contains, str_eq};
use crate::utils::path::{path_join, spec_path_join};

verus! {

/// A detected version manager (or unstable location) for an executable.
#[derive(Debug)]
pub struct VersionManagerInfo {
    /// The manager: `mise`, `asdf`, `aqua`, `nix`, `unknown` or
    /// `temporary`.
    pub name: String,
    /// The executable's path.
    pub current_path: String,
    /// Stable shim paths found, each with whether it runs the same binary.
    pub suggestions: Vec<(String, bool)>,
}

/// A path segment that marks an unstable location, as `/NAME/` or
/// `/.NAME/`.
pub open spec fn unstable_segment(p: Seq<char>, plain: Seq<char>, dotted: Seq<char>) -> bool {
    spec_contains(p, plain) || spec_contains(p, dotted)
}

/// The version manager a path lies under: known managers' install
/// directories first, then a directory named after this program's version
/// (`unknown`), then temporary or build directories (`temporary`).
pub open spec fn spec_version_manager(p: Seq<char>) -> Option<Seq<char>> {
    if spec_contains(p, "/mise/installs/"@) || spec_contains(p, "/.mise/installs/"@) {
        Some("mise"@)
    } else if spec_contains(p, "/asdf/installs/"@) || spec_contains(p, "/.asdf/installs/"@) {
        Some("asdf"@)
    } else if spec_contains(p, "/aqua/pkgs/"@) || spec_contains(p, "/.aqua/pkgs/"@) {
        Some("aqua"@)
    } else if spec_contains(p, "/nix/store/"@) {
        Some("nix"@)
    } else if spec_contains(p, "/"@ + crate::VERSION@ + "/"@) {
        Some("unknown"@)
    } else if unstable_segment(p, "/tmp/"@, "/.tmp/"@) || unstable_segment(p, "/temp/"@, "/.temp/"@)
        || unstable_segment(p, "/target/"@, "/.target/"@) || unstable_segment(p, "/debug/"@, "/.debug/"@)
        || unstable_segment(p, "/release/"@, "/.release/"@) || unstable_segment(p, "/build/"@, "/.build/"@)
        || unstable_segment(p, "/out/"@, "/.out/"@) || unstable_segment(p, "/dist/"@, "/.dist/"@)
        || unstable_segment(p, "/cache/"@, "/.cache/"@) || unstable_segment(p, "/Downloads/"@, "/.Downloads/"@) {
        Some("temporary"@)
    } else {
        None
    }
}

/// The version manager a path lies under, as [`spec_version_manager`]
/// states.
pub fn version_manager_name(p: &str) -> (r: Option<&'static str>)
    ensures
        match r {
            Some(n) => spec_version_manager(p@) == Some(n@),
            None => spec_version_manager(p@) is None,
        },
{
    if str_contains(p, "/mise/installs/") || str_contains(p, "/.mise/installs/") {
        Some("mise")
    } else if str_contains(p, "/asdf/installs/") || str_contains(p, "/.asdf/installs/") {
        Some("asdf")
    } else if str_contains(p, "/aqua/pkgs/") || str_contains(p, "/.aqua/pkgs/") {
        Some("aqua")
    } else if str_contains(p, "/nix/store/") {
        Some("nix")
    } else {
        let with_version = crate::text::concat_str("/", crate::VERSION);
        let pattern = crate::text::concat_str(with_version.as_str(), "/");
        if str_contains(p, pattern.as_str()) {
            Some("unknown")
        } else if str_contains(p, "/tmp/") || str_contains(p, "/.tmp/") || str_contains(p, "/temp/") || str_contains(
            p,
            "/.temp/",
        ) || str_contains(p, "/target/") || str_contains(p, "/.target/") || str_contains(p, "/debug/")
            || str_contains(p, "/.debug/") || str_contains(p, "/release/") || str_contains(p, "/.release/")
            || str_contains(p, "/build/") || str_contains(p, "/.build/") || str_contains(p, "/out/")
            || str_contains(p, "/.out/") || str_contains(p, "/dist/") || str_contains(p, "/.dist/")
            || str_contains(p, "/cache/") || str_contains(p, "/.cache/") || str_contains(p, "/Downloads/")
            || str_contains(p, "/.Downloads/") {
            Some("temporary")
        } else {
            None
        }
    }
}

/// Whether the path is under a version manager or an unstable location
/// (as [`spec_version_manager`] states), with the stable shims found for
/// it: `shims` is what [`shim_suggestions`] made of the places
/// [`shim_candidates`] lists.
pub fn detect_version_manager(path: &str, shims: Vec<(String, bool)>) -> (r: Option<VersionManagerInfo>)
    ensures
        match r {
            Some(info) => spec_version_manager(path@) == Some(info.name@) && info.current_path@ == path@
                && info.suggestions@ == shims@,
            None => spec_version_manager(path@) is None,
        },
{
    match version_manager_name(path) {
        Some(name) => Some(
            VersionManagerInfo { name: name.to_string(), current_path: path.to_string(), suggestions: shims },
        ),
        None => None,
    }
}

/// `rel` joined onto `base`, when there is a base.
pub open spec fn joined_if(base: Option<Seq<char>>, rel: Seq<char>) -> Seq<Seq<char>> {
    match base {
        Some(b) => seq![spec_path_join(b, rel)],
        None => Seq::empty(),
    }
}

/// Where a stable shim of this program may be installed, in the order the
/// places are tried: mise's shims (under the home directory, then under
/// the local data directory), asdf's shims, the nix profile, the NixOS
/// system profile, `~/.local/bin`, and Homebrew's two prefixes.
pub open spec fn spec_shim_candidates(home: Option<Seq<char>>, data_local: Option<Seq<char>>) -> Seq<Seq<char>> {
    joined_if(home, ".local/share/mise/shims/authsock-filter"@) + joined_if(
        data_local,
        "mise/shims/authsock-filter"@,
    ) + joined_if(home, ".asdf/shims/authsock-filter"@) + joined_if(home, ".nix-profile/bin/authsock-filter"@)
        + seq!["/run/current-system/sw/bin/authsock-filter"@] + joined_if(home, ".local/bin/authsock-filter"@)
        + seq!["/opt/homebrew/bin/authsock-filter"@, "/usr/local/bin/authsock-filter"@]
}

fn push_joined_if(out: &mut Vec<String>, base: &Option<String>, rel: &str)
    ensures
        final(out)@.map_values(|s: String| s@) == old(out)@.map_values(|s: String| s@) + joined_if(
            match base {
                Some(b) => Some(b@),
                None => None,
            },
            rel@,
        ),
{
    let ghost before = out@.map_values(|s: String| s@);
    match base {
        Some(b) => {
            out.push(path_join(b.as_str(), rel));
        },
        None => {},
    }
    assert(out@.map_values(|s: String| s@) =~= before + joined_if(
        match base {
            Some(b) => Some(b@),
            None => None,
        },
        rel@,
    ));
}

/// The places where a stable shim may be installed, as
/// [`spec_shim_candidates`] states; `home` and `data_local` are the home
/// and local data directories, when known.
pub fn shim_candidates(home: Option<String>, data_local: Option<String>) -> (r: Vec<String>)
    ensures
        r@.map_values(|s: String| s@) == spec_shim_candidates(
            match home {
                Some(h) => Some(h@),
                None => None,
            },
            match data_local {
                Some(d) => Some(d@),
                None => None,
            },
        ),
{
    let mut out: Vec<String> = Vec::new();
    assert(out@.map_values(|s: String| s@) =~= Seq::<Seq<char>>::empty());
    push_joined_if(&mut out, &home, ".local/share/mise/shims/authsock-filter");
    push_joined_if(&mut out, &data_local, "mise/shims/authsock-filter");
    push_joined_if(&mut out, &home, ".asdf/shims/authsock-filter");
    push_joined_if(&mut out, &home, ".nix-profile/bin/authsock-filter");
    let ghost a = out@.map_values(|s: String| s@);
    out.push("/run/current-system/sw/bin/authsock-filter".to_string());
    assert(out@.map_values(|s: String| s@) =~= a + seq!["/run/current-system/sw/bin/authsock-filter"@]);
    push_joined_if(&mut out, &home, ".local/bin/authsock-filter");
    let ghost b = out@.map_values(|s: String| s@);
    out.push("/opt/homebrew/bin/authsock-filter".to_string());
    out.push("/usr/local/bin/authsock-filter".to_string());
    assert(out@.map_values(|s: String| s@) =~= b + seq![
        "/opt/homebrew/bin/authsock-filter"@,
        "/usr/local/bin/authsock-filter"@,
    ]);
    out
}

/// A shim under `/mise/shims/`, whose target `mise which` can tell.
pub open spec fn spec_is_mise_shim(path: Seq<char>) -> bool {
    spec_contains(path, "/mise/shims/"@)
}

/// Whether the shim at `path` is a mise shim.
pub fn is_mise_shim(path: &str) -> (r: bool)
    ensures
        r == spec_is_mise_shim(path@),
{
    str_contains(path, "/mise/shims/")
}

/// Both paths are known and equal.
pub open spec fn both_equal(a: Option<String>, b: Option<String>) -> bool {
    match (a, b) {
        (Some(x), Some(y)) => x@ == y@,
        _ => false,
    }
}

/// Whether a shim runs the same binary as the current executable:
/// their canonical paths are equal, or the shim is a mise shim and the
/// canonical path of what `mise which` names is the current executable's.
/// `shim_canonical`, `current_canonical` and `mise_canonical` are those
/// canonical paths, `None` where one could not be had (`mise_canonical`
/// too where mise was not asked).
pub fn is_same_binary(
    shim_path: &str,
    shim_canonical: Option<String>,
    current_canonical: Option<String>,
    mise_canonical: Option<String>,
) -> (r: bool)
    ensures
        r == (both_equal(shim_canonical, current_canonical) || (spec_is_mise_shim(shim_path@) && both_equal(
            mise_canonical,
            current_canonical,
        ))),
{
    match (&shim_canonical, &current_canonical) {
        (Some(s), Some(c)) => {
            if str_eq(s.as_str(), c.as_str()) {
                return true;
            }
        },
        _ => {},
    }
    if is_mise_shim(shim_path) {
        match (&mise_canonical, &current_canonical) {
            (Some(m), Some(c)) => {
                return str_eq(m.as_str(), c.as_str());
            },
            _ => {},
        }
    }
    false
}

/// What is known of a shim candidate: its path, whether it exists as an
/// executable file, and whether it runs the same binary.
pub open spec fn suggestion_of(f: (Seq<char>, bool, bool)) -> (Seq<char>, bool) {
    (f.0, f.2)
}

/// The suggestions made of the candidates: those that exist as executable
/// files, in order, each with whether it runs the same binary.
pub open spec fn spec_shim_suggestions(found: Seq<(Seq<char>, bool, bool)>) -> Seq<(Seq<char>, bool)> {
    found.filter(|f: (Seq<char>, bool, bool)| f.1).map_values(|f: (Seq<char>, bool, bool)| suggestion_of(f))
}

/// The view of a found candidate.
pub open spec fn found_view(f: (String, bool, bool)) -> (Seq<char>, bool, bool) {
    (f.0@, f.1, f.2)
}

/// The suggestions made of the candidates found, as
/// [`spec_shim_suggestions`] states; each entry of `found` is a candidate
/// path, whether it exists as an executable file, and whether it runs the
/// same binary.
pub fn shim_suggestions(found: Vec<(String, bool, bool)>) -> (r: Vec<(String, bool)>)
    ensures
        r@.map_values(|p: (String, bool)| (p.0@, p.1)) == spec_shim_suggestions(
            found@.map_values(|f: (String, bool, bool)| found_view(f)),
        ),
{
    let ghost all = found@.map_values(|f: (String, bool, bool)| found_view(f));
    let ghost pred = |f: (Seq<char>, bool, bool)| f.1;
    let ghost conv = |f: (Seq<char>, bool, bool)| suggestion_of(f);
    let mut out: Vec<(String, bool)> = Vec::new();
    let mut i: usize = 0;
    while i < found.len()
        invariant
            i <= found@.len(),
            all == found@.map_values(|f: (String, bool, bool)| found_view(f)),
            pred == (|f: (Seq<char>, bool, bool)| f.1),
            conv == (|f: (Seq<char>, bool, bool)| suggestion_of(f)),
            out@.map_values(|p: (String, bool)| (p.0@, p.1)) == all.take(i as int).filter(pred).map_values(conv),
        decreases found@.len() - i,
    {
        proof {
            reveal_with_fuel(Seq::<_>::filter, 1);
            assert(all.take(i + 1).drop_last() =~= all.take(i as int));
            assert(all.take(i + 1).last() == found_view(found@[i as int]));
        }
        let ghost before = all.take(i as int).filter(pred);
        if found[i].1 {
            let ghost prev = out@.map_values(|p: (String, bool)| (p.0@, p.1));
            out.push((found[i].0.clone(), found[i].2));
            assert(all.take(i + 1).filter(pred) == before.push(all[i as int]));
            assert(out@.map_values(|p: (String, bool)| (p.0@, p.1)) =~= prev.push(conv(all[i as int])));
            assert(before.push(all[i as int]).map_values(conv) =~= before.map_values(conv).push(conv(all[i as int])));
        } else {
            assert(all.take(i + 1).filter(pred) == before);
        }
        i = i + 1;
    }
    assert(all.take(found@.len() as int) =~= all);
    out
}

/// Whether a file with permission bits `mode` (`None` when its metadata
/// could not be read) is executable by anyone.
pub fn is_executable(mode: Option<u32>) -> (r: bool)
    ensures
        r == (mode matches Some(m) && m & 0o111u32 != 0),
{
    match mode {
        Some(m) => m & 0o111u32 != 0,
        None => false,
    }
}

} // verus!
