//! The `config` command: where it looks for a configuration file, the
//! example configuration, and what it prints.

use vstd::prelude::*;
use crate::config::{Config, SocketConfig};
use crate::error::Error;
use crate::config::{filter_groups, filter_lists_view, spec_filter_groups};
use crate::text::{concat_str, str_eq, strings_view};
use crate::utils::path::spec_path_join;

verus! {

/// The example configuration that `config --example` prints.
pub const EXAMPLE_CONFIG: &'static str = r#"# authsock-filter configuration file
#
# See https://github.com/kawaz/authsock-filter for documentation

# Default upstream SSH agent socket (used when socket doesn't specify one)
# Default: $SSH_AUTH_SOCK
# upstream = "/run/user/1000/ssh-agent.sock"

# Socket definitions
# Each socket can specify its own upstream and filters
[[sockets]]
path = "/tmp/authsock-filter/default.sock"
# upstream = "/path/to/agent.sock"  # Optional: override default upstream
# filters = ["github=username", "type=ed25519"]

# Example: Allow only GitHub keys for a specific user
# [[sockets]]
# path = "/tmp/authsock-filter/github.sock"
# filters = ["github=kawaz"]

# Example: Allow only ED25519 keys with comment pattern
# [[sockets]]
# path = "/tmp/authsock-filter/work.sock"
# filters = ["comment=*@work.example.com", "type=ed25519"]

# Example: Exclude DSA keys
# [[sockets]]
# path = "/tmp/authsock-filter/no-dsa.sock"
# filters = ["not-type=dsa"]

# Filter syntax:
#   type=value      Include keys matching the filter
#   not-type=value   Exclude keys matching the filter
#
# Filter types:
#   fingerprint=SHA256:xxx   Match by key fingerprint
#   comment=*pattern*        Match by comment (glob pattern)
#   github=username          Match keys from github.com/username.keys
#   type=ed25519|rsa|...     Match by key type
#   pubkey=<base64>          Match by full public key
#   keyfile=/path/to/file    Match keys from file
"#;

/// The example configuration.
pub fn example_config() -> (r: &'static str)
    ensures
        r@ == EXAMPLE_CONFIG@,
{
    EXAMPLE_CONFIG
}

/// Why a text is not valid TOML.
pub uninterp spec fn spec_toml_error(text: Seq<char>) -> Option<Seq<char>>;

/// What `serde_json::to_string_pretty` gives for the TOML value a valid
/// TOML text reads as: the JSON text, or why it cannot be printed.
pub uninterp spec fn spec_pretty_json(text: Seq<char>) -> Result<Seq<char>, Seq<char>>;

/// What a TOML text reads as, printed as pretty JSON, or why it cannot be
/// read ([`spec_toml_error`]) or printed.
pub open spec fn spec_toml_as_json(text: Seq<char>) -> Result<Seq<char>, Seq<char>> {
    match spec_toml_error(text) {
        Some(m) => Err(m),
        None => spec_pretty_json(text),
    }
}

/// `toml::from_str::<toml::Value>` then `serde_json::to_string_pretty`:
/// the parse error's message when the text is not valid TOML (named by
/// [`spec_toml_error`]), else the pretty JSON text or the printing error's
/// message (named by [`spec_pretty_json`]).
#[verifier::external_body]
fn toml_to_json(text: &str) -> (r: Result<String, String>)
    ensures
        match spec_toml_error(text@) {
            Some(m) => r matches Err(e) && e@ == m,
            None => match spec_pretty_json(text@) {
                Ok(j) => r matches Ok(x) && x@ == j,
                Err(m) => r matches Err(e) && e@ == m,
            },
        },
{
    match toml::from_str::<toml::Value>(text) {
        Ok(v) => serde_json::to_string_pretty(&v).map_err(|e| e.to_string()),
        Err(e) => Err(e.to_string()),
    }
}

/// `toml::from_str::<toml::Value>`: `None` when the text is valid TOML,
/// else the parse error's message, named by [`spec_toml_error`].
#[verifier::external_body]
fn toml_check(text: &str) -> (r: Option<String>)
    ensures
        match r {
            Some(e) => spec_toml_error(text@) == Some(e@),
            None => spec_toml_error(text@) is None,
        },
{
    match toml::from_str::<toml::Value>(text) {
        Ok(_) => None,
        Err(e) => Some(e.to_string()),
    }
}

/// The configuration files the `config` command looks for, in order:
/// `CONFIG/authsock-filter/config.toml` and `CONFIG/authsock-filter.toml`
/// under the configuration directory, `~/.config/authsock-filter/config.toml`
/// and `~/.authsock-filter.toml` under the home directory, then
/// `/etc/authsock-filter/config.toml` and `/etc/authsock-filter.toml`.
pub open spec fn spec_default_config_paths(config_dir: Option<Seq<char>>, home: Option<Seq<char>>) -> Seq<Seq<char>> {
    let s1: Seq<Seq<char>> = match config_dir {
        Some(c) => seq![
            spec_path_join(spec_path_join(c, "authsock-filter"@), "config.toml"@),
            spec_path_join(c, "authsock-filter.toml"@),
        ],
        None => Seq::empty(),
    };
    let s2 = match home {
        Some(h) => s1 + seq![
            spec_path_join(h, ".config/authsock-filter/config.toml"@),
            spec_path_join(h, ".authsock-filter.toml"@),
        ],
        None => s1,
    };
    s2 + seq!["/etc/authsock-filter/config.toml"@, "/etc/authsock-filter.toml"@]
}

fn push_path(v: &mut Vec<String>, p: String)
    ensures
        strings_view(final(v)@) == strings_view(old(v)@).push(p@),
{
    v.push(p);
    assert(strings_view(final(v)@) =~= strings_view(old(v)@).push(p@));
}

/// The configuration files the `config` command looks for, as
/// [`spec_default_config_paths`] states.
pub fn default_config_paths(config_dir: Option<String>, home: Option<String>) -> (r: Vec<String>)
    ensures
        strings_view(r@) == spec_default_config_paths(
            match config_dir {
                Some(c) => Some(c@),
                None => None,
            },
            match home {
                Some(h) => Some(h@),
                None => None,
            },
        ),
{
    let mut paths: Vec<String> = Vec::new();
    match &config_dir {
        Some(c) => {
            let d = crate::utils::path::path_join(c.as_str(), "authsock-filter");
            push_path(&mut paths, crate::utils::path::path_join(d.as_str(), "config.toml"));
            push_path(&mut paths, crate::utils::path::path_join(c.as_str(), "authsock-filter.toml"));
        },
        None => {},
    }
    let ghost s1 = strings_view(paths@);
    match &home {
        Some(h) => {
            push_path(&mut paths, crate::utils::path::path_join(h.as_str(), ".config/authsock-filter/config.toml"));
            push_path(&mut paths, crate::utils::path::path_join(h.as_str(), ".authsock-filter.toml"));
            assert(strings_view(paths@) =~= s1 + seq![
                spec_path_join(h@, ".config/authsock-filter/config.toml"@),
                spec_path_join(h@, ".authsock-filter.toml"@),
            ]);
        },
        None => {},
    }
    let ghost s2 = strings_view(paths@);
    push_path(&mut paths, "/etc/authsock-filter/config.toml".to_string());
    push_path(&mut paths, "/etc/authsock-filter.toml".to_string());
    assert(strings_view(paths@) =~= s2 + seq!["/etc/authsock-filter/config.toml"@, "/etc/authsock-filter.toml"@]);
    paths
}

/// The first path that exists.
pub open spec fn first_existing(exists: Seq<bool>) -> Option<int> {
    if exists|i: int| 0 <= i < exists.len() && exists[i] {
        Some(choose|i: int| 0 <= i < exists.len() && exists[i] && forall|j: int| 0 <= j < i ==> !exists[j])
    } else {
        None
    }
}

/// The first of the paths that exists (`exists` tells, for each).
pub fn find_config_file(paths: &[String], exists: &[bool]) -> (r: Option<String>)
    requires
        paths@.len() == exists@.len(),
    ensures
        match first_existing(exists@) {
            Some(i) => (r matches Some(p) && p@ == paths@[i]@),
            None => r is None,
        },
{
    let mut i: usize = 0;
    while i < paths.len()
        invariant
            i <= paths@.len(),
            paths@.len() == exists@.len(),
            forall|j: int| 0 <= j < i ==> !exists@[j],
        decreases paths@.len() - i,
    {
        if exists[i] {
            proof {
                let e = exists@;
                let c = choose|c: int| 0 <= c < e.len() && e[c] && forall|j: int| 0 <= j < c ==> !e[j];
                if c > i {
                    assert(!e[i as int]);
                }
            }
            return Some(paths[i].clone());
        }
        i = i + 1;
    }
    None
}

/// What the `config` command prints: text for the standard output, text
/// for the standard error, and whether it fails (exits with status 1).
#[derive(Debug)]
pub struct ConfigOutput {
    /// Standard output.
    pub stdout: String,
    /// Standard error.
    pub stderr: String,
    /// Whether the command fails.
    pub failed: bool,
}

/// The lines that list the searched locations, each after `lead`.
pub open spec fn listing(lead: Seq<char>, paths: Seq<Seq<char>>) -> Seq<char>
    decreases paths.len(),
{
    if paths.len() == 0 {
        Seq::empty()
    } else {
        listing(lead, paths.drop_last()) + lead + paths.last() + "\n"@
    }
}

/// What the `config` command prints, given its flags, the configuration
/// file found with its content (`None` when none was found) and the
/// locations searched; or, when a content asked for as JSON cannot be
/// read, the error message.
///
/// With `--example`, the example configuration (as JSON for the `json`
/// format). With a file: `--validate` says whether it is valid TOML (and
/// fails when it is not); else its content, as JSON for the `json` format.
/// Without a file: `--validate` lists the searched locations and fails;
/// else it lists them and shows the example configuration.
pub open spec fn spec_config_output(
    example: bool,
    json: bool,
    validate: bool,
    found: Option<(Seq<char>, Seq<char>)>,
    searched: Seq<Seq<char>>,
) -> Result<(Seq<char>, Seq<char>, bool), Seq<char>> {
    if example {
        if json {
            match spec_toml_as_json(EXAMPLE_CONFIG@) {
                Ok(j) => Ok((j + "\n"@, Seq::empty(), false)),
                Err(e) => Err("Failed to parse example config: "@ + e),
            }
        } else {
            Ok((EXAMPLE_CONFIG@, Seq::empty(), false))
        }
    } else {
        match found {
            Some((path, content)) => if validate {
                match spec_toml_error(content) {
                    None => Ok(("Configuration file is valid: "@ + path + "\n"@, Seq::empty(), false)),
                    Some(e) => Ok((Seq::empty(), "Configuration file is invalid: "@ + path + "\nError: "@ + e + "\n"@, true)),
                }
            } else if json {
                match spec_toml_as_json(content) {
                    Ok(j) => Ok((j + "\n"@, Seq::empty(), false)),
                    Err(e) => Err("Failed to parse config: "@ + e),
                }
            } else {
                Ok(("# Configuration from: "@ + path + "\n\n"@ + content, Seq::empty(), false))
            },
            None => if validate {
                Ok((Seq::empty(), "No configuration file found.\nSearched locations:\n"@ + listing("  - "@, searched), true))
            } else {
                Ok(
                    (
                        "# No configuration file found\n# Searched locations:\n"@ + listing("#   - "@, searched)
                            + "\n# Example configuration (use --example for clean output):\n\n"@ + EXAMPLE_CONFIG@,
                        Seq::empty(),
                        false,
                    ),
                )
            },
        }
    }
}

/// The listing lines, as [`listing`] states.
fn listing_exec(lead: &str, paths: &[String]) -> (r: String)
    ensures
        r@ == listing(lead@, strings_view(paths@)),
{
    let ghost pv = strings_view(paths@);
    let mut out = String::new();
    let mut i: usize = 0;
    while i < paths.len()
        invariant
            i <= paths@.len(),
            pv == strings_view(paths@),
            out@ == listing(lead@, pv.take(i as int)),
        decreases paths@.len() - i,
    {
        let a = concat_str(out.as_str(), lead);
        let b = concat_str(a.as_str(), paths[i].as_str());
        out = concat_str(b.as_str(), "\n");
        assert(pv.take(i + 1).drop_last() =~= pv.take(i as int));
        assert(pv.take(i + 1).last() == paths@[i as int]@);
        i = i + 1;
    }
    assert(pv.take(i as int) =~= pv);
    out
}

/// What the `config` command prints. A content that is not valid TOML,
/// asked for as JSON, is an error.
pub fn config_output(
    example: bool,
    json: bool,
    validate: bool,
    found: Option<(String, String)>,
    searched: &[String],
) -> (r: Result<ConfigOutput, Error>)
    ensures
        match r {
            Ok(o) => spec_config_output(
                example,
                json,
                validate,
                match found {
                    Some((p, c)) => Some((p@, c@)),
                    None => None,
                },
                strings_view(searched@),
            ) == Ok::<(Seq<char>, Seq<char>, bool), Seq<char>>((o.stdout@, o.stderr@, o.failed)),
            Err(e) => e matches Error::Config(m) && spec_config_output(
                example,
                json,
                validate,
                match found {
                    Some((p, c)) => Some((p@, c@)),
                    None => None,
                },
                strings_view(searched@),
            ) == Err::<(Seq<char>, Seq<char>, bool), Seq<char>>(m@),
        },
{
    proof {
        reveal_strlit("");
    }
    if example {
        if json {
            return match toml_to_json(EXAMPLE_CONFIG) {
                Ok(j) => Ok(ConfigOutput { stdout: concat_str(j.as_str(), "\n"), stderr: String::new(), failed: false }),
                Err(e) => Err(Error::Config(concat_str("Failed to parse example config: ", e.as_str()))),
            };
        }
        return Ok(ConfigOutput { stdout: EXAMPLE_CONFIG.to_string(), stderr: String::new(), failed: false });
    }
    match found {
        Some((path, content)) => {
            if validate {
                match toml_check(content.as_str()) {
                    None => {
                        let a = concat_str("Configuration file is valid: ", path.as_str());
                        Ok(ConfigOutput { stdout: concat_str(a.as_str(), "\n"), stderr: String::new(), failed: false })
                    },
                    Some(e) => {
                        let a = concat_str("Configuration file is invalid: ", path.as_str());
                        let b = concat_str(a.as_str(), "\nError: ");
                        let c = concat_str(b.as_str(), e.as_str());
                        Ok(ConfigOutput { stdout: String::new(), stderr: concat_str(c.as_str(), "\n"), failed: true })
                    },
                }
            } else if json {
                match toml_to_json(content.as_str()) {
                    Ok(j) => Ok(
                        ConfigOutput { stdout: concat_str(j.as_str(), "\n"), stderr: String::new(), failed: false },
                    ),
                    Err(e) => Err(Error::Config(concat_str("Failed to parse config: ", e.as_str()))),
                }
            } else {
                let a = concat_str("# Configuration from: ", path.as_str());
                let b = concat_str(a.as_str(), "\n\n");
                Ok(ConfigOutput { stdout: concat_str(b.as_str(), content.as_str()), stderr: String::new(), failed: false })
            }
        },
        None => {
            if validate {
                let l = listing_exec("  - ", searched);
                let e = concat_str("No configuration file found.\nSearched locations:\n", l.as_str());
                Ok(ConfigOutput { stdout: String::new(), stderr: e, failed: true })
            } else {
                let l = listing_exec("#   - ", searched);
                let a = concat_str("# No configuration file found\n# Searched locations:\n", l.as_str());
                let b = concat_str(a.as_str(), "\n# Example configuration (use --example for clean output):\n\n");
                Ok(ConfigOutput { stdout: concat_str(b.as_str(), EXAMPLE_CONFIG), stderr: String::new(), failed: false })
            }
        },
    }
}


/// One step of a `run` command line: switching to an upstream
/// (`--upstream PATH`), or a socket with one group of filters
/// (`--socket PATH FILTER...`).
pub enum CommandStep {
    /// `--upstream PATH`.
    Upstream(Seq<char>),
    /// `--socket PATH`, then the filters.
    Socket(Seq<char>, Seq<Seq<char>>),
}

/// The arguments of one step.
pub open spec fn step_args(s: CommandStep) -> Seq<Seq<char>> {
    match s {
        CommandStep::Upstream(u) => seq!["--upstream"@, u],
        CommandStep::Socket(p, fs) => seq!["--socket"@, p] + fs,
    }
}

/// The arguments of steps, in order.
pub open spec fn steps_args(steps: Seq<CommandStep>) -> Seq<Seq<char>>
    decreases steps.len(),
{
    if steps.len() == 0 {
        Seq::empty()
    } else {
        step_args(steps[0]) + steps_args(steps.skip(1))
    }
}

/// The upstream a configured socket uses: its own, else the default one.
pub open spec fn socket_upstream_of(c: Config, s: SocketConfig) -> Seq<char> {
    match s.upstream {
        Some(u) => u@,
        None => c.upstream@,
    }
}

/// The socket steps of a configured socket: one per filter group, or one
/// without filters when it has none.
pub open spec fn socket_steps(s: SocketConfig) -> Seq<CommandStep> {
    let gs = spec_filter_groups(s.filters@);
    if gs.len() == 0 {
        seq![CommandStep::Socket(s.path@, Seq::empty())]
    } else {
        gs.map_values(|g: Seq<Seq<char>>| CommandStep::Socket(s.path@, g))
    }
}

/// The steps for the first `k` sockets of `c`, and the upstream in effect
/// after them: before a socket whose upstream is not the one in effect,
/// a switch to its upstream; then its socket steps.
pub open spec fn command_steps(c: Config, k: int) -> (Seq<CommandStep>, Seq<char>)
    decreases k,
{
    if k <= 0 {
        (Seq::empty(), c.upstream@)
    } else {
        let prev = command_steps(c, k - 1);
        let s = c.sockets@[k - 1].1;
        let u = socket_upstream_of(c, s);
        let switch = if u == prev.1 {
            Seq::<CommandStep>::empty()
        } else {
            seq![CommandStep::Upstream(u)]
        };
        (prev.0 + switch + socket_steps(s), u)
    }
}

/// The `run` command line that serves a configuration:
/// `authsock-filter run --upstream UPSTREAM`, then the steps of its
/// sockets in order.
pub open spec fn spec_config_as_command(c: Config) -> Seq<Seq<char>> {
    seq!["authsock-filter"@, "run"@, "--upstream"@, c.upstream@] + steps_args(
        command_steps(c, c.sockets@.len() as int).0,
    )
}

/// Joining steps joins their arguments.
pub proof fn lemma_steps_args_concat(a: Seq<CommandStep>, b: Seq<CommandStep>)
    ensures
        steps_args(a + b) == steps_args(a) + steps_args(b),
    decreases a.len(),
{
    if a.len() == 0 {
        assert(a + b =~= b);
    } else {
        assert((a + b).skip(1) =~= a.skip(1) + b);
        lemma_steps_args_concat(a.skip(1), b);
    }
}

/// The arguments of a single step.
pub proof fn lemma_steps_args_single(s: CommandStep)
    ensures
        steps_args(seq![s]) == step_args(s),
{
    reveal_with_fuel(steps_args, 2);
    assert(seq![s].skip(1) =~= Seq::<CommandStep>::empty());
    assert(step_args(s) + Seq::<Seq<char>>::empty() =~= step_args(s));
}

/// Pushes `--socket PATH` and the filters of a group.
fn push_socket_step(out: &mut Vec<String>, path: &String, group: &Vec<String>)
    ensures
        strings_view(final(out)@) == strings_view(old(out)@) + step_args(
            CommandStep::Socket(path@, group@.map_values(|f: String| f@)),
        ),
{
    let ghost before = strings_view(out@);
    crate::text::push_string(out, "--socket".to_string());
    crate::text::push_string(out, path.clone());
    assert(strings_view(out@) =~= before + seq!["--socket"@, path@]);
    let ghost mid = strings_view(out@);
    let ghost gv = group@.map_values(|f: String| f@);
    let mut k: usize = 0;
    while k < group.len()
        invariant
            k <= group@.len(),
            gv == group@.map_values(|f: String| f@),
            strings_view(out@) == mid + gv.take(k as int),
        decreases group@.len() - k,
    {
        crate::text::push_string(out, group[k].clone());
        assert(gv.take(k + 1) =~= gv.take(k as int).push(group@[k as int]@));
        k = k + 1;
    }
    assert(gv.take(k as int) =~= gv);
    assert(strings_view(out@) =~= before + step_args(CommandStep::Socket(path@, gv)));
}

/// The arguments of a configured socket's steps.
fn push_socket_steps(out: &mut Vec<String>, s: &SocketConfig)
    ensures
        strings_view(final(out)@) == strings_view(old(out)@) + steps_args(socket_steps(*s)),
{
    let groups = filter_groups(s.filters.as_slice());
    let ghost gv = filter_lists_view(groups@);
    let ghost before = strings_view(out@);
    if groups.len() == 0 {
        let empty: Vec<String> = Vec::new();
        push_socket_step(out, &s.path, &empty);
        proof {
            let st = seq![CommandStep::Socket(s.path@, Seq::<Seq<char>>::empty())];
            assert(empty@.map_values(|f: String| f@) =~= Seq::<Seq<char>>::empty());
            lemma_steps_args_single(st[0]);
            assert(socket_steps(*s) == st);
        }
        return;
    }
    let ghost all_steps = gv.map_values(|g: Seq<Seq<char>>| CommandStep::Socket(s.path@, g));
    let mut j: usize = 0;
    while j < groups.len()
        invariant
            j <= groups@.len(),
            gv == filter_lists_view(groups@),
            all_steps == gv.map_values(|g: Seq<Seq<char>>| CommandStep::Socket(s.path@, g)),
            strings_view(out@) == before + steps_args(all_steps.take(j as int)),
        decreases groups@.len() - j,
    {
        let ghost prev = strings_view(out@);
        push_socket_step(out, &s.path, &groups[j]);
        proof {
            let one = seq![all_steps[j as int]];
            assert(all_steps.take(j + 1) =~= all_steps.take(j as int) + one);
            lemma_steps_args_concat(all_steps.take(j as int), one);
            lemma_steps_args_single(one[0]);
            assert(all_steps[j as int] == CommandStep::Socket(s.path@, groups@[j as int]@.map_values(|f: String| f@)));
        }
        j = j + 1;
    }
    assert(all_steps.take(j as int) =~= all_steps);
}

/// The `run` command line that serves a configuration, as
/// [`spec_config_as_command`] states.
pub fn config_as_command(c: &Config) -> (r: Vec<String>)
    ensures
        strings_view(r@) == spec_config_as_command(*c),
{
    let mut out: Vec<String> = Vec::new();
    crate::text::push_string(&mut out, "authsock-filter".to_string());
    crate::text::push_string(&mut out, "run".to_string());
    crate::text::push_string(&mut out, "--upstream".to_string());
    crate::text::push_string(&mut out, c.upstream.clone());
    let ghost head = strings_view(out@);
    let mut current = c.upstream.clone();
    let mut i: usize = 0;
    while i < c.sockets.len()
        invariant
            i <= c.sockets@.len(),
            head == seq!["authsock-filter"@, "run"@, "--upstream"@, c.upstream@],
            strings_view(out@) == head + steps_args(command_steps(*c, i as int).0),
            current@ == command_steps(*c, i as int).1,
        decreases c.sockets@.len() - i,
    {
        let sc = &c.sockets[i].1;
        let u = match &sc.upstream {
            Some(u) => u.clone(),
            None => c.upstream.clone(),
        };
        let ghost prev_steps = command_steps(*c, i as int).0;
        let ghost switch = if u@ == current@ {
            Seq::<CommandStep>::empty()
        } else {
            seq![CommandStep::Upstream(u@)]
        };
        if !str_eq(u.as_str(), current.as_str()) {
            crate::text::push_string(&mut out, "--upstream".to_string());
            crate::text::push_string(&mut out, u.clone());
            proof {
                lemma_steps_args_single(CommandStep::Upstream(u@));
            }
        } else {
            assert(steps_args(switch) =~= Seq::<Seq<char>>::empty());
        }
        assert(strings_view(out@) =~= head + steps_args(prev_steps) + steps_args(switch));
        let ghost mid = strings_view(out@);
        push_socket_steps(&mut out, sc);
        proof {
            lemma_steps_args_concat(prev_steps, switch);
            lemma_steps_args_concat(prev_steps + switch, socket_steps(*sc));
            assert(command_steps(*c, i + 1).0 == prev_steps + switch + socket_steps(*sc));
            assert(strings_view(out@) =~= head + steps_args(command_steps(*c, i + 1).0));
        }
        current = u;
        i = i + 1;
    }
    out
}

} // verus!
