//! Command-line argument values and the grouping of `--upstream` /
//! `--socket` arguments.

use vstd::prelude::*;
use crate::text::{concat_str, spec_contains, spec_starts_with, str_starts_with, str_strip_prefix, strings_view};
use crate::utils::path::{spec_file_name, spec_parent, spec_path_join, spec_strip_prefix};
use crate::config::{opt_view, plain_path};
use crate::error::Error;

verus! {

/// A socket given on the command line, with its filters.
#[derive(Debug)]
pub struct SocketSpec {
    /// Socket path.
    pub path: String,
    /// Filter rules.
    pub filters: Vec<String>,
}

/// An upstream agent and the sockets that belong to it.
#[derive(Debug)]
pub struct UpstreamGroup {
    /// Upstream socket path.
    pub path: String,
    /// The sockets served from this upstream.
    pub sockets: Vec<SocketSpec>,
}

/// Arguments of the `run` command.
#[derive(Debug)]
pub struct RunArgs {
    /// `--upstream` values.
    pub upstream: Vec<String>,
    /// `--socket` values (path, then filters).
    pub socket: Vec<String>,
    /// Print the configuration as TOML and exit.
    pub print_config: bool,
    /// Foreground mode (always true for `run`).
    pub foreground: bool,
}

/// Arguments of the `config` command.
#[derive(Debug)]
pub struct ConfigArgs {
    /// Validate the configuration only.
    pub validate: bool,
    /// Show an example configuration.
    pub example: bool,
    /// Output format (`toml` or `json`).
    pub format: String,
}

/// Arguments of the `register` command.
#[derive(Debug)]
pub struct RegisterArgs {
    /// Service name.
    pub name: String,
    /// Executable path for the service.
    pub executable: Option<String>,
    /// Allow registering a version-managed path.
    pub allow_versioned_path: bool,
}

/// Arguments of the `unregister` command.
#[derive(Debug)]
pub struct UnregisterArgs {
    /// Service name.
    pub name: String,
}

/// A socket as grouping sees it: path text and filters.
pub type SpecSocket = (Seq<char>, Seq<Seq<char>>);

/// A group as grouping sees it: path text, whether the path came from
/// `SSH_AUTH_SOCK` (and is used as it is), and its sockets.
pub type SpecGroup = (Seq<char>, bool, Seq<SpecSocket>);

/// Grouping state: finished groups, the open group, the open socket.
pub type GroupState = (Seq<SpecGroup>, Option<SpecGroup>, Option<SpecSocket>);

/// Closes the open socket: it joins the open group (and is dropped when
/// there is no open group).
pub open spec fn flush_socket(st: GroupState) -> GroupState {
    match st.2 {
        Some(sock) => match st.1 {
            Some(g) => (st.0, Some((g.0, g.1, g.2.push(sock))), None),
            None => (st.0, st.1, None),
        },
        None => st,
    }
}

/// Closes the open group: it is kept when it has sockets.
pub open spec fn flush_group(st: GroupState) -> GroupState {
    match st.1 {
        Some(g) => if g.2.len() > 0 {
            (st.0.push(g), None, st.2)
        } else {
            (st.0, None, st.2)
        },
        None => st,
    }
}

/// Global options that may appear among a socket's filters and are not
/// filters.
pub open spec fn is_global_option(a: Seq<char>) -> bool {
    spec_starts_with(a, "--config"@) || spec_starts_with(a, "--verbose"@) || spec_starts_with(
        a,
        "--quiet"@,
    ) || spec_starts_with(a, "--name"@) || spec_starts_with(a, "--start"@) || spec_starts_with(
        a,
        "--enable"@,
    ) || spec_starts_with(a, "--purge"@) || a == "-h"@ || a == "--help"@ || a == "-V"@ || a
        == "--version"@
}

/// One step of grouping at argument `i`: the new state and the index of
/// the next argument to read.
pub open spec fn group_step(args: Seq<Seq<char>>, i: int, st: GroupState, ssh: Option<Seq<char>>) -> (GroupState, int) {
    let a = args[i];
    if a == "--upstream"@ || spec_starts_with(a, "--upstream="@) {
        let st1 = flush_group(flush_socket(st));
        let (path, next) = if a == "--upstream"@ {
            if i + 1 < args.len() {
                (Some(args[i + 1]), i + 2)
            } else {
                (None, i + 1)
            }
        } else {
            (Some(a.skip(11)), i + 1)
        };
        match path {
            Some(p) => ((st1.0, Some((p, false, Seq::empty())), st1.2), next),
            None => (st1, next),
        }
    } else if a == "--socket"@ || spec_starts_with(a, "--socket="@) {
        let st1 = flush_socket(st);
        let (path, next) = if a == "--socket"@ {
            if i + 1 < args.len() {
                (Some(args[i + 1]), i + 2)
            } else {
                (None, i + 1)
            }
        } else {
            (Some(a.skip(9)), i + 1)
        };
        match path {
            Some(p) => {
                let g = match (st1.1, ssh) {
                    (None, Some(s)) => Some((s, true, Seq::empty())),
                    _ => st1.1,
                };
                ((st1.0, g, Some((p, Seq::empty()))), next)
            },
            None => (st1, next),
        }
    } else if st.2 is Some {
        if is_global_option(a) {
            if (a == "--config"@ || a == "--name"@) && i + 1 < args.len() {
                (st, i + 2)
            } else {
                (st, i + 1)
            }
        } else if !spec_starts_with(a, "--"@) {
            let sock = st.2->Some_0;
            ((st.0, st.1, Some((sock.0, sock.1.push(a)))), i + 1)
        } else {
            (st, i + 1)
        }
    } else {
        (st, i + 1)
    }
}

/// Groups the arguments from `i` on, starting in state `st`.
pub open spec fn group_walk(args: Seq<Seq<char>>, i: int, st: GroupState, ssh: Option<Seq<char>>) -> Seq<SpecGroup>
    decreases args.len() - i,
{
    if i < 0 || i >= args.len() {
        flush_group(flush_socket(st)).0
    } else {
        let (st2, j) = group_step(args, i, st, ssh);
        if j > i {
            group_walk(args, j, st2, ssh)
        } else {
            Seq::empty()
        }
    }
}

/// The groups that the command line `args` describes: each `--upstream`
/// starts a group; each `--socket PATH` starts a socket of the current
/// group (of a group for `SSH_AUTH_SOCK` when no upstream came first); the
/// plain arguments after a socket are its filters; groups without sockets
/// are left out.
pub open spec fn spec_group_args(args: Seq<Seq<char>>, ssh: Option<Seq<char>>) -> Seq<SpecGroup> {
    group_walk(args, 0, (Seq::empty(), None, None), ssh)
}

/// Every group has at least one socket.
pub open spec fn groups_have_sockets(gs: Seq<SpecGroup>) -> bool {
    forall|i: int| 0 <= i < gs.len() ==> (#[trigger] gs[i]).2.len() > 0
}

proof fn lemma_flush_keeps_sockets(st: GroupState)
    requires
        groups_have_sockets(st.0),
    ensures
        groups_have_sockets(flush_socket(st).0),
        groups_have_sockets(flush_group(st).0),
        groups_have_sockets(flush_group(flush_socket(st)).0),
{
    let fs = flush_socket(st);
    assert(fs.0 == st.0);
    match st.1 {
        Some(g) => if g.2.len() > 0 {
            assert forall|i: int| 0 <= i < st.0.push(g).len() implies (#[trigger] st.0.push(g)[i]).2.len() > 0 by {
                if i < st.0.len() {
                    assert(st.0.push(g)[i] == st.0[i]);
                }
            }
        },
        None => {},
    }
    match fs.1 {
        Some(g) => if g.2.len() > 0 {
            assert forall|i: int| 0 <= i < fs.0.push(g).len() implies (#[trigger] fs.0.push(g)[i]).2.len() > 0 by {
                if i < fs.0.len() {
                    assert(fs.0.push(g)[i] == fs.0[i]);
                }
            }
        },
        None => {},
    }
}

proof fn lemma_walk_keeps_sockets(args: Seq<Seq<char>>, i: int, st: GroupState, ssh: Option<Seq<char>>)
    requires
        groups_have_sockets(st.0),
    ensures
        groups_have_sockets(group_walk(args, i, st, ssh)),
    decreases args.len() - i,
{
    lemma_flush_keeps_sockets(st);
    if 0 <= i < args.len() {
        let (st2, j) = group_step(args, i, st, ssh);
        lemma_flush_keeps_sockets(flush_socket(st));
        assert(groups_have_sockets(st2.0));
        if j > i {
            lemma_walk_keeps_sockets(args, j, st2, ssh);
        }
    }
}

/// Groups without sockets are left out: every group that a command line
/// gives has at least one socket.
pub proof fn lemma_groups_have_sockets(args: Seq<Seq<char>>, ssh: Option<Seq<char>>)
    ensures
        groups_have_sockets(spec_group_args(args, ssh)),
{
    lemma_walk_keeps_sockets(args, 0, (Seq::empty(), None, None), ssh);
}

/// The grouping view of a socket.
pub open spec fn socket_view(s: SocketSpec) -> SpecSocket {
    (s.path@, s.filters@.map_values(|f: String| f@))
}

/// The grouping view of a group.
pub open spec fn group_view(g: UpstreamGroup, from_env: bool) -> SpecGroup {
    (g.path@, from_env, g.sockets@.map_values(|s: SocketSpec| socket_view(s)))
}

/// The grouping views of groups, with their origin flags.
pub open spec fn groups_view(gs: Seq<UpstreamGroup>, env: Seq<bool>) -> Seq<SpecGroup> {
    Seq::new(gs.len(), |i: int| group_view(gs[i], env[i]))
}

/// A parsed group agrees with its grouping view: the sockets and their
/// filters are those of the view, and a path that came from
/// `SSH_AUTH_SOCK` is kept as it is (other paths are expanded).
pub open spec fn group_matches(r: UpstreamGroup, g: SpecGroup) -> bool {
    &&& (g.1 || plain_path(g.0)) ==> r.path@ == g.0
    &&& r.sockets@.len() == g.2.len()
    &&& forall|k: int| 0 <= k < g.2.len() ==> #[trigger] socket_view(r.sockets@[k]).1 == g.2[k].1
    &&& forall|k: int| 0 <= k < g.2.len() && plain_path(g.2[k].0) ==> #[trigger] socket_view(r.sockets@[k]).0 == g.2[k].0
}

/// Parsed groups agree one for one with grouping views.
pub open spec fn groups_match(r: Seq<UpstreamGroup>, g: Seq<SpecGroup>) -> bool {
    &&& r.len() == g.len()
    &&& forall|i: int| 0 <= i < r.len() ==> group_matches(#[trigger] r[i], g[i])
}

fn socket_push_filter(sock: &mut SocketSpec, f: &String)
    ensures
        socket_view(*final(sock)) == (socket_view(*old(sock)).0, socket_view(*old(sock)).1.push(f@)),
{
    sock.filters.push(f.clone());
    assert(socket_view(*sock).1 =~= socket_view(*old(sock)).1.push(f@));
}

fn group_push_socket(g: &mut UpstreamGroup, sock: SocketSpec, Ghost(env): Ghost<bool>)
    ensures
        group_view(*final(g), env) == (group_view(*old(g), env).0, env, group_view(*old(g), env).2.push(socket_view(sock))),
{
    g.sockets.push(sock);
    assert(group_view(*g, env).2 =~= group_view(*old(g), env).2.push(socket_view(sock)));
}

/// Exec grouping state.
struct Grouping {
    groups: Vec<UpstreamGroup>,
    env: Vec<bool>,
    group: Option<UpstreamGroup>,
    group_env: bool,
    socket: Option<SocketSpec>,
}

impl Grouping {
    spec fn view_state(&self) -> GroupState {
        (
            groups_view(self.groups@, self.env@),
            match self.group {
                Some(g) => Some(group_view(g, self.group_env)),
                None => None,
            },
            match self.socket {
                Some(s) => Some(socket_view(s)),
                None => None,
            },
        )
    }

    spec fn wf(&self) -> bool {
        self.groups@.len() == self.env@.len()
    }

    fn flush_socket(&mut self)
        requires
            old(self).wf(),
        ensures
            final(self).wf(),
            final(self).view_state() == flush_socket(old(self).view_state()),
    {
        let sock = self.socket.take();
        match sock {
            Some(s) => {
                match &mut self.group {
                    Some(g) => {
                        group_push_socket(g, s, Ghost(self.group_env));
                    },
                    None => {},
                }
            },
            None => {},
        }
    }

    fn flush_group(&mut self)
        requires
            old(self).wf(),
        ensures
            final(self).wf(),
            final(self).view_state() == flush_group(old(self).view_state()),
    {
        let g = self.group.take();
        match g {
            Some(g) => {
                if g.sockets.len() > 0 {
                    let ghost before = groups_view(self.groups@, self.env@);
                    let ghost gv = group_view(g, self.group_env);
                    self.groups.push(g);
                    self.env.push(self.group_env);
                    assert(groups_view(self.groups@, self.env@) =~= before.push(gv));
                }
            },
            None => {},
        }
    }
}

/// Groups the command-line arguments into upstream groups, leaving paths
/// as written. Also says, for each group, whether its path came from
/// `ssh_auth_sock` (the value of `SSH_AUTH_SOCK`) rather than from an
/// `--upstream` argument.
pub fn group_args(args: &[String], ssh_auth_sock: Option<String>) -> (r: (Vec<UpstreamGroup>, Vec<bool>))
    ensures
        r.0@.len() == r.1@.len(),
        groups_view(r.0@, r.1@) == spec_group_args(
            args@.map_values(|a: String| a@),
            match ssh_auth_sock {
                Some(s) => Some(s@),
                None => None,
            },
        ),
{
    let ghost a = args@.map_values(|a: String| a@);
    let ghost ssh = match &ssh_auth_sock {
        Some(s) => Some(s@),
        None => None,
    };
    let mut st = Grouping { groups: Vec::new(), env: Vec::new(), group: None, group_env: false, socket: None };
    assert(st.view_state().0 =~= Seq::<SpecGroup>::empty());
    let mut i: usize = 0;
    while i < args.len()
        invariant
            i <= args@.len(),
            a == args@.map_values(|a: String| a@),
            st.wf(),
            group_walk(a, 0, (Seq::empty(), None, None), ssh) == group_walk(a, i as int, st.view_state(), ssh),
            ssh == match ssh_auth_sock {
                Some(s) => Some(s@),
                None => None,
            },
        decreases args@.len() - i,
    {
        proof {
            reveal_strlit("--upstream=");
            reveal_strlit("--socket=");
        }
        let ghost st0 = st.view_state();
        let ghost (st2, j) = group_step(a, i as int, st0, ssh);
        let arg = &args[i];
        assert(a[i as int] == arg@);
        let is_upstream = crate::text::str_eq(arg.as_str(), "--upstream");
        let upstream_eq = crate::text::str_strip_prefix(arg.as_str(), "--upstream=");
        let is_socket = crate::text::str_eq(arg.as_str(), "--socket");
        let socket_eq = crate::text::str_strip_prefix(arg.as_str(), "--socket=");
        if is_upstream || upstream_eq.is_some() {
            st.flush_socket();
            st.flush_group();
            let (path, next) = if is_upstream {
                if i + 1 < args.len() {
                    assert(a[i + 1] == args@[i + 1]@);
                    (Some(args[i + 1].clone()), i + 2)
                } else {
                    (None, i + 1)
                }
            } else {
                (upstream_eq, i + 1)
            };
            match path {
                Some(p) => {
                    st.group = Some(UpstreamGroup { path: p, sockets: Vec::new() });
                    st.group_env = false;
                    assert(group_view(st.group->Some_0, false).2 =~= Seq::<SpecSocket>::empty());
                },
                None => {},
            }
            i = next;
        } else if is_socket || socket_eq.is_some() {
            st.flush_socket();
            let (path, next) = if is_socket {
                if i + 1 < args.len() {
                    assert(a[i + 1] == args@[i + 1]@);
                    (Some(args[i + 1].clone()), i + 2)
                } else {
                    (None, i + 1)
                }
            } else {
                (socket_eq, i + 1)
            };
            match path {
                Some(p) => {
                    if st.group.is_none() {
                        match &ssh_auth_sock {
                            Some(s) => {
                                st.group = Some(UpstreamGroup { path: s.clone(), sockets: Vec::new() });
                                st.group_env = true;
                                assert(group_view(st.group->Some_0, true).2 =~= Seq::<SpecSocket>::empty());
                            },
                            None => {},
                        }
                    }
                    st.socket = Some(SocketSpec { path: p, filters: Vec::new() });
                    assert(socket_view(st.socket->Some_0).1 =~= Seq::<Seq<char>>::empty());
                },
                None => {},
            }
            i = next;
        } else if st.socket.is_some() {
            let s = arg.as_str();
            let global = crate::text::str_starts_with(s, "--config") || crate::text::str_starts_with(s, "--verbose")
                || crate::text::str_starts_with(s, "--quiet") || crate::text::str_starts_with(s, "--name")
                || crate::text::str_starts_with(s, "--start") || crate::text::str_starts_with(s, "--enable")
                || crate::text::str_starts_with(s, "--purge") || crate::text::str_eq(s, "-h")
                || crate::text::str_eq(s, "--help") || crate::text::str_eq(s, "-V") || crate::text::str_eq(
                s,
                "--version",
            );
            if global {
                if (crate::text::str_eq(s, "--config") || crate::text::str_eq(s, "--name")) && i + 1 < args.len() {
                    i = i + 2;
                } else {
                    i = i + 1;
                }
            } else if !crate::text::str_starts_with(s, "--") {
                match &mut st.socket {
                    Some(sock) => {
                        socket_push_filter(sock, arg);
                    },
                    None => {},
                }
                i = i + 1;
            } else {
                i = i + 1;
            }
        } else {
            i = i + 1;
        }
        assert(st.view_state() == st2 && i == j);
    }
    st.flush_socket();
    st.flush_group();
    (st.groups, st.env)
}

/// The path kept after an expansion: its result, or the path as written
/// when expansion failed.
pub open spec fn kept(path: Seq<char>, expanded: Result<String, Error>) -> Seq<char> {
    match expanded {
        Ok(p) => p@,
        Err(_) => path,
    }
}

/// An expansion outcome that can come from expanding `path`: a path with
/// nothing to expand comes back unchanged.
pub open spec fn expansion_fits(path: Seq<char>, expanded: Result<String, Error>) -> bool {
    plain_path(path) ==> (expanded is Ok && expanded->Ok_0@ == path)
}

/// The path kept after an expansion, as [`kept`] states.
pub fn keep_on_error(path: &str, expanded: Result<String, Error>) -> (r: String)
    ensures
        r@ == kept(path@, expanded),
{
    match expanded {
        Ok(p) => p,
        Err(_) => path.to_string(),
    }
}

/// The views of expansion outcomes per group.
pub open spec fn outcome_lists_view(v: Seq<Vec<Result<String, Error>>>) -> Seq<Seq<Result<String, Error>>> {
    v.map_values(|o: Vec<Result<String, Error>>| o@)
}

/// `r` is the grouping `g` with paths expanded by the outcomes: each group
/// path that does not come from `SSH_AUTH_SOCK` by `gp`, each socket path
/// by `sp`; filters unchanged.
pub open spec fn groups_expanded(
    r: Seq<UpstreamGroup>,
    g: Seq<SpecGroup>,
    gp: Seq<Result<String, Error>>,
    sp: Seq<Seq<Result<String, Error>>>,
) -> bool {
    &&& r.len() == g.len()
    &&& gp.len() == g.len()
    &&& sp.len() == g.len()
    &&& forall|i: int| 0 <= i < g.len() ==> {
        &&& (#[trigger] r[i]).path@ == if g[i].1 {
            g[i].0
        } else {
            kept(g[i].0, gp[i])
        }
        &&& r[i].sockets@.len() == g[i].2.len()
        &&& sp[i].len() == g[i].2.len()
        &&& forall|k: int| 0 <= k < g[i].2.len() ==> #[trigger] socket_view(r[i].sockets@[k]) == (
            kept(g[i].2[k].0, sp[i][k]),
            g[i].2[k].1,
        )
    }
}

/// The outcomes can come from expanding the grouping's paths.
pub open spec fn outcomes_fit(
    g: Seq<SpecGroup>,
    gp: Seq<Result<String, Error>>,
    sp: Seq<Seq<Result<String, Error>>>,
) -> bool {
    &&& gp.len() == g.len()
    &&& sp.len() == g.len()
    &&& forall|i: int| 0 <= i < g.len() ==> {
        &&& (!g[i].1 ==> expansion_fits(g[i].0, #[trigger] gp[i]))
        &&& sp[i].len() == g[i].2.len()
        &&& forall|k: int| 0 <= k < g[i].2.len() ==> expansion_fits(g[i].2[k].0, #[trigger] sp[i][k])
    }
}

/// `r` is the grouping `g` with its paths expanded by outcomes that can
/// come from expanding them.
pub open spec fn expanded_by(
    r: Seq<UpstreamGroup>,
    g: Seq<SpecGroup>,
    gp: Seq<Result<String, Error>>,
    sp: Seq<Seq<Result<String, Error>>>,
) -> bool {
    outcomes_fit(g, gp, sp) && groups_expanded(r, g, gp, sp)
}

/// The outcomes for one group can come from expanding its paths.
pub open spec fn group_outcomes_fit(g: SpecGroup, gp: Result<String, Error>, os: Seq<Result<String, Error>>) -> bool {
    &&& (!g.1 ==> expansion_fits(g.0, gp))
    &&& os.len() == g.2.len()
    &&& forall|k: int| 0 <= k < g.2.len() ==> expansion_fits(g.2[k].0, #[trigger] os[k])
}

/// Puts the expanded paths into the groups: `group_paths` holds the
/// expansion outcome of each group's path (not used for a group from
/// `SSH_AUTH_SOCK`, `env`), `socket_paths` those of each group's socket
/// paths; a failed expansion keeps the path as written.
pub fn expand_group_paths(
    groups: Vec<UpstreamGroup>,
    env: Vec<bool>,
    group_paths: Vec<Result<String, Error>>,
    socket_paths: Vec<Vec<Result<String, Error>>>,
) -> (r: Vec<UpstreamGroup>)
    requires
        env@.len() == groups@.len(),
        group_paths@.len() == groups@.len(),
        socket_paths@.len() == groups@.len(),
        forall|i: int| 0 <= i < groups@.len() ==> (#[trigger] socket_paths@[i])@.len() == groups@[i].sockets@.len(),
    ensures
        groups_expanded(r@, groups_view(groups@, env@), group_paths@, outcome_lists_view(socket_paths@)),
{
    let ghost g = groups_view(groups@, env@);
    let ghost gpv = group_paths@;
    let ghost spv = outcome_lists_view(socket_paths@);
    let ghost all = groups@;
    let n = groups.len();
    let mut src = groups;
    let mut gps = group_paths;
    let mut sps = socket_paths;
    let mut out: Vec<UpstreamGroup> = Vec::new();
    let mut i: usize = 0;
    while i < n
        invariant
            n == all.len(),
            i <= n,
            env@.len() == n,
            gpv.len() == n,
            spv.len() == n,
            g == groups_view(all, env@),
            forall|j: int| 0 <= j < n ==> (#[trigger] spv[j]).len() == all[j].sockets@.len(),
            src@.len() == n - i,
            gps@.len() == n - i,
            sps@.len() == n - i,
            forall|j: int| 0 <= j < src@.len() ==> #[trigger] src@[j] == all[i + j],
            forall|j: int| 0 <= j < gps@.len() ==> #[trigger] gps@[j] == gpv[i + j],
            forall|j: int| 0 <= j < sps@.len() ==> (#[trigger] sps@[j])@ == spv[i + j],
            out@.len() == i,
            forall|j: int| 0 <= j < i ==> {
                &&& (#[trigger] out@[j]).path@ == if env@[j] {
                    all[j].path@
                } else {
                    kept(all[j].path@, gpv[j])
                }
                &&& out@[j].sockets@.len() == all[j].sockets@.len()
                &&& forall|k: int| 0 <= k < all[j].sockets@.len() ==> #[trigger] socket_view(out@[j].sockets@[k]) == (
                    kept(socket_view(all[j].sockets@[k]).0, spv[j][k]),
                    socket_view(all[j].sockets@[k]).1,
                )
            },
        decreases n - i,
    {
        let grp = src.remove(0);
        let gp = gps.remove(0);
        let mut outcomes = sps.remove(0);
        let path = if env[i] {
            grp.path
        } else {
            keep_on_error(grp.path.as_str(), gp)
        };
        let mut sockets: Vec<SocketSpec> = Vec::new();
        let mut socks = grp.sockets;
        let ghost gs = socks@;
        let ghost os = outcomes@;
        let mut k: usize = 0;
        let m = socks.len();
        while k < m
            invariant
                k <= m,
                m == gs.len(),
                os.len() == m,
                socks@.len() == m - k,
                outcomes@.len() == m - k,
                forall|j: int| 0 <= j < socks@.len() ==> #[trigger] socks@[j] == gs[k + j],
                forall|j: int| 0 <= j < outcomes@.len() ==> #[trigger] outcomes@[j] == os[k + j],
                sockets@.len() == k,
                forall|j: int| 0 <= j < k ==> #[trigger] socket_view(sockets@[j]) == (
                    kept(socket_view(gs[j]).0, os[j]),
                    socket_view(gs[j]).1,
                ),
            decreases m - k,
        {
            let s = socks.remove(0);
            let o = outcomes.remove(0);
            let p = keep_on_error(s.path.as_str(), o);
            sockets.push(SocketSpec { path: p, filters: s.filters });
            k = k + 1;
        }
        out.push(UpstreamGroup { path, sockets });
        i = i + 1;
    }
    proof {
        assert forall|i: int| 0 <= i < g.len() implies {
            &&& (#[trigger] out@[i]).path@ == if g[i].1 {
                g[i].0
            } else {
                kept(g[i].0, gpv[i])
            }
            &&& out@[i].sockets@.len() == g[i].2.len()
            &&& spv[i].len() == g[i].2.len()
            &&& forall|k: int| 0 <= k < g[i].2.len() ==> #[trigger] socket_view(out@[i].sockets@[k]) == (
                kept(g[i].2[k].0, spv[i][k]),
                g[i].2[k].1,
            )
        } by {
            assert(g[i] == group_view(all[i], env@[i]));
            assert forall|k: int| 0 <= k < g[i].2.len() implies #[trigger] socket_view(out@[i].sockets@[k]) == (
                kept(g[i].2[k].0, spv[i][k]),
                g[i].2[k].1,
            ) by {
                assert(g[i].2[k] == socket_view(all[i].sockets@[k]));
            }
        }
    }
    out
}

/// Parses upstream groups from the program's command line `args`
/// (`ssh_auth_sock` is the value of `SSH_AUTH_SOCK`).
///
/// Each `--upstream` starts a new group; subsequent `--socket PATH`
/// arguments belong to it, and the plain arguments after a socket path are
/// its filters. Sockets given before any `--upstream` belong to a group
/// for `SSH_AUTH_SOCK`. Paths from arguments have `~` and environment
/// variables expanded, as [`expand_group_paths`] states of the expansion
/// outcomes; what an outcome is depends on the environment, except that a
/// path with nothing to expand comes back unchanged.
pub fn parse_upstream_groups_from_args(args: &[String], ssh_auth_sock: Option<String>) -> (r: Vec<UpstreamGroup>)
    ensures
        groups_match(
            r@,
            spec_group_args(
                args@.map_values(|a: String| a@),
                match ssh_auth_sock {
                    Some(s) => Some(s@),
                    None => None,
                },
            ),
        ),
        exists|gp: Seq<Result<String, Error>>, sp: Seq<Seq<Result<String, Error>>>|
            #[trigger] expanded_by(
                r@,
                spec_group_args(strings_view(args@), opt_view(ssh_auth_sock)),
                gp,
                sp,
            ),
{
    let ghost a = args@.map_values(|a: String| a@);
    let ghost ssh = match &ssh_auth_sock {
        Some(s) => Some(s@),
        None => None,
    };
    let (groups, env) = group_args(args, ssh_auth_sock);
    let ghost g = groups_view(groups@, env@);
    let mut gps: Vec<Result<String, Error>> = Vec::new();
    let mut sps: Vec<Vec<Result<String, Error>>> = Vec::new();
    let mut i: usize = 0;
    while i < groups.len()
        invariant
            i <= groups@.len(),
            env@.len() == groups@.len(),
            g == groups_view(groups@, env@),
            gps@.len() == i,
            sps@.len() == i,
            forall|j: int| 0 <= j < i ==> group_outcomes_fit(#[trigger] g[j], gps@[j], sps@[j]@),
        decreases groups@.len() - i,
    {
        let gp: Result<String, Error> = if env[i] {
            Ok(groups[i].path.clone())
        } else {
            crate::config::expand_path(groups[i].path.as_str())
        };
        let mut os: Vec<Result<String, Error>> = Vec::new();
        let mut k: usize = 0;
        while k < groups[i].sockets.len()
            invariant
                i < groups@.len(),
                k <= groups@[i as int].sockets@.len(),
                os@.len() == k,
                forall|j: int| 0 <= j < k ==> expansion_fits(
                    groups@[i as int].sockets@[j].path@,
                    #[trigger] os@[j],
                ),
            decreases groups@[i as int].sockets@.len() - k,
        {
            os.push(crate::config::expand_path(groups[i].sockets[k].path.as_str()));
            k = k + 1;
        }
        proof {
            assert(g[i as int] == group_view(groups@[i as int], env@[i as int]));
            assert forall|k: int| 0 <= k < g[i as int].2.len() implies expansion_fits(
                g[i as int].2[k].0,
                #[trigger] os@[k],
            ) by {
                assert(g[i as int].2[k] == socket_view(groups@[i as int].sockets@[k]));
            }
            assert(group_outcomes_fit(g[i as int], gp, os@));
        }
        gps.push(gp);
        sps.push(os);
        i = i + 1;
    }
    let ghost gpv = gps@;
    let ghost spv = outcome_lists_view(sps@);
    proof {
        assert forall|j: int| 0 <= j < g.len() implies {
            &&& (!g[j].1 ==> expansion_fits(g[j].0, #[trigger] gpv[j]))
            &&& spv[j].len() == g[j].2.len()
            &&& forall|k: int| 0 <= k < g[j].2.len() ==> expansion_fits(g[j].2[k].0, #[trigger] spv[j][k])
        } by {
            assert(group_outcomes_fit(g[j], gps@[j], sps@[j]@));
            assert(spv[j] == sps@[j]@);
        }
        assert(outcomes_fit(g, gpv, spv));
        assert forall|i: int| 0 <= i < groups@.len() implies (#[trigger] sps@[i])@.len() == groups@[i].sockets@.len() by {
            assert(group_outcomes_fit(g[i], gps@[i], sps@[i]@));
            assert(g[i] == group_view(groups@[i], env@[i]));
        }
    }
    let r = expand_group_paths(groups, env, gps, sps);
    proof {
        assert forall|i: int| 0 <= i < r@.len() implies group_matches(#[trigger] r@[i], g[i]) by {
            assert forall|k: int| 0 <= k < g[i].2.len() && plain_path(g[i].2[k].0) implies #[trigger] socket_view(
                r@[i].sockets@[k],
            ).0 == g[i].2[k].0 by {
                assert(expansion_fits(g[i].2[k].0, spv[i][k]));
            }
            if !g[i].1 {
                assert(expansion_fits(g[i].0, gpv[i]));
            }
        }
        assert(strings_view(args@) =~= a);
        assert(ssh == opt_view(ssh_auth_sock));
        assert(g == spec_group_args(strings_view(args@), opt_view(ssh_auth_sock)));
        assert(expanded_by(r@, g, gpv, spv));
    }
    r
}

impl RunArgs {
    /// Parses upstream groups from the program's command line; see
    /// [`parse_upstream_groups_from_args`].
    pub fn parse_upstream_groups(&self, args: &[String], ssh_auth_sock: Option<String>) -> (r: Vec<UpstreamGroup>)
        ensures
            groups_match(
                r@,
                spec_group_args(
                    args@.map_values(|a: String| a@),
                    match ssh_auth_sock {
                        Some(s) => Some(s@),
                        None => None,
                    },
                ),
            ),
            exists|gp: Seq<Result<String, Error>>, sp: Seq<Seq<Result<String, Error>>>|
                #[trigger] expanded_by(r@, spec_group_args(strings_view(args@), opt_view(ssh_auth_sock)), gp, sp),
    {
        parse_upstream_groups_from_args(args, ssh_auth_sock)
    }
}


/// A fixed completion candidate: the value and its help text.
pub type SpecCandidate = (Seq<char>, Seq<char>);

/// The filter kinds offered when completing a socket's arguments, with
/// their help texts.
pub open spec fn filter_types() -> Seq<SpecCandidate> {
    seq![
        ("fingerprint="@, "Match by key fingerprint (SHA256:xxx)"@),
        ("comment="@, "Match by comment (glob or ~regex)"@),
        ("github="@, "Match keys from github.com/username.keys"@),
        ("type="@, "Match by key type (ed25519, rsa, ecdsa, dsa)"@),
        ("pubkey="@, "Match by full public key"@),
        ("keyfile="@, "Match keys from file"@),
        ("not-fingerprint="@, "Exclude by fingerprint"@),
        ("not-comment="@, "Exclude by comment"@),
        ("not-github="@, "Exclude GitHub user keys"@),
        ("not-type="@, "Exclude key type"@),
        ("not-pubkey="@, "Exclude by public key"@),
        ("not-keyfile="@, "Exclude keys from file"@),
    ]
}

/// The key types offered after `type=`.
pub open spec fn key_types() -> Seq<Seq<char>> {
    seq!["ed25519"@, "rsa"@, "ecdsa"@, "dsa"@]
}

/// The first `k` candidates whose value starts with `p` (and with `-`
/// when `neg_only`).
pub open spec fn candidates_with_prefix(cs: Seq<SpecCandidate>, p: Seq<char>, neg_only: bool, k: int) -> Seq<
    SpecCandidate,
>
    decreases k,
{
    if k <= 0 {
        Seq::empty()
    } else {
        let prev = candidates_with_prefix(cs, p, neg_only, k - 1);
        if spec_starts_with(cs[k - 1].0, p) && (!neg_only || spec_starts_with(cs[k - 1].0, "not-"@)) {
            prev.push(cs[k - 1])
        } else {
            prev
        }
    }
}

/// The key-type candidates among the first `k` that start with `typed`:
/// the value `kind` followed by the type, with help `help` followed by the
/// type and ` keys`.
pub open spec fn key_type_candidates(kind: Seq<char>, help: Seq<char>, typed: Seq<char>, k: int) -> Seq<SpecCandidate>
    decreases k,
{
    if k <= 0 {
        Seq::empty()
    } else {
        let prev = key_type_candidates(kind, help, typed, k - 1);
        let t = key_types()[k - 1];
        if spec_starts_with(t, typed) {
            prev.push((kind + t, help + t + " keys"@))
        } else {
            prev
        }
    }
}

/// What completing an argument of `--socket` offers: fixed candidates,
/// and, when paths are offered, the text before each path and the path
/// text completed.
pub open spec fn spec_socket_completion(current: Seq<char>) -> (Seq<SpecCandidate>, Option<(Seq<char>, Seq<char>)>) {
    if spec_contains(current, "="@) {
        if spec_starts_with(current, "type="@) {
            (key_type_candidates("type="@, ""@, current.skip(5), 4), None)
        } else if spec_starts_with(current, "not-type="@) {
            (key_type_candidates("not-type="@, "Exclude "@, current.skip(9), 4), None)
        } else if spec_starts_with(current, "-type="@) {
            (key_type_candidates("-type="@, "Exclude "@, current.skip(6), 4), None)
        } else if spec_starts_with(current, "keyfile="@) {
            (Seq::empty(), Some(("keyfile="@, current.skip(8))))
        } else if spec_starts_with(current, "not-keyfile="@) {
            (Seq::empty(), Some(("not-keyfile="@, current.skip(12))))
        } else if spec_starts_with(current, "-keyfile="@) {
            (Seq::empty(), Some(("-keyfile="@, current.skip(9))))
        } else {
            (Seq::empty(), None)
        }
    } else if spec_starts_with(current, "-"@) && !spec_starts_with(current, "--"@) {
        (candidates_with_prefix(filter_types(), "not-"@ + current.skip(1), true, 12), None)
    } else if spec_starts_with(current, "/"@) || spec_starts_with(current, "~"@) || spec_starts_with(current, "."@) {
        (Seq::empty(), Some((""@, current)))
    } else if current.len() == 0 {
        (filter_types(), None)
    } else {
        let cs = candidates_with_prefix(filter_types(), current, false, 12);
        if cs.len() == 0 {
            (Seq::empty(), Some((""@, current)))
        } else {
            (cs, None)
        }
    }
}

/// What completing a `--socket` argument offers.
#[derive(Debug)]
pub struct SocketCompletion {
    /// Fixed candidates: value and help text.
    pub candidates: Vec<(String, String)>,
    /// When paths are offered: the text put before each completed path,
    /// and the path text to complete.
    pub paths: Option<(String, String)>,
}

/// The views of candidates.
pub open spec fn candidates_view(v: Seq<(String, String)>) -> Seq<SpecCandidate> {
    v.map_values(|c: (String, String)| (c.0@, c.1@))
}

fn push_candidate(v: &mut Vec<(String, String)>, value: String, help: String)
    ensures
        candidates_view(final(v)@) == candidates_view(old(v)@).push((value@, help@)),
{
    v.push((value, help));
    assert(candidates_view(final(v)@) =~= candidates_view(old(v)@).push((value@, help@)));
}

/// The filter kinds, as [`filter_types`] lists them.
fn filter_type_list() -> (r: Vec<(String, String)>)
    ensures
        candidates_view(r@) == filter_types(),
{
    let mut v: Vec<(String, String)> = Vec::new();
    push_candidate(&mut v, "fingerprint=".to_string(), "Match by key fingerprint (SHA256:xxx)".to_string());
    push_candidate(&mut v, "comment=".to_string(), "Match by comment (glob or ~regex)".to_string());
    push_candidate(&mut v, "github=".to_string(), "Match keys from github.com/username.keys".to_string());
    push_candidate(&mut v, "type=".to_string(), "Match by key type (ed25519, rsa, ecdsa, dsa)".to_string());
    push_candidate(&mut v, "pubkey=".to_string(), "Match by full public key".to_string());
    push_candidate(&mut v, "keyfile=".to_string(), "Match keys from file".to_string());
    push_candidate(&mut v, "not-fingerprint=".to_string(), "Exclude by fingerprint".to_string());
    push_candidate(&mut v, "not-comment=".to_string(), "Exclude by comment".to_string());
    push_candidate(&mut v, "not-github=".to_string(), "Exclude GitHub user keys".to_string());
    push_candidate(&mut v, "not-type=".to_string(), "Exclude key type".to_string());
    push_candidate(&mut v, "not-pubkey=".to_string(), "Exclude by public key".to_string());
    push_candidate(&mut v, "not-keyfile=".to_string(), "Exclude keys from file".to_string());
    assert(candidates_view(v@) =~= filter_types());
    v
}

/// The filter kinds that start with `p` (and with `not-` when `neg_only`).
fn filter_types_with_prefix(p: &str, neg_only: bool) -> (r: Vec<(String, String)>)
    ensures
        candidates_view(r@) == candidates_with_prefix(filter_types(), p@, neg_only, 12),
{
    let all = filter_type_list();
    let ghost fs = filter_types();
    assert(candidates_view(all@).len() == all@.len());
    let mut out: Vec<(String, String)> = Vec::new();
    let mut i: usize = 0;
    while i < all.len()
        invariant
            i <= all@.len(),
            all@.len() == 12,
            candidates_view(all@) == fs,
            fs == filter_types(),
            candidates_view(out@) == candidates_with_prefix(fs, p@, neg_only, i as int),
        decreases all@.len() - i,
    {
        assert(fs[i as int] == (all@[i as int].0@, all@[i as int].1@));
        let name = all[i].0.as_str();
        if str_starts_with(name, p) && (!neg_only || str_starts_with(name, "not-")) {
            push_candidate(&mut out, all[i].0.clone(), all[i].1.clone());
        }
        i = i + 1;
    }
    out
}

/// The key-type candidates for the typed text, as [`key_type_candidates`]
/// states.
fn key_type_list(kind: &str, help: &str, typed: &str) -> (r: Vec<(String, String)>)
    ensures
        candidates_view(r@) == key_type_candidates(kind@, help@, typed@, 4),
{
    let mut out: Vec<(String, String)> = Vec::new();
    let types: [&str; 4] = ["ed25519", "rsa", "ecdsa", "dsa"];
    let mut i: usize = 0;
    while i < 4
        invariant
            i <= 4,
            types@.len() == 4,
            forall|j: int| 0 <= j < 4 ==> #[trigger] types@[j]@ == key_types()[j],
            candidates_view(out@) == key_type_candidates(kind@, help@, typed@, i as int),
        decreases 4 - i,
    {
        let t = types[i];
        assert(t@ == key_types()[i as int]);
        if str_starts_with(t, typed) {
            let value = concat_str(kind, t);
            let h1 = concat_str(help, t);
            let h2 = concat_str(h1.as_str(), " keys");
            push_candidate(&mut out, value, h2);
        }
        i = i + 1;
    }
    out
}

/// What completing an argument of `--socket` offers, as
/// [`spec_socket_completion`] states.
pub fn socket_completion(current: &str) -> (r: SocketCompletion)
    ensures
        (candidates_view(r.candidates@), match r.paths {
            Some((a, b)) => Some((a@, b@)),
            None => None,
        }) == spec_socket_completion(current@),
{
    proof {
        reveal_strlit("");
        reveal_strlit("type=");
        reveal_strlit("-type=");
        reveal_strlit("keyfile=");
        reveal_strlit("-keyfile=");
        reveal_strlit("not-type=");
        reveal_strlit("not-keyfile=");
        reveal_strlit("-");
    }
    if crate::text::str_contains(current, "=") {
        match str_strip_prefix(current, "type=") {
            Some(rest) => {
                return SocketCompletion { candidates: key_type_list("type=", "", rest.as_str()), paths: None };
            },
            None => {},
        }
        match str_strip_prefix(current, "not-type=") {
            Some(rest) => {
                return SocketCompletion {
                    candidates: key_type_list("not-type=", "Exclude ", rest.as_str()),
                    paths: None,
                };
            },
            None => {},
        }
        match str_strip_prefix(current, "-type=") {
            Some(rest) => {
                return SocketCompletion {
                    candidates: key_type_list("-type=", "Exclude ", rest.as_str()),
                    paths: None,
                };
            },
            None => {},
        }
        match str_strip_prefix(current, "keyfile=") {
            Some(rest) => {
                return SocketCompletion { candidates: Vec::new(), paths: Some(("keyfile=".to_string(), rest)) };
            },
            None => {},
        }
        match str_strip_prefix(current, "not-keyfile=") {
            Some(rest) => {
                return SocketCompletion { candidates: Vec::new(), paths: Some(("not-keyfile=".to_string(), rest)) };
            },
            None => {},
        }
        match str_strip_prefix(current, "-keyfile=") {
            Some(rest) => {
                return SocketCompletion { candidates: Vec::new(), paths: Some(("-keyfile=".to_string(), rest)) };
            },
            None => {},
        }
        return SocketCompletion { candidates: Vec::new(), paths: None };
    }
    if str_starts_with(current, "-") && !str_starts_with(current, "--") {
        let rest = match str_strip_prefix(current, "-") {
            Some(r) => r,
            None => String::new(),
        };
        let negated = concat_str("not-", rest.as_str());
        return SocketCompletion { candidates: filter_types_with_prefix(negated.as_str(), true), paths: None };
    }
    if str_starts_with(current, "/") || str_starts_with(current, "~") || str_starts_with(current, ".") {
        return SocketCompletion { candidates: Vec::new(), paths: Some((String::new(), current.to_string())) };
    }
    let cv = crate::text::chars_of(current);
    if cv.len() == 0 {
        return SocketCompletion { candidates: filter_type_list(), paths: None };
    }
    let cs = filter_types_with_prefix(current, false);
    if cs.len() == 0 {
        SocketCompletion { candidates: cs, paths: Some((String::new(), current.to_string())) }
    } else {
        SocketCompletion { candidates: cs, paths: None }
    }
}

/// The path listed when completing `current`: a leading `~` (and a `/`
/// after it) is replaced by the home directory when that is known.
pub open spec fn spec_completion_path(current: Seq<char>, home: Option<Seq<char>>) -> Seq<char> {
    match home {
        Some(h) => if spec_starts_with(current, "~"@) {
            let rest = current.skip(1);
            let rest2 = if spec_starts_with(rest, "/"@) {
                rest.skip(1)
            } else {
                rest
            };
            spec_path_join(h, rest2)
        } else {
            current
        },
        None => current,
    }
}

/// The path listed when completing `current`, as
/// [`spec_completion_path`] states.
pub fn completion_path(current: &str, home: Option<String>) -> (r: String)
    ensures
        r@ == spec_completion_path(
            current@,
            match home {
                Some(h) => Some(h@),
                None => None,
            },
        ),
{
    proof {
        reveal_strlit("~");
        reveal_strlit("/");
    }
    match &home {
        Some(h) => match str_strip_prefix(current, "~") {
            Some(rest) => {
                let rest2 = match str_strip_prefix(rest.as_str(), "/") {
                    Some(r2) => r2,
                    None => rest,
                };
                crate::utils::path::path_join(h.as_str(), rest2.as_str())
            },
            None => current.to_string(),
        },
        None => current.to_string(),
    }
}

/// The directory whose entries are listed, and the prefix they must have:
/// a directory is listed whole; otherwise its parent (`.` when it has
/// none) is listed for entries starting with its file name (empty when it
/// has none).
pub open spec fn spec_completion_dir(path: Seq<char>, is_dir: bool) -> (Seq<char>, Seq<char>) {
    if is_dir {
        (path, Seq::empty())
    } else {
        (
            match spec_parent(path) {
                Some(d) => d,
                None => "."@,
            },
            match spec_file_name(path) {
                Some(n) => n,
                None => Seq::empty(),
            },
        )
    }
}

/// The directory to list and the prefix of its entries, as
/// [`spec_completion_dir`] states; `is_dir` says whether `path` is a
/// directory.
pub fn completion_dir(path: &str, is_dir: bool) -> (r: (String, String))
    ensures
        (r.0@, r.1@) == spec_completion_dir(path@, is_dir),
{
    if is_dir {
        return (path.to_string(), String::new());
    }
    let dir = match crate::utils::path::path_parent(path) {
        Some(d) => d,
        None => ".".to_string(),
    };
    let prefix = match crate::utils::path::path_file_name(path) {
        Some(n) => n,
        None => String::new(),
    };
    (dir, prefix)
}

/// How a listed entry is shown: an entry whose name starts with `prefix`
/// is shown by its full path, as `~/...` when `current` starts with `~`
/// and the path lies under the home directory; a directory gets a `/`
/// after it. Other entries are not shown.
pub open spec fn spec_completion_display(
    current: Seq<char>,
    home: Option<Seq<char>>,
    prefix: Seq<char>,
    name: Seq<char>,
    full_path: Seq<char>,
    is_dir: bool,
) -> Option<Seq<char>> {
    if !spec_starts_with(name, prefix) {
        None
    } else {
        let shown = match home {
            Some(h) => if spec_starts_with(current, "~"@) {
                match spec_strip_prefix(full_path, h) {
                    Some(rel) => "~/"@ + rel,
                    None => full_path,
                }
            } else {
                full_path
            },
            None => full_path,
        };
        Some(
            if is_dir {
                shown + "/"@
            } else {
                shown
            },
        )
    }
}

/// How a listed entry is shown, as [`spec_completion_display`] states.
pub fn completion_display(
    current: &str,
    home: Option<String>,
    prefix: &str,
    name: &str,
    full_path: &str,
    is_dir: bool,
) -> (r: Option<String>)
    ensures
        match r {
            Some(s) => spec_completion_display(
                current@,
                match home {
                    Some(h) => Some(h@),
                    None => None,
                },
                prefix@,
                name@,
                full_path@,
                is_dir,
            ) == Some(s@),
            None => spec_completion_display(
                current@,
                match home {
                    Some(h) => Some(h@),
                    None => None,
                },
                prefix@,
                name@,
                full_path@,
                is_dir,
            ) is None,
        },
{
    if !str_starts_with(name, prefix) {
        return None;
    }
    let shown = match &home {
        Some(h) => if str_starts_with(current, "~") {
            match crate::utils::path::path_strip_prefix(full_path, h.as_str()) {
                Some(rel) => concat_str("~/", rel.as_str()),
                None => full_path.to_string(),
            }
        } else {
            full_path.to_string()
        },
        None => full_path.to_string(),
    };
    if is_dir {
        Some(concat_str(shown.as_str(), "/"))
    } else {
        Some(shown)
    }
}

} // verus!
