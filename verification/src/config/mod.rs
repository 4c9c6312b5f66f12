//! Configuration: the settings file's values, their defaults, and their
//! expansion into paths and durations.

pub mod duration;
pub mod file;

use vstd::prelude::*;
use crate::error::Error;
use crate::config::duration::{spec_duration_error, spec_duration_in_range, spec_parse_duration};

pub use crate::config::duration::parse_duration;

verus! {

/// Main configuration.
#[derive(Debug)]
pub struct Config {
    /// Path to the upstream SSH agent socket; environment variables and
    /// `~` are expanded.
    pub upstream: String,
    /// Path of the JSON-lines log file, if any.
    pub log_path: Option<String>,
    /// Socket definitions, by name.
    pub sockets: Vec<(String, SocketConfig)>,
    /// GitHub key fetching settings.
    pub github: GithubConfig,
}

/// Configuration of one filtered socket.
#[derive(Debug)]
pub struct SocketConfig {
    /// Path of the socket file; environment variables and `~` are expanded.
    pub path: String,
    /// Upstream agent socket for this socket, when it is not the default
    /// one; environment variables and `~` are expanded.
    pub upstream: Option<String>,
    /// The socket's filters: a list of filters that must all accept a key,
    /// or a list of alternatives, each a filter or a list of filters that
    /// must all accept a key (see [`spec_filter_groups`]).
    pub filters: Vec<FilterEntry>,
}

/// One entry of a socket's filter list.
#[derive(Debug)]
pub enum FilterEntry {
    /// A filter.
    Rule(String),
    /// Filters that must all accept a key.
    All(Vec<String>),
}

/// The text of an entry that is a filter.
pub open spec fn entry_rule(e: FilterEntry) -> Seq<char> {
    match e {
        FilterEntry::Rule(s) => s@,
        FilterEntry::All(_) => Seq::empty(),
    }
}

/// The filters of an entry taken as a group.
pub open spec fn entry_group(e: FilterEntry) -> Seq<Seq<char>> {
    match e {
        FilterEntry::Rule(s) => seq![s@],
        FilterEntry::All(v) => v@.map_values(|f: String| f@),
    }
}

/// The filter groups (alternatives; the filters of a group must all accept
/// a key) that a filter list stands for: a list of filters alone is one
/// group (none when the list is empty); in a list that holds a list, each
/// entry is a group of its own.
pub open spec fn spec_filter_groups(entries: Seq<FilterEntry>) -> Seq<Seq<Seq<char>>> {
    if forall|i: int| 0 <= i < entries.len() ==> (#[trigger] entries[i]) is Rule {
        if entries.len() == 0 {
            Seq::empty()
        } else {
            seq![entries.map_values(|e: FilterEntry| entry_rule(e))]
        }
    } else {
        entries.map_values(|e: FilterEntry| entry_group(e))
    }
}

/// The view of filter groups.
pub open spec fn filter_lists_view(v: Seq<Vec<String>>) -> Seq<Seq<Seq<char>>> {
    v.map_values(|g: Vec<String>| g@.map_values(|f: String| f@))
}

/// The filter groups a filter list stands for, as [`spec_filter_groups`]
/// states.
pub fn filter_groups(entries: &[FilterEntry]) -> (r: Vec<Vec<String>>)
    ensures
        filter_lists_view(r@) == spec_filter_groups(entries@),
{
    let mut all_rules = true;
    let mut i: usize = 0;
    while i < entries.len()
        invariant
            i <= entries@.len(),
            all_rules <==> forall|j: int| 0 <= j < i ==> (#[trigger] entries@[j]) is Rule,
        decreases entries@.len() - i,
    {
        if let FilterEntry::All(_) = &entries[i] {
            all_rules = false;
        }
        i = i + 1;
    }
    let mut out: Vec<Vec<String>> = Vec::new();
    if all_rules {
        if entries.len() == 0 {
            assert(filter_lists_view(out@) =~= spec_filter_groups(entries@));
            return out;
        }
        let mut group: Vec<String> = Vec::new();
        let mut k: usize = 0;
        while k < entries.len()
            invariant
                k <= entries@.len(),
                forall|j: int| 0 <= j < entries@.len() ==> (#[trigger] entries@[j]) is Rule,
                group@.len() == k,
                forall|j: int| 0 <= j < k ==> #[trigger] group@[j]@ == entry_rule(entries@[j]),
            decreases entries@.len() - k,
        {
            match &entries[k] {
                FilterEntry::Rule(f) => group.push(f.clone()),
                FilterEntry::All(_) => {
                    assert(entries@[k as int] is Rule);
                },
            }
            k = k + 1;
        }
        out.push(group);
        assert(filter_lists_view(out@)[0] =~= entries@.map_values(|e: FilterEntry| entry_rule(e)));
        assert(filter_lists_view(out@) =~= spec_filter_groups(entries@));
        out
    } else {
        let mut k: usize = 0;
        while k < entries.len()
            invariant
                k <= entries@.len(),
                out@.len() == k,
                forall|j: int| 0 <= j < k ==> filter_lists_view(out@)[j] == entry_group(#[trigger] entries@[j]),
            decreases entries@.len() - k,
        {
            let g: Vec<String> = match &entries[k] {
                FilterEntry::Rule(f) => {
                    let mut g: Vec<String> = Vec::new();
                    g.push(f.clone());
                    assert(g@.map_values(|f: String| f@) =~= seq![f@]);
                    g
                },
                FilterEntry::All(v) => {
                    let g = clone_strings(v);
                    assert(g@.map_values(|f: String| f@) =~= v@.map_values(|f: String| f@));
                    g
                },
            };
            let ghost prev = filter_lists_view(out@);
            out.push(g);
            assert(filter_lists_view(out@) =~= prev.push(g@.map_values(|f: String| f@)));
            k = k + 1;
        }
        assert(filter_lists_view(out@) =~= spec_filter_groups(entries@));
        out
    }
}

/// GitHub key fetching settings.
#[derive(Debug)]
pub struct GithubConfig {
    /// How long fetched keys stay valid, such as `1h`.
    pub cache_ttl: String,
    /// How long a fetch may take, such as `10s`.
    pub timeout: String,
}

/// The default upstream socket: `$SSH_AUTH_SOCK`.
pub fn default_upstream() -> (s: String)
    ensures
        s@ == "$SSH_AUTH_SOCK"@,
{
    "$SSH_AUTH_SOCK".to_string()
}

/// The default cache lifetime of GitHub keys: `1h`.
pub fn default_cache_ttl() -> (s: String)
    ensures
        s@ == "1h"@,
{
    "1h".to_string()
}

/// The default timeout of GitHub key fetches: `10s`.
pub fn default_timeout() -> (s: String)
    ensures
        s@ == "10s"@,
{
    "10s".to_string()
}

impl Default for GithubConfig {
    fn default() -> (g: GithubConfig)
        ensures
            g.cache_ttl@ == "1h"@,
            g.timeout@ == "10s"@,
    {
        GithubConfig { cache_ttl: default_cache_ttl(), timeout: default_timeout() }
    }
}

impl Default for Config {
    fn default() -> (c: Config)
        ensures
            c.upstream@ == "$SSH_AUTH_SOCK"@,
            c.log_path is None,
            c.sockets@.len() == 0,
            c.github.cache_ttl@ == "1h"@,
            c.github.timeout@ == "10s"@,
    {
        Config {
            upstream: default_upstream(),
            log_path: None,
            sockets: Vec::new(),
            github: GithubConfig::default(),
        }
    }
}

/// Configuration with all paths expanded and durations parsed.
#[derive(Debug)]
pub struct ExpandedConfig {
    /// Resolved path of the upstream SSH agent socket.
    pub upstream: String,
    /// Resolved path of the log file.
    pub log_path: Option<String>,
    /// Socket definitions with expanded paths.
    pub sockets: Vec<(String, ExpandedSocketConfig)>,
    /// GitHub settings with parsed durations.
    pub github: ExpandedGithubConfig,
}

/// Socket configuration with expanded paths.
#[derive(Debug)]
pub struct ExpandedSocketConfig {
    /// Resolved socket path.
    pub path: String,
    /// Resolved upstream for this socket, when it is not the default one.
    pub upstream: Option<String>,
    /// Filter groups (alternatives; the filters of a group must all accept
    /// a key); no group lets every key through.
    pub filters: Vec<Vec<String>>,
}

/// GitHub settings with parsed durations.
#[derive(Debug, Clone, Copy)]
pub struct ExpandedGithubConfig {
    /// Cache lifetime, in seconds.
    pub cache_ttl: u64,
    /// Timeout, in seconds.
    pub timeout: u64,
}

/// A path with nothing to expand: no `$`, and no leading `~`.
pub open spec fn plain_path(p: Seq<char>) -> bool {
    &&& !(p.len() > 0 && p[0] == '~')
    &&& forall|i: int| 0 <= i < p.len() ==> p[i] != '$'
}

/// `e` is the error of a failed expansion of `path`: a configuration
/// error whose message starts with `Failed to expand path '<path>': ` and
/// goes on with what the lookup reported.
pub open spec fn expansion_error(path: Seq<char>, e: Error) -> bool {
    e matches Error::Config(m) && {
        let prefix = "Failed to expand path '"@ + path + "': "@;
        m@.len() >= prefix.len() && m@.take(prefix.len() as int) == prefix
    }
}

/// `shellexpand::full`: expands `~` and environment variables in a path.
/// A path with nothing to expand comes back unchanged; a failure (a
/// variable that cannot be looked up) becomes a configuration error naming
/// the path and the lookup's message. What other paths become depends on
/// the environment and the home directory, so nothing more is stated.
#[verifier::external_body]
pub fn expand_path(path: &str) -> (r: Result<String, Error>)
    ensures
        plain_path(path@) ==> r is Ok && r->Ok_0@ == path@,
        r matches Err(e) ==> expansion_error(path@, e),
{
    match shellexpand::full(path) {
        Ok(s) => Ok(s.into_owned()),
        Err(e) => Err(Error::Config(format!("Failed to expand path '{}': {}", path, e))),
    }
}

/// Clones a list of strings.
pub fn clone_strings(v: &Vec<String>) -> (r: Vec<String>)
    ensures
        r@.len() == v@.len(),
        forall|i: int| 0 <= i < v@.len() ==> #[trigger] r@[i]@ == v@[i]@,
{
    let mut out: Vec<String> = Vec::new();
    let mut i: usize = 0;
    while i < v.len()
        invariant
            i <= v@.len(),
            out@.len() == i,
            forall|j: int| 0 <= j < i ==> #[trigger] out@[j]@ == v@[j]@,
        decreases v@.len() - i,
    {
        out.push(v[i].clone());
        i = i + 1;
    }
    out
}

/// The view of an optional text.
pub open spec fn opt_view(o: Option<String>) -> Option<Seq<char>> {
    match o {
        Some(s) => Some(s@),
        None => None,
    }
}

/// `e` is `c` with paths replaced by the given expansions (each socket's
/// path and upstream in `sockets`) and durations parsed: same log-path
/// presence, same socket names, and each socket's filters as its filter
/// groups, in order.
pub open spec fn expanded_from(
    e: ExpandedConfig,
    c: Config,
    upstream: Seq<char>,
    log_path: Option<Seq<char>>,
    sockets: Seq<(Seq<char>, Option<Seq<char>>)>,
) -> bool {
    &&& e.upstream@ == upstream
    &&& opt_view(e.log_path) == log_path
    &&& e.sockets@.len() == c.sockets@.len()
    &&& sockets.len() == c.sockets@.len()
    &&& forall|i: int| 0 <= i < c.sockets@.len() ==> {
        &&& (#[trigger] e.sockets@[i]).0@ == c.sockets@[i].0@
        &&& e.sockets@[i].1.path@ == sockets[i].0
        &&& opt_view(e.sockets@[i].1.upstream) == sockets[i].1
        &&& filter_lists_view(e.sockets@[i].1.filters@) == spec_filter_groups(c.sockets@[i].1.filters@)
    }
    &&& spec_parse_duration(c.github.cache_ttl@) == Some(e.github.cache_ttl as int)
    &&& spec_parse_duration(c.github.timeout@) == Some(e.github.timeout as int)
}

/// No two of `names` are the same (socket names are keys of a table).
pub open spec fn names_distinct(names: Seq<Seq<char>>) -> bool {
    forall|i: int, j: int| 0 <= i < j < names.len() ==> names[i] != names[j]
}

/// The expansion of a socket's path and upstream.
pub type SocketExpansion = Result<(String, Option<String>), Error>;

/// The view of a successful socket expansion.
pub open spec fn expansion_view(r: SocketExpansion) -> (Seq<char>, Option<Seq<char>>) {
    (r->Ok_0.0@, opt_view(r->Ok_0.1))
}

/// The expansion at `k` is the first of `results` that failed.
pub open spec fn first_failed(results: Seq<SocketExpansion>, k: int) -> bool {
    &&& results[k] is Err
    &&& forall|j: int| 0 <= j < k ==> #[trigger] results[j] is Ok
}

/// The views of all expansions, when all succeeded.
pub open spec fn all_expanded(results: Seq<SocketExpansion>) -> Option<Seq<(Seq<char>, Option<Seq<char>>)>> {
    if forall|i: int| 0 <= i < results.len() ==> #[trigger] results[i] is Ok {
        Some(results.map_values(|r: SocketExpansion| expansion_view(r)))
    } else {
        None
    }
}

impl Config {
    /// Every path of the configuration (upstream, log file, sockets and
    /// their upstreams) has nothing to expand.
    pub open spec fn paths_plain(&self) -> bool {
        &&& plain_path(self.upstream@)
        &&& (self.log_path matches Some(l) ==> plain_path(l@))
        &&& forall|i: int| 0 <= i < self.sockets@.len() ==> {
            &&& plain_path(#[trigger] self.sockets@[i].1.path@)
            &&& (self.sockets@[i].1.upstream matches Some(u) ==> plain_path(u@))
        }
    }

    /// `e` is the error of a failed expansion of one of the configuration's
    /// paths (upstream, log file, a socket's path or upstream).
    pub open spec fn expansion_error_of(&self, e: Error) -> bool {
        ||| expansion_error(self.upstream@, e)
        ||| (self.log_path matches Some(l) && expansion_error(l@, e))
        ||| exists|i: int|
            0 <= i < self.sockets@.len() && (expansion_error((#[trigger] self.sockets@[i]).1.path@, e) || (
            self.sockets@[i].1.upstream matches Some(u) && expansion_error(u@, e)))
    }

    /// `e` is the error of a duration that does not parse: the cache
    /// lifetime's, else the timeout's.
    pub open spec fn duration_error_of(&self, e: Error) -> bool {
        e matches Error::Config(m) && if spec_parse_duration(self.github.cache_ttl@) is None {
            m@ == spec_duration_error(self.github.cache_ttl@)
        } else {
            spec_parse_duration(self.github.timeout@) is None && m@ == spec_duration_error(self.github.timeout@)
        }
    }

    /// Builds the expanded configuration from the expansions of its paths
    /// (upstream, log path if any, each socket's path and upstream, in
    /// order). Fails with the first failed expansion, else when a duration
    /// does not parse.
    pub fn assemble_expanded(
        &self,
        upstream: Result<String, Error>,
        log_path: Option<Result<String, Error>>,
        socket_expansions: Vec<SocketExpansion>,
    ) -> (r: Result<ExpandedConfig, Error>)
        requires
            spec_duration_in_range(self.github.cache_ttl@),
            spec_duration_in_range(self.github.timeout@),
            socket_expansions@.len() == self.sockets@.len(),
            log_path is Some <==> self.log_path is Some,
        ensures
            r is Ok <==> {
                &&& upstream is Ok
                &&& (log_path matches Some(l) ==> l is Ok)
                &&& all_expanded(socket_expansions@) is Some
                &&& spec_parse_duration(self.github.cache_ttl@) is Some
                &&& spec_parse_duration(self.github.timeout@) is Some
            },
            r matches Ok(e) ==> expanded_from(
                e,
                *self,
                upstream->Ok_0@,
                match log_path {
                    Some(l) => Some(l->Ok_0@),
                    None => None,
                },
                all_expanded(socket_expansions@)->Some_0,
            ),
            r matches Err(e) ==> match upstream {
                Err(u) => e == u,
                Ok(_) => match log_path {
                    Some(Err(l)) => e == l,
                    _ => if all_expanded(socket_expansions@) is None {
                        exists|k: int| 0 <= k < socket_expansions@.len() && first_failed(socket_expansions@, k) && #[trigger] socket_expansions@[k] == Err::<(String, Option<String>), Error>(e)
                    } else if spec_parse_duration(self.github.cache_ttl@) is None {
                        e matches Error::Config(m) && m@ == spec_duration_error(self.github.cache_ttl@)
                    } else {
                        e matches Error::Config(m) && m@ == spec_duration_error(self.github.timeout@)
                    },
                },
            },
    {
        let up = match upstream {
            Ok(u) => u,
            Err(e) => return Err(e),
        };
        let log = match log_path {
            Some(Ok(l)) => Some(l),
            Some(Err(e)) => return Err(e),
            None => None,
        };
        let mut sockets: Vec<(String, ExpandedSocketConfig)> = Vec::new();
        let mut exps = socket_expansions;
        let ghost results = exps@;
        let mut i: usize = 0;
        while i < self.sockets.len()
            invariant
                i <= self.sockets@.len(),
                upstream is Ok,
                !(log_path matches Some(Err(_))),
                results.len() == self.sockets@.len(),
                results == socket_expansions@,
                exps@.len() == self.sockets@.len() - i,
                forall|j: int| 0 <= j < exps@.len() ==> #[trigger] exps@[j] == results[i + j],
                sockets@.len() == i,
                forall|j: int| 0 <= j < i ==> #[trigger] results[j] is Ok,
                forall|j: int| 0 <= j < i ==> {
                    &&& (#[trigger] sockets@[j]).0@ == self.sockets@[j].0@
                    &&& sockets@[j].1.path@ == expansion_view(results[j]).0
                    &&& opt_view(sockets@[j].1.upstream) == expansion_view(results[j]).1
                    &&& filter_lists_view(sockets@[j].1.filters@) == spec_filter_groups(self.sockets@[j].1.filters@)
                },
            decreases self.sockets@.len() - i,
        {
            let res = exps.remove(0);
            let (path, socket_upstream) = match res {
                Ok(x) => x,
                Err(e) => {
                    assert(first_failed(results, i as int));
                    assert(results[i as int] == Err::<(String, Option<String>), Error>(e));
                    return Err(e);
                },
            };
            let (name, sc) = &self.sockets[i];
            let filters = filter_groups(sc.filters.as_slice());
            sockets.push((name.clone(), ExpandedSocketConfig { path, upstream: socket_upstream, filters }));
            i = i + 1;
        }
        proof {
            assert(all_expanded(results) is Some);
        }
        let cache_ttl = match parse_duration(self.github.cache_ttl.as_str()) {
            Ok(v) => v,
            Err(e) => return Err(e),
        };
        let timeout = match parse_duration(self.github.timeout.as_str()) {
            Ok(v) => v,
            Err(e) => return Err(e),
        };
        let e = ExpandedConfig {
            upstream: up,
            log_path: log,
            sockets,
            github: ExpandedGithubConfig { cache_ttl, timeout },
        };
        proof {
            let sp = all_expanded(results)->Some_0;
            assert forall|j: int| 0 <= j < self.sockets@.len() implies e.sockets@[j].1.path@ == sp[j].0
                && opt_view(e.sockets@[j].1.upstream) == sp[j].1 by {}
        }
        Ok(e)
    }

    /// Expands environment variables and `~` in all paths and parses the
    /// durations. What an expansion gives depends on the environment; the
    /// rest is as [`Config::assemble_expanded`] states.
    pub fn expand_paths(&self) -> (r: Result<ExpandedConfig, Error>)
        requires
            spec_duration_in_range(self.github.cache_ttl@),
            spec_duration_in_range(self.github.timeout@),
        ensures
            spec_parse_duration(self.github.cache_ttl@) is None ==> r is Err,
            spec_parse_duration(self.github.timeout@) is None ==> r is Err,
            r matches Err(e) ==> self.expansion_error_of(e) || self.duration_error_of(e),
            r matches Ok(e) ==> exists|up: Seq<char>, lp: Option<Seq<char>>, sp: Seq<(Seq<char>, Option<Seq<char>>)>|
                expanded_from(e, *self, up, lp, sp),
            self.paths_plain() && spec_parse_duration(self.github.cache_ttl@) is Some && spec_parse_duration(
                self.github.timeout@,
            ) is Some ==> r is Ok && expanded_from(
                r->Ok_0,
                *self,
                self.upstream@,
                opt_view(self.log_path),
                self.sockets@.map_values(|s: (String, SocketConfig)| (s.1.path@, opt_view(s.1.upstream))),
            ),
            self.paths_plain() ==> (r matches Err(e) ==> (e matches Error::Config(m) && m@ == if spec_parse_duration(
                self.github.cache_ttl@,
            ) is None {
                spec_duration_error(self.github.cache_ttl@)
            } else {
                spec_duration_error(self.github.timeout@)
            })),
    {
        let upstream = expand_path(self.upstream.as_str());
        let log_path = match &self.log_path {
            Some(p) => Some(expand_path(p.as_str())),
            None => None,
        };
        let mut expansions: Vec<SocketExpansion> = Vec::new();
        let mut i: usize = 0;
        while i < self.sockets.len()
            invariant
                i <= self.sockets@.len(),
                expansions@.len() == i,
                self.paths_plain() ==> forall|j: int| 0 <= j < i ==> #[trigger] expansions@[j] is Ok && expansion_view(expansions@[j]) == (
                    self.sockets@[j].1.path@,
                    opt_view(self.sockets@[j].1.upstream),
                ),
                forall|j: int| 0 <= j < i ==> (#[trigger] expansions@[j] matches Err(x) ==> (expansion_error(
                    self.sockets@[j].1.path@,
                    x,
                ) || (self.sockets@[j].1.upstream matches Some(u) && expansion_error(u@, x)))),
            decreases self.sockets@.len() - i,
        {
            let sc = &self.sockets[i].1;
            let exp: SocketExpansion = match expand_path(sc.path.as_str()) {
                Err(e) => Err(e),
                Ok(p) => match &sc.upstream {
                    None => Ok((p, None)),
                    Some(u) => match expand_path(u.as_str()) {
                        Err(e) => Err(e),
                        Ok(eu) => Ok((p, Some(eu))),
                    },
                },
            };
            expansions.push(exp);
            i = i + 1;
        }
        proof {
            if self.paths_plain() {
                assert(all_expanded(expansions@) is Some);
                assert(all_expanded(expansions@)->Some_0 =~= self.sockets@.map_values(
                    |s: (String, SocketConfig)| (s.1.path@, opt_view(s.1.upstream)),
                ));
            }
        }
        let ghost up0 = upstream;
        let ghost lp0 = log_path;
        let ghost ex0 = expansions@;
        let r = self.assemble_expanded(upstream, log_path, expansions);
        proof {
            if r is Err && up0 is Ok && !(lp0 matches Some(Err(_))) && all_expanded(ex0) is None {
                let e = r->Err_0;
                let k = choose|k: int|
                    0 <= k < ex0.len() && first_failed(ex0, k) && #[trigger] ex0[k] == Err::<(String, Option<String>), Error>(e);
                assert(expansion_error(self.sockets@[k].1.path@, e) || (self.sockets@[k].1.upstream matches Some(u)
                    && expansion_error(u@, e)));
            }
        }
        r
    }
}

} // verus!
