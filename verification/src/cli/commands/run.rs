//! The `run` command's decisions: the socket configuration that the
//! command line describes, which configuration source is used, and when a
//! served socket counts as replaced.

use vstd::prelude::*;
use vstd::set_lib::*;
use vstd::relations::injective_on;
use crate::cli::args::{SocketSpec, SpecSocket, UpstreamGroup, socket_view};
use crate::config::{
    expanded_from, filter_lists_view, names_distinct, opt_view, Config, ExpandedConfig, ExpandedGithubConfig, SocketConfig,
    ExpandedSocketConfig, GithubConfig,
};
use crate::error::Error;
use crate::text::{decimal, decimal_digit, decimal_string};
use crate::utils::path::{spec_file_name, spec_file_stem, spec_path_eq};

verus! {

/// A socket to serve: its path, the upstream it uses when that is not the
/// default one, and its filter groups (a key passes when it passes every
/// filter of some group; no group means every key passes).
#[derive(Debug)]
pub struct RunSocketConfig {
    /// Socket path.
    pub path: String,
    /// Upstream for this socket, when not the default upstream.
    pub upstream: Option<String>,
    /// Filter groups.
    pub filters: Vec<Vec<String>>,
}

/// The configuration the proxy runs with.
#[derive(Debug)]
pub struct RunConfig {
    /// Default upstream agent socket.
    pub upstream: String,
    /// Log file, if any.
    pub log_path: Option<String>,
    /// Sockets by name, in the order they were defined.
    pub sockets: Vec<(String, RunSocketConfig)>,
    /// GitHub settings.
    pub github: ExpandedGithubConfig,
}

/// The configuration that `--print-config` prints.
#[derive(Debug)]
pub struct PrintedConfig {
    /// Default upstream agent socket.
    pub upstream: String,
    /// Sockets by name, in the order they were defined.
    pub sockets: Vec<(String, RunSocketConfig)>,
    /// GitHub settings (the defaults).
    pub github: GithubConfig,
}

/// How socket and upstream paths are compared.
#[derive(Debug, Clone, Copy, PartialEq, Eq, Structural)]
pub enum PathCompare {
    /// As `Path`s, component by component.
    AsPaths,
    /// As text.
    AsText,
}

/// A socket entry as the specification sees it: name, path, upstream
/// override, filter groups.
pub type SocketEntryView = (Seq<char>, Seq<char>, Option<Seq<char>>, Seq<Seq<Seq<char>>>);

/// A group as the specification sees it: upstream path and sockets.
pub type CliGroupView = (Seq<char>, Seq<SpecSocket>);

/// The view of a socket entry.
pub open spec fn entry_view(e: (String, RunSocketConfig)) -> SocketEntryView {
    (
        e.0@,
        e.1.path@,
        match e.1.upstream {
            Some(u) => Some(u@),
            None => None,
        },
        e.1.filters@.map_values(|g: Vec<String>| g@.map_values(|f: String| f@)),
    )
}

/// The views of socket entries.
pub open spec fn entries_view(v: Seq<(String, RunSocketConfig)>) -> Seq<SocketEntryView> {
    v.map_values(|e: (String, RunSocketConfig)| entry_view(e))
}

/// The view of an upstream group.
pub open spec fn cli_group_view(g: UpstreamGroup) -> CliGroupView {
    (g.path@, g.sockets@.map_values(|s: SocketSpec| socket_view(s)))
}

/// Two paths are the same under the comparison `mode`.
pub open spec fn same_path(mode: PathCompare, a: Seq<char>, b: Seq<char>) -> bool {
    match mode {
        PathCompare::AsPaths => spec_path_eq(a, b),
        PathCompare::AsText => a == b,
    }
}

/// The first entry whose path is the same as `p`.
pub open spec fn first_same_path(es: Seq<SocketEntryView>, mode: PathCompare, p: Seq<char>) -> Option<int> {
    if exists|i: int| 0 <= i < es.len() && same_path(mode, (#[trigger] es[i]).1, p) {
        Some(
            choose|i: int|
                0 <= i < es.len() && same_path(mode, (#[trigger] es[i]).1, p) && forall|j: int|
                    0 <= j < i ==> !same_path(mode, (#[trigger] es[j]).1, p),
        )
    } else {
        None
    }
}

/// Some entry is named `nm`.
pub open spec fn name_taken(es: Seq<SocketEntryView>, nm: Seq<char>) -> bool {
    exists|i: int| 0 <= i < es.len() && (#[trigger] es[i]).0 == nm
}

/// `base-k`.
pub open spec fn suffixed(base: Seq<char>, k: nat) -> Seq<char> {
    base + "-"@ + decimal(k)
}

/// `k` is the first suffix from 2 on that makes a free name.
pub open spec fn free_suffix(es: Seq<SocketEntryView>, base: Seq<char>, k: nat) -> bool {
    &&& k >= 2
    &&& !name_taken(es, suffixed(base, k))
    &&& forall|j: nat| 2 <= j < k ==> name_taken(es, #[trigger] suffixed(base, j))
}

/// `base` when no entry has that name, else `base-k` for the first `k`
/// from 2 on that makes a free name.
pub open spec fn unique_name(es: Seq<SocketEntryView>, base: Seq<char>) -> Seq<char> {
    if !name_taken(es, base) {
        base
    } else {
        suffixed(base, choose|k: nat| free_suffix(es, base, k))
    }
}

/// A socket's name before deduplication: the stem of its file name, or
/// `socket` when the path has no file name.
pub open spec fn spec_socket_base_name(p: Seq<char>) -> Seq<char> {
    match spec_file_name(p) {
        Some(n) => spec_file_stem(n),
        None => "socket"@,
    }
}

/// Adds one socket of a group with upstream `gpath`: a path already
/// defined gets the socket's filters as one more group (when it has any);
/// a new path becomes a new entry, named after its file stem (made unique
/// with `-2`, `-3`, ...), with the group's upstream when that differs from
/// the default one, and its filters as its only group (or none).
pub open spec fn add_socket(
    es: Seq<SocketEntryView>,
    mode: PathCompare,
    default_up: Seq<char>,
    gpath: Seq<char>,
    sock: SpecSocket,
) -> Seq<SocketEntryView> {
    match first_same_path(es, mode, sock.0) {
        Some(i) => if sock.1.len() == 0 {
            es
        } else {
            es.update(i, (es[i].0, es[i].1, es[i].2, es[i].3.push(sock.1)))
        },
        None => es.push(
            (
                unique_name(es, spec_socket_base_name(sock.0)),
                sock.0,
                if same_path(mode, gpath, default_up) {
                    None
                } else {
                    Some(gpath)
                },
                if sock.1.len() == 0 {
                    Seq::empty()
                } else {
                    seq![sock.1]
                },
            ),
        ),
    }
}

/// Adds the sockets of one group, in order.
pub open spec fn add_sockets(
    es: Seq<SocketEntryView>,
    mode: PathCompare,
    default_up: Seq<char>,
    gpath: Seq<char>,
    socks: Seq<SpecSocket>,
) -> Seq<SocketEntryView>
    decreases socks.len(),
{
    if socks.len() == 0 {
        es
    } else {
        add_socket(add_sockets(es, mode, default_up, gpath, socks.drop_last()), mode, default_up, gpath, socks.last())
    }
}

/// Adds the sockets of all groups, in order.
pub open spec fn add_groups(
    es: Seq<SocketEntryView>,
    mode: PathCompare,
    default_up: Seq<char>,
    groups: Seq<CliGroupView>,
) -> Seq<SocketEntryView>
    decreases groups.len(),
{
    if groups.len() == 0 {
        es
    } else {
        let prev = add_groups(es, mode, default_up, groups.drop_last());
        add_sockets(prev, mode, default_up, groups.last().0, groups.last().1)
    }
}

/// The socket entries the command-line groups describe; the first group's
/// upstream is the default one.
pub open spec fn spec_cli_sockets(groups: Seq<CliGroupView>, mode: PathCompare) -> Seq<SocketEntryView> {
    add_groups(Seq::empty(), mode, groups[0].0, groups)
}

/// The number of sockets over all groups.
pub open spec fn sockets_total(groups: Seq<CliGroupView>) -> nat
    decreases groups.len(),
{
    if groups.len() == 0 {
        0
    } else {
        sockets_total(groups.drop_last()) + groups.last().1.len()
    }
}

proof fn lemma_decimal_len(n: nat)
    ensures
        decimal(n).len() >= 1,
        n >= 10 ==> decimal(n).len() >= 2,
    decreases n,
{
    if n >= 10 {
        lemma_decimal_len(n / 10);
    }
}

proof fn lemma_decimal_injective(a: nat, b: nat)
    requires
        decimal(a) == decimal(b),
    ensures
        a == b,
    decreases a,
{
    lemma_decimal_len(a);
    lemma_decimal_len(b);
    if a < 10 {
        if b >= 10 {
            assert(decimal(a).len() == 1);
        } else {
            assert(decimal(a) == seq![decimal_digit(a as int)]);
            assert(decimal(b) == seq![decimal_digit(b as int)]);
            assert(decimal(a)[0] == decimal(b)[0]);
            assert(decimal(a)[0] == decimal_digit(a as int));
            assert(decimal(b)[0] == decimal_digit(b as int));
            assert(decimal_digit(a as int) == decimal_digit(b as int));
            assert((decimal_digit(a as int) as int) == ('0' as int) + a);
            assert((decimal_digit(b as int) as int) == ('0' as int) + b);
            assert(a == b);
        }
    } else {
        if b < 10 {
            assert(decimal(b).len() == 1);
        } else {
            let da = decimal(a / 10);
            let db = decimal(b / 10);
            let la = decimal_digit((a % 10) as int);
            let lb = decimal_digit((b % 10) as int);
            assert(decimal(a) == da + seq![la]);
            assert(decimal(b) == db + seq![lb]);
            assert(decimal(a).drop_last() =~= da);
            assert(decimal(b).drop_last() =~= db);
            lemma_decimal_injective(a / 10, b / 10);
            assert(decimal(a).last() == la);
            assert(decimal(b).last() == lb);
            assert((la as int) == ('0' as int) + a % 10);
            assert((lb as int) == ('0' as int) + b % 10);
            assert(a == 10 * (a / 10) + a % 10);
            assert(b == 10 * (b / 10) + b % 10);
            assert(a == b);
        }
    }
}

proof fn lemma_suffixed_injective(base: Seq<char>, a: nat, b: nat)
    requires
        suffixed(base, a) == suffixed(base, b),
    ensures
        a == b,
{
    reveal_strlit("-");
    let n = base.len() + 1;
    assert(suffixed(base, a).skip(n as int) =~= decimal(a));
    assert(suffixed(base, b).skip(n as int) =~= decimal(b));
    lemma_decimal_injective(a, b);
}

/// When every suffix from 2 up to `m` makes a taken name, there are at
/// least that many entries.
proof fn lemma_suffix_bound(es: Seq<SocketEntryView>, base: Seq<char>, m: nat)
    requires
        m >= 2,
        forall|j: nat| 2 <= j < m ==> name_taken(es, #[trigger] suffixed(base, j)),
    ensures
        m - 2 <= es.len(),
{
    let x = set_int_range(2, m as int);
    lemma_int_range(2, m as int);
    let f = |j: int| suffixed(base, j as nat);
    assert(injective_on(f, x)) by {
        assert forall|a: int, b: int| x.contains(a) && x.contains(b) && #[trigger] f(a) == #[trigger] f(b) implies a
            == b by {
            lemma_suffixed_injective(base, a as nat, b as nat);
        }
    }
    let y = x.map(f);
    lemma_map_size(x, y, f);
    let idx = set_int_range(0, es.len() as int);
    lemma_int_range(0, es.len() as int);
    let g = |i: int| es[i].0;
    let names = idx.map(g);
    lemma_map_size_bound(idx, names, g);
    assert(y.subset_of(names)) by {
        assert forall|s: Seq<char>| y.contains(s) implies names.contains(s) by {
            let j = choose|j: int| x.contains(j) && f(j) == s;
            assert(name_taken(es, suffixed(base, j as nat)));
            let i = choose|i: int| 0 <= i < es.len() && (#[trigger] es[i]).0 == suffixed(base, j as nat);
            assert(idx.contains(i) && g(i) == s);
        }
    }
    lemma_len_subset(y, names);
}

/// No two entries share a name, and no entry's path is the same as a later
/// entry's path.
pub open spec fn entries_distinct(es: Seq<SocketEntryView>, mode: PathCompare) -> bool {
    forall|i: int, j: int|
        0 <= i < j < es.len() ==> (#[trigger] es[i]).0 != (#[trigger] es[j]).0 && !same_path(mode, es[i].1, es[j].1)
}

/// Some suffix from `m` on makes a free name, when all those from 2 up to
/// `m` make taken names.
proof fn lemma_free_suffix_from(es: Seq<SocketEntryView>, base: Seq<char>, m: nat)
    requires
        m >= 2,
        forall|j: nat| 2 <= j < m ==> name_taken(es, #[trigger] suffixed(base, j)),
    ensures
        exists|k: nat| free_suffix(es, base, k),
    decreases es.len() + 3 - m,
{
    lemma_suffix_bound(es, base, m);
    if !name_taken(es, suffixed(base, m)) {
        assert(free_suffix(es, base, m));
    } else {
        assert forall|j: nat| 2 <= j < m + 1 implies name_taken(es, #[trigger] suffixed(base, j)) by {
            if j == m {
            }
        }
        lemma_suffix_bound(es, base, m + 1);
        lemma_free_suffix_from(es, base, m + 1);
    }
}

/// The name [`unique_name`] picks is not taken.
proof fn lemma_unique_name_free(es: Seq<SocketEntryView>, base: Seq<char>)
    ensures
        !name_taken(es, unique_name(es, base)),
{
    if name_taken(es, base) {
        lemma_free_suffix_from(es, base, 2);
    }
}

/// A first entry with the same path exists when some entry has it.
proof fn lemma_first_same_path_walk(es: Seq<SocketEntryView>, mode: PathCompare, p: Seq<char>, k: int)
    requires
        0 <= k <= es.len(),
        forall|j: int| 0 <= j < k ==> !same_path(mode, (#[trigger] es[j]).1, p),
        exists|i: int| k <= i < es.len() && same_path(mode, (#[trigger] es[i]).1, p),
    ensures
        exists|i: int|
            0 <= i < es.len() && same_path(mode, (#[trigger] es[i]).1, p) && forall|j: int|
                0 <= j < i ==> !same_path(mode, (#[trigger] es[j]).1, p),
    decreases es.len() - k,
{
    if same_path(mode, es[k].1, p) {
    } else {
        let w = choose|i: int| k <= i < es.len() && same_path(mode, (#[trigger] es[i]).1, p);
        assert(k + 1 <= w);
        lemma_first_same_path_walk(es, mode, p, k + 1);
    }
}

/// What [`first_same_path`] gives: the first entry with the same path.
proof fn lemma_first_same_path(es: Seq<SocketEntryView>, mode: PathCompare, p: Seq<char>)
    ensures
        match first_same_path(es, mode, p) {
            Some(k) => 0 <= k < es.len() && same_path(mode, es[k].1, p) && forall|j: int|
                0 <= j < k ==> !same_path(mode, (#[trigger] es[j]).1, p),
            None => forall|i: int| 0 <= i < es.len() ==> !same_path(mode, (#[trigger] es[i]).1, p),
        },
{
    if exists|i: int| 0 <= i < es.len() && same_path(mode, (#[trigger] es[i]).1, p) {
        lemma_first_same_path_walk(es, mode, p, 0);
    }
}

proof fn lemma_update_keeps_distinct(
    es: Seq<SocketEntryView>,
    mode: PathCompare,
    k: int,
    f: Seq<Seq<Seq<char>>>,
)
    requires
        entries_distinct(es, mode),
        0 <= k < es.len(),
    ensures
        entries_distinct(es.update(k, (es[k].0, es[k].1, es[k].2, f)), mode),
{
    let r = es.update(k, (es[k].0, es[k].1, es[k].2, f));
    assert forall|i: int, j: int| 0 <= i < j < r.len() implies (#[trigger] r[i]).0 != (#[trigger] r[j]).0 && !same_path(
        mode,
        r[i].1,
        r[j].1,
    ) by {
        assert(r[i].0 == es[i].0 && r[i].1 == es[i].1);
        assert(r[j].0 == es[j].0 && r[j].1 == es[j].1);
        assert(es[i].0 != es[j].0 && !same_path(mode, es[i].1, es[j].1));
    }
}

proof fn lemma_push_keeps_distinct(es: Seq<SocketEntryView>, mode: PathCompare, e: SocketEntryView)
    requires
        entries_distinct(es, mode),
        !name_taken(es, e.0),
        forall|i: int| 0 <= i < es.len() ==> !same_path(mode, (#[trigger] es[i]).1, e.1),
    ensures
        entries_distinct(es.push(e), mode),
{
    let r = es.push(e);
    assert forall|i: int, j: int| 0 <= i < j < r.len() implies (#[trigger] r[i]).0 != (#[trigger] r[j]).0 && !same_path(
        mode,
        r[i].1,
        r[j].1,
    ) by {
        assert(r[i] == es[i]);
        if j == es.len() {
            assert(r[j] == e);
            if es[i].0 == e.0 {
                assert(name_taken(es, e.0));
            }
        } else {
            assert(r[j] == es[j]);
            assert(es[i].0 != es[j].0 && !same_path(mode, es[i].1, es[j].1));
        }
    }
}

proof fn lemma_add_socket_distinct(
    es: Seq<SocketEntryView>,
    mode: PathCompare,
    default_up: Seq<char>,
    gpath: Seq<char>,
    sock: SpecSocket,
)
    requires
        entries_distinct(es, mode),
    ensures
        entries_distinct(add_socket(es, mode, default_up, gpath, sock), mode),
{
    lemma_first_same_path(es, mode, sock.0);
    match first_same_path(es, mode, sock.0) {
        Some(k) => {
            if sock.1.len() > 0 {
                lemma_update_keeps_distinct(es, mode, k, es[k].3.push(sock.1));
            }
        },
        None => {
            let base = spec_socket_base_name(sock.0);
            lemma_unique_name_free(es, base);
            let e = (
                unique_name(es, base),
                sock.0,
                if same_path(mode, gpath, default_up) {
                    None
                } else {
                    Some(gpath)
                },
                if sock.1.len() == 0 {
                    Seq::empty()
                } else {
                    seq![sock.1]
                },
            );
            lemma_push_keeps_distinct(es, mode, e);
        },
    }
}

proof fn lemma_add_sockets_distinct(
    es: Seq<SocketEntryView>,
    mode: PathCompare,
    default_up: Seq<char>,
    gpath: Seq<char>,
    socks: Seq<SpecSocket>,
)
    requires
        entries_distinct(es, mode),
    ensures
        entries_distinct(add_sockets(es, mode, default_up, gpath, socks), mode),
    decreases socks.len(),
{
    if socks.len() > 0 {
        lemma_add_sockets_distinct(es, mode, default_up, gpath, socks.drop_last());
        lemma_add_socket_distinct(
            add_sockets(es, mode, default_up, gpath, socks.drop_last()),
            mode,
            default_up,
            gpath,
            socks.last(),
        );
    }
}

proof fn lemma_add_groups_distinct(
    es: Seq<SocketEntryView>,
    mode: PathCompare,
    default_up: Seq<char>,
    groups: Seq<CliGroupView>,
)
    requires
        entries_distinct(es, mode),
    ensures
        entries_distinct(add_groups(es, mode, default_up, groups), mode),
    decreases groups.len(),
{
    if groups.len() > 0 {
        lemma_add_groups_distinct(es, mode, default_up, groups.drop_last());
        lemma_add_sockets_distinct(
            add_groups(es, mode, default_up, groups.drop_last()),
            mode,
            default_up,
            groups.last().0,
            groups.last().1,
        );
    }
}

/// The sockets that a command line describes have distinct names, and a
/// path given more than once is served by one socket: no two entries
/// have the same path.
pub proof fn lemma_cli_sockets_distinct(groups: Seq<CliGroupView>, mode: PathCompare)
    requires
        groups.len() > 0,
    ensures
        entries_distinct(spec_cli_sockets(groups, mode), mode),
{
    lemma_add_groups_distinct(Seq::empty(), mode, groups[0].0, groups);
}

/// The sockets of all groups in command-line order, each with the upstream
/// of its group.
pub open spec fn flat_sockets(groups: Seq<CliGroupView>) -> Seq<(Seq<char>, SpecSocket)>
    decreases groups.len(),
{
    if groups.len() == 0 {
        Seq::empty()
    } else {
        flat_sockets(groups.drop_last()) + groups.last().1.map_values(|s: SpecSocket| (groups.last().0, s))
    }
}

/// Adds the sockets `f` (each with its group's upstream), in order.
pub open spec fn add_all(
    es: Seq<SocketEntryView>,
    mode: PathCompare,
    default_up: Seq<char>,
    f: Seq<(Seq<char>, SpecSocket)>,
) -> Seq<SocketEntryView>
    decreases f.len(),
{
    if f.len() == 0 {
        es
    } else {
        add_socket(add_all(es, mode, default_up, f.drop_last()), mode, default_up, f.last().0, f.last().1)
    }
}

/// `mode` compares paths by an equivalence: every path is the same as
/// itself, sameness is symmetric and transitive.
#[verifier::opaque]
pub open spec fn compares_by_equivalence(mode: PathCompare) -> bool {
    &&& forall|a: Seq<char>| #[trigger] same_path(mode, a, a)
    &&& forall|a: Seq<char>, b: Seq<char>| #[trigger] same_path(mode, a, b) ==> same_path(mode, b, a)
    &&& forall|a: Seq<char>, b: Seq<char>, c: Seq<char>|
        #[trigger] same_path(mode, a, b) && #[trigger] same_path(mode, b, c) ==> same_path(mode, a, c)
}

/// The socket at `k` is the first one given with its path.
pub open spec fn first_with_path(f: Seq<(Seq<char>, SpecSocket)>, mode: PathCompare, k: int) -> bool {
    forall|j: int| 0 <= j < k ==> !same_path(mode, (#[trigger] f[j]).1.0, f[k].1.0)
}

/// The non-empty filter lists of the sockets in `f` whose path is the
/// same as `p`, in order.
pub open spec fn filters_for(f: Seq<(Seq<char>, SpecSocket)>, mode: PathCompare, p: Seq<char>) -> Seq<Seq<Seq<char>>>
    decreases f.len(),
{
    if f.len() == 0 {
        Seq::empty()
    } else {
        let prev = filters_for(f.drop_last(), mode, p);
        if same_path(mode, p, f.last().1.0) && f.last().1.1.len() > 0 {
            prev.push(f.last().1.1)
        } else {
            prev
        }
    }
}

/// `name` is `base` when no entry of `prev` has that name, else `base-k`
/// for the least `k` from 2 on that no entry of `prev` has.
pub open spec fn named_after(prev: Seq<SocketEntryView>, base: Seq<char>, name: Seq<char>) -> bool {
    if !name_taken(prev, base) {
        name == base
    } else {
        exists|k: nat| free_suffix(prev, base, k) && name == suffixed(base, k)
    }
}

/// The upstream an entry keeps: its group's, unless that is the same path
/// as the default one.
pub open spec fn upstream_override(mode: PathCompare, gpath: Seq<char>, default_up: Seq<char>) -> Option<Seq<char>> {
    if same_path(mode, gpath, default_up) {
        None
    } else {
        Some(gpath)
    }
}

/// Every socket in `f` is served by an entry of `es` with the same path.
#[verifier::opaque]
pub open spec fn every_socket_served(es: Seq<SocketEntryView>, f: Seq<(Seq<char>, SpecSocket)>, mode: PathCompare) -> bool {
    forall|k: int|
        0 <= k < f.len() ==> exists|i: int| 0 <= i < es.len() && same_path(mode, (#[trigger] es[i]).1, (#[trigger] f[k]).1.0)
}

/// Each entry of `es` is the first socket in `f` with its path, and keeps
/// that socket's upstream override.
#[verifier::opaque]
pub open spec fn entries_first_given(
    es: Seq<SocketEntryView>,
    f: Seq<(Seq<char>, SpecSocket)>,
    mode: PathCompare,
    default_up: Seq<char>,
) -> bool {
    forall|i: int|
        0 <= i < es.len() ==> exists|k: int|
            0 <= k < f.len() && first_with_path(f, mode, k) && (#[trigger] es[i]).1 == (#[trigger] f[k]).1.0
                && es[i].2 == upstream_override(mode, f[k].0, default_up)
}

/// The filter groups of each entry of `es` are the non-empty filter lists
/// of the sockets in `f` with its path, in order.
#[verifier::opaque]
pub open spec fn entries_filters(es: Seq<SocketEntryView>, f: Seq<(Seq<char>, SpecSocket)>, mode: PathCompare) -> bool {
    forall|i: int| 0 <= i < es.len() ==> (#[trigger] es[i]).3 == filters_for(f, mode, es[i].1)
}

/// Each entry's name is its path's stem made unique against the entries
/// before it.
#[verifier::opaque]
pub open spec fn entries_named(es: Seq<SocketEntryView>) -> bool {
    forall|i: int| 0 <= i < es.len() ==> named_after(es.take(i), spec_socket_base_name((#[trigger] es[i]).1), es[i].0)
}

/// How the entries `es` serve the sockets `f`: every socket is served by
/// an entry with the same path; each entry is the first socket given with
/// its path, with that socket's upstream override; its filter groups are
/// the non-empty filter lists of all sockets with its path, in order; its
/// name is its path's stem made unique against the entries before it.
pub open spec fn serves_sockets(
    es: Seq<SocketEntryView>,
    f: Seq<(Seq<char>, SpecSocket)>,
    mode: PathCompare,
    default_up: Seq<char>,
) -> bool {
    &&& every_socket_served(es, f, mode)
    &&& entries_first_given(es, f, mode, default_up)
    &&& entries_filters(es, f, mode)
    &&& entries_named(es)
}

proof fn lemma_add_sockets_as_all(
    es: Seq<SocketEntryView>,
    mode: PathCompare,
    default_up: Seq<char>,
    gpath: Seq<char>,
    socks: Seq<SpecSocket>,
)
    ensures
        add_sockets(es, mode, default_up, gpath, socks) == add_all(
            es,
            mode,
            default_up,
            socks.map_values(|s: SpecSocket| (gpath, s)),
        ),
    decreases socks.len(),
{
    if socks.len() > 0 {
        lemma_add_sockets_as_all(es, mode, default_up, gpath, socks.drop_last());
        let m = socks.map_values(|s: SpecSocket| (gpath, s));
        assert(m.drop_last() =~= socks.drop_last().map_values(|s: SpecSocket| (gpath, s)));
        assert(m.last() == (gpath, socks.last()));
    }
}

proof fn lemma_add_all_concat(
    es: Seq<SocketEntryView>,
    mode: PathCompare,
    default_up: Seq<char>,
    a: Seq<(Seq<char>, SpecSocket)>,
    b: Seq<(Seq<char>, SpecSocket)>,
)
    ensures
        add_all(es, mode, default_up, a + b) == add_all(add_all(es, mode, default_up, a), mode, default_up, b),
    decreases b.len(),
{
    if b.len() == 0 {
        assert(a + b =~= a);
    } else {
        assert((a + b).drop_last() =~= a + b.drop_last());
        assert((a + b).last() == b.last());
        lemma_add_all_concat(es, mode, default_up, a, b.drop_last());
    }
}

proof fn lemma_add_groups_as_all(
    es: Seq<SocketEntryView>,
    mode: PathCompare,
    default_up: Seq<char>,
    groups: Seq<CliGroupView>,
)
    ensures
        add_groups(es, mode, default_up, groups) == add_all(es, mode, default_up, flat_sockets(groups)),
    decreases groups.len(),
{
    if groups.len() > 0 {
        let g = groups.last();
        lemma_add_groups_as_all(es, mode, default_up, groups.drop_last());
        lemma_add_sockets_as_all(add_groups(es, mode, default_up, groups.drop_last()), mode, default_up, g.0, g.1);
        lemma_add_all_concat(
            es,
            mode,
            default_up,
            flat_sockets(groups.drop_last()),
            g.1.map_values(|s: SpecSocket| (g.0, s)),
        );
    }
}

proof fn lemma_filters_for_none(f: Seq<(Seq<char>, SpecSocket)>, mode: PathCompare, p: Seq<char>)
    requires
        forall|k: int| 0 <= k < f.len() ==> !same_path(mode, p, (#[trigger] f[k]).1.0),
    ensures
        filters_for(f, mode, p) == Seq::<Seq<Seq<char>>>::empty(),
    decreases f.len(),
{
    if f.len() > 0 {
        assert(!same_path(mode, p, f[f.len() - 1].1.0));
        lemma_filters_for_none(f.drop_last(), mode, p);
    }
}

proof fn lemma_named_after_same_names(
    p1: Seq<SocketEntryView>,
    p2: Seq<SocketEntryView>,
    base: Seq<char>,
    name: Seq<char>,
)
    requires
        p1.len() == p2.len(),
        forall|j: int| 0 <= j < p1.len() ==> (#[trigger] p1[j]).0 == p2[j].0,
        named_after(p1, base, name),
    ensures
        named_after(p2, base, name),
{
    assert forall|n: Seq<char>|
        #![trigger name_taken(p1, n)]
        #![trigger name_taken(p2, n)]
        name_taken(p1, n) == name_taken(p2, n) by {
        if name_taken(p1, n) {
            let i = choose|i: int| 0 <= i < p1.len() && (#[trigger] p1[i]).0 == n;
            assert(p2[i].0 == n);
        }
        if name_taken(p2, n) {
            let i = choose|i: int| 0 <= i < p2.len() && (#[trigger] p2[i]).0 == n;
            assert(p1[i].0 == n);
        }
    }
    if name_taken(p1, base) {
        let k = choose|k: nat| free_suffix(p1, base, k) && name == suffixed(base, k);
        assert(name_taken(p1, suffixed(base, k)) == name_taken(p2, suffixed(base, k)));
        assert(free_suffix(p2, base, k));
    }
}

proof fn lemma_unique_named(es: Seq<SocketEntryView>, base: Seq<char>)
    ensures
        named_after(es, base, unique_name(es, base)),
{
    if name_taken(es, base) {
        lemma_free_suffix_from(es, base, 2);
    }
}

proof fn lemma_same_path_refl(mode: PathCompare, a: Seq<char>)
    requires
        compares_by_equivalence(mode),
    ensures
        same_path(mode, a, a),
{
    reveal(compares_by_equivalence);
}

proof fn lemma_same_path_sym(mode: PathCompare, a: Seq<char>, b: Seq<char>)
    requires
        compares_by_equivalence(mode),
        same_path(mode, a, b),
    ensures
        same_path(mode, b, a),
{
    reveal(compares_by_equivalence);
}

proof fn lemma_same_path_trans(mode: PathCompare, a: Seq<char>, b: Seq<char>, c: Seq<char>)
    requires
        compares_by_equivalence(mode),
        same_path(mode, a, b),
        same_path(mode, b, c),
    ensures
        same_path(mode, a, c),
{
    reveal(compares_by_equivalence);
}

/// How the filter groups for a path change when one more socket is given.
proof fn lemma_filters_for_push(f: Seq<(Seq<char>, SpecSocket)>, mode: PathCompare, x: (Seq<char>, SpecSocket), p: Seq<char>)
    ensures
        filters_for(f.push(x), mode, p) == (if same_path(mode, p, x.1.0) && x.1.1.len() > 0 {
            filters_for(f, mode, p).push(x.1.1)
        } else {
            filters_for(f, mode, p)
        }),
{
    assert(f.push(x).drop_last() =~= f);
}

/// A socket given after `f` stays the first one with its path.
proof fn lemma_first_with_path_push(f: Seq<(Seq<char>, SpecSocket)>, mode: PathCompare, x: (Seq<char>, SpecSocket), k: int)
    requires
        0 <= k < f.len(),
        first_with_path(f, mode, k),
    ensures
        first_with_path(f.push(x), mode, k),
{
    let f2 = f.push(x);
    assert forall|j: int| 0 <= j < k implies !same_path(mode, (#[trigger] f2[j]).1.0, f2[k].1.0) by {
        assert(f2[j] == f[j]);
    }
}

/// A path no entry has is the path of no socket given so far.
proof fn lemma_not_given(es: Seq<SocketEntryView>, f: Seq<(Seq<char>, SpecSocket)>, mode: PathCompare, p: Seq<char>)
    requires
        compares_by_equivalence(mode),
        every_socket_served(es, f, mode),
        forall|i: int| 0 <= i < es.len() ==> !same_path(mode, (#[trigger] es[i]).1, p),
    ensures
        forall|j: int|
            0 <= j < f.len() ==> !same_path(mode, p, (#[trigger] f[j]).1.0) && !same_path(mode, f[j].1.0, p),
{
    reveal(every_socket_served);
    assert forall|j: int| 0 <= j < f.len() implies !same_path(mode, p, (#[trigger] f[j]).1.0) && !same_path(
        mode,
        f[j].1.0,
        p,
    ) by {
        let i = choose|i: int| 0 <= i < es.len() && same_path(mode, (#[trigger] es[i]).1, (#[trigger] f[j]).1.0);
        if same_path(mode, f[j].1.0, p) {
            lemma_same_path_trans(mode, es[i].1, f[j].1.0, p);
        }
        if same_path(mode, p, f[j].1.0) {
            lemma_same_path_sym(mode, p, f[j].1.0);
            lemma_same_path_trans(mode, es[i].1, f[j].1.0, p);
        }
    }
}

/// Only the first entry with a path has the same path as a path that
/// entry has.
proof fn lemma_others_differ(es: Seq<SocketEntryView>, mode: PathCompare, p: Seq<char>, i0: int)
    requires
        compares_by_equivalence(mode),
        entries_distinct(es, mode),
        0 <= i0 < es.len(),
        same_path(mode, es[i0].1, p),
    ensures
        forall|i: int| 0 <= i < es.len() && i != i0 ==> !same_path(mode, (#[trigger] es[i]).1, p),
{
    assert forall|i: int| 0 <= i < es.len() && i != i0 implies !same_path(mode, (#[trigger] es[i]).1, p) by {
        if same_path(mode, es[i].1, p) {
            lemma_same_path_sym(mode, es[i0].1, p);
            lemma_same_path_trans(mode, es[i].1, p, es[i0].1);
            lemma_same_path_sym(mode, es[i].1, es[i0].1);
            if i < i0 {
                assert(!same_path(mode, es[i].1, es[i0].1));
            } else {
                assert(!same_path(mode, es[i0].1, es[i].1));
            }
        }
    }
}

proof fn lemma_served_step(
    es: Seq<SocketEntryView>,
    r: Seq<SocketEntryView>,
    f: Seq<(Seq<char>, SpecSocket)>,
    x: (Seq<char>, SpecSocket),
    mode: PathCompare,
    at: int,
)
    requires
        every_socket_served(es, f, mode),
        es.len() <= r.len(),
        forall|i: int| 0 <= i < es.len() ==> (#[trigger] r[i]).1 == es[i].1,
        0 <= at < r.len(),
        same_path(mode, r[at].1, x.1.0),
    ensures
        every_socket_served(r, f.push(x), mode),
{
    reveal(every_socket_served);
    let f2 = f.push(x);
    assert forall|k: int| 0 <= k < f2.len() implies exists|i: int|
        0 <= i < r.len() && same_path(mode, (#[trigger] r[i]).1, (#[trigger] f2[k]).1.0) by {
        if k < f.len() {
            assert(f2[k] == f[k]);
            let i = choose|i: int| 0 <= i < es.len() && same_path(mode, (#[trigger] es[i]).1, (#[trigger] f[k]).1.0);
            assert(r[i].1 == es[i].1);
        } else {
            assert(f2[k] == x);
            assert(same_path(mode, r[at].1, f2[k].1.0));
        }
    }
}

proof fn lemma_first_given_step(
    es: Seq<SocketEntryView>,
    r: Seq<SocketEntryView>,
    f: Seq<(Seq<char>, SpecSocket)>,
    x: (Seq<char>, SpecSocket),
    mode: PathCompare,
    default_up: Seq<char>,
)
    requires
        entries_first_given(es, f, mode, default_up),
        forall|i: int| 0 <= i < es.len() ==> (#[trigger] r[i]).1 == es[i].1 && r[i].2 == es[i].2,
        r.len() == es.len() || {
            &&& r.len() == es.len() + 1
            &&& r[es.len() as int].1 == x.1.0
            &&& r[es.len() as int].2 == upstream_override(mode, x.0, default_up)
            &&& forall|j: int| 0 <= j < f.len() ==> !same_path(mode, (#[trigger] f[j]).1.0, x.1.0)
        },
    ensures
        entries_first_given(r, f.push(x), mode, default_up),
{
    reveal(entries_first_given);
    let f2 = f.push(x);
    assert forall|i: int| 0 <= i < r.len() implies exists|k: int|
        0 <= k < f2.len() && first_with_path(f2, mode, k) && (#[trigger] r[i]).1 == (#[trigger] f2[k]).1.0
            && r[i].2 == upstream_override(mode, f2[k].0, default_up) by {
        if i < es.len() {
            let k = choose|k: int|
                0 <= k < f.len() && first_with_path(f, mode, k) && (#[trigger] es[i]).1 == (#[trigger] f[k]).1.0
                    && es[i].2 == upstream_override(mode, f[k].0, default_up);
            assert(f2[k] == f[k]);
            lemma_first_with_path_push(f, mode, x, k);
        } else {
            let k = f.len() as int;
            assert(f2[k] == x);
            assert forall|j: int| 0 <= j < k implies !same_path(mode, (#[trigger] f2[j]).1.0, f2[k].1.0) by {
                assert(f2[j] == f[j]);
            }
            assert(first_with_path(f2, mode, k));
        }
    }
}

proof fn lemma_named_step(es: Seq<SocketEntryView>, r: Seq<SocketEntryView>)
    requires
        entries_named(es),
        forall|i: int| 0 <= i < es.len() ==> (#[trigger] r[i]).0 == es[i].0 && r[i].1 == es[i].1,
        r.len() == es.len() || {
            &&& r.len() == es.len() + 1
            &&& named_after(es, spec_socket_base_name(r[es.len() as int].1), r[es.len() as int].0)
        },
    ensures
        entries_named(r),
{
    reveal(entries_named);
    assert forall|i: int| 0 <= i < r.len() implies named_after(
        r.take(i),
        spec_socket_base_name((#[trigger] r[i]).1),
        r[i].0,
    ) by {
        if i < es.len() {
            assert(named_after(es.take(i), spec_socket_base_name(es[i].1), es[i].0));
            assert forall|j: int| 0 <= j < es.take(i).len() implies (#[trigger] es.take(i)[j]).0 == r.take(i)[j].0 by {
                assert(es.take(i)[j] == es[j]);
                assert(r.take(i)[j] == r[j]);
            }
            lemma_named_after_same_names(es.take(i), r.take(i), spec_socket_base_name(es[i].1), es[i].0);
        } else {
            assert forall|j: int| 0 <= j < es.len() implies (#[trigger] es[j]).0 == r.take(i)[j].0 by {
                assert(r.take(i)[j] == r[j]);
            }
            lemma_named_after_same_names(es, r.take(i), spec_socket_base_name(r[i].1), r[i].0);
        }
    }
}

/// A socket whose path some entry already has: it adds its filters to the
/// first such entry.
proof fn lemma_merge_serves(
    es: Seq<SocketEntryView>,
    f: Seq<(Seq<char>, SpecSocket)>,
    mode: PathCompare,
    default_up: Seq<char>,
    gpath: Seq<char>,
    s: SpecSocket,
    i0: int,
)
    requires
        compares_by_equivalence(mode),
        entries_distinct(es, mode),
        serves_sockets(es, f, mode, default_up),
        first_same_path(es, mode, s.0) == Some(i0),
        0 <= i0 < es.len(),
        same_path(mode, es[i0].1, s.0),
    ensures
        serves_sockets(add_socket(es, mode, default_up, gpath, s), f.push((gpath, s)), mode, default_up),
{
    let x = (gpath, s);
    let f2 = f.push(x);
    let r = add_socket(es, mode, default_up, gpath, s);
    assert(r.len() == es.len());
    assert forall|i: int| 0 <= i < r.len() && i != i0 implies #[trigger] r[i] == es[i] by {}
    assert(r[i0].0 == es[i0].0 && r[i0].1 == es[i0].1 && r[i0].2 == es[i0].2);
    lemma_others_differ(es, mode, s.0, i0);
    lemma_served_step(es, r, f, x, mode, i0);
    lemma_first_given_step(es, r, f, x, mode, default_up);
    lemma_named_step(es, r);
    assert(entries_filters(r, f2, mode)) by {
        reveal(entries_filters);
        assert forall|i: int| 0 <= i < r.len() implies (#[trigger] r[i]).3 == filters_for(f2, mode, r[i].1) by {
            assert(es[i].3 == filters_for(f, mode, es[i].1));
            lemma_filters_for_push(f, mode, x, es[i].1);
        }
    }
}

/// A socket whose path no entry has: it becomes a new entry.
proof fn lemma_new_entry_serves(
    es: Seq<SocketEntryView>,
    f: Seq<(Seq<char>, SpecSocket)>,
    mode: PathCompare,
    default_up: Seq<char>,
    gpath: Seq<char>,
    s: SpecSocket,
)
    requires
        compares_by_equivalence(mode),
        serves_sockets(es, f, mode, default_up),
        first_same_path(es, mode, s.0) is None,
        forall|i: int| 0 <= i < es.len() ==> !same_path(mode, (#[trigger] es[i]).1, s.0),
    ensures
        serves_sockets(add_socket(es, mode, default_up, gpath, s), f.push((gpath, s)), mode, default_up),
{
    let x = (gpath, s);
    let f2 = f.push(x);
    let r = add_socket(es, mode, default_up, gpath, s);
    let base = spec_socket_base_name(s.0);
    let e = (
        unique_name(es, base),
        s.0,
        upstream_override(mode, gpath, default_up),
        if s.1.len() == 0 {
            Seq::<Seq<Seq<char>>>::empty()
        } else {
            seq![s.1]
        },
    );
    assert(r == es.push(e));
    let n = es.len() as int;
    assert(r[n] == e);
    assert forall|i: int| 0 <= i < n implies #[trigger] r[i] == es[i] by {}
    lemma_same_path_refl(mode, s.0);
    lemma_not_given(es, f, mode, s.0);
    lemma_served_step(es, r, f, x, mode, n);
    lemma_first_given_step(es, r, f, x, mode, default_up);
    lemma_unique_named(es, base);
    lemma_named_step(es, r);
    lemma_filters_for_none(f, mode, s.0);
    assert(entries_filters(r, f2, mode)) by {
        reveal(entries_filters);
        assert forall|i: int| 0 <= i < r.len() implies (#[trigger] r[i]).3 == filters_for(f2, mode, r[i].1) by {
            lemma_filters_for_push(f, mode, x, r[i].1);
            if i < n {
                assert(es[i].3 == filters_for(f, mode, es[i].1));
            } else {
                assert(Seq::<Seq<Seq<char>>>::empty().push(s.1) =~= seq![s.1]);
            }
        }
    }
}

proof fn lemma_add_socket_serves(
    es: Seq<SocketEntryView>,
    f: Seq<(Seq<char>, SpecSocket)>,
    mode: PathCompare,
    default_up: Seq<char>,
    gpath: Seq<char>,
    s: SpecSocket,
)
    requires
        compares_by_equivalence(mode),
        entries_distinct(es, mode),
        serves_sockets(es, f, mode, default_up),
    ensures
        serves_sockets(add_socket(es, mode, default_up, gpath, s), f.push((gpath, s)), mode, default_up),
{
    lemma_first_same_path(es, mode, s.0);
    match first_same_path(es, mode, s.0) {
        Some(i0) => lemma_merge_serves(es, f, mode, default_up, gpath, s, i0),
        None => lemma_new_entry_serves(es, f, mode, default_up, gpath, s),
    }
}

proof fn lemma_add_all_serves(mode: PathCompare, default_up: Seq<char>, f: Seq<(Seq<char>, SpecSocket)>)
    requires
        compares_by_equivalence(mode),
    ensures
        serves_sockets(add_all(Seq::empty(), mode, default_up, f), f, mode, default_up),
        entries_distinct(add_all(Seq::empty(), mode, default_up, f), mode),
    decreases f.len(),
{
    if f.len() > 0 {
        let prev = add_all(Seq::empty(), mode, default_up, f.drop_last());
        lemma_add_all_serves(mode, default_up, f.drop_last());
        lemma_add_socket_serves(prev, f.drop_last(), mode, default_up, f.last().0, f.last().1);
        lemma_add_socket_distinct(prev, mode, default_up, f.last().0, f.last().1);
        assert(f.drop_last().push(f.last()) =~= f);
    } else {
        reveal(every_socket_served);
        reveal(entries_first_given);
        reveal(entries_filters);
        reveal(entries_named);
    }
}

/// How a command line's sockets are merged, whichever way paths are
/// compared: with the sockets of all groups taken in command-line order,
/// every socket given is served by an entry with the same path; each entry
/// is the first socket given with its path, and keeps that socket's group
/// upstream unless it is the same path as the first group's; its filter
/// groups are the non-empty filter lists of every socket given with its
/// path, in order; its name is the file stem of its path, or `stem-N` for
/// the least `N` from 2 on that no earlier entry has taken.
pub proof fn lemma_cli_sockets_merge(groups: Seq<CliGroupView>, mode: PathCompare)
    requires
        groups.len() > 0,
    ensures
        serves_sockets(spec_cli_sockets(groups, mode), flat_sockets(groups), mode, groups[0].0),
{
    lemma_path_compare_is_equivalence(mode);
    lemma_add_groups_as_all(Seq::empty(), mode, groups[0].0, groups);
    lemma_add_all_serves(mode, groups[0].0, flat_sockets(groups));
}

/// Both ways of comparing paths are equivalences: as text, and as `Path`s
/// (by their components).
pub proof fn lemma_path_compare_is_equivalence(mode: PathCompare)
    ensures
        compares_by_equivalence(mode),
{
    reveal(compares_by_equivalence);
}

/// Whether two paths are the same under `mode`.
fn same_path_exec(mode: PathCompare, a: &str, b: &str) -> (r: bool)
    ensures
        r == same_path(mode, a@, b@),
{
    match mode {
        PathCompare::AsPaths => crate::utils::path::paths_equal(a, b),
        PathCompare::AsText => crate::text::str_eq(a, b),
    }
}

/// Whether some entry is named `nm`.
fn name_taken_exec(entries: &Vec<(String, RunSocketConfig)>, nm: &str) -> (r: bool)
    ensures
        r == name_taken(entries_view(entries@), nm@),
{
    let ghost es = entries_view(entries@);
    let mut i: usize = 0;
    while i < entries.len()
        invariant
            i <= entries@.len(),
            es == entries_view(entries@),
            forall|j: int| 0 <= j < i ==> (#[trigger] es[j]).0 != nm@,
        decreases entries@.len() - i,
    {
        if crate::text::str_eq(entries[i].0.as_str(), nm) {
            assert(es[i as int].0 == nm@);
            return true;
        }
        i = i + 1;
    }
    false
}

/// A name for a new entry, as [`unique_name`] states.
fn unique_name_exec(entries: &Vec<(String, RunSocketConfig)>, base: String) -> (r: String)
    requires
        entries@.len() + 3 <= u64::MAX,
    ensures
        r@ == unique_name(entries_view(entries@), base@),
{
    let ghost es = entries_view(entries@);
    if !name_taken_exec(entries, base.as_str()) {
        return base;
    }
    let mut k: u64 = 2;
    proof {
        reveal_strlit("-");
    }
    loop
        invariant
            2 <= k,
            k - 2 <= entries@.len(),
            entries@.len() + 3 <= u64::MAX,
            es == entries_view(entries@),
            name_taken(es, base@),
            forall|j: nat| 2 <= j < k ==> name_taken(es, #[trigger] suffixed(base@, j)),
        decreases entries@.len() + 2 - k,
    {
        let with_dash = crate::text::concat_str(base.as_str(), "-");
        let digits = decimal_string(k);
        let cand = crate::text::concat_str(with_dash.as_str(), digits.as_str());
        assert(cand@ == suffixed(base@, k as nat));
        if !name_taken_exec(entries, cand.as_str()) {
            proof {
                assert(free_suffix(es, base@, k as nat));
                let c = choose|c: nat| free_suffix(es, base@, c);
                if c < k {
                    assert(name_taken(es, suffixed(base@, c)));
                }
                if c > k {
                    assert(name_taken(es, suffixed(base@, k as nat)));
                }
            }
            return cand;
        }
        proof {
            lemma_suffix_bound(es, base@, (k + 1) as nat);
        }
        k = k + 1;
    }
}

/// The name a socket path gets before deduplication.
fn socket_base_name(path: &str) -> (r: String)
    ensures
        r@ == spec_socket_base_name(path@),
{
    match crate::utils::path::path_file_name(path) {
        Some(n) => crate::utils::path::file_stem_of(n.as_str()),
        None => "socket".to_string(),
    }
}

/// Copies a list of filters.
fn copy_filters(v: &Vec<String>) -> (r: Vec<String>)
    ensures
        r@.map_values(|f: String| f@) == v@.map_values(|f: String| f@),
{
    let r = crate::config::clone_strings(v);
    assert(r@.map_values(|f: String| f@) =~= v@.map_values(|f: String| f@));
    r
}

/// The first entry whose path is the same as `p`, as [`first_same_path`]
/// states.
fn find_same_path(entries: &Vec<(String, RunSocketConfig)>, mode: PathCompare, p: &str) -> (r: Option<usize>)
    ensures
        match r {
            Some(k) => k < entries@.len() && first_same_path(entries_view(entries@), mode, p@) == Some(k as int),
            None => first_same_path(entries_view(entries@), mode, p@) is None,
        },
{
    let ghost es = entries_view(entries@);
    let mut i: usize = 0;
    while i < entries.len()
        invariant
            i <= entries@.len(),
            es == entries_view(entries@),
            forall|j: int| 0 <= j < i ==> !same_path(mode, (#[trigger] es[j]).1, p@),
        decreases entries@.len() - i,
    {
        if same_path_exec(mode, entries[i].1.path.as_str(), p) {
            proof {
                let k = i as int;
                assert(same_path(mode, es[k].1, p@));
                let c = choose|c: int|
                    0 <= c < es.len() && same_path(mode, (#[trigger] es[c]).1, p@) && forall|j: int|
                        0 <= j < c ==> !same_path(mode, (#[trigger] es[j]).1, p@);
                if c > k {
                    assert(!same_path(mode, es[k].1, p@));
                }
            }
            return Some(i);
        }
        i = i + 1;
    }
    None
}

/// Adds one socket, as [`add_socket`] states.
fn add_socket_exec(
    entries: &mut Vec<(String, RunSocketConfig)>,
    mode: PathCompare,
    default_up: &str,
    gpath: &str,
    sock: &SocketSpec,
)
    requires
        old(entries)@.len() + 4 <= u64::MAX,
    ensures
        entries_view(final(entries)@) == add_socket(
            entries_view(old(entries)@),
            mode,
            default_up@,
            gpath@,
            socket_view(*sock),
        ),
        final(entries)@.len() <= old(entries)@.len() + 1,
{
    let ghost es = entries_view(entries@);
    let ghost sv = socket_view(*sock);
    let found = find_same_path(entries, mode, sock.path.as_str());
    match found {
        Some(k) => {
            if sock.filters.len() > 0 {
                append_filter_group(entries, k, &sock.filters);
            }
        },
        None => {
            let entry = new_entry(entries, mode, default_up, gpath, sock);
            entries.push(entry);
            assert(entries_view(entries@) =~= es.push(entry_view(entry)));
        },
    }
}

/// Adds `filters` as one more group of entry `k`.
fn append_filter_group(entries: &mut Vec<(String, RunSocketConfig)>, k: usize, filters: &Vec<String>)
    requires
        k < old(entries)@.len(),
    ensures
        final(entries)@.len() == old(entries)@.len(),
        entries_view(final(entries)@) == entries_view(old(entries)@).update(
            k as int,
            (
                entries_view(old(entries)@)[k as int].0,
                entries_view(old(entries)@)[k as int].1,
                entries_view(old(entries)@)[k as int].2,
                entries_view(old(entries)@)[k as int].3.push(filters@.map_values(|f: String| f@)),
            ),
        ),
{
    let ghost es = entries_view(entries@);
    let ghost fv = filters@.map_values(|f: String| f@);
    let mut e = entries.remove(k);
    let ghost ev = entry_view(e);
    assert(ev == es[k as int]);
    let group = copy_filters(filters);
    e.1.filters.push(group);
    assert(entry_view(e).3 =~= ev.3.push(fv));
    entries.insert(k, e);
    assert(entries_view(entries@) =~= es.update(k as int, (ev.0, ev.1, ev.2, ev.3.push(fv))));
}

/// The entry a new socket path gets.
fn new_entry(
    entries: &Vec<(String, RunSocketConfig)>,
    mode: PathCompare,
    default_up: &str,
    gpath: &str,
    sock: &SocketSpec,
) -> (r: (String, RunSocketConfig))
    requires
        entries@.len() + 3 <= u64::MAX,
    ensures
        entry_view(r) == (
            unique_name(entries_view(entries@), spec_socket_base_name(sock.path@)),
            sock.path@,
            if same_path(mode, gpath@, default_up@) {
                None
            } else {
                Some(gpath@)
            },
            if socket_view(*sock).1.len() == 0 {
                Seq::<Seq<Seq<char>>>::empty()
            } else {
                seq![socket_view(*sock).1]
            },
        ),
{
    let ghost sv = socket_view(*sock);
    let base = socket_base_name(sock.path.as_str());
    let name = unique_name_exec(entries, base);
    let upstream = if same_path_exec(mode, gpath, default_up) {
        None
    } else {
        Some(gpath.to_string())
    };
    let mut filters: Vec<Vec<String>> = Vec::new();
    if sock.filters.len() > 0 {
        filters.push(copy_filters(&sock.filters));
    }
    let entry = (name, RunSocketConfig { path: sock.path.clone(), upstream, filters });
    assert(entry_view(entry).3 =~= (if sv.1.len() == 0 { Seq::<Seq<Seq<char>>>::empty() } else { seq![sv.1] }));
    entry
}

proof fn lemma_sockets_total_step(groups: Seq<CliGroupView>, i: int)
    requires
        0 <= i < groups.len(),
    ensures
        sockets_total(groups.take(i + 1)) == sockets_total(groups.take(i)) + groups[i].1.len(),
{
    assert(groups.take(i + 1).drop_last() =~= groups.take(i));
}

proof fn lemma_sockets_total_prefix(groups: Seq<CliGroupView>, i: int)
    requires
        0 <= i <= groups.len(),
    ensures
        sockets_total(groups.take(i)) <= sockets_total(groups),
    decreases groups.len() - i,
{
    if i < groups.len() {
        lemma_sockets_total_step(groups, i);
        lemma_sockets_total_prefix(groups, i + 1);
    } else {
        assert(groups.take(i) =~= groups);
    }
}

/// The socket entries of the command-line groups, as [`spec_cli_sockets`]
/// states.
pub fn build_cli_sockets(groups: &[UpstreamGroup], mode: PathCompare) -> (r: Vec<(String, RunSocketConfig)>)
    requires
        groups@.len() > 0,
        sockets_total(groups@.map_values(|g: UpstreamGroup| cli_group_view(g))) + 4 <= u64::MAX,
    ensures
        entries_view(r@) == spec_cli_sockets(groups@.map_values(|g: UpstreamGroup| cli_group_view(g)), mode),
{
    let ghost gv = groups@.map_values(|g: UpstreamGroup| cli_group_view(g));
    let default_up = &groups[0].path;
    assert(gv[0].0 == default_up@);
    let mut entries: Vec<(String, RunSocketConfig)> = Vec::new();
    let mut gi: usize = 0;
    assert(entries_view(entries@) =~= add_groups(Seq::empty(), mode, default_up@, gv.take(0)));
    while gi < groups.len()
        invariant
            gi <= groups@.len(),
            gv == groups@.map_values(|g: UpstreamGroup| cli_group_view(g)),
            default_up@ == gv[0].0,
            sockets_total(gv) + 4 <= u64::MAX,
            entries_view(entries@) == add_groups(Seq::empty(), mode, default_up@, gv.take(gi as int)),
            entries@.len() <= sockets_total(gv.take(gi as int)),
        decreases groups@.len() - gi,
    {
        let group = &groups[gi];
        let ghost g = gv[gi as int];
        assert(g == cli_group_view(*group));
        let ghost before = entries_view(entries@);
        let ghost base_len = entries@.len();
        proof {
            lemma_sockets_total_step(gv, gi as int);
            lemma_sockets_total_prefix(gv, gi + 1);
        }
        let mut si: usize = 0;
        assert(add_sockets(before, mode, default_up@, g.0, g.1.take(0)) == before);
        while si < group.sockets.len()
            invariant
                si <= group.sockets@.len(),
                g == cli_group_view(*group),
                sockets_total(gv.take(gi as int)) + group.sockets@.len() + 4 <= u64::MAX,
                base_len <= sockets_total(gv.take(gi as int)),
                entries@.len() <= base_len + si,
                entries_view(entries@) == add_sockets(before, mode, default_up@, g.0, g.1.take(si as int)),
            decreases group.sockets@.len() - si,
        {
            let ghost pre = entries_view(entries@);
            add_socket_exec(&mut entries, mode, default_up.as_str(), group.path.as_str(), &group.sockets[si]);
            proof {
                assert(g.1.take(si + 1).drop_last() =~= g.1.take(si as int));
                assert(g.1.take(si + 1).last() == socket_view(group.sockets@[si as int]));
            }
            si = si + 1;
        }
        proof {
            assert(g.1.take(si as int) =~= g.1);
            assert(gv.take(gi + 1).drop_last() =~= gv.take(gi as int));
            assert(gv.take(gi + 1).last() == g);
        }
        gi = gi + 1;
    }
    assert(gv.take(gi as int) =~= gv);
    entries
}

/// The configuration the command line describes, as `run` uses it: the
/// first group's upstream is the default one, paths are compared as
/// paths, and the GitHub settings are one hour of cache and ten seconds of
/// timeout. `None` when there are no groups.
pub fn cli_run_config(groups: &[UpstreamGroup]) -> (r: Option<RunConfig>)
    requires
        sockets_total(groups@.map_values(|g: UpstreamGroup| cli_group_view(g))) + 4 <= u64::MAX,
    ensures
        r is None <==> groups@.len() == 0,
        r matches Some(c) ==> {
            &&& c.upstream@ == groups@[0].path@
            &&& c.log_path is None
            &&& entries_view(c.sockets@) == spec_cli_sockets(
                groups@.map_values(|g: UpstreamGroup| cli_group_view(g)),
                PathCompare::AsPaths,
            )
            &&& c.github.cache_ttl == 3600
            &&& c.github.timeout == 10
        },
{
    if groups.len() == 0 {
        return None;
    }
    let sockets = build_cli_sockets(groups, PathCompare::AsPaths);
    Some(
        RunConfig {
            upstream: groups[0].path.clone(),
            log_path: None,
            sockets,
            github: ExpandedGithubConfig { cache_ttl: 3600, timeout: 10 },
        },
    )
}

/// The run view of a configuration file's socket: its name, path, own
/// upstream and filter groups.
pub open spec fn file_socket_view(e: (String, ExpandedSocketConfig)) -> SocketEntryView {
    (e.0@, e.1.path@, opt_view(e.1.upstream), filter_lists_view(e.1.filters@))
}

/// `r` is the run configuration of the file configuration `e`: same
/// upstream, log file and GitHub settings, and each socket with its name,
/// path, own upstream and filter groups, in order.
pub open spec fn run_config_from(r: RunConfig, e: ExpandedConfig) -> bool {
    &&& r.upstream@ == e.upstream@
    &&& r.log_path == e.log_path
    &&& r.github == e.github
    &&& r.sockets@.len() == e.sockets@.len()
    &&& forall|i: int| 0 <= i < e.sockets@.len() ==> #[trigger] entry_view(r.sockets@[i]) == file_socket_view(
        e.sockets@[i],
    )
}

impl RunConfig {
    /// The configuration a configuration file gives: each socket keeps its
    /// name, path, own upstream and filter groups.
    pub fn from_expanded(e: ExpandedConfig) -> (r: RunConfig)
        ensures
            run_config_from(r, e),
    {
        let ExpandedConfig { upstream, log_path, sockets, github } = e;
        let ghost all = sockets@;
        let mut src = sockets;
        let mut out: Vec<(String, RunSocketConfig)> = Vec::new();
        let mut i: usize = 0;
        let n = src.len();
        while i < n
            invariant
                n == all.len(),
                i <= n,
                src@.len() == n - i,
                forall|j: int| 0 <= j < src@.len() ==> #[trigger] src@[j] == all[i + j],
                out@.len() == i,
                forall|j: int| 0 <= j < i ==> #[trigger] entry_view(out@[j]) == file_socket_view(all[j]),
            decreases n - i,
        {
            let (name, sc) = src.remove(0);
            let entry = (name, RunSocketConfig { path: sc.path, upstream: sc.upstream, filters: sc.filters });
            out.push(entry);
            i = i + 1;
        }
        RunConfig { upstream, log_path, sockets: out, github }
    }
}

/// Socket names are keys: a configuration file's sockets have distinct
/// names, and expanding its paths and making the run configuration keep
/// each name at its place, so the run configuration's names are distinct
/// too.
pub proof fn lemma_file_names_stay_distinct(
    c: Config,
    e: ExpandedConfig,
    r: RunConfig,
    up: Seq<char>,
    lp: Option<Seq<char>>,
    sp: Seq<(Seq<char>, Option<Seq<char>>)>,
)
    requires
        names_distinct(c.sockets@.map_values(|s: (String, SocketConfig)| s.0@)),
        expanded_from(e, c, up, lp, sp),
        run_config_from(r, e),
    ensures
        names_distinct(r.sockets@.map_values(|s: (String, RunSocketConfig)| s.0@)),
{
    let cn = c.sockets@.map_values(|s: (String, SocketConfig)| s.0@);
    let rn = r.sockets@.map_values(|s: (String, RunSocketConfig)| s.0@);
    assert forall|i: int, j: int| 0 <= i < j < rn.len() implies rn[i] != rn[j] by {
        assert(entry_view(r.sockets@[i]) == file_socket_view(e.sockets@[i]));
        assert(entry_view(r.sockets@[j]) == file_socket_view(e.sockets@[j]));
        assert(e.sockets@[i].0@ == c.sockets@[i].0@);
        assert(e.sockets@[j].0@ == c.sockets@[j].0@);
        assert(cn[i] != cn[j]);
    }
}

/// The configuration `run` uses: the command line's when it describes any
/// socket group; else the configuration file's (`from_file`: `None` when
/// no file was given or found, else the result of loading and expanding
/// it).
pub fn load_configuration(groups: &[UpstreamGroup], from_file: Option<Result<ExpandedConfig, Error>>) -> (r: Result<
    RunConfig,
    Error,
>)
    requires
        sockets_total(groups@.map_values(|g: UpstreamGroup| cli_group_view(g))) + 4 <= u64::MAX,
    ensures
        groups@.len() > 0 ==> (r matches Ok(c) && c.upstream@ == groups@[0].path@ && entries_view(c.sockets@)
            == spec_cli_sockets(groups@.map_values(|g: UpstreamGroup| cli_group_view(g)), PathCompare::AsPaths)
            && c.github.cache_ttl == 3600 && c.github.timeout == 10),
        groups@.len() > 0 ==> (r matches Ok(c) && serves_sockets(
            entries_view(c.sockets@),
            flat_sockets(groups@.map_values(|g: UpstreamGroup| cli_group_view(g))),
            PathCompare::AsPaths,
            groups@[0].path@,
        ) && entries_distinct(entries_view(c.sockets@), PathCompare::AsPaths)),
        groups@.len() == 0 ==> match from_file {
            None => (r matches Err(Error::Config(m)) && m@
                == "No configuration found. Use --socket option or create a config file."@),
            Some(Err(e)) => r == Err::<RunConfig, Error>(e),
            Some(Ok(e)) => (r matches Ok(c) && run_config_from(c, e)),
        },
{
    if groups.len() > 0 {
        proof {
            let gv = groups@.map_values(|g: UpstreamGroup| cli_group_view(g));
            assert(gv[0].0 == groups@[0].path@);
            lemma_cli_sockets_merge(gv, PathCompare::AsPaths);
            lemma_cli_sockets_distinct(gv, PathCompare::AsPaths);
        }
    }
    match cli_run_config(groups) {
        Some(c) => Ok(c),
        None => match from_file {
            None => Err(
                Error::Config("No configuration found. Use --socket option or create a config file.".to_string()),
            ),
            Some(Err(e)) => Err(e),
            Some(Ok(e)) => Ok(RunConfig::from_expanded(e)),
        },
    }
}

/// The configuration `--print-config` prints: as [`cli_run_config`], with
/// paths compared as text and the default GitHub settings. An error when
/// the command line describes no socket group.
pub fn cli_print_config(groups: &[UpstreamGroup]) -> (r: Result<PrintedConfig, Error>)
    requires
        sockets_total(groups@.map_values(|g: UpstreamGroup| cli_group_view(g))) + 4 <= u64::MAX,
    ensures
        r is Err <==> groups@.len() == 0,
        r matches Err(e) ==> (e matches Error::Config(m) && m@
            == "No configuration to print. Use --upstream and --socket options."@),
        r matches Ok(c) ==> {
            &&& c.upstream@ == groups@[0].path@
            &&& entries_view(c.sockets@) == spec_cli_sockets(
                groups@.map_values(|g: UpstreamGroup| cli_group_view(g)),
                PathCompare::AsText,
            )
            &&& c.github.cache_ttl@ == "1h"@
            &&& c.github.timeout@ == "10s"@
        },
{
    if groups.len() == 0 {
        return Err(Error::Config("No configuration to print. Use --upstream and --socket options.".to_string()));
    }
    let sockets = build_cli_sockets(groups, PathCompare::AsText);
    Ok(PrintedConfig { upstream: groups[0].path.clone(), sockets, github: GithubConfig::default() })
}

/// `run` needs at least one socket.
pub fn check_sockets_configured(c: &RunConfig) -> (r: Result<(), Error>)
    ensures
        r is Ok <==> c.sockets@.len() > 0,
        r matches Err(e) ==> (e matches Error::Config(m) && m@
            == "No sockets configured. Use --socket option or define sockets in config file."@),
{
    if c.sockets.len() == 0 {
        Err(Error::Config("No sockets configured. Use --socket option or define sockets in config file.".to_string()))
    } else {
        Ok(())
    }
}

/// The upstream a socket uses: its own, else the default one.
pub fn socket_upstream<'a>(c: &'a RunConfig, s: &'a RunSocketConfig) -> (r: &'a String)
    ensures
        r@ == match s.upstream {
            Some(u) => u@,
            None => c.upstream@,
        },
{
    match &s.upstream {
        Some(u) => u,
        None => &c.upstream,
    }
}

/// Whether a served socket was replaced or removed, from its inode when it
/// was bound and its inode now (`None`: unknown or no file): the proxy
/// stops when the file is gone or is another file.
pub fn socket_replaced(bound: Option<u64>, current: Option<u64>) -> (r: bool)
    ensures
        r == (bound is Some && (current is None || current->Some_0 != bound->Some_0)),
{
    match (bound, current) {
        (Some(o), Some(c)) => o != c,
        (Some(_), None) => true,
        _ => false,
    }
}

} // verus!
