//! How the `run` command line written from a configuration file reads
//! back: the sockets it describes are the configuration's sockets, each
//! with its upstream and filters.

use vstd::prelude::*;
use crate::cli::args::{
    flush_group, flush_socket, group_step, group_walk, is_global_option, spec_group_args, GroupState, SpecGroup,
    SpecSocket,
};
use crate::cli::commands::config::{
    command_steps, lemma_steps_args_concat, socket_steps, socket_upstream_of, spec_config_as_command, step_args,
    steps_args, CommandStep,
};
use crate::config::{spec_filter_groups, Config, SocketConfig};
use crate::text::spec_starts_with;

verus! {

/// A filter that the command-line parser reads as a filter: not an option
/// (`--...`), and neither `-h` nor `-V`.
pub open spec fn plain_filter(f: Seq<char>) -> bool {
    !spec_starts_with(f, "--"@) && f != "-h"@ && f != "-V"@
}

/// Every filter of every filter group of every socket of `c` is a plain
/// filter.
pub open spec fn filters_plain(c: Config) -> bool {
    forall|i: int, g: int, j: int|
        0 <= i < c.sockets@.len() && 0 <= g < spec_filter_groups(c.sockets@[i].1.filters@).len() && 0 <= j
            < spec_filter_groups(c.sockets@[i].1.filters@)[g].len() ==> plain_filter(
            #[trigger] spec_filter_groups(c.sockets@[i].1.filters@)[g][j],
        )
}

/// A socket as a command line uses it: upstream, socket path and filters.
pub type SocketUse = (Seq<char>, Seq<char>, Seq<Seq<char>>);

/// The socket uses of a group: each of its sockets with its upstream.
pub open spec fn uses_of_group(g: SpecGroup) -> Seq<SocketUse> {
    g.2.map_values(|s: SpecSocket| (g.0, s.0, s.1))
}

/// The socket uses of groups, in order.
pub open spec fn group_uses(gs: Seq<SpecGroup>) -> Seq<SocketUse>
    decreases gs.len(),
{
    if gs.len() == 0 {
        Seq::empty()
    } else {
        group_uses(gs.drop_last()) + uses_of_group(gs.last())
    }
}

/// The socket uses of a configured socket: with its upstream, once per
/// filter group, or once without filters when it has none.
pub open spec fn socket_uses(c: Config, s: SocketConfig) -> Seq<SocketUse> {
    let gs = spec_filter_groups(s.filters@);
    let u = socket_upstream_of(c, s);
    if gs.len() == 0 {
        seq![(u, s.path@, Seq::<Seq<char>>::empty())]
    } else {
        gs.map_values(|g: Seq<Seq<char>>| (u, s.path@, g))
    }
}

/// The socket uses of the first `k` sockets of `c`, in order.
pub open spec fn config_uses(c: Config, k: int) -> Seq<SocketUse>
    decreases k,
{
    if k <= 0 {
        Seq::empty()
    } else {
        config_uses(c, k - 1) + socket_uses(c, c.sockets@[k - 1].1)
    }
}

/// The parser's state after one step.
spec fn apply_step(st: GroupState, s: CommandStep) -> GroupState {
    match s {
        CommandStep::Upstream(u) => {
            let st1 = flush_group(flush_socket(st));
            (st1.0, Some((u, false, Seq::empty())), st1.2)
        },
        CommandStep::Socket(p, fs) => {
            let st1 = flush_socket(st);
            (st1.0, st1.1, Some((p, fs)))
        },
    }
}

/// The parser's state after steps.
spec fn run_steps(st: GroupState, steps: Seq<CommandStep>) -> GroupState
    decreases steps.len(),
{
    if steps.len() == 0 {
        st
    } else {
        run_steps(apply_step(st, steps[0]), steps.skip(1))
    }
}

/// The socket uses that a parser state stands for once it is closed.
spec fn state_uses(st: GroupState) -> Seq<SocketUse> {
    group_uses(flush_group(flush_socket(st)).0)
}

/// The socket uses of steps, with `ctx` the upstream in effect.
spec fn step_uses(ctx: Seq<char>, steps: Seq<CommandStep>) -> Seq<SocketUse>
    decreases steps.len(),
{
    if steps.len() == 0 {
        Seq::empty()
    } else {
        match steps[0] {
            CommandStep::Upstream(u) => step_uses(u, steps.skip(1)),
            CommandStep::Socket(p, fs) => seq![(ctx, p, fs)] + step_uses(ctx, steps.skip(1)),
        }
    }
}

/// The upstream in effect after steps, `ctx` before them.
spec fn ctx_after(ctx: Seq<char>, steps: Seq<CommandStep>) -> Seq<char>
    decreases steps.len(),
{
    if steps.len() == 0 {
        ctx
    } else {
        match steps[0] {
            CommandStep::Upstream(u) => ctx_after(u, steps.skip(1)),
            CommandStep::Socket(_, _) => ctx_after(ctx, steps.skip(1)),
        }
    }
}

/// Every filter of every socket step is a plain filter.
spec fn steps_plain(steps: Seq<CommandStep>) -> bool {
    forall|t: int, j: int|
        0 <= t < steps.len() && steps[t] is Socket && 0 <= j < steps[t]->Socket_1.len() ==> plain_filter(
            #[trigger] steps[t]->Socket_1[j],
        )
}

proof fn lemma_option_prefix(a: Seq<char>, p: Seq<char>)
    requires
        spec_starts_with(p, "--"@),
        spec_starts_with(a, p),
    ensures
        spec_starts_with(a, "--"@),
{
    reveal_strlit("--");
    assert(a.take(2) =~= p.take(2));
}

proof fn lemma_plain_filter_read(f: Seq<char>)
    requires
        plain_filter(f),
    ensures
        f != "--upstream"@,
        !spec_starts_with(f, "--upstream="@),
        f != "--socket"@,
        !spec_starts_with(f, "--socket="@),
        !is_global_option(f),
        !spec_starts_with(f, "--"@),
{
    reveal_strlit("--");
    reveal_strlit("--upstream");
    reveal_strlit("--upstream=");
    reveal_strlit("--socket");
    reveal_strlit("--socket=");
    reveal_strlit("--config");
    reveal_strlit("--verbose");
    reveal_strlit("--quiet");
    reveal_strlit("--name");
    reveal_strlit("--start");
    reveal_strlit("--enable");
    reveal_strlit("--purge");
    reveal_strlit("--help");
    reveal_strlit("--version");
    assert("--upstream"@.take(2) =~= "--"@);
    assert("--socket"@.take(2) =~= "--"@);
    assert("--help"@.take(2) =~= "--"@);
    assert("--version"@.take(2) =~= "--"@);
    assert("--upstream="@.take(2) =~= "--"@);
    assert("--socket="@.take(2) =~= "--"@);
    assert("--config"@.take(2) =~= "--"@);
    assert("--verbose"@.take(2) =~= "--"@);
    assert("--quiet"@.take(2) =~= "--"@);
    assert("--name"@.take(2) =~= "--"@);
    assert("--start"@.take(2) =~= "--"@);
    assert("--enable"@.take(2) =~= "--"@);
    assert("--purge"@.take(2) =~= "--"@);
    if spec_starts_with(f, "--upstream="@) {
        lemma_option_prefix(f, "--upstream="@);
    }
    if spec_starts_with(f, "--socket="@) {
        lemma_option_prefix(f, "--socket="@);
    }
    if spec_starts_with(f, "--config"@) {
        lemma_option_prefix(f, "--config"@);
    }
    if spec_starts_with(f, "--verbose"@) {
        lemma_option_prefix(f, "--verbose"@);
    }
    if spec_starts_with(f, "--quiet"@) {
        lemma_option_prefix(f, "--quiet"@);
    }
    if spec_starts_with(f, "--name"@) {
        lemma_option_prefix(f, "--name"@);
    }
    if spec_starts_with(f, "--start"@) {
        lemma_option_prefix(f, "--start"@);
    }
    if spec_starts_with(f, "--enable"@) {
        lemma_option_prefix(f, "--enable"@);
    }
    if spec_starts_with(f, "--purge"@) {
        lemma_option_prefix(f, "--purge"@);
    }
}

/// Reading the filters of one socket, from its `j`-th on.
proof fn lemma_read_filters(
    args: Seq<Seq<char>>,
    p: int,
    fs: Seq<Seq<char>>,
    j: int,
    groups: Seq<SpecGroup>,
    g: SpecGroup,
    path: Seq<char>,
    ssh: Option<Seq<char>>,
)
    requires
        0 <= p,
        0 <= j <= fs.len(),
        p + fs.len() <= args.len(),
        forall|t: int| 0 <= t < fs.len() ==> #[trigger] args[p + t] == fs[t],
        forall|t: int| 0 <= t < fs.len() ==> plain_filter(#[trigger] fs[t]),
    ensures
        group_walk(args, p + j, (groups, Some(g), Some((path, fs.take(j)))), ssh) == group_walk(
            args,
            p + fs.len(),
            (groups, Some(g), Some((path, fs))),
            ssh,
        ),
    decreases fs.len() - j,
{
    if j < fs.len() {
        let a = args[p + j];
        assert(a == fs[j]);
        lemma_plain_filter_read(a);
        let st = (groups, Some(g), Some((path, fs.take(j))));
        assert(fs.take(j).push(fs[j]) =~= fs.take(j + 1));
        assert(group_step(args, p + j, st, ssh) == ((groups, Some(g), Some((path, fs.take(j + 1)))), p + j + 1));
        lemma_read_filters(args, p, fs, j + 1, groups, g, path, ssh);
    } else {
        assert(fs.take(j) =~= fs);
    }
}

/// The parser reads a command line made of steps as the steps say.
proof fn lemma_walk_steps(args: Seq<Seq<char>>, p: int, st: GroupState, steps: Seq<CommandStep>, ssh: Option<Seq<char>>)
    requires
        0 <= p,
        st.1 is Some,
        p + steps_args(steps).len() == args.len(),
        forall|t: int| 0 <= t < steps_args(steps).len() ==> #[trigger] args[p + t] == steps_args(steps)[t],
        steps_plain(steps),
    ensures
        group_walk(args, p, st, ssh) == flush_group(flush_socket(run_steps(st, steps))).0,
    decreases steps.len(),
{
    reveal_strlit("--upstream");
    reveal_strlit("--upstream=");
    reveal_strlit("--socket");
    if steps.len() == 0 {
        assert(p == args.len());
    } else {
        let s = steps[0];
        let rest = steps.skip(1);
        let sa = step_args(s);
        assert(steps_args(steps) == sa + steps_args(rest));
        assert forall|t: int| 0 <= t < sa.len() implies #[trigger] args[p + t] == sa[t] by {
            assert(args[p + t] == steps_args(steps)[t]);
        }
        assert forall|t: int| 0 <= t < steps_args(rest).len() implies #[trigger] args[p + sa.len() + t]
            == steps_args(rest)[t] by {
            assert(args[p + (sa.len() + t)] == steps_args(steps)[sa.len() + t]);
        }
        assert(steps_plain(rest)) by {
            assert forall|t: int, j: int|
                0 <= t < rest.len() && rest[t] is Socket && 0 <= j < rest[t]->Socket_1.len() implies plain_filter(
                #[trigger] rest[t]->Socket_1[j],
            ) by {
                assert(rest[t] == steps[t + 1]);
            }
        }
        let st2 = apply_step(st, s);
        assert(args[p + 0] == sa[0]);
        assert(args[p + 1] == sa[1]);
        match s {
            CommandStep::Upstream(u) => {
                assert(args[p] == "--upstream"@);
                assert(args[p + 1] == u);
                assert(group_step(args, p, st, ssh) == (st2, p + 2));
            },
            CommandStep::Socket(path, fs) => {
                assert(args[p] == "--socket"@);
                assert(args[p + 1] == path);
                let st1 = flush_socket(st);
                let g1 = st1.1->Some_0;
                assert(group_step(args, p, st, ssh) == ((st1.0, Some(g1), Some((path, Seq::<Seq<char>>::empty()))), p + 2));
                assert forall|t: int| 0 <= t < fs.len() implies #[trigger] args[p + 2 + t] == fs[t] by {
                    assert(args[p + (2 + t)] == sa[2 + t]);
                }
                assert forall|t: int| 0 <= t < fs.len() implies plain_filter(#[trigger] fs[t]) by {
                    assert(steps[0] is Socket && 0 <= t < steps[0]->Socket_1.len());
                }
                assert(fs.take(0) =~= Seq::<Seq<char>>::empty());
                lemma_read_filters(args, p + 2, fs, 0, st1.0, g1, path, ssh);
                assert(st2 == (st1.0, Some(g1), Some((path, fs))));
            },
        }
        lemma_walk_steps(args, p + sa.len(), st2, rest, ssh);
    }
}

proof fn lemma_group_uses_push(gs: Seq<SpecGroup>, g: SpecGroup)
    ensures
        group_uses(gs.push(g)) == group_uses(gs) + uses_of_group(g),
{
    assert(gs.push(g).drop_last() =~= gs);
}

/// What one step adds to the socket uses of a parser state.
proof fn lemma_apply_uses(st: GroupState, s: CommandStep)
    requires
        st.1 is Some,
    ensures
        apply_step(st, s).1 is Some,
        state_uses(apply_step(st, s)) == state_uses(st) + match s {
            CommandStep::Upstream(_) => Seq::<SocketUse>::empty(),
            CommandStep::Socket(p, fs) => seq![(st.1->Some_0.0, p, fs)],
        },
        apply_step(st, s).1->Some_0.0 == match s {
            CommandStep::Upstream(u) => u,
            CommandStep::Socket(_, _) => st.1->Some_0.0,
        },
{
    let fs1 = flush_socket(st);
    let g2 = fs1.1->Some_0;
    assert(g2.0 == st.1->Some_0.0);
    let closed = flush_group(fs1);
    assert(group_uses(closed.0) == group_uses(st.0) + uses_of_group(g2)) by {
        if g2.2.len() > 0 {
            lemma_group_uses_push(st.0, g2);
        } else {
            assert(uses_of_group(g2) =~= Seq::<SocketUse>::empty());
            assert(group_uses(st.0) + uses_of_group(g2) =~= group_uses(st.0));
        }
    }
    match s {
        CommandStep::Upstream(u) => {
            let n = apply_step(st, s);
            assert(n == (closed.0, Some((u, false, Seq::<SpecSocket>::empty())), None::<SpecSocket>));
            assert(flush_group(flush_socket(n)).0 == closed.0);
            assert(state_uses(st) == group_uses(closed.0));
            assert(state_uses(n) =~= state_uses(st) + Seq::<SocketUse>::empty());
        },
        CommandStep::Socket(p, fs) => {
            let n = apply_step(st, s);
            let g3 = (g2.0, g2.1, g2.2.push((p, fs)));
            assert(flush_socket(n) == (st.0, Some(g3), None::<SpecSocket>));
            assert(flush_group(flush_socket(n)).0 == st.0.push(g3));
            lemma_group_uses_push(st.0, g3);
            assert(uses_of_group(g3) =~= uses_of_group(g2).push((g2.0, p, fs)));
            assert(state_uses(st) == group_uses(closed.0));
            assert(state_uses(n) =~= state_uses(st) + seq![(st.1->Some_0.0, p, fs)]);
        },
    }
}

/// The socket uses of a parser state after steps.
proof fn lemma_run_uses(st: GroupState, steps: Seq<CommandStep>)
    requires
        st.1 is Some,
    ensures
        state_uses(run_steps(st, steps)) == state_uses(st) + step_uses(st.1->Some_0.0, steps),
    decreases steps.len(),
{
    if steps.len() == 0 {
        assert(state_uses(st) + Seq::<SocketUse>::empty() =~= state_uses(st));
    } else {
        let s = steps[0];
        lemma_apply_uses(st, s);
        let st2 = apply_step(st, s);
        lemma_run_uses(st2, steps.skip(1));
        match s {
            CommandStep::Upstream(u) => {
                assert(state_uses(st2) + Seq::<SocketUse>::empty() =~= state_uses(st2));
            },
            CommandStep::Socket(p, fs) => {
                let ctx = st.1->Some_0.0;
                assert(state_uses(st) + seq![(ctx, p, fs)] + step_uses(ctx, steps.skip(1)) =~= state_uses(st)
                    + (seq![(ctx, p, fs)] + step_uses(ctx, steps.skip(1))));
            },
        }
    }
}

/// The socket uses of joined steps.
proof fn lemma_step_uses_concat(ctx: Seq<char>, a: Seq<CommandStep>, b: Seq<CommandStep>)
    ensures
        step_uses(ctx, a + b) == step_uses(ctx, a) + step_uses(ctx_after(ctx, a), b),
        ctx_after(ctx, a + b) == ctx_after(ctx_after(ctx, a), b),
    decreases a.len(),
{
    if a.len() == 0 {
        assert(a + b =~= b);
        assert(Seq::<SocketUse>::empty() + step_uses(ctx, b) =~= step_uses(ctx, b));
    } else {
        assert((a + b).skip(1) =~= a.skip(1) + b);
        assert((a + b)[0] == a[0]);
        match a[0] {
            CommandStep::Upstream(u) => {
                lemma_step_uses_concat(u, a.skip(1), b);
            },
            CommandStep::Socket(p, fs) => {
                lemma_step_uses_concat(ctx, a.skip(1), b);
                assert(seq![(ctx, p, fs)] + (step_uses(ctx, a.skip(1)) + step_uses(ctx_after(ctx, a.skip(1)), b))
                    =~= seq![(ctx, p, fs)] + step_uses(ctx, a.skip(1)) + step_uses(ctx_after(ctx, a.skip(1)), b));
            },
        }
    }
}

/// Socket steps for the groups of one socket.
proof fn lemma_group_steps_uses(u: Seq<char>, path: Seq<char>, gs: Seq<Seq<Seq<char>>>)
    ensures
        step_uses(u, gs.map_values(|g: Seq<Seq<char>>| CommandStep::Socket(path, g))) == gs.map_values(
            |g: Seq<Seq<char>>| (u, path, g),
        ),
        ctx_after(u, gs.map_values(|g: Seq<Seq<char>>| CommandStep::Socket(path, g))) == u,
    decreases gs.len(),
{
    let steps = gs.map_values(|g: Seq<Seq<char>>| CommandStep::Socket(path, g));
    if gs.len() > 0 {
        assert(steps.skip(1) =~= gs.skip(1).map_values(|g: Seq<Seq<char>>| CommandStep::Socket(path, g)));
        lemma_group_steps_uses(u, path, gs.skip(1));
        assert(gs.map_values(|g: Seq<Seq<char>>| (u, path, g)) =~= seq![(u, path, gs[0])] + gs.skip(1).map_values(
            |g: Seq<Seq<char>>| (u, path, g),
        ));
    } else {
        assert(steps =~= Seq::<CommandStep>::empty());
        assert(gs.map_values(|g: Seq<Seq<char>>| (u, path, g)) =~= Seq::<SocketUse>::empty());
    }
}

/// The socket uses of a configured socket's steps.
proof fn lemma_socket_steps_uses(c: Config, s: SocketConfig)
    ensures
        step_uses(socket_upstream_of(c, s), socket_steps(s)) == socket_uses(c, s),
        ctx_after(socket_upstream_of(c, s), socket_steps(s)) == socket_upstream_of(c, s),
{
    let u = socket_upstream_of(c, s);
    let gs = spec_filter_groups(s.filters@);
    if gs.len() == 0 {
        let st = socket_steps(s);
        assert(st.skip(1) =~= Seq::<CommandStep>::empty());
        reveal_with_fuel(step_uses, 2);
        reveal_with_fuel(ctx_after, 2);
        assert(seq![(u, s.path@, Seq::<Seq<char>>::empty())] + Seq::<SocketUse>::empty() =~= seq![
            (u, s.path@, Seq::<Seq<char>>::empty()),
        ]);
    } else {
        lemma_group_steps_uses(u, s.path@, gs);
    }
}

/// A switch to `u` when `cur` is not `u` leaves `u` in effect.
proof fn lemma_switch(cur: Seq<char>, u: Seq<char>)
    ensures
        ({
            let switch = if u == cur {
                Seq::<CommandStep>::empty()
            } else {
                seq![CommandStep::Upstream(u)]
            };
            step_uses(cur, switch) == Seq::<SocketUse>::empty() && ctx_after(cur, switch) == u
        }),
{
    reveal_with_fuel(step_uses, 2);
    reveal_with_fuel(ctx_after, 2);
    if u != cur {
        assert(seq![CommandStep::Upstream(u)].skip(1) =~= Seq::<CommandStep>::empty());
    }
}

/// The socket uses of a configuration's steps, and the upstream in effect
/// after them.
proof fn lemma_config_steps(c: Config, k: int)
    requires
        0 <= k <= c.sockets@.len(),
    ensures
        step_uses(c.upstream@, command_steps(c, k).0) == config_uses(c, k),
        ctx_after(c.upstream@, command_steps(c, k).0) == command_steps(c, k).1,
    decreases k,
{
    if k > 0 {
        lemma_config_steps(c, k - 1);
        let prev = command_steps(c, k - 1);
        let s = c.sockets@[k - 1].1;
        let u = socket_upstream_of(c, s);
        let switch = if u == prev.1 {
            Seq::<CommandStep>::empty()
        } else {
            seq![CommandStep::Upstream(u)]
        };
        lemma_switch(prev.1, u);
        lemma_socket_steps_uses(c, s);
        lemma_step_uses_concat(c.upstream@, prev.0, switch);
        lemma_step_uses_concat(c.upstream@, prev.0 + switch, socket_steps(s));
        assert(command_steps(c, k).0 == prev.0 + switch + socket_steps(s));
        assert(config_uses(c, k) == config_uses(c, k - 1) + socket_uses(c, s));
        assert(step_uses(c.upstream@, prev.0 + switch) =~= config_uses(c, k - 1));
    } else {
        assert(step_uses(c.upstream@, Seq::<CommandStep>::empty()) == Seq::<SocketUse>::empty());
    }
}

/// The steps of a configuration whose filters are plain hold plain filters.
proof fn lemma_config_steps_plain(c: Config, k: int)
    requires
        0 <= k <= c.sockets@.len(),
        filters_plain(c),
    ensures
        steps_plain(command_steps(c, k).0),
    decreases k,
{
    if k > 0 {
        lemma_config_steps_plain(c, k - 1);
        let prev = command_steps(c, k - 1);
        let s = c.sockets@[k - 1].1;
        let u = socket_upstream_of(c, s);
        let switch = if u == prev.1 {
            Seq::<CommandStep>::empty()
        } else {
            seq![CommandStep::Upstream(u)]
        };
        let all = prev.0 + switch + socket_steps(s);
        let gs = spec_filter_groups(s.filters@);
        assert forall|t: int, j: int|
            0 <= t < all.len() && all[t] is Socket && 0 <= j < all[t]->Socket_1.len() implies plain_filter(
            #[trigger] all[t]->Socket_1[j],
        ) by {
            if t < prev.0.len() {
                assert(all[t] == prev.0[t]);
            } else if t < prev.0.len() + switch.len() {
                assert(all[t] == switch[t - prev.0.len()]);
            } else {
                let m = t - prev.0.len() - switch.len();
                assert(all[t] == socket_steps(s)[m]);
                if gs.len() > 0 {
                    assert(socket_steps(s)[m] == CommandStep::Socket(s.path@, gs[m]));
                    assert(plain_filter(spec_filter_groups(c.sockets@[k - 1].1.filters@)[m][j]));
                }
            }
        }
    }
}

/// What `config_as_command` writes, the command-line parser reads back:
/// the sockets the command line describes are the configuration's
/// sockets, in order, each with the upstream it uses and once per filter
/// group (once without filters when it has none). This holds when no
/// filter looks like an option.
pub proof fn lemma_config_command_reads_back(c: Config, ssh: Option<Seq<char>>)
    requires
        filters_plain(c),
    ensures
        group_uses(spec_group_args(spec_config_as_command(c), ssh)) == config_uses(c, c.sockets@.len() as int),
{
    let args = spec_config_as_command(c);
    let steps = command_steps(c, c.sockets@.len() as int).0;
    reveal_strlit("authsock-filter");
    reveal_strlit("run");
    reveal_strlit("--upstream");
    reveal_strlit("--upstream=");
    reveal_strlit("--socket");
    reveal_strlit("--socket=");
    let init: GroupState = (Seq::empty(), None, None);
    assert(args[0] == "authsock-filter"@);
    assert(args[1] == "run"@);
    assert(args[2] == "--upstream"@);
    assert(args[3] == c.upstream@);
    assert(!spec_starts_with("authsock-filter"@, "--upstream="@)) by {
        assert("authsock-filter"@[0] != "--upstream="@[0]);
        assert("authsock-filter"@.take(11)[0] == "authsock-filter"@[0]);
    }
    assert(!spec_starts_with("authsock-filter"@, "--socket="@)) by {
        assert("authsock-filter"@[0] != "--socket="@[0]);
        assert("authsock-filter"@.take(9)[0] == "authsock-filter"@[0]);
    }
    let st0: GroupState = (Seq::empty(), Some((c.upstream@, false, Seq::empty())), None);
    assert(group_step(args, 0, init, ssh) == (init, 1int));
    assert(group_step(args, 1, init, ssh) == (init, 2int));
    assert(group_step(args, 2, init, ssh) == (st0, 4int));
    assert(group_walk(args, 2, init, ssh) == group_walk(args, 4, st0, ssh));
    assert(group_walk(args, 1, init, ssh) == group_walk(args, 2, init, ssh));
    assert(group_walk(args, 0, init, ssh) == group_walk(args, 1, init, ssh));
    lemma_config_steps_plain(c, c.sockets@.len() as int);
    assert forall|t: int| 0 <= t < steps_args(steps).len() implies #[trigger] args[4 + t] == steps_args(steps)[t] by {}
    lemma_walk_steps(args, 4, st0, steps, ssh);
    lemma_run_uses(st0, steps);
    lemma_config_steps(c, c.sockets@.len() as int);
    assert(state_uses(st0) == Seq::<SocketUse>::empty());
    assert(Seq::<SocketUse>::empty() + step_uses(c.upstream@, steps) =~= step_uses(c.upstream@, steps));
}

} // verus!
