# authsock-filter

An SSH agent proxy that creates filtered sockets in front of an upstream
agent: a client of a filtered socket sees only the keys that pass the
socket's filters, and can only have those keys sign.

The logic is a Verus-verified library (`src/`); the program around it
(`app/`) reads the command line and files, talks to sockets and service
managers, and prints.

## Layout

- `src/protocol/`: the SSH agent wire format (framing, messages,
  identities answers, sign requests) and key fingerprints.
- `src/filter/`: the filters (fingerprint, comment, key type, public key,
  key file, GitHub keys), their parsing from `kind=value` text, the
  evaluator that ANDs a group's rules, and the alternative groups of a
  socket (a key passes when some group accepts it).
- `src/agent/`: the proxy's decisions: which requests go upstream, how an
  identities answer is filtered, which keys may sign.
- `src/config/`: configuration values (sockets with their own upstream
  and filter lists or alternatives), durations, search paths and path
  expansion.
- `src/cli/`: command-line grouping of `--upstream` / `--socket`
  arguments, shell completion, and the computing parts of the commands
  (`run`, `config`, `service`, `upgrade`, `status`).
- `src/service/`: the daemon's PID file, and launchd and systemd files and
  answers.
- `src/logging/`: log event values and the logging level.
- `app/`: `main`, clap parsing, the async proxy loop, file and process
  I/O.

## Guarantees proved

Among others: an identities answer lists exactly the upstream keys the
filter accepts, in order; a sign request reaches the upstream agent only
for a key the last filtered answer listed; every other request is
forwarded; encoding and decoding messages are inverse; negated rules
accept exactly what the plain rule rejects; sockets built from the
command line have distinct names and paths, and each serves every
socket given with its path (paths compared as `Path`s, by components) (the first one's upstream, all their filter
lists in order, the path's stem as its name made unique with `-2`, `-3`,
...); the `run` command line
written from a configuration reads back as the configuration's sockets,
each with its upstream and filter groups; version comparison is
antisymmetric and transitive.
