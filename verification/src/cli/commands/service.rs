//! Service registration decisions: which executable a service runs, the
//! message shown when only a version-managed executable is at hand, and
//! the launchd and systemd files written.

use vstd::prelude::*;
use crate::cli::commands::{spec_version_manager, version_manager_name};
use crate::error::Error;
use crate::text::{concat_str, decimal, push_string, spec_contains, spec_join, spec_starts_with, split_char, str_contains, strings_view, trim};
use crate::utils::path::{spec_path_eq, spec_path_join};

verus! {

/// Whether the path lies in a known shim directory (mise or asdf).
pub open spec fn spec_is_shim_path(p: Seq<char>) -> bool {
    spec_contains(p, "/mise/shims/"@) || spec_contains(p, "/.mise/shims/"@) || spec_contains(p, "/asdf/shims/"@)
        || spec_contains(p, "/.asdf/shims/"@)
}

/// Whether the path lies in a known shim directory, as
/// [`spec_is_shim_path`] states.
pub fn is_shim_path(path: &str) -> (r: bool)
    ensures
        r == spec_is_shim_path(path@),
{
    str_contains(path, "/mise/shims/") || str_contains(path, "/.mise/shims/") || str_contains(path, "/asdf/shims/")
        || str_contains(path, "/.asdf/shims/")
}

/// An explicitly given executable path, with what the file system says of
/// it.
#[derive(Debug)]
pub struct ExplicitExecutable {
    /// The path as given.
    pub path: String,
    /// Whether it exists.
    pub exists: bool,
}

/// How the executable of a service was chosen.
#[derive(Debug)]
pub enum ExecutableChoice {
    /// This path is used.
    Use(String),
    /// The current executable is used though a version manager owns it;
    /// the user is warned.
    UseVersioned(String),
    /// The current executable is version-managed and that was not allowed:
    /// candidates are to be listed and the registration refused.
    Refuse {
        /// The version manager.
        manager: String,
        /// The current executable.
        current: String,
    },
}

/// A path is absolute on Unix when it starts with `/`.
pub open spec fn spec_is_absolute(p: Seq<char>) -> bool {
    p.len() > 0 && p[0] == '/'
}

/// Whether a path is absolute (starts at the root).
pub fn is_absolute(p: &str) -> (r: bool)
    ensures
        r == spec_is_absolute(p@),
{
    let v = crate::text::chars_of(p);
    v.len() > 0 && v[0] == '/'
}

/// The executable a service registration uses.
///
/// An explicit path must exist; a relative one is taken from `cwd` (the
/// current directory, `None` when unknown). Else the program's `argv[0]`
/// (`arg0`, with whether it exists) is used when it is absolute, exists
/// and is not version-managed. Else the current executable (`current_exe`,
/// `None` when unknown): as it is when no version manager owns it or
/// `allow_versioned` is set, else the registration is refused.
pub fn choose_executable(
    explicit: Option<ExplicitExecutable>,
    cwd: Option<String>,
    arg0: Option<(String, bool)>,
    current_exe: Option<String>,
    allow_versioned: bool,
) -> (r: Result<ExecutableChoice, Error>)
    ensures
        match explicit {
            Some(e) => if !e.exists {
                (r matches Err(Error::Other(m)) && m@ == "Specified executable path does not exist: "@ + e.path@)
            } else if spec_is_absolute(e.path@) {
                r matches Ok(ExecutableChoice::Use(p)) && p@ == e.path@
            } else {
                match cwd {
                    Some(c) => (r matches Ok(ExecutableChoice::Use(p)) && p@ == spec_path_join(c@, e.path@)),
                    None => (r matches Err(Error::Other(m)) && m@ == "Failed to get current directory"@),
                }
            },
            None => match arg0 {
                Some((a, exists)) if spec_is_absolute(a@) && exists && spec_version_manager(a@) is None => (r matches Ok(
                    ExecutableChoice::Use(p),
                ) && p@ == a@),
                _ => match current_exe {
                    None => (r matches Err(Error::Other(m)) && m@ == "Failed to get current executable path"@),
                    Some(c) => match spec_version_manager(c@) {
                        None => (r matches Ok(ExecutableChoice::Use(p)) && p@ == c@),
                        Some(m) => if allow_versioned {
                            (r matches Ok(ExecutableChoice::UseVersioned(p)) && p@ == c@)
                        } else {
                            (r matches Ok(ExecutableChoice::Refuse { manager, current }) && manager@ == m
                                && current@ == c@)
                        },
                    },
                },
            },
        },
{
    match explicit {
        Some(e) => {
            if !e.exists {
                let msg = concat_str("Specified executable path does not exist: ", e.path.as_str());
                return Err(Error::Other(msg));
            }
            if is_absolute(e.path.as_str()) {
                return Ok(ExecutableChoice::Use(e.path));
            }
            match cwd {
                Some(c) => Ok(ExecutableChoice::Use(crate::utils::path::path_join(c.as_str(), e.path.as_str()))),
                None => Err(Error::Other("Failed to get current directory".to_string())),
            }
        },
        None => {
            match &arg0 {
                Some((a, exists)) => {
                    if is_absolute(a.as_str()) && *exists && version_manager_name(a.as_str()).is_none() {
                        return Ok(ExecutableChoice::Use(a.clone()));
                    }
                },
                None => {},
            }
            match current_exe {
                None => Err(Error::Other("Failed to get current executable path".to_string())),
                Some(c) => match version_manager_name(c.as_str()) {
                    None => Ok(ExecutableChoice::Use(c)),
                    Some(m) => if allow_versioned {
                        Ok(ExecutableChoice::UseVersioned(c))
                    } else {
                        Ok(ExecutableChoice::Refuse { manager: m.to_string(), current: c })
                    },
                },
            }
        },
    }
}

/// How a candidate's binary compares with the current executable.
#[derive(Debug, Clone, Copy, PartialEq, Eq, Structural)]
pub enum Relation {
    /// It is the current executable's path.
    SameBinary,
    /// It resolves to the same file.
    SameTarget,
    /// Its content hashes the same.
    SameHash,
    /// It is another binary.
    Different,
}

/// What a candidate that is neither the current executable nor a shim is.
#[derive(Debug)]
pub enum LinkFacts {
    /// A symbolic link: its resolved target and how that compares, when it
    /// resolves.
    Symlink(Option<(String, Relation)>),
    /// A regular file and how it compares.
    Regular(Relation),
}

/// What was found out about one executable candidate.
#[derive(Debug)]
pub struct CandidateFacts {
    /// The candidate's path.
    pub path: String,
    /// For a shim: the executable it resolves to and how that compares,
    /// when it resolves.
    pub shim_target: Option<(String, Relation)>,
    /// For a candidate that is neither current nor a shim: what it is.
    pub link: LinkFacts,
}

/// The mark of a comparison.
pub open spec fn relation_mark(r: Relation) -> Seq<char> {
    match r {
        Relation::SameBinary => "same-binary"@,
        Relation::SameTarget => "same-target"@,
        Relation::SameHash => "same-hash"@,
        Relation::Different => "different-binary"@,
    }
}

/// The marks of a candidate that speak for it, in order: what its shim
/// resolves to (or `shim`), then `current` or how it compares.
pub open spec fn positive_marks(current: Seq<char>, c: CandidateFacts) -> Seq<Seq<char>> {
    let is_shim = spec_is_shim_path(c.path@);
    let is_current = spec_path_eq(c.path@, current);
    let s1: Seq<Seq<char>> = if is_shim {
        match c.shim_target {
            Some((_, r)) => if r == Relation::Different {
                Seq::empty()
            } else {
                seq![relation_mark(r)]
            },
            None => seq!["shim"@],
        }
    } else {
        Seq::empty()
    };
    if is_current {
        s1.push("current"@)
    } else if !is_shim {
        match c.link {
            LinkFacts::Symlink(Some((_, r))) => if r == Relation::Different {
                s1
            } else {
                s1.push(relation_mark(r))
            },
            LinkFacts::Symlink(None) => s1,
            LinkFacts::Regular(r) => if r == Relation::Different {
                s1
            } else {
                s1.push(relation_mark(r))
            },
        }
    } else {
        s1
    }
}

/// The marks of a candidate that speak against it, in order: a shim or
/// link to another binary, then a versioned or unstable location.
pub open spec fn negative_marks(current: Seq<char>, c: CandidateFacts) -> Seq<Seq<char>> {
    let is_shim = spec_is_shim_path(c.path@);
    let is_current = spec_path_eq(c.path@, current);
    let n1: Seq<Seq<char>> = if is_shim && (c.shim_target matches Some((_, r)) && r == Relation::Different) {
        seq!["different-binary"@]
    } else {
        Seq::empty()
    };
    let n2 = if !is_current && !is_shim && (c.link matches LinkFacts::Symlink(Some((_, r)))
        && r == Relation::Different) {
        n1.push("different-binary"@)
    } else {
        n1
    };
    match spec_version_manager(c.path@) {
        Some(m) => if m == "temporary"@ {
            n2.push("unstable-path"@)
        } else {
            n2.push("versioned-path"@)
        },
        None => n2,
    }
}

/// Green text on a terminal.
pub open spec fn green(s: Seq<char>) -> Seq<char> {
    "\x1b[32m"@ + s + "\x1b[0m"@
}

/// Red text on a terminal.
pub open spec fn red(s: Seq<char>) -> Seq<char> {
    "\x1b[31m"@ + s + "\x1b[0m"@
}

/// The parts of a candidate's marker: its shim or link target, then its
/// marks for and against.
pub open spec fn marker_parts(current: Seq<char>, c: CandidateFacts) -> Seq<Seq<char>> {
    let is_shim = spec_is_shim_path(c.path@);
    let is_current = spec_path_eq(c.path@, current);
    let p1: Seq<Seq<char>> = match c.shim_target {
        Some((t, _)) => if is_shim {
            seq![green("shim:"@) + t@]
        } else {
            Seq::empty()
        },
        None => Seq::empty(),
    };
    let p2 = match c.link {
        LinkFacts::Symlink(Some((t, _))) => if !is_current && !is_shim {
            p1.push(green("symlink:"@) + t@)
        } else {
            p1
        },
        _ => p1,
    };
    let pos = positive_marks(current, c);
    let neg = negative_marks(current, c);
    let p3 = if pos.len() > 0 {
        p2.push(green(spec_join(pos, ", "@)))
    } else {
        p2
    };
    if neg.len() > 0 {
        p3.push(red(spec_join(neg, ", "@)))
    } else {
        p3
    }
}

/// The line listing candidate number `n` (from 1): green when something
/// speaks for it and nothing against it.
pub open spec fn candidate_line(n: nat, current: Seq<char>, c: CandidateFacts) -> Seq<char> {
    let parts = marker_parts(current, c);
    let marker = if parts.len() == 0 {
        Seq::empty()
    } else {
        " ["@ + spec_join(parts, ", "@) + "]"@
    };
    let line = "  "@ + decimal(n) + ". "@ + c.path@ + marker;
    if positive_marks(current, c).len() > 0 && negative_marks(current, c).len() == 0 {
        green(line) + "\n"@
    } else {
        line + "\n"@
    }
}

/// The lines of the first `k` candidates.
pub open spec fn candidate_lines(current: Seq<char>, cands: Seq<CandidateFacts>, k: int) -> Seq<char>
    decreases k,
{
    if k <= 0 {
        Seq::empty()
    } else {
        candidate_lines(current, cands, k - 1) + candidate_line(k as nat, current, cands[k - 1])
    }
}

/// The first candidate that is a shim.
pub open spec fn first_shim(cands: Seq<CandidateFacts>) -> Option<int> {
    if exists|i: int| 0 <= i < cands.len() && spec_is_shim_path((#[trigger] cands[i]).path@) {
        Some(
            choose|i: int|
                0 <= i < cands.len() && spec_is_shim_path((#[trigger] cands[i]).path@) && forall|j: int|
                    0 <= j < i ==> !spec_is_shim_path((#[trigger] cands[j]).path@),
        )
    } else {
        None
    }
}

/// The message that refuses a version-managed executable: the manager and
/// path, each candidate with its marks, and the shim to register with (or
/// how to go on).
pub open spec fn spec_versioned_message(manager: Seq<char>, current: Seq<char>, cands: Seq<CandidateFacts>) -> Seq<
    char,
> {
    let head = "Executable is under "@ + manager + " version manager: "@ + current + "\n\nCandidates:\n"@;
    let tail = match first_shim(cands) {
        Some(i) => "\n"@ + green("Recommended:"@) + "\n  "@ + cands[i].path@ + " service register --executable "@
            + cands[i].path@ + "\n"@,
        None => "\nUse --executable <PATH> or --force"@,
    };
    head + candidate_lines(current, cands, cands.len() as int) + tail
}

/// Wraps text in a terminal color.
fn colored(code: &str, s: &str) -> (r: String)
    ensures
        r@ == code@ + s@ + "\x1b[0m"@,
{
    let a = concat_str(code, s);
    concat_str(a.as_str(), "\x1b[0m")
}

fn push_str(v: &mut Vec<String>, s: &str)
    ensures
        strings_view(final(v)@) == strings_view(old(v)@).push(s@),
{
    push_string(v, s.to_string());
}

fn relation_mark_str(r: Relation) -> (s: &'static str)
    ensures
        s@ == relation_mark(r),
{
    match r {
        Relation::SameBinary => "same-binary",
        Relation::SameTarget => "same-target",
        Relation::SameHash => "same-hash",
        Relation::Different => "different-binary",
    }
}

/// The marks for a candidate, as [`positive_marks`] states.
fn positive_marks_exec(current: &str, c: &CandidateFacts) -> (r: Vec<String>)
    ensures
        strings_view(r@) == positive_marks(current@, *c),
{
    let is_shim = is_shim_path(c.path.as_str());
    let is_current = crate::utils::path::paths_equal(c.path.as_str(), current);
    let mut v: Vec<String> = Vec::new();
    if is_shim {
        match &c.shim_target {
            Some((_, r)) => {
                if *r != Relation::Different {
                    push_str(&mut v, relation_mark_str(*r));
                }
            },
            None => push_str(&mut v, "shim"),
        }
    }
    assert(strings_view(v@) =~= (if is_shim {
        match c.shim_target {
            Some((_, r)) => if r == Relation::Different {
                Seq::<Seq<char>>::empty()
            } else {
                seq![relation_mark(r)]
            },
            None => seq!["shim"@],
        }
    } else {
        Seq::<Seq<char>>::empty()
    }));
    if is_current {
        push_str(&mut v, "current");
    } else if !is_shim {
        match &c.link {
            LinkFacts::Symlink(Some((_, r))) => {
                if *r != Relation::Different {
                    push_str(&mut v, relation_mark_str(*r));
                }
            },
            LinkFacts::Symlink(None) => {},
            LinkFacts::Regular(r) => {
                if *r != Relation::Different {
                    push_str(&mut v, relation_mark_str(*r));
                }
            },
        }
    }
    v
}

/// The marks against a candidate, as [`negative_marks`] states.
fn negative_marks_exec(current: &str, c: &CandidateFacts) -> (r: Vec<String>)
    ensures
        strings_view(r@) == negative_marks(current@, *c),
{
    let is_shim = is_shim_path(c.path.as_str());
    let is_current = crate::utils::path::paths_equal(c.path.as_str(), current);
    let mut v: Vec<String> = Vec::new();
    if is_shim {
        match &c.shim_target {
            Some((_, r)) => {
                if *r == Relation::Different {
                    push_str(&mut v, "different-binary");
                }
            },
            None => {},
        }
    }
    assert(strings_view(v@) =~= (if is_shim && (c.shim_target matches Some((_, r)) && r == Relation::Different) {
        seq!["different-binary"@]
    } else {
        Seq::<Seq<char>>::empty()
    }));
    if !is_current && !is_shim {
        match &c.link {
            LinkFacts::Symlink(Some((_, r))) => {
                if *r == Relation::Different {
                    push_str(&mut v, "different-binary");
                }
            },
            _ => {},
        }
    }
    match version_manager_name(c.path.as_str()) {
        Some(m) => {
            if crate::text::str_eq(m, "temporary") {
                push_str(&mut v, "unstable-path");
            } else {
                push_str(&mut v, "versioned-path");
            }
        },
        None => {},
    }
    v
}

/// The parts of a candidate's marker, as [`marker_parts`] states.
fn marker_parts_exec(current: &str, c: &CandidateFacts) -> (r: Vec<String>)
    ensures
        strings_view(r@) == marker_parts(current@, *c),
{
    let is_shim = is_shim_path(c.path.as_str());
    let is_current = crate::utils::path::paths_equal(c.path.as_str(), current);
    let mut v: Vec<String> = Vec::new();
    match &c.shim_target {
        Some((t, _)) => {
            if is_shim {
                let label = colored("\x1b[32m", "shim:");
                push_string(&mut v, concat_str(label.as_str(), t.as_str()));
            }
        },
        None => {},
    }
    match &c.link {
        LinkFacts::Symlink(Some((t, _))) => {
            if !is_current && !is_shim {
                let label = colored("\x1b[32m", "symlink:");
                push_string(&mut v, concat_str(label.as_str(), t.as_str()));
            }
        },
        _ => {},
    }
    let pos = positive_marks_exec(current, c);
    let neg = negative_marks_exec(current, c);
    if pos.len() > 0 {
        let joined = crate::text::join_strings(pos.as_slice(), ", ");
        push_string(&mut v, colored("\x1b[32m", joined.as_str()));
    }
    if neg.len() > 0 {
        let joined = crate::text::join_strings(neg.as_slice(), ", ");
        push_string(&mut v, colored("\x1b[31m", joined.as_str()));
    }
    v
}

/// The line of candidate number `n`, as [`candidate_line`] states.
fn candidate_line_exec(n: u64, current: &str, c: &CandidateFacts) -> (r: String)
    ensures
        r@ == candidate_line(n as nat, current@, *c),
{
    let parts = marker_parts_exec(current, c);
    let marker = if parts.len() == 0 {
        String::new()
    } else {
        let joined = crate::text::join_strings(parts.as_slice(), ", ");
        let open = concat_str(" [", joined.as_str());
        concat_str(open.as_str(), "]")
    };
    let num = crate::text::decimal_string(n);
    let a = concat_str("  ", num.as_str());
    let b = concat_str(a.as_str(), ". ");
    let c2 = concat_str(b.as_str(), c.path.as_str());
    let line = concat_str(c2.as_str(), marker.as_str());
    let pos = positive_marks_exec(current, c);
    let neg = negative_marks_exec(current, c);
    assert(line@ == "  "@ + decimal(n as nat) + ". "@ + c.path@ + (if marker_parts(current@, *c).len() == 0 {
        Seq::<char>::empty()
    } else {
        " ["@ + spec_join(marker_parts(current@, *c), ", "@) + "]"@
    }));
    if pos.len() > 0 && neg.len() == 0 {
        let g = colored("\x1b[32m", line.as_str());
        concat_str(g.as_str(), "\n")
    } else {
        concat_str(line.as_str(), "\n")
    }
}

/// The message that refuses a version-managed executable, as
/// [`spec_versioned_message`] states; `candidates` lists the current
/// executable first, then the other executables found.
pub fn versioned_path_message(manager: &str, current: &str, candidates: &[CandidateFacts]) -> (r: String)
    requires
        candidates@.len() < u64::MAX,
    ensures
        r@ == spec_versioned_message(manager@, current@, candidates@),
{
    let a = concat_str("Executable is under ", manager);
    let b = concat_str(a.as_str(), " version manager: ");
    let c = concat_str(b.as_str(), current);
    let mut msg = concat_str(c.as_str(), "\n\nCandidates:\n");
    let ghost head = msg@;
    let mut i: usize = 0;
    while i < candidates.len()
        invariant
            i <= candidates@.len(),
            candidates@.len() < u64::MAX,
            msg@ == head + candidate_lines(current@, candidates@, i as int),
        decreases candidates@.len() - i,
    {
        let line = candidate_line_exec((i + 1) as u64, current, &candidates[i]);
        msg = concat_str(msg.as_str(), line.as_str());
        i = i + 1;
    }
    let mut k: usize = 0;
    while k < candidates.len()
        invariant
            k <= candidates@.len(),
            head == "Executable is under "@ + manager@ + " version manager: "@ + current@ + "\n\nCandidates:\n"@,
            msg@ == head + candidate_lines(current@, candidates@, candidates@.len() as int),
            forall|j: int| 0 <= j < k ==> !spec_is_shim_path((#[trigger] candidates@[j]).path@),
        decreases candidates@.len() - k,
    {
        if is_shim_path(candidates[k].path.as_str()) {
            proof {
                let s = candidates@;
                let ch = choose|x: int|
                    0 <= x < s.len() && spec_is_shim_path((#[trigger] s[x]).path@) && forall|j: int|
                        0 <= j < x ==> !spec_is_shim_path((#[trigger] s[j]).path@);
                if ch > k {
                    assert(!spec_is_shim_path(s[k as int].path@));
                }
                assert(first_shim(s) == Some(k as int));
            }
            let p = candidates[k].path.as_str();
            let rec = colored("\x1b[32m", "Recommended:");
            let t1 = concat_str("\n", rec.as_str());
            let t2 = concat_str(t1.as_str(), "\n  ");
            let t3 = concat_str(t2.as_str(), p);
            let t4 = concat_str(t3.as_str(), " service register --executable ");
            let t5 = concat_str(t4.as_str(), p);
            let t6 = concat_str(t5.as_str(), "\n");
            return concat_str(msg.as_str(), t6.as_str());
        }
        k = k + 1;
    }
    assert(first_shim(candidates@) is None);
    concat_str(msg.as_str(), "\nUse --executable <PATH> or --force")
}


/// The shim directories (under the home directory `h`) searched after
/// `PATH`: mise's two, asdf's, and the nix profile's.
pub open spec fn shim_dirs(h: Seq<char>) -> Seq<Seq<char>> {
    seq![
        spec_path_join(h, ".local/share/mise/shims"@),
        spec_path_join(h, ".mise/shims"@),
        spec_path_join(h, ".asdf/shims"@),
        spec_path_join(h, ".nix-profile/bin"@),
    ]
}

/// The places an executable named `name` is looked for: in each directory
/// of `path_var` (split at `:`), then in the shim directories when the
/// home directory is known.
pub open spec fn spec_executable_search_paths(path_var: Seq<char>, home: Option<Seq<char>>, name: Seq<char>) -> Seq<
    Seq<char>,
> {
    let dirs = split_char(path_var, ':');
    let from_path = Seq::new(dirs.len(), |i: int| spec_path_join(dirs[i], name));
    match home {
        Some(h) => from_path + Seq::new(4, |i: int| spec_path_join(shim_dirs(h)[i], name)),
        None => from_path,
    }
}

/// The places an executable is looked for, as
/// [`spec_executable_search_paths`] states.
pub fn executable_search_paths(path_var: &str, home: Option<String>, name: &str) -> (r: Vec<String>)
    ensures
        strings_view(r@) == spec_executable_search_paths(
            path_var@,
            match home {
                Some(h) => Some(h@),
                None => None,
            },
            name@,
        ),
{
    let pv = crate::text::chars_of(path_var);
    let dirs = crate::text::split_on(pv.as_slice(), ':');
    let ghost sd = split_char(path_var@, ':');
    let mut out: Vec<String> = Vec::new();
    let mut i: usize = 0;
    while i < dirs.len()
        invariant
            i <= dirs@.len(),
            pv@ == path_var@,
            sd == split_char(path_var@, ':'),
            dirs@.len() == sd.len(),
            forall|j: int| 0 <= j < dirs@.len() ==> #[trigger] dirs@[j]@ == sd[j],
            strings_view(out@) == Seq::new(i as nat, |j: int| spec_path_join(sd[j], name@)),
        decreases dirs@.len() - i,
    {
        let d = crate::text::string_of(dirs[i].as_slice());
        let p = crate::utils::path::path_join(d.as_str(), name);
        push_string(&mut out, p);
        assert(strings_view(out@) =~= Seq::new((i + 1) as nat, |j: int| spec_path_join(sd[j], name@)));
        i = i + 1;
    }
    let ghost from_path = strings_view(out@);
    match &home {
        Some(h) => {
            let d1 = crate::utils::path::path_join(h.as_str(), ".local/share/mise/shims");
            push_string(&mut out, crate::utils::path::path_join(d1.as_str(), name));
            let d2 = crate::utils::path::path_join(h.as_str(), ".mise/shims");
            push_string(&mut out, crate::utils::path::path_join(d2.as_str(), name));
            let d3 = crate::utils::path::path_join(h.as_str(), ".asdf/shims");
            push_string(&mut out, crate::utils::path::path_join(d3.as_str(), name));
            let d4 = crate::utils::path::path_join(h.as_str(), ".nix-profile/bin");
            push_string(&mut out, crate::utils::path::path_join(d4.as_str(), name));
            assert(strings_view(out@) =~= from_path + Seq::new(4, |j: int| spec_path_join(shim_dirs(h@)[j], name@)));
        },
        None => {},
    }
    out
}

/// The usable paths among the first `k`, each kept once: a path equal (as
/// a path) to one kept before it is left out.
pub open spec fn spec_first_usable(paths: Seq<Seq<char>>, usable: Seq<bool>, k: int) -> Seq<Seq<char>>
    decreases k,
{
    if k <= 0 {
        Seq::empty()
    } else {
        let prev = spec_first_usable(paths, usable, k - 1);
        if usable[k - 1] && !(exists|j: int| 0 <= j < prev.len() && spec_path_eq(#[trigger] prev[j], paths[k - 1])) {
            prev.push(paths[k - 1])
        } else {
            prev
        }
    }
}

/// The executable candidates found: the usable paths (`usable` says, for
/// each path, whether an executable file is there), each path once, in
/// order, as [`spec_first_usable`] states.
pub fn find_executable_candidates(paths: &[String], usable: &[bool]) -> (r: Vec<String>)
    requires
        paths@.len() == usable@.len(),
    ensures
        strings_view(r@) == spec_first_usable(strings_view(paths@), usable@, paths@.len() as int),
{
    let ghost pv = strings_view(paths@);
    let mut out: Vec<String> = Vec::new();
    let mut i: usize = 0;
    while i < paths.len()
        invariant
            i <= paths@.len(),
            paths@.len() == usable@.len(),
            pv == strings_view(paths@),
            strings_view(out@) == spec_first_usable(pv, usable@, i as int),
        decreases paths@.len() - i,
    {
        if usable[i] {
            let ghost prev = strings_view(out@);
            let mut seen = false;
            let mut j: usize = 0;
            while j < out.len()
                invariant
                    j <= out@.len(),
                    i < paths@.len(),
                    pv == strings_view(paths@),
                    prev == strings_view(out@),
                    seen <==> exists|x: int| 0 <= x < j && spec_path_eq(#[trigger] prev[x], pv[i as int]),
                decreases out@.len() - j,
            {
                assert(prev[j as int] == out@[j as int]@);
                assert(pv[i as int] == paths@[i as int]@);
                if crate::utils::path::paths_equal(out[j].as_str(), paths[i].as_str()) {
                    seen = true;
                }
                j = j + 1;
            }
            if !seen {
                push_string(&mut out, paths[i].clone());
            }
        }
        i = i + 1;
    }
    out
}

/// The candidates listed when refusing a version-managed executable: the
/// current executable first, then the others found that are not it (as
/// paths).
pub fn candidate_list(current: &str, found: &[String]) -> (r: Vec<String>)
    ensures
        strings_view(r@) == seq![current@] + strings_view(found@).filter(|p: Seq<char>| !spec_path_eq(p, current@)),
{
    let ghost fv = strings_view(found@);
    let ghost keep = |p: Seq<char>| !spec_path_eq(p, current@);
    let mut out: Vec<String> = Vec::new();
    push_str(&mut out, current);
    let mut i: usize = 0;
    proof {
        reveal(Seq::filter);
        assert(fv.take(0).filter(keep) =~= Seq::<Seq<char>>::empty());
    }
    while i < found.len()
        invariant
            i <= found@.len(),
            fv == strings_view(found@),
            keep == (|p: Seq<char>| !spec_path_eq(p, current@)),
            strings_view(out@) == seq![current@] + fv.take(i as int).filter(keep),
        decreases found@.len() - i,
    {
        proof {
            assert(fv.take(i + 1).drop_last() =~= fv.take(i as int));
            assert(fv.take(i + 1).last() == fv[i as int]);
            reveal(Seq::filter);
        }
        if !crate::utils::path::paths_equal(found[i].as_str(), current) {
            push_string(&mut out, found[i].clone());
        }
        i = i + 1;
    }
    assert(fv.take(i as int) =~= fv);
    out
}


/// The version manager whose `which` command resolves a shim: `mise` for
/// mise shims, `asdf` for asdf shims.
pub fn shim_which_command(shim_path: &str) -> (r: Option<&'static str>)
    ensures
        match r {
            Some(c) => if spec_contains(shim_path@, "/mise/shims/"@) || spec_contains(shim_path@, "/.mise/shims/"@) {
                c@ == "mise"@
            } else {
                c@ == "asdf"@ && (spec_contains(shim_path@, "/asdf/shims/"@) || spec_contains(shim_path@, "/.asdf/shims/"@))
            },
            None => !spec_is_shim_path(shim_path@),
        },
{
    if str_contains(shim_path, "/mise/shims/") || str_contains(shim_path, "/.mise/shims/") {
        Some("mise")
    } else if str_contains(shim_path, "/asdf/shims/") || str_contains(shim_path, "/.asdf/shims/") {
        Some("asdf")
    } else {
        None
    }
}

/// The first line of `text` that starts with `prefix`.
pub open spec fn first_line_with(lines: Seq<Seq<char>>, prefix: Seq<char>) -> Option<int> {
    if exists|i: int| 0 <= i < lines.len() && spec_starts_with(#[trigger] lines[i], prefix) {
        Some(
            choose|i: int|
                0 <= i < lines.len() && spec_starts_with(#[trigger] lines[i], prefix) && forall|j: int|
                    0 <= j < i ==> !spec_starts_with(#[trigger] lines[j], prefix),
        )
    } else {
        None
    }
}

/// The executable a program's `version` output names: the rest of the
/// first line that starts with `  Executable: `, trimmed.
pub open spec fn spec_executable_from_version(stdout: Seq<char>) -> Option<Seq<char>> {
    let lines = split_char(stdout, '\n');
    match first_line_with(lines, "  Executable: "@) {
        Some(i) => Some(trim(lines[i].skip(14))),
        None => None,
    }
}

/// The executable a program's `version` output names, as
/// [`spec_executable_from_version`] states.
pub fn executable_from_version_output(stdout: &str) -> (r: Option<String>)
    ensures
        match r {
            Some(p) => spec_executable_from_version(stdout@) == Some(p@),
            None => spec_executable_from_version(stdout@) is None,
        },
{
    let sv = crate::text::chars_of(stdout);
    let lines = crate::text::split_on(sv.as_slice(), '\n');
    let ghost ls = split_char(stdout@, '\n');
    let prefix = crate::text::chars_of("  Executable: ");
    proof {
        reveal_strlit("  Executable: ");
    }
    let mut i: usize = 0;
    while i < lines.len()
        invariant
            i <= lines@.len(),
            sv@ == stdout@,
            prefix@ == "  Executable: "@,
            prefix@.len() == 14,
            ls == split_char(stdout@, '\n'),
            lines@.len() == ls.len(),
            forall|j: int| 0 <= j < lines@.len() ==> #[trigger] lines@[j]@ == ls[j],
            forall|j: int| 0 <= j < i ==> !spec_starts_with(#[trigger] ls[j], "  Executable: "@),
        decreases lines@.len() - i,
    {
        assert(lines@[i as int]@ == ls[i as int]);
        if crate::text::starts_with(lines[i].as_slice(), prefix.as_slice()) {
            proof {
                let k = i as int;
                let c = choose|c: int|
                    0 <= c < ls.len() && spec_starts_with(#[trigger] ls[c], "  Executable: "@) && forall|j: int|
                        0 <= j < c ==> !spec_starts_with(#[trigger] ls[j], "  Executable: "@);
                if c > k {
                    assert(!spec_starts_with(ls[k], "  Executable: "@));
                }
                assert(first_line_with(ls, "  Executable: "@) == Some(k));
            }
            let rest = crate::text::sub_chars(lines[i].as_slice(), 14, lines[i].len());
            assert(rest@ =~= ls[i as int].skip(14));
            let t = crate::text::trim_chars(rest.as_slice());
            return Some(crate::text::string_of(t.as_slice()));
        }
        i = i + 1;
    }
    None
}

/// The configuration file a service runs with: the one given, else the
/// one found in the standard locations.
pub fn get_config_path(config_override: Option<String>, found: Option<String>) -> (r: Result<String, Error>)
    ensures
        match config_override {
            Some(p) => r == Ok::<String, Error>(p),
            None => match found {
                Some(f) => r == Ok::<String, Error>(f),
                None => (r matches Err(Error::Config(m)) && m@
                    == "No configuration file found. Create ~/.config/authsock-filter/config.toml first."@),
            },
        },
{
    match config_override {
        Some(p) => Ok(p),
        None => match found {
            Some(f) => Ok(f),
            None => Err(
                Error::Config(
                    "No configuration file found. Create ~/.config/authsock-filter/config.toml first.".to_string(),
                ),
            ),
        },
    }
}

/// The launchd label of a named service.
pub fn label(name: &str) -> (r: String)
    ensures
        r@ == "com.github.kawaz."@ + name@,
{
    concat_str("com.github.kawaz.", name)
}

/// The launchd plist of a named service under home directory `home`:
/// `~/Library/LaunchAgents/com.github.kawaz.NAME.plist`.
pub fn plist_path(home: &str, name: &str) -> (r: String)
    ensures
        r@ == spec_path_join(spec_path_join(home@, "Library/LaunchAgents"@), "com.github.kawaz."@ + name@ + ".plist"@),
{
    let dir = crate::utils::path::path_join(home, "Library/LaunchAgents");
    let l = label(name);
    let file = concat_str(l.as_str(), ".plist");
    crate::utils::path::path_join(dir.as_str(), file.as_str())
}

/// The systemd user unit of a named service under configuration directory
/// `config_dir`: `CONFIG/systemd/user/NAME.service`.
pub fn unit_path(config_dir: &str, name: &str) -> (r: String)
    ensures
        r@ == spec_path_join(spec_path_join(config_dir@, "systemd/user"@), name@ + ".service"@),
{
    let dir = crate::utils::path::path_join(config_dir, "systemd/user");
    let file = concat_str(name, ".service");
    crate::utils::path::path_join(dir.as_str(), file.as_str())
}

/// The content of a launchd plist, as its keys name them.
#[derive(Debug)]
pub struct LaunchdPlist {
    /// `Label`.
    pub label: String,
    /// `ProgramArguments`.
    pub program_arguments: Vec<String>,
    /// `RunAtLoad`.
    pub run_at_load: bool,
    /// `KeepAlive`.
    pub keep_alive: bool,
    /// `StandardOutPath`.
    pub standard_out_path: String,
    /// `StandardErrorPath`.
    pub standard_error_path: String,
    /// `EnvironmentVariables`.
    pub environment_variables: Vec<(String, String)>,
}

/// The plist of a named service that runs `EXE run --config CONFIG`,
/// started at load and kept alive, logging to `/tmp/NAME.stdout.log` and
/// `/tmp/NAME.stderr.log`, with `PATH` set to `/usr/local/bin:/usr/bin:/bin`.
pub fn generate_plist(name: &str, exe_path: &str, config_path: &str) -> (r: LaunchdPlist)
    ensures
        r.label@ == "com.github.kawaz."@ + name@,
        strings_view(r.program_arguments@) == seq![exe_path@, "run"@, "--config"@, config_path@],
        r.run_at_load,
        r.keep_alive,
        r.standard_out_path@ == "/tmp/"@ + name@ + ".stdout.log"@,
        r.standard_error_path@ == "/tmp/"@ + name@ + ".stderr.log"@,
        r.environment_variables@.len() == 1,
        r.environment_variables@[0].0@ == "PATH"@,
        r.environment_variables@[0].1@ == "/usr/local/bin:/usr/bin:/bin"@,
{
    let mut args: Vec<String> = Vec::new();
    push_str(&mut args, exe_path);
    push_str(&mut args, "run");
    push_str(&mut args, "--config");
    push_str(&mut args, config_path);
    assert(strings_view(args@) =~= seq![exe_path@, "run"@, "--config"@, config_path@]);
    let mut env: Vec<(String, String)> = Vec::new();
    env.push(("PATH".to_string(), "/usr/local/bin:/usr/bin:/bin".to_string()));
    let out_a = concat_str("/tmp/", name);
    let err_a = concat_str("/tmp/", name);
    LaunchdPlist {
        label: label(name),
        program_arguments: args,
        run_at_load: true,
        keep_alive: true,
        standard_out_path: concat_str(out_a.as_str(), ".stdout.log"),
        standard_error_path: concat_str(err_a.as_str(), ".stderr.log"),
        environment_variables: env,
    }
}

/// Whether `c` needs quoting in an `ExecStart` line.
pub open spec fn needs_quote(c: char) -> bool {
    crate::text::is_ws(c) || c == '"' || c == '\\'
}

/// A value escaped for an `ExecStart` line: `\` and `"` get a `\` before
/// them.
pub open spec fn escape_exec(s: Seq<char>) -> Seq<char>
    decreases s.len(),
{
    if s.len() == 0 {
        Seq::empty()
    } else {
        let prev = escape_exec(s.drop_last());
        let c = s.last();
        if c == '\\' || c == '"' {
            prev + seq!['\\', c]
        } else {
            prev.push(c)
        }
    }
}

/// A value as written in a systemd `ExecStart` line: as it is, unless it
/// holds white space, `"` or `\`; then escaped and in double quotes.
pub open spec fn spec_shell_quote(s: Seq<char>) -> Seq<char> {
    if exists|i: int| 0 <= i < s.len() && needs_quote(#[trigger] s[i]) {
        seq!['"'] + escape_exec(s) + seq!['"']
    } else {
        s
    }
}

/// Quotes a value for a systemd `ExecStart` line, as [`spec_shell_quote`]
/// states.
pub fn shell_quote(s: &str) -> (r: String)
    ensures
        r@ == spec_shell_quote(s@),
{
    let v = crate::text::chars_of(s);
    let mut needs = false;
    let mut i: usize = 0;
    while i < v.len()
        invariant
            i <= v@.len(),
            v@ == s@,
            needs <==> exists|j: int| 0 <= j < i && needs_quote(#[trigger] v@[j]),
        decreases v@.len() - i,
    {
        if crate::text::char_is_ws(v[i]) || v[i] == '"' || v[i] == '\\' {
            needs = true;
        }
        i = i + 1;
    }
    if !needs {
        return s.to_string();
    }
    let mut out = String::new();
    crate::text::string_push(&mut out, '"');
    let mut k: usize = 0;
    while k < v.len()
        invariant
            k <= v@.len(),
            v@ == s@,
            out@ == seq!['"'] + escape_exec(v@.take(k as int)),
        decreases v@.len() - k,
    {
        let c = v[k];
        if c == '\\' || c == '"' {
            crate::text::string_push(&mut out, '\\');
        }
        crate::text::string_push(&mut out, c);
        assert(v@.take(k + 1).drop_last() =~= v@.take(k as int));
        assert(v@.take(k + 1).last() == c);
        assert(out@ =~= seq!['"'] + escape_exec(v@.take(k + 1)));
        k = k + 1;
    }
    crate::text::string_push(&mut out, '"');
    assert(v@.take(k as int) =~= v@);
    out
}

/// The systemd unit of a service that runs `EXE run --config CONFIG`
/// (each path quoted as [`spec_shell_quote`] states).
pub open spec fn spec_generate_unit(exe_path: Seq<char>, config_path: Seq<char>) -> Seq<char> {
    "[Unit]\nDescription=SSH agent proxy with key filtering\nAfter=default.target\n\n[Service]\nType=simple\nExecStart="@
        + spec_shell_quote(exe_path) + " run --config "@ + spec_shell_quote(config_path)
        + "\nRestart=on-failure\nRestartSec=5\n\n[Install]\nWantedBy=default.target\n"@
}

/// The line of a unit that starts the proxy: `ExecStart=EXE run --config
/// CONFIG`, each path quoted as [`spec_shell_quote`] states.
pub open spec fn exec_start_line(exe_path: Seq<char>, config_path: Seq<char>) -> Seq<char> {
    "ExecStart="@ + spec_shell_quote(exe_path) + " run --config "@ + spec_shell_quote(config_path)
}

/// A unit starts the proxy with its executable and configuration: its
/// `ExecStart` line stands whole, between two line breaks.
pub proof fn lemma_unit_exec_start_line(exe_path: Seq<char>, config_path: Seq<char>)
    ensures
        ({
            let u = spec_generate_unit(exe_path, config_path);
            let l = exec_start_line(exe_path, config_path);
            exists|i: int|
                0 < i && i + l.len() < u.len() && u[i - 1] == '\n' && #[trigger] u.subrange(i, i + l.len()) == l
                    && u[i + l.len()] == '\n'
        }),
{
    let head = "[Unit]\nDescription=SSH agent proxy with key filtering\nAfter=default.target\n\n[Service]\nType=simple\n"@;
    let start = "ExecStart="@;
    let full = "[Unit]\nDescription=SSH agent proxy with key filtering\nAfter=default.target\n\n[Service]\nType=simple\nExecStart="@;
    let tail = "\nRestart=on-failure\nRestartSec=5\n\n[Install]\nWantedBy=default.target\n"@;
    reveal_strlit("[Unit]\nDescription=SSH agent proxy with key filtering\nAfter=default.target\n\n[Service]\nType=simple\n");
    reveal_strlit("ExecStart=");
    reveal_strlit("[Unit]\nDescription=SSH agent proxy with key filtering\nAfter=default.target\n\n[Service]\nType=simple\nExecStart=");
    reveal_strlit("\nRestart=on-failure\nRestartSec=5\n\n[Install]\nWantedBy=default.target\n");
    assert(full =~= head + start);
    let u = spec_generate_unit(exe_path, config_path);
    let l = exec_start_line(exe_path, config_path);
    assert(u =~= head + l + tail);
    let i = head.len() as int;
    assert(u[i - 1] == head[i - 1]);
    assert(u.subrange(i, i + l.len()) =~= l);
    assert(u[i + l.len()] == tail[0]);
}

/// The systemd unit of a service, as [`spec_generate_unit`] states.
pub fn generate_unit(name: &str, exe_path: &str, config_path: &str) -> (r: String)
    ensures
        r@ == spec_generate_unit(exe_path@, config_path@),
{
    let exe_quoted = shell_quote(exe_path);
    let config_quoted = shell_quote(config_path);
    let a = concat_str(
        "[Unit]\nDescription=SSH agent proxy with key filtering\nAfter=default.target\n\n[Service]\nType=simple\nExecStart=",
        exe_quoted.as_str(),
    );
    let b = concat_str(a.as_str(), " run --config ");
    let c = concat_str(b.as_str(), config_quoted.as_str());
    concat_str(c.as_str(), "\nRestart=on-failure\nRestartSec=5\n\n[Install]\nWantedBy=default.target\n")
}

/// A service registration needs a configuration with sockets.
pub fn check_config_has_sockets(socket_count: usize, config_path: &str) -> (r: Result<(), Error>)
    ensures
        r is Ok <==> socket_count > 0,
        r matches Err(e) ==> (e matches Error::Config(m) && m@ == "Configuration file has no sockets defined: "@
            + config_path@),
{
    if socket_count == 0 {
        Err(Error::Config(concat_str("Configuration file has no sockets defined: ", config_path)))
    } else {
        Ok(())
    }
}

} // verus!
