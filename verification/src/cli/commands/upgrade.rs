//! The `upgrade` command's decisions: how versions compare, which release
//! asset fits the platform, and what is said when a version manager owns
//! the executable.

use vstd::prelude::*;
use std::cmp::Ordering;
use crate::cli::commands::VersionManagerInfo;
use crate::config::duration::{parse_u64_text, parse_u32_str};
use crate::error::Error;
use crate::text::{concat_str, occurs_at, spec_find, split_char, spec_starts_with, str_starts_with, strings_view};

verus! {

/// `s` without its leading `v`s.
pub open spec fn trim_v(s: Seq<char>) -> Seq<char>
    decreases s.len(),
{
    if s.len() > 0 && s[0] == 'v' {
        trim_v(s.skip(1))
    } else {
        s
    }
}

/// The number a dot-separated piece of a version stands for: the text
/// before its first `-`, read as a `u32`.
pub open spec fn piece_value(p: Seq<char>) -> Option<u32> {
    match parse_u64_text(split_char(p, '-')[0]) {
        Some(v) => if v <= u32::MAX {
            Some(v as u32)
        } else {
            None
        },
        None => None,
    }
}

/// The numbers of the first `k` pieces, leaving out pieces that are not
/// numbers.
pub open spec fn piece_values(pieces: Seq<Seq<char>>, k: int) -> Seq<u32>
    decreases k,
{
    if k <= 0 {
        Seq::empty()
    } else {
        let prev = piece_values(pieces, k - 1);
        match piece_value(pieces[k - 1]) {
            Some(v) => prev.push(v),
            None => prev,
        }
    }
}

/// The numbers of a version: leading `v`s dropped, split at `.`, each
/// piece read up to its first `-`, pieces that are not numbers left out.
pub open spec fn version_numbers(s: Seq<char>) -> Seq<u32> {
    let pieces = split_char(trim_v(s), '.');
    piece_values(pieces, pieces.len() as int)
}

/// How two lists of version numbers compare, as -1, 0 or 1: by the first
/// place where they differ, else by length.
pub open spec fn version_rank(a: Seq<u32>, b: Seq<u32>) -> int
    decreases a.len(),
{
    if a.len() == 0 || b.len() == 0 {
        if a.len() < b.len() {
            -1
        } else if a.len() == b.len() {
            0
        } else {
            1
        }
    } else if a[0] < b[0] {
        -1
    } else if a[0] > b[0] {
        1
    } else {
        version_rank(a.skip(1), b.skip(1))
    }
}

/// How two lists of version numbers compare, as [`version_rank`] ranks
/// them.
pub open spec fn version_order(a: Seq<u32>, b: Seq<u32>) -> Ordering {
    let c = version_rank(a, b);
    if c < 0 {
        Ordering::Less
    } else if c == 0 {
        Ordering::Equal
    } else {
        Ordering::Greater
    }
}

proof fn lemma_version_rank_antisymmetric(a: Seq<u32>, b: Seq<u32>)
    ensures
        version_rank(a, b) == -version_rank(b, a),
        -1 <= version_rank(a, b) <= 1,
    decreases a.len(),
{
    if a.len() > 0 && b.len() > 0 && a[0] == b[0] {
        lemma_version_rank_antisymmetric(a.skip(1), b.skip(1));
    }
}

proof fn lemma_version_rank_reflexive(a: Seq<u32>)
    ensures
        version_rank(a, a) == 0,
    decreases a.len(),
{
    if a.len() > 0 {
        lemma_version_rank_reflexive(a.skip(1));
    }
}

/// Comparing versions is antisymmetric: `a` is older than `b` exactly
/// when `b` is newer than `a`, and equal exactly when `b` equals `a`.
pub proof fn lemma_compare_versions_antisymmetric(a: Seq<char>, b: Seq<char>)
    ensures
        (version_order(version_numbers(a), version_numbers(b)) == Ordering::Less) <==> (version_order(
            version_numbers(b),
            version_numbers(a),
        ) == Ordering::Greater),
        (version_order(version_numbers(a), version_numbers(b)) == Ordering::Equal) <==> (version_order(
            version_numbers(b),
            version_numbers(a),
        ) == Ordering::Equal),
{
    lemma_version_rank_antisymmetric(version_numbers(a), version_numbers(b));
}

/// Every version compares equal to itself.
pub proof fn lemma_compare_versions_reflexive(a: Seq<char>)
    ensures
        version_order(version_numbers(a), version_numbers(a)) == Ordering::Equal,
{
    lemma_version_rank_reflexive(version_numbers(a));
}

proof fn lemma_version_rank_transitive(a: Seq<u32>, b: Seq<u32>, c: Seq<u32>)
    ensures
        version_rank(a, b) <= 0 && version_rank(b, c) <= 0 ==> version_rank(a, c) <= 0,
        version_rank(a, b) < 0 && version_rank(b, c) <= 0 ==> version_rank(a, c) < 0,
        version_rank(a, b) <= 0 && version_rank(b, c) < 0 ==> version_rank(a, c) < 0,
    decreases a.len(),
{
    if a.len() > 0 && b.len() > 0 && c.len() > 0 && a[0] == b[0] && b[0] == c[0] {
        lemma_version_rank_transitive(a.skip(1), b.skip(1), c.skip(1));
    }
}

/// Comparing versions is transitive: when `a` is not newer than `b` and
/// `b` not newer than `c`, `a` is not newer than `c`, and it is older when
/// either step is.
pub proof fn lemma_compare_versions_transitive(a: Seq<char>, b: Seq<char>, c: Seq<char>)
    ensures
        version_order(version_numbers(a), version_numbers(b)) != Ordering::Greater && version_order(
            version_numbers(b),
            version_numbers(c),
        ) != Ordering::Greater ==> version_order(version_numbers(a), version_numbers(c)) != Ordering::Greater,
        version_order(version_numbers(a), version_numbers(b)) == Ordering::Less && version_order(
            version_numbers(b),
            version_numbers(c),
        ) != Ordering::Greater ==> version_order(version_numbers(a), version_numbers(c)) == Ordering::Less,
        version_order(version_numbers(a), version_numbers(b)) != Ordering::Greater && version_order(
            version_numbers(b),
            version_numbers(c),
        ) == Ordering::Less ==> version_order(version_numbers(a), version_numbers(c)) == Ordering::Less,
{
    lemma_version_rank_transitive(version_numbers(a), version_numbers(b), version_numbers(c));
}

/// A leading `v` does not change a version: `v1.2` compares as `1.2`.
pub proof fn lemma_leading_v_ignored(a: Seq<char>)
    ensures
        version_numbers(seq!['v'] + a) == version_numbers(a),
{
    assert((seq!['v'] + a).skip(1) =~= a);
}

/// `s` without its leading `v`s.
fn trim_v_exec(s: &str) -> (r: Vec<char>)
    ensures
        r@ == trim_v(s@),
{
    let v = crate::text::chars_of(s);
    let mut i: usize = 0;
    assert(v@.skip(0) =~= v@);
    while i < v.len() && v[i] == 'v'
        invariant
            i <= v@.len(),
            v@ == s@,
            trim_v(s@) == trim_v(v@.skip(i as int)),
        decreases v@.len() - i,
    {
        assert(v@.skip(i as int).skip(1) =~= v@.skip(i + 1));
        i = i + 1;
    }
    crate::text::sub_chars(v.as_slice(), i, v.len())
}

/// The numbers of a version, as [`version_numbers`] states.
pub fn version_numbers_exec(s: &str) -> (r: Vec<u32>)
    ensures
        r@ == version_numbers(s@),
{
    let t = trim_v_exec(s);
    let pieces = crate::text::split_on(t.as_slice(), '.');
    let ghost ps = split_char(trim_v(s@), '.');
    let mut out: Vec<u32> = Vec::new();
    let mut i: usize = 0;
    while i < pieces.len()
        invariant
            i <= pieces@.len(),
            t@ == trim_v(s@),
            ps == split_char(trim_v(s@), '.'),
            pieces@.len() == ps.len(),
            forall|j: int| 0 <= j < pieces@.len() ==> #[trigger] pieces@[j]@ == ps[j],
            out@ == piece_values(ps, i as int),
        decreases pieces@.len() - i,
    {
        let sub = crate::text::split_on(pieces[i].as_slice(), '-');
        proof {
            crate::text::lemma_split_char_nonempty(ps[i as int], '-');
        }
        let head = crate::text::string_of(sub[0].as_slice());
        assert(head@ == split_char(ps[i as int], '-')[0]);
        match parse_u32_str(head.as_str()) {
            Some(v) => {
                out.push(v);
            },
            None => {},
        }
        i = i + 1;
    }
    out
}

/// How two number lists compare, as [`version_rank`] states.
fn rank_numbers(a: &Vec<u32>, b: &Vec<u32>) -> (r: i8)
    ensures
        r == version_rank(a@, b@),
{
    let mut i: usize = 0;
    assert(a@.skip(0) =~= a@);
    assert(b@.skip(0) =~= b@);
    while i < a.len() && i < b.len() && a[i] == b[i]
        invariant
            i <= a@.len(),
            i <= b@.len(),
            version_rank(a@, b@) == version_rank(a@.skip(i as int), b@.skip(i as int)),
        decreases a@.len() - i,
    {
        assert(a@.skip(i as int).skip(1) =~= a@.skip(i + 1));
        assert(b@.skip(i as int).skip(1) =~= b@.skip(i + 1));
        i = i + 1;
    }
    if i < a.len() && i < b.len() {
        if a[i] < b[i] {
            -1
        } else {
            1
        }
    } else if a.len() - i < b.len() - i {
        -1
    } else if a.len() - i == b.len() - i {
        0
    } else {
        1
    }
}

/// Compares two version texts (a simple semantic-version comparison), as
/// [`version_order`] states of their [`version_numbers`].
pub fn compare_versions(current: &str, latest: &str) -> (r: Ordering)
    ensures
        r == version_order(version_numbers(current@), version_numbers(latest@)),
{
    let a = version_numbers_exec(current);
    let b = version_numbers_exec(latest);
    let c = rank_numbers(&a, &b);
    if c < 0 {
        Ordering::Less
    } else if c == 0 {
        Ordering::Equal
    } else {
        Ordering::Greater
    }
}

/// What the upgrade does about the release found.
#[derive(Debug)]
pub struct UpgradePlan {
    /// Whether to go on with the upgrade.
    pub proceed: bool,
    /// What is printed about it.
    pub message: String,
}

/// Whether to upgrade from `current` to `latest` (their comparison is
/// `order`): when older, yes; when the same or newer, only when forced,
/// with a note either way.
pub open spec fn upgrade_plan_of(current: Seq<char>, latest: Seq<char>, order: Ordering, force: bool) -> (bool, Seq<
    char,
>) {
    match order {
        Ordering::Less => (true, Seq::empty()),
        Ordering::Equal => if force {
            (true, "Already at version "@ + latest + ", but --force specified.\n"@)
        } else {
            (false, "Already at the latest version.\n"@)
        },
        Ordering::Greater => if force {
            (true, "Current version ("@ + current + ") is newer than target ("@ + latest + "), but --force specified.\n"@)
        } else {
            (false, "Current version ("@ + current + ") is newer than latest ("@ + latest + ").\n"@)
        },
    }
}

/// Whether to upgrade, as [`upgrade_plan_of`] states.
pub fn upgrade_plan(current: &str, latest: &str, order: Ordering, force: bool) -> (r: UpgradePlan)
    ensures
        (r.proceed, r.message@) == upgrade_plan_of(current@, latest@, order, force),
{
    proof {
        reveal_strlit("");
    }
    match order {
        Ordering::Less => UpgradePlan { proceed: true, message: String::new() },
        Ordering::Equal => if force {
            let a = concat_str("Already at version ", latest);
            UpgradePlan { proceed: true, message: concat_str(a.as_str(), ", but --force specified.\n") }
        } else {
            UpgradePlan { proceed: false, message: "Already at the latest version.\n".to_string() }
        },
        Ordering::Greater => {
            let a = concat_str("Current version (", current);
            if force {
                let b = concat_str(a.as_str(), ") is newer than target (");
                let c = concat_str(b.as_str(), latest);
                UpgradePlan { proceed: true, message: concat_str(c.as_str(), "), but --force specified.\n") }
            } else {
                let b = concat_str(a.as_str(), ") is newer than latest (");
                let c = concat_str(b.as_str(), latest);
                UpgradePlan { proceed: false, message: concat_str(c.as_str(), ").\n") }
            }
        },
    }
}

} // verus!

verus! {

/// The operating-system part of a release asset's name.
pub open spec fn os_asset_name(os: Seq<char>) -> Seq<char> {
    if os == "macos"@ {
        "apple-darwin"@
    } else if os == "linux"@ {
        "unknown-linux-gnu"@
    } else if os == "windows"@ {
        "pc-windows-msvc"@
    } else {
        os
    }
}

/// The name a release asset for the platform starts with:
/// `authsock-filter-ARCH-OS`.
pub fn get_platform_asset_name(os: &str, arch: &str) -> (r: String)
    ensures
        r@ == "authsock-filter-"@ + arch@ + "-"@ + os_asset_name(os@),
{
    let os_name = if crate::text::str_eq(os, "macos") {
        "apple-darwin"
    } else if crate::text::str_eq(os, "linux") {
        "unknown-linux-gnu"
    } else if crate::text::str_eq(os, "windows") {
        "pc-windows-msvc"
    } else {
        os
    };
    let a = concat_str("authsock-filter-", arch);
    let b = concat_str(a.as_str(), "-");
    concat_str(b.as_str(), os_name)
}

/// The first asset whose name starts with `prefix`.
pub open spec fn first_asset(names: Seq<Seq<char>>, prefix: Seq<char>) -> Option<int> {
    if exists|i: int| 0 <= i < names.len() && spec_starts_with(#[trigger] names[i], prefix) {
        Some(
            choose|i: int|
                0 <= i < names.len() && spec_starts_with(#[trigger] names[i], prefix) && forall|j: int|
                    0 <= j < i ==> !spec_starts_with(#[trigger] names[j], prefix),
        )
    } else {
        None
    }
}

/// The release asset for the platform: the first whose name starts with
/// the platform's prefix; an error when there is none.
pub fn select_asset(names: &[String], prefix: &str) -> (r: Result<usize, Error>)
    ensures
        match first_asset(strings_view(names@), prefix@) {
            Some(i) => r == Ok::<usize, Error>(i as usize),
            None => (r matches Err(Error::Other(m)) && m@ == "No pre-built binary found for this platform ("@
                + prefix@ + "). You may need to build from source."@),
        },
{
    let ghost nv = strings_view(names@);
    let mut i: usize = 0;
    while i < names.len()
        invariant
            i <= names@.len(),
            nv == strings_view(names@),
            forall|j: int| 0 <= j < i ==> !spec_starts_with(#[trigger] nv[j], prefix@),
        decreases names@.len() - i,
    {
        assert(nv[i as int] == names@[i as int]@);
        if str_starts_with(names[i].as_str(), prefix) {
            proof {
                let c = choose|c: int|
                    0 <= c < nv.len() && spec_starts_with(#[trigger] nv[c], prefix@) && forall|j: int|
                        0 <= j < c ==> !spec_starts_with(#[trigger] nv[j], prefix@);
                if c > i {
                    assert(!spec_starts_with(nv[i as int], prefix@));
                }
            }
            return Ok(i);
        }
        i = i + 1;
    }
    let a = concat_str("No pre-built binary found for this platform (", prefix);
    Err(Error::Other(concat_str(a.as_str(), "). You may need to build from source.")))
}

/// The mise tool name in an installation path: the directory after
/// `/mise/installs/` (then `/.mise/installs/`), with `github-USER-REPO`
/// written as `github:USER/REPO`.
pub open spec fn spec_mise_tool_name(path: Seq<char>) -> Option<Seq<char>> {
    match tool_segment(path, "/mise/installs/"@) {
        Some(seg) => Some(tool_name_of(seg)),
        None => match tool_segment(path, "/.mise/installs/"@) {
            Some(seg) => Some(tool_name_of(seg)),
            None => None,
        },
    }
}

/// The directory name after the first `pattern` in `path`, when a `/`
/// follows it.
pub open spec fn tool_segment(path: Seq<char>, pattern: Seq<char>) -> Option<Seq<char>> {
    match spec_find(path, pattern) {
        Some(start) => {
            let after = path.skip(start + pattern.len());
            match spec_find(after, "/"@) {
                Some(end) => Some(after.take(end)),
                None => None,
            }
        },
        None => None,
    }
}

/// A tool directory's name as mise names the tool.
pub open spec fn tool_name_of(seg: Seq<char>) -> Seq<char> {
    if spec_starts_with(seg, "github-"@) {
        let rest = seg.skip(7);
        match spec_find(rest, "-"@) {
            Some(d) => "github:"@ + rest.take(d) + "/"@ + rest.skip(d + 1),
            None => seg,
        }
    } else {
        seg
    }
}

fn tool_segment_exec(path: &[char], pattern: &str) -> (r: Option<Vec<char>>)
    ensures
        match r {
            Some(s) => tool_segment(path@, pattern@) == Some(s@),
            None => tool_segment(path@, pattern@) is None,
        },
{
    let pv = crate::text::chars_of(pattern);
    let slash = crate::text::chars_of("/");
    match crate::text::find(path, pv.as_slice()) {
        Some(start) => {
            assert(occurs_at(path@, pv@, start as int));
            let n = path.len();
            assert(start + pv@.len() <= n);
            let after = crate::text::sub_chars(path, start + pv.len(), path.len());
            assert(after@ =~= path@.skip(start + pattern@.len()));
            match crate::text::find(after.as_slice(), slash.as_slice()) {
                Some(end) => {
                    let seg = crate::text::sub_chars(after.as_slice(), 0, end);
                    assert(seg@ =~= after@.take(end as int));
                    Some(seg)
                },
                None => None,
            }
        },
        None => None,
    }
}

fn tool_name_exec(seg: &[char]) -> (r: String)
    ensures
        r@ == tool_name_of(seg@),
{
    let prefix = crate::text::chars_of("github-");
    let dash = crate::text::chars_of("-");
    proof {
        reveal_strlit("github-");
        reveal_strlit("-");
    }
    if crate::text::starts_with(seg, prefix.as_slice()) {
        let rest = crate::text::sub_chars(seg, 7, seg.len());
        assert(rest@ =~= seg@.skip(7));
        match crate::text::find(rest.as_slice(), dash.as_slice()) {
            Some(d) => {
                let user = crate::text::sub_chars(rest.as_slice(), 0, d);
                let repo = crate::text::sub_chars(rest.as_slice(), d + 1, rest.len());
                assert(user@ =~= rest@.take(d as int));
                assert(repo@ =~= rest@.skip(d + 1));
                let u = crate::text::string_of(user.as_slice());
                let r = crate::text::string_of(repo.as_slice());
                let a = concat_str("github:", u.as_str());
                let b = concat_str(a.as_str(), "/");
                return concat_str(b.as_str(), r.as_str());
            },
            None => {},
        }
    }
    crate::text::string_of(seg)
}

/// The mise tool name in an installation path, as [`spec_mise_tool_name`]
/// states.
pub fn extract_mise_tool_name(path: &str) -> (r: Option<String>)
    ensures
        match r {
            Some(n) => spec_mise_tool_name(path@) == Some(n@),
            None => spec_mise_tool_name(path@) is None,
        },
{
    let pv = crate::text::chars_of(path);
    match tool_segment_exec(pv.as_slice(), "/mise/installs/") {
        Some(seg) => Some(tool_name_exec(seg.as_slice())),
        None => match tool_segment_exec(pv.as_slice(), "/.mise/installs/") {
            Some(seg) => Some(tool_name_exec(seg.as_slice())),
            None => None,
        },
    }
}

/// How to upgrade with a version manager instead.
pub open spec fn manager_advice(name: Seq<char>, tool: Option<Seq<char>>) -> Seq<char> {
    if name == "mise"@ {
        match tool {
            Some(t) => "  mise upgrade "@ + t + "\n  # or\n  mise use "@ + t + "@latest\n"@,
            None => "  mise upgrade <tool-name>\n  # or\n  mise use <tool-name>@latest\n"@,
        }
    } else if name == "asdf"@ {
        "  asdf install authsock-filter latest\n  asdf global authsock-filter latest\n"@
    } else if name == "aqua"@ {
        "  aqua update authsock-filter\n"@
    } else {
        "  "@ + name + " upgrade authsock-filter\n"@
    }
}

/// The lines suggesting the stable paths of the first `k` suggestions.
pub open spec fn suggestion_lines(s: Seq<(String, bool)>, k: int) -> Seq<char>
    decreases k,
{
    if k <= 0 {
        Seq::empty()
    } else {
        suggestion_lines(s, k - 1) + "  "@ + s[k - 1].0@ + " upgrade\n"@
    }
}

/// Why an executable that a version manager owns is not upgraded in
/// place, how to upgrade instead, and which stable paths to run from.
pub open spec fn spec_version_managed_message(info: VersionManagerInfo, tool: Option<Seq<char>>) -> Seq<char> {
    let name = info.name@;
    let head = "Cannot upgrade - running from "@ + name + " version manager.\nCurrent path: "@ + info.current_path@
        + "\n\nThe 'upgrade' command directly overwrites the executable, which would\nbypass "@ + name
        + " version management and cause inconsistencies.\n"@;
    let advice = "\nUse "@ + name + " to upgrade instead:\n"@ + manager_advice(name, tool);
    let alt = if info.suggestions@.len() > 0 {
        "\nAlternatively, run upgrade from a stable path:\n"@ + suggestion_lines(
            info.suggestions@,
            info.suggestions@.len() as int,
        )
    } else {
        Seq::empty()
    };
    head + advice + alt
}

/// Why an executable that a version manager owns is not upgraded, as
/// [`spec_version_managed_message`] states; `tool` is the mise tool name
/// found in its path.
pub fn version_managed_message(info: &VersionManagerInfo, tool: Option<String>) -> (r: String)
    ensures
        r@ == spec_version_managed_message(
            *info,
            match tool {
                Some(t) => Some(t@),
                None => None,
            },
        ),
{
    let name = info.name.as_str();
    let a = concat_str("Cannot upgrade - running from ", name);
    let b = concat_str(a.as_str(), " version manager.\nCurrent path: ");
    let c = concat_str(b.as_str(), info.current_path.as_str());
    let d = concat_str(
        c.as_str(),
        "\n\nThe 'upgrade' command directly overwrites the executable, which would\nbypass ",
    );
    let e = concat_str(d.as_str(), name);
    let head = concat_str(e.as_str(), " version management and cause inconsistencies.\n");
    let f = concat_str("\nUse ", name);
    let g = concat_str(f.as_str(), " to upgrade instead:\n");
    let advice_text = if crate::text::str_eq(name, "mise") {
        match &tool {
            Some(t) => {
                let x = concat_str("  mise upgrade ", t.as_str());
                let y = concat_str(x.as_str(), "\n  # or\n  mise use ");
                let z = concat_str(y.as_str(), t.as_str());
                concat_str(z.as_str(), "@latest\n")
            },
            None => "  mise upgrade <tool-name>\n  # or\n  mise use <tool-name>@latest\n".to_string(),
        }
    } else if crate::text::str_eq(name, "asdf") {
        "  asdf install authsock-filter latest\n  asdf global authsock-filter latest\n".to_string()
    } else if crate::text::str_eq(name, "aqua") {
        "  aqua update authsock-filter\n".to_string()
    } else {
        let x = concat_str("  ", name);
        concat_str(x.as_str(), " upgrade authsock-filter\n")
    };
    let advice = concat_str(g.as_str(), advice_text.as_str());
    let mut msg = concat_str(head.as_str(), advice.as_str());
    if info.suggestions.len() > 0 {
        let ghost base = msg@;
        let mut lines = String::new();
        let mut i: usize = 0;
        while i < info.suggestions.len()
            invariant
                i <= info.suggestions@.len(),
                lines@ == suggestion_lines(info.suggestions@, i as int),
            decreases info.suggestions@.len() - i,
        {
            let x = concat_str(lines.as_str(), "  ");
            let y = concat_str(x.as_str(), info.suggestions[i].0.as_str());
            lines = concat_str(y.as_str(), " upgrade\n");
            i = i + 1;
        }
        let alt = concat_str("\nAlternatively, run upgrade from a stable path:\n", lines.as_str());
        msg = concat_str(msg.as_str(), alt.as_str());
    }
    proof {
        reveal_strlit("");
    }
    msg
}

} // verus!
