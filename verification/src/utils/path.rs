//! Path text helpers: joining paths the way `PathBuf::push` does on Unix,
//! and expansion of `~` and environment variables.

use vstd::prelude::*;
use crate::error::Error;

verus! {

/// `base` extended by `rel` as `PathBuf::push` does on Unix: an absolute
/// `rel` replaces `base`; otherwise a `/` is put between them unless
/// `base` is empty or already ends with one.
pub open spec fn spec_path_join(base: Seq<char>, rel: Seq<char>) -> Seq<char> {
    if rel.len() > 0 && rel[0] == '/' {
        rel
    } else if base.len() == 0 || base.last() == '/' {
        base + rel
    } else {
        base + "/"@ + rel
    }
}

/// Joins `rel` onto `base` as [`spec_path_join`] states.
pub fn path_join(base: &str, rel: &str) -> (r: String)
    ensures
        r@ == spec_path_join(base@, rel@),
{
    let b = crate::text::chars_of(base);
    let rv = crate::text::chars_of(rel);
    proof {
        reveal_strlit("/");
    }
    if rv.len() > 0 && rv[0] == '/' {
        return rel.to_string();
    }
    if b.len() == 0 || b[b.len() - 1] == '/' {
        crate::text::concat_str(base, rel)
    } else {
        let with_sep = crate::text::concat_str(base, "/");
        crate::text::concat_str(with_sep.as_str(), rel)
    }
}


/// The final component of a path, as `Path::file_name` gives it.
pub uninterp spec fn spec_file_name(p: Seq<char>) -> Option<Seq<char>>;

/// The texts of a path's components, as `Path::components` yields them on
/// Unix: `/` for the root, `.` for a leading current directory, `..` for a
/// parent directory, else the component's name.
pub uninterp spec fn spec_path_components(p: Seq<char>) -> Seq<Seq<char>>;

/// Whether two paths are equal as `Path`s: they have the same components.
pub open spec fn spec_path_eq(a: Seq<char>, b: Seq<char>) -> bool {
    spec_path_components(a) == spec_path_components(b)
}

/// `Path::file_name`: the final component of the path, `None` when the
/// path ends in `..` or has no final component. The result is named by
/// [`spec_file_name`]; nothing more is stated of it.
#[verifier::external_body]
pub(crate) fn path_file_name(p: &str) -> (r: Option<String>)
    ensures
        match r {
            Some(n) => spec_file_name(p@) == Some(n@),
            None => spec_file_name(p@) is None,
        },
{
    std::path::Path::new(p).file_name().map(|n| n.to_string_lossy().into_owned())
}

/// `==` on `Path`, which compares the paths' components: the result is
/// whether `a` and `b` have the same components ([`spec_path_components`]).
/// A component's text determines the component on Unix (a name is never
/// `/`, `.` or `..`), so comparing the texts is comparing the components.
#[verifier::external_body]
pub(crate) fn paths_equal(a: &str, b: &str) -> (r: bool)
    ensures
        r == (spec_path_components(a@) == spec_path_components(b@)),
{
    std::path::Path::new(a) == std::path::Path::new(b)
}

/// The path without its final component, as `Path::parent` gives it.
pub uninterp spec fn spec_parent(p: Seq<char>) -> Option<Seq<char>>;

/// The rest of `p` after the leading components `base`, as
/// `Path::strip_prefix` gives it.
pub uninterp spec fn spec_strip_prefix(p: Seq<char>, base: Seq<char>) -> Option<Seq<char>>;

/// `Path::parent`: the path without its final component, `None` when the
/// path terminates in a root or is empty. The result is named by
/// [`spec_parent`].
#[verifier::external_body]
pub(crate) fn path_parent(p: &str) -> (r: Option<String>)
    ensures
        match r {
            Some(q) => spec_parent(p@) == Some(q@),
            None => spec_parent(p@) is None,
        },
{
    std::path::Path::new(p).parent().map(|q| q.to_string_lossy().into_owned())
}

/// `Path::strip_prefix`: the path relative to `base` when `base` is a
/// prefix of its components. The result is named by
/// [`spec_strip_prefix`].
#[verifier::external_body]
pub(crate) fn path_strip_prefix(p: &str, base: &str) -> (r: Option<String>)
    ensures
        match r {
            Some(q) => spec_strip_prefix(p@, base@) == Some(q@),
            None => spec_strip_prefix(p@, base@) is None,
        },
{
    std::path::Path::new(p).strip_prefix(base).ok().map(|q| q.to_string_lossy().into_owned())
}

/// The index of the last `.` in `n`.
pub open spec fn last_dot(n: Seq<char>) -> Option<int> {
    if exists|i: int| 0 <= i < n.len() && n[i] == '.' {
        Some(choose|i: int| 0 <= i < n.len() && n[i] == '.' && forall|j: int| i < j < n.len() ==> n[j] != '.')
    } else {
        None
    }
}

/// The stem of a file name, as `Path::file_stem` documents it: the whole
/// name when it has no `.`, or when its only `.` is the first character
/// (or it is `..`); otherwise the part before the last `.`.
pub open spec fn spec_file_stem(name: Seq<char>) -> Seq<char> {
    if name == ".."@ {
        name
    } else {
        match last_dot(name) {
            Some(i) => if i == 0 {
                name
            } else {
                name.take(i)
            },
            None => name,
        }
    }
}

/// The stem of a file name, as [`spec_file_stem`] states.
pub fn file_stem_of(name: &str) -> (r: String)
    ensures
        r@ == spec_file_stem(name@),
{
    proof {
        reveal_strlit("..");
    }
    if crate::text::str_eq(name, "..") {
        return name.to_string();
    }
    let v = crate::text::chars_of(name);
    let mut i: usize = v.len();
    while i > 0
        invariant
            i <= v@.len(),
            v@ == name@,
            name@ != ".."@,
            forall|j: int| i <= j < v@.len() ==> v@[j] != '.',
        decreases i,
    {
        if v[i - 1] == '.' {
            let k = i - 1;
            proof {
                let n = name@;
                assert(0 <= k < n.len() && n[k as int] == '.');
                let c = choose|c: int| 0 <= c < n.len() && n[c] == '.' && forall|j: int| c < j < n.len() ==> n[j] != '.';
                if c < k {
                    assert(n[k as int] != '.');
                }
                if c > k {
                    assert(n[c] != '.');
                }
                assert(last_dot(n) == Some(k as int));
            }
            if k == 0 {
                return name.to_string();
            }
            let stem = crate::text::sub_chars(v.as_slice(), 0, k);
            assert(stem@ =~= name@.take(k as int));

            return crate::text::string_of(stem.as_slice());
        }
        i = i - 1;
    }
    assert(last_dot(name@) is None);
    name.to_string()
}

/// Expands environment variables and `~` in a path, as a path value, as
/// [`crate::config::expand_path`] does: a path with nothing to expand comes
/// back unchanged, a failure is a configuration error naming the path, and
/// what other paths give depends on the environment.
pub fn expand_to_pathbuf(path: &str) -> (r: Result<String, Error>)
    ensures
        crate::config::plain_path(path@) ==> r is Ok && r->Ok_0@ == path@,
        r matches Err(e) ==> crate::config::expansion_error(path@, e),
{
    crate::config::expand_path(path)
}

} // verus!
