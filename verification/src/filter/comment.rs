//! Matching keys by their comment: exact text, a glob pattern or a
//! regular expression.

use vstd::prelude::*;
use crate::error::Error;
use crate::protocol::message::{Identity, SpecIdentity};

verus! {

/// Why the `regex` crate rejects `pattern` as a regular expression (the
/// message of its error), or `None` when it accepts it.
pub uninterp spec fn spec_regex_error(pattern: Seq<char>) -> Option<Seq<char>>;

/// The `regex` crate accepts `pattern` as a regular expression.
pub open spec fn regex_compiles(pattern: Seq<char>) -> bool {
    spec_regex_error(pattern) is None
}

/// The regular expression `pattern` matches somewhere in `text`.
pub uninterp spec fn regex_matches(pattern: Seq<char>, text: Seq<char>) -> bool;

/// Why the `globset` crate rejects `pattern` as a glob, or cannot build a
/// matcher for it (the message of its error), or `None` when it accepts it.
pub uninterp spec fn spec_glob_error(pattern: Seq<char>) -> Option<Seq<char>>;

/// The `globset` crate accepts `pattern` as a glob.
pub open spec fn glob_compiles(pattern: Seq<char>) -> bool {
    spec_glob_error(pattern) is None
}

/// The glob `pattern` matches the whole of `text`.
pub uninterp spec fn glob_matches(pattern: Seq<char>, text: Seq<char>) -> bool;

/// `regex::Regex::new(pattern)`, then `Regex::is_match(text)` on the
/// compiled expression: the error's message when the pattern does not
/// compile (named by [`spec_regex_error`]), else whether it matches (named
/// by [`regex_matches`]).
#[verifier::external_body]
fn regex_try_match(pattern: &str, text: &str) -> (r: Result<bool, String>)
    ensures
        match r {
            Ok(b) => spec_regex_error(pattern@) is None && b == regex_matches(pattern@, text@),
            Err(e) => spec_regex_error(pattern@) == Some(e@),
        },
{
    match regex::Regex::new(pattern) {
        Ok(re) => Ok(re.is_match(text)),
        Err(e) => Err(e.to_string()),
    }
}

/// `globset::Glob::new(pattern)`, then a `GlobSetBuilder` holding that
/// glob is built and `GlobSet::is_match(text)` asked: the error's message
/// when the glob does not parse or its matcher cannot be built (named by
/// [`spec_glob_error`]), else whether it matches (named by
/// [`glob_matches`]). Building the set reports a matcher that cannot be
/// compiled as an error, where `Glob::compile_matcher` would panic.
#[verifier::external_body]
fn glob_try_match(pattern: &str, text: &str) -> (r: Result<bool, String>)
    ensures
        match r {
            Ok(b) => spec_glob_error(pattern@) is None && b == glob_matches(pattern@, text@),
            Err(e) => spec_glob_error(pattern@) == Some(e@),
        },
{
    let glob = match globset::Glob::new(pattern) {
        Ok(g) => g,
        Err(e) => return Err(e.to_string()),
    };
    let mut builder = globset::GlobSetBuilder::new();
    builder.add(glob);
    match builder.build() {
        Ok(set) => Ok(set.is_match(text)),
        Err(e) => Err(e.to_string()),
    }
}

/// How a comment pattern is read.
#[derive(Debug, Clone, Copy, PartialEq, Eq, Structural)]
pub enum CommentMatchKind {
    /// The comment must equal the pattern.
    Exact,
    /// The pattern is a glob (it holds `*` or `?`).
    Glob,
    /// The pattern is `~` followed by a regular expression.
    Regex,
}

/// How a pattern is read: `~regex`, a glob when it holds `*` or `?`, else exact.
pub open spec fn comment_kind(p: Seq<char>) -> CommentMatchKind {
    if p.len() > 0 && p[0] == '~' {
        CommentMatchKind::Regex
    } else if p.contains('*') || p.contains('?') {
        CommentMatchKind::Glob
    } else {
        CommentMatchKind::Exact
    }
}

/// A comment pattern is accepted: its regex or glob compiles.
pub open spec fn comment_pattern_valid(p: Seq<char>) -> bool {
    match comment_kind(p) {
        CommentMatchKind::Regex => regex_compiles(p.skip(1)),
        CommentMatchKind::Glob => glob_compiles(p),
        CommentMatchKind::Exact => true,
    }
}

/// Why a comment pattern is refused: the regular expression or glob with
/// the error that compiling it gave.
pub open spec fn comment_pattern_error(p: Seq<char>) -> Seq<char> {
    match comment_kind(p) {
        CommentMatchKind::Regex => "Invalid regex pattern '"@ + p.skip(1) + "': "@ + spec_regex_error(p.skip(1))->Some_0,
        _ => "Invalid glob pattern '"@ + p + "': "@ + spec_glob_error(p)->Some_0,
    }
}

/// A comment pattern matches a comment.
pub open spec fn comment_pattern_matches(p: Seq<char>, comment: Seq<char>) -> bool {
    match comment_kind(p) {
        CommentMatchKind::Regex => regex_matches(p.skip(1), comment),
        CommentMatchKind::Glob => glob_matches(p, comment),
        CommentMatchKind::Exact => comment == p,
    }
}

/// Matcher for SSH key comments.
#[derive(Debug)]
pub struct CommentMatcher {
    pattern: String,
    kind: CommentMatchKind,
}

impl CommentMatcher {
    /// The pattern this matcher was made from.
    pub closed spec fn spec_pattern(&self) -> Seq<char> {
        self.pattern@
    }

    #[verifier::type_invariant]
    closed spec fn inv(&self) -> bool {
        &&& self.kind == comment_kind(self.pattern@)
        &&& comment_pattern_valid(self.pattern@)
    }

    /// Creates a comment matcher.
    ///
    /// Pattern syntax: `~regex` is a regular expression, a pattern holding
    /// `*` or `?` is a glob, anything else must equal the comment.
    /// Fails when the regular expression or glob does not compile.
    pub fn new(pattern: &str) -> (r: Result<CommentMatcher, Error>)
        ensures
            r is Ok <==> comment_pattern_valid(pattern@),
            match r {
                Ok(m) => m.spec_pattern() == pattern@,
                Err(e) => e matches Error::Filter(msg) && msg@ == comment_pattern_error(pattern@),
            },
    {
        let chars = crate::text::chars_of(pattern);
        if chars.len() > 0 && chars[0] == '~' {
            let rest = crate::text::string_of(
                crate::text::sub_chars(chars.as_slice(), 1, chars.len()).as_slice(),
            );
            assert(rest@ == pattern@.skip(1));
            match regex_try_match(rest.as_str(), "") {
                Ok(_) => Ok(CommentMatcher {
                    pattern: pattern.to_string(),
                    kind: CommentMatchKind::Regex,
                }),
                Err(e) => {
                    let a = crate::text::concat_str("Invalid regex pattern '", rest.as_str());
                    let b = crate::text::concat_str(a.as_str(), "': ");
                    Err(Error::Filter(crate::text::concat_str(b.as_str(), e.as_str())))
                },
            }
        } else if crate::text::char_in(chars.as_slice(), '*') || crate::text::char_in(
            chars.as_slice(),
            '?',
        ) {
            match glob_try_match(pattern, "") {
                Ok(_) => Ok(CommentMatcher {
                    pattern: pattern.to_string(),
                    kind: CommentMatchKind::Glob,
                }),
                Err(e) => {
                    let a = crate::text::concat_str("Invalid glob pattern '", pattern);
                    let b = crate::text::concat_str(a.as_str(), "': ");
                    Err(Error::Filter(crate::text::concat_str(b.as_str(), e.as_str())))
                },
            }
        } else {
            Ok(CommentMatcher { pattern: pattern.to_string(), kind: CommentMatchKind::Exact })
        }
    }

    /// The pattern being matched.
    pub fn pattern(&self) -> (s: &str)
        ensures
            s@ == self.spec_pattern(),
    {
        self.pattern.as_str()
    }

    /// Whether the identity's comment matches the pattern.
    pub fn matches(&self, identity: &Identity) -> (b: bool)
        ensures
            b == comment_pattern_matches(self.spec_pattern(), identity.comment@),
    {
        proof {
            use_type_invariant(self);
        }
        match self.kind {
            CommentMatchKind::Exact => identity.comment == self.pattern,
            CommentMatchKind::Glob => {
                match glob_try_match(self.pattern.as_str(), identity.comment.as_str()) {
                    Ok(b) => b,
                    Err(_) => false,
                }
            },
            CommentMatchKind::Regex => {
                let chars = crate::text::chars_of(self.pattern.as_str());
                let rest = crate::text::string_of(
                    crate::text::sub_chars(chars.as_slice(), 1, chars.len()).as_slice(),
                );
                match regex_try_match(rest.as_str(), identity.comment.as_str()) {
                    Ok(b) => b,
                    Err(_) => false,
                }
            },
        }
    }
}

impl Clone for CommentMatcher {
    fn clone(&self) -> (r: CommentMatcher)
        ensures
            r.spec_pattern() == self.spec_pattern(),
    {
        proof {
            use_type_invariant(self);
        }
        CommentMatcher { pattern: self.pattern.clone(), kind: self.kind }
    }
}

/// A comment matcher's view of an identity: only the comment counts.
pub open spec fn comment_matcher_accepts(p: Seq<char>, id: SpecIdentity) -> bool {
    comment_pattern_matches(p, id.1)
}

/// A pattern `~re` accepts a comment when the regular expression `re`
/// matches it; any other pattern holding `*` or `?` accepts a comment when
/// the glob matches it.
pub proof fn lemma_regex_and_glob_patterns(p: Seq<char>, comment: Seq<char>)
    ensures
        p.len() > 0 && p[0] == '~' ==> (comment_pattern_matches(p, comment) <==> regex_matches(p.skip(1), comment)),
        !(p.len() > 0 && p[0] == '~') && (exists|i: int| 0 <= i < p.len() && (p[i] == '*' || p[i] == '?'))
            ==> (comment_pattern_matches(p, comment) <==> glob_matches(p, comment)),
{
    if !(p.len() > 0 && p[0] == '~') && (exists|i: int| 0 <= i < p.len() && (p[i] == '*' || p[i] == '?')) {
        let i = choose|i: int| 0 <= i < p.len() && (p[i] == '*' || p[i] == '?');
        if p[i] == '*' {
            assert(p.contains('*'));
        } else {
            assert(p.contains('?'));
        }
    }
}

/// A pattern that is neither `~regex` nor a glob (no `*`, no `?`)
/// accepts a comment exactly when the comment is the pattern itself.
pub proof fn lemma_plain_comment_pattern_is_exact(p: Seq<char>, comment: Seq<char>)
    requires
        !(p.len() > 0 && p[0] == '~'),
        forall|i: int| 0 <= i < p.len() ==> p[i] != '*' && p[i] != '?',
    ensures
        comment_pattern_valid(p),
        comment_pattern_matches(p, comment) <==> comment == p,
{
    assert(!p.contains('*'));
    assert(!p.contains('?'));
}

} // verus!
