//! Filter rules: one filter, optionally negated, and how rules are written.

use vstd::prelude::*;
use crate::error::Error;
use crate::filter::comment::{comment_pattern_error, comment_pattern_matches, comment_pattern_valid, CommentMatcher};
use crate::filter::fingerprint::{fingerprint_matches, fingerprint_pattern_valid, FingerprintMatcher};
use crate::filter::github::{GitHubKeysMatcher, DEFAULT_CACHE_TTL};
use crate::filter::keyfile::KeyfileMatcher;
use crate::filter::keytype::{key_type_matches, KeyTypeMatcher};
use crate::filter::pubkey::{blob_in, pubkey_blob, PubkeyMatcher};
use crate::protocol::message::{Identity, SpecIdentity};
use crate::text::spec_starts_with;

verus! {

/// The kinds of filter.
#[derive(Debug, Clone, Copy, PartialEq, Eq, Structural)]
pub enum FilterKind {
    /// `fingerprint`
    Fingerprint,
    /// `pubkey`
    Pubkey,
    /// `keyfile`
    Keyfile,
    /// `comment`
    Comment,
    /// `type`
    KeyType,
    /// `github`
    GitHub,
}

/// A filter that can match against an SSH key identity.
#[derive(Debug)]
pub enum Filter {
    /// Match by fingerprint (`SHA256:xxx` or `MD5:xx:xx:...`).
    Fingerprint(FingerprintMatcher),
    /// Match by public key (`ssh-ed25519 AAAA...`).
    Pubkey(PubkeyMatcher),
    /// Match by the keys listed in a file (`authorized_keys` form).
    Keyfile(KeyfileMatcher),
    /// Match by comment.
    Comment(CommentMatcher),
    /// Match by key type.
    KeyType(KeyTypeMatcher),
    /// Match by a GitHub user's published keys.
    GitHub(GitHubKeysMatcher),
}

impl Filter {
    /// Whether this filter accepts an identity.
    pub open spec fn spec_matches(&self, id: SpecIdentity) -> bool {
        match self {
            Filter::Fingerprint(m) => fingerprint_matches(m.spec_pattern(), id.0),
            Filter::Pubkey(m) => id.0 == m.spec_blob(),
            Filter::Keyfile(m) => blob_in(m.spec_keys(), id.0),
            Filter::Comment(m) => comment_pattern_matches(m.spec_pattern(), id.1),
            Filter::KeyType(m) => key_type_matches(m.spec_key_type(), id.0),
            Filter::GitHub(m) => blob_in(m.spec_keys(), id.0),
        }
    }

    /// This filter is what parsing `arg` as a filter of `kind` makes: the
    /// matcher holds the argument, and file and GitHub keys are not loaded.
    pub open spec fn spec_built_from(&self, kind: FilterKind, arg: Seq<char>) -> bool {
        match self {
            Filter::Fingerprint(m) => kind == FilterKind::Fingerprint && m.spec_pattern() == arg,
            Filter::Pubkey(m) => kind == FilterKind::Pubkey && pubkey_blob(arg) == Some(
                m.spec_blob(),
            ),
            Filter::Keyfile(m) => kind == FilterKind::Keyfile && m.spec_path() == arg
                && m.spec_keys() == Seq::<Seq<u8>>::empty(),
            Filter::Comment(m) => kind == FilterKind::Comment && m.spec_pattern() == arg,
            Filter::KeyType(m) => kind == FilterKind::KeyType && m.spec_key_type() == arg,
            Filter::GitHub(m) => kind == FilterKind::GitHub && m.spec_username() == arg
                && m.spec_keys() == Seq::<Seq<u8>>::empty() && m.spec_cache_time() is None
                && m.spec_cache_ttl() == DEFAULT_CACHE_TTL,
        }
    }

    /// The text that describes this filter in logs.
    pub open spec fn spec_description(&self) -> Seq<char> {
        match self {
            Filter::Fingerprint(m) => "fingerprint:"@ + m.spec_pattern(),
            Filter::Pubkey(_) => "pubkey:<key>"@,
            Filter::Keyfile(m) => "keyfile:"@ + m.spec_path(),
            Filter::Comment(m) => "comment:"@ + m.spec_pattern(),
            Filter::KeyType(m) => "type:"@ + m.spec_key_type(),
            Filter::GitHub(m) => "github:"@ + m.spec_username(),
        }
    }

    /// Whether this filter matches the identity.
    pub fn matches(&self, identity: &Identity) -> (b: bool)
        ensures
            b == self.spec_matches(identity@),
    {
        match self {
            Filter::Fingerprint(m) => m.matches(identity),
            Filter::Pubkey(m) => m.matches(identity),
            Filter::Keyfile(m) => m.matches(identity),
            Filter::Comment(m) => m.matches(identity),
            Filter::KeyType(m) => m.matches(identity),
            Filter::GitHub(m) => m.matches(identity),
        }
    }

    /// A description of this filter for logging.
    pub fn description(&self) -> (s: String)
        ensures
            s@ == self.spec_description(),
    {
        match self {
            Filter::Fingerprint(m) => crate::text::concat_str("fingerprint:", m.pattern()),
            Filter::Pubkey(_) => "pubkey:<key>".to_string(),
            Filter::Keyfile(m) => crate::text::concat_str("keyfile:", m.path()),
            Filter::Comment(m) => crate::text::concat_str("comment:", m.pattern()),
            Filter::KeyType(m) => crate::text::concat_str("type:", m.key_type()),
            Filter::GitHub(m) => crate::text::concat_str("github:", m.username()),
        }
    }
}

impl Clone for Filter {
    fn clone(&self) -> (r: Filter)
        ensures
            forall|id: SpecIdentity| r.spec_matches(id) == self.spec_matches(id),
            r.spec_description() == self.spec_description(),
    {
        match self {
            Filter::Fingerprint(m) => Filter::Fingerprint(m.clone()),
            Filter::Pubkey(m) => Filter::Pubkey(m.clone()),
            Filter::Keyfile(m) => Filter::Keyfile(m.clone()),
            Filter::Comment(m) => Filter::Comment(m.clone()),
            Filter::KeyType(m) => Filter::KeyType(m.clone()),
            Filter::GitHub(m) => Filter::GitHub(m.clone()),
        }
    }
}

/// A rule's negation prefix (`not-` or `-`) and the filter text after it.
pub open spec fn strip_negation(s: Seq<char>) -> (bool, Seq<char>) {
    if spec_starts_with(s, "not-"@) {
        (true, s.skip(4))
    } else if spec_starts_with(s, "-"@) {
        (true, s.skip(1))
    } else {
        (false, s)
    }
}

/// Text that reads as an OpenSSH public key.
pub open spec fn looks_like_pubkey(s: Seq<char>) -> bool {
    spec_starts_with(s, "ssh-"@) || spec_starts_with(s, "ecdsa-sha2-"@) || spec_starts_with(
        s,
        "sk-ssh-"@,
    ) || spec_starts_with(s, "sk-ecdsa-"@)
}

/// A filter recognized without a keyword: a bare fingerprint, or a bare
/// public key that decodes.
pub open spec fn auto_detect(s: Seq<char>) -> Option<(FilterKind, Seq<char>)> {
    if spec_starts_with(s, "SHA256:"@) || spec_starts_with(s, "MD5:"@) {
        Some((FilterKind::Fingerprint, s))
    } else if looks_like_pubkey(s) && pubkey_blob(s) is Some {
        Some((FilterKind::Pubkey, s))
    } else {
        None
    }
}

/// The argument after `keyword:` or `keyword=`.
pub open spec fn keyword_arg(s: Seq<char>, keyword: Seq<char>) -> Option<Seq<char>> {
    if spec_starts_with(s, keyword + ":"@) || spec_starts_with(s, keyword + "="@) {
        Some(s.skip(keyword.len() + 1int))
    } else {
        None
    }
}

/// A filter written with its keyword.
pub open spec fn explicit_filter(s: Seq<char>) -> Option<(FilterKind, Seq<char>)> {
    if let Some(a) = keyword_arg(s, "fingerprint"@) {
        Some((FilterKind::Fingerprint, a))
    } else if let Some(a) = keyword_arg(s, "pubkey"@) {
        Some((FilterKind::Pubkey, a))
    } else if let Some(a) = keyword_arg(s, "keyfile"@) {
        Some((FilterKind::Keyfile, a))
    } else if let Some(a) = keyword_arg(s, "comment"@) {
        Some((FilterKind::Comment, a))
    } else if let Some(a) = keyword_arg(s, "type"@) {
        Some((FilterKind::KeyType, a))
    } else if let Some(a) = keyword_arg(s, "github"@) {
        Some((FilterKind::GitHub, a))
    } else {
        None
    }
}

/// The argument of a filter of this kind is accepted.
pub open spec fn filter_arg_valid(kind: FilterKind, arg: Seq<char>) -> bool {
    match kind {
        FilterKind::Fingerprint => fingerprint_pattern_valid(arg),
        FilterKind::Pubkey => pubkey_blob(arg) is Some,
        FilterKind::Comment => comment_pattern_valid(arg),
        _ => true,
    }
}

/// The filter that a text (without negation prefix) describes: first a
/// bare fingerprint or public key, then `keyword:arg` / `keyword=arg`.
pub open spec fn spec_parse_filter(s: Seq<char>) -> Option<(FilterKind, Seq<char>)> {
    match auto_detect(s) {
        Some(x) => Some(x),
        None => match explicit_filter(s) {
            Some((k, a)) => if filter_arg_valid(k, a) {
                Some((k, a))
            } else {
                None
            },
            None => None,
        },
    }
}

/// Why a text (without negation prefix) is not a filter: its keyword's
/// argument is refused, or it is not written in any known form.
pub open spec fn spec_filter_error(s: Seq<char>) -> Seq<char> {
    match explicit_filter(s) {
        Some((FilterKind::Fingerprint, _)) => "Fingerprint must start with SHA256: or MD5:"@,
        Some((FilterKind::Pubkey, _)) => "Invalid public key"@,
        Some((FilterKind::Comment, a)) => comment_pattern_error(a),
        _ => "Unknown filter format: "@ + s,
    }
}

/// Why a text is not a filter rule: why what follows its negation prefix
/// is not a filter.
pub open spec fn spec_rule_error(s: Seq<char>) -> Seq<char> {
    spec_filter_error(strip_negation(s).1)
}

/// The rule a text describes: negation, filter kind and argument.
pub open spec fn spec_parse_rule(s: Seq<char>) -> Option<(bool, FilterKind, Seq<char>)> {
    let (neg, rest) = strip_negation(s);
    match spec_parse_filter(rest) {
        Some((k, a)) => Some((neg, k, a)),
        None => None,
    }
}

/// A filter rule with optional negation.
#[derive(Debug)]
pub struct FilterRule {
    /// The filter to apply.
    pub filter: Filter,
    /// Whether to negate the filter result.
    pub negated: bool,
}

impl FilterRule {
    /// Whether this rule accepts an identity.
    pub open spec fn spec_matches(&self, id: SpecIdentity) -> bool {
        self.filter.spec_matches(id) != self.negated
    }

    /// This rule is what parsing a text that `spec_parse_rule` reads as
    /// `(neg, kind, arg)` makes.
    pub open spec fn spec_built_from(&self, neg: bool, kind: FilterKind, arg: Seq<char>) -> bool {
        self.negated == neg && self.filter.spec_built_from(kind, arg)
    }

    /// The text that describes this rule in logs.
    pub open spec fn spec_description(&self) -> Seq<char> {
        if self.negated {
            "-"@ + self.filter.spec_description()
        } else {
            self.filter.spec_description()
        }
    }

    /// Creates a filter rule.
    pub fn new(filter: Filter, negated: bool) -> (r: FilterRule)
        ensures
            r.filter == filter,
            r.negated == negated,
    {
        FilterRule { filter, negated }
    }

    /// Whether this rule matches the identity: the filter's answer,
    /// inverted when the rule is negated.
    pub fn matches(&self, identity: &Identity) -> (b: bool)
        ensures
            b == self.spec_matches(identity@),
    {
        let result = self.filter.matches(identity);
        if self.negated {
            !result
        } else {
            result
        }
    }

    /// Parses a filter rule.
    ///
    /// A rule is an optional negation prefix (`not-` or `-`) followed by a
    /// filter: a bare fingerprint (`SHA256:...`, `MD5:...`), a bare public
    /// key (`ssh-...`, `ecdsa-sha2-...`, `sk-...`), or `keyword:arg` /
    /// `keyword=arg` with keyword `fingerprint`, `pubkey`, `keyfile`,
    /// `comment`, `type` or `github`.
    pub fn parse(s: &str) -> (r: Result<FilterRule, Error>)
        ensures
            r is Ok <==> spec_parse_rule(s@) is Some,
            match r {
                Ok(rule) => spec_parse_rule(s@) matches Some((neg, k, a)) && rule.spec_built_from(neg, k, a),
                Err(e) => e matches Error::Filter(m) && m@ == spec_rule_error(s@),
            },
    {
        let chars = crate::text::chars_of(s);
        let not_prefix = crate::text::chars_of("not-");
        let dash_prefix = crate::text::chars_of("-");
        proof {
            reveal_strlit("not-");
            reveal_strlit("-");
        }
        let (negated, rest) = if crate::text::starts_with(chars.as_slice(), not_prefix.as_slice()) {
            (true, crate::text::sub_chars(chars.as_slice(), 4, chars.len()))
        } else if crate::text::starts_with(chars.as_slice(), dash_prefix.as_slice()) {
            (true, crate::text::sub_chars(chars.as_slice(), 1, chars.len()))
        } else {
            (false, chars.clone())
        };
        assert((negated, rest@) == strip_negation(s@));
        let filter = Self::parse_filter(rest.as_slice())?;
        Ok(FilterRule { filter, negated })
    }

    /// Parses a filter (without negation prefix).
    fn parse_filter(s: &[char]) -> (r: Result<Filter, Error>)
        ensures
            r is Ok <==> spec_parse_filter(s@) is Some,
            match r {
                Ok(f) => spec_parse_filter(s@) matches Some((k, a)) && f.spec_built_from(k, a),
                Err(e) => e matches Error::Filter(m) && m@ == spec_filter_error(s@),
            },
    {
        if let Some(filter) = Self::try_auto_detect(s) {
            return Ok(filter);
        }
        let text = crate::text::string_of(s);
        if let Some(rest) = keyword_arg_exec(s, "fingerprint") {
            let arg = crate::text::string_of(rest.as_slice());
            let m = FingerprintMatcher::new(arg.as_str())?;
            return Ok(Filter::Fingerprint(m));
        }
        if let Some(rest) = keyword_arg_exec(s, "pubkey") {
            let arg = crate::text::string_of(rest.as_slice());
            let m = PubkeyMatcher::new(arg.as_str())?;
            return Ok(Filter::Pubkey(m));
        }
        if let Some(rest) = keyword_arg_exec(s, "keyfile") {
            let arg = crate::text::string_of(rest.as_slice());
            return Ok(Filter::Keyfile(KeyfileMatcher::new(arg.as_str())));
        }
        if let Some(rest) = keyword_arg_exec(s, "comment") {
            let arg = crate::text::string_of(rest.as_slice());
            let m = CommentMatcher::new(arg.as_str())?;
            return Ok(Filter::Comment(m));
        }
        if let Some(rest) = keyword_arg_exec(s, "type") {
            let arg = crate::text::string_of(rest.as_slice());
            return Ok(Filter::KeyType(KeyTypeMatcher::new(arg.as_str())));
        }
        if let Some(rest) = keyword_arg_exec(s, "github") {
            let arg = crate::text::string_of(rest.as_slice());
            return Ok(Filter::GitHub(GitHubKeysMatcher::new(arg.as_str())));
        }
        let msg = crate::text::concat_str("Unknown filter format: ", text.as_str());
        Err(Error::Filter(msg))
    }

    /// Recognizes a bare fingerprint or public key.
    fn try_auto_detect(s: &[char]) -> (r: Option<Filter>)
        ensures
            r is Some <==> auto_detect(s@) is Some,
            r matches Some(f) ==> auto_detect(s@) matches Some((k, a)) && f.spec_built_from(k, a),
    {
        let text = crate::text::string_of(s);
        if crate::text::starts_with(s, crate::text::chars_of("SHA256:").as_slice())
            || crate::text::starts_with(s, crate::text::chars_of("MD5:").as_slice()) {
            return match FingerprintMatcher::new(text.as_str()) {
                Ok(m) => Some(Filter::Fingerprint(m)),
                Err(_) => None,
            };
        }
        if crate::text::starts_with(s, crate::text::chars_of("ssh-").as_slice())
            || crate::text::starts_with(s, crate::text::chars_of("ecdsa-sha2-").as_slice())
            || crate::text::starts_with(s, crate::text::chars_of("sk-ssh-").as_slice())
            || crate::text::starts_with(s, crate::text::chars_of("sk-ecdsa-").as_slice()) {
            return match PubkeyMatcher::new(text.as_str()) {
                Ok(m) => Some(Filter::Pubkey(m)),
                Err(_) => None,
            };
        }
        None
    }

    /// A description of this rule for logging; negated rules start with `-`.
    pub fn description(&self) -> (s: String)
        ensures
            s@ == self.spec_description(),
    {
        let d = self.filter.description();
        if self.negated {
            crate::text::concat_str("-", d.as_str())
        } else {
            d
        }
    }
}

impl Clone for FilterRule {
    fn clone(&self) -> (r: FilterRule)
        ensures
            forall|id: SpecIdentity| r.spec_matches(id) == self.spec_matches(id),
            r.spec_description() == self.spec_description(),
    {
        FilterRule { filter: self.filter.clone(), negated: self.negated }
    }
}

/// The argument after `keyword:` or `keyword=` at the start of `s`.
fn keyword_arg_exec(s: &[char], keyword: &str) -> (r: Option<Vec<char>>)
    ensures
        match r {
            Some(a) => keyword_arg(s@, keyword@) == Some(a@),
            None => keyword_arg(s@, keyword@) is None,
        },
{
    let with_colon = crate::text::concat_str(keyword, ":");
    let with_eq = crate::text::concat_str(keyword, "=");
    let colon = crate::text::chars_of(with_colon.as_str());
    let eq = crate::text::chars_of(with_eq.as_str());
    proof {
        reveal_strlit(":");
        reveal_strlit("=");
    }
    if crate::text::starts_with(s, colon.as_slice()) || crate::text::starts_with(s, eq.as_slice()) {
        let r = crate::text::sub_chars(s, colon.len(), s.len());
        assert(r@ =~= s@.skip(keyword@.len() + 1int));
        Some(r)
    } else {
        None
    }
}

} // verus!
