//! Matching keys by fingerprint (`SHA256:...` or `MD5:xx:xx:...`).

use vstd::prelude::*;
use crate::error::Error;
use crate::protocol::fingerprint::{spec_key_type_name, spec_md5_fingerprint, spec_sha256_fingerprint};
use crate::protocol::message::Identity;
use crate::text::spec_starts_with;

verus! {

/// A fingerprint pattern names its hash: `SHA256:` or `MD5:`.
pub open spec fn fingerprint_pattern_valid(p: Seq<char>) -> bool {
    spec_starts_with(p, "SHA256:"@) || spec_starts_with(p, "MD5:"@)
}

/// A fingerprint pattern matches a key blob: the blob names a key type and
/// its fingerprint, in the pattern's hash, equals the pattern.
pub open spec fn fingerprint_matches(p: Seq<char>, blob: Seq<u8>) -> bool {
    &&& spec_key_type_name(blob) is Some
    &&& if spec_starts_with(p, "SHA256:"@) {
        p == spec_sha256_fingerprint(blob)
    } else {
        p == spec_md5_fingerprint(blob)
    }
}

/// Matcher for a key fingerprint.
#[derive(Debug)]
pub struct FingerprintMatcher {
    pattern: String,
}

impl FingerprintMatcher {
    /// The fingerprint this matcher accepts.
    pub closed spec fn spec_pattern(&self) -> Seq<char> {
        self.pattern@
    }

    /// Creates a matcher for a fingerprint in `SHA256:...` or `MD5:...` form.
    pub fn new(pattern: &str) -> (r: Result<FingerprintMatcher, Error>)
        ensures
            r is Ok <==> fingerprint_pattern_valid(pattern@),
            match r {
                Ok(m) => m.spec_pattern() == pattern@,
                Err(e) => e matches Error::Filter(msg) && msg@ == "Fingerprint must start with SHA256: or MD5:"@,
            },
    {
        if crate::text::str_starts_with(pattern, "SHA256:") || crate::text::str_starts_with(
            pattern,
            "MD5:",
        ) {
            Ok(FingerprintMatcher { pattern: pattern.to_string() })
        } else {
            Err(Error::Filter("Fingerprint must start with SHA256: or MD5:".to_string()))
        }
    }

    /// The fingerprint being matched.
    pub fn pattern(&self) -> (s: &str)
        ensures
            s@ == self.spec_pattern(),
    {
        self.pattern.as_str()
    }

    /// Whether the identity's key has this fingerprint.
    pub fn matches(&self, identity: &Identity) -> (b: bool)
        ensures
            b == fingerprint_matches(self.spec_pattern(), identity.key_blob@),
    {
        let blob = identity.key_blob.as_slice();
        assert(blob@.skip(0) =~= blob@);
        if crate::protocol::wire::locate_ssh_string(blob, 0).is_none() {
            return false;
        }
        let fp = if crate::text::str_starts_with(self.pattern.as_str(), "SHA256:") {
            crate::protocol::fingerprint::sha256_fingerprint(blob)
        } else {
            crate::protocol::fingerprint::md5_fingerprint(blob)
        };
        fp == self.pattern
    }
}

impl Clone for FingerprintMatcher {
    fn clone(&self) -> (r: FingerprintMatcher)
        ensures
            r.spec_pattern() == self.spec_pattern(),
    {
        FingerprintMatcher { pattern: self.pattern.clone() }
    }
}

} // verus!
