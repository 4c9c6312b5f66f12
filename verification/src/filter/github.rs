//! Matching keys that a GitHub user publishes at
//! `https://github.com/USER.keys`.
//!
//! The download is made by the caller, which hands the response text to
//! [`GitHubKeysMatcher::load_keys`] together with the time it was fetched.

use vstd::prelude::*;
use crate::filter::pubkey::{blob_in, key_text_blobs};
use crate::protocol::message::Identity;

verus! {

/// How long fetched keys stay valid by default: one hour, in seconds.
pub const DEFAULT_CACHE_TTL: u64 = 3600;

/// How long a fetch may take by default, in seconds.
pub const DEFAULT_TIMEOUT: u64 = 10;

/// Cached keys fetched at `fetched` are still valid at `now` when less
/// than `ttl` seconds have passed (time never runs backwards, so a clock
/// reading before the fetch counts as no time passed).
pub open spec fn cache_fresh(fetched: Option<u64>, ttl: u64, now: u64) -> bool {
    match fetched {
        Some(t) => if now >= t {
            now - t < ttl
        } else {
            0 < ttl
        },
        None => false,
    }
}

/// Matcher for the public keys of a GitHub user.
#[derive(Debug)]
pub struct GitHubKeysMatcher {
    username: String,
    keys: Vec<Vec<u8>>,
    cache_time: Option<u64>,
    cache_ttl: u64,
}

impl GitHubKeysMatcher {
    /// The GitHub user name.
    pub closed spec fn spec_username(&self) -> Seq<char> {
        self.username@
    }

    /// The cached key blobs.
    pub closed spec fn spec_keys(&self) -> Seq<Seq<u8>> {
        self.keys@.map_values(|k: Vec<u8>| k@)
    }

    /// When the keys were fetched, in seconds, if they were.
    pub closed spec fn spec_cache_time(&self) -> Option<u64> {
        self.cache_time
    }

    /// How long fetched keys stay valid, in seconds.
    pub closed spec fn spec_cache_ttl(&self) -> u64 {
        self.cache_ttl
    }

    /// Creates a matcher for a GitHub user, with no keys fetched yet and the
    /// default cache lifetime of one hour.
    pub fn new(username: &str) -> (m: GitHubKeysMatcher)
        ensures
            m.spec_username() == username@,
            m.spec_keys() == Seq::<Seq<u8>>::empty(),
            m.spec_cache_time() is None,
            m.spec_cache_ttl() == DEFAULT_CACHE_TTL,
    {
        Self::with_cache_ttl(username, DEFAULT_CACHE_TTL)
    }

    /// Creates a matcher with a cache lifetime of `cache_ttl` seconds.
    pub fn with_cache_ttl(username: &str, cache_ttl: u64) -> (m: GitHubKeysMatcher)
        ensures
            m.spec_username() == username@,
            m.spec_keys() == Seq::<Seq<u8>>::empty(),
            m.spec_cache_time() is None,
            m.spec_cache_ttl() == cache_ttl,
    {
        let m = GitHubKeysMatcher {
            username: username.to_string(),
            keys: Vec::new(),
            cache_time: None,
            cache_ttl,
        };
        assert(m.spec_keys() =~= Seq::<Seq<u8>>::empty());
        m
    }

    /// The GitHub user name.
    pub fn username(&self) -> (s: &str)
        ensures
            s@ == self.spec_username(),
    {
        self.username.as_str()
    }

    /// How long fetched keys stay valid, in seconds.
    pub fn cache_ttl(&self) -> (t: u64)
        ensures
            t == self.spec_cache_ttl(),
    {
        self.cache_ttl
    }

    /// The address the user's keys are fetched from.
    pub fn keys_url(&self) -> (s: String)
        ensures
            s@ == "https://github.com/"@ + self.spec_username() + ".keys"@,
    {
        let s = crate::text::concat_str("https://github.com/", self.username.as_str());
        crate::text::concat_str(s.as_str(), ".keys")
    }

    /// Whether the cached keys are still valid at time `now` (seconds).
    pub fn is_cache_valid(&self, now: u64) -> (b: bool)
        ensures
            b == cache_fresh(self.spec_cache_time(), self.spec_cache_ttl(), now),
    {
        match self.cache_time {
            Some(t) => if now >= t {
                now - t < self.cache_ttl
            } else {
                0 < self.cache_ttl
            },
            None => false,
        }
    }

    /// Replaces the cached keys with those listed in a fetched response
    /// (one public key per line; blank lines and lines that are not keys
    /// are skipped) and records the fetch time `now`.
    pub fn load_keys(&mut self, text: &str, now: u64)
        ensures
            final(self).spec_username() == old(self).spec_username(),
            final(self).spec_cache_ttl() == old(self).spec_cache_ttl(),
            final(self).spec_keys() == key_text_blobs(text@, false),
            final(self).spec_cache_time() == Some(now),
    {
        let keys = crate::filter::pubkey::parse_key_lines(text, false);
        self.keys = keys;
        self.cache_time = Some(now);
        assert(self.spec_keys() =~= key_text_blobs(text@, false));
    }

    /// The number of cached keys.
    pub fn key_count(&self) -> (n: usize)
        ensures
            n == self.spec_keys().len(),
    {
        self.keys.len()
    }

    /// Whether the identity's key is one of the user's cached keys.
    pub fn matches(&self, identity: &Identity) -> (b: bool)
        ensures
            b == blob_in(self.spec_keys(), identity.key_blob@),
    {
        let r = crate::filter::pubkey::blob_listed(&self.keys, identity.key_blob.as_slice());
        proof {
            if r {
                let i = choose|i: int| 0 <= i < self.keys@.len() && #[trigger] self.keys@[i]@
                    == identity.key_blob@;
                assert(self.spec_keys()[i] == identity.key_blob@);
            } else {
                assert forall|i: int| 0 <= i < self.spec_keys().len() implies self.spec_keys()[i]
                    != identity.key_blob@ by {
                    assert(self.spec_keys()[i] == self.keys@[i]@);
                }
            }
        }
        r
    }
}

impl Clone for GitHubKeysMatcher {
    fn clone(&self) -> (r: GitHubKeysMatcher)
        ensures
            r.spec_username() == self.spec_username(),
            r.spec_keys() == self.spec_keys(),
            r.spec_cache_time() == self.spec_cache_time(),
            r.spec_cache_ttl() == self.spec_cache_ttl(),
    {
        let mut keys: Vec<Vec<u8>> = Vec::new();
        let mut i: usize = 0;
        while i < self.keys.len()
            invariant
                i <= self.keys@.len(),
                keys@.len() == i,
                forall|j: int| 0 <= j < i ==> #[trigger] keys@[j]@ == self.keys@[j]@,
            decreases self.keys@.len() - i,
        {
            keys.push(self.keys[i].clone());
            i = i + 1;
        }
        let r = GitHubKeysMatcher {
            username: self.username.clone(),
            keys,
            cache_time: self.cache_time,
            cache_ttl: self.cache_ttl,
        };
        assert(r.spec_keys() =~= self.spec_keys());
        r
    }
}


/// Fetched keys stay valid for `ttl` seconds: from the fetch time on, the
/// cache is valid exactly while less than `ttl` seconds have passed; keys
/// never fetched are never valid.
pub proof fn lemma_cache_valid_within_ttl(fetched: u64, ttl: u64, now: u64)
    ensures
        fetched <= now ==> (cache_fresh(Some(fetched), ttl, now) <==> now - fetched < ttl),
        !cache_fresh(None, ttl, now),
{
}

} // verus!
