//! Matching keys listed in a file in `authorized_keys` form.

use vstd::prelude::*;
use crate::filter::pubkey::{blob_in, key_text_blobs};
use crate::protocol::message::Identity;

verus! {

/// Matcher for the keys listed in a key file. The file is read by the
/// caller, which hands its text to [`KeyfileMatcher::load`].
#[derive(Debug)]
pub struct KeyfileMatcher {
    path: String,
    keys: Vec<Vec<u8>>,
}

impl KeyfileMatcher {
    /// The path of the key file.
    pub closed spec fn spec_path(&self) -> Seq<char> {
        self.path@
    }

    /// The key blobs loaded from the file.
    pub closed spec fn spec_keys(&self) -> Seq<Seq<u8>> {
        self.keys@.map_values(|k: Vec<u8>| k@)
    }

    /// Creates a matcher for the key file at `path`, with no keys loaded yet.
    pub fn new(path: &str) -> (m: KeyfileMatcher)
        ensures
            m.spec_path() == path@,
            m.spec_keys() == Seq::<Seq<u8>>::empty(),
    {
        let m = KeyfileMatcher { path: path.to_string(), keys: Vec::new() };
        assert(m.spec_keys() =~= Seq::<Seq<u8>>::empty());
        m
    }

    /// The path of the key file.
    pub fn path(&self) -> (s: &str)
        ensures
            s@ == self.spec_path(),
    {
        self.path.as_str()
    }

    /// Replaces the loaded keys with those the file text lists, one per
    /// line; blank lines, `#` comments and lines that are not keys are
    /// skipped.
    pub fn load(&mut self, contents: &str)
        ensures
            final(self).spec_path() == old(self).spec_path(),
            final(self).spec_keys() == key_text_blobs(contents@, true),
    {
        let keys = crate::filter::pubkey::parse_key_lines(contents, true);
        self.keys = keys;
        assert(self.spec_keys() =~= key_text_blobs(contents@, true));
    }

    /// Whether the identity's key is listed in the file.
    pub fn matches(&self, identity: &Identity) -> (b: bool)
        ensures
            b == blob_in(self.spec_keys(), identity.key_blob@),
    {
        let r = crate::filter::pubkey::blob_listed(&self.keys, identity.key_blob.as_slice());
        proof {
            if r {
                let i = choose|i: int| 0 <= i < self.keys@.len() && #[trigger] self.keys@[i]@
                    == identity.key_blob@;
                assert(self.spec_keys()[i] == identity.key_blob@);
            } else {
                assert forall|i: int| 0 <= i < self.spec_keys().len() implies self.spec_keys()[i]
                    != identity.key_blob@ by {
                    assert(self.spec_keys()[i] == self.keys@[i]@);
                }
            }
        }
        r
    }
}

impl Clone for KeyfileMatcher {
    fn clone(&self) -> (r: KeyfileMatcher)
        ensures
            r.spec_path() == self.spec_path(),
            r.spec_keys() == self.spec_keys(),
    {
        let mut keys: Vec<Vec<u8>> = Vec::new();
        let mut i: usize = 0;
        while i < self.keys.len()
            invariant
                i <= self.keys@.len(),
                keys@.len() == i,
                forall|j: int| 0 <= j < i ==> #[trigger] keys@[j]@ == self.keys@[j]@,
            decreases self.keys@.len() - i,
        {
            keys.push(self.keys[i].clone());
            i = i + 1;
        }
        let r = KeyfileMatcher { path: self.path.clone(), keys };
        assert(r.spec_keys() =~= self.spec_keys());
        r
    }
}

} // verus!
