//! Matching keys by key type.

use vstd::prelude::*;
use vstd::utf8::{decode_utf8, valid_utf8};
use crate::protocol::fingerprint::spec_key_type_name;
use crate::protocol::message::Identity;
use crate::text::spec_starts_with;

verus! {

/// The short name of a key type: `ssh-ed25519` is `ed25519`, `ssh-rsa` is
/// `rsa`, `ssh-dss` is `dsa`, `ecdsa-sha2-*` is `ecdsa`, the security-key
/// types are `ed25519-sk` and `ecdsa-sk`; other names stay as they are.
pub open spec fn short_key_type(t: Seq<char>) -> Seq<char> {
    if t == "ssh-ed25519"@ {
        "ed25519"@
    } else if t == "ssh-rsa"@ {
        "rsa"@
    } else if t == "ssh-dss"@ {
        "dsa"@
    } else if spec_starts_with(t, "ecdsa-sha2-"@) {
        "ecdsa"@
    } else if t == "sk-ssh-ed25519@openssh.com"@ {
        "ed25519-sk"@
    } else if spec_starts_with(t, "sk-ecdsa-sha2-"@) {
        "ecdsa-sk"@
    } else {
        t
    }
}

/// A key type pattern matches a key blob: the blob names a key type and
/// the pattern is that name or its short name.
pub open spec fn key_type_matches(p: Seq<char>, blob: Seq<u8>) -> bool {
    match spec_key_type_name(blob) {
        Some(name) => valid_utf8(name) && (p == decode_utf8(name) || p == short_key_type(
            decode_utf8(name),
        )),
        None => false,
    }
}

/// The short name of a key type.
pub fn short_key_type_of(t: &str) -> (r: String)
    ensures
        r@ == short_key_type(t@),
{
    let v = crate::text::chars_of(t);
    let s = v.as_slice();
    if crate::text::eq_chars(s, crate::text::chars_of("ssh-ed25519").as_slice()) {
        "ed25519".to_string()
    } else if crate::text::eq_chars(s, crate::text::chars_of("ssh-rsa").as_slice()) {
        "rsa".to_string()
    } else if crate::text::eq_chars(s, crate::text::chars_of("ssh-dss").as_slice()) {
        "dsa".to_string()
    } else if crate::text::starts_with(s, crate::text::chars_of("ecdsa-sha2-").as_slice()) {
        "ecdsa".to_string()
    } else if crate::text::eq_chars(
        s,
        crate::text::chars_of("sk-ssh-ed25519@openssh.com").as_slice(),
    ) {
        "ed25519-sk".to_string()
    } else if crate::text::starts_with(s, crate::text::chars_of("sk-ecdsa-sha2-").as_slice()) {
        "ecdsa-sk".to_string()
    } else {
        t.to_string()
    }
}

/// Matcher for a key type.
#[derive(Debug)]
pub struct KeyTypeMatcher {
    key_type: String,
}

impl KeyTypeMatcher {
    /// The key type this matcher accepts.
    pub closed spec fn spec_key_type(&self) -> Seq<char> {
        self.key_type@
    }

    /// Creates a matcher for a key type, by full (`ssh-ed25519`) or short
    /// (`ed25519`, `rsa`, `ecdsa`, `dsa`) name.
    pub fn new(key_type: &str) -> (m: KeyTypeMatcher)
        ensures
            m.spec_key_type() == key_type@,
    {
        KeyTypeMatcher { key_type: key_type.to_string() }
    }

    /// The key type being matched.
    pub fn key_type(&self) -> (s: &str)
        ensures
            s@ == self.spec_key_type(),
    {
        self.key_type.as_str()
    }

    /// Whether the identity's key is of this type.
    pub fn matches(&self, identity: &Identity) -> (b: bool)
        ensures
            b == key_type_matches(self.spec_key_type(), identity.key_blob@),
    {
        match identity.key_type() {
            Some(t) => {
                if t == self.key_type {
                    true
                } else {
                    short_key_type_of(t.as_str()) == self.key_type
                }
            },
            None => false,
        }
    }
}

impl Clone for KeyTypeMatcher {
    fn clone(&self) -> (r: KeyTypeMatcher)
        ensures
            r.spec_key_type() == self.spec_key_type(),
    {
        KeyTypeMatcher { key_type: self.key_type.clone() }
    }
}

/// Short key type names: `ssh-ed25519` is `ed25519`, `ssh-rsa` is `rsa`,
/// `ssh-dss` is `dsa`, every `ecdsa-sha2-*` curve is `ecdsa`, and the
/// security-key types are `ed25519-sk` and `ecdsa-sk`; any other name is
/// its own short name. So a `type=` pattern of a short name accepts every
/// key of that type.
pub proof fn lemma_short_key_type_names(t: Seq<char>, blob: Seq<u8>)
    ensures
        short_key_type("ssh-ed25519"@) == "ed25519"@,
        short_key_type("ssh-rsa"@) == "rsa"@,
        short_key_type("ssh-dss"@) == "dsa"@,
        spec_starts_with(t, "ecdsa-sha2-"@) ==> short_key_type(t) == "ecdsa"@,
        short_key_type("sk-ssh-ed25519@openssh.com"@) == "ed25519-sk"@,
        spec_starts_with(t, "sk-ecdsa-sha2-"@) ==> short_key_type(t) == "ecdsa-sk"@,
        !(t == "ssh-ed25519"@ || t == "ssh-rsa"@ || t == "ssh-dss"@ || t == "sk-ssh-ed25519@openssh.com"@
            || spec_starts_with(t, "ecdsa-sha2-"@) || spec_starts_with(t, "sk-ecdsa-sha2-"@)) ==> short_key_type(t) == t,
        match spec_key_type_name(blob) {
            Some(name) => valid_utf8(name) ==> {
                let n = decode_utf8(name);
                &&& (n == "ssh-ed25519"@ ==> key_type_matches("ed25519"@, blob))
                &&& (n == "ssh-rsa"@ ==> key_type_matches("rsa"@, blob))
                &&& (n == "ssh-dss"@ ==> key_type_matches("dsa"@, blob))
                &&& (spec_starts_with(n, "ecdsa-sha2-"@) ==> key_type_matches("ecdsa"@, blob))
                &&& key_type_matches(n, blob)
            },
            None => true,
        },
{
    reveal_strlit("ssh-ed25519");
    reveal_strlit("ssh-rsa");
    reveal_strlit("ssh-dss");
    reveal_strlit("ecdsa-sha2-");
    reveal_strlit("ed25519");
    reveal_strlit("rsa");
    reveal_strlit("dsa");
    reveal_strlit("ecdsa");
    reveal_strlit("sk-ssh-ed25519@openssh.com");
    reveal_strlit("sk-ecdsa-sha2-");
    reveal_strlit("ed25519-sk");
    reveal_strlit("ecdsa-sk");
    assert("sk-ssh-ed25519@openssh.com"@[0] == 's' && "sk-ssh-ed25519@openssh.com"@[1] == 'k');
    assert("sk-ssh-ed25519@openssh.com"@.len() != "ssh-ed25519"@.len());
    assert("sk-ssh-ed25519@openssh.com"@.len() != "ssh-rsa"@.len());
    assert("sk-ssh-ed25519@openssh.com"@.len() != "ssh-dss"@.len());
    assert(!spec_starts_with("sk-ssh-ed25519@openssh.com"@, "ecdsa-sha2-"@)) by {
        assert("sk-ssh-ed25519@openssh.com"@.take(11)[0] == 's');
    }
    assert("ssh-rsa"@.len() != "ssh-ed25519"@.len());
    assert("ssh-dss"@.len() != "ssh-ed25519"@.len());
    assert("ssh-dss"@[4] != "ssh-rsa"@[4]);
    assert forall|u: Seq<char>| spec_starts_with(u, "sk-ecdsa-sha2-"@) implies u != "ssh-ed25519"@ && u != "ssh-rsa"@
        && u != "ssh-dss"@ && u != "sk-ssh-ed25519@openssh.com"@ && !spec_starts_with(u, "ecdsa-sha2-"@) by {
        assert(u.take(14) == "sk-ecdsa-sha2-"@);
        assert(u.take(14)[0] == u[0] && u.take(14)[1] == u[1] && u.take(14)[3] == u[3]);
        assert(u[0] == 's' && u[1] == 'k' && u[3] == 'e');
        assert("sk-ssh-ed25519@openssh.com"@[3] == 's');
        if spec_starts_with(u, "ecdsa-sha2-"@) {
            assert(u.take(11)[0] == u[0]);
        }
    }
    assert forall|u: Seq<char>| spec_starts_with(u, "ecdsa-sha2-"@) implies u != "ssh-ed25519"@ && u != "ssh-rsa"@
        && u != "ssh-dss"@ && u != "sk-ssh-ed25519@openssh.com"@ by {
        assert(u[0] == "ecdsa-sha2-"@[0]);
        assert(u.take(11)[0] == u[0]);
        assert("ssh-ed25519"@[0] == 's' && "ssh-rsa"@[0] == 's' && "ssh-dss"@[0] == 's');
    }
}

} // verus!
