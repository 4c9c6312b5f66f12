//! Key fingerprints and key type names of identities.

use vstd::prelude::*;
use sha2::Digest;
use base64::Engine;
use crate::protocol::base64_text::base64_unpadded;
use crate::protocol::message::{Identity, SpecIdentity};
use crate::protocol::wire::parse_ssh_string;

verus! {

/// The SHA-256 digest of some bytes.
pub uninterp spec fn spec_sha256(data: Seq<u8>) -> Seq<u8>;

/// The MD5 digest of some bytes.
pub uninterp spec fn spec_md5(data: Seq<u8>) -> Seq<u8>;

/// `sha2::Sha256::digest`: the result is the SHA-256 digest of `data`,
/// which is 32 bytes long.
#[verifier::external_body]
pub(crate) fn sha256_digest(data: &[u8]) -> (r: Vec<u8>)
    ensures
        r@ == spec_sha256(data@),
        r@.len() == 32,
{
    sha2::Sha256::digest(data).to_vec()
}

/// `md5::Md5::digest`: the result is the MD5 digest of `data`, which is
/// 16 bytes long.
#[verifier::external_body]
pub(crate) fn md5_digest(data: &[u8]) -> (r: Vec<u8>)
    ensures
        r@ == spec_md5(data@),
        r@.len() == 16,
{
    md5::Md5::digest(data).to_vec()
}

/// `base64::engine::general_purpose::STANDARD_NO_PAD.encode`: the result is
/// the unpadded standard Base64 text of `data` ([`base64_unpadded`]). The
/// encoder panics when the output length overflows `usize`, which the bound
/// on `data` rules out.
#[verifier::external_body]
pub(crate) fn base64_encode_unpadded(data: &[u8]) -> (r: String)
    requires
        data@.len() <= 1048576,
    ensures
        r@ == base64_unpadded(data@),
{
    base64::engine::general_purpose::STANDARD_NO_PAD.encode(data)
}

/// The lower-case hexadecimal digit of a value below 16.
pub open spec fn hex_digit(v: int) -> char {
    if v < 10 {
        (('0' as int) + v) as char
    } else {
        (('a' as int) + v - 10) as char
    }
}

/// Hexadecimal byte pairs separated by colons, such as `ab:01:ff`.
pub open spec fn colon_hex(b: Seq<u8>) -> Seq<char>
    decreases b.len(),
{
    if b.len() == 0 {
        Seq::empty()
    } else {
        let pair = seq![hex_digit((b.last() / 16) as int), hex_digit((b.last() % 16) as int)];
        if b.len() == 1 {
            pair
        } else {
            colon_hex(b.drop_last()) + seq![':'] + pair
        }
    }
}

/// The SHA-256 fingerprint of a key blob, as `ssh-keygen -l` prints it.
pub open spec fn spec_sha256_fingerprint(blob: Seq<u8>) -> Seq<char> {
    "SHA256:"@ + base64_unpadded(spec_sha256(blob))
}

/// The MD5 fingerprint of a key blob, as `ssh-keygen -l -E md5` prints it.
pub open spec fn spec_md5_fingerprint(blob: Seq<u8>) -> Seq<char> {
    "MD5:"@ + colon_hex(spec_md5(blob))
}

/// The key type name that a key blob starts with, when it has one.
pub open spec fn spec_key_type_name(blob: Seq<u8>) -> Option<Seq<u8>> {
    match parse_ssh_string(blob) {
        Some((name, _)) => Some(name),
        None => None,
    }
}

fn hex_char(v: u8) -> (c: char)
    requires
        v < 16,
    ensures
        c == hex_digit(v as int),
{
    if v < 10 {
        (48 + v) as char
    } else {
        (97 + v - 10) as char
    }
}

/// Colon-separated hexadecimal pairs of some bytes.
pub fn colon_hex_string(b: &[u8]) -> (s: String)
    ensures
        s@ == colon_hex(b@),
{
    let mut s = String::new();
    let mut i: usize = 0;
    while i < b.len()
        invariant
            i <= b@.len(),
            s@ == colon_hex(b@.take(i as int)),
        decreases b@.len() - i,
    {
        if i > 0 {
            crate::text::string_push(&mut s, ':');
        }
        crate::text::string_push(&mut s, hex_char(b[i] / 16));
        crate::text::string_push(&mut s, hex_char(b[i] % 16));
        assert(b@.take(i + 1).drop_last() =~= b@.take(i as int));
        assert(b@.take(i + 1).last() == b@[i as int]);
        proof {
            if i == 0 {
                assert(s@ =~= colon_hex(b@.take(i + 1)));
            } else {
                assert(s@ =~= colon_hex(b@.take(i + 1)));
            }
        }
        i = i + 1;
    }
    assert(b@.take(b@.len() as int) =~= b@);
    s
}

/// The SHA-256 fingerprint of a key blob.
pub fn sha256_fingerprint(blob: &[u8]) -> (s: String)
    ensures
        s@ == spec_sha256_fingerprint(blob@),
{
    let digest = sha256_digest(blob);
    let encoded = base64_encode_unpadded(digest.as_slice());
    let mut s = "SHA256:".to_string();
    s.append(encoded.as_str());
    s
}

/// The MD5 fingerprint of a key blob.
pub fn md5_fingerprint(blob: &[u8]) -> (s: String)
    ensures
        s@ == spec_md5_fingerprint(blob@),
{
    let digest = md5_digest(blob);
    let hex = colon_hex_string(digest.as_slice());
    let mut s = "MD5:".to_string();
    s.append(hex.as_str());
    s
}

/// An identity's SHA-256 fingerprint, when its key blob names a key type.
pub open spec fn spec_identity_fingerprint(id: SpecIdentity) -> Option<Seq<char>> {
    if spec_key_type_name(id.0) is Some {
        Some(spec_sha256_fingerprint(id.0))
    } else {
        None
    }
}

impl Identity {
    /// The SHA-256 fingerprint (`SHA256:...`) of this key; `None` when the
    /// key blob does not start with a key type name.
    pub fn fingerprint(&self) -> (r: Option<String>)
        ensures
            r matches Some(s) ==> spec_identity_fingerprint(self@) == Some(s@),
            r is None ==> spec_identity_fingerprint(self@) is None,
    {
        let blob = self.key_blob.as_slice();
        assert(blob@.skip(0) =~= blob@);
        match crate::protocol::wire::locate_ssh_string(blob, 0) {
            Some(_) => Some(sha256_fingerprint(blob)),
            None => None,
        }
    }

    /// The key type name (such as `ssh-ed25519`) that the key blob starts
    /// with; `None` when the blob has none or it is not UTF-8.
    pub fn key_type(&self) -> (r: Option<String>)
        ensures
            r matches Some(s) ==> spec_key_type_name(self.key_blob@) matches Some(name)
                && vstd::utf8::valid_utf8(name) && s@ == vstd::utf8::decode_utf8(name),
            r is None ==> !(spec_key_type_name(self.key_blob@) matches Some(name)
                && vstd::utf8::valid_utf8(name)),
    {
        let blob = self.key_blob.as_slice();
        assert(blob@.skip(0) =~= blob@);
        match crate::protocol::wire::locate_ssh_string(blob, 0) {
            Some((start, end)) => crate::text::string_from_utf8(
                crate::protocol::wire::copy_range(blob, start, end),
            ),
            None => None,
        }
    }
}

} // verus!
