//! Matching keys by their public key, and reading lists of public keys in
//! `authorized_keys` form.

use vstd::prelude::*;
use base64::Engine;
use crate::error::Error;
use crate::protocol::base64_text::base64_padded;
use crate::protocol::message::{Identity, SpecIdentity};
use crate::text::{lemma_split_char_concat, split_char, trim, ws_tokens};

verus! {

/// The bytes that standard (padded) Base64 text decodes to, or `None`
/// when it is not valid Base64.
pub uninterp spec fn spec_base64_decode(text: Seq<char>) -> Option<Seq<u8>>;

/// `base64::engine::general_purpose::STANDARD.decode(text)`: the decoded
/// bytes, or `None` when the text is not valid padded Base64. The engine
/// requires canonical padding and no stray bits in the last character, so
/// it decodes exactly the texts that padded encoding ([`base64_padded`])
/// produces, each to the bytes it encodes.
#[verifier::external_body]
fn base64_decode(text: &str) -> (r: Option<Vec<u8>>)
    ensures
        match r {
            Some(v) => spec_base64_decode(text@) == Some(v@) && base64_padded(v@) == text@,
            None => spec_base64_decode(text@) is None && forall|b: Seq<u8>| #[trigger] base64_padded(b) != text@,
        },
{
    base64::engine::general_purpose::STANDARD.decode(text).ok()
}

/// The key blob of a public key line `TYPE BASE64 [COMMENT]`: the Base64
/// word decoded; `None` when there is no second word or it is not Base64.
pub open spec fn pubkey_blob(line: Seq<char>) -> Option<Seq<u8>> {
    let toks = ws_tokens(line);
    if toks.len() < 2 {
        None
    } else {
        spec_base64_decode(toks[1])
    }
}

/// The key blob a line of a key list contributes: none for a blank line,
/// for a `#` comment line when comments are skipped, or for a line that is
/// not a public key.
pub open spec fn key_line_blob(line: Seq<char>, skip_comments: bool) -> Option<Seq<u8>> {
    let t = trim(line);
    if t.len() == 0 || (skip_comments && t[0] == '#') {
        None
    } else {
        pubkey_blob(t)
    }
}

/// The key blobs of a list of lines, in order.
pub open spec fn collect_key_blobs(lines: Seq<Seq<char>>, skip_comments: bool) -> Seq<Seq<u8>>
    decreases lines.len(),
{
    if lines.len() == 0 {
        Seq::empty()
    } else {
        let prev = collect_key_blobs(lines.drop_last(), skip_comments);
        match key_line_blob(lines.last(), skip_comments) {
            Some(b) => prev.push(b),
            None => prev,
        }
    }
}

/// The key blobs of a text holding one public key per line.
pub open spec fn key_text_blobs(text: Seq<char>, skip_comments: bool) -> Seq<Seq<u8>> {
    collect_key_blobs(split_char(text, '\n'), skip_comments)
}

/// The key blobs of lines one after another are those of the first lines,
/// then those of the next: every key line counts, wherever it stands.
pub proof fn lemma_collect_key_blobs_concat(a: Seq<Seq<char>>, b: Seq<Seq<char>>, skip_comments: bool)
    ensures
        collect_key_blobs(a + b, skip_comments) == collect_key_blobs(a, skip_comments) + collect_key_blobs(
            b,
            skip_comments,
        ),
    decreases b.len(),
{
    if b.len() == 0 {
        assert(a + b =~= a);
        assert(collect_key_blobs(a, skip_comments) + Seq::<Seq<u8>>::empty() =~= collect_key_blobs(a, skip_comments));
    } else {
        assert((a + b).drop_last() =~= a + b.drop_last());
        assert((a + b).last() == b.last());
        lemma_collect_key_blobs_concat(a, b.drop_last(), skip_comments);
        let x = collect_key_blobs(a, skip_comments);
        let y = collect_key_blobs(b.drop_last(), skip_comments);
        match key_line_blob(b.last(), skip_comments) {
            Some(k) => {
                assert((x + y).push(k) =~= x + y.push(k));
            },
            None => {},
        }
    }
}

/// A single line contributes its key blob when it has one, else nothing.
pub proof fn lemma_collect_key_blobs_one(line: Seq<char>, skip_comments: bool)
    ensures
        collect_key_blobs(seq![line], skip_comments) == match key_line_blob(line, skip_comments) {
            Some(k) => seq![k],
            None => Seq::<Seq<u8>>::empty(),
        },
{
    assert(seq![line].drop_last() =~= Seq::<Seq<char>>::empty());
    assert(seq![line].last() == line);
    assert(collect_key_blobs(Seq::<Seq<char>>::empty(), skip_comments) == Seq::<Seq<u8>>::empty());
    match key_line_blob(line, skip_comments) {
        Some(k) => {
            assert(Seq::<Seq<u8>>::empty().push(k) =~= seq![k]);
        },
        None => {},
    }
}

/// Every line that holds a key contributes that key: its blob is among the
/// blobs of the lines.
pub proof fn lemma_every_key_line_listed(lines: Seq<Seq<char>>, skip_comments: bool, i: int)
    requires
        0 <= i < lines.len(),
        key_line_blob(lines[i], skip_comments) is Some,
    ensures
        collect_key_blobs(lines, skip_comments).contains(key_line_blob(lines[i], skip_comments)->Some_0),
{
    let k = key_line_blob(lines[i], skip_comments)->Some_0;
    let pre = lines.take(i);
    let rest = lines.skip(i + 1);
    assert(lines =~= pre + seq![lines[i]] + rest);
    lemma_collect_key_blobs_concat(pre + seq![lines[i]], rest, skip_comments);
    lemma_collect_key_blobs_concat(pre, seq![lines[i]], skip_comments);
    lemma_collect_key_blobs_one(lines[i], skip_comments);
    let x = collect_key_blobs(pre, skip_comments);
    let r = collect_key_blobs(rest, skip_comments);
    assert((x + seq![k] + r)[x.len() as int] == k);
}

/// The key blobs of two texts joined by a line break are those of the
/// first text, then those of the second.
pub proof fn lemma_key_text_blobs_concat(a: Seq<char>, b: Seq<char>, skip_comments: bool)
    ensures
        key_text_blobs(a + seq!['\n'] + b, skip_comments) == key_text_blobs(a, skip_comments) + key_text_blobs(
            b,
            skip_comments,
        ),
{
    lemma_split_char_concat(a, '\n', b);
    lemma_collect_key_blobs_concat(split_char(a, '\n'), split_char(b, '\n'), skip_comments);
}

/// The key blob of a public key line.
pub fn parse_pubkey_line(line: &[char]) -> (r: Option<Vec<u8>>)
    ensures
        match r {
            Some(v) => pubkey_blob(line@) == Some(v@),
            None => pubkey_blob(line@) is None,
        },
{
    let toks = crate::text::split_ws(line);
    if toks.len() < 2 {
        return None;
    }
    let word = crate::text::string_of(toks[1].as_slice());
    base64_decode(word.as_str())
}

/// The key blobs of a text holding one public key per line. Blank lines,
/// lines that are not public keys and, when `skip_comments`, lines
/// starting with `#` are skipped.
pub fn parse_key_lines(text: &str, skip_comments: bool) -> (r: Vec<Vec<u8>>)
    ensures
        r@.len() == key_text_blobs(text@, skip_comments).len(),
        forall|i: int| 0 <= i < r@.len() ==> #[trigger] r@[i]@ == key_text_blobs(
            text@,
            skip_comments,
        )[i],
{
    let chars = crate::text::chars_of(text);
    let lines = crate::text::split_on(chars.as_slice(), '\n');
    let ghost all = split_char(text@, '\n');
    let mut out: Vec<Vec<u8>> = Vec::new();
    let mut i: usize = 0;
    while i < lines.len()
        invariant
            i <= lines@.len(),
            lines@.len() == all.len(),
            forall|j: int| 0 <= j < lines@.len() ==> #[trigger] lines@[j]@ == all[j],
            out@.len() == collect_key_blobs(all.take(i as int), skip_comments).len(),
            forall|j: int| 0 <= j < out@.len() ==> #[trigger] out@[j]@ == collect_key_blobs(
                all.take(i as int),
                skip_comments,
            )[j],
        decreases lines@.len() - i,
    {
        let ghost prefix = all.take(i + 1);
        proof {
            assert(prefix.drop_last() =~= all.take(i as int));
            assert(prefix.last() == all[i as int]);
        }
        let t = crate::text::trim_chars(lines[i].as_slice());
        if t.len() == 0 || (skip_comments && t[0] == '#') {
        } else {
            match parse_pubkey_line(t.as_slice()) {
                Some(b) => {
                    out.push(b);
                },
                None => {},
            }
        }
        i = i + 1;
        assert forall|j: int| 0 <= j < out@.len() implies #[trigger] out@[j]@
            == collect_key_blobs(prefix, skip_comments)[j] by {}
    }
    assert(all.take(all.len() as int) =~= all);
    out
}

/// Whether `blob` is one of `keys`.
pub fn blob_listed(keys: &Vec<Vec<u8>>, blob: &[u8]) -> (r: bool)
    ensures
        r == exists|i: int| 0 <= i < keys@.len() && #[trigger] keys@[i]@ == blob@,
{
    let mut i: usize = 0;
    while i < keys.len()
        invariant
            i <= keys@.len(),
            forall|j: int| 0 <= j < i ==> #[trigger] keys@[j]@ != blob@,
        decreases keys@.len() - i,
    {
        if bytes_equal(keys[i].as_slice(), blob) {
            return true;
        }
        i = i + 1;
    }
    false
}

/// Whether two byte strings are equal.
pub fn bytes_equal(a: &[u8], b: &[u8]) -> (r: bool)
    ensures
        r == (a@ == b@),
{
    if a.len() != b.len() {
        return false;
    }
    let mut i: usize = 0;
    while i < a.len()
        invariant
            a@.len() == b@.len(),
            i <= a@.len(),
            forall|j: int| 0 <= j < i ==> a@[j] == b@[j],
        decreases a@.len() - i,
    {
        if a[i] != b[i] {
            return false;
        }
        i = i + 1;
    }
    assert(a@ =~= b@);
    true
}

/// Matcher for one public key.
#[derive(Debug)]
pub struct PubkeyMatcher {
    key_blob: Vec<u8>,
}

impl PubkeyMatcher {
    /// The key blob this matcher accepts.
    pub closed spec fn spec_blob(&self) -> Seq<u8> {
        self.key_blob@
    }

    /// Creates a matcher from a public key line `TYPE BASE64 [COMMENT]`.
    /// Fails when the line has no Base64 key.
    pub fn new(key: &str) -> (r: Result<PubkeyMatcher, Error>)
        ensures
            r is Ok <==> pubkey_blob(key@) is Some,
            match r {
                Ok(m) => pubkey_blob(key@) == Some(m.spec_blob()),
                Err(e) => e matches Error::Filter(msg) && msg@ == "Invalid public key"@,
            },
    {
        let chars = crate::text::chars_of(key);
        match parse_pubkey_line(chars.as_slice()) {
            Some(b) => Ok(PubkeyMatcher { key_blob: b }),
            None => Err(Error::Filter("Invalid public key".to_string())),
        }
    }

    /// The key blob this matcher accepts.
    pub fn key_blob(&self) -> (b: &[u8])
        ensures
            b@ == self.spec_blob(),
    {
        self.key_blob.as_slice()
    }

    /// Whether the identity holds this public key.
    pub fn matches(&self, identity: &Identity) -> (b: bool)
        ensures
            b == (identity.key_blob@ == self.spec_blob()),
    {
        bytes_equal(identity.key_blob.as_slice(), self.key_blob.as_slice())
    }
}

impl Clone for PubkeyMatcher {
    fn clone(&self) -> (r: PubkeyMatcher)
        ensures
            r.spec_blob() == self.spec_blob(),
    {
        PubkeyMatcher { key_blob: self.key_blob.clone() }
    }
}

/// The blob is one of the listed keys.
pub open spec fn blob_in(keys: Seq<Seq<u8>>, blob: Seq<u8>) -> bool {
    exists|i: int| 0 <= i < keys.len() && keys[i] == blob
}

/// A pubkey matcher's view of an identity: only the key blob counts.
pub open spec fn pubkey_accepts(blob: Seq<u8>, id: SpecIdentity) -> bool {
    id.0 == blob
}

} // verus!
