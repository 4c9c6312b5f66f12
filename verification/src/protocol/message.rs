//! SSH agent messages and the identities they carry.

use vstd::prelude::*;
use vstd::utf8::{decode_utf8, encode_utf8, valid_utf8};
use crate::error::Error;
use crate::protocol::wire::{
    be32_bytes, be32_value, lemma_be32_roundtrip, lemma_ssh_string_roundtrip, parse_ssh_string,
    ssh_string,
};

verus! {

/// SSH agent message types (draft-miller-ssh-agent).
#[derive(Debug, Clone, Copy, PartialEq, Eq, Structural)]
pub enum MessageType {
    /// SSH_AGENT_FAILURE (5)
    Failure,
    /// SSH_AGENT_SUCCESS (6)
    Success,
    /// SSH_AGENTC_REQUEST_IDENTITIES (11)
    RequestIdentities,
    /// SSH_AGENT_IDENTITIES_ANSWER (12)
    IdentitiesAnswer,
    /// SSH_AGENTC_SIGN_REQUEST (13)
    SignRequest,
    /// SSH_AGENT_SIGN_RESPONSE (14)
    SignResponse,
    /// SSH_AGENTC_ADD_IDENTITY (17)
    AddIdentity,
    /// SSH_AGENTC_REMOVE_IDENTITY (18)
    RemoveIdentity,
    /// SSH_AGENTC_REMOVE_ALL_IDENTITIES (19)
    RemoveAllIdentities,
    /// SSH_AGENTC_ADD_SMARTCARD_KEY (20)
    AddSmartcardKey,
    /// SSH_AGENTC_REMOVE_SMARTCARD_KEY (21)
    RemoveSmartcardKey,
    /// SSH_AGENTC_LOCK (22)
    Lock,
    /// SSH_AGENTC_UNLOCK (23)
    Unlock,
    /// SSH_AGENTC_ADD_ID_CONSTRAINED (25)
    AddIdConstrained,
    /// SSH_AGENTC_ADD_SMARTCARD_KEY_CONSTRAINED (26)
    AddSmartcardKeyConstrained,
    /// SSH_AGENTC_EXTENSION (27)
    Extension,
    /// SSH_AGENT_EXTENSION_FAILURE (28)
    ExtensionFailure,
    /// Any other type byte.
    Unknown(u8),
}

/// The type byte of a message type.
pub open spec fn spec_type_code(t: MessageType) -> u8 {
    match t {
        MessageType::Failure => 5,
        MessageType::Success => 6,
        MessageType::RequestIdentities => 11,
        MessageType::IdentitiesAnswer => 12,
        MessageType::SignRequest => 13,
        MessageType::SignResponse => 14,
        MessageType::AddIdentity => 17,
        MessageType::RemoveIdentity => 18,
        MessageType::RemoveAllIdentities => 19,
        MessageType::AddSmartcardKey => 20,
        MessageType::RemoveSmartcardKey => 21,
        MessageType::Lock => 22,
        MessageType::Unlock => 23,
        MessageType::AddIdConstrained => 25,
        MessageType::AddSmartcardKeyConstrained => 26,
        MessageType::Extension => 27,
        MessageType::ExtensionFailure => 28,
        MessageType::Unknown(b) => b,
    }
}

/// The message type a type byte stands for.
pub open spec fn spec_type_of_code(b: u8) -> MessageType {
    if b == 5 {
        MessageType::Failure
    } else if b == 6 {
        MessageType::Success
    } else if b == 11 {
        MessageType::RequestIdentities
    } else if b == 12 {
        MessageType::IdentitiesAnswer
    } else if b == 13 {
        MessageType::SignRequest
    } else if b == 14 {
        MessageType::SignResponse
    } else if b == 17 {
        MessageType::AddIdentity
    } else if b == 18 {
        MessageType::RemoveIdentity
    } else if b == 19 {
        MessageType::RemoveAllIdentities
    } else if b == 20 {
        MessageType::AddSmartcardKey
    } else if b == 21 {
        MessageType::RemoveSmartcardKey
    } else if b == 22 {
        MessageType::Lock
    } else if b == 23 {
        MessageType::Unlock
    } else if b == 25 {
        MessageType::AddIdConstrained
    } else if b == 26 {
        MessageType::AddSmartcardKeyConstrained
    } else if b == 27 {
        MessageType::Extension
    } else if b == 28 {
        MessageType::ExtensionFailure
    } else {
        MessageType::Unknown(b)
    }
}

/// `Unknown` only holds bytes that no named type has.
pub open spec fn spec_type_well_formed(t: MessageType) -> bool {
    spec_type_of_code(spec_type_code(t)) == t
}

impl MessageType {
    /// The message type a type byte stands for.
    pub fn from_u8(b: u8) -> (t: MessageType)
        ensures
            t == spec_type_of_code(b),
    {
        if b == 5 {
            MessageType::Failure
        } else if b == 6 {
            MessageType::Success
        } else if b == 11 {
            MessageType::RequestIdentities
        } else if b == 12 {
            MessageType::IdentitiesAnswer
        } else if b == 13 {
            MessageType::SignRequest
        } else if b == 14 {
            MessageType::SignResponse
        } else if b == 17 {
            MessageType::AddIdentity
        } else if b == 18 {
            MessageType::RemoveIdentity
        } else if b == 19 {
            MessageType::RemoveAllIdentities
        } else if b == 20 {
            MessageType::AddSmartcardKey
        } else if b == 21 {
            MessageType::RemoveSmartcardKey
        } else if b == 22 {
            MessageType::Lock
        } else if b == 23 {
            MessageType::Unlock
        } else if b == 25 {
            MessageType::AddIdConstrained
        } else if b == 26 {
            MessageType::AddSmartcardKeyConstrained
        } else if b == 27 {
            MessageType::Extension
        } else if b == 28 {
            MessageType::ExtensionFailure
        } else {
            MessageType::Unknown(b)
        }
    }

    /// The type byte of this message type.
    pub fn to_u8(&self) -> (b: u8)
        ensures
            b == spec_type_code(*self),
    {
        match self {
            MessageType::Failure => 5,
            MessageType::Success => 6,
            MessageType::RequestIdentities => 11,
            MessageType::IdentitiesAnswer => 12,
            MessageType::SignRequest => 13,
            MessageType::SignResponse => 14,
            MessageType::AddIdentity => 17,
            MessageType::RemoveIdentity => 18,
            MessageType::RemoveAllIdentities => 19,
            MessageType::AddSmartcardKey => 20,
            MessageType::RemoveSmartcardKey => 21,
            MessageType::Lock => 22,
            MessageType::Unlock => 23,
            MessageType::AddIdConstrained => 25,
            MessageType::AddSmartcardKeyConstrained => 26,
            MessageType::Extension => 27,
            MessageType::ExtensionFailure => 28,
            MessageType::Unknown(b) => *b,
        }
    }

    /// The protocol's name of this message type.
    pub fn as_str(&self) -> (s: &'static str)
        ensures
            s@ == spec_type_name(*self),
    {
        match self {
            MessageType::Failure => "SSH_AGENT_FAILURE",
            MessageType::Success => "SSH_AGENT_SUCCESS",
            MessageType::RequestIdentities => "SSH_AGENTC_REQUEST_IDENTITIES",
            MessageType::IdentitiesAnswer => "SSH_AGENT_IDENTITIES_ANSWER",
            MessageType::SignRequest => "SSH_AGENTC_SIGN_REQUEST",
            MessageType::SignResponse => "SSH_AGENT_SIGN_RESPONSE",
            MessageType::AddIdentity => "SSH_AGENTC_ADD_IDENTITY",
            MessageType::RemoveIdentity => "SSH_AGENTC_REMOVE_IDENTITY",
            MessageType::RemoveAllIdentities => "SSH_AGENTC_REMOVE_ALL_IDENTITIES",
            MessageType::AddSmartcardKey => "SSH_AGENTC_ADD_SMARTCARD_KEY",
            MessageType::RemoveSmartcardKey => "SSH_AGENTC_REMOVE_SMARTCARD_KEY",
            MessageType::Lock => "SSH_AGENTC_LOCK",
            MessageType::Unlock => "SSH_AGENTC_UNLOCK",
            MessageType::AddIdConstrained => "SSH_AGENTC_ADD_ID_CONSTRAINED",
            MessageType::AddSmartcardKeyConstrained => "SSH_AGENTC_ADD_SMARTCARD_KEY_CONSTRAINED",
            MessageType::Extension => "SSH_AGENTC_EXTENSION",
            MessageType::ExtensionFailure => "SSH_AGENT_EXTENSION_FAILURE",
            MessageType::Unknown(_) => "UNKNOWN",
        }
    }
}

/// The protocol's name of a message type.
pub open spec fn spec_type_name(t: MessageType) -> Seq<char> {
    match t {
        MessageType::Failure => "SSH_AGENT_FAILURE"@,
        MessageType::Success => "SSH_AGENT_SUCCESS"@,
        MessageType::RequestIdentities => "SSH_AGENTC_REQUEST_IDENTITIES"@,
        MessageType::IdentitiesAnswer => "SSH_AGENT_IDENTITIES_ANSWER"@,
        MessageType::SignRequest => "SSH_AGENTC_SIGN_REQUEST"@,
        MessageType::SignResponse => "SSH_AGENT_SIGN_RESPONSE"@,
        MessageType::AddIdentity => "SSH_AGENTC_ADD_IDENTITY"@,
        MessageType::RemoveIdentity => "SSH_AGENTC_REMOVE_IDENTITY"@,
        MessageType::RemoveAllIdentities => "SSH_AGENTC_REMOVE_ALL_IDENTITIES"@,
        MessageType::AddSmartcardKey => "SSH_AGENTC_ADD_SMARTCARD_KEY"@,
        MessageType::RemoveSmartcardKey => "SSH_AGENTC_REMOVE_SMARTCARD_KEY"@,
        MessageType::Lock => "SSH_AGENTC_LOCK"@,
        MessageType::Unlock => "SSH_AGENTC_UNLOCK"@,
        MessageType::AddIdConstrained => "SSH_AGENTC_ADD_ID_CONSTRAINED"@,
        MessageType::AddSmartcardKeyConstrained => "SSH_AGENTC_ADD_SMARTCARD_KEY_CONSTRAINED"@,
        MessageType::Extension => "SSH_AGENTC_EXTENSION"@,
        MessageType::ExtensionFailure => "SSH_AGENT_EXTENSION_FAILURE"@,
        MessageType::Unknown(_) => "UNKNOWN"@,
    }
}

/// Reading a type byte and writing it back gives the same byte.
pub proof fn lemma_type_code_roundtrip(b: u8)
    ensures
        spec_type_code(spec_type_of_code(b)) == b,
        spec_type_well_formed(spec_type_of_code(b)),
{
}

/// A key held by an agent: its public key blob and its comment.
#[derive(Debug)]
pub struct Identity {
    /// The public key in SSH wire format.
    pub key_blob: Vec<u8>,
    /// The key's comment.
    pub comment: String,
}

/// The mathematical value of an identity: key blob and comment characters.
pub type SpecIdentity = (Seq<u8>, Seq<char>);

impl View for Identity {
    type V = SpecIdentity;

    open spec fn view(&self) -> SpecIdentity {
        (self.key_blob@, self.comment@)
    }
}

impl Clone for Identity {
    fn clone(&self) -> (r: Identity)
        ensures
            r@ == self@,
    {
        Identity { key_blob: self.key_blob.clone(), comment: self.comment.clone() }
    }
}

/// The values of a sequence of identities.
pub open spec fn identities_view(ids: Seq<Identity>) -> Seq<SpecIdentity> {
    ids.map_values(|id: Identity| id@)
}

impl Identity {
    /// Creates an identity from a key blob and a comment.
    pub fn new(key_blob: Vec<u8>, comment: String) -> (r: Identity)
        ensures
            r.key_blob@ == key_blob@,
            r.comment@ == comment@,
    {
        Identity { key_blob, comment }
    }
}

/// An identity fits the wire format: its blob and the UTF-8 bytes of its
/// comment each have a length that fits in four bytes.
pub open spec fn identity_fits(id: SpecIdentity) -> bool {
    &&& id.0.len() <= u32::MAX
    &&& encode_utf8(id.1).len() <= u32::MAX
}

/// The wire form of one identity: key blob, then comment (UTF-8).
pub open spec fn encode_identity(id: SpecIdentity) -> Seq<u8> {
    ssh_string(id.0) + ssh_string(encode_utf8(id.1))
}

/// The wire form of a list of identities, one after another.
pub open spec fn encode_identity_list(ids: Seq<SpecIdentity>) -> Seq<u8>
    decreases ids.len(),
{
    if ids.len() == 0 {
        Seq::empty()
    } else {
        encode_identity_list(ids.drop_last()) + encode_identity(ids.last())
    }
}

/// The payload of an identities answer: the count, then the identities.
pub open spec fn encode_identities_payload(ids: Seq<SpecIdentity>) -> Seq<u8> {
    be32_bytes(ids.len() as u32) + encode_identity_list(ids)
}

/// Reads one identity from the front of `d`: the identity and the bytes it
/// took, or `None` when `d` is too short or the comment is not UTF-8.
pub open spec fn parse_identity_entry(d: Seq<u8>) -> Option<(SpecIdentity, int)> {
    match parse_ssh_string(d) {
        None => None,
        Some((blob, n)) => match parse_ssh_string(d.skip(n)) {
            None => None,
            Some((c, m)) => if valid_utf8(c) {
                Some(((blob, decode_utf8(c)), n + m))
            } else {
                None
            },
        },
    }
}

/// Reads `k` identities one after another from the front of `d`.
pub open spec fn parse_identity_entries(d: Seq<u8>, k: nat) -> Option<(Seq<SpecIdentity>, int)>
    decreases k,
{
    if k == 0 {
        Some((Seq::empty(), 0))
    } else {
        match parse_identity_entries(d, (k - 1) as nat) {
            None => None,
            Some((ids, pos)) => match parse_identity_entry(d.skip(pos)) {
                None => None,
                Some((id, n)) => Some((ids.push(id), pos + n)),
            },
        }
    }
}

/// The identities an identities-answer payload lists, or `None` when the
/// payload is malformed. Bytes after the last identity are ignored.
pub open spec fn parse_identities_payload(p: Seq<u8>) -> Option<Seq<SpecIdentity>> {
    if p.len() < 4 {
        None
    } else {
        match parse_identity_entries(p.skip(4), be32_value(p) as nat) {
            Some((ids, _)) => Some(ids),
            None => None,
        }
    }
}

/// The key blob a sign-request payload names, or `None` when it is malformed.
pub open spec fn parse_sign_request_payload(p: Seq<u8>) -> Option<Seq<u8>> {
    match parse_ssh_string(p) {
        Some((blob, _)) => Some(blob),
        None => None,
    }
}

/// One identity's wire form, followed by anything, reads back as that identity.
pub proof fn lemma_identity_entry_roundtrip(id: SpecIdentity, rest: Seq<u8>)
    requires
        identity_fits(id),
    ensures
        parse_identity_entry(encode_identity(id) + rest) == Some(
            (id, encode_identity(id).len() as int),
        ),
{
    let c = encode_utf8(id.1);
    let d = encode_identity(id) + rest;
    lemma_ssh_string_roundtrip(id.0, ssh_string(c) + rest);
    assert(d =~= ssh_string(id.0) + (ssh_string(c) + rest));
    let n = 4 + id.0.len() as int;
    assert(d.skip(n) =~= ssh_string(c) + rest);
    lemma_ssh_string_roundtrip(c, rest);
    vstd::utf8::encode_utf8_valid_utf8(id.1);
    vstd::utf8::encode_utf8_decode_utf8(id.1);
}

/// A list of identities in wire form, followed by anything, reads back as the list.
pub proof fn lemma_identity_list_roundtrip(ids: Seq<SpecIdentity>, rest: Seq<u8>)
    requires
        forall|i: int| 0 <= i < ids.len() ==> identity_fits(#[trigger] ids[i]),
    ensures
        parse_identity_entries(encode_identity_list(ids) + rest, ids.len()) == Some(
            (ids, encode_identity_list(ids).len() as int),
        ),
    decreases ids.len(),
{
    if ids.len() == 0 {
        assert(ids =~= Seq::<SpecIdentity>::empty());
    } else {
        let front = ids.drop_last();
        let last = ids.last();
        let e = encode_identity(last);
        assert forall|i: int| 0 <= i < front.len() implies identity_fits(#[trigger] front[i]) by {
            assert(front[i] == ids[i]);
        }
        lemma_identity_list_roundtrip(front, e + rest);
        let d = encode_identity_list(ids) + rest;
        assert(d =~= encode_identity_list(front) + (e + rest));
        let pos = encode_identity_list(front).len() as int;
        assert(d.skip(pos) =~= e + rest);
        assert(identity_fits(ids[ids.len() - 1]));
        lemma_identity_entry_roundtrip(last, rest);
        assert(front.push(last) =~= ids);
    }
}

/// An identities-answer payload reads back as the identities it was built from.
pub proof fn lemma_identities_payload_roundtrip(ids: Seq<SpecIdentity>)
    requires
        ids.len() <= u32::MAX,
        forall|i: int| 0 <= i < ids.len() ==> identity_fits(#[trigger] ids[i]),
    ensures
        parse_identities_payload(encode_identities_payload(ids)) == Some(ids),
{
    let p = encode_identities_payload(ids);
    lemma_be32_roundtrip(ids.len() as u32);
    assert(p.subrange(0, 4) =~= be32_bytes(ids.len() as u32));
    assert(be32_value(p) == be32_value(be32_bytes(ids.len() as u32)));
    lemma_identity_list_roundtrip(ids, Seq::empty());
    assert(p.skip(4) =~= encode_identity_list(ids) + Seq::<u8>::empty());
}

/// The type bytes are the SSH agent protocol's numbers, in both
/// directions: 5 failure, 6 success, 11 request identities, 12 identities
/// answer, 13 sign request, 14 sign response, 17 add identity, 18 remove
/// identity, 19 remove all identities, 20 add smartcard key, 21 remove
/// smartcard key, 22 lock, 23 unlock, 25 add constrained identity, 26 add
/// constrained smartcard key, 27 extension, 28 extension failure.
pub proof fn lemma_protocol_type_numbers()
    ensures
        spec_type_of_code(5) == MessageType::Failure && spec_type_code(MessageType::Failure) == 5,
        spec_type_of_code(6) == MessageType::Success && spec_type_code(MessageType::Success) == 6,
        spec_type_of_code(11) == MessageType::RequestIdentities && spec_type_code(MessageType::RequestIdentities) == 11,
        spec_type_of_code(12) == MessageType::IdentitiesAnswer && spec_type_code(MessageType::IdentitiesAnswer) == 12,
        spec_type_of_code(13) == MessageType::SignRequest && spec_type_code(MessageType::SignRequest) == 13,
        spec_type_of_code(14) == MessageType::SignResponse && spec_type_code(MessageType::SignResponse) == 14,
        spec_type_of_code(17) == MessageType::AddIdentity && spec_type_code(MessageType::AddIdentity) == 17,
        spec_type_of_code(18) == MessageType::RemoveIdentity && spec_type_code(MessageType::RemoveIdentity) == 18,
        spec_type_of_code(19) == MessageType::RemoveAllIdentities && spec_type_code(MessageType::RemoveAllIdentities)
            == 19,
        spec_type_of_code(20) == MessageType::AddSmartcardKey && spec_type_code(MessageType::AddSmartcardKey) == 20,
        spec_type_of_code(21) == MessageType::RemoveSmartcardKey && spec_type_code(MessageType::RemoveSmartcardKey)
            == 21,
        spec_type_of_code(22) == MessageType::Lock && spec_type_code(MessageType::Lock) == 22,
        spec_type_of_code(23) == MessageType::Unlock && spec_type_code(MessageType::Unlock) == 23,
        spec_type_of_code(25) == MessageType::AddIdConstrained && spec_type_code(MessageType::AddIdConstrained) == 25,
        spec_type_of_code(26) == MessageType::AddSmartcardKeyConstrained && spec_type_code(
            MessageType::AddSmartcardKeyConstrained,
        ) == 26,
        spec_type_of_code(27) == MessageType::Extension && spec_type_code(MessageType::Extension) == 27,
        spec_type_of_code(28) == MessageType::ExtensionFailure && spec_type_code(MessageType::ExtensionFailure) == 28,
        forall|b: u8|
            !(b == 5 || b == 6 || (11 <= b <= 14) || (17 <= b <= 23) || (25 <= b <= 28)) ==> #[trigger] spec_type_of_code(b)
                == MessageType::Unknown(b),
{
}

} // verus!

verus! {

/// The bytes of a framed message: the length of type byte and payload,
/// four bytes big-endian, then the type byte, then the payload.
pub open spec fn spec_encode_message(t: MessageType, payload: Seq<u8>) -> Seq<u8> {
    be32_bytes((payload.len() + 1) as u32) + seq![spec_type_code(t)] + payload
}

/// Once reading `k1` identities fails, reading more fails too.
pub proof fn lemma_identity_entries_fail_onward(d: Seq<u8>, k1: nat, k2: nat)
    requires
        k1 <= k2,
        parse_identity_entries(d, k1) is None,
    ensures
        parse_identity_entries(d, k2) is None,
    decreases k2,
{
    if k2 > k1 {
        lemma_identity_entries_fail_onward(d, k1, (k2 - 1) as nat);
    }
}

/// An SSH agent message: its type and the bytes that follow the type byte.
#[derive(Debug)]
pub struct AgentMessage {
    /// The message type.
    pub msg_type: MessageType,
    /// The payload after the type byte.
    pub payload: Vec<u8>,
}

impl Clone for AgentMessage {
    fn clone(&self) -> (r: AgentMessage)
        ensures
            r.msg_type == self.msg_type,
            r.payload@ == self.payload@,
    {
        AgentMessage { msg_type: self.msg_type, payload: self.payload.clone() }
    }
}

impl AgentMessage {
    /// Creates a message from its type and payload.
    pub fn new(msg_type: MessageType, payload: Vec<u8>) -> (m: AgentMessage)
        ensures
            m.msg_type == msg_type,
            m.payload@ == payload@,
    {
        AgentMessage { msg_type, payload }
    }

    /// SSH_AGENT_FAILURE with an empty payload.
    pub fn failure() -> (m: AgentMessage)
        ensures
            m.msg_type == MessageType::Failure,
            m.payload@ == Seq::<u8>::empty(),
    {
        AgentMessage { msg_type: MessageType::Failure, payload: Vec::new() }
    }

    /// The framed bytes of this message.
    pub fn encode(&self) -> (r: Vec<u8>)
        requires
            self.payload@.len() + 1 <= u32::MAX,
        ensures
            r@ == spec_encode_message(self.msg_type, self.payload@),
    {
        let mut out: Vec<u8> = Vec::new();
        crate::protocol::wire::push_u32_be(&mut out, (self.payload.len() + 1) as u32);
        out.push(self.msg_type.to_u8());
        crate::protocol::wire::push_bytes(&mut out, self.payload.as_slice());
        assert(out@ =~= spec_encode_message(self.msg_type, self.payload@));
        out
    }

    /// Reads a message from the bytes that follow its length prefix:
    /// the type byte, then the payload. Fails on an empty body.
    pub fn decode(body: &[u8]) -> (r: Result<AgentMessage, Error>)
        ensures
            r is Ok <==> body@.len() > 0,
            r matches Ok(m) ==> m.msg_type == spec_type_of_code(body@[0]) && m.payload@
                == body@.skip(1),
            r matches Err(e) ==> (e matches Error::InvalidMessage(m) && m@ == "Empty message"@),
    {
        if body.len() == 0 {
            return Err(Error::InvalidMessage("Empty message".to_string()));
        }
        let msg_type = MessageType::from_u8(body[0]);
        let payload = crate::protocol::wire::copy_range(body, 1, body.len());
        assert(payload@ =~= body@.skip(1));
        Ok(AgentMessage { msg_type, payload })
    }

    /// The identities listed by an identities-answer payload.
    pub fn parse_identities(&self) -> (r: Result<Vec<Identity>, Error>)
        ensures
            r is Ok <==> parse_identities_payload(self.payload@) is Some,
            r matches Ok(v) ==> parse_identities_payload(self.payload@) == Some(
                identities_view(v@),
            ),
            r matches Err(e) ==> e is InvalidMessage,
    {
        let p = self.payload.as_slice();
        if p.len() < 4 {
            return Err(Error::InvalidMessage("Identities answer too short".to_string()));
        }
        let n = crate::protocol::wire::read_u32_be(p, 0);
        assert(p@.skip(0) =~= p@);
        let ghost d = p@.skip(4);
        let mut ids: Vec<Identity> = Vec::new();
        let mut pos: usize = 4;
        let mut i: u32 = 0;
        while i < n
            invariant
                p@ == self.payload@,
                d == p@.skip(4),
                n == be32_value(p@),
                i <= n,
                4 <= pos <= p@.len(),
                parse_identity_entries(d, i as nat) == Some((identities_view(ids@), pos - 4)),
            decreases n - i,
        {
            assert(d.skip(pos - 4) =~= p@.skip(pos as int));
            let first = crate::protocol::wire::locate_ssh_string(p, pos);
            let (s1, e1) = match first {
                Some(x) => x,
                None => {
                    proof {
                        lemma_identity_entries_fail_onward(d, (i + 1) as nat, n as nat);
                    }
                    return Err(Error::InvalidMessage("Truncated key blob".to_string()));
                },
            };
            assert(p@.skip(pos as int).skip(e1 - pos) =~= p@.skip(e1 as int));
            let second = crate::protocol::wire::locate_ssh_string(p, e1);
            let (s2, e2) = match second {
                Some(x) => x,
                None => {
                    proof {
                        lemma_identity_entries_fail_onward(d, (i + 1) as nat, n as nat);
                    }
                    return Err(Error::InvalidMessage("Truncated key comment".to_string()));
                },
            };
            let blob = crate::protocol::wire::copy_range(p, s1, e1);
            let comment_bytes = crate::protocol::wire::copy_range(p, s2, e2);
            let decoded = crate::text::string_from_utf8(comment_bytes);
            let comment = match decoded {
                Some(c) => c,
                None => {
                    proof {
                        lemma_identity_entries_fail_onward(d, (i + 1) as nat, n as nat);
                    }
                    return Err(Error::InvalidMessage("Key comment is not UTF-8".to_string()));
                },
            };
            let ghost old_view = identities_view(ids@);
            ids.push(Identity { key_blob: blob, comment });
            assert(identities_view(ids@) =~= old_view.push((blob@, comment@)));
            pos = e2;
            i = i + 1;
        }
        Ok(ids)
    }

    /// The key blob named by a sign-request payload.
    pub fn parse_sign_request_key(&self) -> (r: Result<Vec<u8>, Error>)
        ensures
            r is Ok <==> parse_sign_request_payload(self.payload@) is Some,
            r matches Ok(b) ==> parse_sign_request_payload(self.payload@) == Some(b@),
            r matches Err(e) ==> (e matches Error::InvalidMessage(m) && m@ == "Truncated sign request"@),
    {
        let p = self.payload.as_slice();
        assert(p@.skip(0) =~= p@);
        match crate::protocol::wire::locate_ssh_string(p, 0) {
            Some((start, end)) => Ok(crate::protocol::wire::copy_range(p, start, end)),
            None => Err(Error::InvalidMessage("Truncated sign request".to_string())),
        }
    }

    /// An identities answer listing the given identities, in order.
    pub fn build_identities_answer(identities: &[Identity]) -> (m: AgentMessage)
        requires
            identities@.len() <= u32::MAX,
            forall|i: int| 0 <= i < identities@.len() ==> identity_fits(#[trigger] identities@[i]@),
        ensures
            m.msg_type == MessageType::IdentitiesAnswer,
            m.payload@ == encode_identities_payload(identities_view(identities@)),
    {
        let ghost all = identities_view(identities@);
        let mut payload: Vec<u8> = Vec::new();
        crate::protocol::wire::push_u32_be(&mut payload, identities.len() as u32);
        let mut i: usize = 0;
        while i < identities.len()
            invariant
                i <= identities@.len(),
                all == identities_view(identities@),
                identities@.len() <= u32::MAX,
                forall|j: int| 0 <= j < identities@.len() ==> identity_fits(#[trigger] identities@[j]@),
                payload@ == be32_bytes(identities@.len() as u32) + encode_identity_list(
                    all.take(i as int),
                ),
            decreases identities@.len() - i,
        {
            let id = &identities[i];
            assert(identity_fits(identities@[i as int]@));
            let ghost before = payload@;
            crate::protocol::wire::push_ssh_string(&mut payload, id.key_blob.as_slice());
            crate::protocol::wire::push_ssh_string(&mut payload, id.comment.as_str().as_bytes());
            assert(all.take(i + 1).drop_last() =~= all.take(i as int));
            assert(all.take(i + 1).last() == id@);
            assert(payload@ =~= be32_bytes(identities@.len() as u32) + encode_identity_list(
                all.take(i + 1),
            ));
            i = i + 1;
        }
        assert(all.take(identities@.len() as int) =~= all);
        AgentMessage { msg_type: MessageType::IdentitiesAnswer, payload }
    }
}

/// Decoding the body of an encoded message gives the message back.
pub proof fn lemma_message_roundtrip(t: MessageType, payload: Seq<u8>)
    requires
        spec_type_well_formed(t),
        payload.len() + 1 <= u32::MAX,
    ensures
        spec_encode_message(t, payload).skip(4).len() > 0,
        spec_type_of_code(spec_encode_message(t, payload).skip(4)[0]) == t,
        spec_encode_message(t, payload).skip(4).skip(1) == payload,
        be32_value(spec_encode_message(t, payload)) == payload.len() + 1,
{
    let e = spec_encode_message(t, payload);
    lemma_be32_roundtrip((payload.len() + 1) as u32);
    assert(e.subrange(0, 4) =~= be32_bytes((payload.len() + 1) as u32));
    assert(be32_value(e) == be32_value(be32_bytes((payload.len() + 1) as u32)));
    assert(e.skip(4)[0] == spec_type_code(t));
    assert(e.skip(4).skip(1) =~= payload);
}

/// Identities read from the wire fit back into it.
pub proof fn lemma_parsed_entries_fit(d: Seq<u8>, k: nat)
    requires
        parse_identity_entries(d, k) is Some,
    ensures
        parse_identity_entries(d, k) matches Some((ids, pos)) && ids.len() == k && 0 <= pos
            <= d.len() && forall|i: int| 0 <= i < ids.len() ==> identity_fits(#[trigger] ids[i]),
    decreases k,
{
    if k > 0 {
        lemma_parsed_entries_fit(d, (k - 1) as nat);
        let (ids, pos) = parse_identity_entries(d, (k - 1) as nat).unwrap();
        let rest = d.skip(pos);
        let (blob, n) = parse_ssh_string(rest).unwrap();
        crate::protocol::wire::lemma_be32_value_bounds(rest);
        let (c, m) = parse_ssh_string(rest.skip(n)).unwrap();
        crate::protocol::wire::lemma_be32_value_bounds(rest.skip(n));
        vstd::utf8::decode_utf8_encode_utf8(c);
        let id = (blob, decode_utf8(c));
        assert(identity_fits(id));
        let (all, _) = parse_identity_entries(d, k).unwrap();
        assert(all == ids.push(id));
        assert forall|i: int| 0 <= i < all.len() implies identity_fits(#[trigger] all[i]) by {
            if i < ids.len() {
                assert(all[i] == ids[i]);
            }
        }
    }
}

/// The identities of a well-formed answer fit back into the wire format.
pub proof fn lemma_parsed_identities_fit(p: Seq<u8>)
    requires
        parse_identities_payload(p) is Some,
    ensures
        parse_identities_payload(p) matches Some(ids) && ids.len() <= u32::MAX && forall|i: int|
            0 <= i < ids.len() ==> identity_fits(#[trigger] ids[i]),
{
    crate::protocol::wire::lemma_be32_value_bounds(p);
    lemma_parsed_entries_fit(p.skip(4), be32_value(p) as nat);
}

} // verus!
