//! The proxy's decisions: which requests go upstream, how identity lists
//! are filtered, and which keys may sign.
//!
//! The application moves the bytes: it reads a client's request, asks
//! [`Proxy::plan_request`] what to do, forwards it upstream when told to,
//! and hands the upstream's answer to [`Proxy::finish_request`], whose
//! result goes back to the client.

use vstd::prelude::*;
use vstd::utf8::{decode_utf8, valid_utf8};
use crate::agent::Upstream;
use crate::filter::evaluator::FilterEvaluator;
use crate::filter::groups::FilterGroups;
use crate::filter::pubkey::blob_in;
use crate::logging::jsonl::{AgentMsgContent, IdentityInfo};
use crate::protocol::fingerprint::{spec_identity_fingerprint, spec_key_type_name};
use crate::protocol::message::{
    encode_identities_payload, identities_view, parse_identities_payload,
    parse_sign_request_payload, spec_type_code, spec_type_name, AgentMessage, Identity,
    MessageType, SpecIdentity,
};
use crate::protocol::wire::be32_value;

verus! {

/// What to do with a client's request.
#[derive(Debug)]
pub enum RequestPlan {
    /// Forward the request to the upstream agent.
    Forward,
    /// Answer the client directly, without asking the upstream agent.
    Reply(AgentMessage),
}

/// A request goes upstream: a sign request only when it names a key in
/// `allowed`; every other request always.
pub open spec fn spec_request_forwarded(allowed: Seq<Seq<u8>>, t: MessageType, payload: Seq<u8>) -> bool {
    match t {
        MessageType::SignRequest => match parse_sign_request_payload(payload) {
            Some(blob) => blob_in(allowed, blob),
            None => false,
        },
        _ => true,
    }
}

/// The key blobs of some identities.
pub open spec fn blobs_of(ids: Seq<SpecIdentity>) -> Seq<Seq<u8>> {
    ids.map_values(|id: SpecIdentity| id.0)
}

/// The text of an optional string, empty when there is none.
pub open spec fn text_or_empty(s: Option<Seq<char>>) -> Seq<char> {
    match s {
        Some(t) => t,
        None => Seq::empty(),
    }
}

/// The key type text logged for a key blob: its type name, or empty.
pub open spec fn key_type_text(blob: Seq<u8>) -> Seq<char> {
    match spec_key_type_name(blob) {
        Some(name) => if valid_utf8(name) {
            decode_utf8(name)
        } else {
            Seq::empty()
        },
        None => Seq::empty(),
    }
}

/// The fields a sign request's log summary reads: key blob, data length
/// and flags. A missing data length or flags field counts as zero.
pub open spec fn sign_request_summary(p: Seq<u8>) -> Option<(Seq<u8>, u32, u32)> {
    if p.len() < 4 {
        None
    } else {
        let key_len = be32_value(p);
        if p.len() - 4 < key_len {
            None
        } else {
            let blob = p.subrange(4, 4 + key_len);
            let rest = p.skip(4 + key_len);
            let data_len: u32 = if rest.len() >= 4 {
                be32_value(rest) as u32
            } else {
                0
            };
            let after = if rest.len() >= 4 {
                rest.skip(4 + data_len)
            } else {
                rest
            };
            let flags: u32 = if after.len() >= 4 {
                be32_value(after) as u32
            } else {
                0
            };
            Some((blob, data_len, flags))
        }
    }
}

/// A sign request whose data length field runs past the end of the
/// message. Summarizing such a request skips beyond the payload, which
/// panics.
pub open spec fn sign_request_overruns(p: Seq<u8>) -> bool {
    p.len() >= 4 && p.len() - 4 >= be32_value(p) && {
        let rest = p.skip(4 + be32_value(p));
        rest.len() >= 4 && be32_value(rest) > rest.len() - 4
    }
}

/// `info` logs identity `id`.
pub open spec fn info_describes(info: IdentityInfo, id: SpecIdentity) -> bool {
    &&& info.fingerprint@ == text_or_empty(spec_identity_fingerprint(id))
    &&& info.comment@ == id.1
    &&& info.key_type@ == key_type_text(id.0)
}

/// `c` is the log summary of a message of type `t` with payload `p`.
pub open spec fn content_describes(c: AgentMsgContent, t: MessageType, p: Seq<u8>) -> bool {
    &&& c.msg_type == spec_type_code(t)
    &&& c.msg_name@ == spec_type_name(t)
    &&& match t {
        MessageType::IdentitiesAnswer => match parse_identities_payload(p) {
            Some(ids) => c.identities matches Some(infos) && infos@.len() == ids.len() && (forall|i: int|
                0 <= i < ids.len() ==> info_describes(#[trigger] infos@[i], ids[i])),
            None => c.identities is None,
        },
        _ => c.identities is None,
    }
    &&& match t {
        MessageType::SignRequest => match sign_request_summary(p) {
            Some((blob, data_len, flags)) => c.fingerprint matches Some(f) && f@ == text_or_empty(
                spec_identity_fingerprint((blob, Seq::empty())),
            ) && c.data_len == Some(data_len) && c.flags == Some(flags),
            None => c.fingerprint is None && c.data_len is None && c.flags is None,
        },
        _ => c.fingerprint is None && c.data_len is None && c.flags is None,
    }
    &&& match t {
        MessageType::SignResponse => if p.len() >= 4 {
            c.signature_len == Some(be32_value(p) as u32)
        } else {
            c.signature_len is None
        },
        _ => c.signature_len is None,
    }
}

/// SSH agent proxy that filters requests.
pub struct Proxy {
    upstream: Upstream,
    filter: FilterGroups,
    allowed_keys: Vec<Vec<u8>>,
    socket_path: String,
    connection_counter: u64,
    verbosity: i8,
}

impl Proxy {
    /// The filter applied to the upstream agent's keys.
    pub closed spec fn spec_filter(&self) -> FilterGroups {
        self.filter
    }

    /// The keys that may sign: those the last identities answer listed.
    pub closed spec fn spec_allowed(&self) -> Seq<Seq<u8>> {
        self.allowed_keys@.map_values(|k: Vec<u8>| k@)
    }

    /// The filtered socket's path, for logging.
    pub closed spec fn spec_socket_path(&self) -> Seq<char> {
        self.socket_path@
    }

    /// The number of client connections counted so far.
    pub closed spec fn spec_connections(&self) -> u64 {
        self.connection_counter
    }

    /// How much of the agent traffic is logged: 0 none, 1 message
    /// summaries, 2 and above summaries and raw bytes.
    pub closed spec fn spec_verbosity(&self) -> i8 {
        self.verbosity
    }

    /// The upstream agent.
    pub closed spec fn spec_upstream(&self) -> Upstream {
        self.upstream
    }

    /// Creates a proxy whose filter is the one group `filter`; no key may
    /// sign until an identities answer lists it.
    pub fn new(upstream: Upstream, filter: FilterEvaluator) -> (p: Proxy)
        ensures
            p.spec_upstream() == upstream,
            p.spec_filter().spec_groups() == seq![filter],
            p.spec_allowed() == Seq::<Seq<u8>>::empty(),
            p.spec_socket_path() == Seq::<char>::empty(),
            p.spec_connections() == 0,
            p.spec_verbosity() == 0,
    {
        Proxy::new_shared(upstream, FilterGroups::single(filter))
    }

    /// Creates a proxy for a socket with alternative filter groups; no key
    /// may sign until an identities answer lists it.
    pub fn new_shared(upstream: Upstream, filter: FilterGroups) -> (p: Proxy)
        ensures
            p.spec_upstream() == upstream,
            p.spec_filter() == filter,
            p.spec_allowed() == Seq::<Seq<u8>>::empty(),
            p.spec_socket_path() == Seq::<char>::empty(),
            p.spec_connections() == 0,
            p.spec_verbosity() == 0,
    {
        let p = Proxy {
            upstream,
            filter,
            allowed_keys: Vec::new(),
            socket_path: String::new(),
            connection_counter: 0,
            verbosity: 0,
        };
        assert(p.spec_allowed() =~= Seq::<Seq<u8>>::empty());
        p
    }

    /// Sets the socket path used in logs.
    pub fn with_socket_path(self, path: &str) -> (p: Proxy)
        ensures
            p.spec_socket_path() == path@,
            p.spec_upstream() == self.spec_upstream(),
            p.spec_filter() == self.spec_filter(),
            p.spec_allowed() == self.spec_allowed(),
            p.spec_connections() == self.spec_connections(),
            p.spec_verbosity() == self.spec_verbosity(),
    {
        Proxy { socket_path: path.to_string(), ..self }
    }

    /// Sets the verbosity of agent message logging.
    pub fn with_verbosity(self, verbosity: i8) -> (p: Proxy)
        ensures
            p.spec_verbosity() == verbosity,
            p.spec_socket_path() == self.spec_socket_path(),
            p.spec_upstream() == self.spec_upstream(),
            p.spec_filter() == self.spec_filter(),
            p.spec_allowed() == self.spec_allowed(),
            p.spec_connections() == self.spec_connections(),
    {
        Proxy { verbosity, ..self }
    }

    /// The upstream agent.
    pub fn upstream(&self) -> (u: &Upstream)
        ensures
            *u == self.spec_upstream(),
    {
        &self.upstream
    }

    /// The filter.
    pub fn filter(&self) -> (f: &FilterGroups)
        ensures
            *f == self.spec_filter(),
    {
        &self.filter
    }

    /// The socket path used in logs.
    pub fn socket_path(&self) -> (s: &str)
        ensures
            s@ == self.spec_socket_path(),
    {
        self.socket_path.as_str()
    }

    /// The verbosity of agent message logging.
    pub fn verbosity(&self) -> (v: i8)
        ensures
            v == self.spec_verbosity(),
    {
        self.verbosity
    }

    /// Counts a new client connection and returns its id, `conn-N` with N
    /// the number of connections counted before it.
    pub fn next_client_id(&mut self) -> (id: String)
        ensures
            id@ == "conn-"@ + crate::text::decimal(old(self).spec_connections() as nat),
            final(self).spec_connections() == old(self).spec_connections().wrapping_add(1),
            final(self).spec_filter() == old(self).spec_filter(),
            final(self).spec_allowed() == old(self).spec_allowed(),
            final(self).spec_socket_path() == old(self).spec_socket_path(),
            final(self).spec_upstream() == old(self).spec_upstream(),
            final(self).spec_verbosity() == old(self).spec_verbosity(),
    {
        let n = self.connection_counter;
        self.connection_counter = n.wrapping_add(1);
        let mut id = "conn-".to_string();
        crate::text::push_decimal(&mut id, n);
        id
    }

    /// Whether a key may sign: the last identities answer listed it.
    pub fn key_allowed(&self, key_blob: &[u8]) -> (b: bool)
        ensures
            b == blob_in(self.spec_allowed(), key_blob@),
    {
        let r = crate::filter::pubkey::blob_listed(&self.allowed_keys, key_blob);
        proof {
            if r {
                let i = choose|i: int| 0 <= i < self.allowed_keys@.len() && #[trigger] self.allowed_keys@[i]@
                    == key_blob@;
                assert(self.spec_allowed()[i] == key_blob@);
            } else {
                assert forall|i: int| 0 <= i < self.spec_allowed().len() implies self.spec_allowed()[i]
                    != key_blob@ by {
                    assert(self.spec_allowed()[i] == self.allowed_keys@[i]@);
                }
            }
        }
        r
    }

    /// Decides what to do with a client's request: a sign request whose
    /// key the last identities answer did not list, or that names no key,
    /// is answered with SSH_AGENT_FAILURE; everything else goes upstream.
    pub fn plan_request(&self, request: &AgentMessage) -> (r: RequestPlan)
        ensures
            r is Forward <==> spec_request_forwarded(
                self.spec_allowed(),
                request.msg_type,
                request.payload@,
            ),
            r matches RequestPlan::Reply(m) ==> m.msg_type == MessageType::Failure && m.payload@
                == Seq::<u8>::empty(),
    {
        match request.msg_type {
            MessageType::SignRequest => {
                match request.parse_sign_request_key() {
                    Ok(blob) => {
                        if self.key_allowed(blob.as_slice()) {
                            RequestPlan::Forward
                        } else {
                            RequestPlan::Reply(AgentMessage::failure())
                        }
                    },
                    Err(_) => RequestPlan::Reply(AgentMessage::failure()),
                }
            },
            _ => RequestPlan::Forward,
        }
    }

    /// Turns the upstream agent's answer to a forwarded request into the
    /// answer for the client.
    ///
    /// For an identities request answered with an identities answer, the
    /// answer is filtered: it lists exactly the identities the filter
    /// accepts, in upstream order, and those become the keys that may sign.
    /// An answer that cannot be read becomes SSH_AGENT_FAILURE. Every other
    /// answer passes through unchanged.
    pub fn finish_request(&mut self, request_type: MessageType, response: AgentMessage) -> (r: AgentMessage)
        ensures
            final(self).spec_filter() == old(self).spec_filter(),
            final(self).spec_socket_path() == old(self).spec_socket_path(),
            final(self).spec_upstream() == old(self).spec_upstream(),
            final(self).spec_connections() == old(self).spec_connections(),
            final(self).spec_verbosity() == old(self).spec_verbosity(),
            request_type == MessageType::RequestIdentities && response.msg_type == MessageType::IdentitiesAnswer
                ==> match parse_identities_payload(response.payload@) {
                    Some(ids) => {
                        &&& r.msg_type == MessageType::IdentitiesAnswer
                        &&& r.payload@ == encode_identities_payload(old(self).spec_filter().spec_accepted(ids))
                        &&& final(self).spec_allowed() == blobs_of(old(self).spec_filter().spec_accepted(ids))
                    },
                    None => {
                        &&& r.msg_type == MessageType::Failure
                        &&& r.payload@ == Seq::<u8>::empty()
                        &&& final(self).spec_allowed() == old(self).spec_allowed()
                    },
                },
            !(request_type == MessageType::RequestIdentities && response.msg_type == MessageType::IdentitiesAnswer)
                ==> r.msg_type == response.msg_type && r.payload@ == response.payload@
                && final(self).spec_allowed() == old(self).spec_allowed(),
    {
        if request_type != MessageType::RequestIdentities || response.msg_type != MessageType::IdentitiesAnswer {
            return response;
        }
        let identities = match response.parse_identities() {
            Ok(ids) => ids,
            Err(_) => return AgentMessage::failure(),
        };
        proof {
            crate::protocol::message::lemma_parsed_identities_fit(response.payload@);
        }
        let ghost ids = identities_view(identities@);
        let filtered = self.filter.filter_identities(identities);
        let ghost accepted = self.filter.spec_accepted(ids);
        proof {
            broadcast use vstd::seq_lib::group_filter_ensures;
            assert forall|i: int| 0 <= i < filtered@.len() implies crate::protocol::message::identity_fits(
                #[trigger] filtered@[i]@,
            ) by {
                assert(accepted[i] == filtered@[i]@);
                assert(accepted.contains(accepted[i]));
                ids.lemma_filter_contains_rev(
                    |id: SpecIdentity| self.filter.spec_matches(id),
                    accepted[i],
                );
                let k = choose|k: int| 0 <= k < ids.len() && ids[k] == accepted[i];
                assert(crate::protocol::message::identity_fits(ids[k]));
            }
        }
        let mut allowed: Vec<Vec<u8>> = Vec::new();
        let mut i: usize = 0;
        while i < filtered.len()
            invariant
                i <= filtered@.len(),
                allowed@.len() == i,
                forall|j: int| 0 <= j < i ==> #[trigger] allowed@[j]@ == filtered@[j].key_blob@,
            decreases filtered@.len() - i,
        {
            allowed.push(filtered[i].key_blob.clone());
            i = i + 1;
        }
        self.allowed_keys = allowed;
        assert(self.spec_allowed() =~= blobs_of(accepted));
        AgentMessage::build_identities_answer(filtered.as_slice())
    }

    /// Whether [`Proxy::parse_message_content`] can summarize `msg`: every
    /// message but a sign request whose data length runs past the end of
    /// the payload.
    pub fn can_summarize(msg: &AgentMessage) -> (b: bool)
        ensures
            b <==> !(msg.msg_type == MessageType::SignRequest && sign_request_overruns(msg.payload@)),
    {
        if msg.msg_type != MessageType::SignRequest {
            return true;
        }
        let p = msg.payload.as_slice();
        if p.len() < 4 {
            return true;
        }
        let key_len = crate::protocol::wire::read_u32_be(p, 0) as usize;
        assert(p@.skip(0) =~= p@);
        if p.len() - 4 < key_len {
            return true;
        }
        let pos = 4 + key_len;
        if p.len() - pos < 4 {
            return true;
        }
        let data_len = crate::protocol::wire::read_u32_be(p, pos) as usize;
        !(data_len > p.len() - pos - 4)
    }

    /// The log summary of a message: its type, and for an identities
    /// answer its keys, for a sign request the key fingerprint, data length
    /// and flags, for a sign response the signature length.
    pub fn parse_message_content(msg: &AgentMessage) -> (c: AgentMsgContent)
        requires
            msg.msg_type == MessageType::SignRequest ==> !sign_request_overruns(msg.payload@),
        ensures
            content_describes(c, msg.msg_type, msg.payload@),
    {
        let base = AgentMsgContent::new(msg.msg_type.to_u8(), msg.msg_type.as_str());
        let p = msg.payload.as_slice();
        assert(p@.skip(0) =~= p@);
        match msg.msg_type {
            MessageType::IdentitiesAnswer => {
                match msg.parse_identities() {
                    Ok(ids) => {
                        let mut infos: Vec<IdentityInfo> = Vec::new();
                        let mut i: usize = 0;
                        while i < ids.len()
                            invariant
                                i <= ids@.len(),
                                infos@.len() == i,
                                forall|j: int| 0 <= j < i ==> info_describes(#[trigger] infos@[j], ids@[j]@),
                            decreases ids@.len() - i,
                        {
                            let id = &ids[i];
                            let fingerprint = match id.fingerprint() {
                                Some(f) => f,
                                None => String::new(),
                            };
                            let key_type = match id.key_type() {
                                Some(t) => t,
                                None => String::new(),
                            };
                            infos.push(IdentityInfo { fingerprint, comment: id.comment.clone(), key_type });
                            i = i + 1;
                        }
                        assert(identities_view(ids@).len() == ids@.len());
                        assert forall|j: int| 0 <= j < ids@.len() implies info_describes(
                            #[trigger] infos@[j],
                            identities_view(ids@)[j],
                        ) by {
                            assert(identities_view(ids@)[j] == ids@[j]@);
                        }
                        base.with_identities(infos)
                    },
                    Err(_) => base,
                }
            },
            MessageType::SignRequest => {
                if p.len() < 4 {
                    return base;
                }
                let key_len = crate::protocol::wire::read_u32_be(p, 0) as usize;
                if p.len() - 4 < key_len {
                    return base;
                }
                let blob_end = 4 + key_len;
                let blob = crate::protocol::wire::copy_range(p, 4, blob_end);
                let identity = Identity::new(blob, String::new());
                let fingerprint = match identity.fingerprint() {
                    Some(f) => f,
                    None => String::new(),
                };
                let ghost rest = p@.skip(blob_end as int);
                let mut pos = blob_end;
                let data_len: u32 = if p.len() - pos >= 4 {
                    let len = crate::protocol::wire::read_u32_be(p, pos);
                    assert(p@.skip(pos as int) =~= rest);
                    pos = pos + 4 + len as usize;
                    len
                } else {
                    0
                };
                let flags: u32 = if p.len() - pos >= 4 {
                    crate::protocol::wire::read_u32_be(p, pos)
                } else {
                    0
                };
                proof {
                    if rest.len() >= 4 {
                        assert(rest.skip(4 + data_len) =~= p@.skip(pos as int));
                    } else {
                        assert(rest =~= p@.skip(pos as int));
                    }
                }
                base.with_sign_request(fingerprint, data_len, flags)
            },
            MessageType::SignResponse => {
                if p.len() >= 4 {
                    base.with_sign_response(crate::protocol::wire::read_u32_be(p, 0))
                } else {
                    base
                }
            },
            _ => base,
        }
    }
}

/// Every key an identities answer from the proxy lists passes the filter.
pub proof fn lemma_listed_keys_pass_filter(f: FilterGroups, ids: Seq<SpecIdentity>, i: int)
    requires
        0 <= i < f.spec_accepted(ids).len(),
    ensures
        f.spec_matches(f.spec_accepted(ids)[i]),
{
    crate::filter::groups::lemma_groups_filter_sound_complete(f, ids);
}

/// After the proxy has filtered an identities answer, a sign request goes
/// upstream only for a key that the filtered answer listed, hence only
/// for a key that passed the filter.
pub proof fn lemma_only_listed_keys_sign(
    f: FilterGroups,
    ids: Seq<SpecIdentity>,
    payload: Seq<u8>,
)
    requires
        spec_request_forwarded(blobs_of(f.spec_accepted(ids)), MessageType::SignRequest, payload),
    ensures
        parse_sign_request_payload(payload) matches Some(blob) && exists|i: int|
            0 <= i < f.spec_accepted(ids).len() && (#[trigger] f.spec_accepted(ids)[i]).0 == blob
                && f.spec_matches(f.spec_accepted(ids)[i]),
{
    let blob = parse_sign_request_payload(payload).unwrap();
    let acc = f.spec_accepted(ids);
    let k = choose|k: int| 0 <= k < blobs_of(acc).len() && blobs_of(acc)[k] == blob;
    assert(acc[k].0 == blob);
    lemma_listed_keys_pass_filter(f, ids, k);
}

/// Requests other than sign requests always go upstream, whatever keys
/// were listed.
pub proof fn lemma_non_sign_requests_forwarded(allowed: Seq<Seq<u8>>, t: MessageType, payload: Seq<u8>)
    requires
        t != MessageType::SignRequest,
    ensures
        spec_request_forwarded(allowed, t, payload),
{
}

/// Before any identities answer, no sign request goes upstream.
pub proof fn lemma_fresh_proxy_signs_nothing(payload: Seq<u8>)
    ensures
        !spec_request_forwarded(Seq::empty(), MessageType::SignRequest, payload),
{
}

} // verus!
