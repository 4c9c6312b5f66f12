use authsock_filter::agent::proxy::{Proxy, RequestPlan};
use authsock_filter::agent::Upstream;
use authsock_filter::filter::evaluator::FilterEvaluator;
use authsock_filter::filter::groups::FilterGroups;
use authsock_filter::protocol::codec::AgentCodec;
use authsock_filter::protocol::fingerprint::{md5_fingerprint, sha256_fingerprint};
use authsock_filter::protocol::message::{AgentMessage, Identity, MessageType};
use base64::Engine;

const KEY_1: &str = "AAAAC3NzaC1lZDI1NTE5AAAAIOMqqnkVzrm0SdG6UOoqKLsabgH5C9okWi0dh2l9GKJl";
const KEY_2: &str = "AAAAC3NzaC1lZDI1NTE5AAAAIHUu2eEV0kRvK3dMRlSFwHxVoNxCfwjKmAZBlhkNjC4i";

fn blob(b64: &str) -> Vec<u8> {
    base64::engine::general_purpose::STANDARD.decode(b64).unwrap()
}

fn ssh_string(out: &mut Vec<u8>, b: &[u8]) {
    out.extend_from_slice(&(b.len() as u32).to_be_bytes());
    out.extend_from_slice(b);
}

fn identities_payload(keys: &[(Vec<u8>, &str)]) -> Vec<u8> {
    let mut p = Vec::new();
    p.extend_from_slice(&(keys.len() as u32).to_be_bytes());
    for (b, c) in keys {
        ssh_string(&mut p, b);
        ssh_string(&mut p, c.as_bytes());
    }
    p
}

fn sign_request(key: &[u8]) -> AgentMessage {
    let mut p = Vec::new();
    ssh_string(&mut p, key);
    ssh_string(&mut p, b"data");
    p.extend_from_slice(&0u32.to_be_bytes());
    AgentMessage::new(MessageType::SignRequest, p)
}

#[test]
fn fingerprints_of_a_known_key() {
    let b = blob(KEY_1);
    assert_eq!(sha256_fingerprint(&b), "SHA256:+DiY3wvvV6TuJJhbpZisF/zLDA0zPMSvHdkr4UvCOqU");
    assert_eq!(md5_fingerprint(&b), "MD5:65:96:2d:fc:e8:d5:a9:11:64:0c:0f:ea:00:6e:5b:bd");
    let id = Identity::new(b, "user@work.example.com".to_string());
    assert_eq!(id.fingerprint(), Some("SHA256:+DiY3wvvV6TuJJhbpZisF/zLDA0zPMSvHdkr4UvCOqU".to_string()));
    assert_eq!(id.key_type(), Some("ssh-ed25519".to_string()));
}

#[test]
fn message_encode_decode_roundtrip() {
    let m = AgentMessage::new(MessageType::SignResponse, vec![1, 2, 3]);
    let framed = AgentCodec::encode(&m);
    assert_eq!(framed, vec![0, 0, 0, 4, 14, 1, 2, 3]);
    assert_eq!(AgentCodec::frame_length(&framed[..4]).unwrap(), 4);
    let back = AgentCodec::decode_body(&framed[4..]).unwrap();
    assert_eq!(back.msg_type, MessageType::SignResponse);
    assert_eq!(back.payload, vec![1, 2, 3]);
    assert!(AgentCodec::frame_length(&[0, 0, 0, 0]).is_err());
    assert!(AgentCodec::frame_length(&[1, 0, 0, 1]).is_err());
    assert!(AgentMessage::decode(&[]).is_err());
    assert_eq!(MessageType::from_u8(200), MessageType::Unknown(200));
    assert_eq!(MessageType::from_u8(11).to_u8(), 11);
}

#[test]
fn identities_answer_roundtrip() {
    let ids = vec![Identity::new(blob(KEY_1), "a".to_string()), Identity::new(blob(KEY_2), "b".to_string())];
    let answer = AgentMessage::build_identities_answer(&ids);
    assert_eq!(answer.msg_type, MessageType::IdentitiesAnswer);
    let parsed = answer.parse_identities().unwrap();
    assert_eq!(parsed.len(), 2);
    assert_eq!(parsed[1].comment, "b");
    assert_eq!(parsed[0].key_blob, blob(KEY_1));
    let bad = AgentMessage::new(MessageType::IdentitiesAnswer, vec![0, 0, 0, 1, 0]);
    assert!(bad.parse_identities().is_err());
}

#[test]
fn proxy_filters_identities_and_guards_signing() {
    let filter = FilterEvaluator::parse(&["comment=*@work*".to_string()]).unwrap();
    let mut proxy = Proxy::new(Upstream::new("/tmp/upstream.sock"), filter);
    // Before any listing, no sign request goes upstream.
    assert!(matches!(proxy.plan_request(&sign_request(&blob(KEY_1))), RequestPlan::Reply(_)));
    let upstream_answer = AgentMessage::new(
        MessageType::IdentitiesAnswer,
        identities_payload(&[(blob(KEY_1), "user@work.example.com"), (blob(KEY_2), "user@personal.example.com")]),
    );
    let answer = proxy.finish_request(MessageType::RequestIdentities, upstream_answer);
    let listed = answer.parse_identities().unwrap();
    assert_eq!(listed.len(), 1);
    assert_eq!(listed[0].comment, "user@work.example.com");
    assert!(proxy.key_allowed(&blob(KEY_1)));
    assert!(!proxy.key_allowed(&blob(KEY_2)));
    assert!(matches!(proxy.plan_request(&sign_request(&blob(KEY_1))), RequestPlan::Forward));
    match proxy.plan_request(&sign_request(&blob(KEY_2))) {
        RequestPlan::Reply(m) => {
            assert_eq!(m.msg_type, MessageType::Failure);
            assert!(m.payload.is_empty());
        }
        RequestPlan::Forward => panic!("a key that was not listed must not sign"),
    }
    let other = AgentMessage::new(MessageType::Lock, vec![]);
    assert!(matches!(proxy.plan_request(&other), RequestPlan::Forward));
}

#[test]
fn proxy_client_ids_count_up() {
    let mut proxy = Proxy::new(Upstream::new("/tmp/u.sock"), FilterEvaluator::default()).with_socket_path("/tmp/p.sock");
    assert_eq!(proxy.socket_path(), "/tmp/p.sock");
    let a = proxy.next_client_id();
    let b = proxy.next_client_id();
    assert_ne!(a, b);
    assert!(a.starts_with("conn-"));
}

#[test]
fn proxy_with_alternative_groups_lists_keys_of_either_group() {
    let groups = vec![
        vec!["comment=*@work*".to_string(), "type=ed25519".to_string()],
        vec!["comment=*@personal*".to_string()],
    ];
    let filter = FilterGroups::parse(&groups).unwrap();
    let mut proxy = Proxy::new_shared(Upstream::new("/tmp/upstream.sock"), filter);
    let upstream_answer = AgentMessage::new(
        MessageType::IdentitiesAnswer,
        identities_payload(&[
            (blob(KEY_1), "user@work.example.com"),
            (blob(KEY_2), "user@personal.example.com"),
            (blob(KEY_1), "user@home.example.com"),
        ]),
    );
    let answer = proxy.finish_request(MessageType::RequestIdentities, upstream_answer);
    let listed = answer.parse_identities().unwrap();
    assert_eq!(listed.len(), 2);
    assert_eq!(listed[0].comment, "user@work.example.com");
    assert_eq!(listed[1].comment, "user@personal.example.com");
    assert_eq!(proxy.filter().len(), 2);
}
