use authsock_filter::agent::proxy::{Proxy, RequestPlan};
use authsock_filter::agent::Upstream;
use authsock_filter::filter::evaluator::FilterEvaluator;
use authsock_filter::protocol::message::{AgentMessage, Identity, MessageType};
use base64::Engine;

const ED25519_KEY_WORK: &str = "ssh-ed25519 AAAAC3NzaC1lZDI1NTE5AAAAIOMqqnkVzrm0SdG6UOoqKLsabgH5C9okWi0dh2l9GKJl user@work.example.com";
const ED25519_KEY_PERSONAL: &str = "ssh-ed25519 AAAAC3NzaC1lZDI1NTE5AAAAIHUu2eEV0kRvK3dMRlSFwHxVoNxCfwjKmAZBlhkNjC4i user@personal.example.com";
const ED25519_KEY_DEV: &str = "ssh-ed25519 AAAAC3NzaC1lZDI1NTE5AAAAIKwfZn/9xXqbDtEzpAEZEoEBllBkLR+NpVHhMxCmyC9L dev@work.example.com";

fn make_identity(key_str: &str) -> Identity {
    let mut fields = key_str.split_whitespace();
    let _kind = fields.next().unwrap();
    let blob = base64::engine::general_purpose::STANDARD.decode(fields.next().unwrap()).unwrap();
    let comment = fields.next().unwrap_or("").to_string();
    Identity::new(blob, comment)
}

/// What a client of the proxy is shown when the upstream agent holds
/// `identities`.
fn request_identities(filter: FilterEvaluator, identities: &[Identity]) -> Vec<Identity> {
    let mut proxy = Proxy::new(Upstream::new("/tmp/upstream.sock"), filter);
    let request = AgentMessage::new(MessageType::RequestIdentities, Vec::new());
    assert!(matches!(proxy.plan_request(&request), RequestPlan::Forward));
    let upstream_answer = AgentMessage::build_identities_answer(identities);
    let answer = proxy.finish_request(request.msg_type, upstream_answer);
    assert_eq!(answer.msg_type, MessageType::IdentitiesAnswer);
    answer.parse_identities().unwrap()
}

fn three_keys() -> Vec<Identity> {
    vec![make_identity(ED25519_KEY_WORK), make_identity(ED25519_KEY_PERSONAL), make_identity(ED25519_KEY_DEV)]
}

#[test]
fn test_proxy_filters_by_comment() {
    let filter = FilterEvaluator::parse(&["comment=*@work*".to_string()]).unwrap();
    let filtered_identities = request_identities(filter, &three_keys());
    assert_eq!(filtered_identities.len(), 2, "should have 2 work keys");
    assert!(filtered_identities.iter().all(|i| i.comment.contains("@work")));
}

#[test]
fn test_proxy_filters_by_negation() {
    let filter = FilterEvaluator::parse(&["not-comment=*@work*".to_string()]).unwrap();
    let filtered_identities = request_identities(filter, &three_keys());
    assert_eq!(filtered_identities.len(), 1, "should have 1 non-work key");
    assert_eq!(filtered_identities[0].comment, "user@personal.example.com");
}

#[test]
fn test_proxy_filters_empty_allows_all() {
    let filter = FilterEvaluator::parse(&[]).unwrap();
    let filtered_identities = request_identities(filter, &three_keys());
    assert_eq!(filtered_identities.len(), 3, "should have all 3 keys");
}

#[test]
fn test_proxy_filters_multiple_rules() {
    let filter = FilterEvaluator::parse(&["comment=*@work*".to_string(), "not-comment=dev@*".to_string()]).unwrap();
    let filtered_identities = request_identities(filter, &three_keys());
    assert_eq!(filtered_identities.len(), 1, "should have 1 key");
    assert_eq!(filtered_identities[0].comment, "user@work.example.com");
}

#[test]
fn test_proxy_filters_by_fingerprint() {
    let work_identity = make_identity(ED25519_KEY_WORK);
    let fingerprint = work_identity.fingerprint().unwrap();
    let filter = FilterEvaluator::parse(&[fingerprint]).unwrap();
    let filtered_identities = request_identities(filter, &three_keys());
    assert_eq!(filtered_identities.len(), 1, "should have 1 key");
    assert_eq!(filtered_identities[0].comment, "user@work.example.com");
}

#[test]
fn test_proxy_filters_by_key_type() {
    let identities = vec![make_identity(ED25519_KEY_WORK), make_identity(ED25519_KEY_PERSONAL)];
    let filter = FilterEvaluator::parse(&["type=ed25519".to_string()]).unwrap();
    let filtered_identities = request_identities(filter, &identities);
    assert_eq!(filtered_identities.len(), 2, "should have 2 ed25519 keys");
}

#[test]
fn test_proxy_excludes_by_key_type() {
    let identities = vec![make_identity(ED25519_KEY_WORK), make_identity(ED25519_KEY_PERSONAL)];
    let filter = FilterEvaluator::parse(&["not-type=ed25519".to_string()]).unwrap();
    let filtered_identities = request_identities(filter, &identities);
    assert_eq!(filtered_identities.len(), 0, "should have 0 keys (all excluded)");
}

#[test]
fn test_allowed_keys_cache() {
    let mut proxy = Proxy::new(Upstream::new("/tmp/test.sock"), FilterEvaluator::default());
    let work = make_identity(ED25519_KEY_WORK);
    // Initially empty
    assert!(!proxy.key_allowed(&work.key_blob));
    // An identities answer lists the key
    let answer = AgentMessage::build_identities_answer(&[work.clone()]);
    proxy.finish_request(MessageType::RequestIdentities, answer);
    assert!(proxy.key_allowed(&work.key_blob));
    // A later answer replaces the listed keys
    let personal = make_identity(ED25519_KEY_PERSONAL);
    let answer = AgentMessage::build_identities_answer(&[personal.clone()]);
    proxy.finish_request(MessageType::RequestIdentities, answer);
    assert!(!proxy.key_allowed(&work.key_blob));
    assert!(proxy.key_allowed(&personal.key_blob));
}

#[test]
fn unreadable_identities_answer_becomes_failure() {
    let mut proxy = Proxy::new(Upstream::new("/tmp/test.sock"), FilterEvaluator::default());
    let broken = AgentMessage::new(MessageType::IdentitiesAnswer, vec![0, 0, 0, 2, 0]);
    let answer = proxy.finish_request(MessageType::RequestIdentities, broken);
    assert_eq!(answer.msg_type, MessageType::Failure);
    assert!(answer.payload.is_empty());
    let other = AgentMessage::new(MessageType::Success, vec![7]);
    let passed = proxy.finish_request(MessageType::Lock, other);
    assert_eq!(passed.msg_type, MessageType::Success);
    assert_eq!(passed.payload, vec![7]);
}

#[test]
fn sign_requests_that_overrun_cannot_be_summarized() {
    // key blob of 1 byte, then a data length of 10 with only 2 bytes after it
    let overrun = AgentMessage::new(MessageType::SignRequest, vec![0, 0, 0, 1, 9, 0, 0, 0, 10, 1, 2]);
    assert!(!Proxy::can_summarize(&overrun));
    let fits = AgentMessage::new(MessageType::SignRequest, vec![0, 0, 0, 1, 9, 0, 0, 0, 2, 1, 2]);
    assert!(Proxy::can_summarize(&fits));
    let summary = Proxy::parse_message_content(&fits);
    assert_eq!(summary.msg_type, 13);
    let short = AgentMessage::new(MessageType::SignRequest, vec![0, 0]);
    assert!(Proxy::can_summarize(&short));
    let other = AgentMessage::new(MessageType::Success, vec![0, 0, 0, 1, 9, 0, 0, 0, 10]);
    assert!(Proxy::can_summarize(&other));
}
