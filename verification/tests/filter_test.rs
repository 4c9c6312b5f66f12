use authsock_filter::error::Error;
use authsock_filter::filter::comment::CommentMatcher;
use authsock_filter::filter::evaluator::{FilterEvaluator, LoadRequest};
use authsock_filter::filter::github::GitHubKeysMatcher;
use authsock_filter::filter::groups::FilterGroups;
use authsock_filter::filter::rule::{Filter, FilterRule};
use authsock_filter::protocol::message::Identity;
use base64::Engine;

const ED25519_KEY_1: &str = "ssh-ed25519 AAAAC3NzaC1lZDI1NTE5AAAAIOMqqnkVzrm0SdG6UOoqKLsabgH5C9okWi0dh2l9GKJl user@work.example.com";
const ED25519_KEY_2: &str = "ssh-ed25519 AAAAC3NzaC1lZDI1NTE5AAAAIHUu2eEV0kRvK3dMRlSFwHxVoNxCfwjKmAZBlhkNjC4i user@personal.example.com";
const ED25519_KEY_3: &str = "ssh-ed25519 AAAAC3NzaC1lZDI1NTE5AAAAIKwfZn/9xXqbDtEzpAEZEoEBllBkLR+NpVHhMxCmyC9L dev@work.example.com";

fn make_identity(comment: &str) -> Identity {
    Identity::new(Vec::new(), comment.to_string())
}

fn make_identity_from_str(key_str: &str) -> Identity {
    let mut fields = key_str.split_whitespace();
    let _kind = fields.next().unwrap();
    let blob = base64::engine::general_purpose::STANDARD.decode(fields.next().unwrap()).unwrap();
    let comment = fields.next().unwrap_or("").to_string();
    Identity::new(blob, comment)
}

fn load_keyfiles(evaluator: &mut FilterEvaluator, contents: &str) {
    let requests = evaluator.pending_loads(0, false);
    for r in requests {
        if let LoadRequest::Keyfile { index, .. } = r {
            evaluator.apply_keyfile(index, contents);
        }
    }
}

#[test]
fn test_exact_match() {
    let matcher = CommentMatcher::new("user@host").unwrap();
    assert!(matcher.matches(&make_identity("user@host")));
    assert!(!matcher.matches(&make_identity("other@host")));
}

#[test]
fn test_glob_match() {
    let matcher = CommentMatcher::new("*@work.example.com").unwrap();
    assert!(matcher.matches(&make_identity("user@work.example.com")));
    assert!(!matcher.matches(&make_identity("user@home.example.com")));
}

#[test]
fn test_regex_match() {
    let matcher = CommentMatcher::new("~@work\\.example\\.com$").unwrap();
    assert!(matcher.matches(&make_identity("user@work.example.com")));
    assert!(!matcher.matches(&make_identity("user@work.example.com.evil")));
}

#[test]
fn test_invalid_regex() {
    let result = CommentMatcher::new("~[invalid");
    assert!(result.is_err());
}

#[test]
fn test_empty_evaluator() {
    let evaluator = FilterEvaluator::default();
    assert!(evaluator.is_empty());
    assert!(evaluator.matches(&make_identity("any")));
}

#[test]
fn test_single_rule() {
    let evaluator = FilterEvaluator::parse(&["comment=test".to_string()]).unwrap();
    assert!(evaluator.matches(&make_identity("test")));
    assert!(!evaluator.matches(&make_identity("other")));
}

#[test]
fn test_multiple_rules_and() {
    let evaluator =
        FilterEvaluator::parse(&["comment=*@work*".to_string(), "not-comment=*@work.bad*".to_string()]).unwrap();
    assert!(evaluator.matches(&make_identity("user@work.good")));
    assert!(!evaluator.matches(&make_identity("user@work.bad")));
    assert!(!evaluator.matches(&make_identity("user@home")));
}

#[test]
fn test_filter_identities() {
    let evaluator = FilterEvaluator::parse(&["comment=*@work*".to_string()]).unwrap();
    let identities = vec![make_identity("user@work"), make_identity("user@home"), make_identity("admin@work")];
    let filtered = evaluator.filter_identities(identities);
    assert_eq!(filtered.len(), 2);
    assert_eq!(filtered[0].comment, "user@work");
    assert_eq!(filtered[1].comment, "admin@work");
}

#[test]
fn test_new() {
    let matcher = GitHubKeysMatcher::new("kawaz");
    assert_eq!(matcher.username(), "kawaz");
    assert!(!matcher.is_cache_valid(0));
}

#[test]
fn test_with_cache_ttl() {
    let matcher = GitHubKeysMatcher::with_cache_ttl("kawaz", 60);
    assert_eq!(matcher.username(), "kawaz");
    assert_eq!(matcher.cache_ttl(), 60);
}

#[test]
fn test_parse_fingerprint() {
    let rule = FilterRule::parse("SHA256:abc123").unwrap();
    assert!(!rule.negated);
    assert!(matches!(rule.filter, Filter::Fingerprint(_)));
}

#[test]
fn test_parse_explicit_fingerprint() {
    let rule = FilterRule::parse("fingerprint:SHA256:abc123").unwrap();
    assert!(!rule.negated);
    assert!(matches!(rule.filter, Filter::Fingerprint(_)));
}

#[test]
fn test_parse_negated() {
    let rule = FilterRule::parse("-type:dsa").unwrap();
    assert!(rule.negated);
    assert!(matches!(rule.filter, Filter::KeyType(_)));
}

#[test]
fn test_parse_comment() {
    let rule = FilterRule::parse("comment:~@work").unwrap();
    assert!(!rule.negated);
    assert!(matches!(rule.filter, Filter::Comment(_)));
}

#[test]
fn test_parse_github() {
    let rule = FilterRule::parse("github:kawaz").unwrap();
    assert!(!rule.negated);
    assert!(matches!(rule.filter, Filter::GitHub(_)));
}

#[test]
fn test_parse_pubkey_auto() {
    let rule = FilterRule::parse(
        "ssh-ed25519 AAAAC3NzaC1lZDI1NTE5AAAAIOMqqnkVzrm0SdG6UOoqKLsabgH5C9okWi0dh2l9GKJl test",
    )
    .unwrap();
    assert!(!rule.negated);
    assert!(matches!(rule.filter, Filter::Pubkey(_)));
}

#[test]
fn test_filter_by_key_type_ed25519() {
    let ed25519_key = make_identity_from_str(ED25519_KEY_1);
    let evaluator = FilterEvaluator::parse(&["type:ed25519".to_string()]).unwrap();
    assert!(evaluator.matches(&ed25519_key), "ed25519 key should match");
}

#[test]
fn test_filter_exclude_key_type() {
    let ed25519_key = make_identity_from_str(ED25519_KEY_1);
    let evaluator = FilterEvaluator::parse(&["-type:ed25519".to_string()]).unwrap();
    assert!(!evaluator.matches(&ed25519_key), "ed25519 key should be excluded");
}

#[test]
fn test_filter_by_comment_glob() {
    let work_key = make_identity_from_str(ED25519_KEY_1);
    let personal_key = make_identity_from_str(ED25519_KEY_2);
    let evaluator = FilterEvaluator::parse(&["comment:*@work*".to_string()]).unwrap();
    assert!(evaluator.matches(&work_key), "work key should match");
    assert!(!evaluator.matches(&personal_key), "personal key should not match");
}

#[test]
fn test_filter_by_comment_regex() {
    let work_key = make_identity_from_str(ED25519_KEY_1);
    let personal_key = make_identity_from_str(ED25519_KEY_2);
    let evaluator = FilterEvaluator::parse(&["comment:~@work\\.".to_string()]).unwrap();
    assert!(evaluator.matches(&work_key), "work key should match regex");
    assert!(!evaluator.matches(&personal_key), "personal key should not match regex");
}

#[test]
fn test_filter_exclude_comment() {
    let work_key = make_identity_from_str(ED25519_KEY_1);
    let personal_key = make_identity_from_str(ED25519_KEY_2);
    let evaluator = FilterEvaluator::parse(&["-comment:*@work*".to_string()]).unwrap();
    assert!(!evaluator.matches(&work_key), "work key should be excluded");
    assert!(evaluator.matches(&personal_key), "personal key should match");
}

#[test]
fn test_filter_multiple_rules_and() {
    let ed25519_work = make_identity_from_str(ED25519_KEY_1);
    let ed25519_personal = make_identity_from_str(ED25519_KEY_2);
    let evaluator =
        FilterEvaluator::parse(&["type:ed25519".to_string(), "comment:*@work*".to_string()]).unwrap();
    assert!(evaluator.matches(&ed25519_work), "ed25519 work key should match both rules");
    assert!(
        !evaluator.matches(&ed25519_personal),
        "ed25519 personal key should not match (wrong comment)"
    );
}

#[test]
fn test_filter_fingerprint() {
    let identity = make_identity_from_str(ED25519_KEY_1);
    let fingerprint = identity.fingerprint().unwrap();
    let fingerprint_str = format!("fingerprint:{}", fingerprint);
    let evaluator = FilterEvaluator::parse(&[fingerprint_str]).unwrap();
    assert!(evaluator.matches(&identity), "key should match its own fingerprint");
    let other_identity = make_identity_from_str(ED25519_KEY_2);
    assert!(!evaluator.matches(&other_identity), "different key should not match fingerprint");
}

#[test]
fn test_filter_fingerprint_auto_detect() {
    let identity = make_identity_from_str(ED25519_KEY_1);
    let fingerprint = identity.fingerprint().unwrap();
    let fingerprint_str = fingerprint.to_string();
    let evaluator = FilterEvaluator::parse(&[fingerprint_str]).unwrap();
    assert!(evaluator.matches(&identity), "key should match auto-detected fingerprint");
}

#[test]
fn test_filter_keyfile() {
    let contents = format!("{}\n", ED25519_KEY_1);
    let matching_identity = make_identity_from_str(ED25519_KEY_1);
    let other_identity = make_identity_from_str(ED25519_KEY_2);
    let filter_str = format!("keyfile:{}", "/tmp/authorized_keys");
    let mut evaluator = FilterEvaluator::parse(&[filter_str]).unwrap();
    load_keyfiles(&mut evaluator, &contents);
    assert!(evaluator.matches(&matching_identity), "key in keyfile should match");
    assert!(!evaluator.matches(&other_identity), "key not in keyfile should not match");
}

#[test]
fn test_filter_pubkey_auto_detect() {
    let identity = make_identity_from_str(ED25519_KEY_1);
    let pubkey_str = ED25519_KEY_1.split_whitespace().take(2).collect::<Vec<_>>().join(" ");
    let evaluator = FilterEvaluator::parse(&[pubkey_str]).unwrap();
    assert!(evaluator.matches(&identity), "key should match auto-detected pubkey");
    let other_identity = make_identity_from_str(ED25519_KEY_2);
    assert!(!evaluator.matches(&other_identity), "different key should not match pubkey");
}

#[test]
fn test_filter_pubkey_explicit() {
    let identity = make_identity_from_str(ED25519_KEY_1);
    let pubkey_str = ED25519_KEY_1.split_whitespace().take(2).collect::<Vec<_>>().join(" ");
    let filter_str = format!("pubkey:{}", pubkey_str);
    let evaluator = FilterEvaluator::parse(&[filter_str]).unwrap();
    assert!(evaluator.matches(&identity), "key should match explicit pubkey");
}

#[test]
fn test_filter_identities_list() {
    let keys = vec![
        make_identity_from_str(ED25519_KEY_1),
        make_identity_from_str(ED25519_KEY_2),
        make_identity_from_str(ED25519_KEY_3),
    ];
    let evaluator =
        FilterEvaluator::parse(&["type:ed25519".to_string(), "comment:*@work*".to_string()]).unwrap();
    let filtered = evaluator.filter_identities(keys);
    assert_eq!(filtered.len(), 2, "should have 2 work ed25519 keys");
    assert!(filtered.iter().all(|k| k.comment.contains("@work")));
}

#[test]
fn test_filter_empty_allows_all() {
    let keys = vec![make_identity_from_str(ED25519_KEY_1), make_identity_from_str(ED25519_KEY_2)];
    let evaluator = FilterEvaluator::default();
    let filtered = evaluator.filter_identities(keys.clone());
    assert_eq!(filtered.len(), 2, "empty filter should allow all keys");
}

#[test]
fn test_complex_filter_scenario() {
    let work_ed25519 = make_identity_from_str(ED25519_KEY_1);
    let personal_ed25519 = make_identity_from_str(ED25519_KEY_2);
    let work_ed25519_2 = make_identity_from_str(ED25519_KEY_3);
    let evaluator =
        FilterEvaluator::parse(&["type:ed25519".to_string(), "comment:*@work*".to_string()]).unwrap();
    assert!(evaluator.matches(&work_ed25519));
    assert!(!evaluator.matches(&personal_ed25519));
    assert!(evaluator.matches(&work_ed25519_2));
}

#[test]
fn test_filter_multiple_negations() {
    let work_key = make_identity_from_str(ED25519_KEY_1);
    let personal_key = make_identity_from_str(ED25519_KEY_2);
    let evaluator =
        FilterEvaluator::parse(&["-comment:*@work*".to_string(), "-comment:*@personal*".to_string()]).unwrap();
    assert!(!evaluator.matches(&work_key), "work key should be excluded");
    assert!(!evaluator.matches(&personal_key), "personal key should be excluded");
}

#[test]
fn test_filter_comment_exact_match() {
    let key = make_identity_from_str(ED25519_KEY_1);
    let evaluator = FilterEvaluator::parse(&["comment:user@work.example.com".to_string()]).unwrap();
    assert!(evaluator.matches(&key), "should match exact comment");
    let evaluator2 = FilterEvaluator::parse(&["comment:other@work.example.com".to_string()]).unwrap();
    assert!(!evaluator2.matches(&key), "should not match different comment");
}

#[test]
fn test_filter_key_type_variations() {
    let key = make_identity_from_str(ED25519_KEY_1);
    let evaluator1 = FilterEvaluator::parse(&["type:ed25519".to_string()]).unwrap();
    assert!(evaluator1.matches(&key));
    let evaluator2 = FilterEvaluator::parse(&["type:rsa".to_string()]).unwrap();
    assert!(!evaluator2.matches(&key));
    let evaluator3 = FilterEvaluator::parse(&["type:ecdsa".to_string()]).unwrap();
    assert!(!evaluator3.matches(&key));
}

#[test]
fn negated_rule_complements_the_plain_one() {
    let work_key = make_identity_from_str(ED25519_KEY_1);
    let personal_key = make_identity_from_str(ED25519_KEY_2);
    for key in [&work_key, &personal_key] {
        let plain = FilterRule::parse("comment=*@work*").unwrap();
        let negated = FilterRule::parse("not-comment=*@work*").unwrap();
        assert_eq!(plain.matches(key), !negated.matches(key));
    }
}

#[test]
fn unknown_filter_kind_is_an_error() {
    assert!(FilterRule::parse("colour=red").is_err());
    assert!(FilterEvaluator::parse(&["type=ed25519".to_string(), "bogus".to_string()]).is_err());
}

#[test]
fn github_keys_load_and_expire() {
    let identity = make_identity_from_str(ED25519_KEY_1);
    let mut matcher = GitHubKeysMatcher::with_cache_ttl("kawaz", 60);
    assert!(!matcher.matches(&identity));
    let line = ED25519_KEY_1.split_whitespace().take(2).collect::<Vec<_>>().join(" ");
    matcher.load_keys(&format!("{}\n", line), 1000);
    assert_eq!(matcher.key_count(), 1);
    assert!(matcher.matches(&identity));
    assert!(matcher.is_cache_valid(1059));
    assert!(!matcher.is_cache_valid(1060));
    assert_eq!(matcher.keys_url(), "https://github.com/kawaz.keys");
}

#[test]
fn groups_without_groups_pass_everything() {
    let groups = FilterGroups::parse(&[]).unwrap();
    assert!(groups.is_empty());
    assert!(groups.matches(&make_identity("anything")));
    assert!(FilterGroups::default().matches(&make_identity("")));
}

#[test]
fn groups_are_ored_and_rules_within_a_group_are_anded() {
    let groups = FilterGroups::parse(&[
        vec!["comment=*@work*".to_string(), "not-comment=*@work.bad*".to_string()],
        vec!["comment=admin@*".to_string()],
    ])
    .unwrap();
    assert_eq!(groups.len(), 2);
    assert!(groups.matches(&make_identity("user@work.good")));
    assert!(!groups.matches(&make_identity("user@work.bad")));
    assert!(groups.matches(&make_identity("admin@work.bad")));
    assert!(!groups.matches(&make_identity("user@home")));
    let filtered = groups.filter_identities(vec![
        make_identity("user@home"),
        make_identity("admin@home"),
        make_identity("user@work.good"),
    ]);
    assert_eq!(filtered.len(), 2);
    assert_eq!(filtered[0].comment, "admin@home");
    assert_eq!(filtered[1].comment, "user@work.good");
}

#[test]
fn groups_parse_fails_on_any_bad_rule() {
    let result = FilterGroups::parse(&[vec!["comment=ok".to_string()], vec!["bogus=1".to_string()]]);
    assert!(result.is_err());
}

#[test]
fn single_group_decides_as_its_evaluator() {
    let evaluator = FilterEvaluator::parse(&["comment=test".to_string()]).unwrap();
    let groups = FilterGroups::single(evaluator);
    assert_eq!(groups.len(), 1);
    assert!(groups.matches(&make_identity("test")));
    assert!(!groups.matches(&make_identity("other")));
}

#[test]
fn groups_load_keyfile_into_the_named_group() {
    let mut groups = FilterGroups::parse(&[
        vec!["comment=nobody".to_string()],
        vec!["keyfile=/nonexistent/keys".to_string()],
    ])
    .unwrap();
    let id = make_identity_from_str(ED25519_KEY_1);
    assert!(!groups.matches(&id));
    let requests = groups.groups()[1].pending_loads(0, false);
    assert_eq!(requests.len(), 1);
    for r in requests {
        if let LoadRequest::Keyfile { index, .. } = r {
            groups.apply_keyfile(1, index, ED25519_KEY_1);
        }
    }
    assert!(groups.matches(&id));
    assert!(!groups.matches(&make_identity_from_str(ED25519_KEY_2)));
}

fn filter_error(result: Result<FilterRule, Error>) -> String {
    match result {
        Err(Error::Filter(m)) => m,
        other => panic!("expected a filter error, got {:?}", other.map(|r| r.description())),
    }
}

#[test]
fn rule_parse_error_messages() {
    assert_eq!(filter_error(FilterRule::parse("bogus=1")), "Unknown filter format: bogus=1");
    assert_eq!(filter_error(FilterRule::parse("not-bogus")), "Unknown filter format: bogus");
    assert_eq!(filter_error(FilterRule::parse("-ssh-ed25519 !!!")), "Unknown filter format: ssh-ed25519 !!!");
    assert_eq!(
        filter_error(FilterRule::parse("fingerprint:abc")),
        "Fingerprint must start with SHA256: or MD5:"
    );
    assert_eq!(filter_error(FilterRule::parse("pubkey=ssh-ed25519")), "Invalid public key");
    let regex_error = filter_error(FilterRule::parse("comment=~[bad"));
    assert!(regex_error.starts_with("Invalid regex pattern '[bad': "), "{}", regex_error);
    assert!(regex_error.len() > "Invalid regex pattern '[bad': ".len());
    let glob_error = filter_error(FilterRule::parse("comment=a[*"));
    assert!(glob_error.starts_with("Invalid glob pattern 'a[*': "), "{}", glob_error);
}

#[test]
fn evaluator_reports_the_first_bad_rule() {
    let err = FilterEvaluator::parse(&["comment=ok".to_string(), "nope".to_string(), "fingerprint:x".to_string()])
        .unwrap_err();
    assert!(matches!(err, Error::Filter(ref m) if m == "Unknown filter format: nope"));
    let err = FilterGroups::parse(&[vec!["type=rsa".to_string()], vec!["comment=x".to_string(), "fingerprint:x".to_string()]])
        .unwrap_err();
    assert!(matches!(err, Error::Filter(ref m) if m == "Fingerprint must start with SHA256: or MD5:"));
}

#[test]
fn deeply_nested_glob_is_refused_not_a_panic() {
    let mut pattern = String::from("*");
    for _ in 0..300 {
        pattern.push_str("{a,");
    }
    pattern.push('a');
    for _ in 0..300 {
        pattern.push('}');
    }
    match CommentMatcher::new(&pattern) {
        Err(Error::Filter(m)) => assert!(m.starts_with("Invalid glob pattern '"), "{}", m),
        Err(other) => panic!("unexpected error {:?}", other),
        Ok(_) => panic!("a glob nested this deep cannot be compiled"),
    }
}
