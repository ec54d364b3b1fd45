use reforge::automerge::AutomergeEvaluator;
use reforge::automerge::UpdateType;
use reforge::config::AutomergePolicy;
use reforge::config::UpdateTypeFilter;
use reforge::util::glob_match;

fn pattern_matches(pattern: &str, name: &str) -> bool {
    glob_match(pattern, name)
}

fn make_policy(
    pattern: &str,
    update_types: Vec<UpdateTypeFilter>,
    enabled: bool,
    minimum_age_days: Option<u32>,
) -> AutomergePolicy {
    AutomergePolicy {
        match_pattern: pattern.to_string(),
        update_types,
        enabled,
        minimum_age_days,
    }
}

#[test]
fn classify_patch() {
    assert_eq!(UpdateType::classify("1.2.3", "1.2.4"), Some(UpdateType::Patch));
}

#[test]
fn classify_minor() {
    assert_eq!(UpdateType::classify("1.2.3", "1.3.0"), Some(UpdateType::Minor));
}

#[test]
fn classify_major() {
    assert_eq!(UpdateType::classify("1.2.3", "2.0.0"), Some(UpdateType::Major));
}

#[test]
fn classify_with_v_prefix() {
    assert_eq!(UpdateType::classify("v1.2.3", "v1.2.9"), Some(UpdateType::Patch));
    assert_eq!(UpdateType::classify("v1.2.3", "v2.0.0"), Some(UpdateType::Major));
}

#[test]
fn classify_unparseable_returns_none() {
    assert_eq!(UpdateType::classify("latest", "1.2.3"), None);
    assert_eq!(UpdateType::classify("1.2.3", "nightly"), None);
}

#[test]
fn classify_same_version_is_patch() {
    assert_eq!(UpdateType::classify("1.2.3", "1.2.3"), Some(UpdateType::Patch));
    assert_eq!(UpdateType::classify("2.0.0", "1.9.9"), Some(UpdateType::Major));
}

#[test]
fn pattern_exact_match() {
    assert!(pattern_matches("nginx", "nginx"));
    assert!(!pattern_matches("nginx", "redis"));
}

#[test]
fn pattern_wildcard_all() {
    assert!(pattern_matches("*", "anything"));
    assert!(pattern_matches("**", "anything/nested"));
}

#[test]
fn pattern_prefix_glob() {
    assert!(pattern_matches("nginx*", "nginx"));
    assert!(pattern_matches("nginx*", "nginx-proxy"));
    assert!(!pattern_matches("nginx*", "redis"));
}

#[test]
fn pattern_glob_with_slash() {
    assert!(pattern_matches("myorg/**", "myorg/nginx"));
    assert!(pattern_matches("myorg/**", "myorg/team/nginx"));
    assert!(!pattern_matches("myorg/**", "other/nginx"));
}

#[test]
fn automerge_patch_only_policy() {
    let policies = vec![make_policy("nginx", vec![UpdateTypeFilter::Patch], true, None)];
    let eval = AutomergeEvaluator::new(&policies);
    assert!(eval.should_automerge("nginx", &UpdateType::Patch, None));
    assert!(!eval.should_automerge("nginx", &UpdateType::Minor, None));
    assert!(!eval.should_automerge("nginx", &UpdateType::Major, None));
}

#[test]
fn automerge_any_update_type_when_list_empty() {
    let policies = vec![make_policy("nginx", vec![], true, None)];
    let eval = AutomergeEvaluator::new(&policies);
    assert!(eval.should_automerge("nginx", &UpdateType::Patch, None));
    assert!(eval.should_automerge("nginx", &UpdateType::Minor, None));
    assert!(eval.should_automerge("nginx", &UpdateType::Major, None));
}

#[test]
fn automerge_disabled_policy() {
    let policies = vec![make_policy("nginx", vec![], false, None)];
    let eval = AutomergeEvaluator::new(&policies);
    assert!(!eval.should_automerge("nginx", &UpdateType::Patch, None));
}

#[test]
fn automerge_no_matching_policy() {
    let policies = vec![make_policy("redis", vec![], true, None)];
    let eval = AutomergeEvaluator::new(&policies);
    assert!(!eval.should_automerge("nginx", &UpdateType::Patch, None));
}

#[test]
fn automerge_minimum_age_not_met() {
    let policies = vec![make_policy("nginx", vec![], true, Some(3))];
    let eval = AutomergeEvaluator::new(&policies);
    let created_at = chrono::Utc::now().timestamp() - 86_400;
    assert!(!eval.should_automerge("nginx", &UpdateType::Patch, Some(created_at)));
}

#[test]
fn automerge_minimum_age_met() {
    let policies = vec![make_policy("nginx", vec![], true, Some(3))];
    let eval = AutomergeEvaluator::new(&policies);
    let created_at = chrono::Utc::now().timestamp() - 5 * 86_400;
    assert!(eval.should_automerge("nginx", &UpdateType::Patch, Some(created_at)));
}

#[test]
fn automerge_first_matching_policy_wins() {
    let policies = vec![
        make_policy("nginx", vec![UpdateTypeFilter::Patch], true, None),
        make_policy("nginx", vec![], false, None),
    ];
    let eval = AutomergeEvaluator::new(&policies);
    assert!(eval.should_automerge("nginx", &UpdateType::Patch, None));
    assert!(!eval.should_automerge("nginx", &UpdateType::Minor, None));
}

#[test]
fn automerge_wildcard_policy() {
    let policies = vec![make_policy("*", vec![UpdateTypeFilter::Patch], true, None)];
    let eval = AutomergeEvaluator::new(&policies);
    assert!(eval.should_automerge("nginx", &UpdateType::Patch, None));
    assert!(eval.should_automerge("redis", &UpdateType::Patch, None));
    assert!(!eval.should_automerge("nginx", &UpdateType::Major, None));
}

#[test]
fn automerge_age_at_fixed_clock() {
    let policies = vec![make_policy("nginx", vec![], true, Some(3))];
    let eval = AutomergeEvaluator::new(&policies);
    let now: i64 = 1_700_000_000;
    assert!(eval.should_automerge_at("nginx", &UpdateType::Patch, Some(now - 3 * 86_400), now));
    assert!(!eval.should_automerge_at("nginx", &UpdateType::Patch, Some(now - 3 * 86_400 + 1), now));
    assert!(eval.should_automerge_at("nginx", &UpdateType::Patch, None, now));
}
