use reforge::changelog::extract_changelog_range;
use reforge::changelog::extract_github_owner_repo;
use reforge::changelog::github_raw_changelog_url;
use reforge::changelog::parse_github_url;
use reforge::changelog::release_notes_between;
use reforge::changelog::render_changelog_section;
use reforge::changelog::truncate_changelog;
use reforge::changelog::version_in_range;

fn is_version_in_range(version: &str, from: &str, to: &str) -> bool {
    version_in_range(version, from, to)
}

#[test]
fn test_truncate_changelog_short() {
    let text = "short text";
    assert_eq!(truncate_changelog(text, 2000), text);
}

#[test]
fn test_truncate_changelog_long() {
    let text = "a".repeat(3000);
    let result = truncate_changelog(&text, 2000);
    assert!(result.ends_with("... (truncated)"));
    assert!(result.len() < 3000);
}

#[test]
fn test_truncate_changelog_prefers_newline_boundary() {
    let text = format!("{}\n{}", "a".repeat(1990), "b".repeat(100));
    let result = truncate_changelog(&text, 2000);
    assert!(result.ends_with("... (truncated)"));
    assert!(!result.contains('b'));
}

#[test]
fn truncate_changelog_exact_cut() {
    let text = "a".repeat(30);
    assert_eq!(truncate_changelog(&text, 10), format!("{}\n\n... (truncated)", "a".repeat(10)));
    let lines = "abc\ndefghij";
    assert_eq!(truncate_changelog(lines, 6), "abc\n\n... (truncated)");
}

#[test]
fn test_render_changelog_section() {
    let notes = "### 1.2.0\n\nFixed a bug.";
    let rendered = render_changelog_section(notes);
    assert!(rendered.contains("<details>"));
    assert!(rendered.contains("</details>"));
    assert!(rendered.contains("Release Notes"));
    assert!(rendered.contains(notes));
}

#[test]
fn test_extract_changelog_range_basic() {
    let changelog = "\
## 2.0.0
Breaking change.

## 1.2.0
New feature.

## 1.1.0
Bug fix.

## 1.0.0
Initial release.
";
    let result = extract_changelog_range(changelog, "1.1.0", "1.2.0");
    assert!(result.is_some());
    let text = result.unwrap();
    assert!(text.contains("1.2.0"));
    assert!(!text.contains("2.0.0"));
    assert!(!text.contains("1.1.0"));
}

#[test]
fn test_extract_changelog_range_v_prefix() {
    let changelog = "\
## v1.3.0
Improvement.

## v1.2.0
Fix.

## v1.1.0
Old.
";
    let result = extract_changelog_range(changelog, "v1.1.0", "v1.3.0");
    assert!(result.is_some());
    let text = result.unwrap();
    assert!(text.contains("v1.3.0"));
    assert!(text.contains("v1.2.0"));
    assert!(!text.contains("v1.1.0"));
}

#[test]
fn test_extract_changelog_range_no_match() {
    let changelog = "\
## 1.0.0
Initial release.
";
    let result = extract_changelog_range(changelog, "2.0.0", "3.0.0");
    assert!(result.is_none());
}

#[test]
fn test_parse_github_url() {
    let pair = parse_github_url("https://github.com/helm/helm");
    assert_eq!(pair, Some(("helm".to_string(), "helm".to_string())));
    let pair2 = parse_github_url("https://github.com/org/repo.git");
    assert_eq!(pair2, Some(("org".to_string(), "repo".to_string())));
    let pair3 = parse_github_url("https://example.com/owner/repo");
    assert_eq!(pair3, None);
}

#[test]
fn test_extract_github_owner_repo_from_dep_name() {
    let pair = extract_github_owner_repo("helm/helm", None);
    assert_eq!(pair, Some(("helm".to_string(), "helm".to_string())));
}

#[test]
fn test_extract_github_owner_repo_from_registry_source() {
    let pair = extract_github_owner_repo("helm", Some("https://github.com/helm/helm"));
    assert_eq!(pair, Some(("helm".to_string(), "helm".to_string())));
}

#[test]
fn extract_github_owner_repo_none_for_plain_name() {
    assert_eq!(extract_github_owner_repo("nginx", None), None);
    assert_eq!(extract_github_owner_repo("/repo", None), None);
}

#[test]
fn test_is_version_in_range() {
    assert!(is_version_in_range("1.2.0", "1.1.0", "1.2.0"));
    assert!(!is_version_in_range("1.1.0", "1.1.0", "1.2.0"));
    assert!(!is_version_in_range("1.3.0", "1.1.0", "1.2.0"));
}

#[test]
fn raw_changelog_url_for_github_repo() {
    assert_eq!(
        github_raw_changelog_url("https://github.com/helm/helm"),
        Some("https://github.com/helm/helm/raw/HEAD/CHANGELOG.md".to_string())
    );
    assert_eq!(github_raw_changelog_url("https://example.com/a/b"), None);
}

#[test]
fn release_notes_between_picks_range() {
    let releases = vec![
        ("v1.3.0".to_string(), Some("Three".to_string())),
        ("v1.2.0".to_string(), None),
        ("v1.1.0".to_string(), Some("One".to_string())),
    ];
    let notes = release_notes_between(&releases, "1.1.0", "1.3.0").unwrap();
    assert_eq!(notes, "### v1.3.0\n\nThree");
    assert!(release_notes_between(&releases, "2.0.0", "3.0.0").is_none());
}

#[test]
fn truncate_changelog_counts_characters() {
    assert_eq!(truncate_changelog("éé", 2), "éé");
    assert_eq!(truncate_changelog("ééé", 2), "éé\n\n... (truncated)");
}

#[test]
fn numbered_list_items_are_not_headings() {
    let changelog = "## 1.2.0\n1. Added X\n\n## 1.1.0\nOld.\n";
    assert_eq!(
        extract_changelog_range(changelog, "1.1.0", "1.2.0"),
        Some("## 1.2.0\n1. Added X\n".to_string())
    );
}
