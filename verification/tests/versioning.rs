use reforge::registry::parse_version_lenient;
use reforge::registry::SemVer;
use reforge::registry::VersionInfo;
use reforge::versioning::PinStrategy;
use reforge::versioning::VersionPolicy;

fn v(tag: &str) -> SemVer {
    parse_version_lenient(tag).unwrap()
}

fn vi(tag: &str) -> VersionInfo {
    VersionInfo { version: v(tag), original_tag: tag.to_string() }
}

#[test]
fn test_semver_minor_picks_latest_minor() {
    let policy = VersionPolicy::new(PinStrategy::SemverMinor);
    let current = v("1.25.0");
    let available = vec![vi("1.25.1"), vi("1.26.0"), vi("1.24.0"), vi("2.0.0")];
    let best = policy.best_update(&current, &available).unwrap();
    assert_eq!(best.version, v("1.26.0"));
}

#[test]
fn test_semver_patch_stays_in_minor() {
    let policy = VersionPolicy::new(PinStrategy::SemverPatch);
    let current = v("1.25.0");
    let available = vec![vi("1.25.1"), vi("1.25.2"), vi("1.26.0")];
    let best = policy.best_update(&current, &available).unwrap();
    assert_eq!(best.version, v("1.25.2"));
}

#[test]
fn test_semver_major_picks_highest() {
    let policy = VersionPolicy::new(PinStrategy::SemverMajor);
    let current = v("1.25.0");
    let available = vec![vi("1.26.0"), vi("2.0.0"), vi("3.1.0")];
    let best = policy.best_update(&current, &available).unwrap();
    assert_eq!(best.version, v("3.1.0"));
}

#[test]
fn test_already_up_to_date() {
    let policy = VersionPolicy::new(PinStrategy::SemverMinor);
    let current = v("1.26.0");
    let available = vec![vi("1.25.0"), vi("1.25.1"), vi("1.26.0")];
    assert!(policy.best_update(&current, &available).is_none());
}

#[test]
fn test_skips_prereleases() {
    let policy = VersionPolicy::new(PinStrategy::SemverMinor);
    let current = v("1.25.0");
    let available_with_pre = vec![vi("1.26.0-beta.1"), vi("1.25.1")];
    assert_eq!(available_with_pre[0].version.pre, "beta.1");
    let best = policy.best_update(&current, &available_with_pre).unwrap();
    assert_eq!(best.version, v("1.25.1"));
    assert_eq!(best.original_tag, "1.25.1");
}

#[test]
fn pin_strategy_from_str_defaults_to_minor() {
    assert_eq!(PinStrategy::from_str("semver-patch"), PinStrategy::SemverPatch);
    assert_eq!(PinStrategy::from_str("semver-major"), PinStrategy::SemverMajor);
    assert_eq!(PinStrategy::from_str("semver-minor"), PinStrategy::SemverMinor);
    assert_eq!(PinStrategy::from_str("bogus"), PinStrategy::SemverMinor);
}

#[test]
fn lenient_parsing_pads_short_versions() {
    assert_eq!(v("v1.2.3"), v("1.2.3"));
    let seven = v("7");
    assert_eq!((seven.major, seven.minor, seven.patch), (7, 0, 0));
    let short = v("1.25");
    assert_eq!((short.major, short.minor, short.patch), (1, 25, 0));
    assert!(parse_version_lenient("latest").is_none());
    assert!(parse_version_lenient("1.2.3.4").is_none());
}

#[test]
fn release_of_prerelease_is_an_update() {
    let policy = VersionPolicy::new(PinStrategy::SemverMinor);
    let current = v("1.25.0-rc.1");
    let available = vec![vi("1.25.0")];
    let best = policy.best_update(&current, &available).unwrap();
    assert_eq!(best.original_tag, "1.25.0");
}

#[test]
fn best_update_takes_first_of_equal_maxima() {
    let policy = VersionPolicy::new(PinStrategy::SemverMajor);
    let current = v("1.0.0");
    let available = vec![vi("1.1.0"), vi("v1.2.0"), vi("1.2.0"), vi("1.2.0+a"), vi("1.2.0+b")];
    let best = policy.best_update(&current, &available).unwrap();
    assert_eq!(best.original_tag, "1.2.0+b");
    let ties = vec![vi("1.1.0"), vi("v1.2.0"), vi("1.2.0")];
    assert_eq!(policy.best_update(&current, &ties).unwrap().original_tag, "v1.2.0");
}
