use chrono::TimeZone;
use reforge::automerge::UpdateType;
use reforge::config::ScheduleWindow;
use reforge::config::Weekday;
use reforge::manager::Dependency;
use reforge::manager::RegistrySource;
use reforge::manager::UpdateContext;
use reforge::orchestrator::UpdateCandidate;
use reforge::registry::parse_version_lenient;
use reforge::registry::VersionInfo;
use reforge::scheduling::is_within_schedule_window;
use reforge::scheduling::is_within_window_at;
use reforge::scheduling::sort_candidates_by_priority;
use reforge::scheduling::sort_candidates_by_priority_with_security;
use reforge::scheduling::PriorityOrder;
use reforge::scheduling::RateLimiter;

// ── RateLimiter ─────────────────────────────────────────────────────────

#[test]
fn rate_limiter_no_limit() {
    let rl = RateLimiter::new(None, 100);
    assert!(rl.can_create_mr());
    assert_eq!(rl.remaining_slots(), usize::MAX);
}

#[test]
fn rate_limiter_under_limit() {
    let rl = RateLimiter::new(Some(5), 3);
    assert!(rl.can_create_mr());
    assert_eq!(rl.remaining_slots(), 2);
}

#[test]
fn rate_limiter_at_limit() {
    let rl = RateLimiter::new(Some(5), 5);
    assert!(!rl.can_create_mr());
    assert_eq!(rl.remaining_slots(), 0);
}

#[test]
fn rate_limiter_over_limit() {
    let rl = RateLimiter::new(Some(5), 7);
    assert!(!rl.can_create_mr());
    assert_eq!(rl.remaining_slots(), 0);
}

#[test]
fn rate_limiter_zero_limit() {
    let rl = RateLimiter::new(Some(0), 0);
    assert!(!rl.can_create_mr());
    assert_eq!(rl.remaining_slots(), 0);
}

// ── PriorityOrder ────────────────────────────────────────────────────────

#[test]
fn priority_ordering() {
    assert!(PriorityOrder::Security < PriorityOrder::Major);
    assert!(PriorityOrder::Major < PriorityOrder::Minor);
    assert!(PriorityOrder::Minor < PriorityOrder::Patch);
    assert!(PriorityOrder::Patch < PriorityOrder::Unknown);
}

#[test]
fn priority_from_update_type_major() {
    assert_eq!(
        PriorityOrder::from_update_type(Some(&UpdateType::Major)),
        PriorityOrder::Major
    );
}

#[test]
fn priority_from_update_type_minor() {
    assert_eq!(
        PriorityOrder::from_update_type(Some(&UpdateType::Minor)),
        PriorityOrder::Minor
    );
}

#[test]
fn priority_from_update_type_patch() {
    assert_eq!(
        PriorityOrder::from_update_type(Some(&UpdateType::Patch)),
        PriorityOrder::Patch
    );
}

#[test]
fn priority_from_update_type_none() {
    assert_eq!(
        PriorityOrder::from_update_type(None),
        PriorityOrder::Unknown
    );
}

// ── is_within_schedule_window ────────────────────────────────────────────

fn utc(year: i32, month: u32, day: u32, hour: u32) -> i64 {
    chrono::Utc.with_ymd_and_hms(year, month, day, hour, 0, 0).unwrap().timestamp()
}

#[test]
fn schedule_no_restrictions() {
    let window = ScheduleWindow { days: vec![], hours_start: None, hours_end: None };
    // Any time should pass
    assert!(is_within_schedule_window(utc(2026, 4, 6, 3), &window));
}

#[test]
fn schedule_allowed_day() {
    // 2026-04-06 is a Monday
    let window = ScheduleWindow {
        days: vec![Weekday::Monday, Weekday::Wednesday],
        hours_start: None,
        hours_end: None,
    };
    assert!(is_within_schedule_window(utc(2026, 4, 6, 10), &window));
}

#[test]
fn schedule_disallowed_day() {
    // 2026-04-07 is a Tuesday
    let window = ScheduleWindow {
        days: vec![Weekday::Monday, Weekday::Wednesday],
        hours_start: None,
        hours_end: None,
    };
    assert!(!is_within_schedule_window(utc(2026, 4, 7, 10), &window));
}

#[test]
fn schedule_within_hours() {
    let window = ScheduleWindow {
        days: vec![],
        hours_start: Some(9),
        hours_end: Some(17),
    };
    assert!(is_within_schedule_window(utc(2026, 4, 6, 9), &window));
    assert!(is_within_schedule_window(utc(2026, 4, 6, 16), &window));
}

#[test]
fn schedule_before_hours_start() {
    let window = ScheduleWindow {
        days: vec![],
        hours_start: Some(9),
        hours_end: Some(17),
    };
    assert!(!is_within_schedule_window(utc(2026, 4, 6, 8), &window));
}

#[test]
fn schedule_at_or_after_hours_end() {
    let window = ScheduleWindow {
        days: vec![],
        hours_start: Some(9),
        hours_end: Some(17),
    };
    assert!(!is_within_schedule_window(utc(2026, 4, 6, 17), &window));
    assert!(!is_within_schedule_window(utc(2026, 4, 6, 20), &window));
}

#[test]
fn schedule_day_and_hours_combined() {
    // 2026-04-06 is Monday
    let window = ScheduleWindow {
        days: vec![Weekday::Monday],
        hours_start: Some(9),
        hours_end: Some(17),
    };
    assert!(is_within_schedule_window(utc(2026, 4, 6, 12), &window));
    // Correct day but wrong hour
    assert!(!is_within_schedule_window(utc(2026, 4, 6, 8), &window));
    // Correct hour but wrong day (Tuesday)
    assert!(!is_within_schedule_window(utc(2026, 4, 7, 12), &window));
}

fn cand(name: &str, current: &str, new_ver: &str) -> UpdateCandidate {
    UpdateCandidate {
        dependency: Dependency {
            name: name.to_string(),
            current_version: current.to_string(),
            registry: RegistrySource::DockerRegistry { image: name.to_string(), registry: None },
            file_path: "Dockerfile".to_string(),
            update_context: UpdateContext::DockerFrom { line_number: 0, full_reference: String::new() },
        },
        new_version: VersionInfo {
            version: parse_version_lenient(new_ver).unwrap(),
            original_tag: new_ver.to_string(),
        },
        file_content: String::new(),
    }
}

#[test]
fn sort_by_priority_is_stable() {
    let mut v = vec![
        cand("a", "1.0.0", "1.0.1"),
        cand("b", "1.0.0", "2.0.0"),
        cand("c", "1.0.0", "1.1.0"),
        cand("d", "1.0.0", "3.0.0"),
        cand("e", "latest", "1.0.0"),
    ];
    sort_candidates_by_priority(&mut v);
    let names: Vec<&str> = v.iter().map(|c| c.dependency.name.as_str()).collect();
    assert_eq!(names, vec!["b", "d", "c", "a", "e"]);
}

#[test]
fn security_dependencies_come_first() {
    let mut v = vec![cand("a", "1.0.0", "2.0.0"), cand("b", "1.0.0", "1.0.1")];
    sort_candidates_by_priority_with_security(&mut v, &vec!["b".to_string()]);
    assert_eq!(v[0].dependency.name, "b");
    assert_eq!(PriorityOrder::from_candidate(&v[0], &vec!["b".to_string()]), PriorityOrder::Security);
}

#[test]
fn window_at_weekday_and_hour() {
    let window = ScheduleWindow { days: vec![Weekday::Sunday], hours_start: Some(22), hours_end: None };
    assert!(is_within_window_at(7, 23, &window));
    assert!(!is_within_window_at(7, 21, &window));
    assert!(!is_within_window_at(1, 23, &window));
}

#[test]
fn priority_sort_keeps_every_candidate() {
    let mut v = vec![cand("a", "1.0.0", "1.0.1"), cand("b", "1.0.0", "2.0.0"), cand("a", "1.0.0", "1.0.1")];
    sort_candidates_by_priority(&mut v);
    let mut names: Vec<&str> = v.iter().map(|c| c.dependency.name.as_str()).collect();
    names.sort();
    assert_eq!(names, vec!["a", "a", "b"]);
}

#[test]
fn schedule_window_covers_calendar_range() {
    let open = ScheduleWindow { days: vec![], hours_start: None, hours_end: None };
    assert!(is_within_schedule_window(8_210_266_876_799, &open));
    assert!(!is_within_schedule_window(8_210_266_876_800, &open));
    assert!(is_within_schedule_window(-8_334_601_228_800, &open));
    assert!(!is_within_schedule_window(-8_334_601_228_801, &open));
    assert!(!is_within_schedule_window(i64::MAX, &open));
    let late = ScheduleWindow { days: vec![], hours_start: Some(23), hours_end: None };
    assert!(is_within_schedule_window(8_210_266_876_799, &late));
}
