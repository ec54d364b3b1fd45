//! When merge requests may be created: the open-MR rate limit, the priority
//! order of updates, and the schedule window.
use vstd::prelude::*;
use chrono::Datelike;
use chrono::Timelike;

use crate::automerge::classify_spec;
use crate::automerge::UpdateType;
use crate::config::iso_number_spec;
use crate::config::ScheduleWindow;
use crate::config::Weekday;
use crate::orchestrator::candidates_view;
use crate::orchestrator::UpdateCandidate;
use crate::orchestrator::UpdateCandidateView;
use crate::text::strings_view;

verus! {

/// Limits how many merge requests may be open at once.
pub struct RateLimiter {
    max_open_mrs: Option<usize>,
    current_open: usize,
}

impl RateLimiter {
    /// A limiter for `current_open` open merge requests under an optional maximum.
    pub fn new(max_open_mrs: Option<usize>, current_open: usize) -> (r: Self)
        ensures
            r.max_open() == max_open_mrs,
            r.current_open() == current_open,
    {
        RateLimiter { max_open_mrs, current_open }
    }

    pub closed spec fn max_open(&self) -> Option<usize> {
        self.max_open_mrs
    }

    pub closed spec fn current_open(&self) -> usize {
        self.current_open
    }

    /// Whether another merge request may be opened: always without a maximum,
    /// else while fewer than the maximum are open.
    pub fn can_create_mr(&self) -> (r: bool)
        ensures
            r == can_create_spec(self.max_open(), self.current_open()),
    {
        match self.max_open_mrs {
            None => true,
            Some(max) => self.current_open < max,
        }
    }

    /// How many more merge requests may be opened: unbounded (`usize::MAX`)
    /// without a maximum, else the maximum minus those open, never below zero.
    pub fn remaining_slots(&self) -> (r: usize)
        ensures
            r == remaining_spec(self.max_open(), self.current_open()),
    {
        match self.max_open_mrs {
            None => usize::MAX,
            Some(max) => max.saturating_sub(self.current_open),
        }
    }
}

/// Another merge request may be opened: always without a maximum, else while
/// fewer than the maximum are open.
pub open spec fn can_create_spec(max_open: Option<usize>, current: usize) -> bool {
    match max_open {
        None => true,
        Some(max) => current < max,
    }
}

/// The merge requests that may still be opened: `usize::MAX` without a maximum,
/// else the maximum minus those open, never below zero.
pub open spec fn remaining_spec(max_open: Option<usize>, current: usize) -> int {
    match max_open {
        None => usize::MAX as int,
        Some(max) => if max >= current { max - current } else { 0 },
    }
}

/// A merge request may be opened exactly when a slot remains.
pub proof fn lemma_can_create_iff_slot_left(max_open: Option<usize>, current: usize)
    ensures
        can_create_spec(max_open, current) <==> remaining_spec(max_open, current) > 0,
{
}

/// The order in which updates are proposed: security fixes first, then by size of bump.
#[derive(Debug, Clone, Copy, PartialEq, Eq, Structural, PartialOrd, Ord)]
pub enum PriorityOrder {
    Security,
    Major,
    Minor,
    Patch,
    Unknown,
}

/// The position of a priority in the order (0 comes first).
pub open spec fn priority_rank(p: PriorityOrder) -> int {
    match p {
        PriorityOrder::Security => 0,
        PriorityOrder::Major => 1,
        PriorityOrder::Minor => 2,
        PriorityOrder::Patch => 3,
        PriorityOrder::Unknown => 4,
    }
}

/// The priority of a bump; unknown when it could not be classified.
pub open spec fn priority_of_type(ut: Option<UpdateType>) -> PriorityOrder {
    match ut {
        Some(UpdateType::Major) => PriorityOrder::Major,
        Some(UpdateType::Minor) => PriorityOrder::Minor,
        Some(UpdateType::Patch) => PriorityOrder::Patch,
        None => PriorityOrder::Unknown,
    }
}

/// The priority of a candidate: security when its name is listed, else by its bump.
pub open spec fn priority_of_candidate(c: UpdateCandidateView, security: Seq<Seq<char>>) -> PriorityOrder {
    if security.contains(c.dependency.name) {
        PriorityOrder::Security
    } else {
        priority_of_type(classify_spec(c.dependency.current_version, c.new_version.original_tag))
    }
}

impl PriorityOrder {
    /// The priority of a bump kind (`Unknown` for `None`).
    pub fn from_update_type(ut: Option<&UpdateType>) -> (r: Self)
        ensures
            r == priority_of_type(match ut {
                Some(u) => Some(*u),
                None => None,
            }),
    {
        match ut {
            Some(UpdateType::Major) => PriorityOrder::Major,
            Some(UpdateType::Minor) => PriorityOrder::Minor,
            Some(UpdateType::Patch) => PriorityOrder::Patch,
            None => PriorityOrder::Unknown,
        }
    }

    /// The priority of a bump kind, as [`PriorityOrder::from_update_type`] gives it.
    pub fn from_update_type_pub(ut: Option<&UpdateType>) -> (r: Self)
        ensures
            r == priority_of_type(match ut {
                Some(u) => Some(*u),
                None => None,
            }),
    {
        Self::from_update_type(ut)
    }

    /// The priority of a candidate; `security_deps` lists the names of
    /// dependencies with known vulnerabilities.
    pub fn from_candidate(c: &UpdateCandidate, security_deps: &Vec<String>) -> (r: Self)
        ensures
            r == priority_of_candidate(c@, strings_view(security_deps@)),
    {
        if contains_name(security_deps, &c.dependency.name) {
            return PriorityOrder::Security;
        }
        let ut = UpdateType::classify(c.dependency.current_version.as_str(), c.new_version.original_tag.as_str());
        Self::from_update_type(ut.as_ref())
    }
}

fn contains_name(names: &Vec<String>, name: &String) -> (r: bool)
    ensures
        r == strings_view(names@).contains(name@),
{
    let ghost nv = strings_view(names@);
    let n = crate::text::chars_of(name.as_str());
    let mut i: usize = 0;
    while i < names.len()
        invariant
            i <= names@.len(),
            nv == strings_view(names@),
            n@ == name@,
            forall|j: int| 0 <= j < i ==> nv[j] != name@,
        decreases names@.len() - i,
    {
        assert(nv[i as int] == names@[i as int]@);
        if crate::text::chars_eq(&crate::text::chars_of(names[i].as_str()), &n) {
            assert(nv.contains(name@)) by {
                assert(nv[i as int] == name@);
            }
            return true;
        }
        i = i + 1;
    }
    false
}

/// `a` is proposed strictly before `b`.
pub open spec fn candidate_before(a: UpdateCandidateView, b: UpdateCandidateView, security: Seq<Seq<char>>) -> bool {
    priority_rank(priority_of_candidate(a, security)) < priority_rank(priority_of_candidate(b, security))
}

/// Inserts `x` after every element of `s` that is not proposed strictly after it.
pub open spec fn insert_candidate(s: Seq<UpdateCandidateView>, x: UpdateCandidateView, security: Seq<Seq<char>>) -> Seq<UpdateCandidateView>
    decreases s.len(),
{
    if s.len() > 0 && candidate_before(x, s.last(), security) {
        insert_candidate(s.drop_last(), x, security).push(s.last())
    } else {
        s.push(x)
    }
}

/// The candidates stably sorted by priority.
pub open spec fn sort_by_priority(s: Seq<UpdateCandidateView>, security: Seq<Seq<char>>) -> Seq<UpdateCandidateView>
    decreases s.len(),
{
    if s.len() == 0 {
        seq![]
    } else {
        insert_candidate(sort_by_priority(s.drop_last(), security), s.last(), security)
    }
}

pub open spec fn insert_candidate_pos(s: Seq<UpdateCandidateView>, x: UpdateCandidateView, security: Seq<Seq<char>>) -> int
    decreases s.len(),
{
    if s.len() > 0 && candidate_before(x, s.last(), security) {
        insert_candidate_pos(s.drop_last(), x, security)
    } else {
        s.len() as int
    }
}

proof fn lemma_insert_candidate_pos(s: Seq<UpdateCandidateView>, x: UpdateCandidateView, security: Seq<Seq<char>>)
    ensures
        0 <= insert_candidate_pos(s, x, security) <= s.len(),
        insert_candidate(s, x, security) == s.insert(insert_candidate_pos(s, x, security), x),
        forall|j: int| insert_candidate_pos(s, x, security) <= j < s.len() ==> candidate_before(x, #[trigger] s[j], security),
        insert_candidate_pos(s, x, security) > 0 ==> !candidate_before(x, s[insert_candidate_pos(s, x, security) - 1], security),
    decreases s.len(),
{
    if s.len() > 0 && candidate_before(x, s.last(), security) {
        lemma_insert_candidate_pos(s.drop_last(), x, security);
        let p = insert_candidate_pos(s.drop_last(), x, security);
        assert(s.drop_last().insert(p, x).push(s.last()) =~= s.insert(p, x));
        assert forall|j: int| p <= j < s.len() implies candidate_before(x, #[trigger] s[j], security) by {
            if j < s.len() - 1 {
                assert(s[j] == s.drop_last()[j]);
            }
        }
        if p > 0 {
            assert(s[p - 1] == s.drop_last()[p - 1]);
        }
    } else {
        assert(s.push(x) =~= s.insert(s.len() as int, x));
    }
}

fn priority_rank_of(p: PriorityOrder) -> (r: u8)
    ensures
        r == priority_rank(p),
{
    match p {
        PriorityOrder::Security => 0,
        PriorityOrder::Major => 1,
        PriorityOrder::Minor => 2,
        PriorityOrder::Patch => 3,
        PriorityOrder::Unknown => 4,
    }
}

/// Sorts candidates by priority (security, major, minor, patch, unknown),
/// keeping the existing order among equal priorities; no dependency is security-listed.
pub fn sort_candidates_by_priority(candidates: &mut Vec<UpdateCandidate>)
    ensures
        candidates_view(final(candidates)@) == sort_by_priority(candidates_view(old(candidates)@), seq![]),
{
    let none: Vec<String> = Vec::new();
    assert(strings_view(none@) =~= Seq::<Seq<char>>::empty());
    sort_candidates_by_priority_with_security(candidates, &none);
}

/// Sorts candidates by priority, those named in `security_deps` first, keeping
/// the existing order among equal priorities.
pub fn sort_candidates_by_priority_with_security(candidates: &mut Vec<UpdateCandidate>, security_deps: &Vec<String>)
    ensures
        candidates_view(final(candidates)@) == sort_by_priority(
            candidates_view(old(candidates)@),
            strings_view(security_deps@),
        ),
{
    let ghost sec = strings_view(security_deps@);
    let ghost input = candidates_view(candidates@);
    let mut out: Vec<UpdateCandidate> = Vec::new();
    let mut ranks: Vec<u8> = Vec::new();
    let mut i: usize = 0;
    while i < candidates.len()
        invariant
            i <= candidates@.len(),
            input == candidates_view(candidates@),
            sec == strings_view(security_deps@),
            candidates_view(out@) == sort_by_priority(input.take(i as int), sec),
            ranks@.len() == out@.len(),
            forall|j: int| 0 <= j < out@.len() ==> #[trigger] ranks@[j] == priority_rank(priority_of_candidate(out@[j]@, sec)),
        decreases candidates@.len() - i,
    {
        let c = candidates[i].duplicate();
        assert(c@ == input[i as int]);
        let rank = priority_rank_of(PriorityOrder::from_candidate(&c, security_deps));
        assert(input.take(i + 1).drop_last() =~= input.take(i as int));
        assert(input.take(i + 1).last() == input[i as int]);
        let ghost sorted = candidates_view(out@);
        proof {
            lemma_insert_candidate_pos(sorted, c@, sec);
        }
        let mut k: usize = out.len();
        while k > 0 && rank < ranks[k - 1]
            invariant
                k <= out@.len(),
                ranks@.len() == out@.len(),
                sorted == candidates_view(out@),
                rank == priority_rank(priority_of_candidate(c@, sec)),
                forall|j: int| 0 <= j < out@.len() ==> #[trigger] ranks@[j] == priority_rank(priority_of_candidate(out@[j]@, sec)),
                forall|j: int| k <= j < sorted.len() ==> candidate_before(c@, #[trigger] sorted[j], sec),
            decreases k,
        {
            assert(sorted[k - 1] == out@[k - 1]@);
            k = k - 1;
        }
        proof {
            let p = insert_candidate_pos(sorted, c@, sec);
            if k > 0 {
                assert(sorted[k - 1] == out@[k - 1]@);
            }
            if p < k {
                assert(candidate_before(c@, sorted[k - 1], sec));
            }
            if k < p {
                assert(candidate_before(c@, sorted[p - 1], sec));
            }
            assert(k == p);
        }
        out.insert(k, c);
        ranks.insert(k, rank);
        assert(candidates_view(out@) =~= sorted.insert(k as int, input[i as int]));
        i = i + 1;
    }
    assert(input.take(candidates@.len() as int) =~= input);
    *candidates = out;
}

/// Whether `weekday` (ISO number) at `hour` falls in the window: the day must be
/// listed when days are given, the hour at or after the start and before the end.
pub open spec fn in_window_spec(weekday: u32, hour: u32, days: Seq<Weekday>, start: Option<u32>, end: Option<u32>) -> bool {
    (days.len() == 0 || exists|i: int| 0 <= i < days.len() && iso_number_spec(#[trigger] days[i]) == weekday)
        && (start matches Some(s) ==> hour >= s) && (end matches Some(e) ==> hour < e)
}

/// ISO weekday (Monday = 1) of a Unix time in UTC.
pub open spec fn utc_weekday_spec(secs: i64) -> u32 {
    (((secs as int) / 86400 + 3) % 7 + 1) as u32
}

/// Hour of the day (0-23) of a Unix time in UTC.
pub open spec fn utc_hour_spec(secs: i64) -> u32 {
    (((secs as int) % 86400) / 3600) as u32
}

/// The first second that chrono represents: 1 January of year -262143, 00:00:00 UTC.
pub open spec fn chrono_min_secs() -> int {
    -8_334_601_228_800
}

/// The last second that chrono represents: 31 December of year 262142, 23:59:59 UTC.
pub open spec fn chrono_max_secs() -> int {
    8_210_266_876_799
}

/// The ISO weekday and hour of a Unix time in UTC.
/// Trusted: builds a `chrono::DateTime<Utc>` with `DateTime::from_timestamp` and
/// reads `weekday().number_from_monday()` and `hour()`; the contract claims the
/// calendar arithmetic for the result, and that `from_timestamp` succeeds exactly
/// for the seconds of chrono's dates (years -262143 to 262142, its `MIN_YEAR`
/// and `MAX_YEAR`).
#[verifier::external_body]
fn utc_weekday_hour(secs: i64) -> (r: Option<(u32, u32)>)
    ensures
        r matches Some((d, h)) ==> d == utc_weekday_spec(secs) && h == utc_hour_spec(secs),
        r is Some <==> chrono_min_secs() <= secs <= chrono_max_secs(),
{
    chrono::DateTime::from_timestamp(secs, 0).map(|t| (t.weekday().number_from_monday(), t.hour()))
}

/// Whether an ISO weekday and hour fall inside the schedule window.
pub fn is_within_window_at(weekday: u32, hour: u32, window: &ScheduleWindow) -> (r: bool)
    ensures
        r == in_window_spec(weekday, hour, window.days@, window.hours_start, window.hours_end),
{
    if window.days.len() > 0 {
        let mut allowed = false;
        let mut i: usize = 0;
        while i < window.days.len()
            invariant
                i <= window.days@.len(),
                allowed == exists|j: int| 0 <= j < i && iso_number_spec(#[trigger] window.days@[j]) == weekday,
            decreases window.days@.len() - i,
        {
            if window.days[i].iso_number() == weekday {
                allowed = true;
            }
            i = i + 1;
        }
        if !allowed {
            return false;
        }
    }
    if let Some(start) = window.hours_start {
        if hour < start {
            return false;
        }
    }
    if let Some(end) = window.hours_end {
        if hour >= end {
            return false;
        }
    }
    true
}

/// A window without days or hours admits every moment.
pub proof fn lemma_unrestricted_window(weekday: u32, hour: u32)
    ensures
        in_window_spec(weekday, hour, Seq::<Weekday>::empty(), None, None),
{
}

/// An insertion keeps a sequence ordered by priority when it was ordered.
proof fn lemma_insert_candidate_sorted(s: Seq<UpdateCandidateView>, x: UpdateCandidateView, sec: Seq<Seq<char>>)
    requires
        forall|i: int, j: int| 0 <= i < j < s.len() ==> !candidate_before(s[j], s[i], sec),
    ensures
        forall|i: int, j: int| 0 <= i < j < insert_candidate(s, x, sec).len() ==> !candidate_before(
            insert_candidate(s, x, sec)[j],
            insert_candidate(s, x, sec)[i],
            sec,
        ),
{
    lemma_insert_candidate_pos(s, x, sec);
    let p = insert_candidate_pos(s, x, sec);
    let t = s.insert(p, x);
    assert forall|i: int, j: int| 0 <= i < j < t.len() implies !candidate_before(t[j], t[i], sec) by {
        if i < p && j < p {
            assert(t[i] == s[i] && t[j] == s[j]);
        } else if i < p && j == p {
            assert(t[i] == s[i] && t[j] == x);
            assert(!candidate_before(x, s[p - 1], sec));
            if i < p - 1 {
                assert(!candidate_before(s[p - 1], s[i], sec));
            }
        } else if i < p && j > p {
            assert(t[i] == s[i] && t[j] == s[j - 1]);
        } else if i == p {
            assert(t[i] == x && t[j] == s[j - 1]);
            assert(candidate_before(x, s[j - 1], sec));
        } else {
            assert(t[i] == s[i - 1] && t[j] == s[j - 1]);
        }
    }
}

/// Sorting by priority orders the candidates: no candidate is proposed
/// strictly before one that precedes it.
pub proof fn lemma_sorted_by_priority(s: Seq<UpdateCandidateView>, sec: Seq<Seq<char>>)
    ensures
        forall|i: int, j: int| 0 <= i < j < sort_by_priority(s, sec).len() ==> !candidate_before(
            sort_by_priority(s, sec)[j],
            sort_by_priority(s, sec)[i],
            sec,
        ),
    decreases s.len(),
{
    if s.len() > 0 {
        lemma_sorted_by_priority(s.drop_last(), sec);
        lemma_insert_candidate_sorted(sort_by_priority(s.drop_last(), sec), s.last(), sec);
    }
}

/// Sorting by priority only reorders: every candidate is kept, as often as given.
pub proof fn lemma_priority_sort_keeps_candidates(s: Seq<UpdateCandidateView>, sec: Seq<Seq<char>>)
    ensures
        sort_by_priority(s, sec).to_multiset() == s.to_multiset(),
    decreases s.len(),
{
    broadcast use vstd::seq_lib::group_to_multiset_ensures;
    if s.len() > 0 {
        lemma_priority_sort_keeps_candidates(s.drop_last(), sec);
        lemma_insert_candidate_pos(sort_by_priority(s.drop_last(), sec), s.last(), sec);
        assert(s.drop_last().push(s.last()) =~= s);
    }
}

/// Whether the instant `now_unix_secs` (UTC) falls inside the schedule window;
/// an instant that the calendar cannot represent is outside every window.
pub fn is_within_schedule_window(now_unix_secs: i64, window: &ScheduleWindow) -> (r: bool)
    ensures
        r <==> chrono_min_secs() <= now_unix_secs <= chrono_max_secs() && in_window_spec(
            utc_weekday_spec(now_unix_secs),
            utc_hour_spec(now_unix_secs),
            window.days@,
            window.hours_start,
            window.hours_end,
        ),
{
    match utc_weekday_hour(now_unix_secs) {
        Some((d, h)) => is_within_window_at(d, h, window),
        None => false,
    }
}


/// The weekday of the Unix day `n` (1 January 1970, day 0, was a Thursday).
pub open spec fn calendar_weekday(n: int) -> Weekday {
    let r = n % 7;
    if r == 0 {
        Weekday::Thursday
    } else if r == 1 {
        Weekday::Friday
    } else if r == 2 {
        Weekday::Saturday
    } else if r == 3 {
        Weekday::Sunday
    } else if r == 4 {
        Weekday::Monday
    } else if r == 5 {
        Weekday::Tuesday
    } else {
        Weekday::Wednesday
    }
}

/// A window that lists one day admits an instant exactly when the instant falls
/// on that day of the calendar, whatever its hour.
pub proof fn lemma_window_day_is_calendar_day(secs: i64, d: Weekday)
    ensures
        in_window_spec(utc_weekday_spec(secs), utc_hour_spec(secs), seq![d], None, None) <==> d == calendar_weekday(
            (secs as int) / 86400,
        ),
{
    let n = (secs as int) / 86400;
    let r = n % 7;
    assert((n + 3) % 7 == (r + 3) % 7);
    let days = seq![d];
    if in_window_spec(utc_weekday_spec(secs), utc_hour_spec(secs), days, None, None) {
        let i = choose|i: int| 0 <= i < days.len() && iso_number_spec(#[trigger] days[i]) == utc_weekday_spec(secs);
        assert(days[i] == d);
    } else {
        assert(days[0] == d);
    }
}

} // verus!
