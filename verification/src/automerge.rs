//! Update classification and automerge policy evaluation.
use vstd::prelude::*;

use crate::config::AutomergePolicy;
use crate::config::AutomergePolicyView;
use crate::config::UpdateTypeFilter;
use crate::registry::SemVerView;
use crate::registry::opt_semver_view;
use crate::registry::parse_semver;
use crate::registry::semver_parse;
use crate::util::glob_match;
use crate::util::glob_spec;

verus! {

/// Semver bump classification for a dependency update.
#[derive(Debug, Clone, Copy, PartialEq, Eq, Structural)]
pub enum UpdateType {
    Patch,
    Minor,
    Major,
}

/// `s` without all of its leading `v` characters.
pub open spec fn trim_leading_v(s: Seq<char>) -> Seq<char>
    decreases s.len(),
{
    if s.len() > 0 && s[0] == 'v' {
        trim_leading_v(s.drop_first())
    } else {
        s
    }
}

/// The version read from a tag after its leading `v`s are trimmed.
pub open spec fn tag_version(s: Seq<char>) -> Option<SemVerView> {
    semver_parse(trim_leading_v(s))
}

/// The bump from `current` to `new`: major when the major numbers differ,
/// minor when the minor numbers differ, patch otherwise.
pub open spec fn classify_spec(current: Seq<char>, new: Seq<char>) -> Option<UpdateType> {
    match (tag_version(current), tag_version(new)) {
        (Some(c), Some(n)) => Some(
            if n.major != c.major {
                UpdateType::Major
            } else if n.minor != c.minor {
                UpdateType::Minor
            } else {
                UpdateType::Patch
            },
        ),
        _ => None,
    }
}

fn trim_v(s: &str) -> (r: String)
    ensures
        r@ == trim_leading_v(s@),
{
    let v = crate::text::chars_of(s);
    let mut i: usize = 0;
    assert(v@.subrange(0, v@.len() as int) =~= v@);
    while i < v.len() && v[i] == 'v'
        invariant
            i <= v@.len(),
            trim_leading_v(v@) == trim_leading_v(v@.subrange(i as int, v@.len() as int)),
        decreases v@.len() - i,
    {
        assert(v@.subrange(i as int, v@.len() as int).drop_first() =~= v@.subrange(i + 1, v@.len() as int));
        i = i + 1;
    }
    assert(v@.subrange(0, v@.len() as int) =~= v@);
    let rest = crate::text::slice_of(&v, i, v.len());
    crate::text::string_of(&rest)
}

fn parse_tag_version(s: &str) -> (r: Option<crate::registry::SemVer>)
    ensures
        opt_semver_view(r) == tag_version(s@),
{
    let t = trim_v(s);
    parse_semver(t.as_str())
}

impl UpdateType {
    /// Classifies the bump between two version texts; `None` when either does
    /// not parse as a semantic version (after leading `v`s are trimmed).
    pub fn classify(current: &str, new: &str) -> (r: Option<Self>)
        ensures
            r == classify_spec(current@, new@),
    {
        let c = parse_tag_version(current);
        let n = parse_tag_version(new);
        match (c, n) {
            (Some(c), Some(n)) => {
                if n.major != c.major {
                    Some(UpdateType::Major)
                } else if n.minor != c.minor {
                    Some(UpdateType::Minor)
                } else {
                    Some(UpdateType::Patch)
                }
            },
            _ => None,
        }
    }
}

pub open spec fn filter_of(ut: UpdateType) -> UpdateTypeFilter {
    match ut {
        UpdateType::Patch => UpdateTypeFilter::Patch,
        UpdateType::Minor => UpdateTypeFilter::Minor,
        UpdateType::Major => UpdateTypeFilter::Major,
    }
}

fn update_type_to_filter(ut: &UpdateType) -> (r: UpdateTypeFilter)
    ensures
        r == filter_of(*ut),
{
    match ut {
        UpdateType::Patch => UpdateTypeFilter::Patch,
        UpdateType::Minor => UpdateTypeFilter::Minor,
        UpdateType::Major => UpdateTypeFilter::Major,
    }
}

/// Whole days from `created` to `now`, truncated toward zero.
pub open spec fn age_days(now: i64, created: i64) -> int {
    let d = now - created;
    if d >= 0 {
        d / 86400
    } else {
        -((-d) / 86400)
    }
}

/// The first policy whose pattern matches the name and whose update types
/// admit the update decides: disabled means no, a minimum age not yet reached
/// means no, otherwise yes. With no deciding policy the answer is no.
pub open spec fn automerge_decision(
    policies: Seq<AutomergePolicyView>,
    dep_name: Seq<char>,
    ut: UpdateType,
    created: Option<i64>,
    now: i64,
) -> bool
    decreases policies.len(),
{
    if policies.len() == 0 {
        false
    } else {
        let p = policies[0];
        if !glob_spec(p.match_pattern, dep_name) || (p.update_types.len() > 0
            && !p.update_types.contains(filter_of(ut))) {
            automerge_decision(policies.drop_first(), dep_name, ut, created, now)
        } else if !p.enabled {
            false
        } else {
            match (p.minimum_age_days, created) {
                (Some(min_age), Some(c)) => age_days(now, c) >= min_age,
                _ => true,
            }
        }
    }
}

pub open spec fn policies_view(v: Seq<AutomergePolicy>) -> Seq<AutomergePolicyView> {
    v.map_values(|p: AutomergePolicy| p@)
}

/// The current time in whole seconds since the Unix epoch.
/// Trusted: reads the system clock through `chrono::Utc::now`; nothing is
/// promised of the value.
#[verifier::external_body]
pub(crate) fn now_unix_seconds() -> i64 {
    chrono::Utc::now().timestamp()
}

fn admits(types: &Vec<UpdateTypeFilter>, f: UpdateTypeFilter) -> (r: bool)
    ensures
        r == (types@.len() == 0 || types@.contains(f)),
{
    if types.len() == 0 {
        return true;
    }
    let mut i: usize = 0;
    while i < types.len()
        invariant
            i <= types@.len(),
            forall|k: int| 0 <= k < i ==> types@[k] != f,
        decreases types@.len() - i,
    {
        if types[i] == f {
            assert(types@[i as int] == f);
            return true;
        }
        i = i + 1;
    }
    false
}

/// Evaluates automerge policies for dependency updates.
pub struct AutomergeEvaluator<'a> {
    policies: &'a [AutomergePolicy],
}

impl<'a> AutomergeEvaluator<'a> {
    pub fn new(policies: &'a [AutomergePolicy]) -> (r: Self)
        ensures
            r.policies() == policies@,
    {
        Self { policies }
    }

    pub closed spec fn policies(&self) -> Seq<AutomergePolicy> {
        self.policies@
    }

    /// Automerge decision at time `now` (seconds since the epoch);
    /// `mr_created_at` (seconds since the epoch) is used for `minimum_age_days`.
    pub fn should_automerge_at(
        &self,
        dep_name: &str,
        update_type: &UpdateType,
        mr_created_at: Option<i64>,
        now: i64,
    ) -> (r: bool)
        ensures
            r == automerge_decision(policies_view(self.policies()), dep_name@, *update_type, mr_created_at, now),
    {
        let f = update_type_to_filter(update_type);
        let ghost all = policies_view(self.policies@);
        assert(all.subrange(0, all.len() as int) =~= all);
        let mut i: usize = 0;
        while i < self.policies.len()
            invariant
                i <= self.policies@.len(),
                all == policies_view(self.policies@),
                all.len() == self.policies@.len(),
                f == filter_of(*update_type),
                automerge_decision(all, dep_name@, *update_type, mr_created_at, now)
                    == automerge_decision(all.subrange(i as int, all.len() as int), dep_name@, *update_type, mr_created_at, now),
            decreases self.policies@.len() - i,
        {
            let ghost rest = all.subrange(i as int, all.len() as int);
            assert(rest[0] == all[i as int]);
            assert(all[i as int] == self.policies@[i as int]@);
            assert(rest.drop_first() =~= all.subrange(i + 1, all.len() as int));
            let policy = &self.policies[i];
            assert(rest.len() > 0);
            assert(rest[0].match_pattern == policy.match_pattern@);
            assert(rest[0].update_types == policy.update_types@);
            assert(rest[0].enabled == policy.enabled);
            assert(rest[0].minimum_age_days == policy.minimum_age_days);
            let m = glob_match(policy.match_pattern.as_str(), dep_name);
            let a = admits(&policy.update_types, f);
            assert(m == glob_spec(rest[0].match_pattern, dep_name@));
            assert(a == (rest[0].update_types.len() == 0 || rest[0].update_types.contains(filter_of(*update_type))));
            assert(!(m && a) ==> automerge_decision(rest, dep_name@, *update_type, mr_created_at, now)
                == automerge_decision(rest.drop_first(), dep_name@, *update_type, mr_created_at, now));
            if m && a {
                if !policy.enabled {
                    return false;
                }
                match (policy.minimum_age_days, mr_created_at) {
                    (Some(min_age), Some(created)) => {
                        let d: i128 = now as i128 - created as i128;
                        let age: i128 = if d >= 0 {
                            d / 86400
                        } else {
                            -((-d) / 86400)
                        };
                        return age >= min_age as i128;
                    },
                    _ => {
                        return true;
                    },
                }
            }
            i = i + 1;
        }
        assert(all.subrange(i as int, all.len() as int).len() == 0);
        false
    }

    /// Automerge decision now: the first matching policy decides, and a
    /// `minimum_age_days` is checked against the age of `mr_created_at`.
    /// When `mr_created_at` is `None` the clock is not consulted.
    pub fn should_automerge(&self, dep_name: &str, update_type: &UpdateType, mr_created_at: Option<i64>) -> (r: bool)
        ensures
            exists|now: i64| r == automerge_decision(policies_view(self.policies()), dep_name@, *update_type, mr_created_at, now),
            mr_created_at is None ==> r == automerge_decision(policies_view(self.policies()), dep_name@, *update_type, None, 0),
    {
        let now = match mr_created_at {
            Some(_) => now_unix_seconds(),
            None => 0,
        };
        self.should_automerge_at(dep_name, update_type, mr_created_at, now)
    }
}


/// The bump kind is decided by the first of major, minor and patch that
/// differs: a different major is a major update; the same major with a different
/// minor is a minor update, whatever the patch numbers; the same major and minor
/// is a patch update; a version that does not read gives no kind.
pub proof fn lemma_classify_by_first_difference(current: Seq<char>, new: Seq<char>)
    ensures
        match (tag_version(current), tag_version(new)) {
            (Some(c), Some(n)) => {
                &&& n.major != c.major ==> classify_spec(current, new) == Some(UpdateType::Major)
                &&& n.major == c.major && n.minor != c.minor ==> classify_spec(current, new) == Some(UpdateType::Minor)
                &&& n.major == c.major && n.minor == c.minor ==> classify_spec(current, new) == Some(UpdateType::Patch)
            },
            _ => classify_spec(current, new) is None,
        },
{
}

} // verus!
