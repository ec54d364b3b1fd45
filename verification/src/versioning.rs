//! Version pinning policy: which available version a dependency moves to.
use vstd::prelude::*;

use crate::registry::SemVer;
use crate::registry::SemVerView;
use crate::registry::VersionInfo;
use crate::registry::VersionInfoView;
use crate::registry::compare_build;
use crate::registry::docker::versions_view;
use crate::registry::semver_build_order;

verus! {

/// How far an update may move from the current version.
#[derive(Debug, Clone, Copy, PartialEq, Eq, Structural)]
pub enum PinStrategy {
    SemverPatch,
    SemverMinor,
    SemverMajor,
}

impl PinStrategy {
    /// `semver-patch` and `semver-major` select those strategies; any other text selects minor.
    pub fn from_str(s: &str) -> (r: Self)
        ensures
            r == (if s@ == "semver-patch"@ {
                PinStrategy::SemverPatch
            } else if s@ == "semver-major"@ {
                PinStrategy::SemverMajor
            } else {
                PinStrategy::SemverMinor
            }),
    {
        let v = crate::text::chars_of(s);
        let patch = crate::text::chars_of("semver-patch");
        let major = crate::text::chars_of("semver-major");
        if crate::text::chars_eq(&v, &patch) {
            PinStrategy::SemverPatch
        } else if crate::text::chars_eq(&v, &major) {
            PinStrategy::SemverMajor
        } else {
            PinStrategy::SemverMinor
        }
    }
}

/// `(a.major, a.minor, a.patch)` is lexicographically below `(b.major, b.minor, b.patch)`.
pub open spec fn triple_lt(a: SemVerView, b: SemVerView) -> bool {
    a.major < b.major || (a.major == b.major && (a.minor < b.minor || (a.minor == b.minor
        && a.patch < b.patch)))
}

pub open spec fn same_triple(a: SemVerView, b: SemVerView) -> bool {
    a.major == b.major && a.minor == b.minor && a.patch == b.patch
}

/// Semver precedence of a release `c` (empty pre-release) over `cur`: a higher
/// `major.minor.patch`, or the same one where `cur` is a pre-release, or the same
/// one with greater build metadata.
pub open spec fn release_gt(c: SemVerView, cur: SemVerView) -> bool {
    triple_lt(cur, c) || (same_triple(c, cur) && (cur.pre.len() > 0 || (cur.pre.len() == 0
        && semver_build_order(c.build, cur.build) == Some(1i8))))
}

pub open spec fn matches_strategy_spec(strategy: PinStrategy, current: SemVerView, candidate: SemVerView) -> bool {
    match strategy {
        PinStrategy::SemverPatch => candidate.major == current.major && candidate.minor == current.minor,
        PinStrategy::SemverMinor => candidate.major == current.major,
        PinStrategy::SemverMajor => true,
    }
}

/// A candidate is eligible when it is a release, newer than `current`, and allowed by the strategy.
pub open spec fn eligible(strategy: PinStrategy, current: SemVerView, v: VersionInfoView) -> bool {
    v.version.pre.len() == 0 && release_gt(v.version, current) && matches_strategy_spec(
        strategy,
        current,
        v.version,
    )
}

/// `a` is above `b` in semver precedence among releases: a higher
/// `major.minor.patch`, or the same one with greater build metadata.
pub open spec fn version_above(a: SemVerView, b: SemVerView) -> bool {
    triple_lt(b, a) || (same_triple(a, b) && semver_build_order(a.build, b.build) == Some(1i8))
}

/// `available[i]` is eligible and no eligible version is above it.
pub open spec fn is_top(strategy: PinStrategy, current: SemVerView, available: Seq<VersionInfoView>, i: int) -> bool {
    &&& 0 <= i < available.len()
    &&& eligible(strategy, current, available[i])
    &&& forall|j: int|
        0 <= j < available.len() && eligible(strategy, current, #[trigger] available[j]) ==> !version_above(
            available[j].version,
            available[i].version,
        )
}

/// Chooses the version a dependency should move to.
pub struct VersionPolicy {
    pub strategy: PinStrategy,
}

impl VersionPolicy {
    pub fn new(strategy: PinStrategy) -> (r: Self)
        ensures
            r.strategy == strategy,
    {
        Self { strategy }
    }

    fn matches_strategy(&self, current: &SemVer, candidate: &SemVer) -> (r: bool)
        ensures
            r == matches_strategy_spec(self.strategy, current@, candidate@),
    {
        match self.strategy {
            PinStrategy::SemverPatch => candidate.major == current.major && candidate.minor
                == current.minor,
            PinStrategy::SemverMinor => candidate.major == current.major,
            PinStrategy::SemverMajor => true,
        }
    }

    fn is_eligible(&self, current: &SemVer, v: &VersionInfo) -> (r: bool)
        ensures
            r == eligible(self.strategy, current@, v@),
    {
        if v.version.pre.as_str().unicode_len() != 0 {
            return false;
        }
        let c = &v.version;
        let newer = if c.major != current.major {
            c.major > current.major
        } else if c.minor != current.minor {
            c.minor > current.minor
        } else if c.patch != current.patch {
            c.patch > current.patch
        } else if current.pre.as_str().unicode_len() != 0 {
            true
        } else {
            compare_build(&c.build, &current.build) == Some(1i8)
        };
        newer && self.matches_strategy(current, c)
    }

    fn is_above(a: &SemVer, b: &SemVer) -> (r: bool)
        ensures
            r == version_above(a@, b@),
    {
        if a.major != b.major {
            a.major > b.major
        } else if a.minor != b.minor {
            a.minor > b.minor
        } else if a.patch != b.patch {
            a.patch > b.patch
        } else {
            compare_build(&a.build, &b.build) == Some(1i8)
        }
    }

    /// Given a current version and available versions, returns the best update:
    /// an eligible version with the greatest `major.minor.patch`, the first of the
    /// eligible versions that no eligible version is above (build metadata
    /// included), or `None` when no available version is eligible (already up to date).
    pub fn best_update(&self, current: &SemVer, available: &[VersionInfo]) -> (r: Option<VersionInfo>)
        ensures
            r is None <==> (forall|j: int| 0 <= j < available@.len() ==> !eligible(self.strategy, current@, #[trigger] available@[j]@)),
            r matches Some(best) ==> {
                &&& eligible(self.strategy, current@, best@)
                &&& exists|i: int| 0 <= i < available@.len() && #[trigger] available@[i]@ == best@
                &&& forall|j: int| 0 <= j < available@.len() && eligible(self.strategy, current@, #[trigger] available@[j]@)
                    ==> !triple_lt(best@.version, available@[j]@.version)
            },
            forall|i: int|
                #![trigger is_top(self.strategy, current@, versions_view(available@), i)]
                is_top(self.strategy, current@, versions_view(available@), i) && (forall|k: int|
                    0 <= k < i ==> !is_top(self.strategy, current@, versions_view(available@), k)) ==> (r matches Some(w)
                    && w@ == available@[i]@),
    {
        let mut best: Option<usize> = None;
        let mut j: usize = 0;
        while j < available.len()
            invariant
                j <= available@.len(),
                best matches Some(b) ==> b < j && eligible(self.strategy, current@, available@[b as int]@),
                best is None ==> forall|k: int| 0 <= k < j ==> !eligible(self.strategy, current@, #[trigger] available@[k]@),
                best matches Some(b) ==> forall|k: int| 0 <= k < j && eligible(self.strategy, current@, #[trigger] available@[k]@)
                    ==> !triple_lt(available@[b as int]@.version, available@[k]@.version),
            decreases available@.len() - j,
        {
            if self.is_eligible(current, &available[j]) {
                match best {
                    None => {
                        best = Some(j);
                    },
                    Some(b) => {
                        let c = &available[j].version;
                        let o = &available[b].version;
                        let greater = if c.major != o.major {
                            c.major > o.major
                        } else if c.minor != o.minor {
                            c.minor > o.minor
                        } else if c.patch != o.patch {
                            c.patch > o.patch
                        } else {
                            compare_build(&c.build, &o.build) == Some(1i8)
                        };
                        if greater {
                            best = Some(j);
                        }
                    },
                }
            }
            j = j + 1;
        }
        let ghost av = versions_view(available@);
        match best {
            Some(b) => {
                let mut i: usize = 0;
                while i < available.len()
                    invariant
                        i <= available@.len(),
                        av == versions_view(available@),
                        b < available@.len(),
                        eligible(self.strategy, current@, available@[b as int]@),
                        forall|k: int| 0 <= k < i ==> !is_top(self.strategy, current@, av, k),
                    decreases available@.len() - i,
                {
                    assert(av[i as int] == available@[i as int]@);
                    if self.is_eligible(current, &available[i]) {
                        let mut top = true;
                        let mut j: usize = 0;
                        while j < available.len()
                            invariant
                                j <= available@.len(),
                                i < available@.len(),
                                av == versions_view(available@),
                                top == forall|m: int|
                                    0 <= m < j && eligible(self.strategy, current@, #[trigger] av[m]) ==> !version_above(
                                        av[m].version,
                                        av[i as int].version,
                                    ),
                            decreases available@.len() - j,
                        {
                            assert(av[j as int] == available@[j as int]@);
                            if self.is_eligible(current, &available[j]) && Self::is_above(
                                &available[j].version,
                                &available[i].version,
                            ) {
                                top = false;
                            }
                            j = j + 1;
                        }
                        if top {
                            assert(is_top(self.strategy, current@, av, i as int));
                            let r = available[i].duplicate();
                            assert(available@[i as int]@ == r@);
                            proof {
                                assert forall|jj: int|
                                    0 <= jj < available@.len() && eligible(self.strategy, current@, #[trigger] available@[jj]@)
                                    implies !triple_lt(r@.version, available@[jj]@.version) by {
                                    assert(av[jj] == available@[jj]@);
                                }
                            }
                            return Some(r);
                        }
                    }
                    i = i + 1;
                }
                let r = available[b].duplicate();
                assert(available@[b as int]@ == r@);
                Some(r)
            },
            None => {
                assert forall|i: int| !is_top(self.strategy, current@, av, i) by {
                    if 0 <= i < av.len() {
                        assert(av[i] == available@[i]@);
                    }
                }
                None
            },
        }
    }
}

} // verus!
