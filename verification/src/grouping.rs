//! Partitioning of update candidates into merge-request groups by the
//! configured grouping rules.
use vstd::prelude::*;
use vstd::relations::sorted_by;

use crate::automerge::classify_spec;
use crate::automerge::UpdateType;
use crate::config::GroupBy;
use crate::config::GroupingRule;
use crate::config::GroupingRuleView;
use crate::fmt::text_less;
use crate::fmt::text_order;
use crate::fmt::text_lt;
use crate::orchestrator::candidates_view;
use crate::orchestrator::UpdateCandidate;
use crate::orchestrator::UpdateCandidateView;
use crate::text::chars_eq;
use crate::text::chars_of;
use crate::text::push_text;
use crate::text::replace_all;
use crate::text::replace_spec;
use crate::text::starts_with;
use crate::text::starts_with_spec;
use crate::text::string_of;
use crate::util::glob_match;
use crate::util::glob_spec;
use crate::util::manager_name;
use crate::util::manager_name_spec;

verus! {

/// A set of candidates proposed together in one merge request.
#[derive(Debug)]
pub struct Group {
    pub name: String,
    pub candidates: Vec<UpdateCandidate>,
}

pub struct GroupView {
    pub name: Seq<char>,
    pub candidates: Seq<UpdateCandidateView>,
}

impl View for Group {
    type V = GroupView;

    open spec fn view(&self) -> GroupView {
        GroupView { name: self.name@, candidates: candidates_view(self.candidates@) }
    }
}

pub open spec fn groups_view(v: Seq<Group>) -> Seq<GroupView> {
    v.map_values(|g: Group| g@)
}

pub open spec fn rules_view(v: Seq<GroupingRule>) -> Seq<GroupingRuleView> {
    v.map_values(|r: GroupingRule| r@)
}

/// The parent directory of a path as `std::path::Path::parent` gives it, as text
/// (`None` for a root or empty path).
pub uninterp spec fn path_parent(path: Seq<char>) -> Option<Seq<char>>;

/// The parent directory of a path.
/// Trusted: calls `std::path::Path::parent` and `to_str`; the result is named
/// `path_parent` of the path (a path held as a `&str` is always valid UTF-8, so
/// `to_str` keeps what `parent` returns).
#[verifier::external_body]
fn parent_of(path: &str) -> (r: Option<String>)
    ensures
        crate::text::opt_view(r) == path_parent(path@),
{
    std::path::Path::new(path).parent().and_then(|p| p.to_str()).map(|s| s.to_string())
}

/// A rule matches a dependency name when it has no patterns or one of them globs it.
pub open spec fn rule_matches_spec(rule: GroupingRuleView, name: Seq<char>) -> bool {
    rule.match_patterns.len() == 0 || exists|i: int|
        0 <= i < rule.match_patterns.len() && glob_spec(#[trigger] rule.match_patterns[i], name)
}

/// Whether a grouping rule applies to a candidate.
pub fn rule_matches(rule: &GroupingRule, candidate: &UpdateCandidate) -> (r: bool)
    ensures
        r == rule_matches_spec(rule@, candidate@.dependency.name),
{
    if rule.match_patterns.len() == 0 {
        return true;
    }
    let ghost pats = rule@.match_patterns;
    let mut i: usize = 0;
    while i < rule.match_patterns.len()
        invariant
            i <= rule.match_patterns@.len(),
            pats == rule@.match_patterns,
            forall|j: int| 0 <= j < i ==> !glob_spec(#[trigger] pats[j], candidate@.dependency.name),
        decreases rule.match_patterns@.len() - i,
    {
        assert(pats[i as int] == rule.match_patterns@[i as int]@);
        if glob_match(rule.match_patterns[i].as_str(), candidate.dependency.name.as_str()) {
            return true;
        }
        i = i + 1;
    }
    false
}

/// The sub-group of a candidate under a rule: `major` for a major bump when the
/// rule separates them, else by the rule's `group_by` (nothing, the bump kind, the
/// manager, or the file's directory with `/` written `-`).
pub open spec fn sub_group_key_spec(rule: GroupingRuleView, c: UpdateCandidateView) -> Seq<char> {
    let ut = classify_spec(c.dependency.current_version, c.new_version.original_tag);
    if rule.separate_major && ut == Some(UpdateType::Major) {
        "major"@
    } else {
        match rule.group_by {
            GroupBy::Pattern => seq![],
            GroupBy::UpdateType => match ut {
                Some(UpdateType::Patch) => "patch"@,
                Some(UpdateType::Minor) => "minor"@,
                Some(UpdateType::Major) => "major"@,
                None => "unknown"@,
            },
            GroupBy::Manager => manager_name_spec(c.dependency.registry),
            GroupBy::Path => replace_spec(
                match path_parent(c.dependency.file_path) {
                    Some(p) => p,
                    None => seq![],
                },
                "/"@,
                "-"@,
            ),
        }
    }
}

/// Computes the sub-group of a candidate under a rule.
pub fn sub_group_key(rule: &GroupingRule, candidate: &UpdateCandidate) -> (r: String)
    ensures
        r@ == sub_group_key_spec(rule@, candidate@),
{
    let ut = UpdateType::classify(
        candidate.dependency.current_version.as_str(),
        candidate.new_version.original_tag.as_str(),
    );
    let is_major = match ut {
        Some(UpdateType::Major) => true,
        _ => false,
    };
    if rule.separate_major && is_major {
        return "major".to_string();
    }
    match rule.group_by {
        GroupBy::Pattern => String::new(),
        GroupBy::UpdateType => match ut {
            Some(UpdateType::Patch) => "patch".to_string(),
            Some(UpdateType::Minor) => "minor".to_string(),
            Some(UpdateType::Major) => "major".to_string(),
            None => "unknown".to_string(),
        },
        GroupBy::Manager => manager_name(&candidate.dependency.registry).to_string(),
        GroupBy::Path => {
            let parent = match parent_of(candidate.dependency.file_path.as_str()) {
                Some(p) => chars_of(p.as_str()),
                None => Vec::new(),
            };
            string_of(&replace_all(&parent, &chars_of("/"), &chars_of("-")))
        },
    }
}

/// Index of the first rule that matches the name, from rule `k` on.
pub open spec fn first_rule_from(rules: Seq<GroupingRuleView>, name: Seq<char>, k: int) -> Option<int>
    decreases rules.len() - k,
{
    if k < 0 || k >= rules.len() {
        None
    } else if rule_matches_spec(rules[k], name) {
        Some(k)
    } else {
        first_rule_from(rules, name, k + 1)
    }
}

/// The bucket of a candidate: the first matching rule's name, followed by `-` and
/// the sub-group when there is one; `None` when no rule matches.
pub open spec fn bucket_key(rules: Seq<GroupingRuleView>, c: UpdateCandidateView) -> Option<Seq<char>> {
    match first_rule_from(rules, c.dependency.name, 0) {
        Some(i) => {
            let sub = sub_group_key_spec(rules[i], c);
            Some(if sub.len() == 0 { rules[i].name } else { rules[i].name + "-"@ + sub })
        },
        None => None,
    }
}

/// The distinct bucket keys of the candidates, in order of first appearance.
pub open spec fn bucket_keys(rules: Seq<GroupingRuleView>, cs: Seq<UpdateCandidateView>) -> Seq<Seq<char>>
    decreases cs.len(),
{
    if cs.len() == 0 {
        seq![]
    } else {
        let prev = bucket_keys(rules, cs.drop_last());
        match bucket_key(rules, cs.last()) {
            Some(k) => if prev.contains(k) { prev } else { prev.push(k) },
            None => prev,
        }
    }
}

/// The candidates in the bucket `key`, in order.
pub open spec fn bucket_members(rules: Seq<GroupingRuleView>, cs: Seq<UpdateCandidateView>, key: Seq<char>) -> Seq<UpdateCandidateView>
    decreases cs.len(),
{
    if cs.len() == 0 {
        seq![]
    } else if bucket_key(rules, cs.last()) == Some(key) {
        bucket_members(rules, cs.drop_last(), key).push(cs.last())
    } else {
        bucket_members(rules, cs.drop_last(), key)
    }
}

/// The candidates that no rule matches, in order.
pub open spec fn unmatched(rules: Seq<GroupingRuleView>, cs: Seq<UpdateCandidateView>) -> Seq<UpdateCandidateView>
    decreases cs.len(),
{
    if cs.len() == 0 {
        seq![]
    } else if bucket_key(rules, cs.last()) is None {
        unmatched(rules, cs.drop_last()).push(cs.last())
    } else {
        unmatched(rules, cs.drop_last())
    }
}

/// Inserts `x` into a sorted sequence of texts after every text not above it.
pub open spec fn insert_text(s: Seq<Seq<char>>, x: Seq<char>) -> Seq<Seq<char>>
    decreases s.len(),
{
    if s.len() > 0 && text_lt(x, s.last()) {
        insert_text(s.drop_last(), x).push(s.last())
    } else {
        s.push(x)
    }
}

/// The texts in ascending order (insertion sort).
pub open spec fn sort_texts(s: Seq<Seq<char>>) -> Seq<Seq<char>>
    decreases s.len(),
{
    if s.len() == 0 {
        seq![]
    } else {
        insert_text(sort_texts(s.drop_last()), s.last())
    }
}

/// The keys of `ks` that start with `prefix` and are not in `done`, in order.
pub open spec fn fresh_with_prefix(ks: Seq<Seq<char>>, prefix: Seq<char>, done: Seq<Seq<char>>) -> Seq<Seq<char>>
    decreases ks.len(),
{
    if ks.len() == 0 {
        seq![]
    } else if starts_with_spec(ks.last(), prefix) && !done.contains(ks.last()) {
        fresh_with_prefix(ks.drop_last(), prefix, done).push(ks.last())
    } else {
        fresh_with_prefix(ks.drop_last(), prefix, done)
    }
}

/// The order in which buckets become groups: rule by rule, the not yet emitted
/// keys starting with the rule's name, sorted.
pub open spec fn emitted_keys(rules: Seq<GroupingRuleView>, ks: Seq<Seq<char>>) -> Seq<Seq<char>>
    decreases rules.len(),
{
    if rules.len() == 0 {
        seq![]
    } else {
        let prev = emitted_keys(rules.drop_last(), ks);
        prev + sort_texts(fresh_with_prefix(ks, rules.last().name, prev))
    }
}

/// The group name of an unmatched candidate on its own: manager, `-`, name with `/` as `-`.
pub open spec fn single_group_name(c: UpdateCandidateView) -> Seq<char> {
    manager_name_spec(c.dependency.registry) + "-"@ + replace_spec(c.dependency.name, "/"@, "-"@)
}

/// The groups formed from the candidates: one per rule bucket in emission order,
/// then either one `all` group of the unmatched (when `default_grouping` is
/// `grouped`) or one group per unmatched candidate.
pub open spec fn group_candidates_spec(
    cs: Seq<UpdateCandidateView>,
    rules: Seq<GroupingRuleView>,
    default_grouping: Seq<char>,
) -> Seq<GroupView> {
    let keys = emitted_keys(rules, bucket_keys(rules, cs));
    let ruled = keys.map_values(|k: Seq<char>| GroupView { name: k, candidates: bucket_members(rules, cs, k) });
    let rest = unmatched(rules, cs);
    let tail = if default_grouping == "grouped"@ {
        if rest.len() > 0 {
            seq![GroupView { name: "all"@, candidates: rest }]
        } else {
            seq![]
        }
    } else {
        rest.map_values(|c: UpdateCandidateView| GroupView { name: single_group_name(c), candidates: seq![c] })
    };
    ruled + tail
}

fn bucket_key_of(rules: &[GroupingRule], c: &UpdateCandidate) -> (r: Option<Vec<char>>)
    ensures
        match r {
            Some(k) => bucket_key(rules_view(rules@), c@) == Some(k@),
            None => bucket_key(rules_view(rules@), c@) is None,
        },
{
    let ghost rv = rules_view(rules@);
    let mut i: usize = 0;
    while i < rules.len()
        invariant
            i <= rules@.len(),
            rv == rules_view(rules@),
            first_rule_from(rv, c@.dependency.name, 0) == first_rule_from(rv, c@.dependency.name, i as int),
        decreases rules@.len() - i,
    {
        assert(rv[i as int] == rules@[i as int]@);
        if rule_matches(&rules[i], c) {
            let sub = chars_of(sub_group_key(&rules[i], c).as_str());
            let mut key = chars_of(rules[i].name.as_str());
            if sub.len() > 0 {
                push_text(&mut key, "-");
                crate::text::extend_chars(&mut key, &sub);
            }
            return Some(key);
        }
        i = i + 1;
    }
    None
}

fn dup_candidates(v: &Vec<UpdateCandidate>) -> (r: Vec<UpdateCandidate>)
    ensures
        candidates_view(r@) == candidates_view(v@),
{
    let mut r: Vec<UpdateCandidate> = Vec::new();
    let mut i: usize = 0;
    while i < v.len()
        invariant
            i <= v@.len(),
            candidates_view(r@) == candidates_view(v@).take(i as int),
        decreases v@.len() - i,
    {
        let ghost before = candidates_view(r@);
        r.push(v[i].duplicate());
        assert(candidates_view(r@) =~= before.push(v@[i as int]@));
        assert(candidates_view(v@).take(i + 1) =~= candidates_view(v@).take(i as int).push(v@[i as int]@));
        i = i + 1;
    }
    assert(candidates_view(v@).take(v@.len() as int) =~= candidates_view(v@));
    r
}

fn index_of_key(keys: &Vec<Vec<char>>, key: &Vec<char>) -> (r: Option<usize>)
    ensures
        match r {
            Some(j) => j < keys@.len() && keys@[j as int]@ == key@,
            None => !crate::text::vecs_view(keys@).contains(key@),
        },
{
    let mut j: usize = 0;
    while j < keys.len()
        invariant
            j <= keys@.len(),
            forall|m: int| 0 <= m < j ==> keys@[m]@ != key@,
        decreases keys@.len() - j,
    {
        if chars_eq(&keys[j], key) {
            return Some(j);
        }
        j = j + 1;
    }
    proof {
        if crate::text::vecs_view(keys@).contains(key@) {
            let m = choose|m: int| 0 <= m < keys@.len() && crate::text::vecs_view(keys@)[m] == key@;
            assert(keys@[m]@ == key@);
        }
    }
    None
}

pub open spec fn insert_text_pos(s: Seq<Seq<char>>, x: Seq<char>) -> int
    decreases s.len(),
{
    if s.len() > 0 && text_lt(x, s.last()) {
        insert_text_pos(s.drop_last(), x)
    } else {
        s.len() as int
    }
}

proof fn lemma_insert_text_pos(s: Seq<Seq<char>>, x: Seq<char>)
    ensures
        0 <= insert_text_pos(s, x) <= s.len(),
        insert_text(s, x) == s.insert(insert_text_pos(s, x), x),
        forall|j: int| insert_text_pos(s, x) <= j < s.len() ==> text_lt(x, #[trigger] s[j]),
        insert_text_pos(s, x) > 0 ==> !text_lt(x, s[insert_text_pos(s, x) - 1]),
    decreases s.len(),
{
    if s.len() > 0 && text_lt(x, s.last()) {
        lemma_insert_text_pos(s.drop_last(), x);
        let p = insert_text_pos(s.drop_last(), x);
        assert(s.drop_last().insert(p, x).push(s.last()) =~= s.insert(p, x));
        assert forall|j: int| p <= j < s.len() implies text_lt(x, #[trigger] s[j]) by {
            if j < s.len() - 1 {
                assert(s[j] == s.drop_last()[j]);
            }
        }
        if p > 0 {
            assert(s[p - 1] == s.drop_last()[p - 1]);
        }
    } else {
        assert(s.push(x) =~= s.insert(s.len() as int, x));
    }
}

/// Sorting keeps the texts: the sorted sequence has the same length and holds
/// only texts of the input.
pub proof fn lemma_sort_texts_members(s: Seq<Seq<char>>)
    ensures
        sort_texts(s).len() == s.len(),
        forall|j: int| 0 <= j < s.len() ==> s.contains(#[trigger] sort_texts(s)[j]),
    decreases s.len(),
{
    if s.len() > 0 {
        let prev = s.drop_last();
        lemma_sort_texts_members(prev);
        let t = sort_texts(prev);
        lemma_insert_text_pos(t, s.last());
        let p = insert_text_pos(t, s.last());
        assert forall|j: int| 0 <= j < s.len() implies s.contains(#[trigger] sort_texts(s)[j]) by {
            if j < p {
                assert(sort_texts(s)[j] == t[j]);
                assert(prev.contains(t[j]));
                let m = choose|m: int| 0 <= m < prev.len() && prev[m] == t[j];
                assert(s[m] == prev[m]);
            } else if j == p {
                assert(sort_texts(s)[j] == s.last());
                assert(s[s.len() - 1] == s.last());
            } else {
                assert(sort_texts(s)[j] == t[j - 1]);
                assert(prev.contains(t[j - 1]));
                let m = choose|m: int| 0 <= m < prev.len() && prev[m] == t[j - 1];
                assert(s[m] == prev[m]);
            }
        }
    }
}

/// Sorts texts in ascending code-point order.
pub fn sort_text_vec(v: &Vec<Vec<char>>) -> (r: Vec<Vec<char>>)
    ensures
        crate::text::vecs_view(r@) == sort_texts(crate::text::vecs_view(v@)),
{
    let ghost input = crate::text::vecs_view(v@);
    let mut out: Vec<Vec<char>> = Vec::new();
    let mut i: usize = 0;
    while i < v.len()
        invariant
            i <= v@.len(),
            input == crate::text::vecs_view(v@),
            crate::text::vecs_view(out@) == sort_texts(input.take(i as int)),
        decreases v@.len() - i,
    {
        let x = crate::text::slice_of(&v[i], 0, v[i].len());
        assert(x@ =~= input[i as int]);
        assert(input.take(i + 1).drop_last() =~= input.take(i as int));
        assert(input.take(i + 1).last() == input[i as int]);
        let ghost sorted = crate::text::vecs_view(out@);
        proof {
            lemma_insert_text_pos(sorted, x@);
        }
        let mut k: usize = out.len();
        let mut done = false;
        while k > 0 && !done
            invariant
                k <= out@.len(),
                sorted == crate::text::vecs_view(out@),
                forall|j: int| k <= j < sorted.len() ==> text_lt(x@, #[trigger] sorted[j]),
                done ==> k > 0 && !text_lt(x@, sorted[k - 1]),
            decreases k + (if done { 0int } else { 1int }),
        {
            assert(sorted[k - 1] == out@[k - 1]@);
            if text_less(&x, &out[k - 1]) {
                k = k - 1;
            } else {
                done = true;
            }
        }
        proof {
            let p = insert_text_pos(sorted, x@);
            if p < k {
                assert(text_lt(x@, sorted[k - 1]));
            }
            if k < p {
                assert(text_lt(x@, sorted[p - 1]));
            }
        }
        out.insert(k, x);
        assert(crate::text::vecs_view(out@) =~= sorted.insert(k as int, input[i as int]));
        i = i + 1;
    }
    assert(input.take(v@.len() as int) =~= input);
    out
}

proof fn lemma_members_absent(rules: Seq<GroupingRuleView>, cs: Seq<UpdateCandidateView>, key: Seq<char>)
    requires
        !bucket_keys(rules, cs).contains(key),
    ensures
        bucket_members(rules, cs, key) == Seq::<UpdateCandidateView>::empty(),
    decreases cs.len(),
{
    if cs.len() > 0 {
        let prev = bucket_keys(rules, cs.drop_last());
        if prev.contains(key) {
            let m = choose|m: int| 0 <= m < prev.len() && prev[m] == key;
            match bucket_key(rules, cs.last()) {
                Some(k) => {
                    if !prev.contains(k) {
                        assert(prev.push(k)[m] == key);
                    }
                },
                None => {},
            }
        }
        match bucket_key(rules, cs.last()) {
            Some(k) => {
                if k == key {
                    if !prev.contains(k) {
                        assert(prev.push(k)[prev.len() as int] == key);
                    }
                }
            },
            None => {},
        }
        lemma_members_absent(rules, cs.drop_last(), key);
    }
}

/// Partitions update candidates into groups. Each candidate goes to the first
/// rule that matches it, into the bucket named after the rule and its sub-group;
/// buckets become groups rule by rule (keys starting with the rule's name, sorted).
/// Unmatched candidates form one `all` group when `default_grouping` is
/// `grouped`, else one group each.
pub fn group_candidates(candidates: Vec<UpdateCandidate>, rules: &[GroupingRule], default_grouping: &str) -> (r: Vec<Group>)
    ensures
        groups_view(r@) == group_candidates_spec(candidates_view(candidates@), rules_view(rules@), default_grouping@),
{
    let ghost cs = candidates_view(candidates@);
    let ghost rv = rules_view(rules@);
    let mut keys: Vec<Vec<char>> = Vec::new();
    let mut members: Vec<Vec<UpdateCandidate>> = Vec::new();
    let mut rest: Vec<UpdateCandidate> = Vec::new();
    let mut i: usize = 0;
    while i < candidates.len()
        invariant
            i <= candidates@.len(),
            cs == candidates_view(candidates@),
            rv == rules_view(rules@),
            crate::text::vecs_view(keys@) == bucket_keys(rv, cs.take(i as int)),
            members@.len() == keys@.len(),
            forall|a: int, b: int| 0 <= a < b < keys@.len() ==> keys@[a]@ != keys@[b]@,
            forall|j: int| 0 <= j < keys@.len() ==> candidates_view(#[trigger] members@[j]@) == bucket_members(rv, cs.take(i as int), keys@[j]@),
            candidates_view(rest@) == unmatched(rv, cs.take(i as int)),
        decreases candidates@.len() - i,
    {
        let ghost t = cs.take(i + 1);
        assert(t.drop_last() =~= cs.take(i as int));
        assert(t.last() == candidates@[i as int]@);
        let c = candidates[i].duplicate();
        match bucket_key_of(rules, &c) {
            Some(k) => {
                match index_of_key(&keys, &k) {
                    Some(j) => {
                        let mut m = dup_candidates(&members[j]);
                        let ghost before_m = candidates_view(m@);
                        m.push(c);
                        assert(candidates_view(m@) =~= before_m.push(t.last()));
                        let ghost old_members = members@;
                        members.set(j, m);
                        assert(crate::text::vecs_view(keys@)[j as int] == k@);
                        assert forall|jj: int| 0 <= jj < keys@.len() implies candidates_view(#[trigger] members@[jj]@)
                            == bucket_members(rv, t, keys@[jj]@) by {
                            if jj != j {
                                assert(members@[jj] == old_members[jj]);
                            }
                        }
                    },
                    None => {
                        let ghost old_keys = keys@;
                        let ghost old_members = members@;
                        let mut m: Vec<UpdateCandidate> = Vec::new();
                        m.push(c);
                        keys.push(k);
                        members.push(m);
                        assert(crate::text::vecs_view(keys@) =~= crate::text::vecs_view(old_keys).push(k@));
                        assert forall|jj: int| 0 <= jj < keys@.len() implies candidates_view(#[trigger] members@[jj]@)
                            == bucket_members(rv, t, keys@[jj]@) by {
                            if jj < old_keys.len() {
                                assert(members@[jj] == old_members[jj]);
                                assert(keys@[jj] == old_keys[jj]);
                                assert(crate::text::vecs_view(old_keys)[jj] == old_keys[jj]@);
                            } else {
                                lemma_members_absent(rv, cs.take(i as int), k@);
                                assert(candidates_view(members@[jj]@) =~= seq![t.last()]);
                                assert(bucket_members(rv, cs.take(i as int), k@) =~= Seq::<UpdateCandidateView>::empty());
                            }
                        }
                        assert forall|a: int, b: int| 0 <= a < b < keys@.len() implies keys@[a]@ != keys@[b]@ by {
                            if b == old_keys.len() {
                                assert(crate::text::vecs_view(old_keys)[a] == old_keys[a]@);
                            } else {
                                assert(keys@[a] == old_keys[a] && keys@[b] == old_keys[b]);
                            }
                        }
                    },
                }
            },
            None => {
                let ghost before = candidates_view(rest@);
                rest.push(c);
                assert(candidates_view(rest@) =~= before.push(t.last()));
            },
        }
        i = i + 1;
    }
    assert(cs.take(candidates@.len() as int) =~= cs);
    let ghost ks = bucket_keys(rv, cs);

    let mut groups: Vec<Group> = Vec::new();
    let mut emitted: Vec<Vec<char>> = Vec::new();
    let mut r: usize = 0;
    while r < rules.len()
        invariant
            r <= rules@.len(),
            rv == rules_view(rules@),
            crate::text::vecs_view(keys@) == ks,
            members@.len() == keys@.len(),
            forall|j: int| 0 <= j < keys@.len() ==> candidates_view(#[trigger] members@[j]@) == bucket_members(rv, cs, keys@[j]@),
            ks == bucket_keys(rv, cs),
            crate::text::vecs_view(emitted@) == emitted_keys(rv.take(r as int), ks),
            groups_view(groups@) == crate::text::vecs_view(emitted@).map_values(
                |k: Seq<char>| GroupView { name: k, candidates: bucket_members(rv, cs, k) },
            ),
        decreases rules@.len() - r,
    {
        assert(rv[r as int] == rules@[r as int]@);
        let name = chars_of(rules[r].name.as_str());
        let ghost prev = crate::text::vecs_view(emitted@);
        let mut fresh: Vec<Vec<char>> = Vec::new();
        let mut j: usize = 0;
        while j < keys.len()
            invariant
                j <= keys@.len(),
                crate::text::vecs_view(keys@) == ks,
                prev == crate::text::vecs_view(emitted@),
                crate::text::vecs_view(fresh@) == fresh_with_prefix(ks.take(j as int), name@, prev),
            decreases keys@.len() - j,
        {
            assert(ks.take(j + 1).drop_last() =~= ks.take(j as int));
            assert(ks.take(j + 1).last() == keys@[j as int]@);
            let sw = starts_with(&keys[j], &name);
            let found = index_of_key(&emitted, &keys[j]);
            if sw && found.is_none() {
                let ghost before = crate::text::vecs_view(fresh@);
                let x = crate::text::slice_of(&keys[j], 0, keys[j].len());
                assert(x@ =~= keys@[j as int]@);
                fresh.push(x);
                assert(crate::text::vecs_view(fresh@) =~= before.push(keys@[j as int]@));
            } else {
                proof {
                    if sw {
                        let e = found->0;
                        assert(prev[e as int] == keys@[j as int]@);
                    }
                }
            }
            j = j + 1;
        }
        assert(ks.take(keys@.len() as int) =~= ks);
        let sorted = sort_text_vec(&fresh);
        let ghost sv = crate::text::vecs_view(sorted@);
        let mut q: usize = 0;
        while q < sorted.len()
            invariant
                q <= sorted@.len(),
                sv == crate::text::vecs_view(sorted@),
                crate::text::vecs_view(keys@) == ks,
                ks == bucket_keys(rv, cs),
                members@.len() == keys@.len(),
                forall|jj: int| 0 <= jj < keys@.len() ==> candidates_view(#[trigger] members@[jj]@) == bucket_members(rv, cs, keys@[jj]@),
                crate::text::vecs_view(emitted@) == prev + sv.take(q as int),
                groups_view(groups@) == crate::text::vecs_view(emitted@).map_values(
                    |k: Seq<char>| GroupView { name: k, candidates: bucket_members(rv, cs, k) },
                ),
            decreases sorted@.len() - q,
        {
            let k = crate::text::slice_of(&sorted[q], 0, sorted[q].len());
            assert(k@ =~= sv[q as int]);
            let content = match index_of_key(&keys, &k) {
                Some(jj) => dup_candidates(&members[jj]),
                None => {
                    proof {
                        lemma_members_absent(rv, cs, k@);
                    }
                    Vec::new()
                },
            };
            assert(candidates_view(content@) == bucket_members(rv, cs, k@)) by {
                if candidates_view(content@).len() == 0 && !ks.contains(k@) {
                    assert(candidates_view(content@) =~= Seq::<UpdateCandidateView>::empty());
                }
            }
            let ghost before_g = groups_view(groups@);
            let ghost before_e = crate::text::vecs_view(emitted@);
            groups.push(Group { name: string_of(&k), candidates: content });
            emitted.push(k);
            assert(crate::text::vecs_view(emitted@) =~= before_e.push(sv[q as int]));
            assert(sv.take(q + 1) =~= sv.take(q as int).push(sv[q as int]));
            assert(groups_view(groups@) =~= before_g.push(GroupView { name: sv[q as int], candidates: bucket_members(rv, cs, sv[q as int]) }));
            assert(crate::text::vecs_view(emitted@).map_values(
                |kk: Seq<char>| GroupView { name: kk, candidates: bucket_members(rv, cs, kk) },
            ) =~= before_e.map_values(
                |kk: Seq<char>| GroupView { name: kk, candidates: bucket_members(rv, cs, kk) },
            ).push(GroupView { name: sv[q as int], candidates: bucket_members(rv, cs, sv[q as int]) }));
            q = q + 1;
        }
        assert(sv.take(sorted@.len() as int) =~= sv);
        assert(rv.take(r + 1).drop_last() =~= rv.take(r as int));
        assert(rv.take(r + 1).last() == rv[r as int]);
        r = r + 1;
    }
    assert(rv.take(rules@.len() as int) =~= rv);
    let ghost ruled = groups_view(groups@);
    let ghost rest_v = candidates_view(rest@);
    if chars_eq(&chars_of(default_grouping), &chars_of("grouped")) {
        if rest.len() > 0 {
            groups.push(Group { name: "all".to_string(), candidates: rest });
            assert(groups_view(groups@) =~= ruled + seq![GroupView { name: "all"@, candidates: rest_v }]);
        } else {
            assert(groups_view(groups@) =~= ruled + Seq::<GroupView>::empty());
        }
    } else {
        let mut u: usize = 0;
        while u < rest.len()
            invariant
                u <= rest@.len(),
                rest_v == candidates_view(rest@),
                groups_view(groups@) == ruled + rest_v.take(u as int).map_values(
                    |c: UpdateCandidateView| GroupView { name: single_group_name(c), candidates: seq![c] },
                ),
            decreases rest@.len() - u,
        {
            let c = rest[u].duplicate();
            assert(c@ == rest_v[u as int]);
            let mut gname = chars_of(manager_name(&c.dependency.registry));
            push_text(&mut gname, "-");
            let sanitized = replace_all(&chars_of(c.dependency.name.as_str()), &chars_of("/"), &chars_of("-"));
            crate::text::extend_chars(&mut gname, &sanitized);
            let mut one: Vec<UpdateCandidate> = Vec::new();
            one.push(c);
            let ghost before = groups_view(groups@);
            groups.push(Group { name: string_of(&gname), candidates: one });
            assert(candidates_view(one@) =~= seq![rest_v[u as int]]);
            assert(groups_view(groups@) =~= before.push(GroupView { name: single_group_name(rest_v[u as int]), candidates: seq![rest_v[u as int]] }));
            assert(rest_v.take(u + 1) =~= rest_v.take(u as int).push(rest_v[u as int]));
            assert(rest_v.take(u + 1).map_values(
                |c: UpdateCandidateView| GroupView { name: single_group_name(c), candidates: seq![c] },
            ) =~= rest_v.take(u as int).map_values(
                |c: UpdateCandidateView| GroupView { name: single_group_name(c), candidates: seq![c] },
            ).push(GroupView { name: single_group_name(rest_v[u as int]), candidates: seq![rest_v[u as int]] }));
            u = u + 1;
        }
        assert(rest_v.take(rest@.len() as int) =~= rest_v);
    }
    groups
}

// ---------------------------------------------------------------------------
// Every candidate lands in exactly one group.
// ---------------------------------------------------------------------------

/// The candidates of the groups, group after group.
pub open spec fn grouped_candidates(gs: Seq<GroupView>) -> Seq<UpdateCandidateView>
    decreases gs.len(),
{
    if gs.len() == 0 {
        seq![]
    } else {
        grouped_candidates(gs.drop_last()) + gs.last().candidates
    }
}

/// The members of the buckets `ks`, bucket after bucket.
pub open spec fn members_of_keys(rules: Seq<GroupingRuleView>, cs: Seq<UpdateCandidateView>, ks: Seq<Seq<char>>) -> Seq<UpdateCandidateView>
    decreases ks.len(),
{
    if ks.len() == 0 {
        seq![]
    } else {
        members_of_keys(rules, cs, ks.drop_last()) + bucket_members(rules, cs, ks.last())
    }
}

proof fn lemma_sort_texts_multiset(s: Seq<Seq<char>>)
    ensures
        sort_texts(s).to_multiset() == s.to_multiset(),
    decreases s.len(),
{
    broadcast use vstd::seq_lib::group_to_multiset_ensures;
    if s.len() > 0 {
        lemma_sort_texts_multiset(s.drop_last());
        let t = sort_texts(s.drop_last());
        lemma_insert_text_pos(t, s.last());
        assert(s.drop_last().push(s.last()) =~= s);
    }
}

/// Sorting orders the texts: none comes after a text it is above.
proof fn lemma_sort_texts_sorted(s: Seq<Seq<char>>)
    ensures
        sorted_by(sort_texts(s), text_order()),
    decreases s.len(),
{
    if s.len() > 0 {
        lemma_sort_texts_sorted(s.drop_last());
        let t = sort_texts(s.drop_last());
        let x = s.last();
        lemma_insert_text_pos(t, x);
        let p = insert_text_pos(t, x);
        let u = t.insert(p, x);
        assert(sort_texts(s) == u);
        assert forall|i: int, j: int| 0 <= i < j < u.len() implies #[trigger] text_order()(u[i], u[j]) by {
            if j < p {
                assert(u[i] == t[i] && u[j] == t[j]);
            } else if j == p {
                assert(u[i] == t[i] && u[j] == x);
                if i < p - 1 {
                    assert(text_order()(t[i], t[p - 1]));
                }
                crate::fmt::lemma_text_lt_total(t[i], t[p - 1]);
                if text_lt(x, t[i]) && text_lt(t[i], t[p - 1]) {
                    crate::fmt::lemma_text_lt_transitive(x, t[i], t[p - 1]);
                }
            } else if i == p {
                assert(u[i] == x && u[j] == t[j - 1]);
                assert(text_lt(x, t[j - 1]));
                crate::fmt::lemma_text_lt_total(x, t[j - 1]);
            } else if i < p {
                assert(u[i] == t[i] && u[j] == t[j - 1]);
            } else {
                assert(u[i] == t[i - 1] && u[j] == t[j - 1]);
            }
        }
    }
}

/// A map keeps equal multisets equal.
pub(crate) proof fn lemma_map_values_multiset<A, B>(s1: Seq<A>, s2: Seq<A>, f: spec_fn(A) -> B)
    requires
        s1.to_multiset() == s2.to_multiset(),
    ensures
        s1.map_values(f).to_multiset() == s2.map_values(f).to_multiset(),
    decreases s1.len(),
{
    broadcast use vstd::seq_lib::group_to_multiset_ensures;
    broadcast use vstd::multiset::group_multiset_axioms;
    if s1.len() == 0 {
        vstd::seq_lib::to_multiset_len(s1);
        vstd::seq_lib::to_multiset_len(s2);
        assert(s2.len() == 0);
        assert(s1.map_values(f) =~= Seq::<B>::empty());
        assert(s2.map_values(f) =~= Seq::<B>::empty());
    } else {
        let x = s1.last();
        assert(s1.contains(x));
        assert(s1.to_multiset().count(x) > 0);
        assert(s2.to_multiset().count(x) > 0);
        assert(s2.contains(x));
        let k = choose|k: int| 0 <= k < s2.len() && s2[k] == x;
        let r1 = s1.drop_last();
        let r2 = s2.remove(k);
        assert(0 <= k < s2.len());
        assert(r1.push(x) =~= s1);
        assert(r1.to_multiset() =~= s1.to_multiset().remove(x));
        assert(r2.to_multiset() =~= s2.to_multiset().remove(x));
        lemma_map_values_multiset(r1, r2, f);
        assert(s1.map_values(f) =~= r1.map_values(f).push(f(x)));
        assert(0 <= k <= r2.len());
        assert(s2.map_values(f) =~= r2.map_values(f).insert(k, f(x)));
    }
}

/// Sorting depends only on which texts there are (and how often), not on their order.
pub proof fn lemma_sort_texts_unique(s1: Seq<Seq<char>>, s2: Seq<Seq<char>>)
    requires
        s1.to_multiset() == s2.to_multiset(),
    ensures
        sort_texts(s1) == sort_texts(s2),
{
    lemma_sort_texts_sorted(s1);
    lemma_sort_texts_sorted(s2);
    lemma_sort_texts_multiset(s1);
    lemma_sort_texts_multiset(s2);
    crate::fmt::lemma_text_le_total_ordering();
    vstd::seq_lib::lemma_sorted_unique(sort_texts(s1), sort_texts(s2), text_order());
}

proof fn lemma_first_rule_bounds(rules: Seq<GroupingRuleView>, name: Seq<char>, k: int)
    ensures
        first_rule_from(rules, name, k) matches Some(i) ==> k <= i < rules.len() && 0 <= i,
    decreases rules.len() - k,
{
    if 0 <= k < rules.len() && !rule_matches_spec(rules[k], name) {
        lemma_first_rule_bounds(rules, name, k + 1);
    }
}

/// Each bucket key starts with the name of a rule.
proof fn lemma_bucket_keys_named(rules: Seq<GroupingRuleView>, cs: Seq<UpdateCandidateView>)
    ensures
        bucket_keys(rules, cs).no_duplicates(),
        forall|j: int| 0 <= j < bucket_keys(rules, cs).len() ==> exists|i: int|
            0 <= i < rules.len() && starts_with_spec(#[trigger] bucket_keys(rules, cs)[j], rules[i].name),
    decreases cs.len(),
{
    if cs.len() > 0 {
        let p = cs.drop_last();
        lemma_bucket_keys_named(rules, p);
        let prev = bucket_keys(rules, p);
        match bucket_key(rules, cs.last()) {
            Some(k) => {
                if !prev.contains(k) {
                    let i = first_rule_from(rules, cs.last().dependency.name, 0)->0;
                    lemma_first_rule_bounds(rules, cs.last().dependency.name, 0);
                    let sub = sub_group_key_spec(rules[i], cs.last());
                    if sub.len() == 0 {
                        assert(rules[i].name.subrange(0, rules[i].name.len() as int) =~= rules[i].name);
                    } else {
                        assert((rules[i].name + "-"@ + sub).subrange(0, rules[i].name.len() as int) =~= rules[i].name);
                    }
                    assert(starts_with_spec(k, rules[i].name));
                    assert forall|j: int| 0 <= j < bucket_keys(rules, cs).len() implies exists|i2: int|
                        0 <= i2 < rules.len() && starts_with_spec(#[trigger] bucket_keys(rules, cs)[j], rules[i2].name) by {
                        if j < prev.len() {
                            assert(bucket_keys(rules, cs)[j] == prev[j]);
                        }
                    }
                }
            },
            None => {},
        }
    }
}

/// The keys that are not yet emitted and start with `prefix`: all of them, each
/// once, and no other.
proof fn lemma_fresh_with_prefix(ks: Seq<Seq<char>>, prefix: Seq<char>, done: Seq<Seq<char>>)
    requires
        ks.no_duplicates(),
    ensures
        fresh_with_prefix(ks, prefix, done).no_duplicates(),
        forall|k: Seq<char>| #[trigger] fresh_with_prefix(ks, prefix, done).contains(k) <==> (ks.contains(k)
            && starts_with_spec(k, prefix) && !done.contains(k)),
    decreases ks.len(),
{
    if ks.len() > 0 {
        let p = ks.drop_last();
        assert(p.no_duplicates());
        lemma_fresh_with_prefix(p, prefix, done);
        let f = fresh_with_prefix(p, prefix, done);
        assert(!p.contains(ks.last()));
        assert forall|k: Seq<char>| ks.contains(k) <==> (p.contains(k) || k == ks.last()) by {
            if ks.contains(k) {
                let m = choose|m: int| 0 <= m < ks.len() && ks[m] == k;
                if m < p.len() {
                    assert(p[m] == k);
                }
            }
            if p.contains(k) {
                let m = choose|m: int| 0 <= m < p.len() && p[m] == k;
                assert(ks[m] == k);
            }
            if k == ks.last() {
                assert(ks[ks.len() - 1] == k);
            }
        }
        if starts_with_spec(ks.last(), prefix) && !done.contains(ks.last()) {
            let g = f.push(ks.last());
            assert forall|k: Seq<char>| g.contains(k) <==> (f.contains(k) || k == ks.last()) by {
                if g.contains(k) {
                    let m = choose|m: int| 0 <= m < g.len() && g[m] == k;
                    if m < f.len() {
                        assert(f[m] == k);
                    }
                }
                if f.contains(k) {
                    let m = choose|m: int| 0 <= m < f.len() && f[m] == k;
                    assert(g[m] == k);
                }
                if k == ks.last() {
                    assert(g[f.len() as int] == k);
                }
            }
            assert forall|a: int, b: int| 0 <= a < g.len() && 0 <= b < g.len() && a != b implies g[a] != g[b] by {
                if a < f.len() && b < f.len() {
                } else if a < f.len() {
                    assert(f.contains(g[a]));
                } else if b < f.len() {
                    assert(f.contains(g[b]));
                }
            }
        }
    }
}

/// A duplicate-free sequence with the same elements as another duplicate-free
/// sequence has the same multiset.
proof fn lemma_same_elements_same_multiset(a: Seq<Seq<char>>, b: Seq<Seq<char>>)
    requires
        a.no_duplicates(),
        b.no_duplicates(),
        forall|k: Seq<char>| a.contains(k) <==> b.contains(k),
    ensures
        a.to_multiset() == b.to_multiset(),
{
    broadcast use vstd::seq_lib::group_to_multiset_ensures;
    a.lemma_multiset_has_no_duplicates();
    b.lemma_multiset_has_no_duplicates();
    assert forall|k: Seq<char>| a.to_multiset().count(k) == b.to_multiset().count(k) by {
        if a.contains(k) {
            assert(a.to_multiset().contains(k));
            assert(b.to_multiset().contains(k));
        } else {
            assert(!b.contains(k));
        }
    }
    assert(a.to_multiset() =~= b.to_multiset());
}

/// The emitted keys are the bucket keys: each once, none else.
proof fn lemma_emitted_keys(rules: Seq<GroupingRuleView>, ks: Seq<Seq<char>>)
    requires
        ks.no_duplicates(),
    ensures
        emitted_keys(rules, ks).no_duplicates(),
        forall|k: Seq<char>| #[trigger] emitted_keys(rules, ks).contains(k) ==> ks.contains(k),
        forall|k: Seq<char>, i: int| 0 <= i < rules.len() && ks.contains(k) && starts_with_spec(k, #[trigger] rules[i].name)
            ==> #[trigger] emitted_keys(rules, ks).contains(k),
    decreases rules.len(),
{
    broadcast use vstd::seq_lib::group_to_multiset_ensures;
    if rules.len() > 0 {
        let rp = rules.drop_last();
        lemma_emitted_keys(rp, ks);
        let prev = emitted_keys(rp, ks);
        let name = rules.last().name;
        let f = fresh_with_prefix(ks, name, prev);
        lemma_fresh_with_prefix(ks, name, prev);
        let sf = sort_texts(f);
        lemma_sort_texts_multiset(f);
        f.lemma_multiset_has_no_duplicates();
        sf.lemma_multiset_has_no_duplicates_conv();
        assert forall|k: Seq<char>| sf.contains(k) <==> f.contains(k) by {
            assert(sf.to_multiset().count(k) == f.to_multiset().count(k));
        }
        let e = prev + sf;
        assert(e == emitted_keys(rules, ks));
        assert forall|k: Seq<char>| e.contains(k) <==> (prev.contains(k) || sf.contains(k)) by {
            if e.contains(k) {
                let m = choose|m: int| 0 <= m < e.len() && e[m] == k;
                if m < prev.len() {
                    assert(prev[m] == k);
                } else {
                    assert(sf[m - prev.len()] == k);
                }
            }
            if prev.contains(k) {
                let m = choose|m: int| 0 <= m < prev.len() && prev[m] == k;
                assert(e[m] == k);
            }
            if sf.contains(k) {
                let m = choose|m: int| 0 <= m < sf.len() && sf[m] == k;
                assert(e[prev.len() + m] == k);
            }
        }
        assert forall|a: int, b: int| 0 <= a < e.len() && 0 <= b < e.len() && a != b implies e[a] != e[b] by {
            if a < prev.len() && b < prev.len() {
            } else if a >= prev.len() && b >= prev.len() {
                assert(e[a] == sf[a - prev.len()]);
                assert(e[b] == sf[b - prev.len()]);
            } else if a < prev.len() {
                assert(prev.contains(e[a]));
                assert(sf.contains(e[b]));
            } else {
                assert(prev.contains(e[b]));
                assert(sf.contains(e[a]));
            }
        }
        assert forall|k: Seq<char>, i: int| 0 <= i < rules.len() && ks.contains(k) && starts_with_spec(k, #[trigger] rules[i].name)
            implies #[trigger] e.contains(k) by {
            if i < rp.len() {
                assert(rp[i] == rules[i]);
                assert(prev.contains(k));
            } else if !prev.contains(k) {
                assert(f.contains(k));
            }
        }
    }
}

/// Taking one key out of the key list takes out exactly its bucket's members.
proof fn lemma_members_remove(rules: Seq<GroupingRuleView>, cs: Seq<UpdateCandidateView>, ks: Seq<Seq<char>>, i: int)
    requires
        0 <= i < ks.len(),
    ensures
        members_of_keys(rules, cs, ks).to_multiset() == members_of_keys(rules, cs, ks.remove(i)).to_multiset().add(
            bucket_members(rules, cs, ks[i]).to_multiset(),
        ),
    decreases ks.len(),
{
    broadcast use vstd::seq_lib::lemma_multiset_commutative;
    broadcast use vstd::multiset::group_multiset_axioms;
    if i == ks.len() - 1 {
        assert(ks.remove(i) =~= ks.drop_last());
    } else {
        lemma_members_remove(rules, cs, ks.drop_last(), i);
        assert(ks.remove(i).drop_last() =~= ks.drop_last().remove(i));
        assert(ks.remove(i).last() == ks.last());
        assert(ks.drop_last()[i] == ks[i]);
        let a = members_of_keys(rules, cs, ks.drop_last().remove(i)).to_multiset();
        let b = bucket_members(rules, cs, ks[i]).to_multiset();
        let c = bucket_members(rules, cs, ks.last()).to_multiset();
        assert(members_of_keys(rules, cs, ks).to_multiset() =~= a.add(b).add(c));
        assert(members_of_keys(rules, cs, ks.remove(i)).to_multiset() =~= a.add(c));
    }
}

/// The members of a key list depend on its keys only, not on their order.
proof fn lemma_members_permutation(rules: Seq<GroupingRuleView>, cs: Seq<UpdateCandidateView>, ks1: Seq<Seq<char>>, ks2: Seq<Seq<char>>)
    requires
        ks1.to_multiset() == ks2.to_multiset(),
    ensures
        members_of_keys(rules, cs, ks1).to_multiset() == members_of_keys(rules, cs, ks2).to_multiset(),
    decreases ks1.len(),
{
    broadcast use vstd::seq_lib::group_to_multiset_ensures;
    broadcast use vstd::seq_lib::lemma_multiset_commutative;
    broadcast use vstd::multiset::group_multiset_axioms;
    if ks1.len() == 0 {
        assert(ks2.to_multiset().len() == 0);
        assert(ks2.len() == 0);
        assert(ks2 =~= Seq::<Seq<char>>::empty());
    } else {
        let k = ks1.last();
        let p = ks1.drop_last();
        assert(p.push(k) =~= ks1);
        assert(ks1.to_multiset().count(k) > 0);
        assert(ks2.to_multiset().count(k) > 0);
        assert(ks2.contains(k));
        let i = choose|i: int| 0 <= i < ks2.len() && ks2[i] == k;
        assert(ks2.remove(i).to_multiset() =~= ks2.to_multiset().remove(k));
        assert(p.to_multiset() =~= ks1.to_multiset().remove(k));
        lemma_members_permutation(rules, cs, p, ks2.remove(i));
        lemma_members_remove(rules, cs, ks2, i);
    }
}

/// Buckets that a new candidate does not fall in keep their members.
proof fn lemma_members_unchanged(rules: Seq<GroupingRuleView>, p: Seq<UpdateCandidateView>, c: UpdateCandidateView, ks: Seq<Seq<char>>)
    requires
        forall|j: int| 0 <= j < ks.len() ==> bucket_key(rules, c) != Some(#[trigger] ks[j]),
    ensures
        members_of_keys(rules, p.push(c), ks) == members_of_keys(rules, p, ks),
    decreases ks.len(),
{
    if ks.len() > 0 {
        assert(p.push(c).drop_last() =~= p);
        assert(bucket_key(rules, c) != Some(ks[ks.len() - 1]));
        lemma_members_unchanged(rules, p, c, ks.drop_last());
    }
}

/// A new candidate joins the one bucket of its key.
proof fn lemma_members_join(rules: Seq<GroupingRuleView>, p: Seq<UpdateCandidateView>, c: UpdateCandidateView, ks: Seq<Seq<char>>, k: Seq<char>)
    requires
        ks.no_duplicates(),
        ks.contains(k),
        bucket_key(rules, c) == Some(k),
    ensures
        members_of_keys(rules, p.push(c), ks).to_multiset() == members_of_keys(rules, p, ks).to_multiset().insert(c),
    decreases ks.len(),
{
    broadcast use vstd::seq_lib::group_to_multiset_ensures;
    broadcast use vstd::seq_lib::lemma_multiset_commutative;
    broadcast use vstd::multiset::group_multiset_axioms;
    assert(p.push(c).drop_last() =~= p);
    let q = ks.drop_last();
    if ks.last() == k {
        assert forall|j: int| 0 <= j < q.len() implies bucket_key(rules, c) != Some(#[trigger] q[j]) by {
            assert(q[j] == ks[j]);
            assert(ks[ks.len() - 1] == k);
        }
        lemma_members_unchanged(rules, p, c, q);
    } else {
        let m = choose|m: int| 0 <= m < ks.len() && ks[m] == k;
        assert(q[m] == k);
        assert(q.no_duplicates());
        lemma_members_join(rules, p, c, q, k);
    }
}

/// The buckets and the unmatched candidates together hold every candidate.
proof fn lemma_buckets_cover(rules: Seq<GroupingRuleView>, cs: Seq<UpdateCandidateView>)
    ensures
        members_of_keys(rules, cs, bucket_keys(rules, cs)).to_multiset().add(unmatched(rules, cs).to_multiset())
            == cs.to_multiset(),
    decreases cs.len(),
{
    broadcast use vstd::seq_lib::group_to_multiset_ensures;
    broadcast use vstd::seq_lib::lemma_multiset_commutative;
    broadcast use vstd::multiset::group_multiset_axioms;
    if cs.len() == 0 {
        assert(cs.to_multiset() =~= vstd::multiset::Multiset::empty());
    } else {
        let p = cs.drop_last();
        let c = cs.last();
        assert(p.push(c) =~= cs);
        lemma_buckets_cover(rules, p);
        lemma_bucket_keys_named(rules, p);
        let kp = bucket_keys(rules, p);
        match bucket_key(rules, c) {
            None => {
                assert forall|j: int| 0 <= j < kp.len() implies bucket_key(rules, c) != Some(#[trigger] kp[j]) by {}
                lemma_members_unchanged(rules, p, c, kp);
            },
            Some(k) => {
                if kp.contains(k) {
                    lemma_members_join(rules, p, c, kp, k);
                } else {
                    assert forall|j: int| 0 <= j < kp.len() implies bucket_key(rules, c) != Some(#[trigger] kp[j]) by {}
                    lemma_members_unchanged(rules, p, c, kp);
                    lemma_members_absent(rules, p, k);
                    assert(kp.push(k).drop_last() =~= kp);
                    assert(bucket_members(rules, cs, k) =~= seq![c]);
                }
            },
        }
    }
}

proof fn lemma_grouped_concat(a: Seq<GroupView>, b: Seq<GroupView>)
    ensures
        grouped_candidates(a + b) == grouped_candidates(a) + grouped_candidates(b),
    decreases b.len(),
{
    if b.len() == 0 {
        assert(a + b =~= a);
        assert(grouped_candidates(a) + Seq::<UpdateCandidateView>::empty() =~= grouped_candidates(a));
    } else {
        lemma_grouped_concat(a, b.drop_last());
        assert((a + b).drop_last() =~= a + b.drop_last());
        assert(grouped_candidates(a) + grouped_candidates(b.drop_last()) + b.last().candidates =~= grouped_candidates(a)
            + (grouped_candidates(b.drop_last()) + b.last().candidates));
    }
}

proof fn lemma_grouped_buckets(rules: Seq<GroupingRuleView>, cs: Seq<UpdateCandidateView>, ks: Seq<Seq<char>>)
    ensures
        grouped_candidates(ks.map_values(|k: Seq<char>| GroupView { name: k, candidates: bucket_members(rules, cs, k) }))
            == members_of_keys(rules, cs, ks),
    decreases ks.len(),
{
    if ks.len() > 0 {
        lemma_grouped_buckets(rules, cs, ks.drop_last());
        assert(ks.map_values(|k: Seq<char>| GroupView { name: k, candidates: bucket_members(rules, cs, k) }).drop_last()
            =~= ks.drop_last().map_values(|k: Seq<char>| GroupView { name: k, candidates: bucket_members(rules, cs, k) }));
    }
}

proof fn lemma_grouped_singletons(rest: Seq<UpdateCandidateView>)
    ensures
        grouped_candidates(rest.map_values(|c: UpdateCandidateView| GroupView { name: single_group_name(c), candidates: seq![c] }))
            == rest,
    decreases rest.len(),
{
    if rest.len() > 0 {
        lemma_grouped_singletons(rest.drop_last());
        assert(rest.map_values(|c: UpdateCandidateView| GroupView { name: single_group_name(c), candidates: seq![c] }).drop_last()
            =~= rest.drop_last().map_values(|c: UpdateCandidateView| GroupView { name: single_group_name(c), candidates: seq![c] }));
        assert(rest.drop_last() + seq![rest.last()] =~= rest);
    }
}

/// Grouping partitions the candidates: taken together, the groups hold every
/// candidate exactly as often as it was given, whatever the rules and the
/// default grouping.
pub proof fn lemma_groups_partition(cs: Seq<UpdateCandidateView>, rules: Seq<GroupingRuleView>, default_grouping: Seq<char>)
    ensures
        grouped_candidates(group_candidates_spec(cs, rules, default_grouping)).to_multiset() == cs.to_multiset(),
{
    broadcast use vstd::seq_lib::lemma_multiset_commutative;
    let ks = bucket_keys(rules, cs);
    let keys = emitted_keys(rules, ks);
    lemma_bucket_keys_named(rules, cs);
    lemma_emitted_keys(rules, ks);
    assert forall|k: Seq<char>| keys.contains(k) <==> ks.contains(k) by {
        if ks.contains(k) {
            let j = choose|j: int| 0 <= j < ks.len() && ks[j] == k;
            let i = choose|i: int| 0 <= i < rules.len() && starts_with_spec(#[trigger] ks[j], rules[i].name);
            assert(starts_with_spec(k, rules[i].name));
        }
    }
    lemma_same_elements_same_multiset(keys, ks);
    lemma_members_permutation(rules, cs, keys, ks);
    lemma_buckets_cover(rules, cs);
    let ruled = keys.map_values(|k: Seq<char>| GroupView { name: k, candidates: bucket_members(rules, cs, k) });
    lemma_grouped_buckets(rules, cs, keys);
    let rest = unmatched(rules, cs);
    let tail = if default_grouping == "grouped"@ {
        if rest.len() > 0 {
            seq![GroupView { name: "all"@, candidates: rest }]
        } else {
            seq![]
        }
    } else {
        rest.map_values(|c: UpdateCandidateView| GroupView { name: single_group_name(c), candidates: seq![c] })
    };
    assert(grouped_candidates(tail) == rest) by {
        if default_grouping == "grouped"@ {
            if rest.len() > 0 {
                let t = seq![GroupView { name: "all"@, candidates: rest }];
                assert(t.drop_last() =~= Seq::<GroupView>::empty());
                assert(grouped_candidates(Seq::<GroupView>::empty()) =~= Seq::<UpdateCandidateView>::empty());
                assert(grouped_candidates(t) =~= Seq::<UpdateCandidateView>::empty() + rest);
                assert(Seq::<UpdateCandidateView>::empty() + rest =~= rest);
            } else {
                assert(rest =~= Seq::<UpdateCandidateView>::empty());
                assert(grouped_candidates(Seq::<GroupView>::empty()) =~= Seq::<UpdateCandidateView>::empty());
            }
        } else {
            lemma_grouped_singletons(rest);
        }
    }
    assert(group_candidates_spec(cs, rules, default_grouping) == ruled + tail);
    lemma_grouped_concat(ruled, tail);
}


/// What `first_rule_from` finds: the first rule at or after `k` that matches, or
/// that none does.
proof fn lemma_first_rule_from(rules: Seq<GroupingRuleView>, name: Seq<char>, k: int)
    requires
        0 <= k,
    ensures
        match first_rule_from(rules, name, k) {
            Some(i) => k <= i < rules.len() && rule_matches_spec(rules[i], name) && forall|j: int|
                k <= j < i ==> !rule_matches_spec(#[trigger] rules[j], name),
            None => forall|j: int| k <= j < rules.len() ==> !rule_matches_spec(#[trigger] rules[j], name),
        },
    decreases rules.len() - k,
{
    if k < rules.len() && !rule_matches_spec(rules[k], name) {
        lemma_first_rule_from(rules, name, k + 1);
    }
}

/// Every member of a bucket has that bucket's key.
proof fn lemma_members_keyed(rules: Seq<GroupingRuleView>, cs: Seq<UpdateCandidateView>, key: Seq<char>)
    ensures
        forall|i: int| 0 <= i < bucket_members(rules, cs, key).len() ==> bucket_key(rules, #[trigger] bucket_members(rules, cs, key)[i]) == Some(key),
    decreases cs.len(),
{
    if cs.len() > 0 {
        lemma_members_keyed(rules, cs.drop_last(), key);
    }
}

/// No rule gives a bucket to an unmatched candidate.
proof fn lemma_unmatched_unkeyed(rules: Seq<GroupingRuleView>, cs: Seq<UpdateCandidateView>)
    ensures
        forall|i: int| 0 <= i < unmatched(rules, cs).len() ==> bucket_key(rules, #[trigger] unmatched(rules, cs)[i]) is None,
    decreases cs.len(),
{
    if cs.len() > 0 {
        lemma_unmatched_unkeyed(rules, cs.drop_last());
    }
}

/// The name of the bucket a rule gives a candidate: the rule's name, then `-` and
/// the sub-group when there is one.
pub open spec fn rule_bucket_name(rule: GroupingRuleView, c: UpdateCandidateView) -> Seq<char> {
    let sub = sub_group_key_spec(rule, c);
    if sub.len() == 0 { rule.name } else { rule.name + "-"@ + sub }
}

/// Rules are tried in order and the first that matches wins: a candidate that
/// some rule matches lies in the group named after the first such rule (with
/// its sub-group); a candidate that no rule matches lies in the `all` group or
/// in a group of its own named after its manager and name.
pub proof fn lemma_first_matching_rule_wins(cs: Seq<UpdateCandidateView>, rules: Seq<GroupingRuleView>, default_grouping: Seq<char>)
    ensures
        forall|gi: int, ci: int|
            #![trigger group_candidates_spec(cs, rules, default_grouping)[gi].candidates[ci]]
            0 <= gi < group_candidates_spec(cs, rules, default_grouping).len() && 0 <= ci < group_candidates_spec(
                cs,
                rules,
                default_grouping,
            )[gi].candidates.len() ==> {
                let g = group_candidates_spec(cs, rules, default_grouping)[gi];
                let c = g.candidates[ci];
                match first_rule_from(rules, c.dependency.name, 0) {
                    Some(r) => {
                        &&& 0 <= r < rules.len()
                        &&& rule_matches_spec(rules[r], c.dependency.name)
                        &&& forall|j: int| 0 <= j < r ==> !rule_matches_spec(#[trigger] rules[j], c.dependency.name)
                        &&& g.name == rule_bucket_name(rules[r], c)
                    },
                    None => {
                        &&& forall|j: int| 0 <= j < rules.len() ==> !rule_matches_spec(#[trigger] rules[j], c.dependency.name)
                        &&& (g.name == "all"@ || g.name == single_group_name(c))
                    },
                }
            },
{
    let gs = group_candidates_spec(cs, rules, default_grouping);
    let keys = emitted_keys(rules, bucket_keys(rules, cs));
    let ruled = keys.map_values(|k: Seq<char>| GroupView { name: k, candidates: bucket_members(rules, cs, k) });
    let rest = unmatched(rules, cs);
    let tail = if default_grouping == "grouped"@ {
        if rest.len() > 0 {
            seq![GroupView { name: "all"@, candidates: rest }]
        } else {
            seq![]
        }
    } else {
        rest.map_values(|c: UpdateCandidateView| GroupView { name: single_group_name(c), candidates: seq![c] })
    };
    assert(gs == ruled + tail);
    lemma_unmatched_unkeyed(rules, cs);
    assert forall|gi: int, ci: int|
        #![trigger gs[gi].candidates[ci]]
        0 <= gi < gs.len() && 0 <= ci < gs[gi].candidates.len() implies {
            let g = gs[gi];
            let c = g.candidates[ci];
            match first_rule_from(rules, c.dependency.name, 0) {
                Some(r) => {
                    &&& 0 <= r < rules.len()
                    &&& rule_matches_spec(rules[r], c.dependency.name)
                    &&& forall|j: int| 0 <= j < r ==> !rule_matches_spec(#[trigger] rules[j], c.dependency.name)
                    &&& g.name == rule_bucket_name(rules[r], c)
                },
                None => {
                    &&& forall|j: int| 0 <= j < rules.len() ==> !rule_matches_spec(#[trigger] rules[j], c.dependency.name)
                    &&& (g.name == "all"@ || g.name == single_group_name(c))
                },
            }
        } by {
        let g = gs[gi];
        let c = g.candidates[ci];
        lemma_first_rule_from(rules, c.dependency.name, 0);
        if gi < ruled.len() {
            assert(g == ruled[gi]);
            lemma_members_keyed(rules, cs, keys[gi]);
            assert(bucket_key(rules, bucket_members(rules, cs, keys[gi])[ci]) == Some(keys[gi]));
        } else {
            assert(g == tail[gi - ruled.len()]);
            if default_grouping == "grouped"@ {
                assert(g.candidates == rest);
                assert(bucket_key(rules, rest[ci]) is None);
            } else {
                let k = gi - ruled.len();
                assert(g == GroupView { name: single_group_name(rest[k]), candidates: seq![rest[k]] });
                assert(c == rest[k]);
                assert(bucket_key(rules, rest[k]) is None);
            }
        }
    }
}

} // verus!
