//! The dependency dashboard: the status of every tracked dependency and its
//! markdown rendering.
use vstd::prelude::*;

use crate::fmt::decimal_of;
use crate::fmt::decimal_spec;
use crate::fmt::text_less;
use crate::fmt::text_lt;
use crate::manager::Dependency;
use crate::manager::DependencyView;
use crate::orchestrator::UpdateCandidate;
use crate::orchestrator::UpdateCandidateView;
use crate::platform::gitlab::Issue;
use crate::platform::gitlab::MergeRequest;
use crate::platform::gitlab::MergeRequestView;
use crate::text::chars_of;
use crate::text::copy_string;
use crate::text::extend_chars;
use crate::text::opt_view;
use crate::text::push_text;
use crate::text::replace_all;
use crate::text::replace_spec;
use crate::text::string_of;
use crate::util::manager_name;
use crate::util::manager_name_spec;

verus! {

/// Title of the dashboard issue.
pub const DASHBOARD_TITLE: &'static str = "Dependency Dashboard";

/// Where a dependency stands.
#[derive(Debug, Clone, Copy, PartialEq, Eq, Structural)]
pub enum DependencyState {
    UpToDate,
    PendingUpdate,
    OpenMr,
}

/// Summary of a single dependency for dashboard display.
#[derive(Debug, Clone)]
pub struct DependencyStatus {
    pub name: String,
    pub manager: String,
    pub current_version: String,
    pub new_version: Option<String>,
    pub file_path: String,
    pub mr_url: Option<String>,
    pub mr_iid: Option<u64>,
    pub state: DependencyState,
}

pub struct DependencyStatusView {
    pub name: Seq<char>,
    pub manager: Seq<char>,
    pub current_version: Seq<char>,
    pub new_version: Option<Seq<char>>,
    pub file_path: Seq<char>,
    pub mr_url: Option<Seq<char>>,
    pub mr_iid: Option<u64>,
    pub state: DependencyState,
}

impl View for DependencyStatus {
    type V = DependencyStatusView;

    open spec fn view(&self) -> DependencyStatusView {
        DependencyStatusView {
            name: self.name@,
            manager: self.manager@,
            current_version: self.current_version@,
            new_version: opt_view(self.new_version),
            file_path: self.file_path@,
            mr_url: opt_view(self.mr_url),
            mr_iid: self.mr_iid,
            state: self.state,
        }
    }
}

pub open spec fn statuses_view(v: Seq<DependencyStatus>) -> Seq<DependencyStatusView> {
    v.map_values(|s: DependencyStatus| s@)
}

/// Index of the last candidate for the dependency named `name` (the one a
/// name-keyed map built from the candidates keeps).
pub open spec fn last_candidate(cands: Seq<UpdateCandidateView>, name: Seq<char>) -> Option<int>
    decreases cands.len(),
{
    if cands.len() == 0 {
        None
    } else if cands.last().dependency.name == name {
        Some(cands.len() - 1)
    } else {
        last_candidate(cands.drop_last(), name)
    }
}

/// Index of the last open merge request whose source branch is `branch`.
pub open spec fn last_mr(mrs: Seq<MergeRequestView>, branch: Seq<char>) -> Option<int>
    decreases mrs.len(),
{
    if mrs.len() == 0 {
        None
    } else if mrs.last().source_branch == branch {
        Some(mrs.len() - 1)
    } else {
        last_mr(mrs.drop_last(), branch)
    }
}

/// The branch an update of `dep` to `tag` is proposed on.
pub open spec fn update_branch_spec(prefix: Seq<char>, dep: DependencyView, tag: Seq<char>) -> Seq<char> {
    prefix + manager_name_spec(dep.registry) + "-"@ + replace_spec(dep.name, "/"@, "-"@) + "-"@ + tag
}

/// The status of one dependency: an open merge request on its update branch, a
/// pending update, or up to date.
pub open spec fn status_spec(
    dep: DependencyView,
    cands: Seq<UpdateCandidateView>,
    mrs: Seq<MergeRequestView>,
    prefix: Seq<char>,
) -> DependencyStatusView {
    let manager = manager_name_spec(dep.registry);
    let cand = last_candidate(cands, dep.name);
    let open_mr = match cand {
        Some(ci) => last_mr(mrs, update_branch_spec(prefix, dep, cands[ci].new_version.original_tag)),
        None => None,
    };
    let new_version = match cand {
        Some(ci) => Some(cands[ci].new_version.original_tag),
        None => None,
    };
    match open_mr {
        Some(mi) => DependencyStatusView {
            name: dep.name,
            manager,
            current_version: dep.current_version,
            new_version,
            file_path: dep.file_path,
            mr_url: Some(mrs[mi].web_url),
            mr_iid: Some(mrs[mi].iid),
            state: DependencyState::OpenMr,
        },
        None => DependencyStatusView {
            name: dep.name,
            manager,
            current_version: dep.current_version,
            new_version,
            file_path: dep.file_path,
            mr_url: None,
            mr_iid: None,
            state: if cand is Some { DependencyState::PendingUpdate } else { DependencyState::UpToDate },
        },
    }
}

/// Display rank of a state: pending updates first, then open merge requests, then the rest.
pub open spec fn state_rank(s: DependencyState) -> int {
    match s {
        DependencyState::PendingUpdate => 0,
        DependencyState::OpenMr => 1,
        DependencyState::UpToDate => 2,
    }
}

/// `a` sorts strictly before `b`: by state rank, then by name.
pub open spec fn status_before(a: DependencyStatusView, b: DependencyStatusView) -> bool {
    state_rank(a.state) < state_rank(b.state) || (state_rank(a.state) == state_rank(b.state) && text_lt(
        a.name,
        b.name,
    ))
}

/// Inserts `x` into `s` after every element that does not sort strictly after it.
pub open spec fn insert_status(s: Seq<DependencyStatusView>, x: DependencyStatusView) -> Seq<DependencyStatusView>
    decreases s.len(),
{
    if s.len() > 0 && status_before(x, s.last()) {
        insert_status(s.drop_last(), x).push(s.last())
    } else {
        s.push(x)
    }
}

/// The stable sort of `s` by state rank and name.
pub open spec fn sort_statuses(s: Seq<DependencyStatusView>) -> Seq<DependencyStatusView>
    decreases s.len(),
{
    if s.len() == 0 {
        seq![]
    } else {
        insert_status(sort_statuses(s.drop_last()), s.last())
    }
}

/// The dashboard statuses of all dependencies, stably sorted by state and name.
pub open spec fn build_statuses_spec(
    deps: Seq<DependencyView>,
    cands: Seq<UpdateCandidateView>,
    mrs: Seq<MergeRequestView>,
    prefix: Seq<char>,
) -> Seq<DependencyStatusView> {
    sort_statuses(deps.map_values(|d: DependencyView| status_spec(d, cands, mrs, prefix)))
}

/// The position at which `insert_status` puts `x`.
pub open spec fn insert_pos(s: Seq<DependencyStatusView>, x: DependencyStatusView) -> int
    decreases s.len(),
{
    if s.len() > 0 && status_before(x, s.last()) {
        insert_pos(s.drop_last(), x)
    } else {
        s.len() as int
    }
}

proof fn lemma_insert_pos(s: Seq<DependencyStatusView>, x: DependencyStatusView)
    ensures
        0 <= insert_pos(s, x) <= s.len(),
        insert_status(s, x) == s.insert(insert_pos(s, x), x),
        forall|j: int| insert_pos(s, x) <= j < s.len() ==> status_before(x, #[trigger] s[j]),
        insert_pos(s, x) > 0 ==> !status_before(x, s[insert_pos(s, x) - 1]),
    decreases s.len(),
{
    if s.len() > 0 && status_before(x, s.last()) {
        lemma_insert_pos(s.drop_last(), x);
        let p = insert_pos(s.drop_last(), x);
        assert(s.drop_last().insert(p, x).push(s.last()) =~= s.insert(p, x));
        assert forall|j: int| p <= j < s.len() implies status_before(x, #[trigger] s[j]) by {
            if j < s.len() - 1 {
                assert(s[j] == s.drop_last()[j]);
            }
        }
        if p > 0 {
            assert(s[p - 1] == s.drop_last()[p - 1]);
        }
    } else {
        assert(s.push(x) =~= s.insert(s.len() as int, x));
    }
}

proof fn lemma_insert_status_sorted(s: Seq<DependencyStatusView>, x: DependencyStatusView)
    requires
        forall|i: int, j: int| 0 <= i < j < s.len() ==> !status_before(s[j], s[i]),
    ensures
        forall|i: int, j: int| 0 <= i < j < insert_status(s, x).len() ==> !status_before(
            insert_status(s, x)[j],
            insert_status(s, x)[i],
        ),
{
    lemma_insert_pos(s, x);
    let p = insert_pos(s, x);
    let t = s.insert(p, x);
    assert forall|i: int, j: int| 0 <= i < j < t.len() implies !status_before(t[j], t[i]) by {
        if i < p && j < p {
            assert(t[i] == s[i] && t[j] == s[j]);
        } else if i < p && j == p {
            assert(t[i] == s[i] && t[j] == x);
            if i < p - 1 {
                assert(!status_before(s[p - 1], s[i]));
                if status_before(x, s[i]) {
                    lemma_status_before_trans(x, s[i], s[p - 1]);
                }
            }
        } else if i < p && j > p {
            assert(t[i] == s[i] && t[j] == s[j - 1]);
        } else if i == p {
            assert(t[i] == x && t[j] == s[j - 1]);
            lemma_status_before_asym(x, s[j - 1]);
        } else {
            assert(t[i] == s[i - 1] && t[j] == s[j - 1]);
        }
    }
}

proof fn lemma_status_before_asym(a: DependencyStatusView, b: DependencyStatusView)
    ensures
        status_before(a, b) ==> !status_before(b, a),
{
    crate::fmt::lemma_text_lt_total(a.name, b.name);
}

/// Sorting strictly before composes with not sorting after.
proof fn lemma_status_before_trans(a: DependencyStatusView, b: DependencyStatusView, c: DependencyStatusView)
    requires
        status_before(a, b),
        !status_before(c, b),
    ensures
        status_before(a, c),
{
    crate::fmt::lemma_text_lt_total(b.name, c.name);
    crate::fmt::lemma_text_lt_irreflexive(b.name);
    if state_rank(a.state) == state_rank(b.state) && state_rank(b.state) == state_rank(c.state) {
        if b.name != c.name {
            crate::fmt::lemma_text_lt_transitive(a.name, b.name, c.name);
        }
    }
}

/// The dashboard lists statuses in order: no status sorts strictly before one
/// that precedes it (pending updates, then open merge requests, then the rest,
/// each by name).
pub proof fn lemma_statuses_sorted(s: Seq<DependencyStatusView>)
    ensures
        forall|i: int, j: int| 0 <= i < j < sort_statuses(s).len() ==> !status_before(sort_statuses(s)[j], sort_statuses(s)[i]),
    decreases s.len(),
{
    if s.len() > 0 {
        lemma_statuses_sorted(s.drop_last());
        lemma_insert_status_sorted(sort_statuses(s.drop_last()), s.last());
    }
}

/// The dashboard shows every dependency once: its statuses are a reordering of
/// one status per scanned dependency.
pub proof fn lemma_statuses_keep_dependencies(
    deps: Seq<DependencyView>,
    cands: Seq<UpdateCandidateView>,
    mrs: Seq<MergeRequestView>,
    prefix: Seq<char>,
)
    ensures
        build_statuses_spec(deps, cands, mrs, prefix).to_multiset() == deps.map_values(
            |d: DependencyView| status_spec(d, cands, mrs, prefix),
        ).to_multiset(),
        build_statuses_spec(deps, cands, mrs, prefix).len() == deps.len(),
{
    broadcast use vstd::seq_lib::group_to_multiset_ensures;
    let m = deps.map_values(|d: DependencyView| status_spec(d, cands, mrs, prefix));
    lemma_sort_statuses_multiset(m);
    assert(sort_statuses(m).to_multiset().len() == m.to_multiset().len());
    assert(sort_statuses(m).len() == m.len());
}

proof fn lemma_sort_statuses_multiset(s: Seq<DependencyStatusView>)
    ensures
        sort_statuses(s).to_multiset() == s.to_multiset(),
    decreases s.len(),
{
    broadcast use vstd::seq_lib::group_to_multiset_ensures;
    if s.len() > 0 {
        lemma_sort_statuses_multiset(s.drop_last());
        lemma_insert_pos(sort_statuses(s.drop_last()), s.last());
        assert(s.drop_last().push(s.last()) =~= s);
    }
}

fn status_less(a: &DependencyStatus, b: &DependencyStatus) -> (r: bool)
    ensures
        r == status_before(a@, b@),
{
    let ra: u8 = match a.state {
        DependencyState::PendingUpdate => 0,
        DependencyState::OpenMr => 1,
        DependencyState::UpToDate => 2,
    };
    let rb: u8 = match b.state {
        DependencyState::PendingUpdate => 0,
        DependencyState::OpenMr => 1,
        DependencyState::UpToDate => 2,
    };
    ra < rb || (ra == rb && text_less(&chars_of(a.name.as_str()), &chars_of(b.name.as_str())))
}

fn find_last_candidate(cands: &[UpdateCandidate], name: &Vec<char>) -> (r: Option<usize>)
    ensures
        match r {
            Some(i) => i < cands@.len() && last_candidate(cands@.map_values(|c: UpdateCandidate| c@), name@) == Some(i as int),
            None => last_candidate(cands@.map_values(|c: UpdateCandidate| c@), name@) is None,
        },
{
    let ghost cv = cands@.map_values(|c: UpdateCandidate| c@);
    let mut i: usize = cands.len();
    assert(cv.take(i as int) =~= cv);
    while i > 0
        invariant
            i <= cands@.len(),
            cv == cands@.map_values(|c: UpdateCandidate| c@),
            last_candidate(cv, name@) == last_candidate(cv.take(i as int), name@),
        decreases i,
    {
        assert(cv.take(i as int).drop_last() =~= cv.take(i - 1));
        assert(cv.take(i as int).last() == cands@[i - 1]@);
        if crate::text::chars_eq(&chars_of(cands[i - 1].dependency.name.as_str()), name) {
            return Some(i - 1);
        }
        i = i - 1;
    }
    None
}

fn find_last_mr(mrs: &[MergeRequest], branch: &Vec<char>) -> (r: Option<usize>)
    ensures
        match r {
            Some(i) => i < mrs@.len() && last_mr(mrs@.map_values(|m: MergeRequest| m@), branch@) == Some(i as int),
            None => last_mr(mrs@.map_values(|m: MergeRequest| m@), branch@) is None,
        },
{
    let ghost mv = mrs@.map_values(|m: MergeRequest| m@);
    let mut i: usize = mrs.len();
    assert(mv.take(i as int) =~= mv);
    while i > 0
        invariant
            i <= mrs@.len(),
            mv == mrs@.map_values(|m: MergeRequest| m@),
            last_mr(mv, branch@) == last_mr(mv.take(i as int), branch@),
        decreases i,
    {
        assert(mv.take(i as int).drop_last() =~= mv.take(i - 1));
        assert(mv.take(i as int).last() == mrs@[i - 1]@);
        if crate::text::chars_eq(&chars_of(mrs[i - 1].source_branch.as_str()), branch) {
            return Some(i - 1);
        }
        i = i - 1;
    }
    None
}

/// Forms the branch name of an update: prefix, manager, name with `/` as `-`, new tag.
pub fn update_branch_name(prefix: &str, dep: &Dependency, tag: &str) -> (r: String)
    ensures
        r@ == update_branch_spec(prefix@, dep@, tag@),
{
    let mut out = chars_of(prefix);
    push_text(&mut out, manager_name(&dep.registry));
    push_text(&mut out, "-");
    let sanitized = replace_all(&chars_of(dep.name.as_str()), &chars_of("/"), &chars_of("-"));
    extend_chars(&mut out, &sanitized);
    push_text(&mut out, "-");
    push_text(&mut out, tag);
    string_of(&out)
}

fn status_of(dep: &Dependency, cands: &[UpdateCandidate], mrs: &[MergeRequest], prefix: &str) -> (r: DependencyStatus)
    ensures
        r@ == status_spec(
            dep@,
            cands@.map_values(|c: UpdateCandidate| c@),
            mrs@.map_values(|m: MergeRequest| m@),
            prefix@,
        ),
{
    let ghost cv = cands@.map_values(|c: UpdateCandidate| c@);
    let ghost mv = mrs@.map_values(|m: MergeRequest| m@);
    let manager = string_of(&chars_of(manager_name(&dep.registry)));
    let cand = find_last_candidate(cands, &chars_of(dep.name.as_str()));
    let (open_mr, new_version) = match cand {
        Some(ci) => {
            assert(cv[ci as int] == cands@[ci as int]@);
            let tag = &cands[ci].new_version.original_tag;
            let branch = update_branch_name(prefix, dep, tag.as_str());
            (find_last_mr(mrs, &chars_of(branch.as_str())), Some(copy_string(tag)))
        },
        None => (None, None),
    };
    match open_mr {
        Some(mi) => {
            assert(mv[mi as int] == mrs@[mi as int]@);
            DependencyStatus {
                name: copy_string(&dep.name),
                manager,
                current_version: copy_string(&dep.current_version),
                new_version,
                file_path: copy_string(&dep.file_path),
                mr_url: Some(copy_string(&mrs[mi].web_url)),
                mr_iid: Some(mrs[mi].iid),
                state: DependencyState::OpenMr,
            }
        },
        None => DependencyStatus {
            name: copy_string(&dep.name),
            manager,
            current_version: copy_string(&dep.current_version),
            new_version,
            file_path: copy_string(&dep.file_path),
            mr_url: None,
            mr_iid: None,
            state: if cand.is_some() { DependencyState::PendingUpdate } else { DependencyState::UpToDate },
        },
    }
}

/// Builds the dashboard status of every dependency found in the scanned files,
/// sorted (stably) with pending updates first, then open merge requests, then
/// up-to-date dependencies, and by name within each.
pub fn build_statuses(
    all_deps: &[(Dependency, String)],
    candidates: &[UpdateCandidate],
    open_mrs: &[MergeRequest],
    branch_prefix: &str,
) -> (r: Vec<DependencyStatus>)
    ensures
        statuses_view(r@) == build_statuses_spec(
            all_deps@.map_values(|p: (Dependency, String)| p.0@),
            candidates@.map_values(|c: UpdateCandidate| c@),
            open_mrs@.map_values(|m: MergeRequest| m@),
            branch_prefix@,
        ),
{
    let ghost dv = all_deps@.map_values(|p: (Dependency, String)| p.0@);
    let ghost cv = candidates@.map_values(|c: UpdateCandidate| c@);
    let ghost mv = open_mrs@.map_values(|m: MergeRequest| m@);
    let ghost unsorted = dv.map_values(|d: DependencyView| status_spec(d, cv, mv, branch_prefix@));
    let mut out: Vec<DependencyStatus> = Vec::new();
    let mut i: usize = 0;
    while i < all_deps.len()
        invariant
            i <= all_deps@.len(),
            dv == all_deps@.map_values(|p: (Dependency, String)| p.0@),
            cv == candidates@.map_values(|c: UpdateCandidate| c@),
            mv == open_mrs@.map_values(|m: MergeRequest| m@),
            unsorted == dv.map_values(|d: DependencyView| status_spec(d, cv, mv, branch_prefix@)),
            statuses_view(out@) == sort_statuses(unsorted.take(i as int)),
        decreases all_deps@.len() - i,
    {
        let st = status_of(&all_deps[i].0, candidates, open_mrs, branch_prefix);
        assert(st@ == unsorted[i as int]);
        assert(unsorted.take(i + 1).drop_last() =~= unsorted.take(i as int));
        let ghost sorted = statuses_view(out@);
        proof {
            lemma_insert_pos(sorted, st@);
        }
        let mut k: usize = out.len();
        let mut done = false;
        while k > 0 && !done
            invariant
                k <= out@.len(),
                sorted == statuses_view(out@),
                forall|j: int| k <= j < sorted.len() ==> status_before(st@, #[trigger] sorted[j]),
                done ==> k > 0 && !status_before(st@, sorted[k - 1]),
            decreases k + (if done { 0int } else { 1int }),
        {
            assert(sorted[k - 1] == out@[k - 1]@);
            if status_less(&st, &out[k - 1]) {
                k = k - 1;
            } else {
                done = true;
            }
        }
        proof {
            let p = insert_pos(sorted, st@);
            if p < k {
                assert(status_before(st@, sorted[k - 1]));
            }
            if k < p {
                assert(status_before(st@, sorted[p - 1]));
            }
            assert(k == p);
        }
        out.insert(k, st);
        assert(statuses_view(out@) =~= sorted.insert(k as int, unsorted[i as int]));
        assert(unsorted.take(i + 1).last() == unsorted[i as int]);
        i = i + 1;
    }
    assert(unsorted.take(all_deps@.len() as int) =~= unsorted);
    out
}

/// The marker that identifies the dashboard issue body.
pub open spec fn dashboard_marker() -> Seq<char> {
    "<!-- reforge-dashboard -->"@
}

/// The new version to show, or `?` when none is known.
pub open spec fn shown_version(v: Option<Seq<char>>) -> Seq<char> {
    match v {
        Some(x) => x,
        None => "?"@,
    }
}

/// The link to a status's merge request: `[!iid](url)`, or `-` when either is missing.
pub open spec fn mr_link_spec(s: DependencyStatusView) -> Seq<char> {
    match (s.mr_url, s.mr_iid) {
        (Some(url), Some(iid)) => "[!"@ + decimal_spec(iid as nat) + "]("@ + url + ")"@,
        _ => "-"@,
    }
}

/// The table row of a status in the section of its state.
pub open spec fn row_spec(s: DependencyStatusView) -> Seq<char> {
    match s.state {
        DependencyState::PendingUpdate => "| - [ ] | `"@ + s.name + "` | "@ + s.manager + " | `"@ + s.file_path + "` | "@
            + s.current_version + " | **"@ + shown_version(s.new_version) + "** |\n"@,
        DependencyState::OpenMr => "| `"@ + s.name + "` | "@ + s.manager + " | `"@ + s.file_path + "` | "@
            + s.current_version + " | **"@ + shown_version(s.new_version) + "** | "@ + mr_link_spec(s) + " |\n"@,
        DependencyState::UpToDate => "| `"@ + s.name + "` | "@ + s.manager + " | `"@ + s.file_path + "` | "@
            + s.current_version + " |\n"@,
    }
}

/// The rows of the statuses in state `st`, in order.
pub open spec fn rows_spec(s: Seq<DependencyStatusView>, st: DependencyState) -> Seq<char>
    decreases s.len(),
{
    if s.len() == 0 {
        seq![]
    } else if s.last().state == st {
        rows_spec(s.drop_last(), st) + row_spec(s.last())
    } else {
        rows_spec(s.drop_last(), st)
    }
}

/// Some status is in state `st`.
pub open spec fn has_state(s: Seq<DependencyStatusView>, st: DependencyState) -> bool {
    exists|i: int| 0 <= i < s.len() && (#[trigger] s[i]).state == st
}

/// The text before the first section.
pub open spec fn dashboard_head(label: Seq<char>) -> Seq<char> {
    dashboard_marker() + "\n"@ + "## Dependency Dashboard \u{2014} "@ + label + "\n\n"@
        + "This issue lists all dependencies tracked by **reforge**. Check a box next to a pending update to trigger its MR immediately.\n\n"@
}

/// The pending-updates section.
pub open spec fn pending_section(s: Seq<DependencyStatusView>) -> Seq<char> {
    if has_state(s, DependencyState::PendingUpdate) {
        "### Pending Updates\n\n"@ + "Check a box to create an MR for that dependency on the next run.\n\n"@
            + "| | Package | Manager | File | Current | Available |\n"@
            + "|---|---------|---------|------|---------|----------|\n"@ + rows_spec(s, DependencyState::PendingUpdate) + "\n"@
    } else {
        seq![]
    }
}

/// The open-merge-requests section.
pub open spec fn open_mr_section(s: Seq<DependencyStatusView>) -> Seq<char> {
    if has_state(s, DependencyState::OpenMr) {
        "### Open MRs\n\n"@ + "| Package | Manager | File | Current | New | MR |\n"@
            + "|---------|---------|------|---------|-----|----|\n"@ + rows_spec(s, DependencyState::OpenMr) + "\n"@
    } else {
        seq![]
    }
}

/// The collapsed up-to-date section.
pub open spec fn up_to_date_section(s: Seq<DependencyStatusView>) -> Seq<char> {
    if has_state(s, DependencyState::UpToDate) {
        "<details>\n<summary>Up to date</summary>\n\n"@ + "| Package | Manager | File | Version |\n"@
            + "|---------|---------|------|--------|\n"@ + rows_spec(s, DependencyState::UpToDate) + "\n</details>\n\n"@
    } else {
        seq![]
    }
}

/// The closing text.
pub open spec fn dashboard_footer() -> Seq<char> {
    "---\n\n*Managed by [reforge](https://github.com/example/reforge). Do not edit the sections above manually.*\n"@
}

/// The whole dashboard issue body.
pub open spec fn render_dashboard_spec(s: Seq<DependencyStatusView>, label: Seq<char>) -> Seq<char> {
    dashboard_head(label) + pending_section(s) + open_mr_section(s) + up_to_date_section(s) + dashboard_footer()
}

fn push_row(out: &mut Vec<char>, s: &DependencyStatus)
    ensures
        final(out)@ == old(out)@ + row_spec(s@),
{
    let ghost start = out@;
    let nv: &str = match &s.new_version {
        Some(v) => v.as_str(),
        None => "?",
    };
    assert(nv@ == shown_version(s@.new_version));
    match s.state {
        DependencyState::PendingUpdate => {
            push_text(out, "| - [ ] | `");
        },
        _ => {
            push_text(out, "| `");
        },
    }
    push_text(out, s.name.as_str());
    push_text(out, "` | ");
    push_text(out, s.manager.as_str());
    push_text(out, " | `");
    push_text(out, s.file_path.as_str());
    push_text(out, "` | ");
    push_text(out, s.current_version.as_str());
    match s.state {
        DependencyState::PendingUpdate => {
            push_text(out, " | **");
            push_text(out, nv);
            push_text(out, "** |\n");
        },
        DependencyState::OpenMr => {
            push_text(out, " | **");
            push_text(out, nv);
            push_text(out, "** | ");
            match (&s.mr_url, &s.mr_iid) {
                (Some(url), Some(iid)) => {
                    push_text(out, "[!");
                    let digits = decimal_of(*iid);
                    extend_chars(out, &digits);
                    push_text(out, "](");
                    push_text(out, url.as_str());
                    push_text(out, ")");
                },
                _ => {
                    push_text(out, "-");
                },
            }
            push_text(out, " |\n");
        },
        DependencyState::UpToDate => {
            push_text(out, " |\n");
        },
    }
    assert(out@ =~= start + row_spec(s@));
}

fn push_rows(out: &mut Vec<char>, statuses: &[DependencyStatus], st: DependencyState) -> (found: bool)
    ensures
        final(out)@ == old(out)@ + rows_spec(statuses_view(statuses@), st),
        found == has_state(statuses_view(statuses@), st),
{
    let ghost sv = statuses_view(statuses@);
    let ghost start = out@;
    let mut found = false;
    let mut i: usize = 0;
    while i < statuses.len()
        invariant
            i <= statuses@.len(),
            sv == statuses_view(statuses@),
            out@ == start + rows_spec(sv.take(i as int), st),
            found == has_state(sv.take(i as int), st),
        decreases statuses@.len() - i,
    {
        let ghost t = sv.take(i + 1);
        assert(t.drop_last() =~= sv.take(i as int));
        assert(t.last() == statuses@[i as int]@);
        if statuses[i].state == st {
            push_row(out, &statuses[i]);
            found = true;
            assert(t[i as int].state == st);
        } else {
            assert forall|j: int| 0 <= j < t.len() && (#[trigger] t[j]).state == st implies j < i by {}
            assert(has_state(t, st) == has_state(sv.take(i as int), st)) by {
                if has_state(t, st) {
                    let j = choose|j: int| 0 <= j < t.len() && (#[trigger] t[j]).state == st;
                    assert(sv.take(i as int)[j] == t[j]);
                }
                if has_state(sv.take(i as int), st) {
                    let j = choose|j: int| 0 <= j < i && (#[trigger] sv.take(i as int)[j]).state == st;
                    assert(sv.take(i as int)[j] == t[j]);
                }
            }
        }
        proof {
            if statuses@[i as int].state == st {
                assert(out@ =~= start + rows_spec(t, st));
            }
        }
        i = i + 1;
    }
    assert(sv.take(statuses@.len() as int) =~= sv);
    found
}

/// Renders the dashboard issue body as markdown: a marker line, a heading with the
/// project label, then the pending, open-MR and up-to-date tables (each only when
/// non-empty), and a footer.
pub fn render_dashboard(statuses: &[DependencyStatus], project_label: &str) -> (r: String)
    ensures
        r@ == render_dashboard_spec(statuses_view(statuses@), project_label@),
{
    let ghost sv = statuses_view(statuses@);
    let mut body: Vec<char> = Vec::new();
    push_text(&mut body, "<!-- reforge-dashboard -->");
    push_text(&mut body, "\n");
    push_text(&mut body, "## Dependency Dashboard \u{2014} ");
    push_text(&mut body, project_label);
    push_text(&mut body, "\n\n");
    push_text(&mut body, "This issue lists all dependencies tracked by **reforge**. Check a box next to a pending update to trigger its MR immediately.\n\n");
    assert(body@ =~= dashboard_head(project_label@));
    let ghost after_head = body@;

    let mut rows: Vec<char> = Vec::new();
    if push_rows(&mut rows, statuses, DependencyState::PendingUpdate) {
        push_text(&mut body, "### Pending Updates\n\n");
        push_text(&mut body, "Check a box to create an MR for that dependency on the next run.\n\n");
        push_text(&mut body, "| | Package | Manager | File | Current | Available |\n");
        push_text(&mut body, "|---|---------|---------|------|---------|----------|\n");
        extend_chars(&mut body, &rows);
        push_text(&mut body, "\n");
    }
    assert(body@ =~= after_head + pending_section(sv));
    let ghost after_pending = body@;

    let mut rows: Vec<char> = Vec::new();
    if push_rows(&mut rows, statuses, DependencyState::OpenMr) {
        push_text(&mut body, "### Open MRs\n\n");
        push_text(&mut body, "| Package | Manager | File | Current | New | MR |\n");
        push_text(&mut body, "|---------|---------|------|---------|-----|----|\n");
        extend_chars(&mut body, &rows);
        push_text(&mut body, "\n");
    }
    assert(body@ =~= after_pending + open_mr_section(sv));
    let ghost after_open = body@;

    let mut rows: Vec<char> = Vec::new();
    if push_rows(&mut rows, statuses, DependencyState::UpToDate) {
        push_text(&mut body, "<details>\n<summary>Up to date</summary>\n\n");
        push_text(&mut body, "| Package | Manager | File | Version |\n");
        push_text(&mut body, "|---------|---------|------|--------|\n");
        extend_chars(&mut body, &rows);
        push_text(&mut body, "\n</details>\n\n");
    }
    assert(body@ =~= after_open + up_to_date_section(sv));
    let ghost after_up = body@;
    push_text(&mut body, "---\n\n*Managed by [reforge](https://github.com/example/reforge). Do not edit the sections above manually.*\n");
    assert(body@ =~= render_dashboard_spec(sv, project_label@));
    string_of(&body)
}

/// Finds the dashboard among the open issues, which is then updated in place; when
/// there is none a new issue is created.
pub fn find_dashboard_issue(issues: &Vec<Issue>) -> (r: Option<usize>)
    ensures
        match r {
            Some(i) => i < issues@.len() && issues@[i as int].title@ == DASHBOARD_TITLE@
                && forall|j: int| 0 <= j < i ==> issues@[j].title@ != DASHBOARD_TITLE@,
            None => forall|j: int| 0 <= j < issues@.len() ==> issues@[j].title@ != DASHBOARD_TITLE@,
        },
{
    let title = chars_of(DASHBOARD_TITLE);
    let mut i: usize = 0;
    while i < issues.len()
        invariant
            i <= issues@.len(),
            title@ == DASHBOARD_TITLE@,
            forall|j: int| 0 <= j < i ==> issues@[j].title@ != DASHBOARD_TITLE@,
        decreases issues@.len() - i,
    {
        if crate::text::chars_eq(&chars_of(issues[i].title.as_str()), &title) {
            return Some(i);
        }
        i = i + 1;
    }
    None
}

} // verus!
