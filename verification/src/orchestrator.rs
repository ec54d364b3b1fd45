//! The decisions of an update run: which branch an update goes to, what its
//! commits and merge request say, and what happens to each group.
use vstd::prelude::*;
use std::hash::Hash;
use std::hash::Hasher;

use crate::manager::Dependency;
use crate::manager::DependencyView;
use crate::registry::VersionInfo;
use crate::registry::VersionInfoView;
use crate::automerge::AutomergeEvaluator;
use crate::automerge::UpdateType;
use crate::config::AutomergePolicy;
use crate::dashboard::update_branch_name;
use crate::dashboard::update_branch_spec;
use crate::fmt::hex8_of;
use crate::fmt::hex_fixed;
use crate::grouping::Group;
use crate::grouping::GroupView;
use crate::manager::RegistrySource;
use crate::manager::RegistrySourceView;
use crate::text::chars_eq;
use crate::text::chars_of;
use crate::text::copy_string;
use crate::text::extend_chars;
use crate::text::opt_view;
use crate::text::push_text;
use crate::text::rfind_char;
use crate::text::rfind_spec;
use crate::text::slice_of;
use crate::text::string_of;
use crate::text::strings_view;
use crate::util::manager_name;
use crate::util::manager_name_spec;

verus! {

/// A dependency for which a newer version was found, with the text of its file.
#[derive(Debug)]
pub struct UpdateCandidate {
    pub dependency: Dependency,
    pub new_version: VersionInfo,
    pub file_content: String,
}

pub struct UpdateCandidateView {
    pub dependency: DependencyView,
    pub new_version: VersionInfoView,
    pub file_content: Seq<char>,
}

impl View for UpdateCandidate {
    type V = UpdateCandidateView;

    open spec fn view(&self) -> UpdateCandidateView {
        UpdateCandidateView {
            dependency: self.dependency@,
            new_version: self.new_version@,
            file_content: self.file_content@,
        }
    }
}

impl UpdateCandidate {
    /// A copy with the same value.
    pub fn duplicate(&self) -> (r: Self)
        ensures
            r@ == self@,
    {
        UpdateCandidate {
            dependency: self.dependency.duplicate(),
            new_version: self.new_version.duplicate(),
            file_content: copy_string(&self.file_content),
        }
    }
}

pub open spec fn candidates_view(v: Seq<UpdateCandidate>) -> Seq<UpdateCandidateView> {
    v.map_values(|c: UpdateCandidate| c@)
}

/// The branch for a single-dependency update: prefix, manager, name with `/`
/// written `-`, and the new tag.
pub fn branch_name_for(prefix: &str, dep: &Dependency, new_version: &VersionInfo) -> (r: String)
    ensures
        r@ == update_branch_spec(prefix@, dep@, new_version@.original_tag),
{
    update_branch_name(prefix, dep, new_version.original_tag.as_str())
}

/// Whether a character is alphanumeric in Unicode's sense (`char::is_alphanumeric`).
pub uninterp spec fn unicode_alphanumeric(c: char) -> bool;

/// Whether a character is alphanumeric.
/// Trusted: calls `char::is_alphanumeric`; the result is named by `unicode_alphanumeric`.
#[verifier::external_body]
fn is_alphanumeric(c: char) -> (r: bool)
    ensures
        r == unicode_alphanumeric(c),
{
    c.is_alphanumeric()
}

/// The low 32 bits of what `DefaultHasher::new()` gives for a text hashed alone.
pub uninterp spec fn default_hash32(s: Seq<char>) -> u32;

/// The low 32 bits of what `DefaultHasher::new()` gives for two texts hashed in turn.
pub uninterp spec fn default_pair_hash32(a: Seq<char>, b: Seq<char>) -> u32;

/// A 32-bit digest of a group name, as `DefaultHasher` gives it truncated.
/// Trusted: hashes the name with `std::collections::hash_map::DefaultHasher::new()`
/// (fixed keys, so the value depends on the text alone within a build) and keeps
/// the low 32 bits; the value is named by `default_hash32`.
#[verifier::external_body]
fn name_hash32(name: &str) -> (r: u32)
    ensures
        r == default_hash32(name@),
{
    let mut h = std::collections::hash_map::DefaultHasher::new();
    name.hash(&mut h);
    h.finish() as u32
}

/// A reference pair's 32-bit digest, as `DefaultHasher` gives it truncated.
/// Trusted: hashes both texts in turn with `DefaultHasher::new()` and keeps the
/// low 32 bits; the value is named by `default_pair_hash32`.
#[verifier::external_body]
fn pair_hash32(a: &str, b: &str) -> (r: u32)
    ensures
        r == default_pair_hash32(a@, b@),
{
    let mut h = std::collections::hash_map::DefaultHasher::new();
    a.hash(&mut h);
    b.hash(&mut h);
    h.finish() as u32
}

/// A group name with every character other than alphanumerics and `-` written `-`.
pub open spec fn sanitize_group_name(name: Seq<char>) -> Seq<char> {
    name.map_values(|c: char| if unicode_alphanumeric(c) || c == '-' { c } else { '-' })
}

/// The branch of a grouped update: prefix, `group-`, the sanitized name, `-` and
/// eight hexadecimal digits of a hash of the name.
pub open spec fn group_branch_spec(prefix: Seq<char>, name: Seq<char>, hash: u32) -> Seq<char> {
    prefix + "group-"@ + sanitize_group_name(name) + "-"@ + hex_fixed(hash as nat, 8)
}

/// Forms the branch of a grouped update.
pub fn branch_name_for_group(prefix: &str, group_name: &str) -> (r: String)
    ensures
        r@ == group_branch_spec(prefix@, group_name@, default_hash32(group_name@)),
{
    let name = chars_of(group_name);
    let mut sanitized: Vec<char> = Vec::new();
    let mut i: usize = 0;
    while i < name.len()
        invariant
            i <= name@.len(),
            sanitized@ == sanitize_group_name(name@.take(i as int)),
        decreases name@.len() - i,
    {
        let c = name[i];
        let k = if is_alphanumeric(c) || c == '-' { c } else { '-' };
        sanitized.push(k);
        assert(sanitize_group_name(name@.take(i + 1)) =~= sanitize_group_name(name@.take(i as int)).push(k));
        i = i + 1;
    }
    assert(name@.take(name@.len() as int) =~= name@);
    let h = name_hash32(group_name);
    let mut out = chars_of(prefix);
    push_text(&mut out, "group-");
    extend_chars(&mut out, &sanitized);
    push_text(&mut out, "-");
    extend_chars(&mut out, &hex8_of(h));
    assert(out@ == group_branch_spec(prefix@, group_name@, h));
    string_of(&out)
}

/// The branch of a group: the group branch when it holds several candidates,
/// else the single candidate's update branch.
pub open spec fn group_branch_ok(prefix: Seq<char>, g: GroupView, branch: Seq<char>) -> bool {
    if g.candidates.len() > 1 {
        branch == group_branch_spec(prefix, g.name, default_hash32(g.name))
    } else {
        g.candidates.len() == 1 && branch == update_branch_spec(
            prefix,
            g.candidates[0].dependency,
            g.candidates[0].new_version.original_tag,
        )
    }
}

/// Chooses the branch of a non-empty group.
pub fn group_branch(prefix: &str, group: &Group) -> (r: String)
    requires
        group.candidates@.len() > 0,
    ensures
        group_branch_ok(prefix@, group@, r@),
{
    if group.candidates.len() > 1 {
        let b = branch_name_for_group(prefix, group.name.as_str());
        assert(group@.name == group.name@);
        b
    } else {
        assert(group@.candidates[0] == group.candidates@[0]@);
        branch_name_for(prefix, &group.candidates[0].dependency, &group.candidates[0].new_version)
    }
}

/// The path of the Chart.lock beside a Chart.yaml.
pub open spec fn chart_lock_path_spec(chart_yaml_path: Seq<char>) -> Seq<char> {
    match rfind_spec(chart_yaml_path, '/') {
        Some(i) => chart_yaml_path.subrange(0, i) + "/Chart.lock"@,
        None => "Chart.lock"@,
    }
}

/// Derives the Chart.lock path that sits alongside a Chart.yaml path.
pub fn chart_lock_path(chart_yaml_path: &str) -> (r: String)
    ensures
        r@ == chart_lock_path_spec(chart_yaml_path@),
{
    let p = chars_of(chart_yaml_path);
    match rfind_char(&p, '/') {
        Some(i) => {
            proof {
                crate::text::lemma_rfind_spec(p@, '/');
            }
            let mut out = slice_of(&p, 0, i);
            push_text(&mut out, "/Chart.lock");
            string_of(&out)
        },
        None => "Chart.lock".to_string(),
    }
}

/// The distinct file paths of the candidates in order of first appearance, each
/// with the positions of its candidates.
pub open spec fn files_of(cs: Seq<UpdateCandidateView>) -> Seq<Seq<char>>
    decreases cs.len(),
{
    if cs.len() == 0 {
        seq![]
    } else {
        let prev = files_of(cs.drop_last());
        if prev.contains(cs.last().dependency.file_path) {
            prev
        } else {
            prev.push(cs.last().dependency.file_path)
        }
    }
}

/// The positions of the candidates in the file `path`, ascending.
pub open spec fn positions_in(cs: Seq<UpdateCandidateView>, path: Seq<char>) -> Seq<int>
    decreases cs.len(),
{
    if cs.len() == 0 {
        seq![]
    } else if cs.last().dependency.file_path == path {
        positions_in(cs.drop_last(), path).push(cs.len() - 1)
    } else {
        positions_in(cs.drop_last(), path)
    }
}

/// Groups a group's candidates by file: each distinct path (in order of first
/// appearance) with the positions of its candidates.
pub fn candidates_by_file(cands: &Vec<UpdateCandidate>) -> (r: Vec<(String, Vec<usize>)>)
    ensures
        r@.len() == files_of(candidates_view(cands@)).len(),
        forall|j: int| 0 <= j < r@.len() ==> (#[trigger] r@[j]).0@ == files_of(candidates_view(cands@))[j]
            && r@[j].1@.map_values(|k: usize| k as int) == positions_in(candidates_view(cands@), r@[j].0@),
{
    let ghost cv = candidates_view(cands@);
    let mut out: Vec<(String, Vec<usize>)> = Vec::new();
    let mut i: usize = 0;
    while i < cands.len()
        invariant
            i <= cands@.len(),
            cv == candidates_view(cands@),
            out@.len() == files_of(cv.take(i as int)).len(),
            forall|j: int| 0 <= j < out@.len() ==> (#[trigger] out@[j]).0@ == files_of(cv.take(i as int))[j]
                && out@[j].1@.map_values(|k: usize| k as int) == positions_in(cv.take(i as int), out@[j].0@),
            forall|a: int, b: int| 0 <= a < b < out@.len() ==> out@[a].0@ != out@[b].0@,
        decreases cands@.len() - i,
    {
        let ghost t = cv.take(i + 1);
        assert(t.drop_last() =~= cv.take(i as int));
        assert(t.last() == cands@[i as int]@);
        let path = chars_of(cands[i].dependency.file_path.as_str());
        let mut found: Option<usize> = None;
        let mut j: usize = 0;
        while j < out.len()
            invariant
                j <= out@.len(),
                found matches Some(f) ==> f < out@.len() && out@[f as int].0@ == path@,
                found is None ==> forall|m: int| 0 <= m < j ==> out@[m].0@ != path@,
            decreases out@.len() - j,
        {
            if found.is_none() && chars_eq(&chars_of(out[j].0.as_str()), &path) {
                found = Some(j);
            }
            j = j + 1;
        }
        let ghost old_out = out@;
        let ghost fprev = files_of(cv.take(i as int));
        match found {
            Some(f) => {
                let mut positions = copy_positions(&out[f].1);
                positions.push(i);
                let name = copy_string(&out[f].0);
                out.set(f, (name, positions));
                assert(fprev.contains(path@)) by {
                    assert(fprev[f as int] == path@);
                }
                assert forall|m: int| 0 <= m < out@.len() implies (#[trigger] out@[m]).0@ == files_of(t)[m]
                    && out@[m].1@.map_values(|k: usize| k as int) == positions_in(t, out@[m].0@) by {
                    if m == f {
                        assert(out@[m].1@.map_values(|k: usize| k as int) =~= old_out[m].1@.map_values(|k: usize| k as int).push(i as int));
                    } else {
                        assert(out@[m] == old_out[m]);
                        assert(old_out[m].0@ != path@);
                    }
                }
                assert forall|a: int, b: int| 0 <= a < b < out@.len() implies out@[a].0@ != out@[b].0@ by {
                    assert(out@[a].0@ == old_out[a].0@ && out@[b].0@ == old_out[b].0@);
                }
            },
            None => {
                assert(!fprev.contains(path@)) by {
                    if fprev.contains(path@) {
                        let m = choose|m: int| 0 <= m < fprev.len() && fprev[m] == path@;
                        assert(old_out[m].0@ == fprev[m]);
                    }
                }
                proof {
                    lemma_positions_absent(cv.take(i as int), path@);
                }
                let mut positions: Vec<usize> = Vec::new();
                positions.push(i);
                out.push((string_of(&path), positions));
                assert(files_of(t) =~= fprev.push(path@));
                assert forall|m: int| 0 <= m < out@.len() implies (#[trigger] out@[m]).0@ == files_of(t)[m]
                    && out@[m].1@.map_values(|k: usize| k as int) == positions_in(t, out@[m].0@) by {
                    if m < old_out.len() {
                        assert(out@[m] == old_out[m]);
                        assert(old_out[m].0@ == fprev[m]);
                    } else {
                        assert(out@[m].1@.map_values(|k: usize| k as int) =~= seq![i as int]);
                        assert(positions_in(t, path@) =~= Seq::<int>::empty().push(i as int));
                    }
                }
                assert forall|a: int, b: int| 0 <= a < b < out@.len() implies out@[a].0@ != out@[b].0@ by {
                    if b == old_out.len() {
                        assert(out@[a] == old_out[a]);
                        assert(old_out[a].0@ == fprev[a]);
                    } else {
                        assert(out@[a] == old_out[a] && out@[b] == old_out[b]);
                    }
                }
            },
        }
        i = i + 1;
    }
    assert(cv.take(cands@.len() as int) =~= cv);
    out
}

proof fn lemma_positions_absent(cs: Seq<UpdateCandidateView>, p: Seq<char>)
    requires
        !files_of(cs).contains(p),
    ensures
        positions_in(cs, p) == Seq::<int>::empty(),
    decreases cs.len(),
{
    if cs.len() > 0 {
        let prev = files_of(cs.drop_last());
        if prev.contains(p) {
            let m = choose|m: int| 0 <= m < prev.len() && prev[m] == p;
            if !prev.contains(cs.last().dependency.file_path) {
                assert(prev.push(cs.last().dependency.file_path)[m] == p);
            }
        }
        if cs.last().dependency.file_path == p {
            if !prev.contains(p) {
                assert(prev.push(p)[prev.len() as int] == p);
            }
        }
        lemma_positions_absent(cs.drop_last(), p);
    }
}

fn copy_positions(v: &Vec<usize>) -> (r: Vec<usize>)
    ensures
        r@ == v@,
{
    let mut r: Vec<usize> = Vec::new();
    let mut i: usize = 0;
    while i < v.len()
        invariant
            i <= v@.len(),
            r@ == v@.take(i as int),
        decreases v@.len() - i,
    {
        r.push(v[i]);
        assert(v@.take(i + 1) =~= v@.take(i as int).push(v@[i as int]));
        i = i + 1;
    }
    assert(v@.take(v@.len() as int) =~= v@);
    r
}

/// The commit message for the updates of one file: the single update spelled
/// out, or a grouped message naming the group.
pub open spec fn commit_message_spec(group_name: Seq<char>, cs: Seq<UpdateCandidateView>) -> Seq<char> {
    if cs.len() == 1 {
        "chore(deps): update "@ + cs[0].dependency.name + " from "@ + cs[0].dependency.current_version + " to "@
            + cs[0].new_version.original_tag
    } else {
        "chore(deps): grouped update for '"@ + group_name + "'"@
    }
}

/// The candidates at the given positions.
pub open spec fn picked(cs: Seq<UpdateCandidateView>, positions: Seq<usize>) -> Seq<UpdateCandidateView> {
    positions.map_values(|k: usize| cs[k as int])
}

/// Forms the commit message for the candidates of one file.
pub fn commit_message(group_name: &str, cands: &Vec<UpdateCandidate>, positions: &Vec<usize>) -> (r: String)
    requires
        forall|j: int| 0 <= j < positions@.len() ==> #[trigger] positions@[j] < cands@.len(),
    ensures
        r@ == commit_message_spec(group_name@, picked(candidates_view(cands@), positions@)),
{
    let mut out: Vec<char> = Vec::new();
    if positions.len() == 1 {
        let c = &cands[positions[0]];
        assert(picked(candidates_view(cands@), positions@)[0] == c@);
        push_text(&mut out, "chore(deps): update ");
        push_text(&mut out, c.dependency.name.as_str());
        push_text(&mut out, " from ");
        push_text(&mut out, c.dependency.current_version.as_str());
        push_text(&mut out, " to ");
        push_text(&mut out, c.new_version.original_tag.as_str());
    } else {
        push_text(&mut out, "chore(deps): grouped update for '");
        push_text(&mut out, group_name);
        push_text(&mut out, "'");
    }
    string_of(&out)
}

/// The commit message for a Chart.lock refresh: the names joined by `, `.
pub open spec fn lock_commit_message_spec(names: Seq<Seq<char>>) -> Seq<char> {
    "chore(deps): update Chart.lock for "@ + crate::text::join_spec(names, ", "@)
}

/// Forms the commit message for a Chart.lock refresh.
pub fn lock_commit_message(names: &Vec<String>) -> (r: String)
    ensures
        r@ == lock_commit_message_spec(strings_view(names@)),
{
    let mut parts: Vec<Vec<char>> = Vec::new();
    let mut i: usize = 0;
    while i < names.len()
        invariant
            i <= names@.len(),
            crate::text::vecs_view(parts@) == strings_view(names@).take(i as int),
        decreases names@.len() - i,
    {
        let ghost before = crate::text::vecs_view(parts@);
        parts.push(chars_of(names[i].as_str()));
        assert(crate::text::vecs_view(parts@) =~= before.push(names@[i as int]@));
        assert(strings_view(names@).take(i + 1) =~= strings_view(names@).take(i as int).push(names@[i as int]@));
        i = i + 1;
    }
    assert(strings_view(names@).take(names@.len() as int) =~= strings_view(names@));
    let mut out = chars_of("chore(deps): update Chart.lock for ");
    extend_chars(&mut out, &crate::text::join_chars(&parts, &chars_of(", ")));
    string_of(&out)
}

/// The Chart.lock after each `(name, version, digest)` update in turn.
pub open spec fn lock_after(lock: Seq<char>, updates: Seq<(Seq<char>, Seq<char>, Seq<char>)>) -> Seq<char>
    decreases updates.len(),
{
    if updates.len() == 0 {
        lock
    } else {
        let (n, v, d) = updates.last();
        crate::lockfile::update_chart_lock_spec(lock_after(lock, updates.drop_last()), n, v, d)
    }
}

pub open spec fn triples_view(v: Seq<(String, String, String)>) -> Seq<(Seq<char>, Seq<char>, Seq<char>)> {
    v.map_values(|t: (String, String, String)| (t.0@, t.1@, t.2@))
}

/// Applies the Chart.lock updates of a commit one after the other.
pub fn apply_lock_updates(lock: &str, updates: &Vec<(String, String, String)>) -> (r: String)
    ensures
        r@ == lock_after(lock@, triples_view(updates@)),
{
    let ghost tv = triples_view(updates@);
    let mut cur = lock.to_string();
    let mut i: usize = 0;
    while i < updates.len()
        invariant
            i <= updates@.len(),
            tv == triples_view(updates@),
            cur@ == lock_after(lock@, tv.take(i as int)),
        decreases updates@.len() - i,
    {
        assert(tv.take(i + 1).drop_last() =~= tv.take(i as int));
        assert(tv.take(i + 1).last() == (updates@[i as int].0@, updates@[i as int].1@, updates@[i as int].2@));
        cur = crate::lockfile::update_chart_lock(cur.as_str(), updates[i].0.as_str(), updates[i].1.as_str(), updates[i].2.as_str());
        i = i + 1;
    }
    assert(tv.take(updates@.len() as int) =~= tv);
    cur
}

/// Whether a merge request is set to merge when its pipeline passes: the global
/// switch, or (for a single-dependency group) an automerge policy that admits its bump.
pub open spec fn use_automerge_spec(cs: Seq<UpdateCandidateView>, policies: Seq<crate::config::AutomergePolicyView>, auto_merge: bool) -> bool {
    if cs.len() == 1 {
        auto_merge || match crate::automerge::classify_spec(cs[0].dependency.current_version, cs[0].new_version.original_tag) {
            Some(ut) => crate::automerge::automerge_decision(policies, cs[0].dependency.name, ut, None, 0),
            None => false,
        }
    } else {
        auto_merge
    }
}

/// Decides whether a group's merge request merges automatically.
pub fn use_automerge(cands: &Vec<UpdateCandidate>, policies: &Vec<AutomergePolicy>, auto_merge: bool) -> (r: bool)
    ensures
        r == use_automerge_spec(candidates_view(cands@), crate::automerge::policies_view(policies@), auto_merge),
{
    if cands.len() == 1 {
        let c = &cands[0];
        assert(candidates_view(cands@)[0] == c@);
        let ut = UpdateType::classify(c.dependency.current_version.as_str(), c.new_version.original_tag.as_str());
        let evaluator = AutomergeEvaluator::new(policies.as_slice());
        let policy = match ut {
            Some(t) => evaluator.should_automerge(c.dependency.name.as_str(), &t, None),
            None => false,
        };
        auto_merge || policy
    } else {
        auto_merge
    }
}

/// The manager a registry source belongs to, as shown in reports.
pub open spec fn row_spec(c: UpdateCandidateView) -> Seq<char> {
    "| "@ + c.dependency.name + " | "@ + manager_name_spec(c.dependency.registry) + " | "@ + c.dependency.file_path
        + " | "@ + c.dependency.current_version + " | "@ + c.new_version.original_tag + " |\n"@
}

/// The table rows of a group's candidates.
pub open spec fn rows_spec(cs: Seq<UpdateCandidateView>) -> Seq<char>
    decreases cs.len(),
{
    if cs.len() == 0 {
        seq![]
    } else {
        rows_spec(cs.drop_last()) + row_spec(cs.last())
    }
}

/// The merge request title and body of a group: the title names the single
/// update or the group; the body holds a table of the updates, the (truncated)
/// release notes when given and non-empty, and a footer.
pub open spec fn group_mr_content_spec(g: GroupView, notes: Option<Seq<char>>, max_length: int) -> (Seq<char>, Seq<char>) {
    let title = if g.candidates.len() == 1 {
        "chore(deps): update "@ + g.candidates[0].dependency.name + " to "@ + g.candidates[0].new_version.original_tag
    } else {
        "chore(deps): grouped update \u{2014} "@ + g.name
    };
    let changelog = match notes {
        Some(n) => if n.len() > 0 {
            "\n\n"@ + crate::changelog::changelog_section_spec(crate::changelog::truncate_spec(n, max_length))
        } else {
            seq![]
        },
        None => seq![],
    };
    let body = "## Dependency Update"@ + (if g.candidates.len() > 1 { "s"@ } else { seq![] }) + "\n\n"@
        + "| Package | Manager | File | Current | New |\n"@ + "|---------|---------|------|---------|-----|\n"@
        + rows_spec(g.candidates) + "\n"@ + changelog + "---\n\n"@ + "*This MR was automatically created by reforge.*"@;
    (title, body)
}

/// Builds the merge request title and body for a group of updates.
pub fn build_group_mr_content(group: &Group, changelog_notes: Option<&str>, max_length: usize) -> (r: (String, String))
    ensures
        (r.0@, r.1@) == group_mr_content_spec(group@, match changelog_notes {
            Some(n) => Some(n@),
            None => None,
        }, max_length as int),
{
    let ghost cv = group@.candidates;
    let mut title: Vec<char> = Vec::new();
    if group.candidates.len() == 1 {
        let c = &group.candidates[0];
        assert(cv[0] == c@);
        push_text(&mut title, "chore(deps): update ");
        push_text(&mut title, c.dependency.name.as_str());
        push_text(&mut title, " to ");
        push_text(&mut title, c.new_version.original_tag.as_str());
    } else {
        push_text(&mut title, "chore(deps): grouped update \u{2014} ");
        push_text(&mut title, group.name.as_str());
    }
    let mut rows: Vec<char> = Vec::new();
    let mut i: usize = 0;
    while i < group.candidates.len()
        invariant
            i <= group.candidates@.len(),
            cv == group@.candidates,
            rows@ == rows_spec(cv.take(i as int)),
        decreases group.candidates@.len() - i,
    {
        let c = &group.candidates[i];
        assert(cv[i as int] == c@);
        assert(cv.take(i + 1).drop_last() =~= cv.take(i as int));
        let ghost before = rows@;
        push_text(&mut rows, "| ");
        push_text(&mut rows, c.dependency.name.as_str());
        push_text(&mut rows, " | ");
        push_text(&mut rows, manager_name(&c.dependency.registry));
        push_text(&mut rows, " | ");
        push_text(&mut rows, c.dependency.file_path.as_str());
        push_text(&mut rows, " | ");
        push_text(&mut rows, c.dependency.current_version.as_str());
        push_text(&mut rows, " | ");
        push_text(&mut rows, c.new_version.original_tag.as_str());
        push_text(&mut rows, " |\n");
        assert(rows@ =~= before + row_spec(cv[i as int]));
        i = i + 1;
    }
    assert(cv.take(group.candidates@.len() as int) =~= cv);
    let mut body = chars_of("## Dependency Update");
    if group.candidates.len() > 1 {
        push_text(&mut body, "s");
    }
    push_text(&mut body, "\n\n");
    push_text(&mut body, "| Package | Manager | File | Current | New |\n");
    push_text(&mut body, "|---------|---------|------|---------|-----|\n");
    extend_chars(&mut body, &rows);
    push_text(&mut body, "\n");
    match changelog_notes {
        Some(notes) => {
            if chars_of(notes).len() > 0 {
                let truncated = crate::changelog::truncate_changelog(notes, max_length);
                let section = crate::changelog::render_changelog_section(truncated.as_str());
                push_text(&mut body, "\n\n");
                push_text(&mut body, section.as_str());
            }
        },
        None => {},
    }
    push_text(&mut body, "---\n\n");
    push_text(&mut body, "*This MR was automatically created by reforge.*");
    let ghost expected = group_mr_content_spec(group@, match changelog_notes {
        Some(n) => Some(n@),
        None => None,
    }, max_length as int);
    assert(title@ =~= expected.0);
    assert(body@ =~= expected.1);
    (string_of(&title), string_of(&body))
}

/// What to do with a group when proposing merge requests.
#[derive(Debug, Clone, Copy, PartialEq, Eq, Structural)]
pub enum GroupStep {
    /// Nothing to propose, or a merge request already exists on the branch.
    Skip,
    /// The open-MR limit is reached: stop with the remaining groups.
    Stop,
    /// Create the branch, commits and merge request.
    Create,
}

/// The step for a group: skip empty groups; stop when no slot is left after
/// those created in this run; skip when its branch already has a merge request.
pub open spec fn group_step_spec(group_len: int, remaining_slots: int, created: int, branch_has_mr: bool) -> GroupStep {
    if group_len == 0 {
        GroupStep::Skip
    } else if remaining_slots <= created {
        GroupStep::Stop
    } else if branch_has_mr {
        GroupStep::Skip
    } else {
        GroupStep::Create
    }
}

/// Decides the step for one group.
pub fn group_step(group_len: usize, remaining_slots: usize, created: usize, branch: &str, existing_branches: &Vec<String>) -> (r: GroupStep)
    ensures
        r == group_step_spec(group_len as int, remaining_slots as int, created as int, strings_view(existing_branches@).contains(branch@)),
{
    if group_len == 0 {
        return GroupStep::Skip;
    }
    if remaining_slots.saturating_sub(created) == 0 {
        return GroupStep::Stop;
    }
    let b = chars_of(branch);
    let ghost ev = strings_view(existing_branches@);
    let mut i: usize = 0;
    while i < existing_branches.len()
        invariant
            i <= existing_branches@.len(),
            ev == strings_view(existing_branches@),
            b@ == branch@,
            group_len > 0,
            remaining_slots > created,
            forall|j: int| 0 <= j < i ==> ev[j] != branch@,
        decreases existing_branches@.len() - i,
    {
        assert(ev[i as int] == existing_branches@[i as int]@);
        if chars_eq(&chars_of(existing_branches[i].as_str()), &b) {
            return GroupStep::Skip;
        }
        i = i + 1;
    }
    GroupStep::Create
}

/// Whether a file name matches a built-in pattern: a pattern with one `*`
/// matches names with its prefix and suffix, any other pattern must equal the name.
pub open spec fn static_pattern_matches(name: Seq<char>, pattern: Seq<char>) -> bool {
    let parts = crate::text::split_spec(pattern, '*');
    if pattern.contains('*') && parts.len() == 2 {
        crate::text::starts_with_spec(name, parts[0]) && crate::text::ends_with_spec(name, parts[1])
    } else {
        name == pattern
    }
}

/// Whether a path belongs to a manager: by file name against its built-in
/// patterns when it has some, else by path against its regex-manager patterns.
pub open spec fn file_matches_manager_spec(path: Seq<char>, static_patterns: Seq<Seq<char>>, regex_patterns: Option<Seq<Seq<char>>>) -> bool {
    if static_patterns.len() > 0 {
        exists|i: int| 0 <= i < static_patterns.len() && static_pattern_matches(
            crate::manager::docker::file_name_spec(path),
            #[trigger] static_patterns[i],
        )
    } else {
        match regex_patterns {
            Some(ps) => exists|i: int| 0 <= i < ps.len() && crate::manager::regex::file_matches_pattern_spec(path, #[trigger] ps[i]),
            None => false,
        }
    }
}

fn static_match(name: &Vec<char>, pattern: &str) -> (r: bool)
    ensures
        r == static_pattern_matches(name@, pattern@),
{
    let p = chars_of(pattern);
    let parts = crate::text::split_chars(&p, '*');
    if crate::text::contains_char(&p, '*') && parts.len() == 2 {
        assert(crate::text::vecs_view(parts@)[0] == parts@[0]@);
        assert(crate::text::vecs_view(parts@)[1] == parts@[1]@);
        crate::text::starts_with(name, &parts[0]) && crate::text::ends_with(name, &parts[1])
    } else {
        chars_eq(name, &p)
    }
}

/// Whether a path belongs to a manager, given its built-in patterns and, for a
/// regex manager, its configured patterns.
pub fn file_matches_manager_at(path: &str, static_patterns: &Vec<&str>, regex_patterns: Option<&Vec<String>>) -> (r: bool)
    ensures
        r == file_matches_manager_spec(
            path@,
            static_patterns@.map_values(|p: &str| p@),
            match regex_patterns {
                Some(ps) => Some(strings_view(ps@)),
                None => None,
            },
        ),
{
    let ghost sv = static_patterns@.map_values(|p: &str| p@);
    let ghost rp = match regex_patterns {
        Some(ps) => Some(strings_view(ps@)),
        None => None,
    };
    if static_patterns.len() > 0 {
        let name = crate::manager::docker::file_name(path);
        let mut i: usize = 0;
        while i < static_patterns.len()
            invariant
                i <= static_patterns@.len(),
                sv == static_patterns@.map_values(|p: &str| p@),
                name@ == crate::manager::docker::file_name_spec(path@),
                forall|j: int| 0 <= j < i ==> !static_pattern_matches(name@, #[trigger] sv[j]),
            decreases static_patterns@.len() - i,
        {
            assert(sv[i as int] == static_patterns@[i as int]@);
            if static_match(&name, static_patterns[i]) {
                return true;
            }
            i = i + 1;
        }
        return false;
    }
    match regex_patterns {
        Some(ps) => {
            let ghost pv = strings_view(ps@);
            let mut i: usize = 0;
            while i < ps.len()
                invariant
                    i <= ps@.len(),
                    pv == strings_view(ps@),
                    sv.len() == 0,
                    sv == static_patterns@.map_values(|p: &str| p@),
                    rp == Some(pv),
                    rp == match regex_patterns {
                        Some(q) => Some(strings_view(q@)),
                        None => None,
                    },
                    forall|j: int| 0 <= j < i ==> !crate::manager::regex::file_matches_pattern_spec(path@, #[trigger] pv[j]),
                decreases ps@.len() - i,
            {
                assert(pv[i as int] == ps@[i as int]@);
                if crate::manager::regex::file_matches_pattern(path, ps[i].as_str()) {
                    assert(crate::manager::regex::file_matches_pattern_spec(path@, (rp->0)[i as int]));
                    return true;
                }
                i = i + 1;
            }
            false
        },
        None => false,
    }
}

/// The dry-run report: a table of the available updates (columns padded to 30,
/// 10, 15 and 15 characters) with a total, or a note that there are none.
pub open spec fn dry_run_report_spec(cs: Seq<UpdateCandidateView>) -> Seq<char> {
    if cs.len() == 0 {
        "\nNo updates available.\n"@
    } else {
        let rule = Seq::new(72, |i: int| '=');
        let dash = Seq::new(72, |i: int| '-');
        "\n"@ + rule + "\n"@ + "  Dependency Update Report (dry-run)\n"@ + rule + "\n"@ + "\n"@ + report_row(
            "Package"@,
            "Manager"@,
            "Current"@,
            "Available"@,
        ) + "\n"@ + dash + "\n"@ + report_rows(cs) + dash + "\n"@ + "Total: "@ + crate::fmt::decimal_spec(cs.len())
            + " update(s) available\n"@ + "\n"@
    }
}

/// One report line: the four columns padded and separated by spaces.
pub open spec fn report_row(a: Seq<char>, b: Seq<char>, c: Seq<char>, d: Seq<char>) -> Seq<char> {
    crate::fmt::pad_right_spec(a, 30) + " "@ + crate::fmt::pad_right_spec(b, 10) + " "@ + crate::fmt::pad_right_spec(c, 15)
        + " "@ + crate::fmt::pad_right_spec(d, 15)
}

/// The report lines of the candidates.
pub open spec fn report_rows(cs: Seq<UpdateCandidateView>) -> Seq<char>
    decreases cs.len(),
{
    if cs.len() == 0 {
        seq![]
    } else {
        let c = cs.last();
        report_rows(cs.drop_last()) + report_row(
            c.dependency.name,
            manager_name_spec(c.dependency.registry),
            c.dependency.current_version,
            c.new_version.original_tag,
        ) + "\n"@
    }
}

fn push_report_row(out: &mut Vec<char>, a: &Vec<char>, b: &Vec<char>, c: &Vec<char>, d: &Vec<char>)
    ensures
        final(out)@ == old(out)@ + report_row(a@, b@, c@, d@),
{
    let ghost start = out@;
    crate::fmt::push_padded(out, a, 30);
    push_text(out, " ");
    crate::fmt::push_padded(out, b, 10);
    push_text(out, " ");
    crate::fmt::push_padded(out, c, 15);
    push_text(out, " ");
    crate::fmt::push_padded(out, d, 15);
    assert(out@ =~= start + report_row(a@, b@, c@, d@));
}

fn push_repeated(out: &mut Vec<char>, c: char, n: usize)
    ensures
        final(out)@ == old(out)@ + Seq::new(n as nat, |i: int| c),
{
    let ghost start = out@;
    let mut k: usize = 0;
    while k < n
        invariant
            k <= n,
            out@ == start + Seq::new(k as nat, |i: int| c),
        decreases n - k,
    {
        out.push(c);
        assert(Seq::new((k + 1) as nat, |i: int| c) =~= Seq::new(k as nat, |i: int| c).push(c));
        k = k + 1;
    }
}

/// Renders the dry-run report of the available updates.
pub fn dry_run_report(candidates: &Vec<UpdateCandidate>) -> (r: String)
    ensures
        r@ == dry_run_report_spec(candidates_view(candidates@)),
{
    let ghost cv = candidates_view(candidates@);
    if candidates.len() == 0 {
        return "\nNo updates available.\n".to_string();
    }
    let mut out: Vec<char> = Vec::new();
    push_text(&mut out, "\n");
    push_repeated(&mut out, '=', 72);
    push_text(&mut out, "\n");
    push_text(&mut out, "  Dependency Update Report (dry-run)\n");
    push_repeated(&mut out, '=', 72);
    push_text(&mut out, "\n");
    push_text(&mut out, "\n");
    push_report_row(&mut out, &chars_of("Package"), &chars_of("Manager"), &chars_of("Current"), &chars_of("Available"));
    push_text(&mut out, "\n");
    push_repeated(&mut out, '-', 72);
    push_text(&mut out, "\n");
    let ghost head = out@;
    let mut i: usize = 0;
    while i < candidates.len()
        invariant
            i <= candidates@.len(),
            cv == candidates_view(candidates@),
            out@ == head + report_rows(cv.take(i as int)),
        decreases candidates@.len() - i,
    {
        let c = &candidates[i];
        assert(cv.take(i + 1).drop_last() =~= cv.take(i as int));
        assert(cv.take(i + 1).last() == c@);
        let ghost before = out@;
        push_report_row(
            &mut out,
            &chars_of(c.dependency.name.as_str()),
            &chars_of(manager_name(&c.dependency.registry)),
            &chars_of(c.dependency.current_version.as_str()),
            &chars_of(c.new_version.original_tag.as_str()),
        );
        push_text(&mut out, "\n");
        assert(out@ =~= head + report_rows(cv.take(i + 1)));
        i = i + 1;
    }
    assert(cv.take(candidates@.len() as int) =~= cv);
    push_repeated(&mut out, '-', 72);
    push_text(&mut out, "\n");
    push_text(&mut out, "Total: ");
    extend_chars(&mut out, &crate::fmt::decimal_of(candidates.len() as u64));
    push_text(&mut out, " update(s) available\n");
    push_text(&mut out, "\n");
    assert(out@ =~= dry_run_report_spec(cv));
    string_of(&out)
}

/// The branch of a migration: prefix, `replace-`, the name with `/` written `-`,
/// `-` and eight hexadecimal digits of a hash of the two references.
pub open spec fn replacement_branch_spec(prefix: Seq<char>, dep_name: Seq<char>, hash: u32) -> Seq<char> {
    prefix + "replace-"@ + crate::text::replace_spec(dep_name, "/"@, "-"@) + "-"@ + hex_fixed(hash as nat, 8)
}

/// Forms the branch of a migration from `from_ref` to `to_ref`.
pub fn replacement_branch_name(prefix: &str, dep_name: &str, from_ref: &str, to_ref: &str) -> (r: String)
    ensures
        r@ == replacement_branch_spec(prefix@, dep_name@, default_pair_hash32(from_ref@, to_ref@)),
{
    let h = pair_hash32(from_ref, to_ref);
    let mut out = chars_of(prefix);
    push_text(&mut out, "replace-");
    extend_chars(&mut out, &crate::text::replace_all(&chars_of(dep_name), &chars_of("/"), &chars_of("-")));
    push_text(&mut out, "-");
    extend_chars(&mut out, &hex8_of(h));
    assert(out@ == replacement_branch_spec(prefix@, dep_name@, h));
    string_of(&out)
}

/// The text of the file that holds a dependency: the first scanned
/// `(dependency, text)` pair with that name and path; empty when there is none.
pub open spec fn content_for(all: Seq<(DependencyView, Seq<char>)>, name: Seq<char>, path: Seq<char>) -> Seq<char>
    decreases all.len(),
{
    if all.len() == 0 {
        seq![]
    } else if all[0].0.name == name && all[0].0.file_path == path {
        all[0].1
    } else {
        content_for(all.drop_first(), name, path)
    }
}

pub open spec fn scanned_view(v: Seq<(Dependency, String)>) -> Seq<(DependencyView, Seq<char>)> {
    v.map_values(|p: (Dependency, String)| (p.0@, p.1@))
}

/// Finds the text of the file that holds a dependency.
pub fn file_content_for(all_deps: &[(Dependency, String)], dep_name: &str, file_path: &str) -> (r: String)
    ensures
        r@ == content_for(scanned_view(all_deps@), dep_name@, file_path@),
{
    let ghost av = scanned_view(all_deps@);
    let n = chars_of(dep_name);
    let f = chars_of(file_path);
    let mut i: usize = 0;
    assert(av.subrange(0, av.len() as int) =~= av);
    while i < all_deps.len()
        invariant
            i <= all_deps@.len(),
            av == scanned_view(all_deps@),
            n@ == dep_name@,
            f@ == file_path@,
            content_for(av, dep_name@, file_path@) == content_for(av.subrange(i as int, av.len() as int), dep_name@, file_path@),
        decreases all_deps@.len() - i,
    {
        let ghost rest = av.subrange(i as int, av.len() as int);
        assert(rest[0] == (all_deps@[i as int].0@, all_deps@[i as int].1@));
        assert(rest.drop_first() =~= av.subrange(i + 1, av.len() as int));
        let d = &all_deps[i].0;
        if chars_eq(&chars_of(d.name.as_str()), &n) && chars_eq(&chars_of(d.file_path.as_str()), &f) {
            return copy_string(&all_deps[i].1);
        }
        i = i + 1;
    }
    String::new()
}

/// The commit message and merge request title of a migration.
pub open spec fn migration_texts_spec(dep_name: Seq<char>, from_ref: Seq<char>, to_ref: Seq<char>) -> (Seq<char>, Seq<char>) {
    (
        "chore(deps): migrate "@ + dep_name + " from "@ + from_ref + " to "@ + to_ref,
        "chore(deps): migrate "@ + dep_name + " to "@ + to_ref,
    )
}

/// Forms the commit message and merge request title of a migration.
pub fn migration_texts(dep_name: &str, from_ref: &str, to_ref: &str) -> (r: (String, String))
    ensures
        (r.0@, r.1@) == migration_texts_spec(dep_name@, from_ref@, to_ref@),
{
    let mut commit = chars_of("chore(deps): migrate ");
    push_text(&mut commit, dep_name);
    push_text(&mut commit, " from ");
    push_text(&mut commit, from_ref);
    push_text(&mut commit, " to ");
    push_text(&mut commit, to_ref);
    let mut title = chars_of("chore(deps): migrate ");
    push_text(&mut title, dep_name);
    push_text(&mut title, " to ");
    push_text(&mut title, to_ref);
    (string_of(&commit), string_of(&title))
}

/// The labels of a migration merge request: the configured ones and `replacement`.
pub fn migration_labels(labels: &Vec<String>) -> (r: Vec<String>)
    ensures
        strings_view(r@) == strings_view(labels@).push("replacement"@),
{
    let mut out = crate::text::copy_strings(labels);
    let ghost before = strings_view(out@);
    out.push("replacement".to_string());
    assert(strings_view(out@) =~= before.push("replacement"@));
    out
}

/// A built-in dependency manager.
#[derive(Debug, Clone, Copy, PartialEq, Eq, Structural)]
pub enum BuiltinManager {
    Docker,
    Helm,
}

/// The built-in managers that the names select, in order; unknown names are skipped.
pub open spec fn enabled_managers_spec(names: Seq<Seq<char>>) -> Seq<BuiltinManager>
    decreases names.len(),
{
    if names.len() == 0 {
        seq![]
    } else {
        let prev = enabled_managers_spec(names.drop_last());
        if names.last() == "docker"@ {
            prev.push(BuiltinManager::Docker)
        } else if names.last() == "helm"@ {
            prev.push(BuiltinManager::Helm)
        } else {
            prev
        }
    }
}

/// Selects the built-in managers named in the configuration.
pub fn enabled_managers(names: &Vec<String>) -> (r: Vec<BuiltinManager>)
    ensures
        r@ == enabled_managers_spec(strings_view(names@)),
{
    let ghost nv = strings_view(names@);
    let mut out: Vec<BuiltinManager> = Vec::new();
    let mut i: usize = 0;
    while i < names.len()
        invariant
            i <= names@.len(),
            nv == strings_view(names@),
            out@ == enabled_managers_spec(nv.take(i as int)),
        decreases names@.len() - i,
    {
        assert(nv.take(i + 1).drop_last() =~= nv.take(i as int));
        assert(nv.take(i + 1).last() == names@[i as int]@);
        let n = chars_of(names[i].as_str());
        if chars_eq(&n, &chars_of("docker")) {
            out.push(BuiltinManager::Docker);
        } else if chars_eq(&n, &chars_of("helm")) {
            out.push(BuiltinManager::Helm);
        }
        i = i + 1;
    }
    assert(nv.take(names@.len() as int) =~= nv);
    out
}

/// The registry text given to the release-notes lookup: the image, the
/// repository URL and chart, or the OCI registry and image.
pub open spec fn registry_source_text_spec(r: RegistrySourceView) -> Seq<char> {
    match r {
        RegistrySourceView::DockerRegistry { image, .. } => image,
        RegistrySourceView::HelmRepository { repo_url, chart_name } => repo_url + "/"@ + chart_name,
        RegistrySourceView::OciHelmRegistry { registry, image } => match registry {
            Some(g) => g + "/"@ + image,
            None => image,
        },
    }
}

/// Forms the registry text given to the release-notes lookup.
pub fn registry_source_text(r: &RegistrySource) -> (s: String)
    ensures
        s@ == registry_source_text_spec(r@),
{
    match r {
        RegistrySource::DockerRegistry { image, .. } => copy_string(image),
        RegistrySource::HelmRepository { repo_url, chart_name } => {
            let mut v = chars_of(repo_url.as_str());
            push_text(&mut v, "/");
            push_text(&mut v, chart_name.as_str());
            string_of(&v)
        },
        RegistrySource::OciHelmRegistry { registry, image } => match registry {
            Some(g) => {
                let mut v = chars_of(g.as_str());
                push_text(&mut v, "/");
                push_text(&mut v, image.as_str());
                string_of(&v)
            },
            None => copy_string(image),
        },
    }
}

/// Every position that `positions_in` lists is a candidate in that file.
proof fn lemma_positions_in_bounds(cs: Seq<UpdateCandidateView>, p: Seq<char>)
    ensures
        forall|m: int| 0 <= m < positions_in(cs, p).len() ==> 0 <= #[trigger] positions_in(cs, p)[m] < cs.len()
            && cs[positions_in(cs, p)[m]].dependency.file_path == p,
    decreases cs.len(),
{
    if cs.len() > 0 {
        lemma_positions_in_bounds(cs.drop_last(), p);
        assert forall|m: int| 0 <= m < positions_in(cs, p).len() implies 0 <= #[trigger] positions_in(cs, p)[m] < cs.len()
            && cs[positions_in(cs, p)[m]].dependency.file_path == p by {
            let prev = positions_in(cs.drop_last(), p);
            if m < prev.len() {
                assert(positions_in(cs, p)[m] == prev[m]);
                assert(cs[prev[m]] == cs.drop_last()[prev[m]]);
            }
        }
    }
}

/// A file of the candidates holds at least one of them.
proof fn lemma_positions_nonempty(cs: Seq<UpdateCandidateView>, p: Seq<char>)
    requires
        files_of(cs).contains(p),
    ensures
        positions_in(cs, p).len() > 0,
    decreases cs.len(),
{
    if cs.len() > 0 {
        let prev = files_of(cs.drop_last());
        if cs.last().dependency.file_path != p {
            assert(prev.contains(p)) by {
                let m = choose|m: int| 0 <= m < files_of(cs).len() && files_of(cs)[m] == p;
                if !prev.contains(cs.last().dependency.file_path) {
                    assert(files_of(cs) == prev.push(cs.last().dependency.file_path));
                    if m == prev.len() {
                    } else {
                        assert(prev[m] == p);
                    }
                } else {
                    assert(prev[m] == p);
                }
            }
            lemma_positions_nonempty(cs.drop_last(), p);
        }
    }
}

/// The candidates of a group that sit in the file `path`, in group order.
pub open spec fn in_file(cs: Seq<UpdateCandidateView>, path: Seq<char>) -> Seq<UpdateCandidateView> {
    positions_in(cs, path).map_values(|k: int| cs[k])
}

/// The updates of those candidates: each dependency with its new tag.
pub open spec fn file_updates(ps: Seq<UpdateCandidateView>) -> Seq<(DependencyView, Seq<char>)> {
    ps.map_values(|c: UpdateCandidateView| (c.dependency, c.new_version.original_tag))
}

/// One commit of a group's branch: a file, its new content, the commit message,
/// the positions (in the group) and names of the candidates it updates, and the
/// Chart.lock to refresh beside it, if any.
#[derive(Debug)]
pub struct FileCommit {
    pub file_path: String,
    pub content: String,
    pub message: String,
    pub positions: Vec<usize>,
    pub names: Vec<String>,
    pub lock_path: Option<String>,
}

pub struct FileCommitView {
    pub file_path: Seq<char>,
    pub content: Seq<char>,
    pub message: Seq<char>,
    pub positions: Seq<int>,
    pub names: Seq<Seq<char>>,
    pub lock_path: Option<Seq<char>>,
}

impl View for FileCommit {
    type V = FileCommitView;

    open spec fn view(&self) -> FileCommitView {
        FileCommitView {
            file_path: self.file_path@,
            content: self.content@,
            message: self.message@,
            positions: self.positions@.map_values(|k: usize| k as int),
            names: strings_view(self.names@),
            lock_path: opt_view(self.lock_path),
        }
    }
}

/// The commit of one file: the updates of its candidates applied in turn to the
/// text read with the first of them; the Chart.lock beside a `Chart.yaml` is
/// refreshed when lockfile maintenance is on.
pub open spec fn file_commit_spec(
    group_name: Seq<char>,
    cs: Seq<UpdateCandidateView>,
    path: Seq<char>,
    lockfile_enabled: bool,
) -> FileCommitView {
    let ps = in_file(cs, path);
    FileCommitView {
        file_path: path,
        content: crate::updater::apply_updates_spec(file_updates(ps), ps[0].file_content),
        message: commit_message_spec(group_name, ps),
        positions: positions_in(cs, path),
        names: ps.map_values(|c: UpdateCandidateView| c.dependency.name),
        lock_path: if lockfile_enabled && crate::text::ends_with_spec(path, "Chart.yaml"@) {
            Some(chart_lock_path_spec(path))
        } else {
            None
        },
    }
}

/// The commits of a group's branch: one per file, in order of first appearance.
pub fn group_file_commits(group: &Group, lockfile_enabled: bool) -> (r: Vec<FileCommit>)
    ensures
        r@.map_values(|f: FileCommit| f@) == files_of(candidates_view(group.candidates@)).map_values(
            |p: Seq<char>| file_commit_spec(group.name@, candidates_view(group.candidates@), p, lockfile_enabled),
        ),
{
    let cands = &group.candidates;
    let ghost cv = candidates_view(cands@);
    let ghost fs = files_of(cv);
    let by_file = candidates_by_file(cands);
    let mut out: Vec<FileCommit> = Vec::new();
    let mut j: usize = 0;
    while j < by_file.len()
        invariant
            j <= by_file@.len(),
            cv == candidates_view(cands@),
            fs == files_of(cv),
            by_file@.len() == fs.len(),
            forall|m: int| 0 <= m < by_file@.len() ==> (#[trigger] by_file@[m]).0@ == fs[m]
                && by_file@[m].1@.map_values(|k: usize| k as int) == positions_in(cv, by_file@[m].0@),
            out@.map_values(|f: FileCommit| f@) == fs.take(j as int).map_values(
                |p: Seq<char>| file_commit_spec(group.name@, cv, p, lockfile_enabled),
            ),
        decreases by_file@.len() - j,
    {
        let path = &by_file[j].0;
        let ps = &by_file[j].1;
        let ghost pint = positions_in(cv, path@);
        proof {
            lemma_positions_in_bounds(cv, path@);
            assert(fs[j as int] == path@);
            assert(fs.contains(path@));
            lemma_positions_nonempty(cv, path@);
        }
        assert(ps@.len() == pint.len());
        assert forall|m: int| 0 <= m < ps@.len() implies #[trigger] ps@[m] < cands@.len() by {
            assert(ps@.map_values(|k: usize| k as int)[m] == pint[m]);
        }
        let ghost picked_c = in_file(cv, path@);
        let mut updates: Vec<(&Dependency, &str)> = Vec::new();
        let mut names: Vec<String> = Vec::new();
        let mut k: usize = 0;
        while k < ps.len()
            invariant
                k <= ps@.len(),
                ps@.len() == pint.len(),
                cv == candidates_view(cands@),
                picked_c == in_file(cv, path@),
                pint == positions_in(cv, path@),
                ps@.map_values(|q: usize| q as int) == pint,
                forall|m: int| 0 <= m < ps@.len() ==> #[trigger] ps@[m] < cands@.len(),
                crate::updater::updates_view(updates@) == file_updates(picked_c.take(k as int)),
                strings_view(names@) == picked_c.take(k as int).map_values(|c: UpdateCandidateView| c.dependency.name),
            decreases ps@.len() - k,
        {
            let q = ps[k];
            assert(ps@.map_values(|x: usize| x as int)[k as int] == q as int);
            assert(picked_c[k as int] == cv[q as int]);
            assert(cv[q as int] == cands@[q as int]@);
            let c = &cands[q];
            let ghost ub = crate::updater::updates_view(updates@);
            let ghost nb = strings_view(names@);
            updates.push((&c.dependency, c.new_version.original_tag.as_str()));
            names.push(copy_string(&c.dependency.name));
            assert(picked_c.take(k + 1) =~= picked_c.take(k as int).push(picked_c[k as int]));
            assert(crate::updater::updates_view(updates@) =~= ub.push((c.dependency@, c.new_version.original_tag@)));
            assert(strings_view(names@) =~= nb.push(c.dependency.name@));
            k = k + 1;
        }
        assert(picked_c.take(ps@.len() as int) =~= picked_c);
        let first = ps[0];
        assert(ps@.map_values(|x: usize| x as int)[0] == first as int);
        assert(picked_c[0] == cv[first as int]);
        let (update, _errors) = crate::updater::apply_updates(&updates, cands[first].file_content.as_str(), path.as_str());
        let message = commit_message(group.name.as_str(), cands, ps);
        assert(picked(cv, ps@) =~= picked_c);
        let lock_path = if lockfile_enabled && crate::text::ends_with(&chars_of(path.as_str()), &chars_of("Chart.yaml")) {
            Some(chart_lock_path(path.as_str()))
        } else {
            None
        };
        let ghost before = out@.map_values(|f: FileCommit| f@);
        let fc = FileCommit {
            file_path: copy_string(path),
            content: update.updated_content,
            message,
            positions: copy_positions(ps),
            names,
            lock_path,
        };
        assert(fc@ == file_commit_spec(group.name@, cv, path@, lockfile_enabled));
        out.push(fc);
        assert(fs.take(j + 1) =~= fs.take(j as int).push(fs[j as int]));
        assert(out@.map_values(|f: FileCommit| f@) =~= before.push(fc@));
        j = j + 1;
    }
    assert(fs.take(by_file@.len() as int) =~= fs);
    out
}

} // verus!
