//! Applying version updates to file contents.
use vstd::prelude::*;

use crate::error::ReforgeError;
use crate::manager::Dependency;
use crate::manager::DependencyView;
use crate::manager::UpdateContext;
use crate::manager::UpdateContextView;
use crate::text::chars_of;
use crate::text::contains_sub;
use crate::text::contains_sub_in;
use crate::text::ends_with_spec;
use crate::text::extend_chars;
use crate::text::join_chars;
use crate::text::join_spec;
use crate::text::lines_of;
use crate::text::lines_spec;
use crate::text::replace_all;
use crate::text::replace_first;
use crate::text::replace_first_spec;
use crate::text::replace_spec;
use crate::text::string_of;
use crate::text::vecs_view;

verus! {

/// The result of updating one file.
#[derive(Debug)]
pub struct FileUpdate {
    pub file_path: String,
    pub original_content: String,
    pub updated_content: String,
}

/// The value of a [`FileUpdate`]: path, original and updated contents.
pub struct FileUpdateView {
    pub file_path: Seq<char>,
    pub original_content: Seq<char>,
    pub updated_content: Seq<char>,
}

impl View for FileUpdate {
    type V = FileUpdateView;

    open spec fn view(&self) -> FileUpdateView {
        FileUpdateView {
            file_path: self.file_path@,
            original_content: self.original_content@,
            updated_content: self.updated_content@,
        }
    }
}

/// The lines of `content`, the one at `line_number` with every `old` replaced by `new`,
/// joined by `\n`, with a trailing `\n` when `content` had one.
pub open spec fn update_line_spec(content: Seq<char>, line_number: int, old: Seq<char>, new: Seq<char>) -> Seq<char> {
    let updated = updated_lines(lines_spec(content), line_number, old, new);
    let joined = join_spec(updated, "\n"@);
    if ends_with_spec(content, "\n"@) {
        joined.push('\n')
    } else {
        joined
    }
}

/// The lines with the one at `line_number` rewritten.
pub open spec fn updated_lines(lines: Seq<Seq<char>>, line_number: int, old: Seq<char>, new: Seq<char>) -> Seq<Seq<char>> {
    Seq::new(
        lines.len(),
        |i: int|
            if i == line_number {
                replace_spec(lines[i], old, new)
            } else {
                lines[i]
            },
    )
}

/// A line-based update keeps a final newline.
pub proof fn lemma_line_update_keeps_final_newline(content: Seq<char>, line_number: int, old: Seq<char>, new: Seq<char>)
    requires
        ends_with_spec(content, "\n"@),
    ensures
        ends_with_spec(update_line_spec(content, line_number, old, new), "\n"@),
{
    reveal_strlit("\n");
    let r = join_spec(updated_lines(lines_spec(content), line_number, old, new), "\n"@).push('\n');
    assert(r.subrange(r.len() - 1, r.len() as int) =~= seq!['\n']);
}

/// A character that ends an unquoted YAML value: whitespace, `#`, `,`, `]` or `}`.
pub open spec fn value_end_char(c: char) -> bool {
    crate::text::is_ws(c) || c == '#' || c == ',' || c == ']' || c == '}'
}

/// Position `e` ends a value: the end of the text or a value-ending character.
pub open spec fn value_boundary(content: Seq<char>, e: int) -> bool {
    e == content.len() || (0 <= e < content.len() && value_end_char(content[e]))
}

/// The first position at or after `from` where `pat` occurs and a value ends right after it.
pub open spec fn first_value_pos(content: Seq<char>, pat: Seq<char>, from: int) -> Option<int>
    decreases content.len() + 1 - from,
{
    if from < 0 || from + pat.len() > content.len() {
        None
    } else if content.subrange(from, from + pat.len()) == pat && value_boundary(content, from + pat.len()) {
        Some(from)
    } else {
        first_value_pos(content, pat, from + 1)
    }
}

/// The first of `: "old"`, `: 'old'` that occurs in the content has its first
/// occurrence rewritten with `new`; else the first unquoted value `: old` equal to
/// `old` (a value end follows it) is rewritten; otherwise the content is unchanged.
pub open spec fn update_yaml_spec(content: Seq<char>, old: Seq<char>, new: Seq<char>) -> Seq<char> {
    let p1 = ": \""@ + old + "\""@;
    let p2 = ": '"@ + old + "'"@;
    let p3 = ": "@ + old;
    if contains_sub(content, p1) {
        replace_first_spec(content, p1, ": \""@ + new + "\""@)
    } else if contains_sub(content, p2) {
        replace_first_spec(content, p2, ": '"@ + new + "'"@)
    } else {
        match first_value_pos(content, p3, 0) {
            Some(i) => content.subrange(0, i) + (": "@ + new) + content.subrange(i + p3.len(), content.len() as int),
            None => content,
        }
    }
}

/// The content after updating one dependency to `new_version`, by its update context.
pub open spec fn apply_update_spec(dep: DependencyView, new_version: Seq<char>, content: Seq<char>) -> Seq<char> {
    match dep.update_context {
        UpdateContextView::DockerFrom { line_number, .. } => update_line_spec(
            content,
            line_number as int,
            dep.current_version,
            new_version,
        ),
        UpdateContextView::YamlKeyPath { .. } => update_yaml_spec(content, dep.current_version, new_version),
        UpdateContextView::DockerComposeImage { full_reference, .. } => replace_spec(
            content,
            full_reference,
            replace_spec(full_reference, dep.current_version, new_version),
        ),
        UpdateContextView::RegexMatch { matched_text, old_value } => replace_spec(
            content,
            matched_text,
            replace_spec(matched_text, old_value, new_version),
        ),
    }
}

fn update_line_chars(content: &Vec<char>, line_number: usize, old_version: &Vec<char>, new_version: &Vec<char>) -> (r: Vec<char>)
    ensures
        r@ == update_line_spec(content@, line_number as int, old_version@, new_version@),
{
    let lines = lines_of(content);
    let mut result: Vec<Vec<char>> = Vec::new();
    let ghost ls = lines_spec(content@);
    let ghost updated = updated_lines(ls, line_number as int, old_version@, new_version@);
    let mut idx: usize = 0;
    while idx < lines.len()
        invariant
            idx <= lines@.len(),
            vecs_view(lines@) == ls,
            ls.len() == lines@.len(),
            updated.len() == ls.len(),
            forall|i: int| 0 <= i < ls.len() ==> #[trigger] updated[i] == if i == line_number {
                replace_spec(ls[i], old_version@, new_version@)
            } else {
                ls[i]
            },
            vecs_view(result@) == updated.subrange(0, idx as int),
        decreases lines@.len() - idx,
    {
        assert(vecs_view(lines@)[idx as int] == lines@[idx as int]@);
        let line = if idx == line_number {
            replace_all(&lines[idx], old_version, new_version)
        } else {
            crate::text::slice_of(&lines[idx], 0, lines[idx].len())
        };
        assert(line@ =~= updated[idx as int]);
        let ghost before = vecs_view(result@);
        result.push(line);
        assert(vecs_view(result@) =~= before.push(line@));
        assert(updated.subrange(0, idx + 1) =~= updated.subrange(0, idx as int).push(updated[idx as int]));
        idx = idx + 1;
    }
    assert(updated.subrange(0, idx as int) =~= updated);
    let nl = chars_of("\n");
    let mut output = join_chars(&result, &nl);
    if crate::text::ends_with(content, &nl) {
        output.push('\n');
    }
    output
}

proof fn lemma_first_value_pos_bounds(content: Seq<char>, pat: Seq<char>, from: int)
    ensures
        first_value_pos(content, pat, from) matches Some(i) ==> from <= i && i + pat.len() <= content.len(),
    decreases content.len() + 1 - from,
{
    if !(from < 0 || from + pat.len() > content.len()) {
        if !(content.subrange(from, from + pat.len()) == pat && value_boundary(content, from + pat.len())) {
            lemma_first_value_pos_bounds(content, pat, from + 1);
        }
    }
}

fn occurs_at(v: &Vec<char>, pat: &Vec<char>, i: usize) -> (r: bool)
    requires
        i + pat@.len() <= v@.len(),
    ensures
        r == (v@.subrange(i as int, i + pat@.len()) == pat@),
{
    let n = v.len();
    let mut j: usize = 0;
    while j < pat.len()
        invariant
            n == v@.len(),
            j <= pat@.len(),
            i + pat@.len() <= v@.len(),
            forall|m: int| 0 <= m < j ==> v@[i + m] == pat@[m],
        decreases pat@.len() - j,
    {
        assert(i + j < v@.len());
        if v[i + j] != pat[j] {
            assert(v@.subrange(i as int, i + pat@.len())[j as int] != pat@[j as int]);
            return false;
        }
        j = j + 1;
    }
    assert(v@.subrange(i as int, i + pat@.len()) =~= pat@);
    true
}

fn first_value_at(v: &Vec<char>, pat: &Vec<char>) -> (r: Option<usize>)
    ensures
        match r {
            Some(i) => first_value_pos(v@, pat@, 0) == Some(i as int),
            None => first_value_pos(v@, pat@, 0) is None,
        },
{
    if pat.len() > v.len() {
        return None;
    }
    let n = v.len();
    let last = n - pat.len();
    let mut i: usize = 0;
    while i <= last
        invariant
            n == v@.len(),
            last + pat@.len() == v@.len(),
            i <= last,
            first_value_pos(v@, pat@, 0) == first_value_pos(v@, pat@, i as int),
        decreases last + 1 - i,
    {
        if occurs_at(v, pat, i) {
            let e = i + pat.len();
            let boundary = e == v.len() || (e < v.len() && {
                let c = v[e];
                crate::text::is_whitespace(c) || c == '#' || c == ',' || c == ']' || c == '}'
            });
            if boundary {
                return Some(i);
            }
        }
        if i == last {
            assert(first_value_pos(v@, pat@, i + 1) is None);
            return None;
        }
        i = i + 1;
    }
    None
}

fn update_yaml_chars(content: &Vec<char>, old_version: &Vec<char>, new_version: &Vec<char>) -> (r: Vec<char>)
    ensures
        r@ == update_yaml_spec(content@, old_version@, new_version@),
{
    let mut p1 = chars_of(": \"");
    extend_chars(&mut p1, old_version);
    p1.push('"');
    let mut r1 = chars_of(": \"");
    extend_chars(&mut r1, new_version);
    r1.push('"');
    let mut p2 = chars_of(": '");
    extend_chars(&mut p2, old_version);
    p2.push('\'');
    let mut r2 = chars_of(": '");
    extend_chars(&mut r2, new_version);
    r2.push('\'');
    let mut p3 = chars_of(": ");
    extend_chars(&mut p3, old_version);
    let mut r3 = chars_of(": ");
    extend_chars(&mut r3, new_version);
    proof {
        reveal_strlit("\"");
        reveal_strlit("'");
        assert(p1@ =~= ": \""@ + old_version@ + "\""@);
        assert(r1@ =~= ": \""@ + new_version@ + "\""@);
        assert(p2@ =~= ": '"@ + old_version@ + "'"@);
        assert(r2@ =~= ": '"@ + new_version@ + "'"@);
    }
    if contains_sub_in(content, &p1) {
        replace_first(content, &p1, &r1)
    } else if contains_sub_in(content, &p2) {
        replace_first(content, &p2, &r2)
    } else {
        match first_value_at(content, &p3) {
            Some(i) => {
                proof {
                    lemma_first_value_pos_bounds(content@, p3@, 0);
                }
                let mut out = crate::text::slice_of(content, 0, i);
                extend_chars(&mut out, &r3);
                let clen = content.len();
                let rest = crate::text::slice_of(content, i + p3.len(), clen);
                extend_chars(&mut out, &rest);
                out
            },
            None => crate::text::slice_of(content, 0, content.len()),
        }
    }
}

/// Replaces the first `old_version` on line `line_number` (zero-based) with
/// `new_version`, keeping every other line and a final newline.
pub fn update_line_based(content: &str, line_number: usize, old_version: &str, new_version: &str) -> (r: String)
    ensures
        r@ == update_line_spec(content@, line_number as int, old_version@, new_version@),
{
    let out = update_line_chars(&chars_of(content), line_number, &chars_of(old_version), &chars_of(new_version));
    string_of(&out)
}

/// Rewrites the first YAML scalar `: "old"`, `: 'old'` or an unquoted value equal
/// to `old` (tried in that order) to the new version, keeping its quoting.
pub fn update_yaml_value(content: &str, old_version: &str, new_version: &str) -> (r: String)
    ensures
        r@ == update_yaml_spec(content@, old_version@, new_version@),
{
    let out = update_yaml_chars(&chars_of(content), &chars_of(old_version), &chars_of(new_version));
    string_of(&out)
}

/// Applies one dependency update to file content.
pub fn apply_update(dependency: &Dependency, new_version: &str, file_content: &str) -> (r: Result<FileUpdate, ReforgeError>)
    ensures
        r matches Ok(u) && u@ == (FileUpdateView {
            file_path: dependency.file_path@,
            original_content: file_content@,
            updated_content: apply_update_spec(dependency@, new_version@, file_content@),
        }),
{
    let content = chars_of(file_content);
    let new_v = chars_of(new_version);
    let current = chars_of(dependency.current_version.as_str());
    let updated = match &dependency.update_context {
        UpdateContext::DockerFrom { line_number, full_reference: _ } => {
            update_line_chars(&content, *line_number, &current, &new_v)
        },
        UpdateContext::YamlKeyPath { keys: _ } => update_yaml_chars(&content, &current, &new_v),
        UpdateContext::DockerComposeImage { full_reference, .. } => {
            let old_ref = chars_of(full_reference.as_str());
            let new_ref = replace_all(&old_ref, &current, &new_v);
            replace_all(&content, &old_ref, &new_ref)
        },
        UpdateContext::RegexMatch { matched_text, old_value } => {
            let old_text = chars_of(matched_text.as_str());
            let old_val = chars_of(old_value.as_str());
            let new_text = replace_all(&old_text, &old_val, &new_v);
            replace_all(&content, &old_text, &new_text)
        },
    };
    Ok(FileUpdate {
        file_path: crate::text::copy_string(&dependency.file_path),
        original_content: string_of(&content),
        updated_content: string_of(&updated),
    })
}

/// Content after applying the updates in order, each to the result of the previous.
pub open spec fn apply_updates_spec(updates: Seq<(DependencyView, Seq<char>)>, content: Seq<char>) -> Seq<char>
    decreases updates.len(),
{
    if updates.len() == 0 {
        content
    } else {
        let prev = apply_updates_spec(updates.drop_last(), content);
        apply_update_spec(updates.last().0, updates.last().1, prev)
    }
}

pub open spec fn updates_view(v: Seq<(&Dependency, &str)>) -> Seq<(DependencyView, Seq<char>)> {
    v.map_values(|u: (&Dependency, &str)| (u.0@, u.1@))
}

/// Applies a sequence of updates to one file, each to the output of the previous.
/// Updates that fail are skipped and their errors returned beside the result
/// (with the current update contexts none fails).
pub fn apply_updates(updates: &Vec<(&Dependency, &str)>, file_content: &str, file_path: &str) -> (r: (FileUpdate, Vec<ReforgeError>))
    ensures
        r.0@ == (FileUpdateView {
            file_path: file_path@,
            original_content: file_content@,
            updated_content: apply_updates_spec(updates_view(updates@), file_content@),
        }),
        r.1@.len() == 0,
{
    let mut current = String::from_str(file_content);
    let errors: Vec<ReforgeError> = Vec::new();
    let ghost uv = updates_view(updates@);
    let mut i: usize = 0;
    while i < updates.len()
        invariant
            i <= updates@.len(),
            uv == updates_view(updates@),
            current@ == apply_updates_spec(uv.subrange(0, i as int), file_content@),
        decreases updates@.len() - i,
    {
        let ghost pre = uv.subrange(0, i + 1);
        assert(pre.drop_last() =~= uv.subrange(0, i as int));
        assert(pre.last() == uv[i as int]);
        let (dep, new_version) = updates[i];
        match apply_update(dep, new_version, current.as_str()) {
            Ok(update) => {
                current = update.updated_content;
            },
            Err(_) => {},
        }
        i = i + 1;
    }
    assert(uv.subrange(0, i as int) =~= uv);
    (
        FileUpdate {
            file_path: String::from_str(file_path),
            original_content: String::from_str(file_content),
            updated_content: current,
        },
        errors,
    )
}

/// Rewrites every `from_ref` in the content to `to_ref` (an image/chart migration).
pub fn apply_replacement(file_content: &str, file_path: &str, from_ref: &str, to_ref: &str) -> (r: FileUpdate)
    ensures
        r@ == (FileUpdateView {
            file_path: file_path@,
            original_content: file_content@,
            updated_content: replace_spec(file_content@, from_ref@, to_ref@),
        }),
{
    let content = chars_of(file_content);
    let updated = replace_all(&content, &chars_of(from_ref), &chars_of(to_ref));
    FileUpdate {
        file_path: String::from_str(file_path),
        original_content: String::from_str(file_content),
        updated_content: string_of(&updated),
    }
}

} // verus!
