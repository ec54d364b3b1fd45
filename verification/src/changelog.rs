//! Release notes: reading changelog sections and rendering them into MR descriptions.
use vstd::prelude::*;
use vstd::string::StringSliceAdditionalSpecFns;

use crate::text::chars_of;
use crate::text::contains_sub;
use crate::text::contains_sub_in;
use crate::text::extend_chars;
use crate::text::find_char;
use crate::text::find_spec;
use crate::text::find_sub;
use crate::text::find_sub_in;
use crate::text::is_whitespace;
use crate::text::is_ws;
use crate::text::join_chars;
use crate::text::join_spec;
use crate::text::lemma_find_spec;
use crate::text::lines_of;
use crate::text::lines_spec;
use crate::text::parse_u64;
use crate::text::parse_u64_spec;
use crate::text::rfind_char;
use crate::text::rfind_spec;
use crate::text::slice_of;
use crate::text::split_chars;
use crate::text::split_spec;
use crate::text::string_of;
use crate::text::strip_prefix_char;
use crate::text::trim_chars;
use crate::text::trim_end_char;
use crate::text::trim_end_spec;
use crate::text::trim_start_spec;
use crate::text::trim_end_char_in;
use crate::text::trim_end_str;
use crate::text::trim_end_str_in;
use crate::text::trim_spec;
use crate::text::vecs_view;

verus! {

/// Text appended after a truncated changelog.
pub open spec fn truncation_note() -> Seq<char> {
    "\n\n... (truncated)"@
}

/// Truncation of changelog text to `max_length` characters: the text is kept
/// whole when it fits; otherwise its first `max_length` characters are cut back
/// to the last line break within them, and a truncation note is appended.
pub open spec fn truncate_spec(text: Seq<char>, max_length: int) -> Seq<char> {
    if text.len() <= max_length {
        text
    } else {
        let cut = text.subrange(0, max_length);
        let kept = match rfind_spec(cut, '\n') {
            Some(i) => cut.subrange(0, i),
            None => cut,
        };
        kept + truncation_note()
    }
}

/// Truncates changelog text to `max_length` characters, preferring a line
/// boundary, and appends a note when it cut anything.
pub fn truncate_changelog(text: &str, max_length: usize) -> (r: String)
    ensures
        r@ == truncate_spec(text@, max_length as int),
{
    let v = chars_of(text);
    if v.len() <= max_length {
        return string_of(&v);
    }
    let cut = slice_of(&v, 0, max_length);
    proof {
        crate::text::lemma_rfind_spec(cut@, '\n');
    }
    let kept = match rfind_char(&cut, '\n') {
        Some(i) => slice_of(&cut, 0, i),
        None => cut,
    };
    let mut out = string_of(&kept);
    out.append("\n\n... (truncated)");
    out
}

/// The changelog notes wrapped in a collapsible `<details>` block.
pub open spec fn changelog_section_spec(notes: Seq<char>) -> Seq<char> {
    "<details>\n<summary>Release Notes</summary>\n\n"@ + notes + "\n\n</details>"@
}

/// Wraps changelog notes in a collapsible `<details>` block.
pub fn render_changelog_section(notes: &str) -> (r: String)
    ensures
        r@ == changelog_section_spec(notes@),
{
    let mut out = String::from_str("<details>\n<summary>Release Notes</summary>\n\n");
    out.append(notes);
    out.append("\n\n</details>");
    out
}

/// The numeric parts of a dotted version; a part that is not a number counts as 0.
pub open spec fn version_parts_spec(v: Seq<char>) -> Seq<u64> {
    split_spec(v, '.').map_values(
        |p: Seq<char>|
            match parse_u64_spec(p) {
                Some(n) => n,
                None => 0u64,
            },
    )
}

/// Lexicographic order on number sequences (a proper prefix is smaller).
pub open spec fn seq_lt(a: Seq<u64>, b: Seq<u64>) -> bool
    decreases a.len(),
{
    if a.len() == 0 {
        b.len() > 0
    } else if b.len() == 0 {
        false
    } else if a[0] != b[0] {
        a[0] < b[0]
    } else {
        seq_lt(a.drop_first(), b.drop_first())
    }
}

/// `a` is newer than `b` when its numeric parts compare greater.
pub open spec fn version_gt_spec(a: Seq<char>, b: Seq<char>) -> bool {
    seq_lt(version_parts_spec(b), version_parts_spec(a))
}

/// `version` lies in `(from, to]`.
pub open spec fn in_range_spec(version: Seq<char>, from: Seq<char>, to: Seq<char>) -> bool {
    version_gt_spec(version, from) && (version == to || version_gt_spec(to, version))
}

fn version_parts(v: &Vec<char>) -> (r: Vec<u64>)
    ensures
        r@ == version_parts_spec(v@),
{
    let pieces = split_chars(v, '.');
    let mut r: Vec<u64> = Vec::new();
    let mut i: usize = 0;
    while i < pieces.len()
        invariant
            i <= pieces@.len(),
            vecs_view(pieces@) == split_spec(v@, '.'),
            r@ == version_parts_spec(v@).subrange(0, i as int),
        decreases pieces@.len() - i,
    {
        let n = match parse_u64(&pieces[i]) {
            Some(n) => n,
            None => 0,
        };
        assert(vecs_view(pieces@)[i as int] == pieces@[i as int]@);
        r.push(n);
        assert(r@ =~= version_parts_spec(v@).subrange(0, i + 1));
        i = i + 1;
    }
    assert(version_parts_spec(v@).subrange(0, i as int) =~= version_parts_spec(v@));
    r
}

fn lex_lt(a: &Vec<u64>, b: &Vec<u64>) -> (r: bool)
    ensures
        r == seq_lt(a@, b@),
{
    let mut i: usize = 0;
    assert(a@.subrange(0, a@.len() as int) =~= a@);
    assert(b@.subrange(0, b@.len() as int) =~= b@);
    while i < a.len() && i < b.len() && a[i] == b[i]
        invariant
            i <= a@.len(),
            i <= b@.len(),
            seq_lt(a@, b@) == seq_lt(a@.subrange(i as int, a@.len() as int), b@.subrange(i as int, b@.len() as int)),
        decreases a@.len() - i,
    {
        assert(a@.subrange(i as int, a@.len() as int).drop_first() =~= a@.subrange(i + 1, a@.len() as int));
        assert(b@.subrange(i as int, b@.len() as int).drop_first() =~= b@.subrange(i + 1, b@.len() as int));
        i = i + 1;
    }
    proof {
        assert(a@.subrange(0, a@.len() as int) =~= a@);
        assert(b@.subrange(0, b@.len() as int) =~= b@);
    }
    if i == a.len() {
        i < b.len()
    } else if i == b.len() {
        false
    } else {
        a[i] < b[i]
    }
}

fn version_gt(a: &Vec<char>, b: &Vec<char>) -> (r: bool)
    ensures
        r == version_gt_spec(a@, b@),
{
    let pa = version_parts(a);
    let pb = version_parts(b);
    lex_lt(&pb, &pa)
}

fn is_version_in_range(version: &Vec<char>, from: &Vec<char>, to: &Vec<char>) -> (r: bool)
    ensures
        r == in_range_spec(version@, from@, to@),
{
    version_gt(version, from) && (crate::text::chars_eq(version, to) || version_gt(to, version))
}

/// Whether `version` lies strictly above `from` and at or below `to`, comparing dotted numeric parts.
pub fn version_in_range(version: &str, from: &str, to: &str) -> (r: bool)
    ensures
        r == in_range_spec(version@, from@, to@),
{
    is_version_in_range(&chars_of(version), &chars_of(from), &chars_of(to))
}

fn strip_v(v: &Vec<char>) -> (r: Vec<char>)
    ensures
        r@ == strip_prefix_char(v@, 'v'),
{
    if v.len() > 0 && v[0] == 'v' {
        slice_of(v, 1, v.len())
    } else {
        slice_of(v, 0, v.len())
    }
}

/// `s` without its leading `#` characters.
pub open spec fn trim_start_hash(s: Seq<char>) -> Seq<char>
    decreases s.len(),
{
    if s.len() > 0 && s[0] == '#' {
        trim_start_hash(s.drop_first())
    } else {
        s
    }
}

/// The first whitespace-separated word of `s`, if any.
pub open spec fn first_word(s: Seq<char>) -> Option<Seq<char>>
    decreases s.len(),
{
    if s.len() == 0 {
        None
    } else if is_ws(s[0]) {
        first_word(s.drop_first())
    } else {
        Some(word_prefix(s))
    }
}

/// The longest prefix of `s` without whitespace.
pub open spec fn word_prefix(s: Seq<char>) -> Seq<char>
    decreases s.len(),
{
    if s.len() == 0 || is_ws(s[0]) {
        seq![]
    } else {
        seq![s[0]] + word_prefix(s.drop_first())
    }
}

/// The version named by a Markdown heading line such as `## 1.2.3` or `## [v1.2.3] - date`:
/// only a line that starts with `#` is a heading; leading `#`s and surrounding whitespace are dropped, a bracketed part is taken
/// when a `]` closes it, and its first word is the version when (after an optional
/// `v`) it starts with an ASCII digit.
pub open spec fn heading_version_spec(line: Seq<char>) -> Option<Seq<char>> {
    if line.len() == 0 || line[0] != '#' {
        None
    } else {
        heading_words_version(line)
    }
}

/// The version named by the words of a heading line after its `#`s.
pub open spec fn heading_words_version(line: Seq<char>) -> Option<Seq<char>> {
    let trimmed = trim_spec(trim_start_hash(line));
    let inner = if trimmed.len() > 0 && trimmed[0] == '[' {
        let s = trimmed.drop_first();
        match find_spec(s, ']') {
            Some(i) => s.subrange(0, i),
            None => trimmed,
        }
    } else {
        trimmed
    };
    match first_word(inner) {
        None => None,
        Some(candidate) => {
            let stripped = strip_prefix_char(candidate, 'v');
            if stripped.len() > 0 && '0' <= stripped[0] <= '9' {
                Some(candidate)
            } else {
                None
            }
        },
    }
}

fn first_word_of(v: &Vec<char>) -> (r: Option<Vec<char>>)
    ensures
        match r {
            Some(w) => first_word(v@) == Some(w@),
            None => first_word(v@) is None,
        },
{
    let mut i: usize = 0;
    assert(v@.subrange(0, v@.len() as int) =~= v@);
    while i < v.len() && is_whitespace(v[i])
        invariant
            i <= v@.len(),
            first_word(v@) == first_word(v@.subrange(i as int, v@.len() as int)),
        decreases v@.len() - i,
    {
        assert(v@.subrange(i as int, v@.len() as int).drop_first() =~= v@.subrange(i + 1, v@.len() as int));
        i = i + 1;
    }
    if i == v.len() {
        return None;
    }
    let start = i;
    let ghost rest = v@.subrange(start as int, v@.len() as int);
    let mut j: usize = i;
    while j < v.len() && !is_whitespace(v[j])
        invariant
            start <= j <= v@.len(),
            rest == v@.subrange(start as int, v@.len() as int),
            word_prefix(rest) == v@.subrange(start as int, j as int) + word_prefix(v@.subrange(j as int, v@.len() as int)),
        decreases v@.len() - j,
    {
        let ghost t = v@.subrange(j as int, v@.len() as int);
        assert(t.drop_first() =~= v@.subrange(j + 1, v@.len() as int));
        assert(v@.subrange(start as int, j + 1) =~= v@.subrange(start as int, j as int) + seq![t[0]]);
        j = j + 1;
    }
    assert(word_prefix(v@.subrange(j as int, v@.len() as int)) =~= Seq::<char>::empty());
    assert(word_prefix(rest) =~= v@.subrange(start as int, j as int));
    Some(slice_of(v, start, j))
}

fn parse_version_heading(line: &Vec<char>) -> (r: Option<Vec<char>>)
    ensures
        match r {
            Some(w) => heading_version_spec(line@) == Some(w@),
            None => heading_version_spec(line@) is None,
        },
{
    if line.len() == 0 || line[0] != '#' {
        return None;
    }
    let mut i: usize = 0;
    assert(line@.subrange(0, line@.len() as int) =~= line@);
    while i < line.len() && line[i] == '#'
        invariant
            i <= line@.len(),
            trim_start_hash(line@) == trim_start_hash(line@.subrange(i as int, line@.len() as int)),
        decreases line@.len() - i,
    {
        assert(line@.subrange(i as int, line@.len() as int).drop_first() =~= line@.subrange(i + 1, line@.len() as int));
        i = i + 1;
    }
    let after_hash = slice_of(line, i, line.len());
    let trimmed = trim_chars(&after_hash);
    let inner = if trimmed.len() > 0 && trimmed[0] == '[' {
        let s = slice_of(&trimmed, 1, trimmed.len());
        assert(s@ =~= trimmed@.drop_first());
        proof {
            lemma_find_spec(s@, ']');
        }
        match find_char(&s, ']') {
            Some(k) => slice_of(&s, 0, k),
            None => trimmed,
        }
    } else {
        trimmed
    };
    match first_word_of(&inner) {
        None => None,
        Some(candidate) => {
            let stripped = strip_v(&candidate);
            if stripped.len() > 0 && '0' <= stripped[0] && stripped[0] <= '9' {
                Some(candidate)
            } else {
                None
            }
        },
    }
}

/// Appends a section when its version is in range and it holds lines.
pub open spec fn flush_spec(
    sections: Seq<Seq<char>>,
    ver: Option<Seq<char>>,
    lines: Seq<Seq<char>>,
    from: Seq<char>,
    to: Seq<char>,
) -> Seq<Seq<char>> {
    match ver {
        Some(v) => {
            if in_range_spec(strip_prefix_char(v, 'v'), from, to) && lines.len() > 0 {
                sections.push(join_spec(lines, "\n"@))
            } else {
                sections
            }
        },
        None => sections,
    }
}

/// Scanning state after the given lines: finished sections, the lines of the
/// section being read, and that section's version.
pub open spec fn scan_spec(lines: Seq<Seq<char>>, from: Seq<char>, to: Seq<char>) -> (
    Seq<Seq<char>>,
    Seq<Seq<char>>,
    Option<Seq<char>>,
)
    decreases lines.len(),
{
    if lines.len() == 0 {
        (seq![], seq![], None)
    } else {
        let prev = scan_spec(lines.drop_last(), from, to);
        let line = lines.last();
        match heading_version_spec(line) {
            Some(h) => (flush_spec(prev.0, prev.2, prev.1, from, to), seq![line], Some(h)),
            None => {
                if prev.2 is Some {
                    (prev.0, prev.1.push(line), prev.2)
                } else {
                    prev
                }
            },
        }
    }
}

/// The separator placed between changelog sections.
pub open spec fn section_separator() -> Seq<char> {
    "\n\n---\n\n"@
}

/// The sections of a changelog whose heading version lies in `(from, to]`
/// (a leading `v` ignored on all three), each section being its heading line and
/// the lines up to the next heading; `None` when there is none.
pub open spec fn extract_changelog_range_spec(changelog: Seq<char>, from: Seq<char>, to: Seq<char>) -> Option<Seq<char>> {
    let f = strip_prefix_char(from, 'v');
    let t = strip_prefix_char(to, 'v');
    let st = scan_spec(lines_spec(changelog), f, t);
    let sections = flush_spec(st.0, st.2, st.1, f, t);
    if sections.len() == 0 {
        None
    } else {
        Some(join_spec(sections, section_separator()))
    }
}

fn flush(
    sections: &mut Vec<Vec<char>>,
    ver: &Option<Vec<char>>,
    lines: &Vec<Vec<char>>,
    from: &Vec<char>,
    to: &Vec<char>,
)
    ensures
        vecs_view(final(sections)@) == flush_spec(
            vecs_view(old(sections)@),
            match ver {
                Some(v) => Some(v@),
                None => None,
            },
            vecs_view(lines@),
            from@,
            to@,
        ),
{
    match ver {
        Some(v) => {
            let s = strip_v(v);
            if is_version_in_range(&s, from, to) && lines.len() > 0 {
                let nl = chars_of("\n");
                let joined = join_chars(lines, &nl);
                sections.push(joined);
                assert(vecs_view(sections@) =~= vecs_view(old(sections)@).push(joined@));
            }
        },
        None => {},
    }
}

/// Extracts the sections of a CHANGELOG.md whose versions lie in `(from_version, to_version]`.
pub fn extract_changelog_range(changelog: &str, from_version: &str, to_version: &str) -> (r: Option<String>)
    ensures
        match r {
            Some(s) => extract_changelog_range_spec(changelog@, from_version@, to_version@) == Some(s@),
            None => extract_changelog_range_spec(changelog@, from_version@, to_version@) is None,
        },
{
    let from = strip_v(&chars_of(from_version));
    let to = strip_v(&chars_of(to_version));
    let text = chars_of(changelog);
    let lines = lines_of(&text);
    let mut sections: Vec<Vec<char>> = Vec::new();
    let mut current_lines: Vec<Vec<char>> = Vec::new();
    let mut current_version: Option<Vec<char>> = None;
    let mut i: usize = 0;
    while i < lines.len()
        invariant
            i <= lines@.len(),
            ({
                let st = scan_spec(vecs_view(lines@).subrange(0, i as int), from@, to@);
                &&& vecs_view(sections@) == st.0
                &&& vecs_view(current_lines@) == st.1
                &&& st.2 == match current_version {
                    Some(v) => Some(v@),
                    None => None,
                }
            }),
        decreases lines@.len() - i,
    {
        let ghost pre = vecs_view(lines@).subrange(0, i + 1);
        assert(pre.drop_last() =~= vecs_view(lines@).subrange(0, i as int));
        assert(pre.last() == lines@[i as int]@);
        let line = &lines[i];
        match parse_version_heading(line) {
            Some(h) => {
                flush(&mut sections, &current_version, &current_lines, &from, &to);
                current_version = Some(h);
                let mut fresh: Vec<Vec<char>> = Vec::new();
                let copy = slice_of(line, 0, line.len());
                assert(copy@ =~= line@);
                fresh.push(copy);
                current_lines = fresh;
                assert(vecs_view(current_lines@) =~= seq![line@]);
            },
            None => {
                if current_version.is_some() {
                    let ghost old_lines = vecs_view(current_lines@);
                    let copy = slice_of(line, 0, line.len());
                    assert(copy@ =~= line@);
                    current_lines.push(copy);
                    assert(vecs_view(current_lines@) =~= old_lines.push(line@));
                }
            },
        }
        i = i + 1;
    }
    assert(vecs_view(lines@).subrange(0, i as int) =~= vecs_view(lines@));
    flush(&mut sections, &current_version, &current_lines, &from, &to);
    if sections.len() == 0 {
        return None;
    }
    let sep = chars_of("\n\n---\n\n");
    let joined = join_chars(&sections, &sep);
    Some(string_of(&joined))
}


/// A repository URL with trailing `/`s and then trailing `.git`s removed.
pub open spec fn repo_base(url: Seq<char>) -> Seq<char> {
    trim_end_str(trim_end_char(url, '/'), ".git"@)
}

fn repo_base_of(url: &Vec<char>) -> (r: Vec<char>)
    ensures
        r@ == repo_base(url@),
{
    let a = trim_end_char_in(url, '/');
    let git = chars_of(".git");
    trim_end_str_in(&a, &git)
}

/// The raw CHANGELOG.md URL of a GitHub repository URL; `None` for other hosts.
pub open spec fn github_raw_changelog_url_spec(repo_url: Seq<char>) -> Option<Seq<char>> {
    let base = repo_base(repo_url);
    if !contains_sub(base, "github.com"@) {
        None
    } else {
        Some(base + "/raw/HEAD/CHANGELOG.md"@)
    }
}

/// Converts a GitHub repository URL to the raw URL of its CHANGELOG.md.
pub fn github_raw_changelog_url(repo_url: &str) -> (r: Option<String>)
    ensures
        match r {
            Some(u) => github_raw_changelog_url_spec(repo_url@) == Some(u@),
            None => github_raw_changelog_url_spec(repo_url@) is None,
        },
{
    let base = repo_base_of(&chars_of(repo_url));
    let host = chars_of("github.com");
    if !contains_sub_in(&base, &host) {
        return None;
    }
    let mut out = string_of(&base);
    out.append("/raw/HEAD/CHANGELOG.md");
    Some(out)
}

/// `(owner, repo)` from a URL of the shape `…github.com/owner/repo[/…]`: the text
/// between the first `github.com/` and the next one (or the end) must hold an
/// owner, a `/`, and a repository name up to the next `/`; both must be non-empty.
pub open spec fn parse_github_url_spec(url: Seq<char>) -> Option<(Seq<char>, Seq<char>)> {
    let s = repo_base(url);
    let pat = "github.com/"@;
    match find_sub(s, pat) {
        None => None,
        Some(i) => {
            let after = s.subrange(i + pat.len(), s.len() as int);
            let piece = match find_sub(after, pat) {
                Some(j) => after.subrange(0, j),
                None => after,
            };
            match find_spec(piece, '/') {
                None => None,
                Some(a) => {
                    let owner = piece.subrange(0, a);
                    let rest = piece.subrange(a + 1, piece.len() as int);
                    let repo = match find_spec(rest, '/') {
                        Some(b) => rest.subrange(0, b),
                        None => rest,
                    };
                    if owner.len() == 0 || repo.len() == 0 {
                        None
                    } else {
                        Some((owner, repo))
                    }
                },
            }
        },
    }
}

pub open spec fn opt_pair_view(o: Option<(String, String)>) -> Option<(Seq<char>, Seq<char>)> {
    match o {
        Some(p) => Some((p.0@, p.1@)),
        None => None,
    }
}

proof fn lemma_find_sub_from_bounds(s: Seq<char>, pat: Seq<char>, from: int)
    ensures
        find_sub_from_result_ok(s, pat, from),
    decreases s.len() - from,
{
    if !(from < 0 || from + pat.len() > s.len()) && !crate::text::occurs_at(s, pat, from) {
        lemma_find_sub_from_bounds(s, pat, from + 1);
    }
}

spec fn find_sub_from_result_ok(s: Seq<char>, pat: Seq<char>, from: int) -> bool {
    match crate::text::find_sub_from(s, pat, from) {
        Some(i) => from <= i && i + pat.len() <= s.len(),
        None => true,
    }
}

/// Extracts `(owner, repo)` from a GitHub URL.
pub fn parse_github_url(url: &str) -> (r: Option<(String, String)>)
    ensures
        opt_pair_view(r) == parse_github_url_spec(url@),
{
    let s = repo_base_of(&chars_of(url));
    let pat = chars_of("github.com/");
    proof {
        lemma_find_sub_from_bounds(s@, pat@, 0);
    }
    let i = match find_sub_in(&s, &pat, 0) {
        None => {
            return None;
        },
        Some(i) => i,
    };
    assert(find_sub_from_result_ok(s@, pat@, 0));
    let sl = s.len();
    let pl = pat.len();
    assert(i + pl <= sl);
    let after = slice_of(&s, i + pl, sl);
    proof {
        lemma_find_sub_from_bounds(after@, pat@, 0);
    }
    let piece = match find_sub_in(&after, &pat, 0) {
        Some(j) => slice_of(&after, 0, j),
        None => after,
    };
    proof {
        lemma_find_spec(piece@, '/');
    }
    let a = match find_char(&piece, '/') {
        None => {
            return None;
        },
        Some(a) => a,
    };
    let owner = slice_of(&piece, 0, a);
    let rest = slice_of(&piece, a + 1, piece.len());
    proof {
        lemma_find_spec(rest@, '/');
    }
    let repo = match find_char(&rest, '/') {
        Some(b) => slice_of(&rest, 0, b),
        None => rest,
    };
    if owner.len() == 0 || repo.len() == 0 {
        return None;
    }
    Some((string_of(&owner), string_of(&repo)))
}

/// `(owner, repo)` for release-note lookup: from the registry source when it is a
/// GitHub URL, else from a dependency name of the shape `owner/repo`
/// (split at its first `/`, both sides non-empty).
pub open spec fn owner_repo_spec(dep_name: Seq<char>, registry_source: Option<Seq<char>>) -> Option<(Seq<char>, Seq<char>)> {
    let from_source = match registry_source {
        Some(src) => parse_github_url_spec(src),
        None => None,
    };
    if from_source is Some {
        from_source
    } else {
        match find_spec(dep_name, '/') {
            None => None,
            Some(i) => {
                let owner = dep_name.subrange(0, i);
                let repo = dep_name.subrange(i + 1, dep_name.len() as int);
                if owner.len() > 0 && repo.len() > 0 {
                    Some((owner, repo))
                } else {
                    None
                }
            },
        }
    }
}

/// Derives `(owner, repo)` from a registry source URL or an `owner/repo` dependency name.
pub fn extract_github_owner_repo(dep_name: &str, registry_source: Option<&str>) -> (r: Option<(String, String)>)
    ensures
        opt_pair_view(r) == owner_repo_spec(
            dep_name@,
            match registry_source {
                Some(s) => Some(s@),
                None => None,
            },
        ),
{
    if let Some(src) = registry_source {
        if let Some(pair) = parse_github_url(src) {
            return Some(pair);
        }
    }
    let d = chars_of(dep_name);
    proof {
        lemma_find_spec(d@, '/');
    }
    match find_char(&d, '/') {
        None => None,
        Some(i) => {
            let owner = slice_of(&d, 0, i);
            let repo = slice_of(&d, i + 1, d.len());
            if owner.len() > 0 && repo.len() > 0 {
                Some((string_of(&owner), string_of(&repo)))
            } else {
                None
            }
        },
    }
}

/// One release's entry: `### <tag>` and the trimmed body, when the tag's version
/// (leading `v` ignored) lies in `(from, to]` and the body is not blank.
pub open spec fn release_entry(tag: Seq<char>, body: Option<Seq<char>>, from: Seq<char>, to: Seq<char>) -> Option<Seq<char>> {
    if in_range_spec(strip_prefix_char(tag, 'v'), from, to) {
        match body {
            Some(b) => {
                if trim_spec(b).len() > 0 {
                    Some("### "@ + tag + "\n\n"@ + trim_spec(b))
                } else {
                    None
                }
            },
            None => None,
        }
    } else {
        None
    }
}

/// The entries of the releases, in order.
pub open spec fn release_entries(
    releases: Seq<(Seq<char>, Option<Seq<char>>)>,
    from: Seq<char>,
    to: Seq<char>,
) -> Seq<Seq<char>>
    decreases releases.len(),
{
    if releases.len() == 0 {
        seq![]
    } else {
        let prev = release_entries(releases.drop_last(), from, to);
        match release_entry(releases.last().0, releases.last().1, from, to) {
            Some(e) => prev.push(e),
            None => prev,
        }
    }
}

pub open spec fn releases_view(v: Seq<(String, Option<String>)>) -> Seq<(Seq<char>, Option<Seq<char>>)> {
    v.map_values(|r: (String, Option<String>)| (r.0@, crate::text::opt_view(r.1)))
}

/// Release notes for the releases (tag, body) between two versions: the entries of
/// releases whose version lies in `(from_version, to_version]` with a non-blank
/// body, joined by separators; `None` when there is none.
pub open spec fn release_notes_spec(
    releases: Seq<(Seq<char>, Option<Seq<char>>)>,
    from_version: Seq<char>,
    to_version: Seq<char>,
) -> Option<Seq<char>> {
    let entries = release_entries(
        releases,
        strip_prefix_char(from_version, 'v'),
        strip_prefix_char(to_version, 'v'),
    );
    if entries.len() == 0 {
        None
    } else {
        Some(join_spec(entries, section_separator()))
    }
}

/// Selects and formats the release notes of the releases (tag, body) between two versions.
pub fn release_notes_between(releases: &Vec<(String, Option<String>)>, from_version: &str, to_version: &str) -> (r: Option<String>)
    ensures
        match r {
            Some(s) => release_notes_spec(releases_view(releases@), from_version@, to_version@) == Some(s@),
            None => release_notes_spec(releases_view(releases@), from_version@, to_version@) is None,
        },
{
    let from = strip_v(&chars_of(from_version));
    let to = strip_v(&chars_of(to_version));
    let ghost rv = releases_view(releases@);
    let mut entries: Vec<Vec<char>> = Vec::new();
    let mut i: usize = 0;
    while i < releases.len()
        invariant
            i <= releases@.len(),
            rv == releases_view(releases@),
            vecs_view(entries@) == release_entries(rv.subrange(0, i as int), from@, to@),
        decreases releases@.len() - i,
    {
        let ghost pre = rv.subrange(0, i + 1);
        assert(pre.drop_last() =~= rv.subrange(0, i as int));
        assert(pre.last() == rv[i as int]);
        let tag = chars_of(releases[i].0.as_str());
        let tag_stripped = strip_v(&tag);
        if is_version_in_range(&tag_stripped, &from, &to) {
            match &releases[i].1 {
                Some(b) => {
                    let body = trim_chars(&chars_of(b.as_str()));
                    if body.len() > 0 {
                        let mut e = chars_of("### ");
                        extend_chars(&mut e, &tag);
                        let nn = chars_of("\n\n");
                        extend_chars(&mut e, &nn);
                        extend_chars(&mut e, &body);
                        let ghost old_entries = vecs_view(entries@);
                        entries.push(e);
                        assert(vecs_view(entries@) =~= old_entries.push(e@));
                    }
                },
                None => {},
            }
        }
        i = i + 1;
    }
    assert(rv.subrange(0, i as int) =~= rv);
    if entries.len() == 0 {
        return None;
    }
    let sep = chars_of("\n\n---\n\n");
    let joined = join_chars(&entries, &sep);
    Some(string_of(&joined))
}

/// Text that fits is kept as it is.
pub proof fn lemma_short_changelog_unchanged(text: Seq<char>, max_length: int)
    requires
        text.len() <= max_length,
    ensures
        truncate_spec(text, max_length) == text,
{
}

proof fn lemma_seq_lt_irreflexive(a: Seq<u64>)
    ensures
        !seq_lt(a, a),
    decreases a.len(),
{
    if a.len() > 0 {
        lemma_seq_lt_irreflexive(a.drop_first());
    }
}

proof fn lemma_seq_lt_asymmetric(a: Seq<u64>, b: Seq<u64>)
    ensures
        !(seq_lt(a, b) && seq_lt(b, a)),
    decreases a.len(),
{
    if a.len() > 0 && b.len() > 0 && a[0] == b[0] {
        lemma_seq_lt_asymmetric(a.drop_first(), b.drop_first());
    }
}

/// No version is newer than itself, and of two versions at most one is newer.
pub proof fn lemma_version_order_strict(a: Seq<char>, b: Seq<char>)
    ensures
        !version_gt_spec(a, a),
        !(version_gt_spec(a, b) && version_gt_spec(b, a)),
{
    lemma_seq_lt_irreflexive(version_parts_spec(a));
    lemma_seq_lt_asymmetric(version_parts_spec(a), version_parts_spec(b));
}

/// A version in the range `(from, to]` is newer than `from` and not newer than `to`.
pub proof fn lemma_in_range_bounds(version: Seq<char>, from: Seq<char>, to: Seq<char>)
    requires
        in_range_spec(version, from, to),
    ensures
        version_gt_spec(version, from),
        !version_gt_spec(version, to),
{
    lemma_version_order_strict(version, to);
}


/// A run of `k` `#` characters.
pub open spec fn hash_run(k: nat) -> Seq<char> {
    Seq::new(k, |_i: int| '#')
}

proof fn lemma_trim_hash_run(k: nat, rest: Seq<char>)
    requires
        rest.len() == 0 || rest[0] != '#',
    ensures
        trim_start_hash(hash_run(k) + rest) == rest,
    decreases k,
{
    if k == 0 {
        assert(hash_run(0) + rest =~= rest);
    } else {
        assert((hash_run(k) + rest).drop_first() =~= hash_run((k - 1) as nat) + rest);
        lemma_trim_hash_run((k - 1) as nat, rest);
    }
}

proof fn lemma_trim_end_keeps_prefix(a: Seq<char>, b: Seq<char>)
    requires
        a.len() > 0,
        !is_ws(a.last()),
    ensures
        trim_end_spec(a + b).len() >= a.len(),
        trim_end_spec(a + b).subrange(0, a.len() as int) == a,
    decreases b.len(),
{
    if b.len() == 0 {
        assert(a + b =~= a);
    } else if is_ws((a + b).last()) {
        assert((a + b).drop_last() =~= a + b.drop_last());
        lemma_trim_end_keeps_prefix(a, b.drop_last());
    } else {
        assert((a + b).subrange(0, a.len() as int) =~= a);
    }
}

proof fn lemma_word_prefix_whole(v: Seq<char>)
    requires
        forall|i: int| 0 <= i < v.len() ==> !is_ws(#[trigger] v[i]),
    ensures
        word_prefix(v) == v,
    decreases v.len(),
{
    if v.len() > 0 {
        lemma_word_prefix_whole(v.drop_first());
        assert(seq![v[0]] + v.drop_first() =~= v);
    }
}

/// A bracketed heading `## [v] rest` names the version `v` inside the brackets,
/// when `v` is one word (no whitespace, no `]`) that starts, after an optional
/// `v`, with a digit.
pub proof fn lemma_bracketed_heading_version(k: nat, v: Seq<char>, rest: Seq<char>)
    requires
        k > 0,
        v.len() > 0,
        forall|i: int| 0 <= i < v.len() ==> !is_ws(#[trigger] v[i]) && v[i] != ']',
        ('0' <= v[0] <= '9') || (v[0] == 'v' && v.len() > 1 && '0' <= v[1] <= '9'),
    ensures
        heading_version_spec(hash_run(k) + " ["@ + v + "]"@ + rest) == Some(v),
{
    reveal_strlit(" [");
    reveal_strlit("]");
    let after = " ["@ + v + "]"@ + rest;
    let line = hash_run(k) + after;
    assert(hash_run(k) + " ["@ + v + "]"@ + rest =~= line);
    assert(line[0] == '#');
    lemma_trim_hash_run(k, after);
    let a = seq!['['] + v + seq![']'];
    assert(after.drop_first() =~= a + rest);
    assert(trim_start_spec(after) == trim_start_spec(after.drop_first()));
    assert(trim_start_spec(a + rest) == a + rest);
    lemma_trim_end_keeps_prefix(a, rest);
    let trimmed = trim_spec(trim_start_hash(line));
    assert(trimmed == trim_end_spec(a + rest));
    assert(trimmed[0] == '[');
    let s = trimmed.drop_first();
    assert(s[v.len() as int] == ']') by {
        assert(trimmed.subrange(0, a.len() as int)[v.len() as int + 1] == ']');
    }
    assert forall|j: int| 0 <= j < v.len() implies s[j] == v[j] by {
        assert(trimmed.subrange(0, a.len() as int)[j + 1] == v[j]);
    }
    crate::text::lemma_find_spec(s, ']');
    match find_spec(s, ']') {
        Some(i) => {
            if i < v.len() {
                assert(s[i] == v[i]);
            }
            if i > v.len() {
                assert(s.subrange(0, i)[v.len() as int] == ']');
            }
            assert(i == v.len());
            assert(s.subrange(0, i) =~= v);
        },
        None => {
            assert(s.contains(']'));
        },
    }
    lemma_word_prefix_whole(v);
    assert(!is_ws(v[0]));
    assert(first_word(v) == Some(v));
    assert(heading_words_version(line) == Some(v));
}

} // verus!
