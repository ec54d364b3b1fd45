//! Helm Chart.lock maintenance: rewriting one dependency's version and digest.
use vstd::prelude::*;
use sha2::Digest;

use crate::text::chars_of;
use crate::text::ends_with_spec;
use crate::text::extend_chars;
use crate::text::find_sub;
use crate::text::join_chars;
use crate::text::join_spec;
use crate::text::lines_of;
use crate::text::lines_spec;
use crate::text::starts_with;
use crate::text::starts_with_spec;
use crate::text::string_of;
use crate::text::trim_chars;
use crate::text::trim_spec;
use crate::text::trim_start_spec;
use crate::text::trim_start_str;
use crate::text::vecs_view;
use crate::text::opt_view;
use crate::text::push_text;

verus! {

/// A Helm Chart.lock file.
#[derive(Debug, Clone)]
pub struct ChartLock {
    pub dependencies: Vec<ChartLockDependency>,
    pub digest: String,
    pub generated: String,
}

/// One dependency entry of a Chart.lock file.
#[derive(Debug, Clone)]
pub struct ChartLockDependency {
    pub name: String,
    pub repository: String,
    pub version: String,
}

/// A line that ends a list item's block: a new item, or a top-level key
/// (non-empty, not a comment, not indented).
pub open spec fn ends_block(line: Seq<char>) -> bool {
    let t = trim_spec(line);
    starts_with_spec(t, "- "@) || (t.len() > 0 && !starts_with_spec(t, "#"@) && !starts_with_spec(line, " "@)
        && !starts_with_spec(line, "\t"@))
}

/// The end of the block whose continuation lines start at `j`.
pub open spec fn block_end(lines: Seq<Seq<char>>, j: int) -> int
    decreases lines.len() - j,
{
    if j >= lines.len() || j < 0 {
        lines.len() as int
    } else if ends_block(lines[j]) {
        j
    } else {
        block_end(lines, j + 1)
    }
}

/// A line is the name field of the dependency: `name: <dep>` exactly, once
/// trimmed and with any leading `- ` dropped.
pub open spec fn names_dep(line: Seq<char>, dep: Seq<char>) -> bool {
    trim_spec(bare_key(line)) == "name: "@ + dep
}

/// Some line of `lines[a..b]` is the dependency's name field.
pub open spec fn block_is_target(lines: Seq<Seq<char>>, a: int, b: int, dep: Seq<char>) -> bool {
    exists|k: int| a <= k < b && names_dep(#[trigger] lines[k], dep)
}

/// The key text of a block line: leading whitespace, `- ` markers and whitespace dropped.
pub open spec fn bare_key(line: Seq<char>) -> Seq<char> {
    trim_start_spec(trim_start_str(trim_start_spec(line), "- "@))
}

/// A line of the target block with its `version:` or `digest:` value replaced,
/// keeping everything before the key.
pub open spec fn rewrite_lock_line(line: Seq<char>, version: Seq<char>, digest: Seq<char>) -> Seq<char> {
    let bare = bare_key(line);
    if starts_with_spec(bare, "version:"@) {
        match find_sub(line, "version:"@) {
            Some(p) => line.subrange(0, p) + "version: "@ + version,
            None => line,
        }
    } else if starts_with_spec(bare, "digest:"@) {
        match find_sub(line, "digest:"@) {
            Some(p) => line.subrange(0, p) + "digest: "@ + digest,
            None => line,
        }
    } else {
        line
    }
}

/// The output lines for `lines[i..]`.
pub open spec fn lock_rewrite(lines: Seq<Seq<char>>, i: int, dep: Seq<char>, version: Seq<char>, digest: Seq<char>) -> Seq<Seq<char>>
    decreases lines.len() - i, 0int,
{
    if i >= lines.len() || i < 0 {
        seq![]
    } else {
        let line = lines[i];
        let t = trim_spec(line);
        if t == "dependencies:"@ {
            seq![line] + lock_rewrite(lines, i + 1, dep, version, digest)
        } else if starts_with_spec(t, "- "@) {
            let e = block_end(lines, i + 1);
            let block = lines.subrange(i, e);
            let out = if block_is_target(lines, i, e, dep) {
                block.map_values(|l: Seq<char>| rewrite_lock_line(l, version, digest))
            } else {
                block
            };
            proof {
                lemma_block_end_bounds(lines, i + 1);
            }
            out + lock_rewrite(lines, e, dep, version, digest)
        } else {
            seq![line] + lock_rewrite(lines, i + 1, dep, version, digest)
        }
    }
}

/// The updated Chart.lock text: the rewritten lines joined by `\n`, with a final
/// `\n` restored when the original ended with one.
pub open spec fn update_chart_lock_spec(existing: Seq<char>, dep: Seq<char>, version: Seq<char>, digest: Seq<char>) -> Seq<char> {
    let out = join_spec(lock_rewrite(lines_spec(existing), 0, dep, version, digest), "\n"@);
    if ends_with_spec(existing, "\n"@) && !ends_with_spec(out, "\n"@) {
        out.push('\n')
    } else {
        out
    }
}

pub proof fn lemma_block_end_bounds(lines: Seq<Seq<char>>, j: int)
    requires
        0 <= j,
    ensures
        j <= block_end(lines, j) <= lines.len() || (j > lines.len() && block_end(lines, j) == lines.len()),
    decreases lines.len() - j,
{
    if j < lines.len() && !ends_block(lines[j]) {
        lemma_block_end_bounds(lines, j + 1);
    }
}

proof fn lemma_rewrite_untouched(lines: Seq<Seq<char>>, i: int, dep: Seq<char>, version: Seq<char>, digest: Seq<char>)
    requires
        0 <= i <= lines.len(),
        forall|k: int| 0 <= k < lines.len() ==> !names_dep(#[trigger] lines[k], dep),
    ensures
        lock_rewrite(lines, i, dep, version, digest) == lines.subrange(i, lines.len() as int),
    decreases lines.len() - i,
{
    if i < lines.len() {
        let line = lines[i];
        let t = trim_spec(line);
        if t == "dependencies:"@ || !starts_with_spec(t, "- "@) {
            lemma_rewrite_untouched(lines, i + 1, dep, version, digest);
            assert(seq![line] + lines.subrange(i + 1, lines.len() as int) =~= lines.subrange(i, lines.len() as int));
        } else {
            lemma_block_end_bounds(lines, i + 1);
            let e = block_end(lines, i + 1);
            assert(!block_is_target(lines, i, e, dep));
            lemma_rewrite_untouched(lines, e, dep, version, digest);
            assert(lines.subrange(i, e) + lines.subrange(e, lines.len() as int) =~= lines.subrange(i, lines.len() as int));
        }
    } else {
        assert(lines.subrange(i, lines.len() as int) =~= Seq::<Seq<char>>::empty());
    }
}

/// A lock that does not name the dependency keeps every line: when no line is
/// its name field, the rewrite gives the lines back.
pub proof fn lemma_unknown_dependency_keeps_lines(lines: Seq<Seq<char>>, dep: Seq<char>, version: Seq<char>, digest: Seq<char>)
    requires
        forall|k: int| 0 <= k < lines.len() ==> !names_dep(#[trigger] lines[k], dep),
    ensures
        lock_rewrite(lines, 0, dep, version, digest) == lines,
{
    lemma_rewrite_untouched(lines, 0, dep, version, digest);
    assert(lines.subrange(0, lines.len() as int) =~= lines);
}

/// An updated lock ends with a newline when the original did.
pub proof fn lemma_update_keeps_final_newline(existing: Seq<char>, dep: Seq<char>, version: Seq<char>, digest: Seq<char>)
    requires
        ends_with_spec(existing, "\n"@),
    ensures
        ends_with_spec(update_chart_lock_spec(existing, dep, version, digest), "\n"@),
{
    let out = join_spec(lock_rewrite(lines_spec(existing), 0, dep, version, digest), "\n"@);
    if !ends_with_spec(out, "\n"@) {
        reveal_strlit("\n");
        let r = out.push('\n');
        assert(r.subrange(r.len() - 1, r.len() as int) =~= seq!['\n']);
    }
}

fn ends_block_exec(line: &Vec<char>) -> (r: bool)
    ensures
        r == ends_block(line@),
{
    let t = trim_chars(line);
    let dash = chars_of("- ");
    let hash = chars_of("#");
    let space = chars_of(" ");
    let tab = chars_of("\t");
    starts_with(&t, &dash) || (t.len() > 0 && !starts_with(&t, &hash) && !starts_with(line, &space)
        && !starts_with(line, &tab))
}

fn bare_key_of(line: &Vec<char>) -> (r: Vec<char>)
    ensures
        r@ == bare_key(line@),
{
    let a = crate::text::trim_start_len(line);
    let t1 = crate::text::slice_of(line, a, line.len());
    let t2 = crate::text::trim_start_str_in(&t1, &chars_of("- "));
    let b = crate::text::trim_start_len(&t2);
    let bare = crate::text::slice_of(&t2, b, t2.len());
    assert(bare@ == bare_key(line@));
    bare
}

fn rewrite_line(line: &Vec<char>, version: &Vec<char>, digest: &Vec<char>) -> (r: Vec<char>)
    ensures
        r@ == rewrite_lock_line(line@, version@, digest@),
{
    let bare = bare_key_of(line);
    let vkey = chars_of("version:");
    let dkey = chars_of("digest:");
    if starts_with(&bare, &vkey) {
        match crate::text::find_sub_in(line, &vkey, 0) {
            Some(p) => {
                proof {
                    crate::text::lemma_find_sub_bounds(line@, vkey@, 0);
                }
                let mut out = crate::text::slice_of(line, 0, p);
                extend_chars(&mut out, &chars_of("version: "));
                extend_chars(&mut out, version);
                out
            },
            None => crate::text::slice_of(line, 0, line.len()),
        }
    } else if starts_with(&bare, &dkey) {
        match crate::text::find_sub_in(line, &dkey, 0) {
            Some(p) => {
                proof {
                    crate::text::lemma_find_sub_bounds(line@, dkey@, 0);
                }
                let mut out = crate::text::slice_of(line, 0, p);
                extend_chars(&mut out, &chars_of("digest: "));
                extend_chars(&mut out, digest);
                out
            },
            None => crate::text::slice_of(line, 0, line.len()),
        }
    } else {
        crate::text::slice_of(line, 0, line.len())
    }
}

/// Updates one dependency's `version:` and `digest:` in an existing Chart.lock text,
/// preserving all other lines and their formatting.
pub fn update_chart_lock(existing_lock: &str, updated_dep_name: &str, new_version: &str, new_digest: &str) -> (r: String)
    ensures
        r@ == update_chart_lock_spec(existing_lock@, updated_dep_name@, new_version@, new_digest@),
{
    let text = chars_of(existing_lock);
    let lines = lines_of(&text);
    let ghost ls = lines_spec(existing_lock@);
    let dep = chars_of(updated_dep_name);
    let version = chars_of(new_version);
    let digest = chars_of(new_digest);
    let mut name_key = chars_of("name: ");
    extend_chars(&mut name_key, &dep);
    let deps_key = chars_of("dependencies:");
    let dash = chars_of("- ");
    let mut result: Vec<Vec<char>> = Vec::new();
    let mut i: usize = 0;
    while i < lines.len()
        invariant
            i <= lines@.len(),
            vecs_view(lines@) == ls,
            ls.len() == lines@.len(),
            name_key@ == "name: "@ + dep@,
            deps_key@ == "dependencies:"@,
            dash@ == "- "@,
            lock_rewrite(ls, 0, dep@, version@, digest@) == vecs_view(result@) + lock_rewrite(ls, i as int, dep@, version@, digest@),
        decreases lines@.len() - i,
    {
        assert(vecs_view(lines@)[i as int] == lines@[i as int]@);
        let t = trim_chars(&lines[i]);
        if crate::text::chars_eq(&t, &deps_key) {
            let ghost before = vecs_view(result@);
            let copy = crate::text::slice_of(&lines[i], 0, lines[i].len());
            assert(copy@ =~= ls[i as int]);
            result.push(copy);
            assert(vecs_view(result@) =~= before.push(ls[i as int]));
            assert(before.push(ls[i as int]) + lock_rewrite(ls, i + 1, dep@, version@, digest@) =~= before + (seq![ls[i as int]] + lock_rewrite(ls, i + 1, dep@, version@, digest@)));
            i = i + 1;
        } else if starts_with(&t, &dash) {
            let start = i;
            i = i + 1;
            while i < lines.len() && !ends_block_exec(&lines[i])
                invariant
                    start < i <= lines@.len(),
                    vecs_view(lines@) == ls,
                    ls.len() == lines@.len(),
                    block_end(ls, start + 1) == block_end(ls, i as int),
                decreases lines@.len() - i,
            {
                assert(vecs_view(lines@)[i as int] == lines@[i as int]@);
                i = i + 1;
            }
            if i < lines.len() {
                assert(vecs_view(lines@)[i as int] == lines@[i as int]@);
            }
            let end = i;
            assert(block_end(ls, start + 1) == end);
            let mut is_target = false;
            let mut k: usize = start;
            while k < end
                invariant
                    start <= k <= end <= lines@.len(),
                    vecs_view(lines@) == ls,
                    name_key@ == "name: "@ + dep@,
                    is_target == exists|m: int| start <= m < k && names_dep(#[trigger] ls[m], dep@),
                decreases end - k,
            {
                assert(vecs_view(lines@)[k as int] == lines@[k as int]@);
                let tk = trim_chars(&bare_key_of(&lines[k]));
                if crate::text::chars_eq(&tk, &name_key) {
                    is_target = true;
                }
                k = k + 1;
            }
            let ghost block = ls.subrange(start as int, end as int);
            let ghost out = if is_target {
                block.map_values(|l: Seq<char>| rewrite_lock_line(l, version@, digest@))
            } else {
                block
            };
            let ghost before = vecs_view(result@);
            let mut k: usize = start;
            while k < end
                invariant
                    start <= k <= end <= lines@.len(),
                    vecs_view(lines@) == ls,
                    block == ls.subrange(start as int, end as int),
                    out == if is_target {
                        block.map_values(|l: Seq<char>| rewrite_lock_line(l, version@, digest@))
                    } else {
                        block
                    },
                    vecs_view(result@) == before + out.subrange(0, k - start),
                decreases end - k,
            {
                assert(vecs_view(lines@)[k as int] == lines@[k as int]@);
                let line_out = if is_target {
                    rewrite_line(&lines[k], &version, &digest)
                } else {
                    crate::text::slice_of(&lines[k], 0, lines[k].len())
                };
                assert(line_out@ =~= out[k - start]);
                let ghost prev = vecs_view(result@);
                result.push(line_out);
                assert(vecs_view(result@) =~= prev.push(line_out@));
                assert(out.subrange(0, k + 1 - start) =~= out.subrange(0, k - start).push(out[k - start]));
                k = k + 1;
            }
            assert(out.subrange(0, end - start) =~= out);
            assert(block_is_target(ls, start as int, end as int, dep@) == is_target);
            assert(lock_rewrite(ls, start as int, dep@, version@, digest@) == out + lock_rewrite(ls, end as int, dep@, version@, digest@));
            assert(vecs_view(result@) + lock_rewrite(ls, end as int, dep@, version@, digest@) =~= before + (out + lock_rewrite(ls, end as int, dep@, version@, digest@)));
        } else {
            let ghost before = vecs_view(result@);
            let copy = crate::text::slice_of(&lines[i], 0, lines[i].len());
            assert(copy@ =~= ls[i as int]);
            result.push(copy);
            assert(vecs_view(result@) =~= before.push(ls[i as int]));
            assert(before.push(ls[i as int]) + lock_rewrite(ls, i + 1, dep@, version@, digest@) =~= before + (seq![ls[i as int]] + lock_rewrite(ls, i + 1, dep@, version@, digest@)));
            i = i + 1;
        }
    }
    assert(lock_rewrite(ls, i as int, dep@, version@, digest@) =~= Seq::<Seq<char>>::empty());
    assert(vecs_view(result@) + Seq::<Seq<char>>::empty() =~= vecs_view(result@));
    let nl = chars_of("\n");
    let mut out = join_chars(&result, &nl);
    if crate::text::ends_with(&text, &nl) && !crate::text::ends_with(&out, &nl) {
        out.push('\n');
    }
    string_of(&out)
}

/// The lowercase hexadecimal SHA-256 digest of a byte sequence.
pub uninterp spec fn sha256_hex_spec(bytes: Seq<u8>) -> Seq<char>;

/// Hashes bytes with SHA-256.
/// Trusted: calls `sha2::Sha256::digest` (the `Digest` trait) and formats the
/// digest as lowercase hex; the result is named by `sha256_hex_spec`.
#[verifier::external_body]
pub(crate) fn sha256_hex(data: &[u8]) -> (r: String)
    ensures
        r@ == sha256_hex_spec(data@),
{
    format!("{:x}", sha2::Sha256::digest(data))
}

/// The digest recorded for downloaded content (a chart archive or a manifest
/// body): `sha256:` followed by the lowercase hex SHA-256 of the bytes.
pub fn content_digest(data: &[u8]) -> (r: String)
    ensures
        r@ == "sha256:"@ + sha256_hex_spec(data@),
{
    let hex = sha256_hex(data);
    let mut out = chars_of("sha256:");
    push_text(&mut out, hex.as_str());
    string_of(&out)
}

/// The current UTC time as RFC 3339 text with nanoseconds and a `Z` suffix.
/// Trusted: reads the clock through `chrono::Utc::now` and formats it with
/// `to_rfc3339_opts(SecondsFormat::Nanos, true)`; nothing is promised of the text.
#[verifier::external_body]
fn now_rfc3339_nanos() -> String {
    chrono::Utc::now().to_rfc3339_opts(chrono::SecondsFormat::Nanos, true)
}

pub open spec fn lock_deps_view(v: Seq<ChartLockDependency>) -> Seq<(Seq<char>, Seq<char>, Seq<char>)> {
    v.map_values(|d: ChartLockDependency| (d.name@, d.repository@, d.version@))
}

/// The digest recorded for a dependency name (the first entry for it).
pub open spec fn digest_for(digests: Seq<(Seq<char>, Seq<char>)>, name: Seq<char>) -> Option<Seq<char>>
    decreases digests.len(),
{
    if digests.len() == 0 {
        None
    } else if digests[0].0 == name {
        Some(digests[0].1)
    } else {
        digest_for(digests.drop_first(), name)
    }
}

/// `name:digest` for each name, in the given order.
pub open spec fn digest_pairs(names: Seq<Seq<char>>, digests: Seq<(Seq<char>, Seq<char>)>) -> Seq<Seq<char>> {
    names.map_values(|n: Seq<char>| n + ":"@ + digest_for(digests, n)->0)
}

/// The lines for the dependencies: a list item per dependency.
pub open spec fn lock_dep_lines(deps: Seq<(Seq<char>, Seq<char>, Seq<char>)>, digests: Seq<(Seq<char>, Seq<char>)>) -> Seq<Seq<char>>
    decreases deps.len(),
{
    if deps.len() == 0 {
        seq![]
    } else {
        let (name, repo, version) = deps.last();
        let d = match digest_for(digests, name) {
            Some(x) => x,
            None => seq![],
        };
        lock_dep_lines(deps.drop_last(), digests) + seq![
            "- digest: "@ + d,
            "  name: "@ + name,
            "  repository: "@ + repo,
            "  version: "@ + version,
        ]
    }
}

/// A Chart.lock text: the dependency list, the overall digest (SHA-256 of the
/// `name:digest` pairs sorted by name and joined by `,`), the generation time and
/// a final newline.
pub open spec fn chart_lock_text(
    deps: Seq<(Seq<char>, Seq<char>, Seq<char>)>,
    digests: Seq<(Seq<char>, Seq<char>)>,
    generated: Seq<char>,
) -> Seq<char> {
    let names = crate::grouping::sort_texts(digests.map_values(|p: (Seq<char>, Seq<char>)| p.0));
    let combined = join_spec(digest_pairs(names, digests), ","@);
    let overall = sha256_hex_spec(vstd::utf8::encode_utf8(combined));
    join_spec(
        seq!["dependencies:"@] + lock_dep_lines(deps, digests) + seq![
            "digest: sha256:"@ + overall,
            "generated: \""@ + generated + "\""@,
            seq![],
        ],
        "\n"@,
    )
}

pub open spec fn digests_view(v: Seq<(String, String)>) -> Seq<(Seq<char>, Seq<char>)> {
    v.map_values(|p: (String, String)| (p.0@, p.1@))
}

/// The names of a digest list are distinct (as the keys of a map are).
pub open spec fn distinct_names(v: Seq<(Seq<char>, Seq<char>)>) -> bool {
    forall|a: int, b: int| 0 <= a < b < v.len() ==> v[a].0 != v[b].0
}

fn lookup_digest(digests: &Vec<(String, String)>, name: &Vec<char>) -> (r: Option<String>)
    ensures
        opt_view(r) == digest_for(digests_view(digests@), name@),
{
    let ghost dv = digests_view(digests@);
    let mut i: usize = 0;
    assert(dv.subrange(0, dv.len() as int) =~= dv);
    while i < digests.len()
        invariant
            i <= digests@.len(),
            dv == digests_view(digests@),
            digest_for(dv, name@) == digest_for(dv.subrange(i as int, dv.len() as int), name@),
        decreases digests@.len() - i,
    {
        let ghost rest = dv.subrange(i as int, dv.len() as int);
        assert(rest[0] == dv[i as int]);
        assert(rest.drop_first() =~= dv.subrange(i + 1, dv.len() as int));
        if crate::text::chars_eq(&chars_of(digests[i].0.as_str()), name) {
            return Some(crate::text::copy_string(&digests[i].1));
        }
        i = i + 1;
    }
    None
}

proof fn lemma_digest_present(v: Seq<(Seq<char>, Seq<char>)>, k: int)
    requires
        0 <= k < v.len(),
    ensures
        digest_for(v, v[k].0) is Some,
    decreases k,
{
    if v[0].0 != v[k].0 {
        lemma_digest_present(v.drop_first(), k - 1);
    }
}

/// With distinct names, the digest found for a name is the one paired with it.
proof fn lemma_digest_for_pairs(v: Seq<(Seq<char>, Seq<char>)>, n: Seq<char>)
    requires
        distinct_names(v),
    ensures
        match digest_for(v, n) {
            Some(x) => v.contains((n, x)),
            None => forall|k: int| 0 <= k < v.len() ==> (#[trigger] v[k]).0 != n,
        },
        forall|x: Seq<char>| #[trigger] v.contains((n, x)) ==> digest_for(v, n) == Some(x),
    decreases v.len(),
{
    if v.len() > 0 {
        let r = v.drop_first();
        assert(distinct_names(r)) by {
            assert forall|a: int, b: int| 0 <= a < b < r.len() implies r[a].0 != r[b].0 by {
                assert(r[a] == v[a + 1] && r[b] == v[b + 1]);
            }
        }
        lemma_digest_for_pairs(r, n);
        if v[0].0 == n {
            assert(v.contains((n, v[0].1)));
            assert forall|x: Seq<char>| #[trigger] v.contains((n, x)) implies digest_for(v, n) == Some(x) by {
                let k = choose|k: int| 0 <= k < v.len() && v[k] == (n, x);
                if k > 0 {
                    assert(v[0].0 == v[k].0);
                }
            }
        } else {
            match digest_for(v, n) {
                Some(x) => {
                    let k = choose|k: int| 0 <= k < r.len() && r[k] == (n, x);
                    assert(v[k + 1] == (n, x));
                },
                None => {
                    assert forall|k: int| 0 <= k < v.len() implies (#[trigger] v[k]).0 != n by {
                        if k > 0 {
                            assert(v[k] == r[k - 1]);
                        }
                    }
                },
            }
            assert forall|x: Seq<char>| #[trigger] v.contains((n, x)) implies digest_for(v, n) == Some(x) by {
                let k = choose|k: int| 0 <= k < v.len() && v[k] == (n, x);
                assert(k > 0);
                assert(r[k - 1] == (n, x));
                assert(r.contains((n, x)));
            }
        }
    }
}

/// Two digest lists with the same entries and distinct names give every name the same digest.
proof fn lemma_same_digest_for(d1: Seq<(Seq<char>, Seq<char>)>, d2: Seq<(Seq<char>, Seq<char>)>, n: Seq<char>)
    requires
        distinct_names(d1),
        distinct_names(d2),
        d1.to_multiset() == d2.to_multiset(),
    ensures
        digest_for(d1, n) == digest_for(d2, n),
{
    broadcast use vstd::seq_lib::group_to_multiset_ensures;
    lemma_digest_for_pairs(d1, n);
    lemma_digest_for_pairs(d2, n);
    match digest_for(d1, n) {
        Some(x) => {
            assert(d1.to_multiset().count((n, x)) > 0);
            assert(d2.contains((n, x)));
        },
        None => {
            match digest_for(d2, n) {
                Some(y) => {
                    assert(d2.to_multiset().count((n, y)) > 0);
                    assert(d1.contains((n, y)));
                    let k = choose|k: int| 0 <= k < d1.len() && d1[k] == (n, y);
                    assert(d1[k].0 == n);
                },
                None => {},
            }
        },
    }
}

proof fn lemma_dep_lines_same_digests(
    deps: Seq<(Seq<char>, Seq<char>, Seq<char>)>,
    d1: Seq<(Seq<char>, Seq<char>)>,
    d2: Seq<(Seq<char>, Seq<char>)>,
)
    requires
        forall|n: Seq<char>| #[trigger] digest_for(d1, n) == digest_for(d2, n),
    ensures
        lock_dep_lines(deps, d1) == lock_dep_lines(deps, d2),
    decreases deps.len(),
{
    if deps.len() > 0 {
        lemma_dep_lines_same_digests(deps.drop_last(), d1, d2);
        assert(digest_for(d1, deps.last().0) == digest_for(d2, deps.last().0));
    }
}

/// A Chart.lock does not depend on the order in which the digests come (they
/// form a map from names): two digest lists with the same entries give the same
/// text, the overall digest being computed from the names in sorted order.
pub proof fn lemma_lock_text_ignores_digest_order(
    deps: Seq<(Seq<char>, Seq<char>, Seq<char>)>,
    d1: Seq<(Seq<char>, Seq<char>)>,
    d2: Seq<(Seq<char>, Seq<char>)>,
    generated: Seq<char>,
)
    requires
        distinct_names(d1),
        distinct_names(d2),
        d1.to_multiset() == d2.to_multiset(),
    ensures
        chart_lock_text(deps, d1, generated) == chart_lock_text(deps, d2, generated),
{
    assert forall|n: Seq<char>| #[trigger] digest_for(d1, n) == digest_for(d2, n) by {
        lemma_same_digest_for(d1, d2, n);
    }
    let f = |p: (Seq<char>, Seq<char>)| p.0;
    crate::grouping::lemma_map_values_multiset(d1, d2, f);
    crate::grouping::lemma_sort_texts_unique(d1.map_values(f), d2.map_values(f));
    assert(d1.map_values(f) =~= d1.map_values(|p: (Seq<char>, Seq<char>)| p.0));
    assert(d2.map_values(f) =~= d2.map_values(|p: (Seq<char>, Seq<char>)| p.0));
    let names = crate::grouping::sort_texts(d1.map_values(f));
    assert(digest_pairs(names, d1) =~= digest_pairs(names, d2));
    lemma_dep_lines_same_digests(deps, d1, d2);
}

/// Renders a Chart.lock for dependencies with their digests and a generation time.
pub fn render_chart_lock(deps: &[ChartLockDependency], digests: &Vec<(String, String)>, generated: &str) -> (r: String)
    ensures
        r@ == chart_lock_text(lock_deps_view(deps@), digests_view(digests@), generated@),
{
    let ghost dv = digests_view(digests@);
    let mut names: Vec<Vec<char>> = Vec::new();
    let mut i: usize = 0;
    while i < digests.len()
        invariant
            i <= digests@.len(),
            dv == digests_view(digests@),
            vecs_view(names@) == dv.map_values(|p: (Seq<char>, Seq<char>)| p.0).take(i as int),
        decreases digests@.len() - i,
    {
        let ghost before = vecs_view(names@);
        names.push(chars_of(digests[i].0.as_str()));
        assert(vecs_view(names@) =~= before.push(digests@[i as int].0@));
        assert(dv.map_values(|p: (Seq<char>, Seq<char>)| p.0).take(i + 1) =~= dv.map_values(|p: (Seq<char>, Seq<char>)| p.0).take(i as int).push(digests@[i as int].0@));
        i = i + 1;
    }
    assert(dv.map_values(|p: (Seq<char>, Seq<char>)| p.0).take(digests@.len() as int) =~= dv.map_values(|p: (Seq<char>, Seq<char>)| p.0));
    let sorted = crate::grouping::sort_text_vec(&names);
    let ghost sv = vecs_view(sorted@);
    proof {
        let nv = dv.map_values(|p: (Seq<char>, Seq<char>)| p.0);
        crate::grouping::lemma_sort_texts_members(nv);
        assert forall|j: int| 0 <= j < sv.len() implies digest_for(dv, #[trigger] sv[j]) is Some by {
            assert(nv.contains(sv[j]));
            let k = choose|k: int| 0 <= k < nv.len() && nv[k] == sv[j];
            lemma_digest_present(dv, k);
        }
    }
    let mut pairs: Vec<Vec<char>> = Vec::new();
    let mut k: usize = 0;
    while k < sorted.len()
        invariant
            k <= sorted@.len(),
            sv == vecs_view(sorted@),
            dv == digests_view(digests@),
            vecs_view(pairs@) == digest_pairs(sv.take(k as int), dv),
            forall|j: int| 0 <= j < sv.len() ==> digest_for(dv, #[trigger] sv[j]) is Some,
        decreases sorted@.len() - k,
    {
        assert(sv[k as int] == sorted@[k as int]@);
        let mut p = crate::text::slice_of(&sorted[k], 0, sorted[k].len());
        assert(p@ =~= sv[k as int]);
        push_text(&mut p, ":");
        let d = lookup_digest(digests, &sorted[k]);
        match d {
            Some(x) => {
                push_text(&mut p, x.as_str());
            },
            None => {},
        }
        let ghost before = vecs_view(pairs@);
        pairs.push(p);
        assert(vecs_view(pairs@) =~= before.push(sv[k as int] + ":"@ + digest_for(dv, sv[k as int])->0));
        assert(digest_pairs(sv.take(k + 1), dv) =~= digest_pairs(sv.take(k as int), dv).push(sv[k as int] + ":"@ + digest_for(dv, sv[k as int])->0));
        k = k + 1;
    }
    assert(sv.take(sorted@.len() as int) =~= sv);
    let combined = string_of(&join_chars(&pairs, &chars_of(",")));
    let overall = sha256_hex(combined.as_str().as_bytes());
    let mut lines: Vec<Vec<char>> = Vec::new();
    lines.push(chars_of("dependencies:"));
    let ghost ddv = lock_deps_view(deps@);
    let mut j: usize = 0;
    while j < deps.len()
        invariant
            j <= deps@.len(),
            ddv == lock_deps_view(deps@),
            dv == digests_view(digests@),
            vecs_view(lines@) == seq!["dependencies:"@] + lock_dep_lines(ddv.take(j as int), dv),
        decreases deps@.len() - j,
    {
        let dep = &deps[j];
        assert(ddv.take(j + 1).drop_last() =~= ddv.take(j as int));
        assert(ddv.take(j + 1).last() == (dep.name@, dep.repository@, dep.version@));
        let d = lookup_digest(digests, &chars_of(dep.name.as_str()));
        let mut l1 = chars_of("- digest: ");
        match d {
            Some(x) => {
                push_text(&mut l1, x.as_str());
            },
            None => {},
        }
        let mut l2 = chars_of("  name: ");
        push_text(&mut l2, dep.name.as_str());
        let mut l3 = chars_of("  repository: ");
        push_text(&mut l3, dep.repository.as_str());
        let mut l4 = chars_of("  version: ");
        push_text(&mut l4, dep.version.as_str());
        let ghost before = vecs_view(lines@);
        let ghost added = seq![l1@, l2@, l3@, l4@];
        lines.push(l1);
        lines.push(l2);
        lines.push(l3);
        lines.push(l4);
        assert(vecs_view(lines@) =~= before + added);
        j = j + 1;
    }
    assert(ddv.take(deps@.len() as int) =~= ddv);
    let mut dl = chars_of("digest: sha256:");
    push_text(&mut dl, overall.as_str());
    let mut gl = chars_of("generated: \"");
    push_text(&mut gl, generated);
    push_text(&mut gl, "\"");
    let ghost before = vecs_view(lines@);
    let ghost added = seq![dl@, gl@, Seq::<char>::empty()];
    lines.push(dl);
    lines.push(gl);
    lines.push(Vec::new());
    assert(vecs_view(lines@) =~= before + added);
    string_of(&join_chars(&lines, &chars_of("\n")))
}

/// Generates a Chart.lock for dependencies with their digests, stamped with the current time.
pub fn generate_chart_lock(deps: &[ChartLockDependency], digests: &Vec<(String, String)>) -> (r: String)
    ensures
        exists|generated: Seq<char>| r@ == chart_lock_text(lock_deps_view(deps@), digests_view(digests@), generated),
{
    let generated = now_rfc3339_nanos();
    render_chart_lock(deps, digests, generated.as_str())
}

/// The sequence under a value (under any tags), if it is one.
pub open spec fn as_sequence_spec(v: Option<crate::manager::yaml::YamlView>) -> Option<Seq<crate::manager::yaml::YamlView>> {
    match v {
        Some(x) => match crate::manager::yaml::untag(x) {
            crate::manager::yaml::YamlView::Sequence(items) => Some(items),
            _ => None,
        },
        None => None,
    }
}

/// The download URL an index entry gives for a version: its first `urls` item,
/// made absolute against the repository when relative.
pub open spec fn entry_url(entry: crate::manager::yaml::YamlView, version: Seq<char>, repo_url: Seq<char>) -> Option<Seq<char>> {
    let ev = match crate::manager::yaml::value_get(entry, "version"@) {
        Some(v) => match crate::manager::yaml::yaml_as_str(v) {
            Some(t) => t,
            None => seq![],
        },
        None => seq![],
    };
    if ev == version {
        match as_sequence_spec(crate::manager::yaml::value_get(entry, "urls"@)) {
            Some(urls) => if urls.len() > 0 {
                match crate::manager::yaml::yaml_as_str(urls[0]) {
                    Some(u) => if starts_with_spec(u, "http://"@) || starts_with_spec(u, "https://"@) {
                        Some(u)
                    } else {
                        Some(crate::text::trim_end_char(repo_url, '/') + "/"@ + u)
                    },
                    None => None,
                }
            } else {
                None
            },
            None => None,
        }
    } else {
        None
    }
}

/// The URL of the first entry that gives one.
pub open spec fn first_entry_url(entries: Seq<crate::manager::yaml::YamlView>, version: Seq<char>, repo_url: Seq<char>) -> Option<Seq<char>>
    decreases entries.len(),
{
    if entries.len() == 0 {
        None
    } else {
        match entry_url(entries[0], version, repo_url) {
            Some(u) => Some(u),
            None => first_entry_url(entries.drop_first(), version, repo_url),
        }
    }
}

/// Where a chart version is downloaded from, per the repository index.
pub open spec fn chart_url_spec(index_yaml: Seq<char>, chart_name: Seq<char>, version: Seq<char>, repo_url: Seq<char>) -> Result<Seq<char>, crate::error::ReforgeErrorView> {
    match crate::manager::yaml::yaml_parse(index_yaml) {
        Err(e) => Err(crate::error::ReforgeErrorView::Parse { file: "index.yaml"@, reason: "Failed to parse index.yaml: "@ + e }),
        Ok(root) => chart_url_in_root(root, chart_name, version, repo_url),
    }
}

/// The download URL of a chart version in a parsed index, or the error for a
/// missing chart or version.
pub open spec fn chart_url_in_root(root: crate::manager::yaml::YamlView, chart_name: Seq<char>, version: Seq<char>, repo_url: Seq<char>) -> Result<Seq<char>, crate::error::ReforgeErrorView> {
    let entries = match crate::manager::yaml::value_get(root, "entries"@) {
        Some(e) => crate::manager::yaml::value_get(e, chart_name),
        None => None,
    };
    match as_sequence_spec(entries) {
        None => Err(
            crate::error::ReforgeErrorView::Registry {
                registry: repo_url,
                message: "Chart '"@ + chart_name + "' not found in index"@,
            },
        ),
        Some(items) => match first_entry_url(items, version, repo_url) {
            Some(u) => Ok(u),
            None => Err(
                crate::error::ReforgeErrorView::Registry {
                    registry: repo_url,
                    message: "Version '"@ + version + "' of chart '"@ + chart_name + "' not found in index"@,
                },
            ),
        },
    }
}

/// Finds where a chart version is downloaded from in a repository index.
pub fn extract_chart_url_from_index(index_yaml: &str, chart_name: &str, version: &str, repo_url: &str) -> (r: Result<String, crate::error::ReforgeError>)
    ensures
        string_result_view(r) == chart_url_spec(index_yaml@, chart_name@, version@, repo_url@),
{
    let root = match crate::manager::yaml::parse_yaml(index_yaml) {
        Ok(v) => v,
        Err(e) => {
            let mut m = chars_of("Failed to parse index.yaml: ");
            push_text(&mut m, e.as_str());
            return Err(crate::error::ReforgeError::Parse { file: "index.yaml".to_string(), reason: string_of(&m) });
        },
    };
    chart_url_in_index(&root, chart_name, version, repo_url)
}

pub open spec fn string_result_view(r: Result<String, crate::error::ReforgeError>) -> Result<Seq<char>, crate::error::ReforgeErrorView> {
    match r {
        Ok(s) => Ok(s@),
        Err(e) => Err(e@),
    }
}

/// Reads the download URL an index entry gives for a version.
fn entry_url_of(entry: &crate::manager::yaml::YamlValue, version: &Vec<char>, repo_url: &str) -> (r: Option<String>)
    ensures
        opt_view(r) == entry_url(crate::manager::yaml::yaml_view(*entry), version@, repo_url@),
{
    let ev: Vec<char> = match crate::manager::yaml::value_get_ref(entry, "version") {
        Some(v) => match crate::manager::yaml::as_str(v) {
            Some(t) => chars_of(t.as_str()),
            None => Vec::new(),
        },
        None => Vec::new(),
    };
    if !crate::text::chars_eq(&ev, version) {
        return None;
    }
    let urls = match crate::manager::yaml::value_get_ref(entry, "urls") {
        Some(x) => {
            let xu = crate::manager::yaml::untag_ref(x);
            proof {
                crate::manager::yaml::lemma_view_parts(xu);
            }
            match xu {
                crate::manager::yaml::YamlValue::Sequence(items) => items,
                _ => {
                    return None;
                },
            }
        },
        None => {
            return None;
        },
    };
    if urls.len() == 0 {
        return None;
    }
    assert(crate::manager::yaml::items_view(urls@)[0] == crate::manager::yaml::yaml_view(urls@[0]));
    match crate::manager::yaml::as_str(&urls[0]) {
        Some(u) => {
            let uv = chars_of(u.as_str());
            if crate::text::starts_with(&uv, &chars_of("http://")) || crate::text::starts_with(&uv, &chars_of("https://")) {
                Some(crate::text::copy_string(u))
            } else {
                let mut out = crate::text::trim_end_char_in(&chars_of(repo_url), '/');
                push_text(&mut out, "/");
                push_text(&mut out, u.as_str());
                Some(string_of(&out))
            }
        },
        None => None,
    }
}

/// Finds the download URL of a chart version in a parsed index.
pub fn chart_url_in_index(root: &crate::manager::yaml::YamlValue, chart_name: &str, version: &str, repo_url: &str) -> (r: Result<String, crate::error::ReforgeError>)
    ensures
        string_result_view(r) == chart_url_in_root(crate::manager::yaml::yaml_view(*root), chart_name@, version@, repo_url@),
{
    let mut nf = chars_of("Chart '");
    push_text(&mut nf, chart_name);
    push_text(&mut nf, "' not found in index");
    let not_found = crate::error::ReforgeError::Registry { registry: repo_url.to_string(), message: string_of(&nf) };
    let entries = match crate::manager::yaml::value_get_ref(root, "entries") {
        Some(e) => crate::manager::yaml::value_get_ref(e, chart_name),
        None => None,
    };
    let items = match entries {
        Some(x) => {
            let xu = crate::manager::yaml::untag_ref(x);
            proof {
                crate::manager::yaml::lemma_view_parts(xu);
            }
            match xu {
                crate::manager::yaml::YamlValue::Sequence(items) => items,
                _ => {
                    return Err(not_found);
                },
            }
        },
        None => {
            return Err(not_found);
        },
    };
    let ghost iv = crate::manager::yaml::items_view(items@);
    let ver = chars_of(version);
    let mut i: usize = 0;
    assert(iv.subrange(0, iv.len() as int) =~= iv);
    while i < items.len()
        invariant
            i <= items@.len(),
            iv == crate::manager::yaml::items_view(items@),
            ver@ == version@,
            as_sequence_spec(match crate::manager::yaml::value_get(crate::manager::yaml::yaml_view(*root), "entries"@) {
                Some(e) => crate::manager::yaml::value_get(e, chart_name@),
                None => None,
            }) == Some(iv),
            first_entry_url(iv, version@, repo_url@) == first_entry_url(iv.subrange(i as int, iv.len() as int), version@, repo_url@),
        decreases items@.len() - i,
    {
        let ghost rest = iv.subrange(i as int, iv.len() as int);
        assert(rest[0] == crate::manager::yaml::yaml_view(items@[i as int]));
        assert(rest.drop_first() =~= iv.subrange(i + 1, iv.len() as int));
        match entry_url_of(&items[i], &ver, repo_url) {
            Some(u) => {
                return Ok(u);
            },
            None => {},
        }
        i = i + 1;
    }
    let mut m = chars_of("Version '");
    push_text(&mut m, version);
    push_text(&mut m, "' of chart '");
    push_text(&mut m, chart_name);
    push_text(&mut m, "' not found in index");
    Err(crate::error::ReforgeError::Registry { registry: repo_url.to_string(), message: string_of(&m) })
}

/// The registry host and manifest URL of an OCI chart version: the given registry
/// (or the image's first segment), the image path without that host, and the tag.
pub open spec fn oci_manifest_spec(image: Seq<char>, registry: Option<Seq<char>>, version: Seq<char>) -> (Seq<char>, Seq<char>) {
    let host = match registry {
        Some(r) => r,
        None => crate::registry::docker::registry_host(image),
    };
    let repo_path = if starts_with_spec(image, host) {
        crate::text::trim_start_char_spec(image.subrange(host.len() as int, image.len() as int), '/')
    } else {
        image
    };
    (host, "https://"@ + host + "/v2/"@ + repo_path + "/manifests/"@ + version)
}

/// Forms the registry host and manifest URL for an OCI chart version.
pub fn oci_manifest_url(image: &str, registry: Option<&str>, version: &str) -> (r: (String, String))
    ensures
        (r.0@, r.1@) == oci_manifest_spec(image@, match registry {
            Some(x) => Some(x@),
            None => None,
        }, version@),
{
    let img = chars_of(image);
    let host: Vec<char> = match registry {
        Some(r) => chars_of(r),
        None => {
            proof {
                crate::text::lemma_find_spec(img@, '/');
            }
            match crate::text::find_char(&img, '/') {
                Some(i) => crate::text::slice_of(&img, 0, i),
                None => crate::text::slice_of(&img, 0, img.len()),
            }
        },
    };
    assert(img@.subrange(0, img@.len() as int) =~= img@);
    let repo_path = if starts_with(&img, &host) {
        crate::text::trim_start_char_in(&crate::text::slice_of(&img, host.len(), img.len()), '/')
    } else {
        crate::text::slice_of(&img, 0, img.len())
    };
    let mut url = chars_of("https://");
    extend_chars(&mut url, &host);
    push_text(&mut url, "/v2/");
    extend_chars(&mut url, &repo_path);
    push_text(&mut url, "/manifests/");
    push_text(&mut url, version);
    (string_of(&host), string_of(&url))
}

/// The view of a parsed Chart.lock: its dependencies, digest and generation time.
pub struct ChartLockView {
    pub dependencies: Seq<(Seq<char>, Seq<char>, Seq<char>)>,
    pub digest: Seq<char>,
    pub generated: Seq<char>,
}

/// What a Chart.lock document holds: a mapping with a `dependencies` list of
/// complete entries (name, version, repository) and text `digest` and `generated`.
pub open spec fn chart_lock_structure(root: crate::manager::yaml::YamlView) -> Option<ChartLockView> {
    match crate::manager::yaml::untag(root) {
        crate::manager::yaml::YamlView::Mapping(es) => {
            let deps = match crate::manager::yaml::map_get(es, "dependencies"@) {
                Some(d) => match crate::manager::yaml::untag(d) {
                    crate::manager::yaml::YamlView::Sequence(items) => crate::manager::helm::chart_entry_list(items),
                    _ => None,
                },
                None => None,
            };
            let digest = match crate::manager::yaml::map_get(es, "digest"@) {
                Some(d) => crate::manager::yaml::yaml_as_str(d),
                None => None,
            };
            let generated = match crate::manager::yaml::map_get(es, "generated"@) {
                Some(g) => crate::manager::yaml::yaml_as_str(g),
                None => None,
            };
            match (deps, digest, generated) {
                (Some(ds), Some(d), Some(g)) => Some(
                    ChartLockView {
                        dependencies: ds.map_values(|e: (Seq<char>, Seq<char>, Seq<char>)| (e.0, e.2, e.1)),
                        digest: d,
                        generated: g,
                    },
                ),
                _ => None,
            }
        },
        _ => None,
    }
}

/// A parsed Chart.lock, or the parse error.
pub open spec fn parse_chart_lock_spec(contents: Seq<char>) -> Result<ChartLockView, crate::error::ReforgeErrorView> {
    match crate::manager::yaml::yaml_parse(contents) {
        Err(e) => Err(crate::error::ReforgeErrorView::Parse { file: "Chart.lock"@, reason: "Failed to parse Chart.lock: "@ + e }),
        Ok(root) => chart_lock_in_root(root),
    }
}

/// A parsed Chart.lock document's contents, or the error for a document of the
/// wrong shape.
pub open spec fn chart_lock_in_root(root: crate::manager::yaml::YamlView) -> Result<ChartLockView, crate::error::ReforgeErrorView> {
    match chart_lock_structure(root) {
        Some(l) => Ok(l),
        None => Err(
            crate::error::ReforgeErrorView::Parse {
                file: "Chart.lock"@,
                reason: "Failed to parse Chart.lock: unexpected document structure"@,
            },
        ),
    }
}

pub open spec fn chart_lock_view(l: ChartLock) -> ChartLockView {
    ChartLockView { dependencies: lock_deps_view(l.dependencies@), digest: l.digest@, generated: l.generated@ }
}

fn text_of(es: &Vec<(crate::manager::yaml::YamlValue, crate::manager::yaml::YamlValue)>, key: &str) -> (r: Option<String>)
    ensures
        opt_view(r) == match crate::manager::yaml::map_get(crate::manager::yaml::entries_view(es@), key@) {
            Some(x) => crate::manager::yaml::yaml_as_str(x),
            None => None,
        },
{
    match crate::manager::helm::text_field(es, key) {
        Some(t) => Some(string_of(&t)),
        None => None,
    }
}

/// Parses a Chart.lock file.
pub fn parse_chart_lock(contents: &str) -> (r: Result<ChartLock, crate::error::ReforgeError>)
    ensures
        match r {
            Ok(l) => parse_chart_lock_spec(contents@) == Ok::<ChartLockView, crate::error::ReforgeErrorView>(chart_lock_view(l)),
            Err(e) => parse_chart_lock_spec(contents@) == Err::<ChartLockView, crate::error::ReforgeErrorView>(e@),
        },
{
    let root = match crate::manager::yaml::parse_yaml(contents) {
        Ok(v) => v,
        Err(e) => {
            let mut m = chars_of("Failed to parse Chart.lock: ");
            push_text(&mut m, e.as_str());
            return Err(crate::error::ReforgeError::Parse { file: "Chart.lock".to_string(), reason: string_of(&m) });
        },
    };
    chart_lock_of(&root)
}

/// Reads the contents of a parsed Chart.lock document.
pub fn chart_lock_of(root: &crate::manager::yaml::YamlValue) -> (r: Result<ChartLock, crate::error::ReforgeError>)
    ensures
        match r {
            Ok(l) => chart_lock_in_root(crate::manager::yaml::yaml_view(*root)) == Ok::<ChartLockView, crate::error::ReforgeErrorView>(chart_lock_view(l)),
            Err(e) => chart_lock_in_root(crate::manager::yaml::yaml_view(*root)) == Err::<ChartLockView, crate::error::ReforgeErrorView>(e@),
        },
{
    let structure_error = crate::error::ReforgeError::Parse {
        file: "Chart.lock".to_string(),
        reason: "Failed to parse Chart.lock: unexpected document structure".to_string(),
    };
    let u = crate::manager::yaml::untag_ref(root);
    proof {
        crate::manager::yaml::lemma_view_parts(u);
    }
    let es = match u {
        crate::manager::yaml::YamlValue::Mapping(es) => es,
        _ => {
            return Err(structure_error);
        },
    };
    let ghost ev = crate::manager::yaml::entries_view(es@);
    let items = match crate::manager::yaml::mapping_get(es, "dependencies") {
        Some(d) => {
            let du = crate::manager::yaml::untag_ref(d);
            proof {
                crate::manager::yaml::lemma_view_parts(du);
            }
            match du {
                crate::manager::yaml::YamlValue::Sequence(items) => items,
                _ => {
                    return Err(structure_error);
                },
            }
        },
        None => {
            return Err(structure_error);
        },
    };
    let ghost iv = crate::manager::yaml::items_view(items@);
    let mut deps: Vec<ChartLockDependency> = Vec::new();
    let mut i: usize = 0;
    while i < items.len()
        invariant
            i <= items@.len(),
            iv == crate::manager::yaml::items_view(items@),
            crate::manager::yaml::untag(crate::manager::yaml::yaml_view(*root)) == crate::manager::yaml::YamlView::Mapping(crate::manager::yaml::entries_view(es@)),
            crate::manager::yaml::map_get(crate::manager::yaml::entries_view(es@), "dependencies"@) matches Some(d) && crate::manager::yaml::untag(d) == crate::manager::yaml::YamlView::Sequence(iv),
            structure_error@ == (crate::error::ReforgeErrorView::Parse {
                file: "Chart.lock"@,
                reason: "Failed to parse Chart.lock: unexpected document structure"@,
            }),
            crate::manager::helm::chart_entry_list(iv.take(i as int)) == Some(
                lock_deps_view(deps@).map_values(|e: (Seq<char>, Seq<char>, Seq<char>)| (e.0, e.2, e.1)),
            ),
        decreases items@.len() - i,
    {
        assert(iv.take(i + 1).drop_last() =~= iv.take(i as int));
        assert(iv.take(i + 1).last() == crate::manager::yaml::yaml_view(items@[i as int]));
        match crate::manager::helm::entry_of(&items[i]) {
            Some(e) => {
                let ghost before = lock_deps_view(deps@);
                let d = ChartLockDependency { name: string_of(&e.0), repository: string_of(&e.2), version: string_of(&e.1) };
                deps.push(d);
                assert(lock_deps_view(deps@) =~= before.push((e.0@, e.2@, e.1@)));
                assert(lock_deps_view(deps@).map_values(|e: (Seq<char>, Seq<char>, Seq<char>)| (e.0, e.2, e.1)) =~= before.map_values(
                    |e: (Seq<char>, Seq<char>, Seq<char>)| (e.0, e.2, e.1),
                ).push((e.0@, e.1@, e.2@)));
            },
            None => {
                proof {
                    crate::manager::helm::lemma_entry_list_none(iv, i as int + 1);
                }
                return Err(structure_error);
            },
        }
        i = i + 1;
    }
    assert(iv.take(items@.len() as int) =~= iv);
    let ghost dl = crate::manager::helm::chart_entry_list(iv)->0;
    assert(dl.map_values(|e: (Seq<char>, Seq<char>, Seq<char>)| (e.0, e.2, e.1)) =~= lock_deps_view(deps@));
    let digest = match text_of(es, "digest") {
        Some(d) => d,
        None => {
            return Err(structure_error);
        },
    };
    let generated = match text_of(es, "generated") {
        Some(g) => g,
        None => {
            return Err(structure_error);
        },
    };
    Ok(ChartLock { dependencies: deps, digest, generated })
}

} // verus!
