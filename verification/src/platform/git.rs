//! The local `git` model: what the library reads from git's output and how it
//! turns a failed git command into an error.
use vstd::prelude::*;

use crate::error::ReforgeError;
use crate::text::chars_of;
use crate::text::contains_sub;
use crate::text::contains_sub_in;
use crate::text::find_char;
use crate::text::find_spec;
use crate::text::lines_of;
use crate::text::lines_spec;
use crate::text::slice_of;
use crate::text::string_of;
use crate::text::trim_chars;
use crate::text::trim_spec;
use crate::text::trim_start_str;
use crate::text::trim_start_str_in;
use crate::text::vecs_view;

verus! {

/// A local git checkout, named by its directory.
pub struct GitRepo {
    pub path: String,
}

impl GitRepo {
    /// A repository handle for the directory `path`.
    pub fn new(path: String) -> (r: Self)
        ensures
            r.path@ == path@,
    {
        GitRepo { path }
    }
}

/// One commit of `git log`: its hash and subject line.
#[derive(Debug, Clone)]
pub struct LogEntry {
    pub hash: String,
    pub subject: String,
}

/// The lines of `ls` that are not empty, in order.
pub open spec fn nonempty_lines(ls: Seq<Seq<char>>) -> Seq<Seq<char>>
    decreases ls.len(),
{
    if ls.len() == 0 {
        seq![]
    } else if ls.last().len() == 0 {
        nonempty_lines(ls.drop_last())
    } else {
        nonempty_lines(ls.drop_last()).push(ls.last())
    }
}

/// The non-empty lines of a command's output (`git ls-files` prints one path per line).
pub open spec fn listed_paths_spec(out: Seq<char>) -> Seq<Seq<char>> {
    nonempty_lines(lines_spec(out))
}

fn nonempty_lines_of(text: &Vec<char>) -> (r: Vec<Vec<char>>)
    ensures
        vecs_view(r@) == nonempty_lines(lines_spec(text@)),
{
    let lines = lines_of(text);
    let ghost ls = lines_spec(text@);
    let mut r: Vec<Vec<char>> = Vec::new();
    let mut i: usize = 0;
    while i < lines.len()
        invariant
            i <= lines@.len(),
            vecs_view(lines@) == ls,
            vecs_view(r@) == nonempty_lines(ls.take(i as int)),
        decreases lines@.len() - i,
    {
        assert(ls.take(i + 1).drop_last() =~= ls.take(i as int));
        assert(ls[i as int] == lines@[i as int]@);
        if lines[i].len() > 0 {
            let ghost before = vecs_view(r@);
            let copy = slice_of(&lines[i], 0, lines[i].len());
            assert(copy@ =~= lines@[i as int]@);
            r.push(copy);
            assert(vecs_view(r@) =~= before.push(ls[i as int]));
        }
        i = i + 1;
    }
    assert(ls.take(lines@.len() as int) =~= ls);
    r
}

pub open spec fn strings_of(v: Seq<String>) -> Seq<Seq<char>> {
    v.map_values(|s: String| s@)
}

fn strings_from(v: &Vec<Vec<char>>) -> (r: Vec<String>)
    ensures
        strings_of(r@) == vecs_view(v@),
{
    let mut r: Vec<String> = Vec::new();
    let mut i: usize = 0;
    while i < v.len()
        invariant
            i <= v@.len(),
            strings_of(r@) == vecs_view(v@).take(i as int),
        decreases v@.len() - i,
    {
        let ghost before = strings_of(r@);
        r.push(string_of(&v[i]));
        assert(strings_of(r@) =~= before.push(v@[i as int]@));
        assert(vecs_view(v@).take(i + 1) =~= vecs_view(v@).take(i as int).push(v@[i as int]@));
        i = i + 1;
    }
    assert(vecs_view(v@).take(v@.len() as int) =~= vecs_view(v@));
    r
}

/// Reads the paths that `git ls-files` printed.
pub fn parse_listed_paths(out: &str) -> (r: Vec<String>)
    ensures
        strings_of(r@) == listed_paths_spec(out@),
{
    let text = chars_of(out);
    let lines = nonempty_lines_of(&text);
    strings_from(&lines)
}

/// A `git log --pretty=format:%H\t%s` line: the hash before the first tab and the
/// subject after it (empty when there is no tab).
pub open spec fn log_entry_spec(line: Seq<char>) -> (Seq<char>, Seq<char>) {
    match find_spec(line, '\t') {
        Some(i) => (line.subrange(0, i), line.subrange(i + 1, line.len() as int)),
        None => (line, seq![]),
    }
}

pub open spec fn log_view(v: Seq<LogEntry>) -> Seq<(Seq<char>, Seq<char>)> {
    v.map_values(|e: LogEntry| (e.hash@, e.subject@))
}

/// Reads the entries of `git log --pretty=format:%H\t%s` output, skipping empty lines.
pub fn parse_log(out: &str) -> (r: Vec<LogEntry>)
    ensures
        log_view(r@) == listed_paths_spec(out@).map_values(|l: Seq<char>| log_entry_spec(l)),
{
    let text = chars_of(out);
    let lines = nonempty_lines_of(&text);
    let ghost ls = vecs_view(lines@);
    let mut r: Vec<LogEntry> = Vec::new();
    let mut i: usize = 0;
    while i < lines.len()
        invariant
            i <= lines@.len(),
            ls == vecs_view(lines@),
            log_view(r@) == ls.take(i as int).map_values(|l: Seq<char>| log_entry_spec(l)),
        decreases lines@.len() - i,
    {
        let line = &lines[i];
        assert(ls[i as int] == line@);
        proof {
            crate::text::lemma_find_spec(line@, '\t');
        }
        let entry = match find_char(line, '\t') {
            Some(p) => {
                LogEntry { hash: string_of(&slice_of(line, 0, p)), subject: string_of(&slice_of(line, p + 1, line.len())) }
            },
            None => LogEntry { hash: string_of(line), subject: String::new() },
        };
        let ghost before = log_view(r@);
        r.push(entry);
        assert(log_view(r@) =~= before.push(log_entry_spec(ls[i as int])));
        assert(ls.take(i + 1).map_values(|l: Seq<char>| log_entry_spec(l)) =~= ls.take(i as int).map_values(
            |l: Seq<char>| log_entry_spec(l),
        ).push(log_entry_spec(ls[i as int])));
        i = i + 1;
    }
    assert(ls.take(lines@.len() as int) =~= ls);
    r
}

/// The branch that `git symbolic-ref refs/remotes/origin/HEAD` names: its trimmed
/// output with every leading `refs/remotes/origin/` removed, unless that is empty.
pub open spec fn origin_head_branch_spec(out: Seq<char>) -> Option<Seq<char>> {
    let b = trim_start_str(trim_spec(out), "refs/remotes/origin/"@);
    if b.len() == 0 {
        None
    } else {
        Some(b)
    }
}

/// Reads the default branch from `git symbolic-ref refs/remotes/origin/HEAD` output.
pub fn parse_origin_head(out: &str) -> (r: Option<String>)
    ensures
        crate::text::opt_view(r) == origin_head_branch_spec(out@),
{
    let text = chars_of(out);
    let t = trim_chars(&text);
    let b = trim_start_str_in(&t, &chars_of("refs/remotes/origin/"));
    if b.len() == 0 {
        None
    } else {
        Some(string_of(&b))
    }
}

/// The branch names of `git branch --list` output: each line trimmed, leading
/// `* ` markers removed, empty names dropped.
pub open spec fn branch_names_spec(out: Seq<char>) -> Seq<Seq<char>> {
    nonempty_lines(lines_spec(out).map_values(|l: Seq<char>| trim_start_str(trim_spec(l), "* "@)))
}

/// Reads the branch names of `git branch --list` output.
pub fn parse_branch_list(out: &str) -> (r: Vec<String>)
    ensures
        strings_of(r@) == branch_names_spec(out@),
{
    let text = chars_of(out);
    let lines = lines_of(&text);
    let ghost ls = lines_spec(out@).map_values(|l: Seq<char>| trim_start_str(trim_spec(l), "* "@));
    let star = chars_of("* ");
    let mut r: Vec<String> = Vec::new();
    let mut i: usize = 0;
    while i < lines.len()
        invariant
            i <= lines@.len(),
            vecs_view(lines@) == lines_spec(out@),
            ls == lines_spec(out@).map_values(|l: Seq<char>| trim_start_str(trim_spec(l), "* "@)),
            star@ == "* "@,
            strings_of(r@) == nonempty_lines(ls.take(i as int)),
        decreases lines@.len() - i,
    {
        assert(ls.take(i + 1).drop_last() =~= ls.take(i as int));
        assert(vecs_view(lines@)[i as int] == lines@[i as int]@);
        let name = trim_start_str_in(&trim_chars(&lines[i]), &star);
        assert(name@ == ls[i as int]);
        if name.len() > 0 {
            let ghost before = strings_of(r@);
            r.push(string_of(&name));
            assert(strings_of(r@) =~= before.push(ls[i as int]));
        }
        i = i + 1;
    }
    assert(ls.take(lines@.len() as int) =~= ls);
    r
}

/// The error for a failed git command: a branch-exists error when stderr (trimmed)
/// mentions `already exists` and the arguments hold `-b` followed by a name (the
/// first such name), else the exit code with stderr.
pub open spec fn git_failure_spec(args: Seq<Seq<char>>, exit_code: i32, stderr: Seq<char>) -> crate::error::ReforgeErrorView {
    let err = trim_spec(stderr);
    if contains_sub(err, "already exists"@) && (exists|k: int| 0 <= k < args.len() - 1 && #[trigger] args[k] == "-b"@) {
        let k = choose|k: int| is_first_dash_b(args, k);
        crate::error::ReforgeErrorView::GitBranchExists { branch: args[k + 1] }
    } else {
        crate::error::ReforgeErrorView::GitCommand { exit_code, stderr: err }
    }
}

/// `args[k]` is the first `-b` that has an argument after it.
pub open spec fn is_first_dash_b(args: Seq<Seq<char>>, k: int) -> bool {
    0 <= k < args.len() - 1 && args[k] == "-b"@ && (forall|m: int| 0 <= m < k ==> args[m] != "-b"@)
}

/// Builds the error for a git command that exited unsuccessfully.
pub fn git_failure(args: &Vec<String>, exit_code: i32, stderr: &str) -> (r: ReforgeError)
    ensures
        r@ == git_failure_spec(strings_of(args@), exit_code, stderr@),
{
    let err = trim_chars(&chars_of(stderr));
    let ghost av = strings_of(args@);
    if contains_sub_in(&err, &chars_of("already exists")) {
        let dash_b = chars_of("-b");
        let mut k: usize = 0;
        while k < args.len() && k + 1 < args.len()
            invariant
                k <= args@.len(),
                contains_sub(trim_spec(stderr@), "already exists"@),
                av == strings_of(args@),
                dash_b@ == "-b"@,
                forall|m: int| 0 <= m < k ==> av[m] != "-b"@,
            decreases args@.len() - k,
        {
            assert(av[k as int] == args@[k as int]@);
            if crate::text::chars_eq(&chars_of(args[k].as_str()), &dash_b) {
                let branch = crate::text::copy_string(&args[k + 1]);
                proof {
                    assert(av[k + 1] == args@[k + 1]@);
                    assert(is_first_dash_b(av, k as int));
                    let kk = choose|j: int| is_first_dash_b(av, j);
                    assert(is_first_dash_b(av, kk));
                    if kk < k {
                        assert(av[kk] == "-b"@);
                    } else if kk > k {
                        assert(av[k as int] == "-b"@);
                    }
                    assert(kk == k);
                    assert(exists|j: int| 0 <= j < av.len() - 1 && #[trigger] av[j] == "-b"@);
                }
                return ReforgeError::GitBranchExists { branch };
            }
            k = k + 1;
        }
        assert(!(exists|j: int| 0 <= j < av.len() - 1 && av[j] == "-b"@));
    }
    ReforgeError::GitCommand { exit_code, stderr: string_of(&err) }
}

} // verus!
