//! Repository access: the GitLab API model and the local `git` model.
pub mod git;
pub mod gitlab;

use vstd::prelude::*;

use crate::platform::git::GitRepo;
use crate::platform::gitlab::TreeEntry;

verus! {

/// A single file entry returned when walking a repository tree.
#[derive(Debug, Clone)]
pub struct FileEntry {
    pub path: String,
}

/// Access to a local git checkout.
pub struct LocalGitSource {
    pub repo: GitRepo,
}

impl LocalGitSource {
    /// A source over the checkout at `path`.
    pub fn new(path: String) -> (r: Self)
        ensures
            r.repo.path@ == path@,
    {
        LocalGitSource { repo: GitRepo::new(path) }
    }
}

/// The paths of the file (`blob`) entries of a tree listing, in order.
pub open spec fn blob_paths_spec(es: Seq<TreeEntry>) -> Seq<Seq<char>>
    decreases es.len(),
{
    if es.len() == 0 {
        seq![]
    } else {
        let prev = blob_paths_spec(es.drop_last());
        if es.last().entry_type@ == "blob"@ {
            prev.push(es.last().path@)
        } else {
            prev
        }
    }
}

/// The files of a repository tree listing: its `blob` entries.
pub fn blob_entries(entries: &Vec<TreeEntry>) -> (r: Vec<FileEntry>)
    ensures
        r@.map_values(|f: FileEntry| f.path@) == blob_paths_spec(entries@),
{
    let blob = crate::text::chars_of("blob");
    let mut out: Vec<FileEntry> = Vec::new();
    let mut i: usize = 0;
    while i < entries.len()
        invariant
            i <= entries@.len(),
            blob@ == "blob"@,
            out@.map_values(|f: FileEntry| f.path@) == blob_paths_spec(entries@.take(i as int)),
        decreases entries@.len() - i,
    {
        assert(entries@.take(i + 1).drop_last() =~= entries@.take(i as int));
        let ghost before = out@.map_values(|f: FileEntry| f.path@);
        if crate::text::chars_eq(&crate::text::chars_of(entries[i].entry_type.as_str()), &blob) {
            out.push(FileEntry { path: crate::text::copy_string(&entries[i].path) });
            assert(out@.map_values(|f: FileEntry| f.path@) =~= before.push(entries@[i as int].path@));
        }
        i = i + 1;
    }
    assert(entries@.take(entries@.len() as int) =~= entries@);
    out
}

} // verus!
