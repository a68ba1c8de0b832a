//! Staging a commit's tree into a workspace: the directories created before
//! the checkout, and the distinct ways in which staging fails.

use vstd::prelude::*;

verus! {

/// An entry met while walking a commit's tree in pre-order: the path of the
/// tree that holds it (empty, or ending in `/`), its name, and whether it is a
/// tree itself.
pub struct TreeEntry {
    pub root: String,
    pub name: String,
    pub is_tree: bool,
}

/// The path of an entry relative to the top of the tree.
pub open spec fn entry_path(e: TreeEntry) -> Seq<char> {
    e.root@ + e.name@
}

/// The paths of the subtrees among `es`, in the order of `es`.
pub open spec fn dir_paths(es: Seq<TreeEntry>) -> Seq<Seq<char>>
    decreases es.len(),
{
    if es.len() == 0 {
        seq![]
    } else {
        let rest = dir_paths(es.drop_last());
        if es.last().is_tree {
            rest.push(entry_path(es.last()))
        } else {
            rest
        }
    }
}

/// The directories to create, relative to the workspace, before the files of
/// a tree are extracted: one for each subtree, in walk order.
pub fn directories_to_create(entries: &Vec<TreeEntry>) -> (r: Vec<String>)
    ensures
        r@.map_values(|x: String| x@) == dir_paths(entries@),
{
    let mut r: Vec<String> = Vec::new();
    let mut i: usize = 0;
    while i < entries.len()
        invariant
            i <= entries@.len(),
            r@.map_values(|x: String| x@) == dir_paths(entries@.take(i as int)),
        decreases entries@.len() - i,
    {
        let ghost before = r@;
        assert(entries@.take(i + 1).drop_last() =~= entries@.take(i as int));
        assert(entries@.take(i + 1).last() == entries@[i as int]);
        if entries[i].is_tree {
            let mut p = entries[i].root.clone();
            p.append(entries[i].name.as_str());
            r.push(p);
            assert(r@.map_values(|x: String| x@) =~= before.map_values(|x: String| x@).push(
                entry_path(entries@[i as int]),
            ));
        }
        i = i + 1;
    }
    assert(entries@.take(entries@.len() as int) =~= entries@);
    r
}

proof fn lemma_dir_paths(es: Seq<TreeEntry>)
    ensures
        forall|i: int| 0 <= i < es.len() && es[i].is_tree ==> dir_paths(es).contains(entry_path(es[i])),
        forall|p: Seq<char>| dir_paths(es).contains(p) ==> exists|i: int|
            0 <= i < es.len() && es[i].is_tree && entry_path(es[i]) == p,
    decreases es.len(),
{
    if es.len() > 0 {
        let init = es.drop_last();
        let rest = dir_paths(init);
        let d = dir_paths(es);
        lemma_dir_paths(init);
        assert forall|i: int| 0 <= i < es.len() && es[i].is_tree implies d.contains(
            entry_path(es[i]),
        ) by {
            if i < es.len() - 1 {
                assert(init[i] == es[i]);
                let j = choose|j: int| 0 <= j < rest.len() && rest[j] == entry_path(init[i]);
                assert(d[j] == rest[j]);
            } else {
                assert(d[d.len() - 1] == entry_path(es[i]));
            }
        }
        assert forall|p: Seq<char>| d.contains(p) implies exists|i: int|
            0 <= i < es.len() && es[i].is_tree && entry_path(es[i]) == p by {
            let j = choose|j: int| 0 <= j < d.len() && d[j] == p;
            if j < rest.len() {
                assert(rest.contains(p));
                let i = choose|i: int|
                    0 <= i < init.len() && init[i].is_tree && entry_path(init[i]) == p;
                assert(es[i] == init[i]);
            } else {
                assert(es[es.len() - 1].is_tree && entry_path(es[es.len() - 1]) == p);
            }
        }
    }
}

/// The directories created before extraction are exactly the subtrees met in
/// the walk: each subtree, empty ones included, gets its directory, and no
/// other entry does.
pub proof fn law_directories_match_subtrees(es: Seq<TreeEntry>)
    ensures
        forall|i: int| 0 <= i < es.len() && es[i].is_tree ==> dir_paths(es).contains(entry_path(es[i])),
        forall|p: Seq<char>| dir_paths(es).contains(p) ==> exists|i: int|
            0 <= i < es.len() && es[i].is_tree && entry_path(es[i]) == p,
{
    lemma_dir_paths(es);
}

/// The stage at which staging a commit failed.
#[derive(Clone, Copy, Debug, PartialEq, Eq, Structural)]
pub enum MaterializeError {
    RepositoryNotFound,
    RevisionNotFound,
    NotACommit,
    TreeUnavailable,
    DirectoryStructure,
    ExtractionFailed,
}

impl MaterializeError {
    /// The human-readable description of the stage that failed.
    pub fn message(&self) -> (r: String)
        ensures
            r@ == (match self {
                MaterializeError::RepositoryNotFound =>
                    "Git repository not found - this directory is not a git repository"@,
                MaterializeError::RevisionNotFound => "Commit not found - invalid commit ID"@,
                MaterializeError::NotACommit => "Given reference does not point to a commit"@,
                MaterializeError::TreeUnavailable => "Failed to get commit tree"@,
                MaterializeError::DirectoryStructure => "Failed to create directory structure"@,
                MaterializeError::ExtractionFailed => "Failed to extract files"@,
            }),
    {
        match self {
            MaterializeError::RepositoryNotFound => String::from_str(
                "Git repository not found - this directory is not a git repository",
            ),
            MaterializeError::RevisionNotFound => String::from_str(
                "Commit not found - invalid commit ID",
            ),
            MaterializeError::NotACommit => String::from_str(
                "Given reference does not point to a commit",
            ),
            MaterializeError::TreeUnavailable => String::from_str("Failed to get commit tree"),
            MaterializeError::DirectoryStructure => String::from_str(
                "Failed to create directory structure",
            ),
            MaterializeError::ExtractionFailed => String::from_str("Failed to extract files"),
        }
    }
}

} // verus!
