//! Decisions of the artifact scan: which directories are artifacts and
//! which are searched further. Listing directories is left to the caller.

use vstd::prelude::*;

verus! {

/// One entry of a directory listing.
#[derive(Clone, Debug, PartialEq, Eq)]
pub struct DirEntryInfo {
    pub path: String,
    pub is_dir: bool,
    /// Whether the entry is a directory that directly holds the completion marker.
    pub has_marker: bool,
}

/// The paths of the directories among `es` that hold the marker.
pub open spec fn marked_dirs(es: Seq<DirEntryInfo>) -> Seq<String>
    decreases es.len(),
{
    if es.len() == 0 {
        Seq::empty()
    } else {
        marked_dirs(es.drop_last()) + if es.last().is_dir && es.last().has_marker {
            seq![es.last().path]
        } else {
            Seq::empty()
        }
    }
}

/// The paths of the directories among `es` that do not hold the marker.
pub open spec fn unmarked_dirs(es: Seq<DirEntryInfo>) -> Seq<String>
    decreases es.len(),
{
    if es.len() == 0 {
        Seq::empty()
    } else {
        unmarked_dirs(es.drop_last()) + if es.last().is_dir && !es.last().has_marker {
            seq![es.last().path]
        } else {
            Seq::empty()
        }
    }
}

/// How one directory's entries split.
pub struct ArtifactScan {
    /// Directories holding the marker: artifacts, not searched further.
    pub artifacts: Vec<String>,
    /// Other directories, to be searched.
    pub subdirs: Vec<String>,
}

/// Splits a directory's entries into artifacts and directories to search;
/// files are ignored. Order is kept.
pub fn find_artifact_dirs(children: &Vec<DirEntryInfo>) -> (r: ArtifactScan)
    ensures
        r.artifacts@ == marked_dirs(children@),
        r.subdirs@ == unmarked_dirs(children@),
{
    let mut artifacts: Vec<String> = Vec::new();
    let mut subdirs: Vec<String> = Vec::new();
    let mut i: usize = 0;
    while i < children.len()
        invariant
            0 <= i <= children@.len(),
            artifacts@ == marked_dirs(children@.take(i as int)),
            subdirs@ == unmarked_dirs(children@.take(i as int)),
        decreases children@.len() - i,
    {
        assert(children@.take(i + 1).drop_last() =~= children@.take(i as int));
        let e = &children[i];
        if e.is_dir {
            if e.has_marker {
                artifacts.push(e.path.clone());
            } else {
                subdirs.push(e.path.clone());
            }
        }
        assert(artifacts@ =~= marked_dirs(children@.take(i + 1)));
        assert(subdirs@ =~= unmarked_dirs(children@.take(i + 1)));
        i += 1;
    }
    assert(children@.take(i as int) =~= children@);
    ArtifactScan { artifacts, subdirs }
}

/// A depth-first search for artifact directories with an explicit stack.
pub struct ArtifactWalk {
    /// Directories still to be listed; the last is listed next.
    pub pending: Vec<String>,
    /// Artifact directories found so far, in the order found.
    pub found: Vec<String>,
}

impl ArtifactWalk {
    /// A search that starts by listing `root`.
    pub fn new(root: String) -> (r: Self)
        ensures
            r.pending@ == seq![root],
            r.found@.len() == 0,
    {
        let mut pending: Vec<String> = Vec::new();
        pending.push(root);
        ArtifactWalk { pending, found: Vec::new() }
    }

    /// The next directory to list, or `None` when the search is over.
    pub fn next_dir(&mut self) -> (r: Option<String>)
        ensures
            old(self).pending@.len() == 0 ==> r is None && final(self).pending@.len() == 0
                && final(self).found == old(self).found,
            old(self).pending@.len() > 0 ==> r == Some(old(self).pending@.last())
                && final(self).pending@ == old(self).pending@.drop_last()
                && final(self).found == old(self).found,
    {
        self.pending.pop()
    }

    /// Takes in the listing of the directory last handed out.
    pub fn visit(&mut self, children: &Vec<DirEntryInfo>)
        ensures
            final(self).found@ == old(self).found@ + marked_dirs(children@),
            final(self).pending@ == old(self).pending@ + unmarked_dirs(children@),
    {
        let scan = find_artifact_dirs(children);
        let mut i: usize = 0;
        while i < scan.artifacts.len()
            invariant
                0 <= i <= scan.artifacts@.len(),
                self.found@ == old(self).found@ + scan.artifacts@.take(i as int),
                self.pending@ == old(self).pending@,
            decreases scan.artifacts@.len() - i,
        {
            self.found.push(scan.artifacts[i].clone());
            assert(scan.artifacts@.take(i + 1) =~= scan.artifacts@.take(i as int).push(
                scan.artifacts@[i as int],
            ));
            i += 1;
        }
        assert(scan.artifacts@.take(i as int) =~= scan.artifacts@);
        let mut j: usize = 0;
        while j < scan.subdirs.len()
            invariant
                0 <= j <= scan.subdirs@.len(),
                self.found@ == old(self).found@ + scan.artifacts@,
                self.pending@ == old(self).pending@ + scan.subdirs@.take(j as int),
            decreases scan.subdirs@.len() - j,
        {
            self.pending.push(scan.subdirs[j].clone());
            assert(scan.subdirs@.take(j + 1) =~= scan.subdirs@.take(j as int).push(
                scan.subdirs@[j as int],
            ));
            j += 1;
        }
        assert(scan.subdirs@.take(j as int) =~= scan.subdirs@);
    }
}

} // verus!
