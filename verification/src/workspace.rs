//! The directories that agents may work in.

use vstd::prelude::*;

verus! {

/// A directory on this Mac that agents may work in.
#[derive(Debug)]
pub struct LocalWorkspace {
    pub id: String,
    pub name: String,
    pub path: String,
}

/// What a workspace is: its id, its name and its path.
pub struct WorkspaceView {
    pub id: Seq<char>,
    pub name: Seq<char>,
    pub path: Seq<char>,
}

impl View for LocalWorkspace {
    type V = WorkspaceView;

    open spec fn view(&self) -> WorkspaceView {
        WorkspaceView { id: self.id@, name: self.name@, path: self.path@ }
    }
}

impl DeepView for LocalWorkspace {
    type V = WorkspaceView;

    open spec fn deep_view(&self) -> WorkspaceView {
        self@
    }
}

impl Clone for LocalWorkspace {
    fn clone(&self) -> (copy: LocalWorkspace)
        ensures
            copy == *self,
    {
        LocalWorkspace { id: self.id.clone(), name: self.name.clone(), path: self.path.clone() }
    }
}

/// The same workspaces, in the same order.
pub fn copy_all(workspaces: &Vec<LocalWorkspace>) -> (copies: Vec<LocalWorkspace>)
    ensures
        copies@ == workspaces@,
{
    let mut copies: Vec<LocalWorkspace> = Vec::new();
    for i in 0..workspaces.len()
        invariant
            copies@ == workspaces@.take(i as int),
    {
        copies.push(workspaces[i].clone());
        assert(workspaces@.take(i + 1) =~= workspaces@.take(i as int).push(workspaces@[i as int]));
    }
    assert(workspaces@.take(workspaces@.len() as int) =~= workspaces@);
    copies
}

} // verus!
