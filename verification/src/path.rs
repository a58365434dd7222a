//! Paths of a project.

use vstd::prelude::*;

verus! {

/// A path: a directory in the notation of the machine, and the names that lead on from there.
#[derive(Debug, PartialEq, Eq)]
pub struct ProjectPath {
    pub base: String,
    pub names: Vec<String>,
}

impl View for ProjectPath {
    type V = (Seq<char>, Seq<Seq<char>>);

    open spec fn view(&self) -> (Seq<char>, Seq<Seq<char>>) {
        (self.base@, self.names@.map_values(|name: String| name@))
    }
}

/// The path without its last name.
pub open spec fn parent(path: (Seq<char>, Seq<Seq<char>>)) -> (Seq<char>, Seq<Seq<char>>) {
    (path.0, path.1.drop_last())
}

impl ProjectPath {
    /// The directory itself.
    pub fn new(base: String) -> (path: Self)
        ensures
            path@ == (base@, Seq::<Seq<char>>::empty()),
    {
        let path = ProjectPath { base, names: Vec::new() };
        assert(path@.1 =~= Seq::<Seq<char>>::empty());
        path
    }

    /// What lies below this path under the name `name`.
    pub fn join(self, name: &str) -> (path: Self)
        ensures
            path@ == (self@.0, self@.1.push(name@)),
    {
        let mut names: Vec<String> = self.names;
        names.push(name.to_owned());
        let path = ProjectPath { base: self.base, names };
        assert(path@.1 =~= self@.1.push(name@));
        path
    }
}

/// A path is seen by its directory and its names, in their order; its parent lacks the last name.
pub proof fn law_paths(path: ProjectPath)
    ensures
        path@.0 == path.base@,
        path@.1.len() == path.names@.len(),
        forall|i: int| 0 <= i < path.names@.len() ==> #[trigger] path@.1[i] == path.names@[i]@,
        parent(path@).0 == path.base@,
        path.names@.len() > 0 ==> path@.1 == parent(path@).1.push(path.names@.last()@),
{
    if path.names@.len() > 0 {
        assert(path@.1 =~= parent(path@).1.push(path.names@.last()@));
    }
}

} // verus!
