//! Paths below a directory that the caller knows.

use vstd::prelude::*;
use vstd::slice::slice_to_vec;
use vstd::utf8::encode_utf8;

verus! {

/// A path as the names on it, from the outermost in. Each name is given by its
/// bytes, since a file system takes names that are no text.
#[derive(Debug, Clone)]
pub struct PathParts {
    pub parts: Vec<Vec<u8>>,
}

impl View for PathParts {
    type V = Seq<Seq<u8>>;

    open spec fn view(&self) -> Seq<Seq<u8>> {
        self.parts@.map_values(|p: Vec<u8>| p@)
    }
}

/// What several paths say.
pub open spec fn paths_view(paths: Seq<PathParts>) -> Seq<Seq<Seq<u8>>> {
    paths.map_values(|p: PathParts| p@)
}

impl PathParts {
    /// The known directory itself.
    pub fn here() -> (path: PathParts)
        ensures
            path@ == Seq::<Seq<u8>>::empty(),
    {
        let path = PathParts { parts: Vec::new() };
        assert(path@ =~= Seq::<Seq<u8>>::empty());
        path
    }

    /// The same path again.
    pub fn copy(&self) -> (path: PathParts)
        ensures
            path@ == self@,
    {
        let mut parts: Vec<Vec<u8>> = Vec::new();
        let mut i: usize = 0;
        while i < self.parts.len()
            invariant
                i <= self.parts@.len(),
                parts@.len() == i,
                forall|j: int| 0 <= j < i ==> (#[trigger] parts@[j])@ == self.parts@[j]@,
            decreases self.parts@.len() - i,
        {
            parts.push(slice_to_vec(self.parts[i].as_slice()));
            i += 1;
        }
        let path = PathParts { parts };
        assert(path@ =~= self@);
        path
    }

    /// The path to a name in this directory.
    pub fn join_bytes(&self, name: &[u8]) -> (path: PathParts)
        ensures
            path@ == self@.push(name@),
    {
        let mut path = self.copy();
        path.parts.push(slice_to_vec(name));
        assert(path@ =~= self@.push(name@));
        path
    }

    /// The path to a name in this directory.
    pub fn join(&self, name: &str) -> (path: PathParts)
        ensures
            path@ == self@.push(encode_utf8(name@)),
    {
        self.join_bytes(name.as_bytes())
    }
}

/// `<base>/msg/attach`, the directory of a user's attachments.
pub fn attach_root_for(wxchat_base: &PathParts) -> (root: PathParts)
    ensures
        root@ == wxchat_base@.push(encode_utf8("msg"@)).push(encode_utf8("attach"@)),
{
    wxchat_base.join("msg").join("attach")
}

/// A path says the names on it, in their order.
pub proof fn law_path_view(path: PathParts, i: int)
    requires
        0 <= i < path.parts@.len(),
    ensures
        path@.len() == path.parts@.len(),
        path@[i] == path.parts@[i]@,
{
}

/// Several paths say what each of them says, in their order.
pub proof fn law_paths_view(paths: Seq<PathParts>, i: int)
    requires
        0 <= i < paths.len(),
    ensures
        paths_view(paths).len() == paths.len(),
        paths_view(paths)[i] == paths[i]@,
{
}

} // verus!
