//! Addresses of nodes in a state tree.

use vstd::prelude::*;
use vstd::std_specs::cmp::PartialEqSpec;
use vstd::std_specs::cmp::PartialEqSpecImpl;

verus! {

/// The address of a node: the field tags that lead to it from the root of
/// the state tree. The root itself has the empty address.
#[derive(Debug, Hash)]
pub struct Path {
    tags: Vec<u16>,
}

impl View for Path {
    type V = Seq<u16>;

    closed spec fn view(&self) -> Seq<u16> {
        self.tags@
    }
}

/// The address one step below `path`, at the field `tag`.
pub open spec fn child_of(path: Seq<u16>, tag: u16) -> Seq<u16> {
    path.push(tag)
}

/// The address one step above `path`. The root has no parent and is its own
/// result.
pub open spec fn parent_of(path: Seq<u16>) -> Seq<u16> {
    if path.len() == 0 {
        path
    } else {
        path.drop_last()
    }
}

impl Path {
    /// The address of the root.
    pub fn root() -> (path: Path)
        ensures
            path@ == Seq::<u16>::empty(),
    {
        Path { tags: Vec::new() }
    }

    /// The address that holds exactly `tags`, in their order.
    pub fn from_tags(tags: Vec<u16>) -> (path: Path)
        ensures
            path@ == tags@,
    {
        Path { tags }
    }

    /// A new address with `tag` appended; `self` stays as it is.
    pub fn child(&self, tag: u16) -> (path: Path)
        ensures
            path@ == child_of(self@, tag),
    {
        let mut tags = self.tags.clone();
        tags.push(tag);
        Path { tags }
    }

    /// A new address without the last tag of `self`. At the root this is the
    /// root again: asking for the parent of the root is not an error.
    pub fn parent(&self) -> (path: Path)
        ensures
            path@ == parent_of(self@),
    {
        let mut tags = self.tags.clone();
        let _ = tags.pop();
        assert(tags@ =~= parent_of(self@));
        Path { tags }
    }

    /// Whether this is the address of the root.
    pub fn is_root(&self) -> (root: bool)
        ensures
            root == (self@.len() == 0),
    {
        self.tags.len() == 0
    }

    /// The number of tags, which is the depth of the node below the root.
    pub fn len(&self) -> (n: usize)
        ensures
            n == self@.len(),
    {
        self.tags.len()
    }

    /// No address is longer than the machine can count.
    pub proof fn lemma_len_fits(&self)
        ensures
            self@.len() <= usize::MAX,
    {
        assert(self.tags@.len() == self.tags.len());
    }

    /// The tags from the root down.
    pub fn tags(&self) -> (tags: &Vec<u16>)
        ensures
            tags@ == self@,
    {
        &self.tags
    }
}

impl PartialEq for Path {
    /// Two addresses are equal when they hold the same tags in the same
    /// order.
    fn eq(&self, other: &Path) -> (equal: bool) {
        let equal = self.tags == other.tags;
        proof {
            if equal {
                assert(self.tags@ =~= other.tags@);
            }
        }
        equal
    }
}

impl PartialEqSpecImpl for Path {
    open spec fn obeys_eq_spec() -> bool {
        true
    }

    open spec fn eq_spec(&self, other: &Path) -> bool {
        self@ == other@
    }
}

impl Eq for Path {

}

impl Clone for Path {
    fn clone(&self) -> (path: Path)
        ensures
            path@ == self@,
    {
        Path { tags: self.tags.clone() }
    }
}

/// The parent of a child is the node itself: what `child` appends,
/// `parent` takes away.
pub proof fn lemma_parent_of_child(path: Seq<u16>, tag: u16)
    ensures
        parent_of(child_of(path, tag)) == path,
{
    assert(path.push(tag).drop_last() =~= path);
}

/// Two addresses are equal exactly when they have the same length and the
/// same tag at every place.
pub proof fn lemma_eq_elementwise(a: Path, b: Path)
    ensures
        PartialEqSpec::eq_spec(&a, &b) <==> (a@.len() == b@.len() && forall|i: int|
            0 <= i < a@.len() ==> a@[i] == b@[i]),
{
    if a@.len() == b@.len() && (forall|i: int| 0 <= i < a@.len() ==> a@[i] == b@[i]) {
        assert(a@ =~= b@);
    }
}

} // verus!
