use vstd::prelude::*;

verus! {

/// An absolute path, held as its components from the root down.
/// The root itself has no components.
pub struct FsPath {
    pub parts: Vec<String>,
}

impl View for FsPath {
    type V = Seq<Seq<char>>;

    open spec fn view(&self) -> Seq<Seq<char>> {
        self.parts@.map_values(|s: String| s@)
    }
}

/// The parent of a path, if it is not the root.
pub open spec fn parent_of(p: Seq<Seq<char>>) -> Option<Seq<Seq<char>>> {
    if p.len() == 0 {
        None
    } else {
        Some(p.drop_last())
    }
}

/// The path of the child `name` of `p`.
pub open spec fn child_of(p: Seq<Seq<char>>, name: Seq<char>) -> Seq<Seq<char>> {
    p.push(name)
}

/// The last component of a path (empty for the root).
pub open spec fn name_of(p: Seq<Seq<char>>) -> Seq<char> {
    if p.len() == 0 {
        Seq::empty()
    } else {
        p.last()
    }
}

/// Copies a string through its characters' view.
pub fn copy_string(s: &String) -> (r: String)
    ensures
        r@ == s@,
{
    s.clone()
}

impl FsPath {
    /// The root directory.
    pub fn root() -> (r: FsPath)
        ensures
            r@ == Seq::<Seq<char>>::empty(),
    {
        FsPath { parts: Vec::new() }
    }

    /// A path from its components.
    pub fn from_parts(parts: Vec<String>) -> (r: FsPath)
        ensures
            r@ == parts@.map_values(|s: String| s@),
    {
        FsPath { parts }
    }

    pub fn duplicate(&self) -> (r: FsPath)
        ensures
            r@ == self@,
    {
        let mut parts: Vec<String> = Vec::new();
        let mut i: usize = 0;
        while i < self.parts.len()
            invariant
                i <= self.parts.len(),
                parts@.len() == i,
                forall|k: int| 0 <= k < i ==> parts@[k]@ == self.parts@[k]@,
            decreases self.parts.len() - i,
        {
            parts.push(copy_string(&self.parts[i]));
            i = i + 1;
        }
        let r = FsPath { parts };
        assert(r@ =~= self@);
        r
    }

    /// Whether two paths name the same place, component by component.
    pub fn same(&self, other: &FsPath) -> (r: bool)
        ensures
            r == (self@ == other@),
    {
        if self.parts.len() != other.parts.len() {
            proof {
                assert(self@.len() != other@.len());
            }
            return false;
        }
        let mut i: usize = 0;
        while i < self.parts.len()
            invariant
                i <= self.parts.len(),
                self.parts.len() == other.parts.len(),
                forall|k: int| 0 <= k < i ==> self.parts@[k]@ == other.parts@[k]@,
            decreases self.parts.len() - i,
        {
            if self.parts[i] != other.parts[i] {
                proof {
                    assert(self@[i as int] != other@[i as int]);
                }
                return false;
            }
            i = i + 1;
        }
        assert(self@ =~= other@);
        true
    }

    /// The path one level up, or `None` at the root.
    pub fn parent(&self) -> (r: Option<FsPath>)
        ensures
            match r {
                Some(q) => parent_of(self@) == Some(q@),
                None => parent_of(self@).is_none(),
            },
    {
        if self.parts.len() == 0 {
            None
        } else {
            let mut q = self.duplicate();
            q.parts.pop();
            assert(q@ =~= self@.drop_last());
            Some(q)
        }
    }

    /// The path of the child called `name`.
    pub fn join(&self, name: &String) -> (r: FsPath)
        ensures
            r@ == child_of(self@, name@),
    {
        let mut q = self.duplicate();
        q.parts.push(copy_string(name));
        assert(q@ =~= self@.push(name@));
        q
    }

    /// The last component, empty for the root.
    pub fn name(&self) -> (r: String)
        ensures
            r@ == name_of(self@),
    {
        if self.parts.len() == 0 {
            String::new()
        } else {
            copy_string(&self.parts[self.parts.len() - 1])
        }
    }
}

/// The parent of a child is the directory it was joined to.
pub proof fn lemma_parent_of_child(p: Seq<Seq<char>>, name: Seq<char>)
    ensures
        parent_of(child_of(p, name)) == Some(p),
        name_of(child_of(p, name)) == name,
{
    assert(child_of(p, name).drop_last() =~= p);
}

} // verus!
