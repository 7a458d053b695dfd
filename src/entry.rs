use vstd::prelude::*;
use crate::path::FsPath;

verus! {

/// One listed child of a directory, with its tag flag and an optional preview.
pub struct Item<T, U> {
    pub path: T,
    pub tagged: bool,
    pub preview: Option<U>,
}

impl<T, U> Item<T, U> {
    pub fn new(t: T, tagged: bool) -> (r: Item<T, U>)
        ensures
            r.path == t,
            r.tagged == tagged,
            r.preview.is_none(),
    {
        Item { path: t, tagged, preview: None }
    }

    pub fn tag(&mut self)
        ensures
            final(self).tagged,
            final(self).path == old(self).path,
            final(self).preview == old(self).preview,
    {
        self.tagged = true
    }

    pub fn toggle_tagged(&mut self)
        ensures
            final(self).tagged == !old(self).tagged,
            final(self).path == old(self).path,
            final(self).preview == old(self).preview,
    {
        self.tagged = !self.tagged
    }

    pub fn set_preview(&mut self, preview: U)
        ensures
            final(self).preview == Some(preview),
            final(self).path == old(self).path,
            final(self).tagged == old(self).tagged,
    {
        self.preview = Some(preview)
    }

    pub fn set_item(&mut self, item: T)
        ensures
            final(self).path == item,
            final(self).tagged == old(self).tagged,
            final(self).preview == old(self).preview,
    {
        self.path = item
    }
}

/// What a directory entry is, as far as browsing cares.
#[derive(PartialEq, Eq, Structural, Clone, Copy, Debug)]
pub enum NodeKind {
    Dir,
    File,
    Other,
}

/// A directory entry as read from disk: its name, kind and timestamps in
/// seconds since the epoch (zero where they could not be read).
pub struct RawEntry {
    pub name: String,
    pub kind: NodeKind,
    pub modified: u64,
    pub created: u64,
}

/// A listed path with what the listing learned of it.
pub struct Node {
    pub path: FsPath,
    pub kind: NodeKind,
    pub modified: u64,
    pub created: u64,
}

/// The listed entry type of the browser's columns.
pub type Entry = Item<Node, String>;

/// What the listing policy sees of an entry.
pub struct EntryModel {
    pub path: Seq<Seq<char>>,
    pub kind: NodeKind,
    pub modified: u64,
    pub created: u64,
    pub tagged: bool,
}

pub open spec fn entry_model(e: Entry) -> EntryModel {
    EntryModel {
        path: e.path.path@,
        kind: e.path.kind,
        modified: e.path.modified,
        created: e.path.created,
        tagged: e.tagged,
    }
}

pub open spec fn entry_models(s: Seq<Entry>) -> Seq<EntryModel> {
    s.map_values(|e: Entry| entry_model(e))
}

pub open spec fn entry_paths(s: Seq<Entry>) -> Seq<Seq<Seq<char>>> {
    s.map_values(|e: Entry| e.path.path@)
}

pub open spec fn path_views(s: Seq<FsPath>) -> Seq<Seq<Seq<char>>> {
    s.map_values(|p: FsPath| p@)
}

impl Node {
    pub fn is_dir(&self) -> (r: bool)
        ensures
            r == (self.kind == NodeKind::Dir),
    {
        self.kind == NodeKind::Dir
    }
}

/// The index of the first entry whose path is `item`.
pub fn get_item_index(item: &FsPath, items: &Vec<Entry>) -> (r: Option<usize>)
    ensures
        match r {
            None => !entry_paths(items@).contains(item@),
            Some(i) => i < items@.len() && items@[i as int].path.path@ == item@ && forall|k: int|
                0 <= k < i ==> items@[k].path.path@ != item@,
        },
{
    let mut i: usize = 0;
    while i < items.len()
        invariant
            i <= items@.len(),
            forall|k: int| 0 <= k < i ==> items@[k].path.path@ != item@,
        decreases items.len() - i,
    {
        if items[i].path.path.same(item) {
            return Some(i);
        }
        i = i + 1;
    }
    proof {
        if entry_paths(items@).contains(item@) {
            let k = choose|k: int| 0 <= k < items@.len() && entry_paths(items@)[k] == item@;
            assert(items@[k].path.path@ == item@);
        }
    }
    None
}

/// The first index of `p` among `paths`.
pub fn position_of_path(paths: &Vec<FsPath>, p: &FsPath) -> (r: Option<usize>)
    ensures
        match r {
            None => !path_views(paths@).contains(p@),
            Some(i) => i < paths@.len() && path_views(paths@)[i as int] == p@ && forall|k: int|
                0 <= k < i ==> paths@[k]@ != p@,
        },
{
    let mut i: usize = 0;
    while i < paths.len()
        invariant
            i <= paths@.len(),
            forall|k: int| 0 <= k < i ==> paths@[k]@ != p@,
        decreases paths.len() - i,
    {
        if paths[i].same(p) {
            return Some(i);
        }
        i = i + 1;
    }
    proof {
        if path_views(paths@).contains(p@) {
            let k = choose|k: int| 0 <= k < paths@.len() && path_views(paths@)[k] == p@;
            assert(paths@[k]@ == p@);
        }
    }
    None
}

/// Whether `p` is among `paths`.
pub fn contains_path(paths: &Vec<FsPath>, p: &FsPath) -> (r: bool)
    ensures
        r == path_views(paths@).contains(p@),
{
    let mut i: usize = 0;
    while i < paths.len()
        invariant
            i <= paths@.len(),
            forall|k: int| 0 <= k < i ==> paths@[k]@ != p@,
        decreases paths.len() - i,
    {
        if paths[i].same(p) {
            assert(path_views(paths@)[i as int] == p@);
            return true;
        }
        i = i + 1;
    }
    proof {
        if path_views(paths@).contains(p@) {
            let k = choose|k: int| 0 <= k < paths@.len() && path_views(paths@)[k] == p@;
            assert(paths@[k]@ == p@);
        }
    }
    false
}

} // verus!
