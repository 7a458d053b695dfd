use vstd::prelude::*;
use crate::entry::path_views;
use crate::path::FsPath;

verus! {

/// Relies on `String::push`: appends one character at the end.
pub assume_specification[ String::push ](s: &mut String, ch: char)
    ensures
        final(s)@ == old(s)@.push(ch),
;

/// Relies on `String::pop`: removes and returns the last character, `None`
/// on an empty string.
pub assume_specification[ String::pop ](s: &mut String) -> (r: Option<char>)
    ensures
        old(s)@.len() == 0 ==> r.is_none() && final(s)@ == old(s)@,
        old(s)@.len() > 0 ==> r == Some(old(s)@.last()) && final(s)@ == old(s)@.drop_last(),
;

/// A destructive action waiting for its confirming keystroke.
pub enum Confirm {
    DeleteFolder,
    DeleteSelection(Vec<FsPath>),
}

/// The modal state of the key engine; each variant owns its own buffer.
pub enum InputMode {
    /// Navigation and single-key commands.
    Normal,
    /// A multi-key command being typed.
    Command(String),
    /// Free text, run or searched on as it is typed.
    Input(String),
    /// A pending action and the one character that confirms it.
    Confirmation(Confirm, char),
    /// Paths marked for a batch operation.
    Select(Vec<FsPath>),
}

/// The text buffer of a mode, empty where the mode has none.
pub open spec fn mode_text(m: InputMode) -> Seq<char> {
    match m {
        InputMode::Command(s) => s@,
        InputMode::Input(s) => s@,
        _ => Seq::empty(),
    }
}

/// The marked paths of a mode, empty outside selection.
pub open spec fn mode_paths(m: InputMode) -> Seq<Seq<Seq<char>>> {
    match m {
        InputMode::Select(v) => path_views(v@),
        _ => Seq::empty(),
    }
}

pub open spec fn has_text(m: InputMode) -> bool {
    m is Command || m is Input
}

/// The same variant, with the same buffer views.
pub open spec fn same_shape(a: InputMode, b: InputMode) -> bool {
    &&& (a is Normal <==> b is Normal)
    &&& (a is Command <==> b is Command)
    &&& (a is Input <==> b is Input)
    &&& (a is Select <==> b is Select)
    &&& (a is Confirmation <==> b is Confirmation)
}

/// Copies a list of paths.
pub fn duplicate_paths(v: &Vec<FsPath>) -> (r: Vec<FsPath>)
    ensures
        path_views(r@) == path_views(v@),
{
    let mut r: Vec<FsPath> = Vec::new();
    let mut i: usize = 0;
    while i < v.len()
        invariant
            i <= v@.len(),
            r@.len() == i,
            forall|k: int| 0 <= k < i ==> r@[k]@ == v@[k]@,
        decreases v.len() - i,
    {
        r.push(v[i].duplicate());
        i = i + 1;
    }
    assert(path_views(r@) =~= path_views(v@));
    r
}

impl InputMode {
    pub fn push_char(&mut self, c: char)
        ensures
            same_shape(*old(self), *final(self)),
            has_text(*old(self)) ==> mode_text(*final(self)) == mode_text(*old(self)).push(c),
            !has_text(*old(self)) ==> *final(self) == *old(self),
    {
        match self {
            InputMode::Command(s) => s.push(c),
            InputMode::Input(s) => s.push(c),
            _ => {},
        }
    }

    pub fn push_path(&mut self, p: FsPath)
        ensures
            same_shape(*old(self), *final(self)),
            *old(self) is Select ==> mode_paths(*final(self)) == mode_paths(*old(self)).push(p@),
            !(*old(self) is Select) ==> *final(self) == *old(self),
    {
        match self {
            InputMode::Select(v) => {
                let ghost before = v@;
                v.push(p);
                assert(path_views(v@) =~= path_views(before).push(p@));
            },
            _ => {},
        }
    }

    pub fn pop_char(&mut self) -> (r: Option<char>)
        ensures
            same_shape(*old(self), *final(self)),
            has_text(*old(self)) && mode_text(*old(self)).len() > 0 ==> r == Some(
                mode_text(*old(self)).last(),
            ) && mode_text(*final(self)) == mode_text(*old(self)).drop_last(),
            !has_text(*old(self)) || mode_text(*old(self)).len() == 0 ==> r.is_none()
                && mode_text(*final(self)) == mode_text(*old(self)),
            !has_text(*old(self)) ==> *final(self) == *old(self),
    {
        match self {
            InputMode::Command(s) => s.pop(),
            InputMode::Input(s) => s.pop(),
            _ => None,
        }
    }

    pub fn remove_path(&mut self, index: usize)
        requires
            *old(self) is Select ==> index < mode_paths(*old(self)).len(),
        ensures
            same_shape(*old(self), *final(self)),
            *old(self) is Select ==> mode_paths(*final(self)) == mode_paths(*old(self)).remove(
                index as int,
            ),
            !(*old(self) is Select) ==> *final(self) == *old(self),
    {
        match self {
            InputMode::Select(v) => {
                let ghost before = v@;
                v.remove(index);
                assert(path_views(v@) =~= path_views(before).remove(index as int));
            },
            _ => {},
        }
    }

    pub fn get_str(&self) -> (r: String)
        ensures
            r@ == mode_text(*self),
    {
        match self {
            InputMode::Command(s) => s.clone(),
            InputMode::Input(s) => s.clone(),
            _ => String::new(),
        }
    }

    pub fn get_selected(&self) -> (r: Vec<FsPath>)
        ensures
            path_views(r@) == mode_paths(*self),
    {
        match self {
            InputMode::Select(s) => duplicate_paths(s),
            _ => {
                let r: Vec<FsPath> = Vec::new();
                assert(path_views(r@) =~= Seq::<Seq<Seq<char>>>::empty());
                r
            },
        }
    }
}

} // verus!
