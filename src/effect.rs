use vstd::prelude::*;
use crate::entry::path_views;
use crate::path::FsPath;

verus! {

/// How pasted paths arrive: moved away from their source or copied.
#[derive(PartialEq, Eq, Structural, Clone, Copy, Debug)]
pub enum PasteMode {
    Move,
    Copy,
}

/// Paths waiting to be pasted, and how.
pub struct Register {
    pub register: Vec<FsPath>,
    pub mode: PasteMode,
}

/// What is kept from one run to the next: the tagged paths.
pub struct Config {
    pub tags: Vec<FsPath>,
}

impl Default for Config {
    fn default() -> (r: Config)
        ensures
            r.tags@.len() == 0,
    {
        Config { tags: Vec::new() }
    }
}

/// The three panes of the browser.
#[derive(PartialEq, Eq, Structural, Clone, Copy, Debug)]
pub enum Slot {
    Left,
    Middle,
    Right,
}

/// The coarse kind of a file, as a classifier reports it.
#[derive(PartialEq, Eq, Structural, Clone, Copy, Debug)]
pub enum FileKind {
    Document,
    Text,
    Image,
    Video,
    Other,
}

/// Which outside viewer should open a file.
#[derive(PartialEq, Eq, Structural, Clone, Copy, Debug)]
pub enum Viewer {
    Document,
    Image,
    Video,
}

/// What deleting the highlighted path found on disk.
#[derive(PartialEq, Eq, Structural, Clone, Copy, Debug)]
pub enum DeleteProbe {
    EmptyDir,
    NonEmptyDir,
    File,
    Other,
}

/// Which removal was carried out.
#[derive(PartialEq, Eq, Structural, Clone, Copy, Debug)]
pub enum Removal {
    EmptyDir,
    File,
    Tree,
}

/// What a create request found or did.
#[derive(PartialEq, Eq, Structural, Clone, Copy, Debug)]
pub enum CreateOutcome {
    Exists,
    Created,
    Failed,
}

/// A key as the engine reads it.
#[derive(PartialEq, Eq, Structural, Clone, Copy, Debug)]
pub enum Key {
    Char(char),
    Enter,
    Esc,
    Backspace,
    Left,
    Right,
    Up,
    Down,
    PageUp,
    PageDown,
    Other,
}

/// The multi-key commands of normal mode.
#[derive(PartialEq, Eq, Structural, Clone, Copy, Debug)]
pub enum Cmd {
    Delete,
    YankMove,
    YankCopy,
    Sort(crate::listing::ListOrder),
}

/// The line shown to the user after an action.
#[derive(PartialEq, Eq, Structural, Clone, Copy, Debug)]
pub enum Message {
    Empty,
    NothingSelected,
    CannotOpenText,
    CannotOpen,
    NothingToDo,
    Renamed,
    RenameFailed,
    FileCreated,
    FileCreateFailed,
    DirCreated,
    DirCreateFailed,
    AlreadyExists,
    CommandNotFound,
    CommandNotRecognized,
    QuitHint,
    TreeDeleted,
    TreeDeleteFailed,
    Aborted,
    Canceled,
    EmptyDirDeleted,
    FileDeleted,
    DeleteFailed,
    ConfirmDeleteFolder,
    ConfirmDeleteSelection,
    NotHandled,
    InRegister,
    SelectionInRegister,
    DeleteHint,
    YankHint,
    SortHint,
    UnknownCommand,
    /// The text being typed is echoed.
    Echo,
    Pasted { count: usize, total: usize, mode: PasteMode },
    DeletedSelection { count: usize, total: usize },
}

/// One path to carry into the working directory.
pub struct Transfer {
    pub from: FsPath,
    pub to: FsPath,
}

/// Work on the outside world that a key asks for. The caller carries it out
/// and reports back through the matching method of the browser.
pub enum Effect {
    Nothing,
    Quit,
    /// Classify the file and open it (`App::opened`).
    Open(FsPath),
    /// Rename (`App::renamed`).
    Rename { from: FsPath, to: FsPath },
    /// Create an empty file unless the path exists (`App::created`).
    CreateFile(FsPath),
    /// Create a directory unless the path exists (`App::created`).
    CreateDir(FsPath),
    /// Find out what the highlighted path is (`App::delete_probed`).
    ProbeDelete(FsPath),
    /// Remove an empty directory (`App::removed`).
    RemoveDir(FsPath),
    /// Remove a file (`App::removed`).
    RemoveFile(FsPath),
    /// Remove a directory and all it holds (`App::removed`).
    RemoveAll(FsPath),
    /// Remove each path, a tree for a directory (`App::delete_selection`).
    DeleteEach(Vec<FsPath>),
    /// Copy, or move, each path (`App::finish_paste`); `total` counts the
    /// register, including paths that have no name to paste under.
    Paste { mode: PasteMode, items: Vec<Transfer>, total: usize },
}

/// The number of `true` results.
pub open spec fn successes(r: Seq<bool>) -> nat
    decreases r.len(),
{
    if r.len() == 0 {
        0
    } else {
        successes(r.drop_last()) + if r.last() { 1nat } else { 0nat }
    }
}

proof fn lemma_successes_bound(r: Seq<bool>)
    ensures
        successes(r) <= r.len(),
    decreases r.len(),
{
    if r.len() > 0 {
        lemma_successes_bound(r.drop_last());
    }
}

/// Counts the operations that succeeded.
pub fn count_successes(results: &Vec<bool>) -> (r: usize)
    ensures
        r == successes(results@),
{
    let mut n: usize = 0;
    let mut i: usize = 0;
    while i < results.len()
        invariant
            i <= results@.len(),
            n == successes(results@.subrange(0, i as int)),
        decreases results.len() - i,
    {
        proof {
            assert(results@.subrange(0, i + 1).drop_last() =~= results@.subrange(0, i as int));
            lemma_successes_bound(results@.subrange(0, i as int));
        }
        if results[i] {
            n = n + 1;
        }
        i = i + 1;
    }
    assert(results@.subrange(0, results@.len() as int) =~= results@);
    n
}

/// Documents, images and videos have a viewer; text and the rest have none.
pub open spec fn viewer_of(kind: FileKind) -> Option<Viewer> {
    match kind {
        FileKind::Document => Some(Viewer::Document),
        FileKind::Image => Some(Viewer::Image),
        FileKind::Video => Some(Viewer::Video),
        _ => None,
    }
}

/// The viewer that opens a file of the given kind, if one does.
pub fn viewer_for(kind: FileKind) -> (r: Option<Viewer>)
    ensures
        r == viewer_of(kind),
{
    match kind {
        FileKind::Document => Some(Viewer::Document),
        FileKind::Image => Some(Viewer::Image),
        FileKind::Video => Some(Viewer::Video),
        _ => None,
    }
}

pub open spec fn effect_removes_tree(e: Effect) -> Option<Seq<Seq<char>>> {
    match e {
        Effect::RemoveAll(p) => Some(p@),
        _ => None,
    }
}

pub open spec fn effect_open_path(e: Effect) -> Option<Seq<Seq<char>>> {
    match e {
        Effect::Open(p) => Some(p@),
        _ => None,
    }
}

pub open spec fn effect_rename(e: Effect) -> Option<(Seq<Seq<char>>, Seq<Seq<char>>)> {
    match e {
        Effect::Rename { from, to } => Some((from@, to@)),
        _ => None,
    }
}

/// The path a create request names, and whether it is for a directory.
pub open spec fn effect_create(e: Effect) -> Option<(bool, Seq<Seq<char>>)> {
    match e {
        Effect::CreateFile(p) => Some((false, p@)),
        Effect::CreateDir(p) => Some((true, p@)),
        _ => None,
    }
}

pub open spec fn effect_delete_each(e: Effect) -> Option<Seq<Seq<Seq<char>>>> {
    match e {
        Effect::DeleteEach(v) => Some(path_views(v@)),
        _ => None,
    }
}

pub open spec fn effect_probe(e: Effect) -> Option<Seq<Seq<char>>> {
    match e {
        Effect::ProbeDelete(p) => Some(p@),
        _ => None,
    }
}

pub open spec fn effect_remove_dir(e: Effect) -> Option<Seq<Seq<char>>> {
    match e {
        Effect::RemoveDir(p) => Some(p@),
        _ => None,
    }
}

pub open spec fn effect_remove_file(e: Effect) -> Option<Seq<Seq<char>>> {
    match e {
        Effect::RemoveFile(p) => Some(p@),
        _ => None,
    }
}

pub open spec fn effect_deletes(e: Effect) -> bool {
    match e {
        Effect::RemoveAll(_) | Effect::RemoveDir(_) | Effect::RemoveFile(_) | Effect::DeleteEach(_) => true,
        _ => false,
    }
}

pub open spec fn effect_paste_sources(e: Effect) -> Seq<Seq<Seq<char>>> {
    match e {
        Effect::Paste { items, .. } => items@.map_values(|t: Transfer| t.from@),
        _ => Seq::empty(),
    }
}

/// The paths that have a name to paste under, in order.
pub open spec fn named_paths(s: Seq<Seq<Seq<char>>>) -> Seq<Seq<Seq<char>>> {
    s.filter(|p: Seq<Seq<char>>| p.len() > 0)
}

pub open spec fn register_paths(r: Register) -> Seq<Seq<Seq<char>>> {
    path_views(r.register@)
}

} // verus!
