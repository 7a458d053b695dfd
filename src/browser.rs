use vstd::prelude::*;
use crate::column::{next_cursor, prev_cursor, StatefulList};
use crate::effect::{effect_open_path, Config, Effect, FileKind, Message, PasteMode, Register, Slot, Viewer};
use crate::entry::{
    contains_path, entry_models, entry_paths, get_item_index, path_views, Entry, NodeKind,
    RawEntry,
};
use crate::finder::{fuzzy_find, is_best_match, is_first_prefixed, lower_of, lower_each, prefix_find};
use crate::listing::{is_stable_sort_of, list, shown_models, ListOrder};
use crate::mode::{mode_text, InputMode};
use crate::path::{name_of, parent_of, FsPath};

verus! {

/// What `humansize::format_size` with its decimal options makes of a byte count.
pub uninterp spec fn decimal_size(n: u64) -> Seq<char>;

/// Relies on `humansize::format_size` with `humansize::DECIMAL`: the text
/// depends on the byte count alone.
#[verifier::external_body]
fn format_decimal_size(n: u64) -> (r: String)
    ensures
        r@ == decimal_size(n),
{
    humansize::format_size(n, humansize::DECIMAL)
}

/// The status line's right half: the highlighted entry's size and its
/// position (one-based) among the entries of the working directory.
pub struct Metadata {
    pub size: String,
    pub position: Option<(usize, usize)>,
}

/// A directory listing the browser needs before it can show a pane.
pub struct ListRequest {
    pub slot: Slot,
    pub dir: FsPath,
}

/// The browser: three panes, the working directory, the modal state, the
/// transfer register and the tag set.
///
/// Panes are filled from listings that the caller reads on request
/// (`next_request`, `supply_listing`); a pane marked stale waits for one.
pub struct App {
    pub left_column: StatefulList<Entry>,
    pub middle_column: StatefulList<Entry>,
    pub right_column: StatefulList<Entry>,
    pub orderby: ListOrder,
    pub pwd: FsPath,
    pub show_hidden: bool,
    pub message: Message,
    pub metadata: Metadata,
    pub input_mode: InputMode,
    pub yank_register: Register,
    pub config: Config,
    pub stale_left: bool,
    pub stale_middle: bool,
    pub stale_right: bool,
    /// A path the middle pane's cursor should land on when it is next listed.
    pub focus: Option<FsPath>,
}

pub open spec fn cursor_of(c: StatefulList<Entry>) -> int {
    match c.selected {
        Some(i) => i as int,
        None => 0,
    }
}

/// The entry under the cursor, the first one when there is no cursor.
pub open spec fn highlighted(c: StatefulList<Entry>) -> Option<Entry> {
    if 0 <= cursor_of(c) < c.items@.len() {
        Some(c.items@[cursor_of(c)])
    } else {
        None
    }
}

pub open spec fn highlighted_dir(c: StatefulList<Entry>) -> Option<Seq<Seq<char>>> {
    match highlighted(c) {
        Some(e) => if e.path.kind == NodeKind::Dir { Some(e.path.path@) } else { None },
        None => None,
    }
}

/// The directory a pane is listed from, if it has one.
pub open spec fn pane_dir(s: App, slot: Slot) -> Option<Seq<Seq<char>>> {
    match slot {
        Slot::Left => parent_of(s.pwd@),
        Slot::Middle => Some(s.pwd@),
        Slot::Right => highlighted_dir(s.middle_column),
    }
}

/// `items` is what the browser's policy makes of `raw` read from `dir`.
pub open spec fn is_listing(s: App, dir: Seq<Seq<char>>, raw: Seq<RawEntry>, items: Seq<Entry>) -> bool {
    is_stable_sort_of(
        entry_models(items),
        shown_models(dir, raw, s.show_hidden, path_views(s.config.tags@)),
        s.orderby,
    )
}

/// The first index whose path is `p`.
pub open spec fn is_first_index(paths: Seq<Seq<Seq<char>>>, p: Seq<Seq<char>>, r: Option<usize>) -> bool {
    match r {
        None => !paths.contains(p),
        Some(i) => i < paths.len() && paths[i as int] == p && forall|k: int|
            0 <= k < i ==> paths[k] != p,
    }
}

/// Nothing but the panes, the working directory and the stale marks differ.
pub open spec fn same_settings(s: App, t: App) -> bool {
    &&& t.orderby == s.orderby
    &&& t.show_hidden == s.show_hidden
    &&& t.input_mode == s.input_mode
    &&& t.yank_register == s.yank_register
    &&& t.config == s.config
}

/// `t` is `s` after entering the highlighted directory.
pub open spec fn descended(s: App, t: App) -> bool {
    &&& highlighted_dir(s.middle_column) == Some(t.pwd@)
    &&& t.left_column == s.middle_column
    &&& if s.stale_right {
        t.middle_column.items@.len() == 0 && t.middle_column.selected.is_none()
    } else {
        t.middle_column == s.right_column
    }
    &&& t.right_column.items@.len() == 0
    &&& t.right_column.selected.is_none()
    &&& t.stale_left == s.stale_middle
    &&& t.stale_middle == s.stale_right
    &&& t.stale_right
    &&& same_settings(s, t)
}

/// `t` is `s` after leaving the working directory for its parent, with the
/// cursor on the directory that was left.
pub open spec fn ascended(s: App, t: App) -> bool {
    &&& parent_of(s.pwd@) == Some(t.pwd@)
    &&& t.right_column == s.middle_column
    &&& t.middle_column.items == s.left_column.items
    &&& is_first_index(entry_paths(s.left_column.items@), s.pwd@, t.middle_column.selected)
    &&& t.left_column.items@.len() == 0
    &&& t.stale_left
    &&& t.stale_middle == s.stale_left
    &&& t.stale_right == (s.stale_middle || highlighted_dir(t.middle_column) != Some(s.pwd@))
    &&& same_settings(s, t)
}

/// `t` is `s` with the right pane listed from `raw`.
pub open spec fn right_supplied(s: App, raw: Seq<RawEntry>, t: App) -> bool {
    &&& match highlighted_dir(s.middle_column) {
        Some(d) => is_listing(s, d, raw, t.right_column.items@),
        None => t.right_column.items@.len() == 0,
    }
    &&& t.right_column.selected == if t.right_column.items@.len() > 0 { Some(0usize) } else { None }
    &&& t.left_column == s.left_column
    &&& t.middle_column == s.middle_column
    &&& t.pwd == s.pwd
    &&& t.stale_left == s.stale_left
    &&& t.stale_middle == s.stale_middle
    &&& !t.stale_right
    &&& same_settings(s, t)
}

/// `t` and `r` are what moving right makes of `s`: the highlighted directory
/// is entered, the highlighted file is asked to be opened.
pub open spec fn went_right(s: App, t: App, r: Effect) -> bool {
    match highlighted(s.middle_column) {
        Some(e) => if e.path.kind == NodeKind::Dir {
            descended(s, t) && r == Effect::Nothing
        } else if e.path.kind == NodeKind::File {
            t == s && effect_open_path(r) == Some(e.path.path@)
        } else {
            t == s && r == Effect::Nothing
        },
        None => t == (App { message: Message::NothingSelected, ..s }) && r == Effect::Nothing,
    }
}

/// In `m`, the cursor of `s`'s middle pane stands on the best match for the
/// query `q`, or on the first row when nothing matches.
pub open spec fn find_landed(s: App, q: Seq<char>, m: App) -> bool {
    let names = lower_each(entry_names(s.middle_column.items@));
    &&& m.middle_column.items == s.middle_column.items
    &&& m.pwd == s.pwd
    &&& (is_best_match(lower_of(q), names, m.middle_column.selected) || (is_best_match(
        lower_of(q),
        names,
        None,
    ) && m.middle_column.selected == if s.middle_column.items@.len() > 0 {
        Some(0usize)
    } else {
        None
    }))
}

/// In `t`, the cursor of `s`'s middle pane stands on the first entry whose
/// name begins with `q`, ignoring case, or on the first row when none does.
pub open spec fn search_landed(s: App, q: Seq<char>, t: App) -> bool {
    let names = lower_each(entry_names(s.middle_column.items@));
    &&& t.middle_column.items == s.middle_column.items
    &&& (is_first_prefixed(lower_of(q), names, t.middle_column.selected) || (is_first_prefixed(
        lower_of(q),
        names,
        None,
    ) && t.middle_column.selected == if s.middle_column.items@.len() > 0 {
        Some(0usize)
    } else {
        None
    }))
}

/// Membership in `new` is membership in `old` with `p` flipped.
pub open spec fn flips(old: Seq<Seq<Seq<char>>>, new: Seq<Seq<Seq<char>>>, p: Seq<Seq<char>>) -> bool {
    forall|x: Seq<Seq<char>>| #[trigger] new.contains(x) == if x == p {
        !old.contains(p)
    } else {
        old.contains(x)
    }
}

/// `new` is `old` with the flag of every entry at path `p` set to `flag`.
pub open spec fn retagged(old: Seq<Entry>, new: Seq<Entry>, p: Seq<Seq<char>>, flag: bool) -> bool {
    &&& new.len() == old.len()
    &&& forall|k: int| 0 <= k < old.len() ==> {
        &&& (#[trigger] new[k]).path == old[k].path
        &&& new[k].preview == old[k].preview
        &&& new[k].tagged == if old[k].path.path@ == p { flag } else { old[k].tagged }
    }
}

/// `t` is `s` after flipping the tag of the highlighted entry's path: in the
/// tag set, and in every listed entry at that path.
pub open spec fn tag_toggled(s: App, t: App) -> bool {
    match s.get_selected_spec() {
        Some(i) => {
            let p = s.middle_column.items@[i as int].path.path@;
            let flag = !tag_set(s).contains(p);
            &&& flips(tag_set(s), tag_set(t), p)
            &&& tag_set(s).no_duplicates() ==> tag_set(t).no_duplicates()
            &&& retagged(s.left_column.items@, t.left_column.items@, p, flag)
            &&& retagged(s.middle_column.items@, t.middle_column.items@, p, flag)
            &&& retagged(s.right_column.items@, t.right_column.items@, p, flag)
            &&& t.left_column.selected == s.left_column.selected
            &&& t.middle_column.selected == s.middle_column.selected
            &&& t.right_column.selected == s.right_column.selected
            &&& t.pwd == s.pwd
            &&& t.stale_left == s.stale_left
            &&& t.stale_middle == s.stale_middle
            &&& t.stale_right == s.stale_right
        },
        None => t == (App { message: Message::NothingSelected, ..s }),
    }
}

/// Every entry lies directly in `dir`.
pub open spec fn all_children(items: Seq<Entry>, dir: Option<Seq<Seq<char>>>) -> bool {
    forall|i: int| 0 <= i < items.len() ==> parent_of((#[trigger] items[i]).path.path@) == dir
}

/// Every entry is flagged exactly when its path is tagged.
pub open spec fn tags_agree(items: Seq<Entry>, tags: Seq<Seq<Seq<char>>>) -> bool {
    forall|i: int| 0 <= i < items.len() ==> (#[trigger] items[i]).tagged == tags.contains(items[i].path.path@)
}

pub open spec fn entry_names(s: Seq<Entry>) -> Seq<Seq<char>> {
    s.map_values(|e: Entry| name_of(e.path.path@))
}

pub open spec fn tag_set(s: App) -> Seq<Seq<Seq<char>>> {
    path_views(s.config.tags@)
}

fn clamp_cursor(sel: Option<usize>, len: usize) -> (r: Option<usize>)
    ensures
        r == match sel {
            Some(i) => if i < len { Some(i) } else { None },
            None => None,
        },
{
    match sel {
        Some(i) => if i < len { Some(i) } else { None },
        None => None,
    }
}

fn first_or_none(len: usize) -> (r: Option<usize>)
    ensures
        r == if len > 0 { Some(0usize) } else { None },
{
    if len > 0 { Some(0) } else { None }
}

impl App {
    /// Cursors point at entries; the middle pane lists the working
    /// directory, the left pane its parent and, once listed, the right pane
    /// the highlighted directory; every flag agrees with the tag set.
    pub open spec fn wf(&self) -> bool {
        &&& self.left_column.wf()
        &&& self.middle_column.wf()
        &&& self.right_column.wf()
        &&& all_children(self.middle_column.items@, Some(self.pwd@))
        &&& all_children(self.left_column.items@, parent_of(self.pwd@))
        &&& !self.stale_right ==> all_children(self.right_column.items@, highlighted_dir(self.middle_column))
        &&& tags_agree(self.left_column.items@, tag_set(*self))
        &&& tags_agree(self.middle_column.items@, tag_set(*self))
        &&& tags_agree(self.right_column.items@, tag_set(*self))
    }

    /// A browser on `pwd` with every pane waiting for its listing.
    pub fn new(pwd: FsPath, show_hidden: bool, config: Config) -> (r: App)
        ensures
            r.wf(),
            r.pwd@ == pwd@,
            r.show_hidden == show_hidden,
            r.config == config,
            r.orderby == ListOrder::DirsFirst,
            r.input_mode == InputMode::Normal,
            r.yank_register.register@.len() == 0,
            r.yank_register.mode == PasteMode::Copy,
            r.stale_left && r.stale_middle && r.stale_right,
            r.middle_column.items@.len() == 0,
    {
        App {
            left_column: StatefulList::empty(),
            middle_column: StatefulList::empty(),
            right_column: StatefulList::empty(),
            orderby: ListOrder::DirsFirst,
            pwd,
            show_hidden,
            message: Message::Empty,
            metadata: Metadata { size: String::new(), position: None },
            input_mode: InputMode::Normal,
            yank_register: Register { register: Vec::new(), mode: PasteMode::Copy },
            config,
            stale_left: true,
            stale_middle: true,
            stale_right: true,
            focus: None,
        }
    }

    /// The index of the highlighted entry of the working directory.
    pub fn get_selected(&self) -> (r: Option<usize>)
        ensures
            match r {
                Some(i) => i == cursor_of(self.middle_column) && i < self.middle_column.items@.len(),
                None => highlighted(self.middle_column).is_none(),
            },
    {
        let i = self.middle_column.cursor_or_first();
        if i < self.middle_column.items.len() {
            Some(i)
        } else {
            None
        }
    }

    /// The path of the highlighted entry.
    pub fn selected_path(&self) -> (r: Option<FsPath>)
        ensures
            match r {
                Some(p) => highlighted(self.middle_column) matches Some(e) && e.path.path@ == p@,
                None => highlighted(self.middle_column).is_none(),
            },
    {
        match self.get_selected() {
            Some(i) => Some(self.middle_column.items[i].path.path.duplicate()),
            None => None,
        }
    }

    fn selected_dir(&self) -> (r: Option<FsPath>)
        ensures
            match r {
                Some(p) => highlighted_dir(self.middle_column) == Some(p@),
                None => highlighted_dir(self.middle_column).is_none(),
            },
    {
        match self.get_selected() {
            Some(i) => if self.middle_column.items[i].path.is_dir() {
                Some(self.middle_column.items[i].path.path.duplicate())
            } else {
                None
            },
            None => None,
        }
    }

    pub fn set_message(&mut self, message: Message)
        ensures
            *final(self) == (App { message, ..*old(self) }),
    {
        self.message = message
    }

    /// The next listing the panes wait for, if any. Panes that have no
    /// directory to list are emptied on the way.
    pub fn next_request(&mut self) -> (r: Option<ListRequest>)
        requires
            old(self).wf(),
        ensures
            final(self).wf(),
            final(self).pwd == old(self).pwd,
            final(self).middle_column == old(self).middle_column,
            final(self).stale_middle == old(self).stale_middle,
            same_settings(*old(self), *final(self)),
            match r {
                Some(q) => {
                    &&& pane_dir(*old(self), q.slot) == Some(q.dir@)
                    &&& q.slot == Slot::Middle ==> old(self).stale_middle
                    &&& q.slot == Slot::Left ==> final(self).stale_left
                    &&& q.slot == Slot::Right ==> final(self).stale_right
                },
                None => !final(self).stale_left && !final(self).stale_middle && !final(self).stale_right,
            },
            !old(self).stale_left ==> final(self).left_column == old(self).left_column,
            !old(self).stale_right ==> final(self).right_column == old(self).right_column,
            old(self).stale_left && !final(self).stale_left ==> parent_of(old(self).pwd@).is_none()
                && final(self).left_column.items@.len() == 0,
            old(self).stale_right && !final(self).stale_right ==> highlighted_dir(
                old(self).middle_column,
            ).is_none() && final(self).right_column.items@.len() == 0,
    {
        if self.stale_middle {
            return Some(ListRequest { slot: Slot::Middle, dir: self.pwd.duplicate() });
        }
        if self.stale_left {
            match self.pwd.parent() {
                Some(p) => {
                    return Some(ListRequest { slot: Slot::Left, dir: p });
                },
                None => {
                    self.left_column = StatefulList::empty();
                    self.stale_left = false;
                },
            }
        }
        if self.stale_right {
            match self.selected_dir() {
                Some(d) => {
                    return Some(ListRequest { slot: Slot::Right, dir: d });
                },
                None => {
                    self.right_column = StatefulList::empty();
                    self.stale_right = false;
                },
            }
        }
        None
    }

    /// Fills a pane from the entries read from its directory. The middle
    /// pane puts its cursor on the focused path when it is listed, else on
    /// the first row; the right pane is then waited for again.
    pub fn supply_listing(&mut self, slot: Slot, raw: &Vec<RawEntry>)
        requires
            old(self).wf(),
        ensures
            final(self).wf(),
            final(self).pwd == old(self).pwd,
            same_settings(*old(self), *final(self)),
            slot == Slot::Middle ==> {
                &&& is_listing(*old(self), old(self).pwd@, raw@, final(self).middle_column.items@)
                &&& forall|i: int| 0 <= i < final(self).middle_column.items@.len() ==> parent_of(
                    (#[trigger] final(self).middle_column.items@[i]).path.path@,
                ) == Some(old(self).pwd@)
                &&& final(self).left_column == old(self).left_column
                &&& final(self).right_column == old(self).right_column
                &&& !final(self).stale_middle
                &&& final(self).stale_right
                &&& final(self).stale_left == old(self).stale_left
                &&& final(self).focus.is_none()
                &&& (old(self).focus.is_none() || !entry_paths(final(self).middle_column.items@).contains(
                    old(self).focus.unwrap()@,
                )) ==> final(self).middle_column.selected == if final(self).middle_column.items@.len() > 0 {
                    Some(0usize)
                } else {
                    None
                }
                &&& old(self).focus matches Some(f) ==> (entry_paths(final(self).middle_column.items@).contains(f@)
                    ==> is_first_index(entry_paths(final(self).middle_column.items@), f@, final(self).middle_column.selected))
            },
            slot == Slot::Left ==> {
                &&& match parent_of(old(self).pwd@) {
                    Some(d) => is_listing(*old(self), d, raw@, final(self).left_column.items@),
                    None => final(self).left_column.items@.len() == 0,
                }
                &&& final(self).middle_column == old(self).middle_column
                &&& final(self).right_column == old(self).right_column
                &&& !final(self).stale_left
                &&& final(self).stale_middle == old(self).stale_middle
                &&& final(self).stale_right == old(self).stale_right
            },
            slot == Slot::Right ==> right_supplied(*old(self), raw@, *final(self)),
    {
        match slot {
            Slot::Middle => {
                let items = list(&self.pwd, raw, self.show_hidden, self.orderby, &self.config.tags);
                let n = items.len();
                let found = match &self.focus {
                    Some(f) => get_item_index(f, &items),
                    None => None,
                };
                proof {
                    if let Some(i) = found {
                        assert(entry_paths(items@)[i as int] == self.focus.unwrap()@);
                    }
                }
                let sel = match found {
                    Some(i) => Some(i),
                    None => first_or_none(n),
                };
                self.middle_column = StatefulList { items, selected: sel };
                self.stale_middle = false;
                self.stale_right = true;
                self.focus = None;
            },
            Slot::Left => {
                match self.pwd.parent() {
                    Some(p) => {
                        let items = list(&p, raw, self.show_hidden, self.orderby, &self.config.tags);
                        let sel = clamp_cursor(self.left_column.selected, items.len());
                        self.left_column = StatefulList { items, selected: sel };
                    },
                    None => {
                        self.left_column = StatefulList::empty();
                    },
                }
                self.stale_left = false;
            },
            Slot::Right => {
                match self.selected_dir() {
                    Some(d) => {
                        let items = list(&d, raw, self.show_hidden, self.orderby, &self.config.tags);
                        let sel = first_or_none(items.len());
                        self.right_column = StatefulList { items, selected: sel };
                    },
                    None => {
                        self.right_column = StatefulList::empty();
                    },
                }
                self.stale_right = false;
            },
        }
    }

    pub fn refresh_left_column(&mut self)
        ensures
            *final(self) == (App { stale_left: true, ..*old(self) }),
    {
        self.stale_left = true;
    }

    pub fn refresh_middle_column(&mut self)
        ensures
            *final(self) == (App { stale_middle: true, ..*old(self) }),
    {
        self.stale_middle = true;
    }

    pub fn refresh_right_column(&mut self)
        ensures
            *final(self) == (App { stale_right: true, ..*old(self) }),
    {
        self.stale_right = true;
    }

    pub fn refresh_all(&mut self)
        ensures
            *final(self) == (App { stale_left: true, stale_middle: true, stale_right: true, ..*old(self) }),
    {
        self.refresh_left_column();
        self.refresh_middle_column();
        self.refresh_right_column();
    }

    pub fn toggle_hidden_files(&mut self)
        ensures
            *final(self) == (App {
                show_hidden: !old(self).show_hidden,
                stale_left: true,
                stale_middle: true,
                stale_right: true,
                ..*old(self)
            }),
    {
        self.show_hidden = !self.show_hidden;
        self.refresh_all();
    }

    pub fn sort_by(&mut self, by: ListOrder)
        ensures
            *final(self) == (App {
                orderby: by,
                stale_left: true,
                stale_middle: true,
                stale_right: true,
                ..*old(self)
            }),
    {
        self.orderby = by;
        self.refresh_all();
    }

    /// Enters the highlighted directory, or asks to open the highlighted file.
    pub fn go_right(&mut self) -> (r: Effect)
        requires
            old(self).wf(),
        ensures
            final(self).wf(),
            went_right(*old(self), *final(self), r),
    {
        match self.get_selected() {
            Some(i) => {
                let kind = self.middle_column.items[i].path.kind;
                if kind == NodeKind::Dir {
                    let right_listed = !self.stale_right;
                    assert(parent_of(self.middle_column.items@[i as int].path.path@) == Some(self.pwd@));
                    self.pwd = self.middle_column.items[i].path.path.duplicate();
                    std::mem::swap(&mut self.left_column, &mut self.middle_column);
                    std::mem::swap(&mut self.middle_column, &mut self.right_column);
                    self.right_column = StatefulList::empty();
                    if !right_listed {
                        self.middle_column = StatefulList::empty();
                    }
                    self.stale_left = self.stale_middle;
                    self.stale_middle = self.stale_right;
                    self.stale_right = true;
                    Effect::Nothing
                } else if kind == NodeKind::File {
                    Effect::Open(self.middle_column.items[i].path.path.duplicate())
                } else {
                    Effect::Nothing
                }
            },
            None => {
                self.set_message(Message::NothingSelected);
                Effect::Nothing
            },
        }
    }

    /// Reports what the classifier made of the file asked to be opened: the
    /// viewer to start, if any, with a message where there is none.
    pub fn opened(&mut self, kind: FileKind) -> (r: Option<Viewer>)
        ensures
            r == crate::effect::viewer_of(kind),
            *final(self) == (App {
                message: match kind {
                    FileKind::Text => Message::CannotOpenText,
                    FileKind::Other => Message::CannotOpen,
                    _ => old(self).message,
                },
                ..*old(self)
            }),
    {
        match kind {
            FileKind::Text => self.set_message(Message::CannotOpenText),
            FileKind::Other => self.set_message(Message::CannotOpen),
            _ => {},
        }
        crate::effect::viewer_for(kind)
    }

    /// Leaves the working directory for its parent, keeping the cursor on
    /// the directory that was left. Nothing happens at the root.
    pub fn go_left(&mut self)
        requires
            old(self).wf(),
        ensures
            final(self).wf(),
            parent_of(old(self).pwd@).is_some() ==> ascended(*old(self), *final(self))
                && final(self).message == Message::Empty,
            parent_of(old(self).pwd@).is_none() ==> *final(self) == *old(self),
    {
        match self.pwd.parent() {
            Some(parent) => {
                let parent_index = get_item_index(&self.pwd, &self.left_column.items);
                let lands_on_dir = match parent_index {
                    Some(i) => self.left_column.items[i].path.kind == NodeKind::Dir,
                    None => false,
                };
                let ghost old_pwd = self.pwd@;
                let ghost left_items = self.left_column.items@;
                proof {
                    if parent_index.is_none() && left_items.len() > 0 {
                        assert(entry_paths(left_items)[0] == left_items[0].path.path@);
                    }
                }
                std::mem::swap(&mut self.right_column, &mut self.middle_column);
                std::mem::swap(&mut self.middle_column, &mut self.left_column);
                self.left_column = StatefulList::empty();
                self.middle_column.selected = parent_index;
                self.pwd = parent;
                self.stale_right = self.stale_middle || !lands_on_dir;
                proof {
                    let c = cursor_of(self.middle_column);
                    if 0 <= c < left_items.len() {
                        assert(self.middle_column.items@[c] == left_items[c]);
                    }
                    assert(lands_on_dir == (highlighted_dir(self.middle_column) == Some(old_pwd)));
                }
                self.stale_middle = self.stale_left;
                self.stale_left = true;
                self.set_message(Message::Empty);
            },
            None => {},
        }
    }

    pub fn go_down(&mut self)
        requires
            old(self).wf(),
        ensures
            final(self).wf(),
            final(self).middle_column.items == old(self).middle_column.items,
            final(self).middle_column.selected == next_cursor(
                old(self).middle_column.selected,
                old(self).middle_column.items@.len(),
            ),
            final(self).stale_right,
            final(self).message == Message::Empty,
            final(self).pwd == old(self).pwd,
            final(self).left_column == old(self).left_column,
            same_settings(*old(self), *final(self)),
    {
        self.middle_column.next();
        self.refresh_right_column();
        self.set_message(Message::Empty);
    }

    pub fn go_up(&mut self)
        requires
            old(self).wf(),
        ensures
            final(self).wf(),
            final(self).middle_column.items == old(self).middle_column.items,
            final(self).middle_column.selected == prev_cursor(
                old(self).middle_column.selected,
                old(self).middle_column.items@.len(),
            ),
            final(self).stale_right,
            final(self).message == Message::Empty,
            final(self).pwd == old(self).pwd,
            final(self).left_column == old(self).left_column,
            same_settings(*old(self), *final(self)),
    {
        self.middle_column.prev();
        self.refresh_right_column();
        self.set_message(Message::Empty);
    }

    /// Puts the cursor on the first entry, or on the last one.
    pub fn go_to_end(&mut self, last: bool)
        requires
            old(self).wf(),
        ensures
            final(self).wf(),
            final(self).middle_column.items == old(self).middle_column.items,
            final(self).middle_column.selected == if old(self).middle_column.items@.len() == 0 {
                None
            } else if last {
                Some((old(self).middle_column.items@.len() - 1) as usize)
            } else {
                Some(0usize)
            },
            final(self).stale_right,
            final(self).message == Message::Empty,
            final(self).pwd == old(self).pwd,
            same_settings(*old(self), *final(self)),
    {
        let n = self.middle_column.items.len();
        self.middle_column.selected = if n == 0 {
            None
        } else if last {
            Some(n - 1)
        } else {
            Some(0)
        };
        self.refresh_right_column();
        self.set_message(Message::Empty);
    }

    /// Records the highlighted entry's size (where it could be read) and
    /// its position in the working directory.
    pub fn set_metadata(&mut self, size: Option<u64>)
        ensures
            final(self).metadata.size@ == match size {
                Some(n) => decimal_size(n),
                None => Seq::<char>::empty(),
            },
            final(self).metadata.position == match old(self).middle_column.selected {
                Some(i) => if i < old(self).middle_column.items@.len() {
                    Some(((i + 1) as usize, old(self).middle_column.items@.len() as usize))
                } else {
                    None
                },
                None => None,
            },
            *final(self) == (App { metadata: final(self).metadata, ..*old(self) }),
    {
        let text = match size {
            Some(n) => format_decimal_size(n),
            None => String::new(),
        };
        let position = match self.middle_column.selected {
            Some(i) => if i < self.middle_column.items.len() {
                Some((i + 1, self.middle_column.items.len()))
            } else {
                None
            },
            None => None,
        };
        self.metadata = Metadata { size: text, position };
    }

    /// The names of the working directory's entries, in listing order.
    pub fn middle_names(&self) -> (r: Vec<String>)
        ensures
            crate::finder::string_views(r@) == entry_names(self.middle_column.items@),
    {
        let items = &self.middle_column.items;
        let mut r: Vec<String> = Vec::new();
        let mut i: usize = 0;
        while i < items.len()
            invariant
                i <= items@.len(),
                r@.len() == i,
                forall|k: int| 0 <= k < i ==> r@[k]@ == name_of(items@[k].path.path@),
            decreases items.len() - i,
        {
            r.push(items[i].path.path.name());
            i = i + 1;
        }
        assert(crate::finder::string_views(r@) =~= entry_names(items@));
        r
    }

    /// Flips the highlighted entry's tag, in the entry and in the tag set:
    /// a tagged path leaves the set (every copy of it), another one joins it.
    pub fn toggle_tag_item(&mut self)
        requires
            old(self).wf(),
        ensures
            final(self).wf(),
            tag_toggled(*old(self), *final(self)),
    {
        match self.get_selected() {
            Some(i) => {
                let p = self.middle_column.items[i].path.path.duplicate();
                let was = contains_path(&self.config.tags, &p);
                if was {
                    let mut old_tags: Vec<FsPath> = Vec::new();
                    std::mem::swap(&mut old_tags, &mut self.config.tags);
                    self.config.tags = without_path(old_tags, &p);
                } else {
                    let ghost before = path_views(self.config.tags@);
                    self.config.tags.push(p.duplicate());
                    proof {
                        assert(path_views(self.config.tags@) =~= before.push(p@));
                        if before.no_duplicates() {
                            assert forall|a: int, b: int| 0 <= a < b < before.len() + 1 implies
                                before.push(p@)[a] != before.push(p@)[b] by {
                                if b == before.len() {
                                    assert(before.push(p@)[a] == before[a]);
                                    assert(!before.contains(p@));
                                }
                            }
                        }
                        assert forall|x: Seq<Seq<char>>| #[trigger] path_views(self.config.tags@).contains(x)
                            == if x == p@ { !before.contains(p@) } else { before.contains(x) } by {
                            if before.push(p@).contains(x) && x != p@ {
                                let k = choose|k: int| 0 <= k < before.len() + 1 && before.push(p@)[k] == x;
                                assert(k < before.len());
                            }
                            if before.contains(x) {
                                let k = choose|k: int| 0 <= k < before.len() && before[k] == x;
                                assert(before.push(p@)[k] == x);
                            }
                            if x == p@ {
                                assert(before.push(p@)[before.len() as int] == x);
                            }
                        }
                    }
                }
                let flag = !was;
                let ghost s0 = *old(self);
                retag(&mut self.left_column.items, &p, flag);
                retag(&mut self.middle_column.items, &p, flag);
                retag(&mut self.right_column.items, &p, flag);
                proof {
                    let c = cursor_of(self.middle_column);
                    assert(self.middle_column.items@[c].path == s0.middle_column.items@[c].path);
                    assert(highlighted_dir(self.middle_column) == highlighted_dir(s0.middle_column));
                }
            },
            None => self.set_message(Message::NothingSelected),
        }
    }

    pub open spec fn get_selected_spec(&self) -> Option<usize> {
        if 0 <= cursor_of(self.middle_column) < self.middle_column.items@.len() {
            Some(cursor_of(self.middle_column) as usize)
        } else {
            None
        }
    }

    /// Incremental search: with the typed text `/p`, the cursor goes to the
    /// first entry whose name begins with `p`, ignoring case.
    pub fn inc_search(&mut self) -> (r: Option<usize>)
        requires
            old(self).wf(),
        ensures
            final(self).wf(),
            ({
                let t = mode_text(old(self).input_mode);
                if t.len() > 0 && t[0] == '/' {
                    &&& is_first_prefixed(
                        lower_of(t.subrange(1, t.len() as int)),
                        lower_each(entry_names(old(self).middle_column.items@)),
                        r,
                    )
                    &&& final(self).middle_column.items == old(self).middle_column.items
                    &&& final(self).middle_column.selected == r
                    &&& final(self).stale_middle
                } else {
                    r.is_none() && *final(self) == *old(self)
                }
            }),
            final(self).pwd == old(self).pwd,
            same_settings(*old(self), *final(self)),
    {
        let pattern = self.input_mode.get_str();
        let chars = crate::finder::chars_of(pattern.as_str());
        if chars.len() == 0 || chars[0] != '/' {
            return None;
        }
        let rest = string_of(&chars, 1);
        let names = self.middle_names();
        let index = prefix_find(rest.as_str(), &names);
        self.select_and_relist(index);
        index
    }

    /// Interactive find: with the typed text `:find q`, the cursor goes to
    /// the entry whose name best matches `q` under the greedy scoring,
    /// ignoring case.
    pub fn inc_find(&mut self) -> (r: Option<usize>)
        requires
            old(self).wf(),
        ensures
            final(self).wf(),
            ({
                let t = mode_text(old(self).input_mode);
                if is_find_text(t) {
                    &&& is_best_match(
                        lower_of(t.subrange(6, t.len() as int)),
                        lower_each(entry_names(old(self).middle_column.items@)),
                        r,
                    )
                    &&& final(self).middle_column.items == old(self).middle_column.items
                    &&& final(self).middle_column.selected == r
                    &&& final(self).stale_middle
                } else {
                    r.is_none() && *final(self) == *old(self)
                }
            }),
            final(self).pwd == old(self).pwd,
            same_settings(*old(self), *final(self)),
    {
        let pattern = self.input_mode.get_str();
        let chars = crate::finder::chars_of(pattern.as_str());
        if !has_find_prefix(&chars) {
            return None;
        }
        let rest = string_of(&chars, 6);
        let names = self.middle_names();
        let index = fuzzy_find(rest.as_str(), &names);
        self.select_and_relist(index);
        index
    }

    fn select_and_relist(&mut self, index: Option<usize>)
        requires
            old(self).wf(),
            index matches Some(i) ==> i < old(self).middle_column.items@.len(),
        ensures
            final(self).wf(),
            *final(self) == (App {
                middle_column: StatefulList { items: old(self).middle_column.items, selected: index },
                stale_middle: true,
                stale_right: true,
                focus: final(self).focus,
                ..*old(self)
            }),
    {
        self.middle_column.selected = index;
        self.stale_right = true;
        self.focus = match index {
            Some(i) => Some(self.middle_column.items[i].path.path.duplicate()),
            None => None,
        };
        self.refresh_middle_column();
    }
}

/// The typed text begins with `:find `.
pub open spec fn is_find_text(t: Seq<char>) -> bool {
    t.len() >= 6 && t[0] == ':' && t[1] == 'f' && t[2] == 'i' && t[3] == 'n' && t[4] == 'd' && t[5]
        == ' '
}

fn has_find_prefix(c: &Vec<char>) -> (r: bool)
    ensures
        r == is_find_text(c@),
{
    c.len() >= 6 && c[0] == ':' && c[1] == 'f' && c[2] == 'i' && c[3] == 'n' && c[4] == 'd' && c[5]
        == ' '
}

/// The characters of `c` from `from` on, as a string.
pub fn string_of(c: &Vec<char>, from: usize) -> (r: String)
    requires
        from <= c@.len(),
    ensures
        r@ == c@.subrange(from as int, c@.len() as int),
{
    let mut r = String::new();
    let mut i = from;
    while i < c.len()
        invariant
            from <= i <= c@.len(),
            r@ == c@.subrange(from as int, i as int),
        decreases c.len() - i,
    {
        r.push(c[i]);
        i = i + 1;
        assert(r@ =~= c@.subrange(from as int, i as int));
    }
    r
}

/// Sets the flag of every entry at path `p`.
fn retag(items: &mut Vec<Entry>, p: &FsPath, flag: bool)
    ensures
        retagged(old(items)@, final(items)@, p@, flag),
{
    let mut k: usize = 0;
    while k < items.len()
        invariant
            k <= items@.len(),
            items@.len() == old(items)@.len(),
            forall|j: int| 0 <= j < k ==> {
                &&& (#[trigger] items@[j]).path == old(items)@[j].path
                &&& items@[j].preview == old(items)@[j].preview
                &&& items@[j].tagged == if old(items)@[j].path.path@ == p@ { flag } else { old(items)@[j].tagged }
            },
            forall|j: int| k <= j < items@.len() ==> items@[j] == old(items)@[j],
        decreases items.len() - k,
    {
        if items[k].path.path.same(p) {
            items[k].tagged = flag;
        }
        k = k + 1;
    }
}

/// `v` without any copy of `p`, the others in their order.
fn without_path(v: Vec<FsPath>, p: &FsPath) -> (r: Vec<FsPath>)
    ensures
        flips(path_views(v@), path_views(r@), p@) || !path_views(v@).contains(p@),
        forall|x: Seq<Seq<char>>| #[trigger] path_views(r@).contains(x) == (x != p@ && path_views(v@).contains(x)),
        path_views(v@).no_duplicates() ==> path_views(r@).no_duplicates(),
{
    let mut r: Vec<FsPath> = Vec::new();
    let mut i: usize = 0;
    while i < v.len()
        invariant
            i <= v@.len(),
            forall|x: Seq<Seq<char>>| #[trigger] path_views(r@).contains(x) == (x != p@ && path_views(v@.subrange(0, i as int)).contains(x)),
            path_views(v@).no_duplicates() ==> path_views(r@).no_duplicates(),
        decreases v.len() - i,
    {
        let ghost before = path_views(r@);
        let ghost pre = path_views(v@.subrange(0, i as int));
        if !v[i].same(p) {
            r.push(v[i].duplicate());
            proof {
                if path_views(v@).no_duplicates() {
                    assert(!pre.contains(v@[i as int]@)) by {
                        if pre.contains(v@[i as int]@) {
                            let k = choose|k: int| 0 <= k < pre.len() && pre[k] == v@[i as int]@;
                            assert(path_views(v@)[k] == path_views(v@)[i as int]);
                        }
                    }
                    assert(!before.contains(v@[i as int]@));
                    assert(path_views(r@) =~= before.push(v@[i as int]@));
                    assert forall|a: int, b: int| 0 <= a < b < path_views(r@).len() implies
                        path_views(r@)[a] != path_views(r@)[b] by {
                        if b == before.len() {
                            assert(path_views(r@)[a] == before[a]);
                        } else {
                            assert(path_views(r@)[a] == before[a] && path_views(r@)[b] == before[b]);
                        }
                    }
                }
            }
        }
        proof {
            let next = path_views(v@.subrange(0, i + 1));
            assert(next =~= pre.push(v@[i as int]@));
            assert forall|x: Seq<Seq<char>>| #[trigger] path_views(r@).contains(x) == (x != p@ && next.contains(x)) by {
                if next.contains(x) {
                    let k = choose|k: int| 0 <= k < next.len() && next[k] == x;
                    if k < pre.len() {
                        assert(pre[k] == x);
                    }
                }
                if pre.contains(x) {
                    let k = choose|k: int| 0 <= k < pre.len() && pre[k] == x;
                    assert(next[k] == x);
                }
                assert(next[i as int] == v@[i as int]@);
                if v@[i as int]@ != p@ {
                    assert(path_views(r@) =~= before.push(v@[i as int]@));
                    if path_views(r@).contains(x) {
                        let k = choose|k: int| 0 <= k < path_views(r@).len() && path_views(r@)[k] == x;
                        if k < before.len() {
                            assert(before[k] == x);
                        }
                    }
                    if before.contains(x) {
                        let k = choose|k: int| 0 <= k < before.len() && before[k] == x;
                        assert(path_views(r@)[k] == x);
                    }
                    assert(path_views(r@)[before.len() as int] == v@[i as int]@);
                } else {
                    assert(path_views(r@) == before);
                }
            }
        }
        i = i + 1;
    }
    assert(v@.subrange(0, v@.len() as int) =~= v@);
    r
}

} // verus!
