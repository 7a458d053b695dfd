use vstd::prelude::*;
use vstd::string::StringExecFns;
use crate::browser::{find_landed, search_landed, highlighted, string_of, went_right, App};
use crate::column::StatefulList;
use crate::effect::{
    effect_create, effect_delete_each, effect_paste_sources, named_paths, effect_probe, effect_remove_dir, effect_remove_file, effect_open_path, effect_removes_tree, effect_rename,
    register_paths, successes, count_successes, Cmd, CreateOutcome, DeleteProbe, Effect, Message,
    PasteMode, Register, Removal, Transfer,
};
use crate::entry::{path_views, NodeKind};
use crate::finder::{chars_of, first_at, lemma_first_at, scan_for};
use crate::listing::ListOrder;
use crate::mode::{duplicate_paths, mode_text, Confirm, InputMode};
use crate::path::{child_of, name_of, FsPath};

verus! {

pub open spec fn word_rename() -> Seq<char> {
    seq![':', 'r', 'e', 'n', 'a', 'm', 'e']
}

pub open spec fn word_touch() -> Seq<char> {
    seq![':', 't', 'o', 'u', 'c', 'h']
}

pub open spec fn word_mkdir() -> Seq<char> {
    seq![':', 'm', 'k', 'd', 'i', 'r']
}

pub open spec fn word_find() -> Seq<char> {
    seq![':', 'f', 'i', 'n', 'd']
}

pub open spec fn word_q() -> Seq<char> {
    seq![':', 'q']
}

pub open spec fn word_quit() -> Seq<char> {
    seq![':', 'q', 'u', 'i', 't']
}

/// The command that a typed key sequence names, if it names one.
pub open spec fn command_of(s: Seq<char>) -> Option<Cmd> {
    if s.len() != 2 {
        None
    } else if s[0] == 'd' && s[1] == 'D' {
        Some(Cmd::Delete)
    } else if s[0] == 'd' && s[1] == 'd' {
        Some(Cmd::YankMove)
    } else if s[0] == 'y' && s[1] == 'y' {
        Some(Cmd::YankCopy)
    } else if s[0] == 's' {
        if s[1] == 'n' {
            Some(Cmd::Sort(ListOrder::Name))
        } else if s[1] == 'N' {
            Some(Cmd::Sort(ListOrder::NameReverse))
        } else if s[1] == 'c' {
            Some(Cmd::Sort(ListOrder::Created))
        } else if s[1] == 'C' {
            Some(Cmd::Sort(ListOrder::CreatedReverse))
        } else if s[1] == 'm' {
            Some(Cmd::Sort(ListOrder::Modified))
        } else if s[1] == 'M' {
            Some(Cmd::Sort(ListOrder::ModifiedReverse))
        } else if s[1] == 'd' {
            Some(Cmd::Sort(ListOrder::DirsFirst))
        } else if s[1] == 'f' {
            Some(Cmd::Sort(ListOrder::FilesFirst))
        } else {
            None
        }
    } else {
        None
    }
}

/// A key sequence that may still grow into a command.
pub open spec fn is_command_prefix(s: Seq<char>) -> bool {
    s.len() == 0 || (s.len() == 1 && (s[0] == 'd' || s[0] == 'y' || s[0] == 's'))
}

/// Looks a typed key sequence up in the command table: the command it
/// names, and whether it may still grow into one.
pub fn lookup_command(buf: &String) -> (r: (Option<Cmd>, bool))
    ensures
        r.0 == command_of(buf@),
        r.1 == is_command_prefix(buf@),
{
    let c = chars_of(buf.as_str());
    if c.len() == 0 {
        return (None, true);
    }
    if c.len() == 1 {
        return (None, c[0] == 'd' || c[0] == 'y' || c[0] == 's');
    }
    if c.len() != 2 {
        return (None, false);
    }
    let a = c[0];
    let b = c[1];
    let cmd = if a == 'd' && b == 'D' {
        Some(Cmd::Delete)
    } else if a == 'd' && b == 'd' {
        Some(Cmd::YankMove)
    } else if a == 'y' && b == 'y' {
        Some(Cmd::YankCopy)
    } else if a == 's' {
        if b == 'n' {
            Some(Cmd::Sort(ListOrder::Name))
        } else if b == 'N' {
            Some(Cmd::Sort(ListOrder::NameReverse))
        } else if b == 'c' {
            Some(Cmd::Sort(ListOrder::Created))
        } else if b == 'C' {
            Some(Cmd::Sort(ListOrder::CreatedReverse))
        } else if b == 'm' {
            Some(Cmd::Sort(ListOrder::Modified))
        } else if b == 'M' {
            Some(Cmd::Sort(ListOrder::ModifiedReverse))
        } else if b == 'd' {
            Some(Cmd::Sort(ListOrder::DirsFirst))
        } else if b == 'f' {
            Some(Cmd::Sort(ListOrder::FilesFirst))
        } else {
            None
        }
    } else {
        None
    };
    (cmd, false)
}

/// Whether `c[start..end]` spells `w`.
fn span_is(c: &Vec<char>, start: usize, end: usize, w: &Vec<char>) -> (r: bool)
    requires
        start <= end <= c@.len(),
    ensures
        r == (c@.subrange(start as int, end as int) == w@),
{
    if end - start != w.len() {
        return false;
    }
    let mut i: usize = 0;
    while i < w.len()
        invariant
            end - start == w@.len(),
            start <= end <= c@.len(),
            i <= w@.len(),
            forall|k: int| 0 <= k < i ==> c@[start + k] == w@[k],
        decreases w.len() - i,
    {
        if c[start + i] != w[i] {
            assert(c@.subrange(start as int, end as int)[i as int] != w@[i as int]);
            return false;
        }
        i = i + 1;
    }
    assert(c@.subrange(start as int, end as int) =~= w@);
    true
}

fn words() -> (r: (Vec<char>, Vec<char>, Vec<char>, Vec<char>, Vec<char>, Vec<char>))
    ensures
        r.0@ == word_rename(),
        r.1@ == word_touch(),
        r.2@ == word_mkdir(),
        r.3@ == word_find(),
        r.4@ == word_q(),
        r.5@ == word_quit(),
{
    let a = chars_of(":rename");
    let b = chars_of(":touch");
    let c = chars_of(":mkdir");
    let d = chars_of(":find");
    let e = chars_of(":q");
    let f = chars_of(":quit");
    proof {
        reveal_strlit(":rename");
        reveal_strlit(":touch");
        reveal_strlit(":mkdir");
        reveal_strlit(":find");
        reveal_strlit(":q");
        reveal_strlit(":quit");
        assert(a@ =~= word_rename());
        assert(b@ =~= word_touch());
        assert(c@ =~= word_mkdir());
        assert(d@ =~= word_find());
        assert(e@ =~= word_q());
        assert(f@ =~= word_quit());
    }
    (a, b, c, d, e, f)
}

/// `t` and `r` are what deciding a deletion of the highlighted path makes
/// of `s`, given what the path turned out to be.
pub open spec fn delete_decided(s: App, probe: DeleteProbe, t: App, r: Effect) -> bool {
    match highlighted(s.middle_column) {
        Some(e) => match probe {
            DeleteProbe::EmptyDir => t == s && effect_remove_dir(r) == Some(e.path.path@),
            DeleteProbe::File => t == s && effect_remove_file(r) == Some(e.path.path@),
            DeleteProbe::NonEmptyDir => r == Effect::Nothing && t == (App {
                input_mode: InputMode::Confirmation(Confirm::DeleteFolder, 'y'),
                message: Message::ConfirmDeleteFolder,
                ..s
            }),
            DeleteProbe::Other => r == Effect::Nothing && t == (App {
                message: Message::NotHandled,
                stale_middle: true,
                ..s
            }),
        },
        None => t == (App { message: Message::NothingSelected, ..s })
            && r == Effect::Nothing,
    }
}

/// `t` and `r` are what the keystroke `c` makes of `s` while a destructive
/// action waits for confirmation.
pub open spec fn confirm_decided(s: App, c: char, t: App, r: Effect) -> bool {
    match s.input_mode {
        InputMode::Confirmation(Confirm::DeleteFolder, ch) => if c == ch {
            match highlighted(s.middle_column) {
                Some(e) => t == s && effect_removes_tree(r) == Some(e.path.path@),
                None => t == (App { message: Message::NothingSelected, ..s })
                    && r == Effect::Nothing,
            }
        } else {
            t == (App { message: Message::Aborted, ..s }) && r == Effect::Nothing
        },
        InputMode::Confirmation(Confirm::DeleteSelection(v), ch) => if c == ch {
            t == s && effect_delete_each(r) == Some(path_views(v@))
        } else {
            t == (App { message: Message::Aborted, ..s }) && r == Effect::Nothing
        },
        _ => t == s && r == Effect::Nothing,
    }
}

/// `t` and `r` are what asking to delete the highlighted path makes of `s`.
pub open spec fn delete_asked(s: App, t: App, r: Effect) -> bool {
    match highlighted(s.middle_column) {
        Some(e) => t == s && effect_probe(r) == Some(e.path.path@),
        None => t == (App { message: Message::NothingSelected, ..s }) && r == Effect::Nothing,
    }
}

/// `t` is `s` with the marked paths, or else the highlighted one, added to
/// the register in `mode`.
pub open spec fn yanked(s: App, mode: PasteMode, t: App) -> bool {
    &&& t == (App { yank_register: t.yank_register, message: t.message, ..s })
    &&& match s.input_mode {
        InputMode::Select(v) => register_paths(t.yank_register) == register_paths(s.yank_register)
            + path_views(v@) && t.yank_register.mode == mode && t.message == s.message,
        _ => match highlighted(s.middle_column) {
            Some(e) => register_paths(t.yank_register) == register_paths(s.yank_register).push(
                e.path.path@,
            ) && t.yank_register.mode == mode && t.message == Message::InRegister,
            None => t == (App { message: Message::NothingSelected, ..s }),
        },
    }
}

/// `t` and `r` are what running the table command `cmd` makes of `s`.
pub open spec fn command_ran(s: App, cmd: Cmd, t: App, r: Effect) -> bool {
    match cmd {
        Cmd::Delete => delete_asked(s, t, r),
        Cmd::YankMove => yanked(s, PasteMode::Move, t) && r == Effect::Nothing,
        Cmd::YankCopy => yanked(s, PasteMode::Copy, t) && r == Effect::Nothing,
        Cmd::Sort(o) => t == (App {
            orderby: o,
            stale_left: true,
            stale_middle: true,
            stale_right: true,
            ..s
        }) && r == Effect::Nothing,
    }
}

/// `t` and `r` are what running the typed line makes of `s`.
pub open spec fn executed(s: App, t: App, r: Effect) -> bool {
    {
        let line = mode_text(s.input_mode);
        match first_at(line, ' ', 0) {
            Some(sp) => {
                let w = line.subrange(0, sp);
                let a = line.subrange(sp + 1, line.len() as int);
                if w == word_rename() {
                    match highlighted(s.middle_column) {
                        Some(e) => if e.path.path@ == child_of(s.pwd@, a) {
                            t == (App { message: Message::NothingToDo, ..s })
                                && r == Effect::Nothing
                        } else {
                            t == s && effect_rename(r) == Some(
                                (e.path.path@, child_of(s.pwd@, a)),
                            )
                        },
                        None => t == (App {
                            message: Message::NothingSelected,
                            ..s
                        }) && r == Effect::Nothing,
                    }
                } else if w == word_touch() {
                    t == s && effect_create(r) == Some(
                        (false, child_of(s.pwd@, a)),
                    )
                } else if w == word_mkdir() {
                    t == s && effect_create(r) == Some(
                        (true, child_of(s.pwd@, a)),
                    )
                } else if w == word_find() {
                    exists|m: App| #[trigger] find_landed(s, a, m) && went_right(m, t, r)
                } else {
                    t == (App { message: Message::CommandNotFound, ..s })
                        && r == Effect::Nothing
                }
            },
            None => if line.len() > 0 && line[0] == '/' {
                r == Effect::Nothing && t.message == Message::Empty
                    && t.stale_right && t.pwd == s.pwd
                    && search_landed(s, line.subrange(1, line.len() as int), t)
            } else if line == word_q() || line == word_quit() {
                t == (App { message: Message::QuitHint, ..s })
                    && r == Effect::Nothing
            } else {
                t == (App { message: Message::CommandNotRecognized, ..s })
                    && r == Effect::Nothing
            },
        }
    }
}

/// `t` and `r` are what pasting makes of `s`: the register is emptied into
/// one transfer per named path, each to that name under the working directory.
pub open spec fn pasted(s: App, t: App, r: Effect) -> bool {
    &&& t.yank_register.register@.len() == 0
    &&& t.yank_register.mode == s.yank_register.mode
    &&& t == (App { yank_register: t.yank_register, ..s })
    &&& match r {
        Effect::Paste { mode, items, total } => {
            &&& mode == s.yank_register.mode
            &&& total == s.yank_register.register@.len()
            &&& effect_paste_sources(r) == named_paths(register_paths(s.yank_register))
            &&& forall|k: int| 0 <= k < items@.len() ==> (#[trigger] items@[k]).to@ == child_of(
                s.pwd@,
                name_of(items@[k].from@),
            )
        },
        _ => false,
    }
}

impl App {
    fn select_first(&mut self)
        requires
            old(self).wf(),
        ensures
            final(self).wf(),
            *final(self) == (App {
                middle_column: StatefulList {
                    items: old(self).middle_column.items,
                    selected: if old(self).middle_column.items@.len() > 0 { Some(0usize) } else { None },
                },
                stale_right: true,
                ..*old(self)
            }),
    {
        self.middle_column.selected = if self.middle_column.items.len() > 0 {
            Some(0)
        } else {
            None
        };
        self.stale_right = true;
    }

    /// Runs the typed line: `:rename name`, `:touch name`, `:mkdir name`,
    /// `:find query`, or a `/prefix` search. Work on the disk is handed back
    /// as the effect.
    pub fn execute(&mut self) -> (r: Effect)
        requires
            old(self).wf(),
        ensures
            final(self).wf(),
            final(self).input_mode == old(self).input_mode,
            executed(*old(self), *final(self), r),
    {
        let text = self.input_mode.get_str();
        let c = chars_of(text.as_str());
        let (w_rename, w_touch, w_mkdir, w_find, w_q, w_quit) = words();
        let n = c.len();
        match scan_for(&c, ' ', 0) {
            Some(sp) => {
                assert(sp < n);
                let arg = string_of(&c, sp + 1);
                if span_is(&c, 0, sp, &w_rename) {
                    match self.get_selected() {
                        Some(i) => {
                            let src = self.middle_column.items[i].path.path.duplicate();
                            let dst = self.pwd.join(&arg);
                            if src.same(&dst) {
                                self.set_message(Message::NothingToDo);
                                Effect::Nothing
                            } else {
                                Effect::Rename { from: src, to: dst }
                            }
                        },
                        None => {
                            self.set_message(Message::NothingSelected);
                            Effect::Nothing
                        },
                    }
                } else if span_is(&c, 0, sp, &w_touch) {
                    Effect::CreateFile(self.pwd.join(&arg))
                } else if span_is(&c, 0, sp, &w_mkdir) {
                    Effect::CreateDir(self.pwd.join(&arg))
                } else if span_is(&c, 0, sp, &w_find) {
                    let ghost s0 = *self;
                    proof {
                        lemma_first_at(c@, ' ', 0);
                        assert(c@.subrange(0, sp as int) == word_find());
                        assert(c@.subrange(0, sp as int)[0] == ':');
                        assert(c@.subrange(0, sp as int)[1] == 'f');
                        assert(c@.subrange(0, sp as int)[2] == 'i');
                        assert(c@.subrange(0, sp as int)[3] == 'n');
                        assert(c@.subrange(0, sp as int)[4] == 'd');
                        assert(word_find().len() == 5);
                        assert(c@.subrange(0, sp as int).len() == sp);
                        assert(sp == 5);
                        assert(crate::browser::is_find_text(mode_text(self.input_mode)));
                    }
                    if self.inc_find().is_none() {
                        self.select_first();
                    }
                    self.set_message(Message::Empty);
                    self.refresh_right_column();
                    let ghost m = *self;
                    assert(find_landed(s0, c@.subrange(sp + 1, c@.len() as int), m));
                    self.go_right()
                } else {
                    self.set_message(Message::CommandNotFound);
                    Effect::Nothing
                }
            },
            None => {
                if c.len() > 0 && c[0] == '/' {
                    if self.inc_search().is_none() {
                        self.select_first();
                    }
                    self.set_message(Message::Empty);
                    self.refresh_right_column();
                    Effect::Nothing
                } else if span_is(&c, 0, c.len(), &w_q) || span_is(&c, 0, c.len(), &w_quit) {
                    proof {
                        assert(c@.subrange(0, c@.len() as int) =~= c@);
                    }
                    self.set_message(Message::QuitHint);
                    Effect::Nothing
                } else {
                    proof {
                        assert(c@.subrange(0, c@.len() as int) =~= c@);
                    }
                    self.set_message(Message::CommandNotRecognized);
                    Effect::Nothing
                }
            },
        }
    }

    /// Reports how a rename went.
    pub fn renamed(&mut self, ok: bool)
        ensures
            *final(self) == if ok {
                App { message: Message::Renamed, stale_middle: true, ..*old(self) }
            } else {
                App { message: Message::RenameFailed, ..*old(self) }
            },
    {
        if ok {
            self.set_message(Message::Renamed);
            self.refresh_middle_column();
        } else {
            self.set_message(Message::RenameFailed);
        }
    }

    /// Reports how a create request went; a created path gets the cursor
    /// once the pane is listed again.
    pub fn created(&mut self, dir: bool, outcome: CreateOutcome, path: FsPath)
        ensures
            final(self).message == match outcome {
                CreateOutcome::Exists => Message::AlreadyExists,
                CreateOutcome::Created => if dir { Message::DirCreated } else { Message::FileCreated },
                CreateOutcome::Failed => if dir { Message::DirCreateFailed } else { Message::FileCreateFailed },
            },
            outcome == CreateOutcome::Created ==> final(self).stale_middle && final(self).focus.is_some() && final(self).focus.unwrap()@ == path@,
            outcome != CreateOutcome::Created ==> *final(self) == (App { message: final(self).message, ..*old(self) }),
    {
        match outcome {
            CreateOutcome::Exists => self.set_message(Message::AlreadyExists),
            CreateOutcome::Created => {
                self.set_message(if dir { Message::DirCreated } else { Message::FileCreated });
                self.focus = Some(path);
                self.refresh_middle_column();
            },
            CreateOutcome::Failed => self.set_message(
                if dir { Message::DirCreateFailed } else { Message::FileCreateFailed },
            ),
        }
    }

    /// Asks what the highlighted path is, so that it can be deleted.
    pub fn delete_file(&mut self) -> (r: Effect)
        requires
            old(self).wf(),
        ensures
            final(self).wf(),
            delete_asked(*old(self), *final(self), r),
    {
        match self.selected_path() {
            Some(p) => Effect::ProbeDelete(p),
            None => {
                self.set_message(Message::NothingSelected);
                Effect::Nothing
            },
        }
    }

    /// Decides a deletion from what the highlighted path turned out to be:
    /// an empty directory or a file goes at once, a directory with contents
    /// waits for the confirming `y`, anything else is left alone.
    pub fn delete_probed(&mut self, probe: DeleteProbe) -> (r: Effect)
        requires
            old(self).wf(),
        ensures
            final(self).wf(),
            delete_decided(*old(self), probe, *final(self), r),
    {
        match self.selected_path() {
            Some(p) => match probe {
                DeleteProbe::EmptyDir => Effect::RemoveDir(p),
                DeleteProbe::File => Effect::RemoveFile(p),
                DeleteProbe::NonEmptyDir => {
                    self.input_mode = InputMode::Confirmation(Confirm::DeleteFolder, 'y');
                    self.set_message(Message::ConfirmDeleteFolder);
                    Effect::Nothing
                },
                DeleteProbe::Other => {
                    self.set_message(Message::NotHandled);
                    self.refresh_middle_column();
                    Effect::Nothing
                },
            },
            None => {
                self.set_message(Message::NothingSelected);
                Effect::Nothing
            },
        }
    }

    /// Reports how a removal went.
    pub fn removed(&mut self, what: Removal, ok: bool)
        ensures
            *final(self) == (App {
                message: if !ok {
                    if what == Removal::Tree { Message::TreeDeleteFailed } else { Message::DeleteFailed }
                } else {
                    match what {
                        Removal::EmptyDir => Message::EmptyDirDeleted,
                        Removal::File => Message::FileDeleted,
                        Removal::Tree => Message::TreeDeleted,
                    }
                },
                stale_middle: true,
                stale_right: old(self).stale_right || (ok && what == Removal::Tree),
                ..*old(self)
            }),
    {
        if ok {
            match what {
                Removal::EmptyDir => self.set_message(Message::EmptyDirDeleted),
                Removal::File => self.set_message(Message::FileDeleted),
                Removal::Tree => {
                    self.set_message(Message::TreeDeleted);
                    self.refresh_right_column();
                },
            }
        } else if what == Removal::Tree {
            self.set_message(Message::TreeDeleteFailed);
        } else {
            self.set_message(Message::DeleteFailed);
        }
        self.refresh_middle_column();
    }

    /// The confirming keystroke: the pending action runs only when `c` is
    /// the expected character; any other aborts it.
    pub fn confirm(&mut self, c: char) -> (r: Effect)
        requires
            old(self).wf(),
        ensures
            final(self).wf(),
            confirm_decided(*old(self), c, *final(self), r),
    {
        let decided = match &self.input_mode {
            InputMode::Confirmation(confirm, ch) => if c == *ch {
                match confirm {
                    Confirm::DeleteFolder => Some(None),
                    Confirm::DeleteSelection(v) => Some(Some(duplicate_paths(v))),
                }
            } else {
                None
            },
            _ => return Effect::Nothing,
        };
        match decided {
            Some(None) => match self.selected_path() {
                Some(p) => Effect::RemoveAll(p),
                None => {
                    self.set_message(Message::NothingSelected);
                    Effect::Nothing
                },
            },
            Some(Some(v)) => Effect::DeleteEach(v),
            None => {
                self.set_message(Message::Aborted);
                Effect::Nothing
            },
        }
    }

    /// Reports the outcome of deleting each marked path.
    pub fn delete_selection(&mut self, results: &Vec<bool>)
        ensures
            *final(self) == (App {
                message: Message::DeletedSelection {
                    count: successes(results@) as usize,
                    total: results@.len() as usize,
                },
                stale_middle: true,
                stale_right: true,
                ..*old(self)
            }),
    {
        let deleted = count_successes(results);
        self.set_message(Message::DeletedSelection { count: deleted, total: results.len() });
        self.refresh_middle_column();
        self.refresh_right_column();
    }

    /// Puts the marked paths, or else the highlighted one, in the register.
    pub fn yank_file(&mut self, yankmode: PasteMode)
        requires
            old(self).wf(),
        ensures
            final(self).wf(),
            yanked(*old(self), yankmode, *final(self)),
    {
        let marked = match &self.input_mode {
            InputMode::Select(v) => Some(duplicate_paths(v)),
            _ => None,
        };
        match marked {
            Some(v) => {
                let ghost before = register_paths(self.yank_register);
                let mut i: usize = 0;
                while i < v.len()
                    invariant
                        i <= v@.len(),
                        register_paths(self.yank_register) == before + path_views(v@).subrange(0, i as int),
                        self.input_mode == old(self).input_mode,
                        *self == (App { yank_register: self.yank_register, ..*old(self) }),
                        self.wf(),
                    decreases v.len() - i,
                {
                    let ghost mid = register_paths(self.yank_register);
                    self.yank_register.register.push(v[i].duplicate());
                    proof {
                        assert(register_paths(self.yank_register) =~= mid.push(v@[i as int]@));
                        assert(register_paths(self.yank_register) =~= before + path_views(v@).subrange(0, i + 1));
                    }
                    i = i + 1;
                }
                assert(path_views(v@).subrange(0, v@.len() as int) =~= path_views(v@));
                self.yank_register.mode = yankmode;
            },
            None => match self.selected_path() {
                Some(p) => {
                    let ghost before = register_paths(self.yank_register);
                    self.yank_register.register.push(p);
                    assert(register_paths(self.yank_register) =~= before.push(p@));
                    self.yank_register.mode = yankmode;
                    self.set_message(Message::InRegister);
                },
                None => self.set_message(Message::NothingSelected),
            },
        }
    }

    /// Empties the register into the working directory: each path with a
    /// name goes to that name under the working directory, all in the
    /// register's mode. The register is cleared whatever happens next.
    pub fn paste(&mut self) -> (r: Effect)
        ensures
            pasted(*old(self), *final(self), r),
    {
        let mut taken: Vec<FsPath> = Vec::new();
        std::mem::swap(&mut taken, &mut self.yank_register.register);
        let ghost pred = |p: Seq<Seq<char>>| p.len() > 0;
        assert(named_paths(path_views(taken@)) == path_views(taken@).filter(pred));
        let mut items: Vec<Transfer> = Vec::new();
        let mut i: usize = 0;
        while i < taken.len()
            invariant
                i <= taken@.len(),
                pred == (|p: Seq<Seq<char>>| p.len() > 0),
                items@.map_values(|t: Transfer| t.from@) == path_views(taken@).subrange(0, i as int).filter(pred),
                forall|k: int| 0 <= k < items@.len() ==> (#[trigger] items@[k]).to@ == child_of(
                    self.pwd@,
                    name_of(items@[k].from@),
                ),
            decreases taken.len() - i,
        {
            let ghost before = items@;
            proof {
                reveal(Seq::filter);
                assert(path_views(taken@).subrange(0, i + 1).drop_last() =~= path_views(taken@).subrange(0, i as int));
            }
            if taken[i].parts.len() > 0 {
                let name = taken[i].name();
                let to = self.pwd.join(&name);
                items.push(Transfer { from: taken[i].duplicate(), to });
                assert(items@.map_values(|t: Transfer| t.from@) =~= before.map_values(|t: Transfer| t.from@).push(taken@[i as int]@));
            }
            i = i + 1;
        }
        assert(path_views(taken@).subrange(0, taken@.len() as int) =~= path_views(taken@));
        let total = taken.len();
        Effect::Paste { mode: self.yank_register.mode, items, total }
    }

    /// Reports how the paste went: `results` holds one success flag per
    /// path that was carried, `total` the size of the register.
    pub fn finish_paste(&mut self, mode: PasteMode, results: &Vec<bool>, total: usize)
        ensures
            *final(self) == (App {
                message: Message::Pasted { count: successes(results@) as usize, total, mode },
                stale_left: old(self).stale_left || mode == PasteMode::Move,
                stale_middle: true,
                stale_right: old(self).stale_right || mode == PasteMode::Move,
                ..*old(self)
            }),
    {
        let count = count_successes(results);
        self.set_message(Message::Pasted { count, total, mode });
        match mode {
            PasteMode::Move => self.refresh_all(),
            PasteMode::Copy => self.refresh_middle_column(),
        }
    }

    /// Runs a command of the multi-key table.
    pub fn run_command(&mut self, cmd: Cmd) -> (r: Effect)
        requires
            old(self).wf(),
        ensures
            final(self).wf(),
            command_ran(*old(self), cmd, *final(self), r),
    {
        match cmd {
            Cmd::Delete => self.delete_file(),
            Cmd::YankMove => {
                self.yank_file(PasteMode::Move);
                Effect::Nothing
            },
            Cmd::YankCopy => {
                self.yank_file(PasteMode::Copy);
                Effect::Nothing
            },
            Cmd::Sort(o) => {
                self.sort_by(o);
                Effect::Nothing
            },
        }
    }
}

} // verus!
