use vstd::prelude::*;
use vstd::string::StringExecFns;
use crate::browser::{ascended, highlighted, tag_toggled, went_right, App};
use crate::column::{next_cursor, prev_cursor};
use crate::commands::{command_ran, confirm_decided, executed, pasted};
use crate::effect::{effect_paste_sources, named_paths, register_paths};
use crate::path::{name_of, parent_of};
use crate::commands::{command_of, is_command_prefix, lookup_command};
use crate::effect::{Effect, Key, Message, PasteMode};
use crate::entry::{path_views, position_of_path};
use crate::finder::chars_of;
use crate::mode::{duplicate_paths, has_text, mode_paths, mode_text, Confirm, InputMode};
use crate::path::FsPath;

verus! {

/// Which variant of the modal state is live.
#[derive(PartialEq, Eq, Structural, Clone, Copy, Debug)]
pub enum ModeTag {
    Normal,
    Command,
    Input,
    Confirmation,
    Select,
}

pub open spec fn tag_of(m: InputMode) -> ModeTag {
    match m {
        InputMode::Normal => ModeTag::Normal,
        InputMode::Command(_) => ModeTag::Command,
        InputMode::Input(_) => ModeTag::Input,
        InputMode::Confirmation(_, _) => ModeTag::Confirmation,
        InputMode::Select(_) => ModeTag::Select,
    }
}

/// `t` and `r` are what `key` makes of `s` in normal mode.
pub open spec fn on_normal_key(s: App, key: Key, t: App, r: Effect) -> bool {
    match key {
        Key::Char('q') => r == Effect::Quit && t == s,
        Key::Char('l') | Key::Right | Key::Enter => went_right(s, t, r),
        Key::Char('h') | Key::Left => r == Effect::Nothing && if parent_of(s.pwd@).is_some() {
            ascended(s, t)
        } else {
            t == s
        },
        Key::Char('g') | Key::PageUp => r == Effect::Nothing && t.middle_column.items
            == s.middle_column.items && t.middle_column.selected == if s.middle_column.items@.len() > 0 {
            Some(0usize)
        } else {
            None
        } && t.input_mode == s.input_mode,
        Key::Char('G') | Key::PageDown => r == Effect::Nothing && t.middle_column.items
            == s.middle_column.items && t.middle_column.selected == if s.middle_column.items@.len() > 0 {
            Some((s.middle_column.items@.len() - 1) as usize)
        } else {
            None
        } && t.input_mode == s.input_mode,
        Key::Char('k') | Key::Up => t.middle_column.selected == prev_cursor(
            s.middle_column.selected,
            s.middle_column.items@.len(),
        ) && t.middle_column.items == s.middle_column.items,
        Key::Char('j') | Key::Down => t.middle_column.selected == next_cursor(
            s.middle_column.selected,
            s.middle_column.items@.len(),
        ) && t.middle_column.items == s.middle_column.items,
        Key::Char('d') => t.input_mode is Command && mode_text(t.input_mode) == seq!['d']
            && t.message == Message::DeleteHint && r == Effect::Nothing,
        Key::Char('y') | Key::Char('Y') => t.input_mode is Command && mode_text(t.input_mode) == seq![
            'y',
        ] && t.message == Message::YankHint && r == Effect::Nothing,
        Key::Char('s') => t.input_mode is Command && mode_text(t.input_mode) == seq!['s']
            && t.message == Message::SortHint && r == Effect::Nothing,
        Key::Char(':') => t.input_mode is Input && mode_text(t.input_mode) == seq![':'] && r
            == Effect::Nothing,
        Key::Char('/') => t.input_mode is Input && mode_text(t.input_mode) == seq!['/'] && r
            == Effect::Nothing,
        Key::Char('f') => t.input_mode is Input && mode_text(t.input_mode) == seq![
            ':',
            'f',
            'i',
            'n',
            'd',
            ' ',
        ] && r == Effect::Nothing,
        Key::Char('a') => r == Effect::Nothing && match highlighted(s.middle_column) {
            Some(e) => t.input_mode is Input && mode_text(t.input_mode) == seq![
                ':',
                'r',
                'e',
                'n',
                'a',
                'm',
                'e',
                ' ',
            ] + name_of(e.path.path@),
            None => t.message == Message::NothingSelected,
        },
        Key::Char('p') => pasted(s, t, r),
        Key::Char('t') => tag_toggled(s, t) && r == Effect::Nothing,
        Key::Backspace => t.show_hidden == !s.show_hidden && r == Effect::Nothing,
        Key::Char(' ') => r == Effect::Nothing && match highlighted(s.middle_column) {
            Some(e) => t.input_mode is Select && mode_paths(t.input_mode) == seq![e.path.path@],
            None => t.message == Message::NothingSelected && t.input_mode == s.input_mode,
        },
        _ => t.input_mode == s.input_mode,
    }
}

/// `t` and `r` are what `key` makes of `s` while a multi-key command is typed.
pub open spec fn on_command_key(s: App, key: Key, t: App, r: Effect) -> bool {
    match key {
        Key::Char(c) => {
            let b = mode_text(s.input_mode).push(c);
            if command_of(b).is_some() {
                command_ran(App { input_mode: InputMode::Normal, ..s }, command_of(b).unwrap(), t, r)
            } else if is_command_prefix(b) {
                mode_text(t.input_mode) == b && t.input_mode is Command && r == Effect::Nothing
                    && t == (App { input_mode: t.input_mode, ..s })
            } else {
                t == (App { input_mode: InputMode::Normal, message: Message::UnknownCommand, ..s })
                    && r == Effect::Nothing
            }
        },
        Key::Esc => t.input_mode == InputMode::Normal && t.message == Message::Canceled && r
            == Effect::Nothing,
        _ => t == s && r == Effect::Nothing,
    }
}

/// `t` and `r` are what `key` makes of `s` while free text is typed.
pub open spec fn on_input_key(s: App, key: Key, t: App, r: Effect) -> bool {
    match key {
        Key::Char(c) => t.input_mode is Input && mode_text(t.input_mode) == mode_text(s.input_mode).push(c)
            && r == Effect::Nothing,
        Key::Backspace => t.input_mode is Input && mode_text(t.input_mode) == if mode_text(
            s.input_mode,
        ).len() > 0 {
            mode_text(s.input_mode).drop_last()
        } else {
            mode_text(s.input_mode)
        } && r == Effect::Nothing,
        Key::Enter => t.input_mode == InputMode::Normal && executed(
            s,
            App { input_mode: s.input_mode, ..t },
            r,
        ),
        Key::Esc => t.input_mode == InputMode::Normal && t.message == Message::Canceled
            && t.stale_right && r == Effect::Nothing,
        _ => t == s && r == Effect::Nothing,
    }
}

/// `t` and `r` are what `key` makes of `s` while a destructive action waits:
/// the confirming character runs it, any other key aborts it.
pub open spec fn on_confirmation_key(s: App, key: Key, t: App, r: Effect) -> bool {
    &&& t.input_mode == InputMode::Normal
    &&& match key {
        Key::Char(c) => confirm_decided(s, c, App { input_mode: s.input_mode, ..t }, r),
        _ => r == Effect::Nothing && t.message == Message::Aborted,
    }
}

/// `t` and `r` are what `key` makes of `s` while paths are being marked.
pub open spec fn on_select_key(s: App, key: Key, t: App, r: Effect) -> bool {
    match key {
        Key::Char('d') => t.input_mode == InputMode::Normal && path_views(t.yank_register.register@)
            == mode_paths(s.input_mode) && t.yank_register.mode == PasteMode::Move,
        Key::Char('y') => t.input_mode == InputMode::Normal && path_views(t.yank_register.register@)
            == mode_paths(s.input_mode) && t.yank_register.mode == PasteMode::Copy,
        Key::Char('D') => r == Effect::Nothing && t.message == Message::ConfirmDeleteSelection
            && match t.input_mode {
            InputMode::Confirmation(Confirm::DeleteSelection(v), 'Y') => path_views(v@) == mode_paths(
                s.input_mode,
            ),
            _ => false,
        },
        Key::Char('q') => r == Effect::Quit,
        Key::Char(' ') => t.input_mode is Select && match highlighted(s.middle_column) {
            Some(e) => mode_paths(t.input_mode).contains(e.path.path@) != mode_paths(
                s.input_mode,
            ).contains(e.path.path@),
            None => t.message == Message::NothingSelected,
        },
        Key::Char('h') | Key::Left => r == Effect::Nothing && if parent_of(s.pwd@).is_some() {
            ascended(s, t)
        } else {
            t == s
        },
        Key::Char('l') | Key::Right => went_right(s, t, r),
        Key::Char('k') | Key::Up => t.input_mode == s.input_mode && t.middle_column.selected
            == prev_cursor(s.middle_column.selected, s.middle_column.items@.len())
            && t.middle_column.items == s.middle_column.items,
        Key::Char('j') | Key::Down => t.input_mode == s.input_mode && t.middle_column.selected
            == next_cursor(s.middle_column.selected, s.middle_column.items@.len())
            && t.middle_column.items == s.middle_column.items,
        Key::Esc => t.input_mode == InputMode::Normal && t.message == Message::Canceled,
        _ => t.input_mode is Select,
    }
}

fn one_char(c: char) -> (r: String)
    ensures
        r@ == seq![c],
{
    let mut s = String::new();
    s.push(c);
    assert(s@ =~= seq![c]);
    s
}

fn find_seed() -> (r: String)
    ensures
        r@ == seq![':', 'f', 'i', 'n', 'd', ' '],
{
    let s = String::from_str(":find ");
    proof {
        reveal_strlit(":find ");
        assert(s@ =~= seq![':', 'f', 'i', 'n', 'd', ' ']);
    }
    s
}

fn rename_prompt(name: &String) -> (r: String)
    ensures
        r@ == seq![':', 'r', 'e', 'n', 'a', 'm', 'e', ' '] + name@,
{
    let mut s = String::from_str(":rename ");
    proof {
        reveal_strlit(":rename ");
    }
    s.append(name.as_str());
    assert(s@ =~= seq![':', 'r', 'e', 'n', 'a', 'm', 'e', ' '] + name@);
    s
}

impl App {
    pub fn mode_tag(&self) -> (r: ModeTag)
        ensures
            r == tag_of(self.input_mode),
    {
        match &self.input_mode {
            InputMode::Normal => ModeTag::Normal,
            InputMode::Command(_) => ModeTag::Command,
            InputMode::Input(_) => ModeTag::Input,
            InputMode::Confirmation(_, _) => ModeTag::Confirmation,
            InputMode::Select(_) => ModeTag::Select,
        }
    }

    /// Reads one key in the current mode and acts on it. Work on the disk
    /// or on the terminal is handed back as the effect.
    pub fn handle_key(&mut self, key: Key) -> (r: Effect)
        requires
            old(self).wf(),
        ensures
            final(self).wf(),
            match tag_of(old(self).input_mode) {
                ModeTag::Normal => on_normal_key(*old(self), key, *final(self), r),
                ModeTag::Command => on_command_key(*old(self), key, *final(self), r),
                ModeTag::Input => on_input_key(*old(self), key, *final(self), r),
                ModeTag::Confirmation => on_confirmation_key(*old(self), key, *final(self), r),
                ModeTag::Select => on_select_key(*old(self), key, *final(self), r),
            },
    {
        match self.mode_tag() {
            ModeTag::Normal => self.key_normal(key),
            ModeTag::Command => self.key_command(key),
            ModeTag::Input => self.key_input(key),
            ModeTag::Confirmation => {
                match key {
                    Key::Char(c) => {
                        let r = self.confirm(c);
                        self.input_mode = InputMode::Normal;
                        r
                    },
                    _ => {
                        self.set_message(Message::Aborted);
                        self.input_mode = InputMode::Normal;
                        Effect::Nothing
                    },
                }
            },
            ModeTag::Select => self.key_select(key),
        }
    }

    fn key_normal(&mut self, key: Key) -> (r: Effect)
        requires
            old(self).wf(),
            old(self).input_mode is Normal,
        ensures
            final(self).wf(),
            on_normal_key(*old(self), key, *final(self), r),
    {
        match key {
            Key::Char('q') => Effect::Quit,
            Key::Char('l') | Key::Right | Key::Enter => self.go_right(),
            Key::Char('k') | Key::Up => {
                self.go_up();
                Effect::Nothing
            },
            Key::Char('j') | Key::Down => {
                self.go_down();
                Effect::Nothing
            },
            Key::Char('h') | Key::Left => {
                self.go_left();
                Effect::Nothing
            },
            Key::Char('g') | Key::PageUp => {
                self.go_to_end(false);
                self.refresh_middle_column();
                Effect::Nothing
            },
            Key::Char('G') | Key::PageDown => {
                self.go_to_end(true);
                self.refresh_middle_column();
                Effect::Nothing
            },
            Key::Char('d') => {
                self.set_message(Message::DeleteHint);
                self.input_mode = InputMode::Command(one_char('d'));
                Effect::Nothing
            },
            Key::Char('y') | Key::Char('Y') => {
                self.set_message(Message::YankHint);
                self.input_mode = InputMode::Command(one_char('y'));
                Effect::Nothing
            },
            Key::Char('p') => self.paste(),
            Key::Char('s') => {
                self.set_message(Message::SortHint);
                self.input_mode = InputMode::Command(one_char('s'));
                Effect::Nothing
            },
            Key::Char('a') => {
                match self.selected_path() {
                    Some(p) => {
                        let name = p.name();
                        self.input_mode = InputMode::Input(rename_prompt(&name));
                        self.set_message(Message::Echo);
                    },
                    None => self.set_message(Message::NothingSelected),
                }
                Effect::Nothing
            },
            Key::Char(':') => {
                self.input_mode = InputMode::Input(one_char(':'));
                self.set_message(Message::Echo);
                Effect::Nothing
            },
            Key::Backspace => {
                self.toggle_hidden_files();
                Effect::Nothing
            },
            Key::Char('t') => {
                self.toggle_tag_item();
                Effect::Nothing
            },
            Key::Char('/') => {
                self.input_mode = InputMode::Input(one_char('/'));
                self.set_message(Message::Echo);
                Effect::Nothing
            },
            Key::Char('f') => {
                self.input_mode = InputMode::Input(find_seed());
                self.set_message(Message::Echo);
                Effect::Nothing
            },
            Key::Char(' ') => {
                match self.selected_path() {
                    Some(p) => {
                        let mut v: Vec<FsPath> = Vec::new();
                        v.push(p);
                        assert(path_views(v@) =~= seq![v@[0]@]);
                        self.input_mode = InputMode::Select(v);
                        self.refresh_middle_column();
                    },
                    None => self.set_message(Message::NothingSelected),
                }
                Effect::Nothing
            },
            _ => Effect::Nothing,
        }
    }

    fn key_command(&mut self, key: Key) -> (r: Effect)
        requires
            old(self).wf(),
            old(self).input_mode is Command,
        ensures
            final(self).wf(),
            on_command_key(*old(self), key, *final(self), r),
    {
        match key {
            Key::Char(c) => {
                self.input_mode.push_char(c);
                let buf = self.input_mode.get_str();
                let (cmd, partial) = lookup_command(&buf);
                match cmd {
                    Some(cmd) => {
                        self.input_mode = InputMode::Normal;
                        self.run_command(cmd)
                    },
                    None => {
                        if !partial {
                            self.input_mode = InputMode::Normal;
                            self.set_message(Message::UnknownCommand);
                        }
                        Effect::Nothing
                    },
                }
            },
            Key::Esc => {
                self.input_mode = InputMode::Normal;
                self.set_message(Message::Canceled);
                Effect::Nothing
            },
            _ => Effect::Nothing,
        }
    }

    /// Re-runs the live incremental feature after the typed text changed.
    fn follow_text(&mut self)
        requires
            old(self).wf(),
        ensures
            final(self).wf(),
            final(self).input_mode == old(self).input_mode,
    {
        let text = self.input_mode.get_str();
        let c = chars_of(text.as_str());
        if c.len() > 0 && c[0] == '/' {
            self.inc_search();
        } else {
            self.inc_find();
        }
    }

    fn key_input(&mut self, key: Key) -> (r: Effect)
        requires
            old(self).wf(),
            old(self).input_mode is Input,
        ensures
            final(self).wf(),
            on_input_key(*old(self), key, *final(self), r),
    {
        match key {
            Key::Char(c) => {
                self.input_mode.push_char(c);
                self.set_message(Message::Echo);
                self.follow_text();
                Effect::Nothing
            },
            Key::Enter => {
                let r = self.execute();
                self.input_mode = InputMode::Normal;
                r
            },
            Key::Backspace => {
                self.input_mode.pop_char();
                self.set_message(Message::Echo);
                self.follow_text();
                Effect::Nothing
            },
            Key::Esc => {
                self.set_message(Message::Canceled);
                self.refresh_right_column();
                self.input_mode = InputMode::Normal;
                Effect::Nothing
            },
            _ => Effect::Nothing,
        }
    }

    /// Marks the highlighted path, or unmarks it when it is marked.
    fn toggle_mark(&mut self)
        requires
            old(self).wf(),
            old(self).input_mode is Select,
        ensures
            final(self).wf(),
            final(self).input_mode is Select,
            match highlighted(old(self).middle_column) {
                Some(e) => mode_paths(final(self).input_mode).contains(e.path.path@)
                    != mode_paths(old(self).input_mode).contains(e.path.path@),
                None => final(self).message == Message::NothingSelected,
            },
    {
        match self.selected_path() {
            Some(p) => {
                let marked = self.input_mode.get_selected();
                let mut found = position_of_path(&marked, &p);
                if found.is_none() {
                    let ghost before = mode_paths(self.input_mode);
                    self.input_mode.push_path(p.duplicate());
                    assert(mode_paths(self.input_mode)[before.len() as int] == p@);
                } else {
                    while found.is_some()
                        invariant
                            self.input_mode is Select,
                            self.wf(),
                            self.middle_column == old(self).middle_column,
                            found matches Some(i) ==> i < mode_paths(self.input_mode).len()
                                && mode_paths(self.input_mode)[i as int] == p@,
                            found.is_none() ==> !mode_paths(self.input_mode).contains(p@),
                        decreases mode_paths(self.input_mode).len(),
                    {
                        let i = found.unwrap();
                        self.input_mode.remove_path(i);
                        let now = self.input_mode.get_selected();
                        found = position_of_path(&now, &p);
                    }
                }
                self.refresh_middle_column();
            },
            None => self.set_message(Message::NothingSelected),
        }
    }

    fn key_select(&mut self, key: Key) -> (r: Effect)
        requires
            old(self).wf(),
            old(self).input_mode is Select,
        ensures
            final(self).wf(),
            on_select_key(*old(self), key, *final(self), r),
    {
        match key {
            Key::Char('q') => Effect::Quit,
            Key::Char(' ') => {
                self.toggle_mark();
                Effect::Nothing
            },
            Key::Char('h') | Key::Left => {
                self.go_left();
                Effect::Nothing
            },
            Key::Char('l') | Key::Right => self.go_right(),
            Key::Char('k') | Key::Up => {
                self.go_up();
                Effect::Nothing
            },
            Key::Char('j') | Key::Down => {
                self.go_down();
                Effect::Nothing
            },
            Key::Esc => {
                self.set_message(Message::Canceled);
                self.refresh_right_column();
                self.input_mode = InputMode::Normal;
                Effect::Nothing
            },
            Key::Backspace => {
                self.toggle_hidden_files();
                Effect::Nothing
            },
            Key::Char('d') | Key::Char('y') => {
                self.yank_register.register = self.input_mode.get_selected();
                self.yank_register.mode = if key == Key::Char('d') {
                    PasteMode::Move
                } else {
                    PasteMode::Copy
                };
                self.input_mode = InputMode::Normal;
                self.set_message(Message::SelectionInRegister);
                Effect::Nothing
            },
            Key::Char('D') => {
                let v = self.input_mode.get_selected();
                self.input_mode = InputMode::Confirmation(Confirm::DeleteSelection(v), 'Y');
                self.set_message(Message::ConfirmDeleteSelection);
                Effect::Nothing
            },
            _ => Effect::Nothing,
        }
    }
}

} // verus!
