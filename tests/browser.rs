use lga::browser::App;
use lga::effect::{
    Config, CreateOutcome, DeleteProbe, Effect, FileKind, Key, Message, PasteMode, Removal, Slot,
    Viewer,
};
use lga::entry::{NodeKind, RawEntry};
use lga::listing::ListOrder;
use lga::mode::{Confirm, InputMode};
use lga::path::FsPath;

fn path(parts: &[&str]) -> FsPath {
    FsPath::from_parts(parts.iter().map(|s| s.to_string()).collect())
}

fn parts(p: &FsPath) -> Vec<String> {
    p.parts.clone()
}

fn raw(name: &str, kind: NodeKind) -> RawEntry {
    RawEntry { name: name.to_string(), kind, modified: 0, created: 0 }
}

fn disk(dir: &FsPath) -> Vec<RawEntry> {
    let d: Vec<&str> = dir.parts.iter().map(|s| s.as_str()).collect();
    match d.as_slice() {
        [] => vec![raw("home", NodeKind::Dir)],
        ["home"] => vec![raw("u", NodeKind::Dir), raw("v", NodeKind::Dir)],
        ["home", "u"] => vec![raw("f.txt", NodeKind::File), raw("sub", NodeKind::Dir)],
        ["home", "u", "sub"] => vec![raw("inner.txt", NodeKind::File)],
        _ => vec![],
    }
}

fn settle(app: &mut App) {
    while let Some(req) = app.next_request() {
        let entries = disk(&req.dir);
        app.supply_listing(req.slot, &entries);
    }
}

fn browser() -> App {
    let mut app = App::new(path(&["home", "u"]), false, Config::default());
    settle(&mut app);
    app
}

fn selected(app: &App) -> Vec<String> {
    parts(&app.selected_path().expect("an entry is highlighted"))
}

fn keys(app: &mut App, text: &str) -> Effect {
    let mut last = Effect::Nothing;
    for c in text.chars() {
        last = app.handle_key(Key::Char(c));
    }
    last
}

fn middle_names(app: &App) -> Vec<String> {
    app.middle_column.items.iter().map(|e| e.path.path.name()).collect()
}

#[test]
fn first_request_is_the_working_directory() {
    let mut app = App::new(path(&["home", "u"]), false, Config::default());
    let req = app.next_request().expect("the middle pane waits");
    assert_eq!(req.slot, Slot::Middle);
    assert_eq!(parts(&req.dir), vec!["home", "u"]);
}

#[test]
fn panes_filled_dirs_first() {
    let app = browser();
    assert_eq!(middle_names(&app), vec!["sub", "f.txt"]);
    assert_eq!(app.middle_column.selected, Some(0));
    let left: Vec<String> = app.left_column.items.iter().map(|e| e.path.path.name()).collect();
    assert_eq!(left, vec!["u", "v"]);
    let right: Vec<String> = app.right_column.items.iter().map(|e| e.path.path.name()).collect();
    assert_eq!(right, vec!["inner.txt"]);
}

#[test]
fn descend_then_ascend_round_trip() {
    let mut app = browser();
    assert_eq!(selected(&app), vec!["home", "u", "sub"]);
    assert!(matches!(app.go_right(), Effect::Nothing));
    assert_eq!(parts(&app.pwd), vec!["home", "u", "sub"]);
    settle(&mut app);
    assert_eq!(middle_names(&app), vec!["inner.txt"]);
    app.go_left();
    assert_eq!(parts(&app.pwd), vec!["home", "u"]);
    assert_eq!(selected(&app), vec!["home", "u", "sub"]);
    settle(&mut app);
    assert_eq!(selected(&app), vec!["home", "u", "sub"]);
}

#[test]
fn ascend_at_root_does_nothing() {
    let mut app = App::new(FsPath::root(), false, Config::default());
    settle(&mut app);
    app.go_left();
    assert!(app.pwd.parts.is_empty());
    assert!(app.left_column.items.is_empty());
}

#[test]
fn descend_on_file_asks_to_open_it() {
    let mut app = browser();
    app.go_down();
    match app.go_right() {
        Effect::Open(p) => assert_eq!(parts(&p), vec!["home", "u", "f.txt"]),
        _ => panic!("expected an open request"),
    }
    assert_eq!(parts(&app.pwd), vec!["home", "u"]);
}

#[test]
fn cursor_wraps() {
    let mut app = browser();
    app.go_up();
    assert_eq!(app.middle_column.selected, Some(1));
    app.go_down();
    assert_eq!(app.middle_column.selected, Some(0));
    app.handle_key(Key::Char('G'));
    assert_eq!(app.middle_column.selected, Some(1));
    app.handle_key(Key::Char('g'));
    assert_eq!(app.middle_column.selected, Some(0));
}

#[test]
fn delete_non_empty_dir_needs_confirmation() {
    let mut app = browser();
    keys(&mut app, "d");
    assert_eq!(app.message, Message::DeleteHint);
    match keys(&mut app, "D") {
        Effect::ProbeDelete(p) => assert_eq!(parts(&p), vec!["home", "u", "sub"]),
        _ => panic!("expected a probe"),
    }
    assert!(matches!(app.delete_probed(DeleteProbe::NonEmptyDir), Effect::Nothing));
    assert!(matches!(app.input_mode, InputMode::Confirmation(Confirm::DeleteFolder, 'y')));
    assert_eq!(app.message, Message::ConfirmDeleteFolder);
    assert!(matches!(app.handle_key(Key::Char('n')), Effect::Nothing));
    assert_eq!(app.message, Message::Aborted);
    assert!(matches!(app.input_mode, InputMode::Normal));

    keys(&mut app, "dD");
    app.delete_probed(DeleteProbe::NonEmptyDir);
    match app.handle_key(Key::Char('y')) {
        Effect::RemoveAll(p) => assert_eq!(parts(&p), vec!["home", "u", "sub"]),
        _ => panic!("expected the tree to be removed"),
    }
    assert!(matches!(app.input_mode, InputMode::Normal));
    app.removed(Removal::Tree, true);
    assert_eq!(app.message, Message::TreeDeleted);
}

#[test]
fn confirmation_aborted_by_other_key() {
    let mut app = browser();
    keys(&mut app, "dD");
    app.delete_probed(DeleteProbe::NonEmptyDir);
    assert!(matches!(app.handle_key(Key::Esc), Effect::Nothing));
    assert_eq!(app.message, Message::Aborted);
}

#[test]
fn delete_file_and_empty_dir_go_at_once() {
    let mut app = browser();
    assert!(matches!(app.delete_probed(DeleteProbe::EmptyDir), Effect::RemoveDir(_)));
    assert!(matches!(app.delete_probed(DeleteProbe::File), Effect::RemoveFile(_)));
    assert!(matches!(app.delete_probed(DeleteProbe::Other), Effect::Nothing));
    assert_eq!(app.message, Message::NotHandled);
    app.removed(Removal::File, false);
    assert_eq!(app.message, Message::DeleteFailed);
    app.removed(Removal::EmptyDir, true);
    assert_eq!(app.message, Message::EmptyDirDeleted);
}

#[test]
fn paste_tallies_and_clears_register() {
    let mut app = browser();
    keys(&mut app, "yy");
    assert_eq!(app.message, Message::InRegister);
    app.go_down();
    keys(&mut app, "yy");
    assert_eq!(app.yank_register.register.len(), 2);
    assert_eq!(app.yank_register.mode, PasteMode::Copy);
    match keys(&mut app, "p") {
        Effect::Paste { mode, items, total } => {
            assert_eq!(mode, PasteMode::Copy);
            assert_eq!(total, 2);
            assert_eq!(items.len(), 2);
            assert_eq!(parts(&items[1].from), vec!["home", "u", "f.txt"]);
            assert_eq!(parts(&items[1].to), vec!["home", "u", "f.txt"]);
        }
        _ => panic!("expected a paste"),
    }
    assert!(app.yank_register.register.is_empty());
    app.finish_paste(PasteMode::Copy, &vec![true, false], 2);
    assert_eq!(app.message, Message::Pasted { count: 1, total: 2, mode: PasteMode::Copy });
}

#[test]
fn move_register_pastes_under_working_directory() {
    let mut app = browser();
    keys(&mut app, "dd");
    assert_eq!(app.yank_register.mode, PasteMode::Move);
    app.go_right();
    settle(&mut app);
    match app.paste() {
        Effect::Paste { mode, items, total } => {
            assert_eq!(mode, PasteMode::Move);
            assert_eq!(total, 1);
            assert_eq!(parts(&items[0].to), vec!["home", "u", "sub", "sub"]);
        }
        _ => panic!("expected a paste"),
    }
    app.finish_paste(PasteMode::Move, &vec![false], 1);
    assert_eq!(app.message, Message::Pasted { count: 0, total: 1, mode: PasteMode::Move });
}

#[test]
fn tag_toggle_twice_restores() {
    let mut app = browser();
    keys(&mut app, "t");
    assert!(app.middle_column.items[0].tagged);
    assert_eq!(app.config.tags.len(), 1);
    assert_eq!(parts(&app.config.tags[0]), vec!["home", "u", "sub"]);
    keys(&mut app, "t");
    assert!(!app.middle_column.items[0].tagged);
    assert!(app.config.tags.is_empty());
}

#[test]
fn tags_survive_relisting() {
    let mut app = browser();
    keys(&mut app, "t");
    app.refresh_all();
    settle(&mut app);
    assert!(app.middle_column.items[0].tagged);
    assert!(!app.middle_column.items[1].tagged);
}

#[test]
fn command_table() {
    let mut app = browser();
    keys(&mut app, "sn");
    assert_eq!(app.orderby, ListOrder::Name);
    settle(&mut app);
    assert_eq!(middle_names(&app), vec!["f.txt", "sub"]);
    keys(&mut app, "sd");
    assert_eq!(app.orderby, ListOrder::DirsFirst);
    keys(&mut app, "dx");
    assert_eq!(app.message, Message::UnknownCommand);
    assert!(matches!(app.input_mode, InputMode::Normal));
    keys(&mut app, "s");
    assert!(matches!(app.input_mode, InputMode::Command(_)));
    app.handle_key(Key::Esc);
    assert_eq!(app.message, Message::Canceled);
}

#[test]
fn line_commands_create_and_rename() {
    let mut app = browser();
    keys(&mut app, ":touch x");
    match app.handle_key(Key::Enter) {
        Effect::CreateFile(p) => assert_eq!(parts(&p), vec!["home", "u", "x"]),
        _ => panic!("expected a create request"),
    }
    assert!(matches!(app.input_mode, InputMode::Normal));
    app.created(false, CreateOutcome::Created, path(&["home", "u", "x"]));
    assert_eq!(app.message, Message::FileCreated);
    keys(&mut app, ":mkdir d");
    assert!(matches!(app.handle_key(Key::Enter), Effect::CreateDir(_)));
    app.created(true, CreateOutcome::Exists, path(&["home", "u", "d"]));
    assert_eq!(app.message, Message::AlreadyExists);

    keys(&mut app, "a");
    assert!(matches!(app.handle_key(Key::Enter), Effect::Nothing));
    assert_eq!(app.message, Message::NothingToDo);
    keys(&mut app, ":rename s2");
    match app.handle_key(Key::Enter) {
        Effect::Rename { from, to } => {
            assert_eq!(parts(&from), vec!["home", "u", "sub"]);
            assert_eq!(parts(&to), vec!["home", "u", "s2"]);
        }
        _ => panic!("expected a rename"),
    }
}

#[test]
fn unknown_line_commands() {
    let mut app = browser();
    keys(&mut app, ":bogus x");
    app.handle_key(Key::Enter);
    assert_eq!(app.message, Message::CommandNotFound);
    keys(&mut app, ":what");
    app.handle_key(Key::Enter);
    assert_eq!(app.message, Message::CommandNotRecognized);
    keys(&mut app, ":q");
    app.handle_key(Key::Enter);
    assert_eq!(app.message, Message::QuitHint);
}

#[test]
fn incremental_search_and_find() {
    let mut app = browser();
    keys(&mut app, "/F");
    assert_eq!(app.middle_column.selected, Some(1));
    app.handle_key(Key::Backspace);
    app.handle_key(Key::Esc);
    assert_eq!(app.message, Message::Canceled);
    settle(&mut app);
    keys(&mut app, "gfsb");
    assert_eq!(app.middle_column.selected, Some(0));
    app.handle_key(Key::Esc);
    keys(&mut app, "ftx");
    assert_eq!(app.middle_column.selected, Some(1));
}

#[test]
fn select_mode_marks_and_commits() {
    let mut app = browser();
    keys(&mut app, " ");
    app.go_down();
    keys(&mut app, " ");
    assert_eq!(app.input_mode.get_selected().len(), 2);
    keys(&mut app, " ");
    assert_eq!(app.input_mode.get_selected().len(), 1);
    keys(&mut app, " ");
    keys(&mut app, "y");
    assert!(matches!(app.input_mode, InputMode::Normal));
    assert_eq!(app.yank_register.register.len(), 2);
    assert_eq!(app.yank_register.mode, PasteMode::Copy);

    keys(&mut app, " ");
    keys(&mut app, "D");
    assert_eq!(app.message, Message::ConfirmDeleteSelection);
    match app.handle_key(Key::Char('Y')) {
        Effect::DeleteEach(v) => assert_eq!(v.len(), 1),
        _ => panic!("expected a batch delete"),
    }
    app.delete_selection(&vec![true, false, true]);
    assert_eq!(app.message, Message::DeletedSelection { count: 2, total: 3 });
}

#[test]
fn metadata_size_and_position() {
    let mut app = browser();
    app.set_metadata(Some(5500));
    assert_eq!(app.metadata.size, "5.50 kB");
    assert_eq!(app.metadata.position, Some((1, 2)));
    app.set_metadata(None);
    assert_eq!(app.metadata.size, "");
}

#[test]
fn classifier_result_picks_viewer() {
    let mut app = browser();
    assert_eq!(app.opened(FileKind::Document), Some(Viewer::Document));
    assert_eq!(app.opened(FileKind::Video), Some(Viewer::Video));
    assert_eq!(app.opened(FileKind::Text), None);
    assert_eq!(app.message, Message::CannotOpenText);
    assert_eq!(app.opened(FileKind::Other), None);
    assert_eq!(app.message, Message::CannotOpen);
}

#[test]
fn quit_key() {
    let mut app = browser();
    assert!(matches!(app.handle_key(Key::Char('q')), Effect::Quit));
}

#[test]
fn hidden_toggle_relists() {
    let mut app = App::new(path(&["home"]), false, Config::default());
    settle(&mut app);
    app.handle_key(Key::Backspace);
    assert!(app.show_hidden);
    assert!(app.stale_middle);
}

#[test]
fn status_line_texts() {
    let mut app = browser();
    app.finish_paste(PasteMode::Copy, &vec![true, false], 2);
    assert_eq!(app.message_text(), "1/2 items copied");
    app.finish_paste(PasteMode::Move, &vec![true; 12], 1234);
    assert_eq!(app.message_text(), "12/1234 items moved");
    app.delete_selection(&vec![true, false, true]);
    assert_eq!(app.message_text(), "deleted 2 of 3");
    app.delete_selection(&vec![]);
    assert_eq!(app.message_text(), "deleted 0 of 0");
    app.set_message(Message::Aborted);
    assert_eq!(app.message_text(), "aborted");
    app.set_message(Message::Empty);
    assert_eq!(app.message_text(), "");
    keys(&mut app, ":ren");
    assert_eq!(app.message_text(), ":ren");
}

#[test]
fn select_mode_keeps_marks_while_navigating() {
    let mut app = browser();
    keys(&mut app, " ");
    app.handle_key(Key::Down);
    app.handle_key(Key::Up);
    assert!(matches!(app.input_mode, InputMode::Select(_)));
    app.handle_key(Key::Right);
    assert_eq!(parts(&app.pwd), vec!["home", "u", "sub"]);
    settle(&mut app);
    app.handle_key(Key::Left);
    settle(&mut app);
    match &app.input_mode {
        InputMode::Select(v) => {
            assert_eq!(v.len(), 1);
            assert_eq!(parts(&v[0]), vec!["home", "u", "sub"]);
        }
        _ => panic!("expected select mode"),
    }
}

#[test]
fn relisted_middle_goes_to_first_row_without_focus() {
    let mut app = browser();
    app.go_down();
    assert_eq!(app.middle_column.selected, Some(1));
    app.refresh_middle_column();
    settle(&mut app);
    assert_eq!(app.middle_column.selected, Some(0));
}

#[test]
fn created_entry_gets_the_cursor() {
    let mut app = browser();
    app.created(false, CreateOutcome::Created, path(&["home", "u", "f.txt"]));
    settle(&mut app);
    assert_eq!(selected(&app), vec!["home", "u", "f.txt"]);
}

#[test]
fn right_pane_cursor_on_first_row() {
    let app = browser();
    assert_eq!(app.right_column.selected, Some(0));
}

#[test]
fn unknown_command_changes_nothing_else() {
    let mut app = browser();
    keys(&mut app, "yx");
    assert_eq!(app.message, Message::UnknownCommand);
    assert!(app.yank_register.register.is_empty());
    assert_eq!(app.orderby, ListOrder::DirsFirst);
}
