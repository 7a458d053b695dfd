use lga::entry::{Entry, NodeKind, RawEntry};
use lga::listing::{list, ListOrder};
use lga::path::FsPath;

fn dir() -> FsPath {
    FsPath::from_parts(vec!["home".to_string(), "u".to_string()])
}

fn raw(name: &str, kind: NodeKind, modified: u64, created: u64) -> RawEntry {
    RawEntry { name: name.to_string(), kind, modified, created }
}

fn names(v: &[Entry]) -> Vec<String> {
    v.iter().map(|e| e.path.path.name()).collect()
}

fn sample() -> Vec<RawEntry> {
    vec![
        raw("b.txt", NodeKind::File, 30, 3),
        raw(".git", NodeKind::Dir, 10, 1),
        raw("src", NodeKind::Dir, 20, 2),
        raw("a.txt", NodeKind::File, 5, 9),
        raw("docs", NodeKind::Dir, 40, 4),
    ]
}

#[test]
fn hidden_entries_filtered_unless_shown() {
    let r = list(&dir(), &sample(), false, ListOrder::Default, &Vec::new());
    assert_eq!(names(&r), vec!["b.txt", "src", "a.txt", "docs"]);
    let r = list(&dir(), &sample(), true, ListOrder::Default, &Vec::new());
    assert_eq!(names(&r), vec!["b.txt", ".git", "src", "a.txt", "docs"]);
}

#[test]
fn name_order_ascending_and_descending() {
    let r = list(&dir(), &sample(), true, ListOrder::Name, &Vec::new());
    assert_eq!(names(&r), vec![".git", "a.txt", "b.txt", "docs", "src"]);
    let r = list(&dir(), &sample(), true, ListOrder::NameReverse, &Vec::new());
    assert_eq!(names(&r), vec!["src", "docs", "b.txt", "a.txt", ".git"]);
}

#[test]
fn dirs_first_keeps_group_order() {
    let r = list(&dir(), &sample(), true, ListOrder::DirsFirst, &Vec::new());
    assert_eq!(names(&r), vec![".git", "src", "docs", "b.txt", "a.txt"]);
    let r = list(&dir(), &sample(), true, ListOrder::FilesFirst, &Vec::new());
    assert_eq!(names(&r), vec!["b.txt", "a.txt", ".git", "src", "docs"]);
}

#[test]
fn time_orders() {
    let r = list(&dir(), &sample(), false, ListOrder::Modified, &Vec::new());
    assert_eq!(names(&r), vec!["a.txt", "src", "b.txt", "docs"]);
    let r = list(&dir(), &sample(), false, ListOrder::ModifiedReverse, &Vec::new());
    assert_eq!(names(&r), vec!["docs", "b.txt", "src", "a.txt"]);
    let r = list(&dir(), &sample(), false, ListOrder::Created, &Vec::new());
    assert_eq!(names(&r), vec!["src", "b.txt", "docs", "a.txt"]);
    let r = list(&dir(), &sample(), false, ListOrder::CreatedReverse, &Vec::new());
    assert_eq!(names(&r), vec!["a.txt", "docs", "b.txt", "src"]);
}

#[test]
fn equal_times_keep_read_order() {
    let v = vec![
        raw("z", NodeKind::File, 0, 0),
        raw("y", NodeKind::File, 7, 0),
        raw("x", NodeKind::File, 0, 0),
    ];
    let r = list(&dir(), &v, false, ListOrder::Modified, &Vec::new());
    assert_eq!(names(&r), vec!["z", "x", "y"]);
    let r = list(&dir(), &v, false, ListOrder::ModifiedReverse, &Vec::new());
    assert_eq!(names(&r), vec!["y", "z", "x"]);
}

#[test]
fn entries_tagged_by_membership() {
    let tags = vec![dir().join(&"src".to_string())];
    let r = list(&dir(), &sample(), false, ListOrder::Default, &tags);
    let tagged: Vec<bool> = r.iter().map(|e| e.tagged).collect();
    assert_eq!(tagged, vec![false, true, false, false]);
    assert_eq!(r[1].path.path.parts, vec!["home", "u", "src"]);
    assert!(r.iter().all(|e| e.preview.is_none()));
}

#[test]
fn empty_listing() {
    let r = list(&dir(), &Vec::new(), false, ListOrder::Name, &Vec::new());
    assert!(r.is_empty());
}

#[test]
fn item_flag_and_preview_setters() {
    let mut item: lga::entry::Item<u32, String> = lga::entry::Item::new(7, false);
    assert!(!item.tagged && item.preview.is_none());
    item.toggle_tagged();
    assert!(item.tagged);
    item.toggle_tagged();
    assert!(!item.tagged);
    item.tag();
    assert!(item.tagged);
    item.set_preview("head".to_string());
    assert_eq!(item.preview.as_deref(), Some("head"));
    item.set_item(9);
    assert_eq!(item.path, 9);
    assert!(item.tagged);
}
