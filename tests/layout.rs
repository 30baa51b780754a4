use thatsit_widgets::{
    directory_listing, Area, Axis, Color, Command, Entry, Event, FileEntry, FileList, Label,
    Stacked, TabSide, Tabs, TabsTheme, DefaultTabsTheme, Widget,
};

fn text(s: &str) -> Vec<char> {
    s.chars().collect()
}

fn label(s: &str) -> Label {
    Label::new(s, None, false)
}

fn prints(out: &[Command]) -> Vec<(u16, u16, String)> {
    let mut r = Vec::new();
    let mut at = (0, 0);
    for c in out {
        match c {
            Command::MoveTo(x, y) => at = (*x, *y),
            Command::Print(t) => r.push((at.0, at.1, t.iter().collect())),
            _ => {}
        }
    }
    r
}

#[test]
fn label_truncates_to_width() {
    let mut out = Vec::new();
    let used = Label::new("hello", Some(Color::Red), true).render(&mut out, Area(2, 3, 3, 4));
    assert_eq!(used, (3, 1));
    assert_eq!(
        out,
        vec![
            Command::ResetColor,
            Command::SetForeground(Color::Red),
            Command::Bold,
            Command::MoveTo(2, 3),
            Command::Print(text("hel")),
        ]
    );
}

#[test]
fn stacked_vertical_with_gap() {
    let mut s: Stacked<Label> = Stacked::y();
    s.add(label("ab"));
    s.space(1);
    s.add(label("cde"));
    let mut out = Vec::new();
    let used = s.render(&mut out, Area(0, 0, 10, 5));
    assert_eq!(used, (3, 3));
    assert_eq!(prints(&out), vec![(0, 0, "ab".to_string()), (0, 2, "cde".to_string())]);
}

#[test]
fn stacked_stops_when_room_runs_out() {
    let mut s: Stacked<Label> = Stacked::y();
    s.add(label("one"));
    s.add(label("two"));
    s.add(label("three"));
    let mut out = Vec::new();
    let used = s.render(&mut out, Area(4, 1, 10, 2));
    assert_eq!(used, (3, 2));
    assert_eq!(prints(&out), vec![(4, 1, "one".to_string()), (4, 2, "two".to_string())]);
}

#[test]
fn stacked_horizontal_clips_last() {
    let s = Stacked { axis: Axis::X, entries: vec![Entry::Item(label("ab")), Entry::Item(label("cd"))] };
    let mut out = Vec::new();
    let used = s.render(&mut out, Area(1, 1, 3, 1));
    assert_eq!(used, (3, 1));
    assert_eq!(prints(&out), vec![(1, 1, "ab".to_string()), (3, 1, "c".to_string())]);
}

#[test]
fn stacked_gap_larger_than_room() {
    let s = Stacked { axis: Axis::X, entries: vec![Entry::Space(9), Entry::Item(label("x"))] };
    let mut out = Vec::new();
    assert_eq!(s.render(&mut out, Area(0, 0, 4, 1)), (4, 0));
    assert!(out.is_empty());
}

fn pages() -> Vec<(String, Label)> {
    vec![
        ("one".to_string(), label("page one")),
        ("two".to_string(), label("page two")),
        ("six".to_string(), label("page six")),
    ]
}

#[test]
fn tabs_start_on_first_tab() {
    let tabs = Tabs::new(TabSide::Left, pages());
    assert_eq!(tabs.selected(), Some(0));
    assert_eq!(tabs.len(), 3);
    assert_eq!(tabs.scroll.offset, 1);
    assert!(!tabs.open && !tabs.entered);
    let empty: Tabs<Label> = Tabs::new(TabSide::Top, vec![]);
    assert_eq!(empty.selected(), None);
    assert_eq!(empty.scroll.offset, 0);
}

#[test]
fn tabs_keys() {
    let mut tabs = Tabs::new(TabSide::Left, pages());
    tabs.resize(5);
    assert!(tabs.handle(Event::Down));
    assert_eq!(tabs.selected(), Some(1));
    assert_eq!(tabs.scroll.offset, 1);
    assert!(tabs.handle(Event::Up));
    assert_eq!(tabs.selected(), Some(0));
    assert_eq!(tabs.scroll.offset, 0);
    assert!(!tabs.handle(Event::Up));
    assert!(tabs.handle(Event::Enter));
    assert!(tabs.open && tabs.entered);
    assert!(!tabs.handle(Event::Other));
    assert!(tabs.handle(Event::Escape));
    assert!(tabs.open && !tabs.entered);
    assert!(tabs.handle(Event::Escape));
    assert!(!tabs.open);
    assert!(!tabs.handle(Event::Other));
}

#[test]
fn tabs_add_enter_exit() {
    let mut tabs: Tabs<Label> = Tabs::new(TabSide::Right, vec![]);
    tabs.add("new".to_string(), label("fresh"));
    assert_eq!(tabs.len(), 1);
    assert_eq!(tabs.selected(), None);
    assert!(tabs.select_next());
    assert_eq!(tabs.selected(), Some(0));
    assert!(tabs.enter());
    assert!(tabs.layout_page().is_some());
    assert!(tabs.exit());
    assert!(tabs.close());
    assert!(tabs.layout_page().is_none());
    assert!(tabs.open());
    assert!(tabs.layout_page().is_some());
}

#[test]
fn tabs_strip_highlights_selected() {
    let mut tabs = Tabs::new(TabSide::Top, pages());
    tabs.resize(5);
    tabs.select_prev();
    tabs.select_next();
    tabs.select_prev();
    assert_eq!(tabs.scroll.offset, 0);
    let strip = tabs.layout_tabs().unwrap();
    assert_eq!(strip.axis, Axis::X);
    assert_eq!(strip.entries.len(), 3);
    match &strip.entries[0] {
        Entry::Item(l) => assert_eq!((l.text.clone(), l.fg, l.bold), (text("one"), Some(Color::Yellow), true)),
        Entry::Space(_) => panic!("expected a label"),
    }
    match &strip.entries[2] {
        Entry::Item(l) => assert_eq!((l.text.clone(), l.fg, l.bold), (text("six"), Some(Color::White), false)),
        Entry::Space(_) => panic!("expected a label"),
    }
    let hidden = Tabs::new(TabSide::Hidden, pages());
    assert!(hidden.layout_tabs().is_none());
}

#[test]
fn tabs_strip_window() {
    let mut tabs = Tabs::new(TabSide::Left, pages());
    tabs.resize(0);
    let strip = tabs.layout_tabs().unwrap();
    assert_eq!(strip.entries.len(), 1);
    tabs.resize(1);
    assert!(tabs.handle(Event::Down));
    assert!(tabs.handle(Event::Up));
    assert_eq!(tabs.scroll.offset, 0);
    let strip = tabs.layout_tabs().unwrap();
    assert_eq!(strip.entries.len(), 2);
}

#[test]
fn tabs_render_left_with_page() {
    let mut tabs = Tabs::new(TabSide::Left, pages());
    tabs.resize(5);
    tabs.select_next();
    tabs.select_prev();
    assert_eq!(tabs.scroll.offset, 0);
    let mut out = Vec::new();
    let used = tabs.render(&mut out, Area(0, 0, 20, 5));
    assert_eq!(used, (3, 3));
    assert_eq!(
        prints(&out),
        vec![(0, 0, "one".to_string()), (0, 1, "two".to_string()), (0, 2, "six".to_string())]
    );
    tabs.enter();
    let mut out = Vec::new();
    let used = tabs.render(&mut out, Area(0, 0, 20, 5));
    assert_eq!(used, (12, 3));
    assert_eq!(prints(&out)[3], (4, 0, "page one".to_string()));
}

#[test]
fn tabs_render_right_puts_page_first() {
    let mut tabs = Tabs::new(TabSide::Right, pages());
    tabs.resize(5);
    tabs.select_next();
    tabs.select_prev();
    tabs.enter();
    let mut out = Vec::new();
    tabs.render(&mut out, Area(0, 0, 20, 5));
    let p = prints(&out);
    assert_eq!(p[0], (0, 0, "page one".to_string()));
    assert_eq!(p[1], (9, 0, "one".to_string()));
}

#[test]
fn default_tabs_theme_colors() {
    let t = DefaultTabsTheme;
    assert_eq!(t.foreground(true, false), Some(Color::White));
    assert_eq!(t.background(false, true), Some(Color::Black));
}

fn names(v: &[(&str, bool)]) -> Vec<(String, bool)> {
    v.iter().map(|(n, d)| (n.to_string(), *d)).collect()
}

#[test]
fn listing_sorts_directories_then_files() {
    let (entries, max_len) = directory_listing(names(&[
        ("b.txt", false),
        ("src", true),
        ("a.rs", false),
        ("Cargo", true),
    ]));
    let shown: Vec<(&str, bool)> = entries.iter().map(|e| (e.path.as_str(), e.is_dir)).collect();
    assert_eq!(
        shown,
        vec![("..", true), ("Cargo", true), ("src", true), ("a.rs", false), ("b.txt", false)]
    );
    assert_eq!(max_len, 32);
    assert!(entries.iter().all(|e| !e.focused));
}

#[test]
fn listing_longest_name_in_bytes() {
    let long = "x".repeat(40);
    let (_, max_len) = directory_listing(names(&[(long.as_str(), false), ("a", true)]));
    assert_eq!(max_len, 40);
    let accented = "é".repeat(20);
    let (entries, max_len) = directory_listing(names(&[(accented.as_str(), true)]));
    assert_eq!(max_len, 40);
    assert_eq!(entries.len(), 2);
    let (entries, max_len) = directory_listing(vec![]);
    assert_eq!(max_len, 32);
    assert_eq!(entries.len(), 1);
    assert_eq!(entries[0].path, "..");
}

#[test]
fn file_entry_kinds() {
    assert!(FileEntry::dir("d").is_dir);
    assert!(!FileEntry::file("f").is_dir);
    assert_eq!(FileEntry::file("f").path, "f");
}

#[test]
fn file_list_rows_and_keys() {
    let mut list = FileList::new();
    assert!(list.selected().is_none());
    let (entries, _) = directory_listing(names(&[("notes", false), ("docs", true)]));
    list.update(entries);
    assert_eq!(list.selected().map(|e| e.path.as_str()), Some(".."));
    assert!(list.handle(Event::Down));
    assert_eq!(list.selected().map(|e| e.path.as_str()), Some("docs"));
    assert!(!list.handle(Event::Enter));
    let mut out = Vec::new();
    let used = list.render(&mut out, Area(0, 0, 30, 10));
    assert_eq!(used, (9, 3));
    assert_eq!(
        prints(&out),
        vec![
            (0, 0, " 📁 ..".to_string()),
            (0, 1, " 📁 docs".to_string()),
            (0, 2, "    notes".to_string()),
        ]
    );
    assert!(out.contains(&Command::SetForeground(Color::Yellow)));
    assert!(list.handle(Event::Down));
    assert!(!list.handle(Event::Down));
    assert!(list.handle(Event::Up));
}

#[test]
fn empty_defaults() {
    let tabs: Tabs<Label> = Tabs::default();
    assert_eq!(tabs.side, TabSide::Left);
    assert_eq!(tabs.len(), 0);
    assert_eq!(tabs.selected(), None);
    assert!(!tabs.open && !tabs.entered);
    let list = FileList::default();
    assert!(list.selected().is_none());
    let mut out = Vec::new();
    assert_eq!(list.render(&mut out, Area(0, 0, 5, 5)), (0, 0));
    assert!(out.is_empty());
}
