use cxt::browser::{AppState, Key, Mode, Step};
use cxt::listing::{DirItem, Entry, WalkItem};
use cxt::path::NodePath;
use cxt::search::rank_matches;
use cxt::selection::{resolve_walks, Selection, TreeWalk};
use cxt::viewport::fit_view;

fn path(parts: &[&str]) -> NodePath {
    NodePath::from_parts(parts.iter().map(|s| s.to_string()).collect())
}

fn file(name: &str) -> DirItem {
    DirItem { name: name.to_string(), is_dir: false }
}

fn dir(name: &str) -> DirItem {
    DirItem { name: name.to_string(), is_dir: true }
}

fn names(v: &[Entry]) -> Vec<String> {
    v.iter().map(|e| e.name.clone()).collect()
}

/// A directory that does not exist, so that searches under it find nothing.
fn nowhere() -> NodePath {
    path(&["cxt-picker-tests-nonexistent", "dir"])
}

fn walk_item(root: &[&str], rel: &[&str], is_dir: bool) -> WalkItem {
    let mut parts: Vec<String> = vec!["/".to_string()];
    parts.extend(root.iter().map(|s| s.to_string()));
    parts.extend(rel.iter().map(|s| s.to_string()));
    let text = format!("/{}", parts[1..].join("/"));
    WalkItem { text, parts, depth: rel.len(), is_dir }
}

#[test]
fn listing_puts_directories_first_then_names() {
    let app = AppState::new(path(&["r"]), &vec![file("b.txt"), dir("A"), file("a.txt"), dir("Z"), file("B.txt")]);
    assert_eq!(names(app.entries()), vec!["A", "Z", "B.txt", "a.txt", "b.txt"]);
    assert_eq!(app.entries()[0].path, path(&["r", "A"]));
    assert!(app.entries()[0].is_dir);
}

#[test]
fn empty_query_search_lists_entries_in_listing_order() {
    let mut app = AppState::new(path(&["r"]), &vec![file("b.txt"), dir("A")]);
    assert_eq!(app.handle_key(Key::Char('/')), Step::Continue);
    assert_eq!(app.mode(), Mode::SearchInput);
    assert_eq!(names(app.search_results()), vec!["A", "b.txt"]);
    assert_eq!(app.cursor(), 0);
}

#[test]
fn recursive_search_ranks_by_kind_length_and_name() {
    let root = ["r"];
    let walk = vec![
        walk_item(&root, &[], true),
        walk_item(&root, &["foobar.txt"], false),
        walk_item(&root, &["bar"], true),
        walk_item(&root, &["bar", "foo2.txt"], false),
        walk_item(&root, &["foo.txt"], false),
    ];
    let results = rank_matches(&path(&root), &"foo".to_string(), &walk);
    assert_eq!(names(&results), vec!["foo.txt", "foobar.txt", "bar/foo2.txt"]);
    assert_eq!(results[2].path, path(&["r", "bar", "foo2.txt"]));
}

#[test]
fn search_is_case_insensitive_and_puts_directories_first() {
    let root = ["r"];
    let walk = vec![
        walk_item(&root, &[], true),
        walk_item(&root, &["Notes.md"], false),
        walk_item(&root, &["notes"], true),
        walk_item(&root, &["a.txt"], false),
    ];
    let results = rank_matches(&path(&root), &"NOTE".to_string(), &walk);
    assert_eq!(names(&results), vec!["notes", "Notes.md"]);
    assert!(results[0].is_dir);
}

#[test]
fn toggling_one_path_alternates_its_selection() {
    let p = path(&["r", "a.txt"]);
    let mut s = Selection::new();
    for n in 1..=5 {
        s.toggle(&p);
        assert_eq!(s.is_effectively_selected(&p), n % 2 == 1);
    }
}

#[test]
fn exception_beneath_selected_directory() {
    let d = path(&["r", "d"]);
    let f = path(&["r", "d", "f.txt"]);
    let g = path(&["r", "d", "g.txt"]);
    let mut s = Selection::new();
    s.toggle(&d);
    assert!(s.is_effectively_selected(&f));
    s.toggle(&f);
    assert!(!s.is_effectively_selected(&f));
    assert!(s.is_effectively_selected(&d));
    assert!(s.is_effectively_selected(&g));
    s.toggle(&f);
    assert!(s.is_effectively_selected(&f));
    assert!(s.deselected_paths().is_empty());
}

#[test]
fn unselecting_a_directory_drops_exceptions_beneath_it() {
    let d = path(&["r", "d"]);
    let f = path(&["r", "d", "f.txt"]);
    let mut s = Selection::new();
    s.toggle(&d);
    s.toggle(&f);
    assert_eq!(s.deselected_paths().len(), 1);
    s.toggle(&d);
    assert!(s.selected_paths().is_empty());
    assert!(s.deselected_paths().is_empty());
    assert!(!s.is_effectively_selected(&f));
}

#[test]
fn final_selection_holds_only_files_outside_exceptions() {
    let root = ["r", "d"];
    let walk = vec![
        walk_item(&root, &[], true),
        walk_item(&root, &["a.txt"], false),
        walk_item(&root, &["sub"], true),
        walk_item(&root, &["sub", "b.txt"], false),
        walk_item(&root, &["sub", "c.txt"], false),
        walk_item(&root, &["skip"], true),
        walk_item(&root, &["skip", "e.txt"], false),
    ];
    let walks = vec![
        TreeWalk { root: path(&root), items: walk },
        TreeWalk { root: path(&["r", "d", "a.txt"]), items: vec![walk_item(&["r", "d", "a.txt"], &[], false)] },
    ];
    let deselected = vec![path(&["r", "d", "sub", "b.txt"]), path(&["r", "d", "skip"])];
    let r = resolve_walks(&walks, &deselected);
    assert_eq!(r, vec![path(&["r", "d", "a.txt"]), path(&["r", "d", "sub", "c.txt"])]);
}

#[test]
fn viewport_exact_offsets() {
    assert_eq!(fit_view(20, 10, 15, 0), (15, 8));
    assert_eq!(fit_view(20, 10, 9, 8), (9, 7));
    assert_eq!(fit_view(20, 10, 19, 0), (19, 10));
    assert_eq!(fit_view(5, 10, 7, 3), (4, 0));
    assert_eq!(fit_view(0, 10, 3, 2), (0, 0));
    assert_eq!(fit_view(20, 10, 5, 3), (5, 3));
}

#[test]
fn viewport_keeps_cursor_visible_while_scrolling() {
    let items: Vec<DirItem> = (0..30).map(|i| file(&format!("f{:02}", i))).collect();
    let mut app = AppState::new(path(&["r"]), &items);
    for _ in 0..40 {
        app.handle_key(Key::Down);
        app.ensure_cursor_visible(7);
        let (c, s) = (app.cursor(), app.scroll_offset());
        assert!(s <= 30 - 7);
        assert!(s <= c && c <= s + 6);
    }
    assert_eq!(app.cursor(), 29);
    assert_eq!(app.scroll_offset(), 23);
}

#[test]
fn entering_and_leaving_a_directory_restores_position() {
    let mut app = AppState::new(path(&["r"]), &vec![dir("a"), dir("b"), file("c.txt")]);
    app.handle_key(Key::Down);
    app.ensure_cursor_visible(10);
    assert_eq!(app.cursor(), 1);
    assert_eq!(app.handle_key(Key::Enter), Step::Relist);
    assert_eq!(app.current_dir(), &path(&["r", "b"]));
    assert!(app.entries().is_empty());
    app.receive_listing(&vec![file("x.txt"), file("y.txt")]);
    assert_eq!(app.cursor(), 0);
    app.handle_key(Key::Down);
    assert_eq!(app.handle_key(Key::Left), Step::Relist);
    assert_eq!(app.current_dir(), &path(&["r"]));
    assert_eq!(app.cursor(), 1);
    assert_eq!(app.scroll_offset(), 0);
}

#[test]
fn parent_without_memory_starts_at_top_and_root_stays() {
    let mut app = AppState::new(path(&["r"]), &vec![file("a"), file("b")]);
    app.handle_key(Key::Down);
    assert_eq!(app.handle_key(Key::Backspace), Step::Relist);
    assert_eq!(app.current_dir(), &NodePath::root());
    assert_eq!(app.cursor(), 0);
    assert_eq!(app.handle_key(Key::Char('h')), Step::Continue);
    assert_eq!(app.current_dir(), &NodePath::root());
}

#[test]
fn quitting_from_browse_drops_selection() {
    let mut app = AppState::new(path(&["r"]), &vec![file("a.txt")]);
    app.handle_key(Key::Char(' '));
    assert!(!app.selection().selected_paths().is_empty());
    assert_eq!(app.handle_key(Key::Char('q')), Step::Cancelled);
    assert!(app.selection().selected_paths().is_empty());
}

#[test]
fn quitting_from_search_results_drops_selection() {
    let mut app = AppState::new(path(&["r"]), &vec![file("a.txt")]);
    app.handle_key(Key::Char('/'));
    app.handle_key(Key::Enter);
    assert_eq!(app.mode(), Mode::SearchNav);
    app.handle_key(Key::Char(' '));
    assert_eq!(app.handle_key(Key::CtrlC), Step::Cancelled);
    assert!(app.selection().selected_paths().is_empty());
}

#[test]
fn q_in_search_input_is_typed() {
    let mut app = AppState::new(nowhere(), &vec![]);
    app.handle_key(Key::Char('/'));
    assert_eq!(app.handle_key(Key::Char('q')), Step::Continue);
    assert_eq!(app.search_query(), "q");
    assert_eq!(app.handle_key(Key::CtrlC), Step::Continue);
    assert_eq!(app.search_query(), "qc");
    app.handle_key(Key::Backspace);
    assert_eq!(app.search_query(), "q");
    assert!(app.search_results().is_empty());
}

#[test]
fn confirm_with_nothing_selected_warns() {
    let mut app = AppState::new(path(&["r"]), &vec![file("a.txt")]);
    assert_eq!(app.handle_key(Key::Char('c')), Step::Continue);
    assert_eq!(app.message(), "No files or directories selected!");
}

#[test]
fn confirm_of_vanished_file_gives_no_files() {
    let mut app = AppState::new(nowhere(), &vec![file("a.txt")]);
    app.handle_key(Key::Char(' '));
    assert_eq!(app.handle_key(Key::Char('c')), Step::Confirmed(vec![]));
}

#[test]
fn escape_leaves_search_and_restores_cursor() {
    let mut app = AppState::new(path(&["r"]), &vec![file("a"), file("b"), file("c")]);
    app.handle_key(Key::Down);
    app.handle_key(Key::Down);
    app.handle_key(Key::Char('/'));
    assert_eq!(app.cursor(), 0);
    app.handle_key(Key::Enter);
    app.handle_key(Key::Down);
    assert_eq!(app.cursor(), 1);
    assert_eq!(app.handle_key(Key::Esc), Step::Relist);
    assert_eq!(app.mode(), Mode::Browse);
    assert_eq!(app.cursor(), 2);
    assert!(app.search_results().is_empty());
}

#[test]
fn search_results_select_and_open() {
    let mut app = AppState::new(path(&["r"]), &vec![dir("d"), file("f")]);
    app.handle_key(Key::Char('/'));
    app.handle_key(Key::Down);
    app.handle_key(Key::Down);
    assert_eq!(app.cursor(), 1);
    assert_eq!(app.handle_key(Key::Enter), Step::Continue);
    assert!(!app.is_selected(&app.search_results()[1]));
    assert_eq!(app.handle_key(Key::Char(' ')), Step::Continue);
    assert!(app.is_selected(&app.search_results()[1]));
    app.handle_key(Key::Up);
    assert_eq!(app.handle_key(Key::Char('l')), Step::Relist);
    assert_eq!(app.current_dir(), &path(&["r", "d"]));
    assert_eq!(app.mode(), Mode::Browse);
}

#[test]
fn header_flags_toggle() {
    let mut app = AppState::new(path(&["r"]), &vec![]);
    app.handle_key(Key::Char('r'));
    assert!(app.relative());
    app.handle_key(Key::Char('n'));
    assert!(app.no_path());
    assert!(!app.relative());
    app.handle_key(Key::Char('r'));
    assert!(!app.relative());
}

#[test]
fn key_releases_are_ignored() {
    let mut app = AppState::new(path(&["r"]), &vec![file("a"), file("b")]);
    assert_eq!(app.handle_event(Key::Down, false), Step::Continue);
    assert_eq!(app.cursor(), 0);
    assert_eq!(app.handle_event(Key::Char('q'), false), Step::Continue);
    assert_eq!(app.handle_event(Key::Down, true), Step::Continue);
    assert_eq!(app.cursor(), 1);
}

#[test]
fn node_path_text_and_parent() {
    let p = path(&["home", "user", "notes.txt"]);
    assert_eq!(p.to_text(), "/home/user/notes.txt");
    assert_eq!(NodePath::root().to_text(), "/");
    assert_eq!(p.parent(), Some(path(&["home", "user"])));
    assert_eq!(NodePath::root().parent(), None);
    assert!(p.starts_with(&path(&["home"])));
    assert!(!p.starts_with(&path(&["hom"])));
}

#[test]
fn viewport_keeps_cursor_visible_in_low_areas() {
    assert_eq!(fit_view(10, 2, 5, 4), (5, 4));
    assert_eq!(fit_view(10, 2, 7, 4), (7, 6));
    assert_eq!(fit_view(10, 2, 2, 4), (2, 2));
    assert_eq!(fit_view(10, 1, 3, 0), (3, 3));
    assert_eq!(fit_view(2, 1, 0, 0), (0, 0));
    assert_eq!(fit_view(10, 3, 5, 5), (5, 4));
    for h in 1..6usize {
        for c in 0..12usize {
            for s in 0..12usize {
                let (c2, s2) = fit_view(12, h, c, s);
                assert!(s2 <= c2 && c2 <= s2 + h - 1);
                assert!(s2 <= 12 - h);
            }
        }
    }
}

#[test]
fn tied_search_results_keep_walk_order() {
    let root = ["r"];
    let walk = vec![
        walk_item(&root, &[], true),
        walk_item(&root, &["Readme"], false),
        walk_item(&root, &["README"], false),
    ];
    let results = rank_matches(&path(&root), &"read".to_string(), &walk);
    assert_eq!(names(&results), vec!["Readme", "README"]);
    let walk2 = vec![
        walk_item(&root, &[], true),
        walk_item(&root, &["README"], false),
        walk_item(&root, &["Readme"], false),
    ];
    let results2 = rank_matches(&path(&root), &"READ".to_string(), &walk2);
    assert_eq!(names(&results2), vec!["README", "Readme"]);
}
