use cxt::cli::{has_wildcards, Args, ClipboardUse};
use cxt::content_aggregator::{ContentAggregator, PathKind};
use cxt::listing::WalkItem;
use cxt::output::{clipboard_text, clipboard_tools, ClipboardTool, FileWriteChoice};

fn item(text: &str, depth: usize, is_dir: bool) -> WalkItem {
    let parts: Vec<String> = std::iter::once("/".to_string())
        .chain(text.split('/').filter(|s| !s.is_empty()).map(|s| s.to_string()))
        .collect();
    WalkItem { text: text.to_string(), parts, depth, is_dir }
}

fn tree() -> Vec<WalkItem> {
    vec![
        item("/d", 0, true),
        item("/d/visible.txt", 1, false),
        item("/d/.hidden.txt", 1, false),
        item("/d/.git", 1, true),
        item("/d/.git/config", 2, false),
        item("/d/sub", 1, true),
        item("/d/sub/x.txt", 2, false),
    ]
}

#[test]
fn test_aggregate_nonexistent_path() {
    let aggregator = ContentAggregator::new(false, false, false, vec![]);
    let result = aggregator.aggregate_paths(&vec!["nonexistent_file.txt".to_string()], &vec![PathKind::Missing]);
    assert!(result.is_err());
    assert!(result.unwrap_err().contains("Path does not exist"));
}

#[test]
fn missing_path_error_names_the_first_missing_path() {
    let aggregator = ContentAggregator::new(false, false, false, vec![]);
    let paths = vec!["a.txt".to_string(), "gone.txt".to_string(), "also_gone".to_string()];
    let kinds = vec![PathKind::File, PathKind::Missing, PathKind::Missing];
    assert_eq!(aggregator.aggregate_paths(&paths, &kinds), Err("Path does not exist: gone.txt".to_string()));
}

#[test]
fn files_stand_for_themselves_and_ignored_ones_are_left_out() {
    let aggregator = ContentAggregator::new(false, false, false, vec!["skip".to_string()]);
    let paths = vec!["a.txt".to_string(), "skip/b.txt".to_string(), "skip".to_string(), "fifo".to_string()];
    let kinds = vec![PathKind::File, PathKind::File, PathKind::Dir, PathKind::Other];
    assert_eq!(aggregator.aggregate_paths(&paths, &kinds), Ok(vec!["a.txt".to_string()]));
}

#[test]
fn directory_walk_leaves_out_hidden_entries() {
    let aggregator = ContentAggregator::new(false, false, false, vec![]);
    assert_eq!(aggregator.directory_files(&tree()), vec!["/d/visible.txt".to_string(), "/d/sub/x.txt".to_string()]);
}

#[test]
fn directory_walk_takes_hidden_entries_when_asked() {
    let aggregator = ContentAggregator::new(false, false, true, vec![]);
    assert_eq!(
        aggregator.directory_files(&tree()),
        vec![
            "/d/visible.txt".to_string(),
            "/d/.hidden.txt".to_string(),
            "/d/.git/config".to_string(),
            "/d/sub/x.txt".to_string(),
        ]
    );
}

#[test]
fn directory_walk_leaves_out_ignored_subtrees() {
    let aggregator = ContentAggregator::new(false, false, true, vec!["/d/sub".to_string(), "/d/.hidden.txt".to_string()]);
    assert_eq!(
        aggregator.directory_files(&tree()),
        vec!["/d/visible.txt".to_string(), "/d/.git/config".to_string()]
    );
}

#[test]
fn aggregate_file_adds_header_content_and_line_break() {
    let mut aggregator = ContentAggregator::new(false, false, false, vec![]);
    let mut content = String::new();
    let path = "/t/test.txt".to_string();
    aggregator.aggregate_file(&path, &"Hello, World!".to_string(), &None, &None, &mut content);
    assert_eq!(content, "--- File: /t/test.txt ---\nHello, World!\n");
    assert_eq!(aggregator.file_count(), 1);
}

#[test]
fn aggregate_file_without_headers_keeps_final_line_break() {
    let mut aggregator = ContentAggregator::new(false, true, false, vec![]);
    let mut content = String::new();
    let path = "/t/a.txt".to_string();
    aggregator.aggregate_file(&path, &"one\n".to_string(), &None, &None, &mut content);
    aggregator.aggregate_file(&path, &"two".to_string(), &None, &None, &mut content);
    assert_eq!(content, "one\ntwo\n");
    assert!(!content.contains("--- File:"));
    assert_eq!(aggregator.file_count(), 2);
}

fn args() -> Args {
    Args {
        paths: vec![],
        print: false,
        write: None,
        relative: false,
        no_path: false,
        hidden: false,
        ci: false,
        tui: false,
        ignore: vec![],
    }
}

#[test]
fn validate_rejects_relative_with_no_path() {
    let mut a = args();
    a.relative = true;
    a.no_path = true;
    assert_eq!(a.validate(&vec![]), Err("Cannot use --relative and --no-path together".to_string()));
}

#[test]
fn validate_rejects_missing_ignore_path() {
    let mut a = args();
    a.ignore = vec!["target".to_string(), "nowhere".to_string()];
    assert_eq!(a.validate(&vec![true, false]), Err("Ignore path does not exist: nowhere".to_string()));
    assert_eq!(a.validate(&vec![true, true]), Ok(()));
}

#[test]
fn wildcards_are_detected() {
    assert!(has_wildcards(&"src/*.rs".to_string()));
    assert!(has_wildcards(&"file?.txt".to_string()));
    assert!(has_wildcards(&"[ab].txt".to_string()));
    assert!(!has_wildcards(&"src/main.rs".to_string()));
}

#[test]
fn picker_and_clipboard_decisions() {
    let mut a = args();
    assert!(a.wants_picker());
    assert_eq!(a.clipboard_use(), ClipboardUse::Required);
    a.paths = vec!["x".to_string()];
    assert!(!a.wants_picker());
    a.print = true;
    assert_eq!(a.clipboard_use(), ClipboardUse::BestEffort);
    a.print = false;
    a.write = Some("out.txt".to_string());
    assert_eq!(a.clipboard_use(), ClipboardUse::Skip);
    a.write = None;
    a.ci = true;
    assert_eq!(a.clipboard_use(), ClipboardUse::Skip);
}

#[test]
fn conflict_choice_by_index() {
    assert_eq!(FileWriteChoice::from_index(0), FileWriteChoice::Replace);
    assert_eq!(FileWriteChoice::from_index(1), FileWriteChoice::Append);
    assert_eq!(FileWriteChoice::from_index(2), FileWriteChoice::Cancel);
    assert_eq!(FileWriteChoice::from_index(7), FileWriteChoice::Cancel);
}

#[test]
fn clipboard_tool_order_by_session() {
    let empty = String::new();
    assert_eq!(clipboard_tools(true, &empty, &empty, &empty), vec![ClipboardTool::ClipExe]);
    assert_eq!(
        clipboard_tools(false, &"Wayland".to_string(), &empty, &":0".to_string()),
        vec![ClipboardTool::WlCopy, ClipboardTool::Copyq, ClipboardTool::Clipman, ClipboardTool::Cliphist, ClipboardTool::GpasteClient, ClipboardTool::Clipse, ClipboardTool::Arboard, ClipboardTool::Xclip]
    );
    assert_eq!(
        clipboard_tools(false, &"x11".to_string(), &empty, &empty),
        vec![ClipboardTool::Arboard, ClipboardTool::Copyq, ClipboardTool::Clipman, ClipboardTool::Cliphist, ClipboardTool::GpasteClient, ClipboardTool::Clipse, ClipboardTool::WlCopy]
    );
    assert_eq!(
        clipboard_tools(false, &empty, &"wayland-0".to_string(), &empty),
        vec![ClipboardTool::WlCopy, ClipboardTool::Copyq, ClipboardTool::Clipman, ClipboardTool::Cliphist, ClipboardTool::GpasteClient, ClipboardTool::Clipse, ClipboardTool::Arboard]
    );
}

#[test]
fn clipboard_text_uses_crlf_for_windows() {
    let text = "a\nb\n".to_string();
    assert_eq!(clipboard_text(&text, ClipboardTool::ClipExe), "a\r\nb\r\n");
    assert_eq!(clipboard_text(&text, ClipboardTool::Xclip), "a\nb\n");
}

#[test]
fn error_on_conflicting_flags() {
    let mut a = args();
    a.ci = true;
    a.relative = true;
    a.no_path = true;
    a.paths = vec![".".to_string()];
    let result = a.validate(&vec![]);
    assert!(result.unwrap_err().contains("Cannot use --relative and --no-path together"));
}

#[test]
fn error_on_nonexistent_file() {
    let aggregator = ContentAggregator::new(false, false, false, vec![]);
    let result = aggregator.aggregate_paths(&vec!["nonexistent_file.txt".to_string()], &vec![PathKind::Missing]);
    assert!(result.unwrap_err().contains("Path does not exist"));
}

#[test]
fn error_on_nonexistent_directory() {
    let aggregator = ContentAggregator::new(false, false, false, vec![]);
    let result = aggregator.aggregate_paths(&vec!["nonexistent_directory/".to_string()], &vec![PathKind::Missing]);
    assert!(result.unwrap_err().contains("Path does not exist"));
}

#[test]
fn plan_takes_files_then_directory_walks_in_order() {
    let aggregator = ContentAggregator::new(false, false, false, vec!["/d/sub".to_string()]);
    let paths = vec!["a.txt".to_string(), "/d".to_string(), "b.txt".to_string()];
    let kinds = vec![PathKind::File, PathKind::Dir, PathKind::File];
    let walks = vec![vec![], tree(), vec![]];
    assert_eq!(
        aggregator.plan_paths(&paths, &kinds, &walks),
        Ok(vec!["a.txt".to_string(), "/d/visible.txt".to_string(), "b.txt".to_string()])
    );
}
