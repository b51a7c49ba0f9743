use mdr::cli::parse_args;
use mdr::picker::{is_markdown, kind_order, parent_of, PickerEntryKind};
use mdr::queue::{DocumentQueue, QueuedDocument};
use mdr::textutil::render_plain_lines;

fn args(list: &[&str]) -> Vec<String> {
    list.iter().map(|s| s.to_string()).collect()
}

#[test]
fn parses_no_beeline_and_multiple_inputs() {
    let parsed = parse_args(&args(&["mdr", "--no-beeline", "a.md", "docs"])).unwrap();
    assert!(!parsed.enable_beeline);
    assert_eq!(parsed.inputs, vec!["a.md".to_string(), "docs".to_string()]);
}

#[test]
fn returns_usage_error_when_no_inputs() {
    let err = parse_args(&args(&["mdr"])).unwrap_err();
    assert!(err.contains("Usage: mdr"));
}

#[test]
fn next_and_prev_wrap_across_queue() {
    let docs = vec![
        QueuedDocument::new("a.md".into(), "a".into()),
        QueuedDocument::new("b.md".into(), "b".into()),
    ];
    let mut q = DocumentQueue::new(docs).unwrap();
    q.next();
    assert_eq!(q.current().path, "b.md");
    q.next();
    assert_eq!(q.current().path, "a.md");
    q.prev();
    assert_eq!(q.current().path, "b.md");
}

#[test]
fn empty_queue_is_rejected() {
    let err = DocumentQueue::new(Vec::new()).unwrap_err();
    assert_eq!(err, "Document queue cannot be empty");
}

#[test]
fn focus_by_path_and_index() {
    let docs = vec![
        QueuedDocument::new("a.md".into(), "a".into()),
        QueuedDocument::new("b.md".into(), "b".into()),
        QueuedDocument::new("c.md".into(), "c".into()),
    ];
    let mut q = DocumentQueue::new(docs).unwrap();
    assert!(q.focus_existing("c.md"));
    assert_eq!(q.current_index(), 2);
    assert!(!q.focus_existing("missing.md"));
    assert_eq!(q.current_index(), 2);
    assert!(q.focus_index(1));
    assert_eq!(q.current_index(), 1);
    assert!(!q.focus_index(9));
    q.push_and_focus(QueuedDocument::new("d.md".into(), "d".into()));
    assert_eq!(q.current().path, "d.md");
    assert_eq!(q.len(), 4);
    assert_eq!(q.documents().len(), 4);
}

#[test]
fn markdown_extensions_match_case_insensitively() {
    assert!(is_markdown("notes/a.md"));
    assert!(is_markdown("README.MARKDOWN"));
    assert!(is_markdown("x.mdown"));
    assert!(is_markdown("x.mdx"));
    assert!(!is_markdown("archive.tar"));
    assert!(!is_markdown("no_extension"));
    assert!(!is_markdown(".md"));
    assert!(!is_markdown("dir.md/file"));
}

#[test]
fn picker_kinds_sort_parent_then_directories_then_files() {
    assert_eq!(kind_order(&PickerEntryKind::Parent), 0);
    assert_eq!(kind_order(&PickerEntryKind::Directory), 1);
    assert_eq!(kind_order(&PickerEntryKind::MarkdownFile), 2);
}

#[test]
fn parent_paths_walk_toward_the_root() {
    assert_eq!(parent_of("/a/b").as_deref(), Some("/a"));
    assert_eq!(parent_of("/a").as_deref(), Some("/"));
    assert_eq!(parent_of("/"), None);
    assert_eq!(parent_of(""), None);
    assert_eq!(parent_of("plain").as_deref(), Some(""));
}

#[test]
fn plain_lines_split_on_newlines() {
    let text = "first\nsecond\r\n\nlast";
    assert_eq!(render_plain_lines(text), vec!["first", "second", "", "last"]);
    assert_eq!(render_plain_lines(""), Vec::<String>::new());
    assert_eq!(render_plain_lines("end\n"), vec!["end"]);
    // A carriage return is dropped only before a newline; a bare final one
    // belongs to the last line.
    assert_eq!(render_plain_lines("x\r"), vec!["x\r"]);
}
