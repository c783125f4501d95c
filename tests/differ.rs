use helix_vcs::diff::{count_lines, is_within_budget, perform_diff, MAX_DIFF_BYTES, MAX_DIFF_LINES};
use helix_vcs::{Action, DiffWorker, Event, EventAccumulator, LineDiff, LineDiffs, Wakeup};

fn sorted(line_diffs: &LineDiffs) -> Vec<(usize, LineDiff)> {
    let mut res: Vec<_> = line_diffs.iter().map(|(&line, &op)| (line, op)).collect();
    res.sort_unstable_by_key(|&(line, _)| line);
    res
}

fn initial_diff(diff_base: &str, doc: &str) -> Vec<(usize, LineDiff)> {
    let mut worker = DiffWorker::new(diff_base.to_string(), doc.to_string());
    sorted(&worker.compute())
}

fn published(action: Action) -> Vec<(usize, LineDiff)> {
    match action {
        Action::Publish(m) | Action::PublishAndStop(m) => sorted(&m),
        _ => panic!("nothing was published"),
    }
}

#[test]
fn append_line() {
    let line_diffs = initial_diff("foo\n", "foo\nbar\n");
    assert_eq!(&line_diffs, &[(1, LineDiff::Added)])
}

#[test]
fn prepend_line() {
    let line_diffs = initial_diff("foo\n", "bar\nfoo\n");
    assert_eq!(&line_diffs, &[(0, LineDiff::Added)])
}

#[test]
fn modify() {
    let line_diffs = initial_diff("foo\nbar\n", "foo bar\nbar\n");
    assert_eq!(&line_diffs, &[(0, LineDiff::Modified)])
}

#[test]
fn delete_line() {
    let line_diffs = initial_diff("foo\nfoo bar\nbar\n", "foo\nbar\n");
    assert_eq!(&line_diffs, &[(1, LineDiff::Deleted)])
}

#[test]
fn delete_line_and_modify() {
    let line_diffs = initial_diff("foo\nbar\ntest\nfoo", "foo\ntest\nfoo bar");
    assert_eq!(
        &line_diffs,
        &[(1, LineDiff::Deleted), (2, LineDiff::Modified)]
    )
}

#[test]
fn add_use() {
    let line_diffs = initial_diff(
        "use ropey::Rope;\nuse tokio::task::JoinHandle;\n",
        "use ropey::Rope;\nuse ropey::RopeSlice;\nuse tokio::task::JoinHandle;\n",
    );
    assert_eq!(&line_diffs, &[(1, LineDiff::Added)])
}

#[test]
fn update_document() {
    let mut worker = DiffWorker::new("foo\nbar\ntest\nfoo".to_string(), "foo\nbar\ntest\nfoo".to_string());
    assert!(worker.compute().is_empty());
    let action = worker.on_wakeup(Wakeup::Received(Event::UpdateDocument("foo\ntest\nfoo bar".to_string())));
    assert!(matches!(action, Action::Wait));
    let line_diffs = published(worker.on_wakeup(Wakeup::Closed));
    assert_eq!(
        &line_diffs,
        &[(1, LineDiff::Deleted), (2, LineDiff::Modified)]
    )
}

#[test]
fn update_base() {
    let mut worker = DiffWorker::new("foo\ntest\nfoo bar".to_string(), "foo\ntest\nfoo bar".to_string());
    assert!(worker.compute().is_empty());
    let action = worker.on_wakeup(Wakeup::Received(Event::UpdateDiffBase("foo\nbar\ntest\nfoo".to_string())));
    assert!(matches!(action, Action::Wait));
    let line_diffs = published(worker.on_wakeup(Wakeup::Closed));
    assert_eq!(
        &line_diffs,
        &[(1, LineDiff::Deleted), (2, LineDiff::Modified)]
    )
}

#[test]
fn new_document_replaces_previous_markers() {
    let mut worker = DiffWorker::new("a\nb\nc\n".to_string(), "a\nx\nc\n".to_string());
    assert_eq!(sorted(&worker.compute()), vec![(1, LineDiff::Modified)]);
    worker.on_wakeup(Wakeup::Received(Event::UpdateDocument("a\nb\nc\nd\n".to_string())));
    let line_diffs = published(worker.on_wakeup(Wakeup::Quiet));
    assert_eq!(line_diffs, vec![(3, LineDiff::Added)]);
}

#[test]
fn new_base_uses_known_document() {
    let mut worker = DiffWorker::new("foo\n".to_string(), "foo\nbar\n".to_string());
    worker.on_wakeup(Wakeup::Received(Event::UpdateDiffBase("bar\n".to_string())));
    let line_diffs = published(worker.on_wakeup(Wakeup::Quiet));
    assert_eq!(line_diffs, vec![(0, LineDiff::Added)]);
}

#[test]
fn base_and_document_in_one_burst() {
    let mut worker = DiffWorker::new("x\n".to_string(), "y\n".to_string());
    worker.on_wakeup(Wakeup::Received(Event::UpdateDocument("foo\nbar\n".to_string())));
    worker.on_wakeup(Wakeup::Received(Event::UpdateDiffBase("foo\n".to_string())));
    let line_diffs = published(worker.on_wakeup(Wakeup::Quiet));
    assert_eq!(line_diffs, vec![(1, LineDiff::Added)]);
}

#[test]
fn burst_publishes_only_last_document() {
    let mut worker = DiffWorker::new("foo\n".to_string(), "foo\n".to_string());
    for doc in ["bar\n", "foo\nbar\n", "baz\nfoo\n", "foo\nqux\n"] {
        let action = worker.on_wakeup(Wakeup::Received(Event::UpdateDocument(doc.to_string())));
        assert!(matches!(action, Action::Wait));
        assert!(worker.is_draining());
    }
    let line_diffs = published(worker.on_wakeup(Wakeup::Quiet));
    assert_eq!(line_diffs, vec![(1, LineDiff::Added)]);
    assert!(!worker.is_draining());
    assert!(matches!(worker.on_wakeup(Wakeup::Quiet), Action::Wait));
}

#[test]
fn closed_queue_with_nothing_pending_stops() {
    let mut worker = DiffWorker::new("foo\n".to_string(), "foo\n".to_string());
    assert!(matches!(worker.on_wakeup(Wakeup::Closed), Action::Stop));
}

#[test]
fn closed_queue_processes_pending_work() {
    let mut worker = DiffWorker::new("foo\n".to_string(), "foo\n".to_string());
    worker.on_wakeup(Wakeup::Received(Event::UpdateDocument("bar\nfoo\n".to_string())));
    let action = worker.on_wakeup(Wakeup::Closed);
    assert!(matches!(action, Action::PublishAndStop(_)));
    assert_eq!(published(action), vec![(0, LineDiff::Added)]);
}

#[test]
fn recycled_map_is_empty_for_next_computation() {
    let mut worker = DiffWorker::new("foo\n".to_string(), "foo\nbar\n".to_string());
    let first = worker.compute();
    assert_eq!(sorted(&first), vec![(1, LineDiff::Added)]);
    worker.recycle(first);
    assert_eq!(sorted(&worker.compute()), vec![(1, LineDiff::Added)]);
}

#[test]
fn identical_texts_have_no_markers() {
    assert!(initial_diff("a\nb\n", "a\nb\n").is_empty());
    assert!(initial_diff("", "").is_empty());
}

#[test]
fn trailing_deletion_anchors_past_last_line() {
    assert_eq!(initial_diff("a\nb\nc\n", "a\n"), vec![(1, LineDiff::Deleted)]);
}

#[test]
fn oversized_document_has_no_markers() {
    let big = "x\n".repeat(MAX_DIFF_LINES);
    assert!(!is_within_budget(&big));
    let mut line_diffs = LineDiffs::new();
    perform_diff(&mut line_diffs, "a\n", &big);
    assert!(line_diffs.is_empty());
    let long_line = "y".repeat(MAX_DIFF_BYTES + 1);
    assert!(!is_within_budget(&long_line));
}

#[test]
fn line_budget_edges() {
    assert_eq!(count_lines(""), 1);
    assert_eq!(count_lines("a\nb"), 2);
    assert_eq!(count_lines("a\nb\n"), 3);
    let at_limit = "x\n".repeat(MAX_DIFF_LINES - 1);
    assert_eq!(count_lines(&at_limit), MAX_DIFF_LINES);
    assert!(is_within_budget(&at_limit));
}

#[test]
fn accumulator_keeps_newest_of_each_kind() {
    let mut acc = EventAccumulator::new();
    assert!(acc.is_empty());
    acc.handle_event(Event::UpdateDocument("one".to_string()));
    acc.handle_event(Event::UpdateDiffBase("base".to_string()));
    acc.handle_event(Event::UpdateDocument("two".to_string()));
    assert!(!acc.is_empty());
    assert_eq!(acc.doc.as_deref(), Some("two"));
    assert_eq!(acc.diff_base.as_deref(), Some("base"));
}
