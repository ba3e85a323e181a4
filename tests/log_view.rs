use log_tail::buffer::MAX_LINES;
use log_tail::filter::entry_matches_filter;
use log_tail::view::{read_error_toast, EmptyState, ListUpdate, OpenLogEvent, OpenLogView};
use log_tail::watch::{Reconciliation, WatchCursor};

fn numbered(prefix: &str, count: usize) -> String {
    let mut text = String::new();
    for i in 0..count {
        text.push_str(&format!("{} {}\n", prefix, i));
    }
    text
}

fn all_lines(view: &OpenLogView) -> Vec<String> {
    (0..view.line_count()).map(|i| view.line(i).unwrap().clone()).collect()
}

fn visible_lines(view: &OpenLogView) -> Vec<String> {
    (0..view.matched_count()).map(|i| view.visible_line(i).unwrap().clone()).collect()
}

fn toast_text(event: OpenLogEvent) -> String {
    match event {
        OpenLogEvent::ShowToast(message) => message,
    }
}

fn primed(count: usize) -> OpenLogView {
    let mut view = OpenLogView::new();
    view.bootstrap(None, Ok(numbered("line", count))).unwrap();
    view
}

#[test]
fn new_view_is_empty() {
    let view = OpenLogView::new();
    assert_eq!(view.line_count(), 0);
    assert_eq!(view.matched_count(), 0);
    assert_eq!(view.last_known_line_count(), 0);
    assert_eq!(view.search_query(), "");
    assert!(!view.has_lines());
    assert_eq!(view.empty_state(), Some(EmptyState::NoEntries));
}

#[test]
fn replace_keeps_newest_lines_when_over_capacity() {
    let mut view = OpenLogView::new();
    let lines: Vec<String> = (0..MAX_LINES + 5).map(|i| format!("l{}", i)).collect();
    let update = view.set_lines(&lines);
    assert_eq!(update, ListUpdate::Reset(MAX_LINES));
    assert_eq!(view.line_count(), MAX_LINES);
    assert_eq!(view.line(0).unwrap(), "l5");
    assert_eq!(view.line(MAX_LINES - 1).unwrap(), "l1004");
}

#[test]
fn append_evicts_oldest_first() {
    let mut view = OpenLogView::new();
    let first: Vec<String> = (0..MAX_LINES).map(|i| format!("a{}", i)).collect();
    view.set_lines(&first);
    let more = vec!["b0".to_string(), "b1".to_string(), "b2".to_string()];
    let update = view.append_lines(&more, 1);
    assert_eq!(update, ListUpdate::Remeasure);
    assert_eq!(view.line_count(), MAX_LINES);
    assert_eq!(view.line(0).unwrap(), "a2");
    assert_eq!(view.line(MAX_LINES - 2).unwrap(), "b1");
    assert_eq!(view.line(MAX_LINES - 1).unwrap(), "b2");
}

#[test]
fn filter_is_case_insensitive_substring() {
    let mut view = OpenLogView::new();
    let lines = vec![
        "INFO started".to_string(),
        "error: disk full".to_string(),
        "Warn: slow".to_string(),
        "ERROR again".to_string(),
    ];
    view.set_lines(&lines);
    assert_eq!(view.set_search_query("Error".to_string()), ListUpdate::Reset(2));
    assert_eq!(visible_lines(&view), vec!["error: disk full", "ERROR again"]);
    assert_eq!(view.visible_line(2), None);
    assert_eq!(view.set_search_query("zzz".to_string()), ListUpdate::Reset(0));
    assert_eq!(view.empty_state(), Some(EmptyState::NoMatches));
    assert_eq!(view.set_search_query(String::new()), ListUpdate::Reset(4));
    assert_eq!(visible_lines(&view), all_lines(&view));
    assert_eq!(view.empty_state(), None);
}

#[test]
fn entry_match_lowercases_both_sides() {
    assert!(entry_matches_filter("Hello World", "WORLD"));
    assert!(entry_matches_filter("Hello World", "lo wo"));
    assert!(!entry_matches_filter("Hello World", "worlds"));
    assert!(entry_matches_filter("", ""));
    assert!(!entry_matches_filter("", "a"));
}

#[test]
fn reconcile_append_after_growth() {
    let mut view = primed(5);
    assert_eq!(view.last_known_line_count(), 5);
    let result = view.reload(Ok(numbered("line", 8))).unwrap();
    assert_eq!(result, Some(ListUpdate::Reset(8)));
    assert_eq!(view.last_known_line_count(), 8);
    assert_eq!(view.line_count(), 8);
    assert_eq!(view.line(5).unwrap(), "line 5");
    assert_eq!(view.line(7).unwrap(), "line 7");
}

#[test]
fn reconcile_replace_after_truncation() {
    let mut view = primed(10);
    let result = view.reload(Ok("x\ny\nz\n".to_string())).unwrap();
    assert_eq!(result, Some(ListUpdate::Reset(3)));
    assert_eq!(view.last_known_line_count(), 3);
    assert_eq!(all_lines(&view), vec!["x", "y", "z"]);
}

#[test]
fn reconcile_same_count_changes_nothing() {
    let mut view = primed(7);
    let result = view.reload(Ok(numbered("other", 7))).unwrap();
    assert_eq!(result, None);
    assert_eq!(view.last_known_line_count(), 7);
    assert_eq!(view.line(0).unwrap(), "line 0");
}

#[test]
fn cursor_decisions() {
    let mut cursor = WatchCursor::new(5);
    assert_eq!(cursor.reconcile(8), Reconciliation::Append { skip: 5 });
    assert_eq!(cursor.last_known_line_count(), 8);
    assert_eq!(cursor.reconcile(3), Reconciliation::Replace);
    assert_eq!(cursor.reconcile(3), Reconciliation::Unchanged);
    assert_eq!(cursor.last_known_line_count(), 3);
}

#[test]
fn bootstrap_puts_previous_run_first() {
    let mut view = OpenLogView::new();
    view.bootstrap(Some("old 1\nold 2\n".to_string()), Ok("new 1\r\nnew 2".to_string()))
        .unwrap();
    assert_eq!(all_lines(&view), vec!["old 1", "old 2", "new 1", "new 2"]);
    assert_eq!(view.last_known_line_count(), 2);
}

#[test]
fn bootstrap_bounds_combined_lines() {
    let mut view = OpenLogView::new();
    view.bootstrap(Some(numbered("old", 600)), Ok(numbered("new", 600))).unwrap();
    assert_eq!(view.line_count(), MAX_LINES);
    assert_eq!(view.line(0).unwrap(), "old 200");
    assert_eq!(view.line(MAX_LINES - 1).unwrap(), "new 599");
    assert_eq!(view.last_known_line_count(), 600);
}

#[test]
fn bootstrap_without_previous_run_is_silent() {
    let mut view = OpenLogView::new();
    let result = view.bootstrap(None, Ok("only\n".to_string()));
    assert!(result.is_ok());
    assert_eq!(all_lines(&view), vec!["only"]);
}

#[test]
fn bootstrap_with_current_run_unreadable_uses_previous_run() {
    let mut view = OpenLogView::new();
    let result = view.bootstrap(Some("old\n".to_string()), Err("missing".to_string()));
    assert_eq!(result.unwrap(), ListUpdate::Reset(1));
    assert_eq!(all_lines(&view), vec!["old"]);
    assert_eq!(view.last_known_line_count(), 0);
}

#[test]
fn bootstrap_with_both_unreadable_reports_error() {
    let mut view = OpenLogView::new();
    let result = view.bootstrap(None, Err("No such file".to_string()));
    let event = result.err().unwrap();
    assert_eq!(toast_text(event), "Failed to read log: No such file");
    assert_eq!(view.line_count(), 0);
}

#[test]
fn failed_reload_reports_and_keeps_state() {
    let mut view = primed(4);
    let event = view.reload(Err("denied".to_string())).err().unwrap();
    assert_eq!(toast_text(event), "Failed to read log: denied");
    assert_eq!(view.line_count(), 4);
    assert_eq!(view.last_known_line_count(), 4);
}

#[test]
fn read_error_message_text() {
    assert_eq!(toast_text(read_error_toast("boom")), "Failed to read log: boom");
}

#[test]
fn same_query_twice_only_remeasures() {
    let mut view = primed(6);
    assert_eq!(view.set_search_query("line 1".to_string()), ListUpdate::Reset(1));
    assert_eq!(view.set_search_query("line 1".to_string()), ListUpdate::Remeasure);
    assert_eq!(view.matched_count(), 1);
}

#[test]
fn clear_then_growth_appends_beyond_cursor() {
    let mut view = primed(3);
    assert_eq!(view.clear_lines(), ListUpdate::Reset(0));
    assert_eq!(view.line_count(), 0);
    assert_eq!(view.matched_count(), 0);
    assert_eq!(view.last_known_line_count(), 3);
    let result = view.reload(Ok(numbered("line", 5))).unwrap();
    assert_eq!(result, Some(ListUpdate::Reset(2)));
    assert_eq!(all_lines(&view), vec!["line 3", "line 4"]);
}

#[test]
fn filter_survives_appends() {
    let mut view = primed(2);
    view.set_search_query("LINE 2".to_string());
    assert_eq!(view.matched_count(), 0);
    view.reload(Ok(numbered("line", 3))).unwrap();
    assert_eq!(visible_lines(&view), vec!["line 2"]);
}
