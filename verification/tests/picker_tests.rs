use resume_picker::picker::{
    BackgroundEvent, Cursor, EmptyStateNotice, KeyPress, LoadError, Page, PickerState,
    ResumeSelection,
};
use resume_picker::rows::{rows_from_items, ContentEntry, HeadRecord, SourceItem};
use std::collections::HashSet;

fn head_with_ts_and_user_text(ts: &str, texts: &[&str]) -> Vec<HeadRecord> {
    vec![
        HeadRecord { timestamp: Some(ts.to_owned()), message: None },
        HeadRecord {
            timestamp: None,
            message: Some(
                texts
                    .iter()
                    .map(|t| ContentEntry::InputText { text: (*t).to_owned() })
                    .collect(),
            ),
        },
    ]
}

fn make_item(path: &str, ts: &str, preview: &str) -> SourceItem {
    SourceItem {
        path: path.to_owned(),
        head: head_with_ts_and_user_text(ts, &[preview]),
        created_at: Some(ts.to_owned()),
        updated_at: Some(ts.to_owned()),
    }
}

fn cursor_from_str(repr: &str) -> Cursor {
    Cursor::new(repr.to_owned())
}

fn page(
    items: Vec<SourceItem>,
    next_cursor: Option<Cursor>,
    num_scanned_files: usize,
    reached_scan_cap: bool,
) -> Page {
    Page { items, next_cursor, num_scanned_files, reached_scan_cap }
}

#[test]
fn rows_from_items_preserves_backend_order() {
    let a = SourceItem {
        path: "/tmp/a.jsonl".to_owned(),
        head: head_with_ts_and_user_text("2025-01-01T00:00:00Z", &["A"]),
        created_at: Some("2025-01-01T00:00:00Z".to_owned()),
        updated_at: Some("2025-01-01T00:00:00Z".to_owned()),
    };
    let b = SourceItem {
        path: "/tmp/b.jsonl".to_owned(),
        head: head_with_ts_and_user_text("2025-01-02T00:00:00Z", &["B"]),
        created_at: Some("2025-01-02T00:00:00Z".to_owned()),
        updated_at: Some("2025-01-02T00:00:00Z".to_owned()),
    };
    let rows = rows_from_items(&vec![a, b]);
    assert_eq!(rows.len(), 2);
    // Preserve the given order even if timestamps differ; the source already
    // yields newest-first.
    assert!(rows[0].preview.contains('A'));
    assert!(rows[1].preview.contains('B'));
}

#[test]
fn pageless_scrolling_deduplicates_and_keeps_order() {
    let mut state = PickerState::new();

    state.reset_pagination();
    state.ingest_page(page(
        vec![
            make_item("/tmp/a.jsonl", "2025-01-03T00:00:00Z", "third"),
            make_item("/tmp/b.jsonl", "2025-01-02T00:00:00Z", "second"),
        ],
        Some(cursor_from_str(
            "2025-01-02T00-00-00|00000000-0000-0000-0000-000000000000",
        )),
        2,
        false,
    ));

    state.ingest_page(page(
        vec![
            make_item("/tmp/a.jsonl", "2025-01-03T00:00:00Z", "duplicate"),
            make_item("/tmp/c.jsonl", "2025-01-01T00:00:00Z", "first"),
        ],
        Some(cursor_from_str(
            "2025-01-01T00-00-00|00000000-0000-0000-0000-000000000001",
        )),
        2,
        false,
    ));

    state.ingest_page(page(
        vec![make_item("/tmp/d.jsonl", "2024-12-31T23:00:00Z", "very old")],
        None,
        1,
        false,
    ));

    let previews: Vec<_> = state
        .filtered_rows
        .iter()
        .map(|row| row.preview.as_str())
        .collect();
    assert_eq!(previews, vec!["third", "second", "first", "very old"]);

    let unique_paths = state
        .filtered_rows
        .iter()
        .map(|row| row.path.clone())
        .collect::<HashSet<_>>();
    assert_eq!(unique_paths.len(), 4);
}

#[test]
fn ensure_minimum_rows_prefetches_when_underfilled() {
    let mut state = PickerState::new();
    state.reset_pagination();
    state.ingest_page(page(
        vec![
            make_item("/tmp/a.jsonl", "2025-01-01T00:00:00Z", "one"),
            make_item("/tmp/b.jsonl", "2025-01-02T00:00:00Z", "two"),
        ],
        Some(cursor_from_str(
            "2025-01-03T00-00-00|00000000-0000-0000-0000-000000000000",
        )),
        2,
        false,
    ));

    assert!(state.dispatched.is_empty());
    state.ensure_minimum_rows_for_view(10);
    assert_eq!(state.dispatched.len(), 1);
    assert!(state.dispatched[0].search_token.is_none());
}

#[test]
fn page_navigation_uses_view_rows() {
    let mut state = PickerState::new();

    let mut items = Vec::new();
    for idx in 0..20 {
        let ts = format!("2025-01-{:02}T00:00:00Z", idx + 1);
        let preview = format!("item-{idx}");
        let path = format!("/tmp/item-{idx}.jsonl");
        items.push(make_item(&path, &ts, &preview));
    }

    state.reset_pagination();
    state.ingest_page(page(items, None, 20, false));
    state.update_view_rows(5);

    assert_eq!(state.selected, 0);
    state.handle_key(KeyPress::PageDown);
    assert_eq!(state.selected, 5);

    state.handle_key(KeyPress::PageDown);
    assert_eq!(state.selected, 10);

    state.handle_key(KeyPress::PageUp);
    assert_eq!(state.selected, 5);
}

#[test]
fn up_at_bottom_does_not_scroll_when_visible() {
    let mut state = PickerState::new();

    let mut items = Vec::new();
    for idx in 0..10 {
        let ts = format!("2025-02-{:02}T00:00:00Z", idx + 1);
        let preview = format!("item-{idx}");
        let path = format!("/tmp/item-{idx}.jsonl");
        items.push(make_item(&path, &ts, &preview));
    }

    state.reset_pagination();
    state.ingest_page(page(items, None, 10, false));
    state.update_view_rows(5);

    state.selected = state.filtered_rows.len().saturating_sub(1);
    state.ensure_selected_visible();

    let initial_top = state.scroll_top;
    assert_eq!(initial_top, state.filtered_rows.len().saturating_sub(5));

    state.handle_key(KeyPress::Up);

    assert_eq!(state.scroll_top, initial_top);
    assert_eq!(state.selected, state.filtered_rows.len().saturating_sub(2));
}

#[test]
fn set_query_loads_until_match_and_respects_scan_cap() {
    let mut state = PickerState::new();
    state.reset_pagination();
    state.ingest_page(page(
        vec![make_item("/tmp/start.jsonl", "2025-01-01T00:00:00Z", "alpha")],
        Some(cursor_from_str(
            "2025-01-02T00-00-00|00000000-0000-0000-0000-000000000000",
        )),
        1,
        false,
    ));
    state.dispatched.clear();

    state.set_query("target".to_owned());
    assert_eq!(state.dispatched.len(), 1);
    let first_request = (
        state.dispatched[0].request_token,
        state.dispatched[0].search_token,
    );

    state
        .handle_background_event(BackgroundEvent::PageLoaded {
            request_token: first_request.0,
            search_token: first_request.1,
            page: Ok(page(
                vec![make_item("/tmp/beta.jsonl", "2025-01-02T00:00:00Z", "beta")],
                Some(cursor_from_str(
                    "2025-01-03T00-00-00|00000000-0000-0000-0000-000000000001",
                )),
                5,
                false,
            )),
        })
        .unwrap();

    assert_eq!(state.dispatched.len(), 2);
    let second_request = (
        state.dispatched[1].request_token,
        state.dispatched[1].search_token,
    );
    assert!(state.search_state.is_active());
    assert!(state.filtered_rows.is_empty());

    state
        .handle_background_event(BackgroundEvent::PageLoaded {
            request_token: second_request.0,
            search_token: second_request.1,
            page: Ok(page(
                vec![make_item(
                    "/tmp/match.jsonl",
                    "2025-01-03T00:00:00Z",
                    "target log",
                )],
                Some(cursor_from_str(
                    "2025-01-04T00-00-00|00000000-0000-0000-0000-000000000002",
                )),
                7,
                false,
            )),
        })
        .unwrap();

    assert!(!state.filtered_rows.is_empty());
    assert!(!state.search_state.is_active());

    state.dispatched.clear();
    state.set_query("missing".to_owned());
    assert_eq!(state.dispatched.len(), 1);
    let active_request = (
        state.dispatched[0].request_token,
        state.dispatched[0].search_token,
    );

    state
        .handle_background_event(BackgroundEvent::PageLoaded {
            request_token: second_request.0,
            search_token: second_request.1,
            page: Ok(page(Vec::new(), None, 0, false)),
        })
        .unwrap();
    assert_eq!(state.dispatched.len(), 1);

    state
        .handle_background_event(BackgroundEvent::PageLoaded {
            request_token: active_request.0,
            search_token: active_request.1,
            page: Ok(page(Vec::new(), None, 3, true)),
        })
        .unwrap();

    assert!(state.filtered_rows.is_empty());
    assert!(!state.search_state.is_active());
    assert!(state.pagination.reached_scan_cap);
}

#[test]
fn exhausted_source_never_refetches() {
    // Scenario: a page with no further cursor exhausts the source; later
    // nudges toward loading stay no-ops and Loading stays idle.
    let mut state = PickerState::new();
    state.ingest_page(page(
        vec![
            make_item("/tmp/a.jsonl", "2025-01-01T00:00:00Z", "one"),
            make_item("/tmp/b.jsonl", "2025-01-02T00:00:00Z", "two"),
        ],
        None,
        2,
        false,
    ));
    assert!(state.pagination.next_cursor.is_none());

    state.ensure_minimum_rows_for_view(10);
    state.update_view_rows(1);
    state.handle_key(KeyPress::Down);
    assert!(!state.pagination.loading.is_pending());
    assert!(state.dispatched.is_empty());
}

#[test]
fn background_no_match_continues_search_with_same_token() {
    // Scenario: an active search whose page brings no match and a further
    // cursor dispatches exactly one follow-up fetch under the same token.
    let mut state = PickerState::new();
    state.ingest_page(page(
        vec![make_item("/tmp/a.jsonl", "2025-01-01T00:00:00Z", "alpha")],
        Some(cursor_from_str("c0")),
        1,
        false,
    ));
    state.set_query("target".to_owned());
    assert_eq!(state.dispatched.len(), 1);
    let tok = state.dispatched[0].search_token;
    let req = state.dispatched[0].request_token;
    assert!(tok.is_some());

    state
        .handle_background_event(BackgroundEvent::PageLoaded {
            request_token: req,
            search_token: tok,
            page: Ok(page(
                vec![make_item("/tmp/b.jsonl", "2025-01-02T00:00:00Z", "still nothing")],
                Some(cursor_from_str("c1")),
                1,
                false,
            )),
        })
        .unwrap();

    assert_eq!(state.dispatched.len(), 2);
    assert_eq!(state.dispatched[1].search_token, tok);
    assert!(state.search_state.is_active());
    assert!(state.pagination.loading.is_pending());
}

#[test]
fn search_goes_idle_when_match_arrives() {
    // Scenario: the query eventually matches on the second ingested page;
    // the search winds down and no further fetch is dispatched.
    let mut state = PickerState::new();
    state.ingest_page(page(
        vec![make_item("/tmp/a.jsonl", "2025-01-01T00:00:00Z", "alpha")],
        Some(cursor_from_str("c0")),
        1,
        false,
    ));
    state.set_query("target".to_owned());
    assert_eq!(state.dispatched.len(), 1);
    let req = state.dispatched[0].request_token;
    let tok = state.dispatched[0].search_token;

    state
        .handle_background_event(BackgroundEvent::PageLoaded {
            request_token: req,
            search_token: tok,
            page: Ok(page(
                vec![make_item("/tmp/hit.jsonl", "2025-01-02T00:00:00Z", "the target entry")],
                Some(cursor_from_str("c1")),
                1,
                false,
            )),
        })
        .unwrap();

    assert!(!state.search_state.is_active());
    assert_eq!(state.filtered_rows.len(), 1);
    assert_eq!(state.filtered_rows[0].preview, "the target entry");
    assert_eq!(state.dispatched.len(), 1);
}

#[test]
fn up_at_top_keeps_selection() {
    // Scenario: pressing "up" at the very top changes nothing.
    let mut state = PickerState::new();
    state.ingest_page(page(
        vec![
            make_item("/tmp/a.jsonl", "2025-01-01T00:00:00Z", "one"),
            make_item("/tmp/b.jsonl", "2025-01-02T00:00:00Z", "two"),
        ],
        None,
        2,
        false,
    ));
    assert_eq!(state.selected, 0);
    let top = state.scroll_top;
    state.handle_key(KeyPress::Up);
    assert_eq!(state.selected, 0);
    assert_eq!(state.scroll_top, top);
}

#[test]
fn stale_response_changes_nothing() {
    let mut state = PickerState::new();
    state.ingest_page(page(
        vec![make_item("/tmp/a.jsonl", "2025-01-01T00:00:00Z", "one")],
        Some(cursor_from_str("c0")),
        1,
        false,
    ));
    state.ensure_minimum_rows_for_view(5);
    assert_eq!(state.dispatched.len(), 1);
    let outstanding = state.dispatched[0].request_token;
    let stale = outstanding.wrapping_add(1);

    let rows_before = state.all_rows.len();
    let scanned_before = state.pagination.num_scanned_files;
    state
        .handle_background_event(BackgroundEvent::PageLoaded {
            request_token: stale,
            search_token: None,
            page: Ok(page(
                vec![make_item("/tmp/zz.jsonl", "2025-01-05T00:00:00Z", "ignored")],
                None,
                9,
                true,
            )),
        })
        .unwrap();

    assert_eq!(state.all_rows.len(), rows_before);
    assert_eq!(state.pagination.num_scanned_files, scanned_before);
    assert!(state.pagination.loading.is_pending());
    assert!(!state.pagination.reached_scan_cap);
    assert_eq!(state.dispatched.len(), 1);
}

#[test]
fn failed_fetch_keeps_accumulated_rows() {
    let mut state = PickerState::new();
    state.ingest_page(page(
        vec![make_item("/tmp/a.jsonl", "2025-01-01T00:00:00Z", "one")],
        Some(cursor_from_str("c0")),
        1,
        false,
    ));
    state.ensure_minimum_rows_for_view(5);
    let outstanding = state.dispatched[0].request_token;

    let result = state.handle_background_event(BackgroundEvent::PageLoaded {
        request_token: outstanding,
        search_token: None,
        page: Err(LoadError { message: "scan failed".to_owned() }),
    });

    let err = result.expect_err("a matching failure surfaces its error");
    assert_eq!(err.message, "scan failed");
    assert!(!state.pagination.loading.is_pending());
    assert_eq!(state.all_rows.len(), 1);
}

#[test]
fn enter_returns_selected_row_path() {
    let mut state = PickerState::new();
    state.ingest_page(page(
        vec![
            make_item("/tmp/a.jsonl", "2025-01-02T00:00:00Z", "newest"),
            make_item("/tmp/b.jsonl", "2025-01-01T00:00:00Z", "older"),
        ],
        None,
        2,
        false,
    ));
    state.handle_key(KeyPress::Down);
    let sel = state.handle_key(KeyPress::Enter);
    assert!(matches!(sel, Some(ResumeSelection::Resume(p)) if p == "/tmp/b.jsonl"));

    assert!(matches!(
        state.handle_key(KeyPress::Esc),
        Some(ResumeSelection::StartFresh)
    ));
    assert!(matches!(
        state.handle_key(KeyPress::CtrlC),
        Some(ResumeSelection::Exit)
    ));
}

#[test]
fn enter_on_empty_view_does_nothing() {
    let mut state = PickerState::new();
    assert!(state.handle_key(KeyPress::Enter).is_none());
}

#[test]
fn filter_is_case_insensitive() {
    let mut state = PickerState::new();
    state.ingest_page(page(
        vec![
            make_item("/tmp/a.jsonl", "2025-01-01T00:00:00Z", "fix the bug"),
            make_item("/tmp/b.jsonl", "2025-01-02T00:00:00Z", "write docs"),
        ],
        None,
        2,
        false,
    ));
    state.handle_key(KeyPress::Char('B'));
    state.handle_key(KeyPress::Char('U'));
    state.handle_key(KeyPress::Char('G'));
    assert_eq!(state.query, "BUG");
    assert_eq!(state.filtered_rows.len(), 1);
    assert_eq!(state.filtered_rows[0].preview, "fix the bug");

    state.handle_key(KeyPress::Backspace);
    assert_eq!(state.query, "BU");
    assert_eq!(state.filtered_rows.len(), 1);
}

#[test]
fn apply_initial_page_rebuilds_from_scratch() {
    let mut state = PickerState::new();
    state.ingest_page(page(
        vec![make_item("/tmp/old.jsonl", "2025-01-01T00:00:00Z", "stale entry")],
        Some(cursor_from_str("c0")),
        7,
        true,
    ));
    state.apply_initial_page(page(
        vec![make_item("/tmp/new.jsonl", "2025-02-01T00:00:00Z", "fresh entry")],
        None,
        1,
        false,
    ));
    assert_eq!(state.all_rows.len(), 1);
    assert_eq!(state.all_rows[0].path, "/tmp/new.jsonl");
    assert_eq!(state.pagination.num_scanned_files, 1);
    assert!(!state.pagination.reached_scan_cap);
    assert!(state.pagination.next_cursor.is_none());
}

#[test]
fn frame_requests_are_taken_once() {
    let mut state = PickerState::new();
    assert!(!state.take_frame_request());
    state.handle_key(KeyPress::Down);
    assert!(state.take_frame_request());
    assert!(!state.take_frame_request());
}

#[test]
fn duplicate_within_one_page_is_dropped() {
    let mut state = PickerState::new();
    state.ingest_page(page(
        vec![
            make_item("/tmp/a.jsonl", "2025-01-01T00:00:00Z", "first copy"),
            make_item("/tmp/a.jsonl", "2025-01-01T00:00:00Z", "second copy"),
        ],
        None,
        2,
        false,
    ));
    assert_eq!(state.all_rows.len(), 1);
    assert_eq!(state.all_rows[0].preview, "first copy");
}

#[test]
fn empty_state_notice_follows_search_and_pagination() {
    let mut state = PickerState::new();
    assert_eq!(state.empty_state_notice(), EmptyStateNotice::NoSessionsYet);

    state.ingest_page(page(
        vec![make_item("/tmp/a.jsonl", "2025-01-01T00:00:00Z", "alpha")],
        Some(cursor_from_str("c0")),
        4,
        false,
    ));
    state.set_query("target".to_owned());
    assert_eq!(state.empty_state_notice(), EmptyStateNotice::Searching);

    let req = state.dispatched[0].request_token;
    let tok = state.dispatched[0].search_token;
    state
        .handle_background_event(BackgroundEvent::PageLoaded {
            request_token: req,
            search_token: tok,
            page: Ok(page(Vec::new(), None, 2, true)),
        })
        .unwrap();
    assert_eq!(
        state.empty_state_notice(),
        EmptyStateNotice::ScanCapped { num_scanned_files: 6 }
    );

    state.pagination.reached_scan_cap = false;
    assert_eq!(state.empty_state_notice(), EmptyStateNotice::NoResults);
}

#[test]
fn scan_counts_accumulate_and_cap_is_sticky() {
    let mut state = PickerState::new();
    state.ingest_page(page(Vec::new(), Some(cursor_from_str("c0")), 3, false));
    state.ingest_page(page(Vec::new(), Some(cursor_from_str("c1")), 4, true));
    state.ingest_page(page(Vec::new(), None, 2, false));
    assert_eq!(state.pagination.num_scanned_files, 9);
    assert!(state.pagination.reached_scan_cap);
}
