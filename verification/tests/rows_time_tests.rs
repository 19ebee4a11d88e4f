use resume_picker::columns::{calculate_column_metrics, format_created_label};
use resume_picker::rows::{head_to_row, preview_from_head, ContentEntry, HeadRecord, SourceItem};
use resume_picker::time::{human_time_ago, parse_rfc3339_seconds, u64_to_dec};

fn input_text(text: &str) -> ContentEntry {
    ContentEntry::InputText { text: text.to_owned() }
}

#[test]
fn preview_uses_first_message_input_text() {
    let head = vec![
        HeadRecord { timestamp: Some("2025-01-01T00:00:00Z".to_owned()), message: None },
        HeadRecord {
            timestamp: None,
            message: Some(vec![
                input_text("<user_instructions>hi</user_instructions>"),
                input_text("real question"),
                ContentEntry::OtherContent,
            ]),
        },
        HeadRecord { timestamp: None, message: Some(vec![input_text("later text")]) },
    ];
    let preview = preview_from_head(&head);
    assert_eq!(preview.as_deref(), Some("real question"));
}

#[test]
fn preview_strips_editor_context_marker() {
    let head = vec![HeadRecord {
        timestamp: None,
        message: Some(vec![input_text(
            "<ide_state>noise</ide_state> ## My request for Codex: do the thing  ",
        )]),
    }];
    let item = SourceItem {
        path: "/tmp/x.jsonl".to_owned(),
        head,
        created_at: None,
        updated_at: None,
    };
    let row = head_to_row(&item);
    assert_eq!(row.preview, "do the thing");
}

#[test]
fn preview_falls_back_to_placeholder() {
    let item = SourceItem {
        path: "/tmp/x.jsonl".to_owned(),
        head: vec![HeadRecord {
            timestamp: None,
            message: Some(vec![input_text(
                "<user_instructions>only instructions</user_instructions>",
            )]),
        }],
        created_at: None,
        updated_at: None,
    };
    let row = head_to_row(&item);
    assert_eq!(row.preview, "(no message yet)");
}

#[test]
fn row_uses_item_timestamps_for_updated_at() {
    let item = SourceItem {
        path: "/tmp/a.jsonl".to_owned(),
        head: vec![
            HeadRecord { timestamp: Some("2025-01-01T00:00:00Z".to_owned()), message: None },
            HeadRecord { timestamp: None, message: Some(vec![input_text("Hello")]) },
        ],
        created_at: Some("2025-01-01T00:00:00Z".to_owned()),
        updated_at: Some("2025-01-01T01:00:00Z".to_owned()),
    };

    let row = head_to_row(&item);
    let expected_created = chrono::DateTime::parse_from_rfc3339("2025-01-01T00:00:00Z")
        .unwrap()
        .timestamp();
    let expected_updated = chrono::DateTime::parse_from_rfc3339("2025-01-01T01:00:00Z")
        .unwrap()
        .timestamp();

    assert_eq!(row.created_at, Some(expected_created));
    assert_eq!(row.updated_at, Some(expected_updated));
    assert_eq!(expected_updated - expected_created, 3600);
}

#[test]
fn unparsable_timestamp_degrades_to_unknown() {
    let item = SourceItem {
        path: "/tmp/a.jsonl".to_owned(),
        head: vec![HeadRecord { timestamp: Some("not a date".to_owned()), message: None }],
        created_at: Some("also not a date".to_owned()),
        updated_at: None,
    };
    let row = head_to_row(&item);
    assert_eq!(row.created_at, None);
    assert_eq!(row.updated_at, None);
    assert_eq!(row.preview, "(no message yet)");
}

#[test]
fn parse_rfc3339_reads_offsets() {
    let utc = parse_rfc3339_seconds("2025-01-01T12:00:00Z").unwrap();
    let offset = parse_rfc3339_seconds("2025-01-01T13:00:00+01:00").unwrap();
    assert_eq!(utc, offset);
    assert!(parse_rfc3339_seconds("yesterday").is_none());
}

#[test]
fn human_time_ago_buckets_and_plurals() {
    assert_eq!(human_time_ago(1000, 958), "42 seconds ago");
    assert_eq!(human_time_ago(1000, 999), "1 second ago");
    assert_eq!(human_time_ago(1000, 1005), "0 seconds ago");
    assert_eq!(human_time_ago(1000, 940), "1 minute ago");
    assert_eq!(human_time_ago(3000, 900), "35 minutes ago");
    assert_eq!(human_time_ago(7200, 0), "2 hours ago");
    assert_eq!(human_time_ago(3600, 0), "1 hour ago");
    assert_eq!(human_time_ago(86400 * 3 + 100, 0), "3 days ago");
    assert_eq!(human_time_ago(86400, 0), "1 day ago");
}

#[test]
fn decimal_rendering_is_exact() {
    assert_eq!(u64_to_dec(0), "0");
    assert_eq!(u64_to_dec(7), "7");
    assert_eq!(u64_to_dec(1234567890), "1234567890");
    assert_eq!(u64_to_dec(u64::MAX), "18446744073709551615");
}

#[test]
fn column_metrics_cover_headers_and_labels() {
    let now = 1_000_000;
    let item = SourceItem {
        path: "/tmp/a.jsonl".to_owned(),
        head: vec![HeadRecord { timestamp: None, message: Some(vec![input_text("hello")]) }],
        created_at: None,
        updated_at: None,
    };
    let rows = vec![head_to_row(&item)];
    let metrics = calculate_column_metrics(&rows, now);
    // Both labels fall back to a dash, so the headers set the widths.
    assert_eq!(metrics.labels, vec![("-".to_owned(), "-".to_owned())]);
    assert_eq!(metrics.max_created_width, "Created".len());
    assert_eq!(metrics.max_updated_width, "Updated".len());

    let mut row = rows[0].clone();
    row.created_at = Some(now - 42);
    let label = format_created_label(&row, now);
    assert_eq!(label, "42 seconds ago");
    let metrics = calculate_column_metrics(&vec![row], now);
    assert_eq!(metrics.max_created_width, "42 seconds ago".len());
}
