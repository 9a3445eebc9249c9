use late::audio::{AudioMode, QueueItemView, SkipProgress};
use late::booth::{
    booth_footer, format_queue_duration, now_playing_line, pad_left, pad_right, queue_line,
    queue_rows, queue_window, section_heading, submit_row, truncate_to_width, BoothLine,
    BoothTone,
};

fn view(id: u128, title: Option<&str>, duration_ms: Option<i32>, score: i32) -> QueueItemView {
    QueueItemView {
        id,
        video_id: format!("vid{id}"),
        title: title.map(|t| t.to_string()),
        channel: None,
        duration_ms,
        started_at_ms: None,
        is_stream: false,
        submitter: "alice".to_string(),
        submitter_id: 5,
        vote_score: score,
        unskippable: false,
    }
}

fn texts(line: &BoothLine) -> Vec<String> {
    line.cells.iter().map(|c| c.text.clone()).collect()
}

fn tones(line: &BoothLine) -> Vec<BoothTone> {
    line.cells.iter().map(|c| c.tone).collect()
}

#[test]
fn pad_and_truncate_count_display_columns() {
    assert_eq!(pad_right("ab", 5), "ab   ");
    assert_eq!(pad_left("ab", 5), "   ab");
    assert_eq!(pad_right("abcdef", 3), "abcdef");
    assert_eq!(pad_right("日本", 6), "日本  ");
    assert_eq!(truncate_to_width("abcdef", 4), "abc…");
    assert_eq!(truncate_to_width("abc", 3), "abc");
    assert_eq!(truncate_to_width("abc", 1), "…");
    assert_eq!(truncate_to_width("abc", 0), "");
    assert_eq!(truncate_to_width("日本語", 4), "日…");
}

#[test]
fn format_queue_duration_shows_minutes_and_padded_seconds() {
    assert_eq!(format_queue_duration(&view(1, None, Some(185_000), 0)), "3:05");
    assert_eq!(format_queue_duration(&view(1, None, Some(3_600_000), 0)), "60:00");
    assert_eq!(format_queue_duration(&view(1, None, Some(999), 0)), "0:00");
    assert_eq!(format_queue_duration(&view(1, None, Some(0), 0)), "");
    assert_eq!(format_queue_duration(&view(1, None, None, 0)), "");
    let mut stream = view(1, None, Some(10_000), 0);
    stream.is_stream = true;
    assert_eq!(format_queue_duration(&stream), "live");
}

#[test]
fn queue_line_lays_out_fixed_columns() {
    let line = queue_line(&view(1, Some("Song"), Some(185_000), 2), true, 60);
    assert!(line.highlighted);
    assert_eq!(
        texts(&line),
        vec![
            " › ".to_string(),
            format!("Song{}", " ".repeat(17)),
            " ".to_string(),
            " 3:05".to_string(),
            " ".to_string(),
            format!("alice{}", " ".repeat(15)),
            " ".to_string(),
            "   +2".to_string(),
            "   ".to_string(),
        ]
    );
    assert_eq!(tones(&line)[7], BoothTone::ScoreUp);
    let down = queue_line(&view(2, None, None, -3), false, 60);
    assert!(!down.highlighted);
    assert_eq!(texts(&down)[0], "   ");
    assert_eq!(texts(&down)[1], format!("yt:vid2{}", " ".repeat(14)));
    assert_eq!(texts(&down)[7], "   -3");
    assert_eq!(tones(&down)[7], BoothTone::ScoreDown);
    assert_eq!(tones(&queue_line(&view(3, None, None, 0), false, 60))[7], BoothTone::Meta);
}

#[test]
fn queue_line_locked_track_shows_padlock() {
    let mut item = view(4, Some("Anthem"), None, 0);
    item.unskippable = true;
    let line = queue_line(&item, false, 60);
    assert!(texts(&line)[1].starts_with("🔒 Anthem"));
}

#[test]
fn queue_window_keeps_selection_visible() {
    assert_eq!(queue_window(0, 10, 4), (0, 0));
    assert_eq!(queue_window(5, 10, 4), (2, 5));
    assert_eq!(queue_window(9, 10, 4), (6, 9));
    assert_eq!(queue_window(42, 10, 4), (6, 9));
    assert_eq!(queue_window(3, 2, 4), (0, 1));
    assert_eq!(queue_window(0, 0, 4), (0, 0));
}

#[test]
fn queue_rows_show_window_and_empty_notice() {
    let empty = queue_rows(&vec![], 0, true, 5, 60);
    assert_eq!(empty.len(), 1);
    assert_eq!(texts(&empty[0]), vec!["   ".to_string(), "queue empty".to_string()]);
    let queue: Vec<QueueItemView> = (0..6).map(|i| view(i, Some("T"), None, 0)).collect();
    let rows = queue_rows(&queue, 4, true, 3, 60);
    assert_eq!(rows.len(), 3);
    assert_eq!(
        rows.iter().map(|r| r.highlighted).collect::<Vec<_>>(),
        vec![false, false, true]
    );
    let unfocused = queue_rows(&queue, 4, false, 3, 60);
    assert!(unfocused.iter().all(|r| !r.highlighted));
}

#[test]
fn submit_row_shows_cursor_placeholder_or_notice() {
    let typing = submit_row(true, true, "https://y", 40);
    assert!(typing.highlighted);
    assert_eq!(texts(&typing)[0], " › ");
    assert_eq!(texts(&typing)[1], "YouTube URL     ");
    assert_eq!(texts(&typing)[2], "https://y█");
    assert_eq!(texts(&typing)[3], " ".repeat(40 - 3 - 16 - 10));
    let idle = submit_row(false, true, "", 40);
    assert!(!idle.highlighted);
    assert_eq!(texts(&idle)[2], "paste link…");
    assert_eq!(tones(&idle)[2], BoothTone::ValuePlaceholder);
    let off = submit_row(true, false, "x", 10);
    assert!(!off.highlighted);
    assert_eq!(texts(&off)[1], "Disabled        ");
    assert_eq!(texts(&off)[3], "");
}

#[test]
fn now_playing_line_describes_track_or_fallback() {
    let item = view(1, Some("Song"), Some(61_000), 0);
    let line = now_playing_line(Some(&item), AudioMode::Youtube, Some(SkipProgress { votes: 1, threshold: 2 }));
    assert_eq!(
        texts(&line),
        vec![
            "   ".to_string(),
            "▶ ".to_string(),
            "Song".to_string(),
            "  1:01".to_string(),
            "  by alice".to_string(),
            "   skip 1/2".to_string(),
        ]
    );
    let radio = now_playing_line(None, AudioMode::Icecast, None);
    assert_eq!(
        texts(&radio),
        vec!["   ".to_string(), "♪ ".to_string(), "Icecast house radio".to_string()]
    );
    let fallback = now_playing_line(None, AudioMode::Youtube, None);
    assert_eq!(texts(&fallback)[2], "fallback stream · YouTube");
}

#[test]
fn footer_shows_lock_for_staff_and_submit_when_enabled() {
    let all = texts(&booth_footer(true, true)).concat();
    assert_eq!(
        all,
        "  Tab focus  ↑↓ Ctrl+J/K select  +/-/0 vote  s skip  d delete  u lock  ↵ submit  Esc/q close"
    );
    let plain = texts(&booth_footer(false, false)).concat();
    assert_eq!(
        plain,
        "  Tab focus  ↑↓ Ctrl+J/K select  +/-/0 vote  s skip  d delete  Esc/q close"
    );
}

#[test]
fn section_heading_wraps_title_in_rules() {
    let h = section_heading("Queue");
    assert_eq!(texts(&h).concat(), "  ── Queue ──");
    assert_eq!(tones(&h), vec![BoothTone::HeadingRule, BoothTone::HeadingTitle, BoothTone::HeadingRule]);
}

fn row_width(line: &late::booth::BoothLine) -> usize {
    line.cells.iter().map(|c| unicode_width::UnicodeWidthStr::width(c.text.as_str())).sum()
}

#[test]
fn queue_rows_fill_their_width() {
    let long = "An extremely long track title that will never fit in the booth";
    for width in [39usize, 40, 50, 60, 80, 120] {
        assert_eq!(row_width(&queue_line(&view(1, Some("Song"), Some(185_000), 2), true, width)), width);
        assert_eq!(row_width(&queue_line(&view(2, Some(long), Some(36_000_000), -13), false, width)), width);
        assert_eq!(row_width(&queue_line(&view(3, None, None, 0), false, width)), width);
    }
    let line = queue_line(&view(4, Some(long), None, 0), false, 50);
    assert!(line.cells[1].text.contains('…'));
}
