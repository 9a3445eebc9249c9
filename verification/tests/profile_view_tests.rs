use late::profile::Profile;
use late::profile_view::{
    build_profile_lines, fetch_strip_rows, format_created_at, format_two_cells,
    profile_from_snapshot, showcase_markdown, FetchTone, ProfileLine, ProfileModalView, Showcase,
};

fn showcase(user_id: u128, title: &str, tags: &[&str]) -> Showcase {
    Showcase {
        user_id,
        title: format!("  {title}  "),
        url: " https://example.com ".to_string(),
        description: "A thing.".to_string(),
        tags: tags.iter().map(|t| t.to_string()).collect(),
    }
}

fn line_text(l: &ProfileLine) -> String {
    match l {
        ProfileLine::Field { label, value } => format!("{label}{value}"),
        ProfileLine::Blank => String::new(),
        ProfileLine::Heading(t) => format!("## {t}"),
        ProfileLine::Note(t) => format!("({t})"),
        ProfileLine::Markdown(t) => format!("md:{t}"),
    }
}

#[test]
fn showcase_markdown_has_heading_quote_description_and_tags() {
    assert_eq!(
        showcase_markdown(&showcase(1, "Tool", &["rust", "cli"])),
        "### Tool\n\n> https://example.com\n\nA thing.\n\n`#rust` `#cli`"
    );
    let mut bare = showcase(1, "Bare", &[]);
    bare.description = "   ".to_string();
    assert_eq!(showcase_markdown(&bare), "### Bare\n\n> https://example.com");
}

#[test]
fn profile_lines_lay_out_card() {
    let mut p = Profile::default();
    p.username = "  owl ".to_string();
    p.timezone = Some("Europe/Warsaw".to_string());
    p.bio = "hello".to_string();
    let items = vec![showcase(1, "Tool", &["rust"])];
    let lines = build_profile_lines(Some(&p), "Poland", Some("12:00"), &items);
    let texts: Vec<String> = lines.iter().map(line_text).collect();
    assert_eq!(
        texts,
        vec![
            "Username: owl".to_string(),
            "Country:  Poland".to_string(),
            "Timezone: Europe/Warsaw".to_string(),
            "Current time: 12:00".to_string(),
            String::new(),
            "## Bio".to_string(),
            "md:hello".to_string(),
            String::new(),
            "## Showcases (1)".to_string(),
            String::new(),
            "md:### Tool\n\n> https://example.com\n\nA thing.\n\n`#rust`".to_string(),
        ]
    );
}

#[test]
fn profile_lines_mark_missing_fields_and_wait_for_profile() {
    let p = Profile::default();
    let lines = build_profile_lines(Some(&p), "Not set", None, &vec![]);
    let texts: Vec<String> = lines.iter().map(line_text).collect();
    assert_eq!(
        texts,
        vec![
            "Username: not set".to_string(),
            "Country:  Not set".to_string(),
            "Timezone: Not set".to_string(),
            String::new(),
            "## Bio".to_string(),
            "(Not set)".to_string(),
        ]
    );
    assert!(build_profile_lines(None, "x", None, &vec![]).is_empty());
}

#[test]
fn modal_tracks_viewed_user_and_snapshot() {
    let mut m = ProfileModalView::new();
    assert!(m.loading());
    m.open(7, "owl".to_string(), Some(8), Some(Profile::default()));
    assert_eq!(m.viewed_user_id, Some(7));
    assert!(m.loading());
    m.snapshot_changed(Some(7), Some(Profile::default()));
    assert!(!m.loading());
    m.snapshot_changed(Some(9), Some(Profile::default()));
    assert!(m.loading());
    m.scroll_by(-5);
    assert_eq!(m.scroll_offset, 0);
    m.scroll_by(10);
    assert_eq!(m.scroll_offset, 10);
    m.close();
    assert_eq!(m.viewed_user_id, None);
    assert_eq!(m.scroll_offset, 0);
}

#[test]
fn showcases_for_viewed_keeps_only_that_users_in_order() {
    let mut m = ProfileModalView::new();
    let items = vec![
        showcase(1, "a", &[]),
        showcase(2, "b", &[]),
        showcase(1, "c", &[]),
    ];
    assert!(m.showcases_for_viewed(&items).is_empty());
    m.open(1, String::new(), None, None);
    assert_eq!(m.showcases_for_viewed(&items), vec![0, 2]);
}

#[test]
fn profile_from_snapshot_requires_matching_user() {
    assert!(profile_from_snapshot(Some(1), Some(Profile::default()), Some(1)).is_some());
    assert!(profile_from_snapshot(Some(1), Some(Profile::default()), Some(2)).is_none());
    assert!(profile_from_snapshot(None, Some(Profile::default()), Some(2)).is_none());
}

#[test]
fn format_created_at_writes_utc_date() {
    assert_eq!(format_created_at(Some(0)), "1970-01-01");
    assert_eq!(format_created_at(Some(1_700_000_000_000_000)), "2023-11-14");
    assert_eq!(format_created_at(None), "unknown");
    assert_eq!(format_created_at(Some(i64::MAX)), "unknown");
}

#[test]
fn two_cells_pad_first_column() {
    let cells = format_two_cells(("ide", "vim"), ("terminal", "kitty"), 20);
    let texts: Vec<String> = cells.iter().map(|c| c.text.clone()).collect();
    assert_eq!(
        texts,
        vec![
            "ide       ".to_string(),
            "vim".to_string(),
            "     ".to_string(),
            "│ ".to_string(),
            "terminal  ".to_string(),
            "kitty".to_string(),
        ]
    );
    assert_eq!(cells[3].tone, FetchTone::Separator);
}

#[test]
fn fetch_strip_shows_dashes_for_unset_values() {
    let mut p = Profile::default();
    p.langs = vec!["rust".to_string(), "go".to_string()];
    p.created_at = Some(0);
    let rows = fetch_strip_rows(&p, "Contrast", 40);
    assert_eq!(rows.len(), 3);
    assert_eq!(rows[0][1].text, "1970-01-01");
    assert_eq!(rows[0][5].text, "Contrast");
    assert_eq!(rows[1][1].text, "—");
    assert_eq!(rows[1][5].text, "—");
    assert_eq!(rows[2][5].text, "rust, go");
}
