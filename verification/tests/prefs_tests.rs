use late::json::{JsonNumber, JsonValue};
use late::prefs::{
    extract_audio_source, extract_bio, extract_country, extract_enable_background_color,
    extract_favorite_room_ids, extract_ignored_user_ids, extract_langs, extract_notify_bell,
    extract_notify_cooldown_mins, extract_notify_format, extract_notify_kinds,
    extract_profile_theming, extract_right_sidebar_mode, extract_right_sidebar_screens,
    extract_show_dashboard_header, extract_show_dashboard_wire, extract_show_right_sidebar,
    extract_show_room_list_sidebar, extract_show_settings_on_connect, extract_theme_id,
    extract_timezone,
};
use late::user::{AudioSource, RightSidebarMode, RIGHT_SIDEBAR_SCREEN_COUNT};

fn obj(entries: Vec<(&str, JsonValue)>) -> JsonValue {
    JsonValue::Object(
        entries
            .into_iter()
            .map(|(k, v)| (k.to_string(), v))
            .collect(),
    )
}

fn text(t: &str) -> JsonValue {
    JsonValue::String(t.to_string())
}

fn num(v: u64) -> JsonValue {
    JsonValue::Number(JsonNumber::PosInt(v))
}

#[test]
fn extract_theme_id_reads_trimmed_string() {
    let settings = obj(vec![("theme_id", text(" purple "))]);
    assert_eq!(extract_theme_id(&settings).as_deref(), Some("purple"));
}

#[test]
fn extract_theme_id_missing_returns_none() {
    let settings = obj(vec![]);
    assert_eq!(extract_theme_id(&settings), None);
}

#[test]
fn extract_bio_missing_returns_empty() {
    let settings = obj(vec![]);
    assert_eq!(extract_bio(&settings), "");
}

#[test]
fn extract_show_right_sidebar_defaults_to_true() {
    let settings = obj(vec![]);
    assert!(extract_show_right_sidebar(&settings));
}

#[test]
fn extract_show_dashboard_header_defaults_to_true() {
    let settings = obj(vec![]);
    assert!(extract_show_dashboard_header(&settings));
}

#[test]
fn extract_show_dashboard_wire_defaults_to_dashboard_header() {
    let settings = obj(vec![]);
    assert!(extract_show_dashboard_wire(&settings));

    let settings = obj(vec![("show_dashboard_header", JsonValue::Bool(false))]);
    assert!(!extract_show_dashboard_wire(&settings));
}

#[test]
fn extract_enable_background_color_defaults_to_true() {
    let settings = obj(vec![]);
    assert!(extract_enable_background_color(&settings));
}

#[test]
fn extract_enable_background_color_reads_explicit_false() {
    let settings = obj(vec![("enable_background_color", JsonValue::Bool(false))]);
    assert!(!extract_enable_background_color(&settings));
}

#[test]
fn extract_show_dashboard_header_reads_explicit_false() {
    let settings = obj(vec![("show_dashboard_header", JsonValue::Bool(false))]);
    assert!(!extract_show_dashboard_header(&settings));
}

#[test]
fn extract_show_dashboard_wire_reads_explicit_false() {
    let settings = obj(vec![
        ("show_dashboard_header", JsonValue::Bool(true)),
        ("show_dashboard_wire", JsonValue::Bool(false)),
    ]);
    assert!(!extract_show_dashboard_wire(&settings));
}

#[test]
fn extract_show_right_sidebar_reads_explicit_false() {
    let settings = obj(vec![("show_right_sidebar", JsonValue::Bool(false))]);
    assert!(!extract_show_right_sidebar(&settings));
}

#[test]
fn extract_show_right_sidebar_prefers_new_mode() {
    let settings = obj(vec![
        ("show_right_sidebar", JsonValue::Bool(true)),
        ("right_sidebar_mode", text("off")),
    ]);
    assert!(!extract_show_right_sidebar(&settings));
}

#[test]
fn extract_right_sidebar_mode_reads_custom() {
    let settings = obj(vec![("right_sidebar_mode", text("custom"))]);
    assert_eq!(
        extract_right_sidebar_mode(&settings),
        RightSidebarMode::Custom
    );
}

#[test]
fn extract_right_sidebar_mode_falls_back_to_legacy_bool() {
    let settings = obj(vec![("show_right_sidebar", JsonValue::Bool(false))]);
    assert_eq!(extract_right_sidebar_mode(&settings), RightSidebarMode::Off);
}

#[test]
fn extract_right_sidebar_screens_defaults_to_all_screens() {
    let settings = obj(vec![]);
    assert_eq!(
        extract_right_sidebar_screens(&settings),
        (1..=RIGHT_SIDEBAR_SCREEN_COUNT).collect::<Vec<_>>()
    );
}

#[test]
fn extract_right_sidebar_screens_dedupes_and_drops_invalid_values() {
    let settings = obj(vec![(
        "right_sidebar_screens",
        JsonValue::Array(vec![num(3), num(1), num(3), num(9), text("2")]),
    )]);
    assert_eq!(extract_right_sidebar_screens(&settings), vec![1, 3]);
}

#[test]
fn extract_show_room_list_sidebar_defaults_to_true() {
    let settings = obj(vec![]);
    assert!(extract_show_room_list_sidebar(&settings));
}

#[test]
fn extract_show_room_list_sidebar_reads_explicit_false() {
    let settings = obj(vec![("show_room_list_sidebar", JsonValue::Bool(false))]);
    assert!(!extract_show_room_list_sidebar(&settings));
}

#[test]
fn extract_country_normalizes_uppercase() {
    let settings = obj(vec![("country", text(" pl "))]);
    assert_eq!(extract_country(&settings).as_deref(), Some("PL"));
}

#[test]
fn extract_timezone_reads_trimmed_value() {
    let settings = obj(vec![("timezone", text(" Europe/Warsaw "))]);
    assert_eq!(
        extract_timezone(&settings).as_deref(),
        Some("Europe/Warsaw")
    );
}

#[test]
fn extract_audio_source_reads_youtube_and_defaults_to_icecast() {
    assert_eq!(
        extract_audio_source(&obj(vec![("audio_source", text("youtube"))])),
        AudioSource::Youtube
    );
    assert_eq!(
        extract_audio_source(&obj(vec![("audio_source", text("vinyl"))])),
        AudioSource::Icecast
    );
    assert_eq!(extract_audio_source(&obj(vec![])), AudioSource::Icecast);
}

#[test]
fn extract_notify_kinds_keeps_trimmed_non_blank_strings() {
    let settings = obj(vec![(
        "notify_kinds",
        JsonValue::Array(vec![text(" dms "), text("   "), num(4), text("mentions")]),
    )]);
    assert_eq!(extract_notify_kinds(&settings), vec!["dms", "mentions"]);
}

#[test]
fn extract_notify_bell_and_cooldown_defaults_and_clamping() {
    assert!(!extract_notify_bell(&obj(vec![])));
    assert!(extract_notify_bell(&obj(vec![("notify_bell", JsonValue::Bool(true))])));
    assert_eq!(extract_notify_cooldown_mins(&obj(vec![])), 0);
    assert_eq!(
        extract_notify_cooldown_mins(&obj(vec![("notify_cooldown_mins", num(15))])),
        15
    );
    assert_eq!(
        extract_notify_cooldown_mins(&obj(vec![(
            "notify_cooldown_mins",
            JsonValue::Number(JsonNumber::NegInt(-5))
        )])),
        0
    );
}

#[test]
fn extract_notify_format_accepts_only_known_formats() {
    assert_eq!(
        extract_notify_format(&obj(vec![("notify_format", text(" osc9 "))])).as_deref(),
        Some("osc9")
    );
    assert_eq!(
        extract_notify_format(&obj(vec![("notify_format", text("bogus"))])),
        None
    );
}

#[test]
fn extract_flags_default_as_documented() {
    let empty = obj(vec![]);
    assert!(extract_show_settings_on_connect(&empty));
    assert!(!extract_profile_theming(&empty));
    let set = obj(vec![
        ("show_settings_on_connect", JsonValue::Bool(false)),
        ("profile_theming", JsonValue::Bool(true)),
    ]);
    assert!(!extract_show_settings_on_connect(&set));
    assert!(extract_profile_theming(&set));
}

#[test]
fn extract_favorite_room_ids_keeps_order_and_first_occurrence() {
    let a = "00000000-0000-0000-0000-000000000002";
    let b = "00000000-0000-0000-0000-000000000001";
    let settings = obj(vec![(
        "favorite_room_ids",
        JsonValue::Array(vec![text(a), text("not-a-uuid"), text(&format!(" {b} ")), text(a)]),
    )]);
    assert_eq!(extract_favorite_room_ids(&settings), vec![2u128, 1u128]);
}

#[test]
fn extract_ignored_user_ids_sorts_and_dedupes() {
    let settings = obj(vec![(
        "ignored_user_ids",
        JsonValue::Array(vec![
            text("00000000-0000-0000-0000-000000000009"),
            text("00000000-0000-0000-0000-000000000003"),
            text("00000000-0000-0000-0000-000000000009"),
            num(7),
        ]),
    )]);
    assert_eq!(extract_ignored_user_ids(&settings), vec![3u128, 9u128]);
}

#[test]
fn extract_langs_accepts_array_or_single_string() {
    let settings = obj(vec![(
        "langs",
        JsonValue::Array(vec![text("Rust, #Go"), text("rust")]),
    )]);
    assert_eq!(extract_langs(&settings), vec!["rust", "go"]);
    let settings = obj(vec![("langs", text("zig c"))]);
    assert_eq!(extract_langs(&settings), vec!["zig", "c"]);
}
