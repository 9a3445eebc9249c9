use late::json::{JsonNumber, JsonValue};
use late::prefs::{extract_bio, extract_country, extract_favorite_room_ids, extract_langs};
use late::profile::{
    move_favorite_room, normalize_profile_text, normalize_right_sidebar_screens,
    toggle_favorite_room, Profile, ProfileParams, ProfileUpdate,
};
use late::tags::normalize_profile_tags;
use late::user::{RightSidebarMode, User};

fn obj(entries: Vec<(&str, JsonValue)>) -> JsonValue {
    JsonValue::Object(
        entries
            .into_iter()
            .map(|(k, v)| (k.to_string(), v))
            .collect(),
    )
}

fn text(t: &str) -> JsonValue {
    JsonValue::String(t.to_string())
}

fn params_of(p: &Profile) -> ProfileParams {
    ProfileParams {
        username: p.username.clone(),
        bio: p.bio.clone(),
        country: p.country.clone(),
        timezone: p.timezone.clone(),
        ide: p.ide.clone(),
        terminal: p.terminal.clone(),
        os: p.os.clone(),
        langs: p.langs.clone(),
        notify_kinds: p.notify_kinds.clone(),
        notify_bell: p.notify_bell,
        notify_cooldown_mins: p.notify_cooldown_mins,
        notify_format: p.notify_format.clone(),
        theme_id: p.theme_id.clone(),
        enable_background_color: p.enable_background_color,
        show_dashboard_header: p.show_dashboard_header,
        show_dashboard_wire: p.show_dashboard_wire,
        show_right_sidebar: p.show_right_sidebar,
        right_sidebar_mode: p.right_sidebar_mode,
        right_sidebar_screens: p.right_sidebar_screens.clone(),
        show_room_list_sidebar: p.show_room_list_sidebar,
        show_settings_on_connect: p.show_settings_on_connect,
        profile_theming: p.profile_theming,
        favorite_room_ids: p.favorite_room_ids.clone(),
    }
}

fn lookup<'a>(entries: &'a [(String, JsonValue)], key: &str) -> Option<&'a JsonValue> {
    entries.iter().find(|(k, _)| k == key).map(|(_, v)| v)
}

#[test]
fn default_profile_shows_everything_and_notifies_nothing() {
    let p = Profile::default();
    assert_eq!(p.created_at, None);
    assert!(p.username.is_empty());
    assert!(p.bio.is_empty());
    assert!(p.enable_background_color);
    assert!(p.show_dashboard_header);
    assert!(p.show_dashboard_wire);
    assert!(p.show_right_sidebar);
    assert_eq!(p.right_sidebar_mode, RightSidebarMode::On);
    assert_eq!(p.right_sidebar_screens, vec![1, 2, 3, 4]);
    assert!(p.show_room_list_sidebar);
    assert!(p.show_settings_on_connect);
    assert!(!p.profile_theming);
    assert!(!p.notify_bell);
    assert_eq!(p.notify_cooldown_mins, 0);
    assert!(p.notify_kinds.is_empty());
    assert!(p.favorite_room_ids.is_empty());
}

#[test]
fn profile_from_user_reads_every_setting() {
    let user = User {
        id: 1,
        created: 1_700_000_000_000_000,
        updated: 0,
        last_seen: 0,
        is_admin: false,
        is_moderator: false,
        fingerprint: "fp".to_string(),
        username: "night-owl".to_string(),
        settings: obj(vec![
            ("bio", text("  hello  ")),
            ("country", text(" pl ")),
            ("theme_id", text(" purple ")),
            ("show_right_sidebar", JsonValue::Bool(false)),
            ("notify_cooldown_mins", JsonValue::Number(JsonNumber::PosInt(5))),
            ("langs", JsonValue::Array(vec![text("Rust"), text("rust"), text(" go ")])),
        ]),
    };
    let p = Profile::from_user(&user);
    assert_eq!(p.created_at, Some(1_700_000_000_000_000));
    assert_eq!(p.username, "night-owl");
    assert_eq!(p.bio, extract_bio(&user.settings));
    assert_eq!(p.country, extract_country(&user.settings));
    assert_eq!(p.country.as_deref(), Some("PL"));
    assert_eq!(p.theme_id.as_deref(), Some("purple"));
    assert!(!p.show_right_sidebar);
    assert_eq!(p.right_sidebar_mode, RightSidebarMode::Off);
    assert_eq!(p.notify_cooldown_mins, 5);
    assert_eq!(p.langs, extract_langs(&user.settings));
}

#[test]
fn normalize_right_sidebar_screens_sorts_dedupes_and_drops_out_of_range() {
    assert_eq!(normalize_right_sidebar_screens(&[3, 1, 3, 9, 0, 2]), vec![1, 2, 3]);
    assert_eq!(normalize_right_sidebar_screens(&[]), Vec::<u8>::new());
    assert_eq!(normalize_right_sidebar_screens(&[4, 4, 4]), vec![4]);
}

#[test]
fn normalize_profile_text_trims_and_drops_blank() {
    assert_eq!(normalize_profile_text(Some("  vim  ")).as_deref(), Some("vim"));
    assert_eq!(normalize_profile_text(Some("   ")), None);
    assert_eq!(normalize_profile_text(None), None);
}

#[test]
fn normalize_profile_tags_lowercases_trims_and_dedupes() {
    let tags = vec![
        " Rust ".to_string(),
        "rust".to_string(),
        "".to_string(),
        "Go".to_string(),
    ];
    let out = normalize_profile_tags(&tags);
    assert_eq!(out, vec!["rust".to_string(), "go".to_string()]);
}

#[test]
fn update_from_params_normalises_fields_and_falls_back_to_stored_theme() {
    let mut p = Profile::default();
    p.username = "owl".to_string();
    p.bio = "  hi there  ".to_string();
    p.country = Some(" de ".to_string());
    p.ide = Some("   ".to_string());
    p.notify_cooldown_mins = -3;
    p.notify_format = Some("bogus".to_string());
    p.theme_id = None;
    p.right_sidebar_screens = vec![2, 2, 7, 1];
    let current = obj(vec![("theme_id", text("forest")), ("notify_format", text("osc9"))]);
    let u = ProfileUpdate::from_params(&params_of(&p), &current);
    assert_eq!(u.username, "owl");
    assert_eq!(u.bio, "hi there");
    assert_eq!(u.country.as_deref(), Some("DE"));
    assert_eq!(u.ide, None);
    assert_eq!(u.notify_cooldown_mins, 0);
    assert_eq!(u.notify_format, "osc9");
    assert_eq!(u.theme_id, "forest");
    assert_eq!(u.right_sidebar_screens, vec![1, 2]);
}

#[test]
fn update_defaults_theme_and_format_when_nothing_is_stored() {
    let p = Profile::default();
    let u = ProfileUpdate::from_params(&params_of(&p), &obj(vec![]));
    assert_eq!(u.theme_id, "contrast");
    assert_eq!(u.notify_format, "both");
}

#[test]
fn settings_entries_read_back_as_the_submitted_profile() {
    let room_a: u128 = 0x0123_4567_89ab_cdef_0123_4567_89ab_cdef;
    let room_b: u128 = 42;
    let mut p = Profile::default();
    p.bio = "bio".to_string();
    p.country = Some("pl".to_string());
    p.langs = vec!["Rust".to_string()];
    p.right_sidebar_mode = RightSidebarMode::Custom;
    p.right_sidebar_screens = vec![3, 1];
    p.favorite_room_ids = vec![room_a, room_b];
    p.theme_id = Some("purple".to_string());
    let u = ProfileUpdate::from_params(&params_of(&p), &obj(vec![]));
    let entries = u.settings_entries();
    assert_eq!(entries.len(), 22);
    assert!(matches!(lookup(&entries, "bio"), Some(JsonValue::String(s)) if s == "bio"));
    assert!(matches!(lookup(&entries, "country"), Some(JsonValue::String(s)) if s == "PL"));
    assert!(matches!(
        lookup(&entries, "right_sidebar_mode"),
        Some(JsonValue::String(s)) if s == "custom"
    ));
    assert!(matches!(
        lookup(&entries, "favorite_room_ids"),
        Some(JsonValue::Array(ids)) if ids.len() == 2
    ));
    let doc = JsonValue::Object(entries);
    let back = Profile::from_user(&User {
        id: 9,
        created: 0,
        updated: 0,
        last_seen: 0,
        is_admin: false,
        is_moderator: false,
        fingerprint: String::new(),
        username: "x".to_string(),
        settings: doc,
    });
    assert_eq!(back.bio, "bio");
    assert_eq!(back.country.as_deref(), Some("PL"));
    assert_eq!(back.langs, vec!["rust".to_string()]);
    assert_eq!(back.right_sidebar_mode, RightSidebarMode::Custom);
    assert_eq!(back.right_sidebar_screens, vec![1, 3]);
    assert_eq!(back.favorite_room_ids, vec![room_a, room_b]);
    assert_eq!(back.theme_id.as_deref(), Some("purple"));
    assert_eq!(
        extract_favorite_room_ids(&obj(vec![(
            "favorite_room_ids",
            JsonValue::Array(vec![text("00000000-0000-0000-0000-00000000002a")])
        )])),
        vec![room_b]
    );
}

#[test]
fn settings_entries_keep_unwritten_keys_when_merged() {
    let p = Profile::default();
    let u = ProfileUpdate::from_params(&params_of(&p), &obj(vec![]));
    let entries = u.settings_entries();
    assert!(lookup(&entries, "audio_source").is_none());
    assert!(lookup(&entries, "ignored_user_ids").is_none());
}

#[test]
fn toggle_favorite_room_adds_then_removes() {
    let mut ids: Vec<u128> = vec![1, 2];
    assert!(toggle_favorite_room(&mut ids, 3));
    assert_eq!(ids, vec![1, 2, 3]);
    assert!(!toggle_favorite_room(&mut ids, 1));
    assert_eq!(ids, vec![2, 3]);
    assert!(toggle_favorite_room(&mut ids, 1));
    assert_eq!(ids, vec![2, 3, 1]);
}

#[test]
fn move_favorite_room_swaps_with_neighbour_and_stops_at_edges() {
    let mut ids: Vec<u128> = vec![1, 2, 3];
    assert!(move_favorite_room(&mut ids, 3, -1));
    assert_eq!(ids, vec![1, 3, 2]);
    assert!(!move_favorite_room(&mut ids, 1, -1));
    assert_eq!(ids, vec![1, 3, 2]);
    assert!(!move_favorite_room(&mut ids, 9, 1));
    assert!(move_favorite_room(&mut ids, 3, 1));
    assert_eq!(ids, vec![1, 2, 3]);
}

#[test]
fn tags_split_the_same_however_values_are_joined() {
    let apart = normalize_profile_tags(&vec!["Rust, go".to_string(), " #Zig rust".to_string()]);
    let spaced = normalize_profile_tags(&vec!["Rust, go  #Zig rust".to_string()]);
    let commas = normalize_profile_tags(&vec!["Rust, go, #Zig rust".to_string()]);
    assert_eq!(apart, spaced);
    assert_eq!(apart, commas);
}
