use late::frame::{
    draining_banner_message, drain_notifications, home_rail_shown, qr_overlay_titles,
    splash_hint_row, splash_steam_frame, splash_text, toast_area, PendingNotification,
    app_frame_help_hint_title, app_frame_sponsor_title, app_frame_title, background_command,
    clipboard_command, dashboard_home_selected, dashboard_wire_enabled,
    desktop_notification_bytes, first_enabled_notification, lounge_info_enabled,
    mentions_hud_title, notification_cooldown_ok, notification_to_emit, resolve_right_sidebar_enabled,
    room_list_sidebar_enabled, sanitize_notification_field, screen_number, sidebar_enabled,
    ActiveRoomTitle, FrameSettings, FrameTitleContext, NotificationMode, RoomTitleDetails,
    Screen, TitleLine, TitleStyle,
};
use late::profile::Profile;
use late::user::RightSidebarMode;

fn text_of(line: &TitleLine) -> String {
    line.spans.iter().map(|s| s.text.as_str()).collect()
}

#[test]
fn desktop_notification_bytes_both_mode_with_bell_emits_osc_777_and_osc_9() {
    let got = String::from_utf8(desktop_notification_bytes(
        "DM title",
        "hello",
        NotificationMode::Both,
        true,
    ))
    .expect("valid utf8");
    assert_eq!(
        got,
        "\x1b]777;notify;DM title;hello\x1b\\\x1b]9;DM title: hello\x1b\\\x07"
    );
}

#[test]
fn desktop_notification_bytes_osc777_mode_emits_only_osc_777() {
    let got = String::from_utf8(desktop_notification_bytes(
        "DM title",
        "hello",
        NotificationMode::Osc777,
        false,
    ))
    .expect("valid utf8");
    assert_eq!(got, "\x1b]777;notify;DM title;hello\x1b\\");
}

#[test]
fn desktop_notification_bytes_osc9_mode_emits_only_osc_9() {
    let got = String::from_utf8(desktop_notification_bytes(
        "DM title",
        "hello",
        NotificationMode::Osc9,
        false,
    ))
    .expect("valid utf8");
    assert_eq!(got, "\x1b]9;DM title: hello\x1b\\");
}

#[test]
fn desktop_notification_bytes_sanitize_control_bytes_and_separators() {
    let got = String::from_utf8(desktop_notification_bytes(
        "hey;\x07",
        "a\nb\x1bc",
        NotificationMode::Both,
        false,
    ))
    .expect("valid utf8");
    assert_eq!(
        got,
        "\x1b]777;notify;hey| ;a b c\x1b\\\x1b]9;hey| : a b c\x1b\\"
    );
}

#[test]
fn sidebar_enabled_prefers_settings_draft_while_modal_is_open() {
    assert!(!sidebar_enabled(true, false, true));
    assert!(sidebar_enabled(true, true, false));
}

#[test]
fn sidebar_enabled_uses_saved_profile_when_modal_is_closed() {
    assert!(sidebar_enabled(false, false, true));
    assert!(!sidebar_enabled(false, true, false));
}

#[test]
fn room_list_sidebar_enabled_prefers_settings_draft_while_modal_is_open() {
    assert!(!room_list_sidebar_enabled(true, false, true));
    assert!(room_list_sidebar_enabled(true, true, false));
}

#[test]
fn room_list_sidebar_enabled_uses_saved_profile_when_modal_is_closed() {
    assert!(room_list_sidebar_enabled(false, false, true));
    assert!(!room_list_sidebar_enabled(false, true, false));
}

#[test]
fn lounge_info_enabled_prefers_settings_draft_while_modal_is_open() {
    assert!(!lounge_info_enabled(true, false, true));
    assert!(lounge_info_enabled(true, true, false));
}

#[test]
fn lounge_info_enabled_uses_saved_profile_when_modal_is_closed() {
    assert!(lounge_info_enabled(false, false, true));
    assert!(!lounge_info_enabled(false, true, false));
}

#[test]
fn dashboard_wire_enabled_follows_the_same_preview_rule() {
    assert!(!dashboard_wire_enabled(true, false, true));
    assert!(dashboard_wire_enabled(false, false, true));
}

#[test]
fn dashboard_home_selected_for_general_room_without_synthetic_entry() {
    let general = 1u128;
    assert!(dashboard_home_selected(Some(general), Some(general), false));
}

#[test]
fn dashboard_home_selected_rejects_synthetic_and_non_general_rooms() {
    let general = 1u128;
    let topic = 2u128;
    assert!(!dashboard_home_selected(Some(general), Some(general), true));
    assert!(!dashboard_home_selected(Some(general), Some(topic), false));
    assert!(!dashboard_home_selected(None, Some(topic), false));
}

#[test]
fn mentions_hud_title_hidden_when_unread_is_zero_or_negative() {
    assert!(mentions_hud_title(0).is_none());
    assert!(mentions_hud_title(-3).is_none());
}

#[test]
fn mentions_hud_title_renders_right_aligned_pluralized_text() {
    let one = mentions_hud_title(1).expect("one mention should render");
    assert!(one.right_aligned);
    assert_eq!(text_of(&one), " 1 unread mention ");

    let many = mentions_hud_title(14).expect("many mentions should render");
    assert_eq!(text_of(&many), " 14 unread mentions ");
}

#[test]
fn sanitize_notification_field_replaces_breaking_characters() {
    assert_eq!(sanitize_notification_field("a;b\rc\x1b"), "a|b c ");
}

#[test]
fn screen_numbers_follow_the_tab_bar() {
    assert_eq!(screen_number(Screen::Dashboard), 1);
    assert_eq!(screen_number(Screen::Arcade), 2);
    assert_eq!(screen_number(Screen::Rooms), 3);
    assert_eq!(screen_number(Screen::Artboard), 4);
}

#[test]
fn resolve_right_sidebar_enabled_by_mode() {
    assert!(resolve_right_sidebar_enabled(RightSidebarMode::On, &[], Screen::Rooms));
    assert!(!resolve_right_sidebar_enabled(RightSidebarMode::Off, &[1, 2, 3, 4], Screen::Rooms));
    assert!(resolve_right_sidebar_enabled(RightSidebarMode::Custom, &[1, 3], Screen::Rooms));
    assert!(!resolve_right_sidebar_enabled(RightSidebarMode::Custom, &[1, 3], Screen::Arcade));
}

#[test]
fn frame_settings_preview_the_draft_while_settings_are_open() {
    let saved = Profile::default();
    let mut draft = Profile::default();
    draft.theme_id = Some("purple".to_string());
    draft.right_sidebar_mode = RightSidebarMode::Custom;
    draft.right_sidebar_screens = vec![2];
    draft.profile_theming = true;
    let open = FrameSettings::resolve(true, &draft, &saved, "contrast", Screen::Dashboard);
    assert_eq!(open.theme_id, "purple");
    assert!(!open.show_right_sidebar);
    assert!(open.profile_theming);
    let closed = FrameSettings::resolve(false, &draft, &saved, "contrast", Screen::Dashboard);
    assert_eq!(closed.theme_id, "contrast");
    assert!(closed.show_right_sidebar);
    assert!(!closed.profile_theming);
}

#[test]
fn app_frame_title_highlights_the_shown_tab() {
    let ctx = FrameTitleContext {
        home_room_label: Some("#general".to_string()),
        arcade_game_title: None,
        active_room: None,
        live_rooms: 5,
        open_rooms: 2,
        artboard_interacting: false,
    };
    let home = app_frame_title(Screen::Dashboard, &ctx);
    assert_eq!(text_of(&home), " late.sh | 1 2 3 4 | Home · #general ");
    assert_eq!(home.spans[2].style, TitleStyle::TabActive);
    assert_eq!(home.spans[4].style, TitleStyle::Dim);
    let rooms = app_frame_title(Screen::Rooms, &ctx);
    assert_eq!(text_of(&rooms), " late.sh | 1 2 3 4 | Rooms · 5 live · 2 open ");
    let arcade = app_frame_title(Screen::Arcade, &ctx);
    assert_eq!(text_of(&arcade), " late.sh | 1 2 3 4 | The Arcade ");
    let art = app_frame_title(Screen::Artboard, &ctx);
    assert_eq!(
        text_of(&art),
        " late.sh | 1 2 3 4 | Artboard by github.com/mevanlc · view pan · Alt+arrows/R-drag pan · i edit · g gallery "
    );
}

#[test]
fn app_frame_title_shows_the_open_room_and_its_game() {
    let ctx = FrameTitleContext {
        home_room_label: None,
        arcade_game_title: None,
        active_room: Some(ActiveRoomTitle {
            display_name: "Poker".to_string(),
            details: Some(RoomTitleDetails {
                seated: Some("3/6 seated".to_string()),
                role: None,
                balance: Some(-40),
            }),
        }),
        live_rooms: 0,
        open_rooms: 0,
        artboard_interacting: false,
    };
    let rooms = app_frame_title(Screen::Rooms, &ctx);
    assert_eq!(
        text_of(&rooms),
        " late.sh | 1 2 3 4 | Rooms · Poker · 3/6 seated · Bal -40 "
    );
}

#[test]
fn fixed_titles_have_their_text() {
    assert_eq!(
        text_of(&app_frame_sponsor_title()),
        " thanks for hanging out ☕ https://ko-fi.com/mateuszpiorowski "
    );
    assert!(app_frame_sponsor_title().right_aligned);
    assert_eq!(
        text_of(&app_frame_help_hint_title()),
        " Settings Ctrl+O · Hub Ctrl+G · FAQ Ctrl+L · Guide ? "
    );
}

#[test]
fn clipboard_command_wraps_base64_in_osc_52() {
    let got = String::from_utf8(clipboard_command("hi")).expect("valid utf8");
    assert_eq!(got, "\x1b]52;c;aGk=\x07");
    let got = String::from_utf8(clipboard_command("\x07")).expect("valid utf8");
    assert_eq!(got, "\x1b]52;c;Bw==\x07");
}

#[test]
fn background_command_sets_or_resets_the_colour() {
    assert_eq!(
        String::from_utf8(background_command(Some("#101010"))).unwrap(),
        "\x1b]11;#101010\x1b\\"
    );
    assert_eq!(
        String::from_utf8(background_command(None)).unwrap(),
        "\x1b]111\x1b\\"
    );
}

#[test]
fn notification_cooldown_and_kind_selection() {
    assert!(notification_cooldown_ok(5, None));
    assert!(!notification_cooldown_ok(5, Some(299_999)));
    assert!(notification_cooldown_ok(5, Some(300_000)));
    assert!(notification_cooldown_ok(0, Some(0)));
    let pending = vec!["game_events".to_string(), "dms".to_string(), "mentions".to_string()];
    let enabled = vec!["mentions".to_string(), "dms".to_string()];
    assert_eq!(first_enabled_notification(&pending, &enabled), Some(1));
    assert_eq!(first_enabled_notification(&pending, &vec![]), None);
}

#[test]
fn notification_mode_from_format() {
    assert_eq!(NotificationMode::from_format(Some("osc777")), NotificationMode::Osc777);
    assert_eq!(NotificationMode::from_format(Some("osc9")), NotificationMode::Osc9);
    assert_eq!(NotificationMode::from_format(Some("both")), NotificationMode::Both);
    assert_eq!(NotificationMode::from_format(None), NotificationMode::Both);
}

#[test]
fn one_enabled_notification_per_frame_after_the_cooldown() {
    let pending = vec!["dm".to_string(), "mention".to_string(), "game".to_string()];
    let enabled = vec!["game".to_string(), "mention".to_string()];
    assert_eq!(notification_to_emit(&pending, &enabled, 5, None), Some(1));
    assert_eq!(notification_to_emit(&pending, &enabled, 5, Some(300_000)), Some(1));
    assert_eq!(notification_to_emit(&pending, &enabled, 5, Some(299_999)), None);
    assert_eq!(notification_to_emit(&pending, &vec!["dm".to_string()], 0, Some(0)), Some(0));
    assert_eq!(notification_to_emit(&pending, &vec![], 0, None), None);
}

#[test]
fn splash_types_one_character_per_tick_with_a_blinking_cursor() {
    assert_eq!(splash_text(0), "t\u{2588}");
    assert_eq!(splash_text(1), "t\u{2588}");
    assert_eq!(splash_text(3), "tak ");
    assert_eq!(splash_text(4), "take\u{2588}");
    assert_eq!(splash_text(27), "take a break, grab a coffee ");
    assert_eq!(splash_text(32), "take a break, grab a coffee\u{2588}");
    assert_eq!(splash_steam_frame(5), 0);
    assert_eq!(splash_steam_frame(6), 1);
    assert_eq!(splash_steam_frame(24), 0);
}

#[test]
fn splash_hint_sits_three_quarters_down_the_gap() {
    assert_eq!(splash_hint_row(10, 18), Some(16));
    assert_eq!(splash_hint_row(10, 11), Some(10));
    assert_eq!(splash_hint_row(10, 10), None);
    assert_eq!(splash_hint_row(12, 10), None);
}

#[test]
fn toast_is_flush_right_and_clamped() {
    assert_eq!(toast_area(5, 1, 80), (61, 20));
    assert_eq!(toast_area(30, 1, 80), (44, 37));
    assert_eq!(toast_area(200, 1, 80), (1, 80));
    assert_eq!(toast_area(65536 + 30, 0, 100), (63, 37));
    assert_eq!(toast_area(draining_banner_message().len(), 0, 200).1, (draining_banner_message().len() + 7) as u16);
}

#[test]
fn rail_and_qr_choices() {
    assert!(home_rail_shown(true, 45));
    assert!(!home_rail_shown(true, 44));
    assert!(!home_rail_shown(false, 200));
    assert_eq!(qr_overlay_titles("https://late.sh/chat/abc"), ("Web Chat", "Scan to open web chat"));
    assert_eq!(qr_overlay_titles("https://late.sh/pair/abc"), ("Pair", "Scan to pair audio"));
    assert!(draining_banner_message().starts_with("\u{26a0}\u{fe0f} Server updating!"));
}

fn pending(kind: &str, title: &str) -> PendingNotification {
    PendingNotification { kind: kind.to_string(), title: title.to_string(), body: "hi".to_string() }
}

#[test]
fn notifications_drain_every_frame_and_record_the_time() {
    let enabled = vec!["mentions".to_string()];
    let mut queue = vec![pending("dms", "a"), pending("mentions", "b"), pending("mentions", "c")];
    let mut last = None;
    let sent = drain_notifications(&mut queue, &enabled, 1, NotificationMode::Osc9, false, &mut last, 1_000);
    assert_eq!(sent, Some(b"\x1b]9;b: hi\x1b\\".to_vec()));
    assert!(queue.is_empty());
    assert_eq!(last, Some(1_000));
    let mut queue = vec![pending("mentions", "d")];
    let sent = drain_notifications(&mut queue, &enabled, 1, NotificationMode::Osc9, false, &mut last, 60_999);
    assert_eq!(sent, None);
    assert!(queue.is_empty());
    assert_eq!(last, Some(1_000));
    let mut queue = vec![pending("mentions", "e")];
    let sent = drain_notifications(&mut queue, &enabled, 1, NotificationMode::Osc9, true, &mut last, 61_000);
    assert_eq!(sent, Some(b"\x1b]9;e: hi\x1b\\\x07".to_vec()));
    assert_eq!(last, Some(61_000));
    let mut queue = vec![pending("dms", "f")];
    assert_eq!(drain_notifications(&mut queue, &enabled, 0, NotificationMode::Osc9, true, &mut last, 99_000), None);
    assert!(queue.is_empty());
    assert_eq!(last, Some(61_000));
}
