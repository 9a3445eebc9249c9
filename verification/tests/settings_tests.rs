use late::profile::Profile;
use late::settings::{
    cycle_cooldown_value, cycle_notify_format, keep_cursor_visible, normalize_optional_text,
    profile_params_from_profile, toggle_kind, toggle_screen, PickerKind, Row, SettingsNav,
    SystemField, Tab, TextField, BIO_MAX_LEN, SYSTEM_FIELD_MAX_LEN, USERNAME_INPUT_MAX_LEN,
};
use late::user::RightSidebarMode;

#[test]
fn normalize_optional_text_trims_and_collapses_blank() {
    assert_eq!(
        normalize_optional_text("  VS   Code  ").as_deref(),
        Some("VS Code")
    );
    assert_eq!(normalize_optional_text("   "), None);
}

#[test]
fn normalize_optional_text_collapses_every_kind_of_whitespace() {
    assert_eq!(
        normalize_optional_text("\tNeo\u{3000}vim\n").as_deref(),
        Some("Neo vim")
    );
}

#[test]
fn notify_format_cycles_both_ways() {
    assert_eq!(cycle_notify_format(Some("both"), true), "osc777");
    assert_eq!(cycle_notify_format(Some("osc777"), true), "osc9");
    assert_eq!(cycle_notify_format(Some("osc9"), true), "both");
    assert_eq!(cycle_notify_format(Some("both"), false), "osc9");
    assert_eq!(cycle_notify_format(None, true), "osc777");
    assert_eq!(cycle_notify_format(Some("weird"), false), "osc9");
}

#[test]
fn cooldown_cycles_through_its_choices() {
    assert_eq!(cycle_cooldown_value(0, true), 1);
    assert_eq!(cycle_cooldown_value(240, true), 0);
    assert_eq!(cycle_cooldown_value(0, false), 240);
    assert_eq!(cycle_cooldown_value(15, true), 30);
    assert_eq!(cycle_cooldown_value(7, true), 1);
}

#[test]
fn toggle_kind_adds_then_removes() {
    let mut kinds = vec!["mentions".to_string()];
    toggle_kind(&mut kinds, "dms");
    assert_eq!(kinds, vec!["mentions", "dms"]);
    toggle_kind(&mut kinds, "mentions");
    assert_eq!(kinds, vec!["dms"]);
    toggle_kind(&mut kinds, "dms");
    assert!(kinds.is_empty());
}

#[test]
fn toggle_screen_keeps_the_list_sorted() {
    let mut screens = vec![1u8, 4];
    toggle_screen(&mut screens, 2);
    assert_eq!(screens, vec![1, 2, 4]);
    toggle_screen(&mut screens, 1);
    assert_eq!(screens, vec![2, 4]);
    toggle_screen(&mut screens, 1);
    assert_eq!(screens, vec![1, 2, 4]);
}

#[test]
fn toggle_screen_on_an_unsorted_list_removes_first_or_sorts() {
    let mut screens = vec![3u8, 1];
    toggle_screen(&mut screens, 2);
    assert_eq!(screens, vec![1, 2, 3]);
    let mut repeated = vec![3u8, 1, 3];
    toggle_screen(&mut repeated, 3);
    assert_eq!(repeated, vec![1, 3]);
}

#[test]
fn tab_labels_and_order() {
    let labels: Vec<&str> = Tab::all().iter().map(|t| t.label()).collect();
    assert_eq!(labels, vec!["Settings", "Bio", "Themes", "RSS", "Account", "Special"]);
    assert_eq!(Row::all()[0], Row::Username);
    assert_eq!(Row::all()[18], Row::NotifyFormat);
}

#[test]
fn system_fields_come_from_their_rows() {
    assert_eq!(SystemField::from_row(Row::Ide), Some(SystemField::Ide));
    assert_eq!(SystemField::from_row(Row::Langs), Some(SystemField::Langs));
    assert_eq!(SystemField::from_row(Row::Theme), None);
}

#[test]
fn system_field_values_and_edits() {
    let mut profile = Profile::default();
    profile.langs = vec!["rust".to_string(), "go".to_string()];
    assert_eq!(SystemField::Langs.value(&profile).as_deref(), Some("rust, go"));
    SystemField::Ide.set_value(&mut profile, "  VS   Code ".to_string());
    assert_eq!(profile.ide.as_deref(), Some("VS Code"));
    SystemField::Langs.set_value(&mut profile, "Zig, #C".to_string());
    assert_eq!(profile.langs, vec!["zig", "c"]);
    SystemField::Os.set_value(&mut profile, "  ".to_string());
    assert_eq!(profile.os, None);
}

#[test]
fn special_tab_unlocks_with_bio_country_or_timezone() {
    let mut nav = SettingsNav::new();
    assert!(!nav.special_tab_unlocked());
    assert_eq!(nav.visible_tabs().len(), 5);
    nav.draft.country = Some("PL".to_string());
    assert!(nav.special_tab_unlocked());
    assert_eq!(nav.visible_tabs().last(), Some(&Tab::Special));
}

#[test]
fn tab_switch_wraps_and_skips_hidden_special_tab() {
    let mut nav = SettingsNav::new();
    let back = nav.tab_switch(false);
    assert_eq!(back.next, Tab::Account);
    nav.select_tab(Tab::Account);
    assert_eq!(nav.tab_switch(true).next, Tab::Settings);
    nav.select_tab(Tab::Bio);
    nav.start_bio_edit();
    let sw = nav.tab_switch(true);
    assert_eq!(sw.next, Tab::Themes);
    assert!(sw.finish_bio);
    assert!(sw.sync_theme);
}

#[test]
fn move_row_stops_at_the_ends() {
    let mut nav = SettingsNav::new();
    nav.move_row(-3);
    assert_eq!(nav.selected_row(), Row::Username);
    nav.move_row(100);
    assert_eq!(nav.selected_row(), Row::NotifyFormat);
    nav.move_row(-13);
    assert_eq!(nav.selected_row(), Row::Theme);
}

#[test]
fn cycle_setting_changes_the_selected_row() {
    let mut nav = SettingsNav::new();
    nav.move_row(7);
    assert_eq!(nav.selected_row(), Row::RightSidebar);
    assert!(nav.cycle_setting(true, "unused"));
    assert_eq!(nav.draft.right_sidebar_mode, RightSidebarMode::Off);
    assert!(!nav.draft.show_right_sidebar);
    assert!(nav.cycle_setting(true, "unused"));
    assert_eq!(nav.draft.right_sidebar_mode, RightSidebarMode::Custom);
    assert!(nav.draft.show_right_sidebar);
    nav.move_row(-2);
    assert_eq!(nav.selected_row(), Row::Theme);
    assert!(nav.cycle_setting(true, "purple"));
    assert_eq!(nav.draft.theme_id.as_deref(), Some("purple"));
    nav.move_row(-4);
    assert_eq!(nav.selected_row(), Row::Ide);
    assert!(!nav.cycle_setting(true, "unused"));
    nav.move_row(12);
    assert_eq!(nav.selected_row(), Row::DirectMessages);
    assert!(nav.cycle_setting(true, "unused"));
    assert_eq!(nav.draft.notify_kinds, vec!["dms"]);
}

#[test]
fn delete_account_confirmation_checks_the_username() {
    let mut nav = SettingsNav::new();
    nav.draft.username = "night-owl".to_string();
    nav.open_delete_account_dialog();
    assert!(!nav.submit_delete_account_confirmation("night_owl"));
    assert_eq!(
        nav.delete_account.status.as_deref(),
        Some("Typed username does not match current username.")
    );
    assert!(nav.submit_delete_account_confirmation("night-owl"));
    assert!(nav.delete_account.pending);
    assert_eq!(nav.delete_account.status.as_deref(), Some("Deleting account..."));
    assert!(!nav.submit_delete_account_confirmation("night-owl"));
}

#[test]
fn picker_moves_and_applies_a_choice() {
    let mut nav = SettingsNav::new();
    nav.open_picker(PickerKind::Country);
    nav.picker.visible_height = 3;
    nav.picker_move(5, 10);
    assert_eq!(nav.picker.selected_index, 5);
    assert_eq!(nav.picker.scroll_offset, 3);
    nav.picker_move(-10, 10);
    assert_eq!(nav.picker.selected_index, 0);
    assert_eq!(nav.picker.scroll_offset, 0);
    nav.picker_push('p');
    nav.picker_push('l');
    nav.picker_backspace();
    assert_eq!(nav.picker.query, "p");
    assert!(nav.apply_picker_selection(Some("PL".to_string())));
    assert_eq!(nav.draft.country.as_deref(), Some("PL"));
    assert!(nav.picker.kind.is_none());
}

#[test]
fn username_and_bio_edits_store_normalised_text() {
    let mut nav = SettingsNav::new();
    nav.start_username_edit();
    nav.submit_username("  night owl  ");
    assert_eq!(nav.draft.username, "night_owl");
    assert!(!nav.editing_username);
    nav.start_bio_edit();
    nav.stop_bio_edit("hello\nworld  \n");
    assert_eq!(nav.draft.bio, "hello\nworld");
    assert_eq!(nav.start_system_field_edit(SystemField::Terminal), None);
    assert!(nav.submit_system_field(" kitty ".to_string()));
    assert_eq!(nav.draft.terminal.as_deref(), Some("kitty"));
    assert!(!nav.submit_system_field("x".to_string()));
}

#[test]
fn feed_cursor_and_url_submission() {
    let mut nav = SettingsNav::new();
    nav.move_feed_cursor(5, 2);
    assert_eq!(nav.feed_index, 2);
    assert!(nav.feed_index_is_add_row(2));
    nav.feeds_changed(1);
    assert_eq!(nav.feed_index, 1);
    assert_eq!(SettingsNav::feed_slot_count(1), 2);
    nav.start_feed_url_edit();
    assert_eq!(nav.submit_feed_url("  https://x.test/feed  ").as_deref(), Some("https://x.test/feed"));
    assert!(!nav.editing_feed_url);
    assert_eq!(nav.submit_feed_url("   "), None);
}

#[test]
fn right_sidebar_custom_list() {
    let mut nav = SettingsNav::new();
    nav.open_right_sidebar_custom();
    nav.move_right_sidebar_custom(10);
    assert_eq!(nav.right_sidebar_custom_index, 3);
    assert!(nav.right_sidebar_screen_enabled(4));
    nav.toggle_right_sidebar_custom_screen();
    assert!(!nav.right_sidebar_screen_enabled(4));
    assert_eq!(nav.draft.right_sidebar_screens, vec![1, 2, 3]);
    nav.toggle_right_sidebar_custom_screen();
    assert_eq!(nav.draft.right_sidebar_screens, vec![1, 2, 3, 4]);
}

#[test]
fn saving_falls_back_to_the_default_theme() {
    let mut profile = Profile::default();
    profile.username = "owl".to_string();
    let params = profile_params_from_profile(&profile, "late");
    assert_eq!(params.theme_id.as_deref(), Some("late"));
    assert_eq!(params.username, "owl");
    profile.theme_id = Some("purple".to_string());
    assert_eq!(
        profile_params_from_profile(&profile, "late").theme_id.as_deref(),
        Some("purple")
    );
}

#[test]
fn keep_cursor_visible_scrolls_just_enough() {
    assert_eq!(keep_cursor_visible(2, 0, 5, 20), 0);
    assert_eq!(keep_cursor_visible(7, 0, 5, 20), 3);
    assert_eq!(keep_cursor_visible(1, 4, 5, 20), 1);
    assert_eq!(keep_cursor_visible(19, 18, 5, 20), 15);
    assert_eq!(keep_cursor_visible(3, 0, 0, 2), 1);
}

#[test]
fn username_yank_respects_max_length() {
    let typed = "abcdefghijk";
    let count = typed.chars().count();
    let inserted = TextField::Username.fit_paste(count, "xyz");
    assert_eq!(format!("{typed}{inserted}"), "abcdefghijkx");
    assert_eq!(count + inserted.chars().count(), USERNAME_INPUT_MAX_LEN);
}

#[test]
fn system_yank_respects_max_length() {
    let count = SYSTEM_FIELD_MAX_LEN - 1;
    let inserted = TextField::System.fit_paste(count, "xyz");
    assert_eq!(count + inserted.chars().count(), SYSTEM_FIELD_MAX_LEN);
}

#[test]
fn bio_yank_respects_max_length() {
    let typed = "a".repeat(BIO_MAX_LEN - 1);
    let inserted = TextField::Bio.fit_paste(typed.chars().count(), "xyz");
    assert_eq!(typed.chars().count() + inserted.chars().count(), BIO_MAX_LEN);
    assert_eq!(format!("{typed}{inserted}"), format!("{}x", "a".repeat(BIO_MAX_LEN - 1)));
}

#[test]
fn paste_drops_control_characters_but_keeps_bio_newlines() {
    assert_eq!(TextField::Username.fit_paste(0, "a\tb\nc\u{7f}d"), "abcd");
    assert_eq!(TextField::FeedUrl.fit_paste(0, "https://x\r\n"), "https://x");
    assert_eq!(TextField::Bio.fit_paste(0, "one\r\ntwo\rthree\u{7}"), "one\ntwo\nthree");
    assert_eq!(TextField::Bio.fit_paste(0, "\r\r\n"), "\n\n");
}

#[test]
fn full_editor_takes_no_more_input() {
    assert_eq!(TextField::Username.fit_paste(USERNAME_INPUT_MAX_LEN, "abc"), "");
    assert_eq!(TextField::Username.fit_paste(50, "abc"), "");
    assert!(TextField::Username.accepts_typed(USERNAME_INPUT_MAX_LEN - 1));
    assert!(!TextField::Username.accepts_typed(USERNAME_INPUT_MAX_LEN));
    assert!(TextField::DeleteConfirm.accepts_typed(31));
    assert!(!TextField::DeleteConfirm.accepts_typed(32));
    assert_eq!(TextField::FeedUrl.limit(), 2000);
}

#[test]
fn editor_char_count_counts_bio_line_breaks() {
    let lines = vec!["ab".to_string(), "żółw".to_string(), String::new()];
    assert_eq!(TextField::Bio.char_count(&lines), 8);
    assert_eq!(TextField::System.char_count(&lines), 6);
    assert_eq!(TextField::Bio.char_count(&vec![]), 0);
}
