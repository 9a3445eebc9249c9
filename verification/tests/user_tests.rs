use late::user::{
    attempt_candidate, display_username, sanitize_username_input, truncate_to_boundary, username_candidate,
    AudioSource, RightSidebarMode,
};

#[test]
fn sanitize_username_input_trims_and_falls_back() {
    assert_eq!(sanitize_username_input("  night-owl  "), "night-owl");
    assert_eq!(sanitize_username_input("   "), "user");
}

#[test]
fn sanitize_username_input_replaces_spaces_and_invalid_chars() {
    assert_eq!(sanitize_username_input("  night owl  "), "night_owl");
    assert_eq!(sanitize_username_input("alice!!!bob"), "alice_bob");
    assert_eq!(sanitize_username_input("@alice"), "alice");
    assert_eq!(sanitize_username_input("a@b"), "ab");
    assert_eq!(sanitize_username_input("...alice..."), "...alice...");
}

#[test]
fn sanitize_username_input_collapses_repeated_separators() {
    assert_eq!(sanitize_username_input("a   b\t\tc"), "a_b_c");
    assert_eq!(sanitize_username_input("a@@@b###c"), "ab_c");
}

#[test]
fn truncate_to_boundary_respects_char_boundaries() {
    assert_eq!(truncate_to_boundary("abcdef", 4), "abcd");
    assert_eq!(truncate_to_boundary("żółw", 3), "żół");
}

#[test]
fn sanitize_username_input_is_idempotent_on_examples() {
    for raw in ["  night owl  ", "__a__", "@@@", "x".repeat(40).as_str(), "a b_", "\u{3000}zz\u{85}"] {
        let once = sanitize_username_input(raw);
        assert_eq!(sanitize_username_input(&once), once);
        assert!(!once.is_empty() && once.chars().count() <= 32);
    }
}

#[test]
fn sanitize_username_input_caps_length_and_strips_cut_underscore() {
    let long = format!("{}_{}", "a".repeat(31), "b".repeat(10));
    assert_eq!(sanitize_username_input(&long), "a".repeat(31));
    assert_eq!(sanitize_username_input("___"), "user");
}

#[test]
fn username_candidate_keeps_suffix_within_limit() {
    assert_eq!(username_candidate("night-owl", 2), "night-owl-2");
    let base = "a".repeat(32);
    let c = username_candidate(&base, 12);
    assert_eq!(c, format!("{}-12", "a".repeat(29)));
    assert_eq!(c.chars().count(), 32);
}

#[test]
fn audio_source_names_round_trip() {
    assert_eq!(AudioSource::Icecast.as_str(), "icecast");
    assert_eq!(AudioSource::Youtube.as_str(), "youtube");
    assert_eq!(AudioSource::from_settings_str("youtube"), AudioSource::Youtube);
    assert_eq!(AudioSource::from_settings_str("YouTube"), AudioSource::Icecast);
    assert_eq!(AudioSource::from_settings_str(AudioSource::Youtube.as_str()), AudioSource::Youtube);
    assert_eq!(AudioSource::default(), AudioSource::Icecast);
}

#[test]
fn right_sidebar_mode_cycles_both_ways() {
    assert_eq!(RightSidebarMode::On.cycle(true), RightSidebarMode::Off);
    assert_eq!(RightSidebarMode::Off.cycle(true), RightSidebarMode::Custom);
    assert_eq!(RightSidebarMode::Custom.cycle(true), RightSidebarMode::On);
    assert_eq!(RightSidebarMode::On.cycle(false), RightSidebarMode::Custom);
    for m in [RightSidebarMode::On, RightSidebarMode::Off, RightSidebarMode::Custom] {
        assert_eq!(m.cycle(true).cycle(false), m);
        assert_eq!(m.cycle(false).cycle(false).cycle(false), m);
    }
    assert_eq!(RightSidebarMode::Custom.as_str(), "custom");
}

#[test]
fn display_username_falls_back_to_someone() {
    assert_eq!(display_username(Some("owl")), "owl");
    assert_eq!(display_username(Some(" owl ")), " owl ");
    assert_eq!(display_username(Some("   ")), "someone");
    assert_eq!(display_username(None), "someone");
}

#[test]
fn free_username_search_tries_base_then_numbered() {
    assert_eq!(attempt_candidate("night-owl", 0), "night-owl");
    assert_eq!(attempt_candidate("night-owl", 1), "night-owl-2");
    assert_eq!(attempt_candidate("night-owl", 2), "night-owl-3");
}

#[test]
fn username_search_moves_on_while_names_are_taken() {
    let mut search = late::user::UsernameSearch::new("Night Owl!");
    let first = search.candidate();
    assert_eq!(search.answer(true), None);
    assert_eq!(search.attempt, 1);
    assert_eq!(search.candidate(), format!("{first}-2"));
    assert_eq!(search.answer(true), None);
    assert_eq!(search.answer(false), Some(format!("{first}-3")));
    assert_eq!(search.attempt, 2);
}
