use std::collections::HashMap;

use late::audio::{
    booth_delete_error_message, booth_submit_error_message, booth_submit_message,
    booth_unskippable_error_message, booth_vote_error_message, browser_duration_ms,
    delete_check, is_single_playing_unique_violation, item_is_still_playable,
    micros_to_millis, playback_duration, playback_failure_reason, playback_known_duration,
    playback_timer_us, queue_item_view, queue_position, skip_threshold, snapshot_from_rows,
    submission_rate_limited, submission_window_start,
    trusted_skip_error_message, trusted_submit_error_message, vote_value_valid, wants_browser_duration,
    AudioMode, DeleteCheck, ErrorCause, MediaQueueItem, QueueState, SkipCheck,
};
use late::audio::{
    fallback_load_event, skip_vote_gate, AdvanceAction, AdvanceDecision, AdvanceEvent, AudioWsMessage, DebounceAction,
    FallbackSource, SkipVoteRefusal,
};

fn item(id: u128, duration_ms: Option<i32>, is_stream: bool, started_at: Option<i64>) -> MediaQueueItem {
    MediaQueueItem {
        id,
        created: 0,
        updated: 0,
        submitter_id: 7,
        media_kind: "youtube".to_string(),
        external_id: format!("vid{id}"),
        title: Some(format!("Track {id}")),
        channel: None,
        duration_ms,
        is_stream,
        status: "queued".to_string(),
        started_at,
        ended_at: None,
        error: None,
        unskippable: false,
    }
}

#[test]
fn skip_threshold_floors_at_two_and_uses_thirty_percent_ceil() {
    assert_eq!(skip_threshold(0), 2);
    assert_eq!(skip_threshold(1), 2);
    assert_eq!(skip_threshold(5), 2);
    assert_eq!(skip_threshold(6), 2);
    assert_eq!(skip_threshold(7), 3);
    assert_eq!(skip_threshold(10), 3);
    assert_eq!(skip_threshold(11), 4);
    assert_eq!(skip_threshold(20), 6);
    assert_eq!(skip_threshold(21), 7);
    assert_eq!(skip_threshold(100), 30);
    assert_eq!(skip_threshold(101), 31);
}

#[test]
fn skip_threshold_saturates_on_huge_counts() {
    assert!(skip_threshold(usize::MAX) >= 2);
}

#[test]
fn audio_mode_names() {
    assert_eq!(AudioMode::Icecast.as_str(), "icecast");
    assert_eq!(AudioMode::Youtube.as_str(), "youtube");
    assert_eq!(AudioMode::default(), AudioMode::Icecast);
}

#[test]
fn playback_duration_caps_at_an_hour() {
    assert_eq!(playback_duration(&item(1, Some(200_000), false, None)), 200_000);
    assert_eq!(playback_duration(&item(1, Some(5_000_000), false, None)), 3_600_000);
    assert_eq!(playback_duration(&item(1, Some(0), false, None)), 3_600_000);
    assert_eq!(playback_duration(&item(1, None, false, None)), 3_600_000);
    assert_eq!(playback_duration(&item(1, Some(1_000), true, None)), 3_600_000);
    assert_eq!(playback_known_duration(&item(1, Some(-3), false, None)), None);
    assert_eq!(playback_known_duration(&item(1, Some(42), false, None)), Some(42));
}

#[test]
fn still_playable_within_the_allowed_time() {
    let it = item(1, Some(60_000), false, Some(1_000_000));
    assert!(item_is_still_playable(&it, 1_000_000 + 59_999_999));
    assert!(!item_is_still_playable(&it, 1_000_000 + 60_000_000));
    assert!(!item_is_still_playable(&item(1, Some(60_000), false, None), 0));
}

#[test]
fn playback_timer_waits_for_what_is_left() {
    let it = item(1, Some(60_000), false, Some(1_000_000));
    assert_eq!(playback_timer_us(&it, 1_000_000), Some(60_000_000));
    assert_eq!(playback_timer_us(&it, 0), Some(60_000_000));
    assert_eq!(playback_timer_us(&it, 31_000_000), Some(30_000_000));
    assert_eq!(playback_timer_us(&it, 99_000_000), Some(0));
    assert_eq!(playback_timer_us(&item(1, None, false, None), 5), None);
}

#[test]
fn error_messages_name_the_failure() {
    assert_eq!(booth_submit_message("Audio BAN: submitting blocked"), "Banned from submitting audio");
    assert_eq!(booth_submit_message("YouTube video not found"), "Invalid YouTube URL");
    assert_eq!(booth_submit_message("submission rate limit exceeded"), "Slow down - too many submissions");
    assert_eq!(booth_submit_message("video is not public"), "Video is not public");
    assert_eq!(booth_submit_message("video is not embeddable"), "Video is not embeddable");
    assert_eq!(booth_submit_message("missing API key"), "YouTube validation failed - try again");
    assert_eq!(booth_submit_message("boom"), "Failed to submit");
    let err = anyhow::Error::msg("submission rate limit exceeded");
    assert_eq!(booth_submit_error_message(&err), "Slow down - too many submissions");
    let err = anyhow::Error::msg("voting closed - track started");
    assert_eq!(booth_vote_error_message(&err), "Voting closed - track started");
    let err = anyhow::Error::msg("nothing is playing");
    assert_eq!(booth_vote_error_message(&err), "Nothing is playing");
    let err = anyhow::Error::msg("queue item is no longer voteable");
    assert_eq!(booth_vote_error_message(&err), "Item is no longer in the queue");
    let err = anyhow::Error::msg("switch to youtube to skip-vote");
    assert_eq!(booth_vote_error_message(&err), "Vote failed");
    let err = anyhow::Error::msg("not allowed");
    assert_eq!(booth_unskippable_error_message(&err), "Only staff can lock tracks");
    assert_eq!(booth_delete_error_message(&err), "Only the submitter or staff can delete this track");
    let err = anyhow::Error::msg("track is no longer queued");
    assert_eq!(booth_unskippable_error_message(&err), "Track is no longer in the queue");
    assert_eq!(booth_delete_error_message(&err), "Track is no longer in the queue");
    let err = anyhow::Error::msg("boom");
    assert_eq!(booth_unskippable_error_message(&err), "Failed to update track");
    assert_eq!(booth_delete_error_message(&err), "Failed to delete track");
    let err = anyhow::Error::msg("invalid youtube video id");
    assert_eq!(trusted_submit_error_message(&err), "Invalid YouTube URL");
    let err = anyhow::Error::msg("boom").context("Nothing is playing");
    assert_eq!(trusted_skip_error_message(&err), "Nothing is playing");
    assert_eq!(trusted_skip_error_message(&anyhow::Error::msg("db down")), "Failed to skip audio");
}

#[test]
fn playback_failure_reason_falls_back_when_blank() {
    assert_eq!(playback_failure_reason(Some("ad blocked")), "ad blocked");
    assert_eq!(playback_failure_reason(Some("   ")), "browser reported playback error");
    assert_eq!(playback_failure_reason(None), "browser reported playback error");
}

#[test]
fn browser_durations_must_fit_and_be_positive() {
    assert_eq!(browser_duration_ms(Some(1234)), Some(1234));
    assert_eq!(browser_duration_ms(Some(0)), None);
    assert_eq!(browser_duration_ms(Some(3_000_000_000)), None);
    assert_eq!(browser_duration_ms(None), None);
    let mut it = item(1, None, false, Some(0));
    it.status = "playing".to_string();
    assert!(wants_browser_duration(&it));
    it.duration_ms = Some(5);
    assert!(!wants_browser_duration(&it));
}

#[test]
fn skip_votes_count_each_listener_once_and_fire_at_threshold() {
    let mut state: QueueState<u8> = QueueState::new();
    state.start_item(42);
    let first = state.record_skip_vote(1, 5);
    assert_eq!((first.progress.votes, first.progress.threshold, first.fired), (1, 2, false));
    let again = state.record_skip_vote(1, 5);
    assert_eq!((again.progress.votes, again.fired), (1, false));
    assert_eq!(state.skip_check(5), SkipCheck::Pending(again.progress));
    let second = state.record_skip_vote(2, 5);
    assert!(second.fired);
    assert_eq!(state.skip_check(5), SkipCheck::ThresholdMet(42));
    assert!(state.withdraw_skip_vote(2));
    assert!(!state.withdraw_skip_vote(2));
    assert_eq!(state.skip_votes, vec![1]);
    let (previous, cancel) = state.clear_current();
    assert_eq!(previous, Some(42));
    assert_eq!(cancel, None);
    assert!(state.skip_votes.is_empty());
    assert_eq!(state.skip_check(5), SkipCheck::Idle);
}

#[test]
fn adopting_a_track_rebinds_only_when_needed() {
    let mut state: QueueState<u8> = QueueState::new();
    state.arm_fallback(9);
    assert!(state.needs_rebind(5));
    assert_eq!(state.adopt_item(5), Some(9));
    assert_eq!(state.mode, AudioMode::Youtube);
    assert!(state.needs_rebind(5));
    state.arm_playback(3);
    assert!(!state.needs_rebind(5));
    assert!(state.needs_rebind(6));
    state.record_skip_vote(11, 0);
    state.adopt_item(5);
    assert_eq!(state.skip_votes, vec![11]);
    state.adopt_item(6);
    assert!(state.skip_votes.is_empty());
}

#[test]
fn sequence_counts_up_and_saturates() {
    let mut state: QueueState<u8> = QueueState::new();
    assert_eq!(state.next_sequence(), 1);
    assert_eq!(state.next_sequence(), 2);
    state.sequence = u64::MAX - 1;
    assert_eq!(state.next_sequence(), u64::MAX);
    assert_eq!(state.next_sequence(), u64::MAX);
}

#[test]
fn fallback_timer_rules() {
    let mut state: QueueState<u8> = QueueState::new();
    assert!(!state.fallback_wanted());
    state.enter_fallback();
    assert!(state.fallback_wanted());
    state.arm_fallback(1);
    assert!(!state.fallback_wanted());
    assert!(state.fallback_elapsed());
    state.fall_back_to_radio();
    assert_eq!(state.mode, AudioMode::Icecast);
    assert_eq!(state.skip_progress(true, 10), None);
    state.start_item(8);
    assert!(!state.fallback_elapsed());
    let p = state.skip_progress(true, 10).unwrap();
    assert_eq!((p.votes, p.threshold), (0, 3));
    assert_eq!(state.skip_progress(false, 10), None);
}

#[test]
fn queue_views_and_snapshots() {
    let mut names = HashMap::new();
    names.insert(7u128, "alice".to_string());
    let view = queue_item_view(item(3, Some(1000), false, Some(2_500_999)), 4, &names);
    assert_eq!(view.submitter, "alice");
    assert_eq!(view.started_at_ms, Some(2_500));
    assert_eq!(view.video_id, "vid3");
    assert_eq!(view.vote_score, 4);
    let empty: HashMap<u128, String> = HashMap::new();
    assert_eq!(queue_item_view(item(3, None, false, None), 0, &empty).submitter, "");

    let rows = vec![
        (item(1, None, false, Some(5_000)), 0),
        (item(2, None, false, None), 3),
        (item(3, None, false, None), -1),
    ];
    let snap = snapshot_from_rows(rows, &names, AudioMode::Youtube);
    assert_eq!(snap.current.as_ref().map(|v| v.id), Some(1));
    assert_eq!(snap.queue.iter().map(|v| v.id).collect::<Vec<_>>(), vec![2, 3]);
    assert!(snap.skip_progress().is_none());
    assert_eq!(snap.audio_mode, AudioMode::Youtube);
}

#[test]
fn millis_round_down() {
    assert_eq!(micros_to_millis(1_999), 1);
    assert_eq!(micros_to_millis(-1), -1);
    assert_eq!(micros_to_millis(-1_000), -1);
    assert_eq!(micros_to_millis(-1_001), -2);
    assert_eq!(micros_to_millis(i64::MIN), i64::MIN.div_euclid(1000));
}

#[test]
fn queue_positions_votes_and_deletes() {
    assert_eq!(queue_position(Some(5), 5, 9), 0);
    assert_eq!(queue_position(Some(5), 6, 9), 10);
    assert_eq!(queue_position(None, 6, 0), 1);
    assert!(vote_value_valid(1) && vote_value_valid(-1));
    assert!(!vote_value_valid(0) && !vote_value_valid(2));
    let it = item(1, None, false, None);
    assert_eq!(delete_check(&it, 7), DeleteCheck::Owner);
    assert_eq!(delete_check(&it, 8), DeleteCheck::NeedsStaff);
    let mut played = item(1, None, false, None);
    played.status = "played".to_string();
    assert_eq!(delete_check(&played, 7), DeleteCheck::NotQueued);
}

#[test]
fn single_playing_violations_are_recognised() {
    let by_constraint = ErrorCause {
        unique_violation: true,
        constraint: Some("idx_media_queue_single_playing".to_string()),
        text: "duplicate key".to_string(),
    };
    let by_text = ErrorCause {
        unique_violation: false,
        constraint: None,
        text: "violates idx_media_queue_single_playing".to_string(),
    };
    let other = ErrorCause {
        unique_violation: true,
        constraint: Some("users_pkey".to_string()),
        text: "duplicate key".to_string(),
    };
    assert!(is_single_playing_unique_violation(&vec![other.clone(), by_constraint]));
    assert!(is_single_playing_unique_violation(&vec![by_text]));
    assert!(!is_single_playing_unique_violation(&vec![other]));
    assert!(!is_single_playing_unique_violation(&vec![]));
}

#[test]
fn submissions_are_limited_to_ten_per_thirty_minutes() {
    assert!(!submission_rate_limited(0));
    assert!(!submission_rate_limited(9));
    assert!(submission_rate_limited(10));
    assert!(submission_rate_limited(11));
    assert_eq!(submission_window_start(1_000_000_000), -800_000_000);
    assert_eq!(submission_window_start(2_000_000_000), 200_000_000);
}

#[test]
fn skip_vote_gate_checks_listener_ban_track_and_lock_in_order() {
    assert_eq!(skip_vote_gate(false, true, None, true), Err(SkipVoteRefusal::NoYoutubeListener));
    assert_eq!(skip_vote_gate(true, true, Some(4), false), Err(SkipVoteRefusal::Banned));
    assert_eq!(skip_vote_gate(true, false, None, false), Err(SkipVoteRefusal::NothingPlaying));
    assert_eq!(skip_vote_gate(true, false, Some(4), true), Err(SkipVoteRefusal::Unskippable));
    assert_eq!(skip_vote_gate(true, false, Some(4), false), Ok(4));
}

#[test]
fn skip_vote_refusals_have_their_texts() {
    assert_eq!(SkipVoteRefusal::NoYoutubeListener.message(), "switch to youtube to skip-vote");
    assert_eq!(SkipVoteRefusal::Banned.message(), "audio ban: skip-vote blocked");
    assert_eq!(SkipVoteRefusal::NothingPlaying.message(), "nothing is playing");
    assert_eq!(SkipVoteRefusal::Unskippable.message(), "track is unskippable");
}

#[test]
fn refused_skip_votes_leave_the_tally_alone() {
    let mut state: QueueState<u8> = QueueState::new();
    assert_eq!(state.cast_skip_vote(1, true, false, false, 5), Err(SkipVoteRefusal::NothingPlaying));
    state.start_item(42);
    state.record_skip_vote(9, 5);
    assert_eq!(state.cast_skip_vote(1, false, false, false, 5), Err(SkipVoteRefusal::NoYoutubeListener));
    assert_eq!(state.cast_skip_vote(1, true, true, false, 5), Err(SkipVoteRefusal::Banned));
    assert_eq!(state.cast_skip_vote(1, true, false, true, 5), Err(SkipVoteRefusal::Unskippable));
    assert_eq!(state.skip_votes, vec![9]);
    assert_eq!(state.current_item_id, Some(42));
    let counted = state.cast_skip_vote(1, true, false, false, 5).unwrap();
    assert_eq!((counted.progress.votes, counted.progress.threshold, counted.fired), (2, 2, true));
    let again = state.cast_skip_vote(1, true, false, false, 5).unwrap();
    assert_eq!(again.progress.votes, 2);
    assert_eq!(state.skip_votes, vec![9, 1]);
}

#[test]
fn advance_prefers_queue_then_fallback_then_debounce() {
    let mut state: QueueState<u8> = QueueState::new();
    state.enter_fallback();
    assert_eq!(state.advance_step(Some(3), true, true), AdvanceAction::Play(3));
    assert_eq!(state.advance_step(Some(3), true, false), AdvanceAction::ArmDebounce);
    assert_eq!(state.advance_step(None, true, false), AdvanceAction::Fallback);
    assert_eq!(state.advance_step(None, false, false), AdvanceAction::ArmDebounce);
    state.fall_back_to_radio();
    assert_eq!(state.advance_step(None, false, false), AdvanceAction::Wait);
    assert_eq!(state.advance_step(None, true, false), AdvanceAction::Fallback);
}

#[test]
fn debounce_ends_in_fallback_or_radio() {
    let mut state: QueueState<u8> = QueueState::new();
    assert_eq!(state.debounce_step(true), DebounceAction::Fallback);
    assert_eq!(state.debounce_step(false), DebounceAction::Radio);
    state.start_item(5);
    assert_eq!(state.debounce_step(true), DebounceAction::Nothing);
}

#[test]
fn fallback_track_is_loaded_by_its_id() {
    let source = FallbackSource { id: 77, external_id: "jfKfPfyJRdk".to_string(), is_stream: true };
    match fallback_load_event(&source) {
        AudioWsMessage::LoadVideo { item_id, video_id, is_stream } => {
            assert_eq!(item_id, 77);
            assert_eq!(video_id, "jfKfPfyJRdk");
            assert!(is_stream);
        }
        other => panic!("unexpected message {other:?}"),
    }
}

#[test]
fn advance_decisions_adopt_first_and_handle_lost_races() {
    let mut state: QueueState<u8> = QueueState::new();
    state.enter_fallback();
    assert_eq!(state.advance_decision(AdvanceEvent::AlreadyPlaying(4)), AdvanceDecision::Adopt(4));
    assert_eq!(state.advance_decision(AdvanceEvent::Claimed(5)), AdvanceDecision::Play(5));
    let lost = |now_playing, conflict| AdvanceEvent::LostRace { now_playing, conflict };
    assert_eq!(state.advance_decision(lost(Some(6), true)), AdvanceDecision::Adopt(6));
    assert_eq!(state.advance_decision(lost(None, false)), AdvanceDecision::ArmDebounce);
    assert_eq!(state.advance_decision(lost(None, true)), AdvanceDecision::Fail);
    let empty = |fallback_available| AdvanceEvent::QueueEmpty { fallback_available };
    assert_eq!(state.advance_decision(empty(true)), AdvanceDecision::Fallback);
    assert_eq!(state.advance_decision(empty(false)), AdvanceDecision::ArmDebounce);
    state.fall_back_to_radio();
    assert_eq!(state.advance_decision(lost(None, false)), AdvanceDecision::Wait);
    assert_eq!(state.advance_decision(empty(false)), AdvanceDecision::Wait);
}
