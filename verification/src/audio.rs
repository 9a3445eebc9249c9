//! The audio booth: the shared YouTube queue that every paired browser
//! plays, with votes, skip-votes and a fallback track.
//!
//! The service around it talks to the database and to the browsers; what
//! it decides (how long a track may play, when a skip fires, what a
//! failure is called, how the queue state moves) is here.

use std::collections::HashMap;

use vstd::prelude::*;

use crate::text::{chars_of, contains_str, has_sub, lower_seq, lower_vec, str_eq, trim_str, trim_ws};

verus! {

/// Items listed in a queue snapshot.
pub const QUEUE_SNAPSHOT_LIMIT: i64 = 50;

/// Public submissions allowed per user within `SUBMISSION_WINDOW_US`.
pub const MAX_SUBMISSIONS_PER_WINDOW: i64 = 10;

/// The submission rate-limit window: thirty minutes, in microseconds.
pub const SUBMISSION_WINDOW_US: i64 = 1_800_000_000;

/// How long the queue stays empty before the fallback track or the radio
/// takes over, in milliseconds.
pub const FALLBACK_DEBOUNCE_MS: u64 = 10_000;

/// How often the current track's `LoadVideo` is broadcast again, in
/// milliseconds.
pub const PLAYBACK_HEARTBEAT_INTERVAL_MS: u64 = 10_000;

/// How often the in-memory state is reconciled with the database, in
/// milliseconds.
pub const RECONCILE_INTERVAL_MS: u64 = 60_000;

/// Longest a track plays: one hour, in milliseconds. Streams always get it.
pub const STREAM_CAP_MS: u64 = 3_600_000;

/// Share of YouTube listeners, in percent, whose skip-votes fire a skip.
pub const SKIP_VOTE_PERCENT: usize = 30;

/// Fewest skip-votes that fire a skip.
pub const SKIP_VOTE_MIN: u32 = 2;

/// What the booth plays: the Icecast radio or the YouTube queue.
#[derive(Clone, Copy, Debug, PartialEq, Eq, Structural)]
pub enum AudioMode {
    Icecast,
    Youtube,
}

impl Default for AudioMode {
    fn default() -> (r: Self)
        ensures
            r == AudioMode::Icecast,
    {
        AudioMode::Icecast
    }
}

impl AudioMode {
    pub fn as_str(self) -> (r: &'static str)
        ensures
            r@ == (match self {
                AudioMode::Icecast => "icecast"@,
                AudioMode::Youtube => "youtube"@,
            }),
    {
        match self {
            AudioMode::Icecast => "icecast",
            AudioMode::Youtube => "youtube",
        }
    }
}

/// Skip-votes cast on the current track, and how many fire a skip.
#[derive(Clone, Copy, Debug, PartialEq, Eq, Structural)]
pub struct SkipProgress {
    pub votes: u32,
    pub threshold: u32,
}

/// The outcome of one skip-vote.
#[derive(Clone, Copy, Debug, PartialEq, Eq, Structural)]
pub struct CastSkipResult {
    pub progress: SkipProgress,
    pub fired: bool,
}

/// What a browser reports of its player.
#[derive(Clone, Copy, Debug, PartialEq, Eq, Structural)]
pub enum PlayerPlaybackState {
    Playing,
    Paused,
    Buffering,
    Ended,
    Error,
}

/// A row of `media_queue_items`. Ids are UUIDs held as `u128`; instants are
/// microseconds since the Unix epoch.
#[derive(Clone, Debug)]
pub struct MediaQueueItem {
    pub id: u128,
    pub created: i64,
    pub updated: i64,
    pub submitter_id: u128,
    pub media_kind: String,
    pub external_id: String,
    pub title: Option<String>,
    pub channel: Option<String>,
    pub duration_ms: Option<i32>,
    pub is_stream: bool,
    pub status: String,
    pub started_at: Option<i64>,
    pub ended_at: Option<i64>,
    pub error: Option<String>,
    pub unskippable: bool,
}

pub const STATUS_QUEUED: &'static str = "queued";

pub const STATUS_PLAYING: &'static str = "playing";

pub const STATUS_PLAYED: &'static str = "played";

pub const STATUS_SKIPPED: &'static str = "skipped";

pub const STATUS_FAILED: &'static str = "failed";

pub const KIND_YOUTUBE: &'static str = "youtube";

// ---------------------------------------------------------------------------
// How long a track plays

/// The track's own length in milliseconds, when it has a positive one.
pub open spec fn known_duration_spec(item: MediaQueueItem) -> Option<u64> {
    match item.duration_ms {
        Some(d) => if d > 0 {
            Some(d as u64)
        } else {
            None
        },
        None => None,
    }
}

/// How long a track may play, in milliseconds: its own length capped at
/// one hour; an hour for streams and tracks of unknown length.
pub open spec fn playback_duration_spec(item: MediaQueueItem) -> u64 {
    if item.is_stream {
        STREAM_CAP_MS
    } else {
        match known_duration_spec(item) {
            Some(d) => if d < STREAM_CAP_MS {
                d
            } else {
                STREAM_CAP_MS
            },
            None => STREAM_CAP_MS,
        }
    }
}

/// The track's stored length in milliseconds, when it is positive.
pub fn playback_known_duration(item: &MediaQueueItem) -> (r: Option<u64>)
    ensures
        r == known_duration_spec(*item),
{
    match item.duration_ms {
        Some(d) => if d > 0 {
            Some(d as u64)
        } else {
            None
        },
        None => None,
    }
}

/// How long the track may play before the queue moves on, in milliseconds.
pub fn playback_duration(item: &MediaQueueItem) -> (r: u64)
    ensures
        r == playback_duration_spec(*item),
        0 < r <= STREAM_CAP_MS,
{
    if item.is_stream {
        return STREAM_CAP_MS;
    }
    match playback_known_duration(item) {
        Some(d) => if d < STREAM_CAP_MS {
            d
        } else {
            STREAM_CAP_MS
        },
        None => STREAM_CAP_MS,
    }
}

/// Whether a track that the database says is playing is still within its
/// allowed time at `now`.
pub fn item_is_still_playable(item: &MediaQueueItem, now: i64) -> (r: bool)
    ensures
        r == (match item.started_at {
            Some(started) => now - started < playback_duration_spec(*item) * 1000,
            None => false,
        }),
{
    match item.started_at {
        Some(started) => {
            let allowed = playback_duration(item) as i128 * 1000;
            (now as i128) - (started as i128) < allowed
        },
        None => false,
    }
}

/// How long, in microseconds, the playback timer of a track waits at
/// `now`: what is left of its allowed time, at least zero. `None` when the
/// track has not started.
pub fn playback_timer_us(item: &MediaQueueItem, now: i64) -> (r: Option<u64>)
    ensures
        match item.started_at {
            Some(started) => r == Some(
                {
                    let total = playback_duration_spec(*item) * 1000;
                    let elapsed = now - started;
                    if elapsed <= 0 {
                        total as u64
                    } else if elapsed >= total {
                        0u64
                    } else {
                        (total - elapsed) as u64
                    }
                },
            ),
            None => r is None,
        },
{
    match item.started_at {
        Some(started) => {
            let total: i128 = playback_duration(item) as i128 * 1000;
            let elapsed: i128 = (now as i128) - (started as i128);
            if elapsed <= 0 {
                Some(total as u64)
            } else if elapsed >= total {
                Some(0)
            } else {
                Some((total - elapsed) as u64)
            }
        },
        None => None,
    }
}

// ---------------------------------------------------------------------------
// Skip-vote threshold

/// `usize::saturating_mul(n, SKIP_VOTE_PERCENT)`.
pub open spec fn scaled_listeners(n: usize) -> int {
    if n * SKIP_VOTE_PERCENT > usize::MAX {
        usize::MAX as int
    } else {
        n * SKIP_VOTE_PERCENT
    }
}

/// `SKIP_VOTE_PERCENT` percent of the listeners, rounded up, as `u32`, and
/// never under `SKIP_VOTE_MIN`.
pub open spec fn skip_threshold_spec(n: usize) -> u32 {
    let p = scaled_listeners(n);
    let v = (p / 100 + (if p % 100 == 0 {
        0int
    } else {
        1int
    })) as u32;
    if v > SKIP_VOTE_MIN {
        v
    } else {
        SKIP_VOTE_MIN
    }
}

/// Skip-votes needed to skip the current track when `paired_total`
/// browsers listen on YouTube.
pub fn skip_threshold(paired_total: usize) -> (r: u32)
    ensures
        r == skip_threshold_spec(paired_total),
        r >= SKIP_VOTE_MIN,
{
    let p: usize = match paired_total.checked_mul(SKIP_VOTE_PERCENT) {
        Some(p) => p,
        None => usize::MAX,
    };
    let c: usize = p / 100 + if p % 100 == 0 {
        0
    } else {
        1
    };
    let v = c as u32;
    if v > SKIP_VOTE_MIN {
        v
    } else {
        SKIP_VOTE_MIN
    }
}

// ---------------------------------------------------------------------------
// What a failure is called

#[verifier::external_type_specification]
#[verifier::external_body]
pub struct ExAnyhowError(anyhow::Error);

/// The text `anyhow` writes for an error in its alternate form (`{:#}`):
/// its message followed by each cause, `: `-separated.
pub uninterp spec fn error_chain(err: anyhow::Error) -> Seq<char>;

/// `format!("{err:#}")` of an `anyhow::Error`. The text depends on the
/// error alone and is only named here.
#[verifier::external_body]
fn error_chain_text(err: &anyhow::Error) -> (r: String)
    ensures
        r@ == error_chain(*err),
{
    format!("{err:#}")
}

/// The banner a failed booth submission shows, given the lower-cased
/// error text.
pub open spec fn booth_submit_message_spec(t: Seq<char>) -> Seq<char> {
    if has_sub(t, "audio ban"@) {
        "Banned from submitting audio"@
    } else if has_sub(t, "invalid url"@) || (has_sub(t, "youtube"@) && has_sub(t, "not found"@)) {
        "Invalid YouTube URL"@
    } else if has_sub(t, "rate limit"@) || has_sub(t, "submission rate limit"@) {
        "Slow down - too many submissions"@
    } else if has_sub(t, "not public"@) {
        "Video is not public"@
    } else if has_sub(t, "not embeddable"@) {
        "Video is not embeddable"@
    } else if has_sub(t, "api key"@) || has_sub(t, "youtube data api"@) {
        "YouTube validation failed - try again"@
    } else {
        "Failed to submit"@
    }
}

/// The banner a failed vote or skip-vote shows.
pub open spec fn booth_vote_message_spec(t: Seq<char>) -> Seq<char> {
    if has_sub(t, "audio ban"@) {
        "Banned from voting"@
    } else if has_sub(t, "voting closed"@) {
        "Voting closed - track started"@
    } else if has_sub(t, "pair a client"@) {
        "Pair a client to skip-vote"@
    } else if has_sub(t, "nothing is playing"@) {
        "Nothing is playing"@
    } else if has_sub(t, "queue item not found"@) || has_sub(
        t,
        "queue item is no longer voteable"@,
    ) {
        "Item is no longer in the queue"@
    } else {
        "Vote failed"@
    }
}

/// The banner a failed lock or unlock of a track shows.
pub open spec fn booth_unskippable_message_spec(t: Seq<char>) -> Seq<char> {
    if has_sub(t, "not allowed"@) {
        "Only staff can lock tracks"@
    } else if has_sub(t, "no longer queued"@) || has_sub(t, "not found"@) {
        "Track is no longer in the queue"@
    } else {
        "Failed to update track"@
    }
}

/// The banner a failed delete of a queued track shows.
pub open spec fn booth_delete_message_spec(t: Seq<char>) -> Seq<char> {
    if has_sub(t, "not allowed"@) {
        "Only the submitter or staff can delete this track"@
    } else if has_sub(t, "queue item not found"@) || has_sub(t, "no longer queued"@) {
        "Track is no longer in the queue"@
    } else {
        "Failed to delete track"@
    }
}

/// The banner a failed staff submission or fallback change shows.
pub open spec fn trusted_submit_message_spec(t: Seq<char>) -> Seq<char> {
    if has_sub(t, "audio ban"@) {
        "Banned from submitting audio"@
    } else if has_sub(t, "invalid url"@) || has_sub(t, "unsupported youtube url"@) || has_sub(
        t,
        "invalid youtube video id"@,
    ) {
        "Invalid YouTube URL"@
    } else if has_sub(t, "rate limit"@) {
        "Slow down - too many submissions"@
    } else {
        "Failed to queue audio"@
    }
}

/// The banner a failed staff skip shows.
pub open spec fn trusted_skip_message_spec(t: Seq<char>) -> Seq<char> {
    if has_sub(t, "nothing is playing"@) {
        "Nothing is playing"@
    } else {
        "Failed to skip audio"@
    }
}

/// The banner for a failed booth submission, from the error's text.
pub fn booth_submit_message(text: &str) -> (r: String)
    ensures
        r@ == booth_submit_message_spec(lower_seq(text@)),
{
    let t = lower_vec(&chars_of(text));
    if contains_str(&t, "audio ban") {
        "Banned from submitting audio".to_owned()
    } else if contains_str(&t, "invalid url") || (contains_str(&t, "youtube") && contains_str(
        &t,
        "not found",
    )) {
        "Invalid YouTube URL".to_owned()
    } else if contains_str(&t, "rate limit") || contains_str(&t, "submission rate limit") {
        "Slow down - too many submissions".to_owned()
    } else if contains_str(&t, "not public") {
        "Video is not public".to_owned()
    } else if contains_str(&t, "not embeddable") {
        "Video is not embeddable".to_owned()
    } else if contains_str(&t, "api key") || contains_str(&t, "youtube data api") {
        "YouTube validation failed - try again".to_owned()
    } else {
        "Failed to submit".to_owned()
    }
}

/// The banner for a failed vote, from the error's text.
pub fn booth_vote_message(text: &str) -> (r: String)
    ensures
        r@ == booth_vote_message_spec(lower_seq(text@)),
{
    let t = lower_vec(&chars_of(text));
    if contains_str(&t, "audio ban") {
        "Banned from voting".to_owned()
    } else if contains_str(&t, "voting closed") {
        "Voting closed - track started".to_owned()
    } else if contains_str(&t, "pair a client") {
        "Pair a client to skip-vote".to_owned()
    } else if contains_str(&t, "nothing is playing") {
        "Nothing is playing".to_owned()
    } else if contains_str(&t, "queue item not found") || contains_str(
        &t,
        "queue item is no longer voteable",
    ) {
        "Item is no longer in the queue".to_owned()
    } else {
        "Vote failed".to_owned()
    }
}

/// The banner for a failed lock or unlock, from the error's text.
pub fn booth_unskippable_message(text: &str) -> (r: String)
    ensures
        r@ == booth_unskippable_message_spec(lower_seq(text@)),
{
    let t = lower_vec(&chars_of(text));
    if contains_str(&t, "not allowed") {
        "Only staff can lock tracks".to_owned()
    } else if contains_str(&t, "no longer queued") || contains_str(&t, "not found") {
        "Track is no longer in the queue".to_owned()
    } else {
        "Failed to update track".to_owned()
    }
}

/// The banner for a failed delete, from the error's text.
pub fn booth_delete_message(text: &str) -> (r: String)
    ensures
        r@ == booth_delete_message_spec(lower_seq(text@)),
{
    let t = lower_vec(&chars_of(text));
    if contains_str(&t, "not allowed") {
        "Only the submitter or staff can delete this track".to_owned()
    } else if contains_str(&t, "queue item not found") || contains_str(&t, "no longer queued") {
        "Track is no longer in the queue".to_owned()
    } else {
        "Failed to delete track".to_owned()
    }
}

/// The banner for a failed staff submission, from the error's text.
pub fn trusted_submit_message(text: &str) -> (r: String)
    ensures
        r@ == trusted_submit_message_spec(lower_seq(text@)),
{
    let t = lower_vec(&chars_of(text));
    if contains_str(&t, "audio ban") {
        "Banned from submitting audio".to_owned()
    } else if contains_str(&t, "invalid url") || contains_str(&t, "unsupported youtube url")
        || contains_str(&t, "invalid youtube video id") {
        "Invalid YouTube URL".to_owned()
    } else if contains_str(&t, "rate limit") {
        "Slow down - too many submissions".to_owned()
    } else {
        "Failed to queue audio".to_owned()
    }
}

/// The banner for a failed staff skip, from the error's text.
pub fn trusted_skip_message(text: &str) -> (r: String)
    ensures
        r@ == trusted_skip_message_spec(lower_seq(text@)),
{
    let t = lower_vec(&chars_of(text));
    if contains_str(&t, "nothing is playing") {
        "Nothing is playing".to_owned()
    } else {
        "Failed to skip audio".to_owned()
    }
}

/// The banner for a failed booth submission: the error's text, with its
/// causes, matched against the known failures.
pub fn booth_submit_error_message(err: &anyhow::Error) -> (r: String)
    ensures
        r@ == booth_submit_message_spec(lower_seq(error_chain(*err))),
{
    let text = error_chain_text(err);
    booth_submit_message(text.as_str())
}

/// The banner for a failed vote or skip-vote.
pub fn booth_vote_error_message(err: &anyhow::Error) -> (r: String)
    ensures
        r@ == booth_vote_message_spec(lower_seq(error_chain(*err))),
{
    let text = error_chain_text(err);
    booth_vote_message(text.as_str())
}

/// The banner for a failed lock or unlock of a track.
pub fn booth_unskippable_error_message(err: &anyhow::Error) -> (r: String)
    ensures
        r@ == booth_unskippable_message_spec(lower_seq(error_chain(*err))),
{
    let text = error_chain_text(err);
    booth_unskippable_message(text.as_str())
}

/// The banner for a failed delete of a queued track.
pub fn booth_delete_error_message(err: &anyhow::Error) -> (r: String)
    ensures
        r@ == booth_delete_message_spec(lower_seq(error_chain(*err))),
{
    let text = error_chain_text(err);
    booth_delete_message(text.as_str())
}

/// The banner for a failed staff submission or fallback change.
pub fn trusted_submit_error_message(err: &anyhow::Error) -> (r: String)
    ensures
        r@ == trusted_submit_message_spec(lower_seq(error_chain(*err))),
{
    let text = error_chain_text(err);
    trusted_submit_message(text.as_str())
}

/// The banner for a failed staff skip.
pub fn trusted_skip_error_message(err: &anyhow::Error) -> (r: String)
    ensures
        r@ == trusted_skip_message_spec(lower_seq(error_chain(*err))),
{
    let text = error_chain_text(err);
    trusted_skip_message(text.as_str())
}

/// The reason recorded for a browser's playback error: its own text when
/// that is not blank, else a generic one.
pub fn playback_failure_reason<'a>(error: Option<&'a str>) -> (r: &'a str)
    ensures
        r@ == (match error {
            Some(e) => if trim_ws(e@).len() > 0 {
                e@
            } else {
                "browser reported playback error"@
            },
            None => "browser reported playback error"@,
        }),
{
    match error {
        Some(e) => {
            if trim_str(e).len() > 0 {
                e
            } else {
                "browser reported playback error"
            }
        },
        None => "browser reported playback error",
    }
}

/// A length a browser reports, in milliseconds, kept when it is positive
/// and fits `i32`.
pub fn browser_duration_ms(duration_ms: Option<u64>) -> (r: Option<i32>)
    ensures
        r == (match duration_ms {
            Some(d) => if 0 < d <= i32::MAX {
                Some(d as i32)
            } else {
                None
            },
            None => None,
        }),
{
    match duration_ms {
        Some(d) => if 0 < d && d <= i32::MAX as u64 {
            Some(d as i32)
        } else {
            None
        },
        None => None,
    }
}

// ---------------------------------------------------------------------------
// The queue state

/// The service's memory of the queue: what plays, the broadcast sequence,
/// the handles that cancel the playback and fallback timers, and who voted
/// to skip the current track. `C` is the type of a timer's cancel handle.
pub struct QueueState<C> {
    pub mode: AudioMode,
    pub current_item_id: Option<u128>,
    pub sequence: u64,
    pub playback_cancel: Option<C>,
    pub fallback_cancel: Option<C>,
    pub skip_votes: Vec<u128>,
}

/// What a re-check of the skip-votes finds.
#[derive(Clone, Copy, Debug, PartialEq, Eq, Structural)]
pub enum SkipCheck {
    /// Nothing plays.
    Idle,
    /// Nobody has voted.
    NoVotes,
    /// The votes are below the threshold.
    Pending(SkipProgress),
    /// The votes meet the threshold for the item that plays.
    ThresholdMet(u128),
}

/// The sequence number after one more broadcast.
pub open spec fn bumped(n: u64) -> u64 {
    if n == u64::MAX {
        n
    } else {
        (n + 1) as u64
    }
}

impl<C> QueueState<C> {
    /// The state's invariant: each voter counted once, votes only while a
    /// track plays, and a track plays only in YouTube mode.
    pub open spec fn wf(&self) -> bool {
        &&& self.skip_votes@.no_duplicates()
        &&& self.skip_votes@.len() > 0 ==> self.current_item_id is Some
        &&& self.current_item_id is Some ==> self.mode == AudioMode::Youtube
    }

    /// Who voted to skip the current track.
    pub open spec fn voters(&self) -> Set<u128> {
        self.skip_votes@.to_set()
    }

    /// Whether adopting `item_id` as the playing track changes anything:
    /// it is not the current one, or the mode or the playback timer is off.
    pub open spec fn needs_rebind_spec(&self, item_id: u128) -> bool {
        !(self.current_item_id == Some(item_id)) || self.mode != AudioMode::Youtube
            || self.playback_cancel is None
    }

    /// Radio mode, nothing playing, no timers, no votes, sequence 0.
    pub fn new() -> (r: Self)
        ensures
            r.wf(),
            r.mode == AudioMode::Icecast,
            r.current_item_id is None,
            r.sequence == 0,
            r.playback_cancel is None,
            r.fallback_cancel is None,
            r.skip_votes@.len() == 0,
    {
        QueueState {
            mode: AudioMode::Icecast,
            current_item_id: None,
            sequence: 0,
            playback_cancel: None,
            fallback_cancel: None,
            skip_votes: Vec::new(),
        }
    }

    /// Takes the playback timer's cancel handle, leaving none.
    pub fn take_playback_cancel(&mut self) -> (r: Option<C>)
        requires
            old(self).wf(),
        ensures
            final(self).wf(),
            r == old(self).playback_cancel,
            final(self).playback_cancel is None,
            final(self).fallback_cancel == old(self).fallback_cancel,
            final(self).mode == old(self).mode,
            final(self).current_item_id == old(self).current_item_id,
            final(self).sequence == old(self).sequence,
            final(self).skip_votes@ == old(self).skip_votes@,
    {
        self.playback_cancel.take()
    }

    /// Takes the fallback timer's cancel handle, leaving none.
    pub fn take_fallback_cancel(&mut self) -> (r: Option<C>)
        requires
            old(self).wf(),
        ensures
            final(self).wf(),
            r == old(self).fallback_cancel,
            final(self).fallback_cancel is None,
            final(self).playback_cancel == old(self).playback_cancel,
            final(self).mode == old(self).mode,
            final(self).current_item_id == old(self).current_item_id,
            final(self).sequence == old(self).sequence,
            final(self).skip_votes@ == old(self).skip_votes@,
    {
        self.fallback_cancel.take()
    }

    /// Stores the handle of a newly started playback timer.
    pub fn arm_playback(&mut self, cancel: C)
        requires
            old(self).wf(),
        ensures
            final(self).wf(),
            final(self).playback_cancel == Some(cancel),
            final(self).fallback_cancel == old(self).fallback_cancel,
            final(self).mode == old(self).mode,
            final(self).current_item_id == old(self).current_item_id,
            final(self).sequence == old(self).sequence,
            final(self).skip_votes@ == old(self).skip_votes@,
            forall|id: u128|
                old(self).current_item_id == Some(id) && old(self).mode == AudioMode::Youtube
                    ==> !final(self).needs_rebind_spec(id),
    {
        self.playback_cancel = Some(cancel);
    }

    /// Whether an empty queue should start the fallback timer: not in radio
    /// mode and no timer running yet.
    pub fn fallback_wanted(&self) -> (r: bool)
        ensures
            r == (self.mode != AudioMode::Icecast && self.fallback_cancel is None),
    {
        self.mode != AudioMode::Icecast && self.fallback_cancel.is_none()
    }

    /// Stores the handle of a newly started fallback timer.
    pub fn arm_fallback(&mut self, cancel: C)
        requires
            old(self).wf(),
        ensures
            final(self).wf(),
            final(self).fallback_cancel == Some(cancel),
            final(self).playback_cancel == old(self).playback_cancel,
            final(self).mode == old(self).mode,
            final(self).current_item_id == old(self).current_item_id,
            final(self).sequence == old(self).sequence,
            final(self).skip_votes@ == old(self).skip_votes@,
    {
        self.fallback_cancel = Some(cancel);
    }

    /// Counts one more broadcast and gives its sequence number; the count
    /// stops at `u64::MAX`.
    pub fn next_sequence(&mut self) -> (r: u64)
        requires
            old(self).wf(),
        ensures
            final(self).wf(),
            r == bumped(old(self).sequence),
            final(self).sequence == r,
            r >= old(self).sequence,
            old(self).sequence < u64::MAX ==> r > old(self).sequence,
            final(self).playback_cancel == old(self).playback_cancel,
            final(self).fallback_cancel == old(self).fallback_cancel,
            final(self).mode == old(self).mode,
            final(self).current_item_id == old(self).current_item_id,
            final(self).skip_votes@ == old(self).skip_votes@,
    {
        if self.sequence < u64::MAX {
            self.sequence = self.sequence + 1;
        }
        self.sequence
    }

    /// The skip progress a snapshot shows: the votes and the threshold for
    /// `youtube_listeners`, while a track plays and the snapshot has one.
    pub fn skip_progress(&self, snapshot_has_current: bool, youtube_listeners: usize) -> (r:
        Option<SkipProgress>)
        ensures
            r == (if !snapshot_has_current || self.current_item_id is None {
                None
            } else {
                Some(
                    SkipProgress {
                        votes: self.skip_votes@.len() as u32,
                        threshold: skip_threshold_spec(youtube_listeners),
                    },
                )
            }),
    {
        if !snapshot_has_current || self.current_item_id.is_none() {
            return None;
        }
        Some(
            SkipProgress {
                votes: self.skip_votes.len() as u32,
                threshold: skip_threshold(youtube_listeners),
            },
        )
    }

    /// Whether `user_id` has voted to skip.
    pub fn has_skip_vote(&self, user_id: u128) -> (r: bool)
        ensures
            r == self.skip_votes@.contains(user_id),
    {
        let mut i: usize = 0;
        while i < self.skip_votes.len()
            invariant
                i <= self.skip_votes@.len(),
                forall|k: int| 0 <= k < i ==> self.skip_votes@[k] != user_id,
            decreases self.skip_votes@.len() - i,
        {
            if self.skip_votes[i] == user_id {
                return true;
            }
            i = i + 1;
        }
        false
    }

    /// Counts `user_id`'s skip-vote on the playing track; a second vote by
    /// the same user counts once. The skip fires when the votes reach the
    /// threshold for `youtube_listeners`.
    pub fn record_skip_vote(&mut self, user_id: u128, youtube_listeners: usize) -> (r:
        CastSkipResult)
        requires
            old(self).wf(),
            old(self).current_item_id is Some,
        ensures
            final(self).wf(),
            final(self).voters() == old(self).voters().insert(user_id),
            final(self).skip_votes@.len() == old(self).voters().insert(user_id).len(),
            r.progress.votes == final(self).skip_votes@.len() as u32,
            r.progress.threshold == skip_threshold_spec(youtube_listeners),
            r.fired == (r.progress.votes >= r.progress.threshold),
            final(self).playback_cancel == old(self).playback_cancel,
            final(self).fallback_cancel == old(self).fallback_cancel,
            final(self).mode == old(self).mode,
            final(self).current_item_id == old(self).current_item_id,
            final(self).sequence == old(self).sequence,
    {
        proof {
            self.skip_votes@.unique_seq_to_set();
        }
        if !self.has_skip_vote(user_id) {
            let ghost before = self.skip_votes@;
            self.skip_votes.push(user_id);
            proof {
                assert(self.skip_votes@ == before.push(user_id));
                assert(self.skip_votes@.no_duplicates()) by {
                    assert forall|a: int, b: int|
                        0 <= a < b < self.skip_votes@.len() implies self.skip_votes@[a]
                        != self.skip_votes@[b] by {
                        if b == before.len() {
                            assert(before.contains(before[a]));
                        }
                    }
                }
                assert(self.skip_votes@.to_set() =~= before.to_set().insert(user_id)) by {
                    assert forall|x: u128| self.skip_votes@.contains(x) == (before.contains(x)
                        || x == user_id) by {
                        if self.skip_votes@.contains(x) {
                            let k = choose|k: int|
                                0 <= k < self.skip_votes@.len() && self.skip_votes@[k] == x;
                            if k < before.len() {
                                assert(before[k] == x);
                            }
                        }
                        if before.contains(x) {
                            let k = choose|k: int| 0 <= k < before.len() && before[k] == x;
                            assert(self.skip_votes@[k] == x);
                        }
                        if x == user_id {
                            assert(self.skip_votes@[before.len() as int] == x);
                        }
                    }
                }
                self.skip_votes@.unique_seq_to_set();
            }
        } else {
            proof {
                assert(self.skip_votes@.to_set() =~= self.skip_votes@.to_set().insert(user_id));
            }
        }
        let votes = self.skip_votes.len() as u32;
        let threshold = skip_threshold(youtube_listeners);
        CastSkipResult { progress: SkipProgress { votes, threshold }, fired: votes >= threshold }
    }

    /// Withdraws `user_id`'s skip-vote; says whether there was one.
    pub fn withdraw_skip_vote(&mut self, user_id: u128) -> (r: bool)
        requires
            old(self).wf(),
        ensures
            final(self).wf(),
            r == old(self).voters().contains(user_id),
            final(self).voters() == old(self).voters().remove(user_id),
            final(self).playback_cancel == old(self).playback_cancel,
            final(self).fallback_cancel == old(self).fallback_cancel,
            final(self).mode == old(self).mode,
            final(self).current_item_id == old(self).current_item_id,
            final(self).sequence == old(self).sequence,
    {
        let ghost before = self.skip_votes@;
        let mut kept: Vec<u128> = Vec::new();
        let mut found = false;
        let mut i: usize = 0;
        while i < self.skip_votes.len()
            invariant
                before == self.skip_votes@,
                before.no_duplicates(),
                i <= before.len(),
                found == before.take(i as int).contains(user_id),
                kept@.no_duplicates(),
                forall|y: u128|
                    #[trigger] kept@.contains(y) == (before.take(i as int).contains(y) && y
                        != user_id),
            decreases before.len() - i,
        {
            let x = self.skip_votes[i];
            let ghost pre = before.take(i as int);
            let ghost post = before.take(i + 1);
            proof {
                assert forall|y: u128| post.contains(y) == (pre.contains(y) || y == x) by {
                    if post.contains(y) {
                        let k = choose|k: int| 0 <= k < post.len() && post[k] == y;
                        if k < i {
                            assert(pre[k] == y);
                        }
                    }
                    if pre.contains(y) {
                        let k = choose|k: int| 0 <= k < pre.len() && pre[k] == y;
                        assert(post[k] == y);
                    }
                    if y == x {
                        assert(post[i as int] == y);
                    }
                }
                assert(!pre.contains(x)) by {
                    if pre.contains(x) {
                        let k = choose|k: int| 0 <= k < pre.len() && pre[k] == x;
                        assert(before[k] == before[i as int]);
                    }
                }
            }
            if x == user_id {
                found = true;
            } else {
                let ghost old_kept = kept@;
                kept.push(x);
                proof {
                    assert(!old_kept.contains(x));
                    assert forall|a: int, b: int|
                        0 <= a < b < kept@.len() implies kept@[a] != kept@[b] by {
                        if b == old_kept.len() {
                            assert(old_kept.contains(old_kept[a]));
                        }
                    }
                    assert forall|y: u128| #[trigger] kept@.contains(y) == (old_kept.contains(y)
                        || y == x) by {
                        if kept@.contains(y) {
                            let k = choose|k: int| 0 <= k < kept@.len() && kept@[k] == y;
                            if k < old_kept.len() {
                                assert(old_kept[k] == y);
                            }
                        }
                        if old_kept.contains(y) {
                            let k = choose|k: int| 0 <= k < old_kept.len() && old_kept[k] == y;
                            assert(kept@[k] == y);
                        }
                        if y == x {
                            assert(kept@[old_kept.len() as int] == y);
                        }
                    }
                }
            }
            i = i + 1;
        }
        proof {
            assert(before.take(before.len() as int) =~= before);
            assert(kept@.to_set() =~= before.to_set().remove(user_id));
            if kept@.len() > 0 {
                assert(kept@.contains(kept@[0]));
                assert(before.contains(kept@[0]));
            }
        }
        self.skip_votes = kept;
        found
    }

    /// What a re-check of the skip-votes finds for `youtube_listeners`:
    /// nothing playing, no votes, votes below the threshold, or the
    /// threshold met for the playing item.
    pub fn skip_check(&self, youtube_listeners: usize) -> (r: SkipCheck)
        ensures
            r == (match self.current_item_id {
                None => SkipCheck::Idle,
                Some(id) => if self.skip_votes@.len() == 0 {
                    SkipCheck::NoVotes
                } else if (self.skip_votes@.len() as u32) < skip_threshold_spec(
                    youtube_listeners,
                ) {
                    SkipCheck::Pending(
                        SkipProgress {
                            votes: self.skip_votes@.len() as u32,
                            threshold: skip_threshold_spec(youtube_listeners),
                        },
                    )
                } else {
                    SkipCheck::ThresholdMet(id)
                },
            }),
    {
        match self.current_item_id {
            None => SkipCheck::Idle,
            Some(id) => {
                if self.skip_votes.len() == 0 {
                    return SkipCheck::NoVotes;
                }
                let votes = self.skip_votes.len() as u32;
                let threshold = skip_threshold(youtube_listeners);
                if votes < threshold {
                    SkipCheck::Pending(SkipProgress { votes, threshold })
                } else {
                    SkipCheck::ThresholdMet(id)
                }
            },
        }
    }

    /// Stops playing the current track: forgets it and its skip-votes, and
    /// hands back the previous id and the playback timer's cancel handle.
    pub fn clear_current(&mut self) -> (r: (Option<u128>, Option<C>))
        requires
            old(self).wf(),
        ensures
            final(self).wf(),
            r.0 == old(self).current_item_id,
            r.1 == old(self).playback_cancel,
            final(self).current_item_id is None,
            final(self).skip_votes@.len() == 0,
            final(self).playback_cancel is None,
            final(self).fallback_cancel == old(self).fallback_cancel,
            final(self).mode == old(self).mode,
            final(self).sequence == old(self).sequence,
    {
        let previous = self.current_item_id.take();
        self.skip_votes = Vec::new();
        let cancel = self.playback_cancel.take();
        (previous, cancel)
    }

    /// Whether adopting `item_id` as the playing track changes anything.
    pub fn needs_rebind(&self, item_id: u128) -> (r: bool)
        ensures
            r == self.needs_rebind_spec(item_id),
    {
        let same_current = match self.current_item_id {
            Some(id) => id == item_id,
            None => false,
        };
        !same_current || self.mode != AudioMode::Youtube || self.playback_cancel.is_none()
    }

    /// Adopts `item_id`, which the database says is playing: stops the
    /// fallback timer (its handle is handed back), drops the skip-votes
    /// when the track changes, and switches to YouTube mode.
    pub fn adopt_item(&mut self, item_id: u128) -> (r: Option<C>)
        requires
            old(self).wf(),
        ensures
            final(self).wf(),
            r == old(self).fallback_cancel,
            final(self).fallback_cancel is None,
            final(self).current_item_id == Some(item_id),
            final(self).mode == AudioMode::Youtube,
            final(self).skip_votes@ == (if old(self).current_item_id == Some(item_id) {
                old(self).skip_votes@
            } else {
                Seq::empty()
            }),
            final(self).playback_cancel == old(self).playback_cancel,
            final(self).sequence == old(self).sequence,
    {
        let cancel = self.fallback_cancel.take();
        let same_current = match self.current_item_id {
            Some(id) => id == item_id,
            None => false,
        };
        if !same_current {
            self.skip_votes = Vec::new();
        }
        self.current_item_id = Some(item_id);
        self.mode = AudioMode::Youtube;
        cancel
    }

    /// Starts playing `item_id`, just marked playing: no skip-votes yet,
    /// YouTube mode.
    pub fn start_item(&mut self, item_id: u128)
        requires
            old(self).wf(),
        ensures
            final(self).wf(),
            final(self).current_item_id == Some(item_id),
            final(self).mode == AudioMode::Youtube,
            final(self).skip_votes@.len() == 0,
            final(self).playback_cancel == old(self).playback_cancel,
            final(self).fallback_cancel == old(self).fallback_cancel,
            final(self).sequence == old(self).sequence,
    {
        self.skip_votes = Vec::new();
        self.current_item_id = Some(item_id);
        self.mode = AudioMode::Youtube;
    }

    /// Switches to the YouTube fallback track: both timers stop (their
    /// handles are handed back) and the mode becomes YouTube.
    pub fn enter_fallback(&mut self) -> (r: (Option<C>, Option<C>))
        requires
            old(self).wf(),
        ensures
            final(self).wf(),
            r.0 == old(self).playback_cancel,
            r.1 == old(self).fallback_cancel,
            final(self).playback_cancel is None,
            final(self).fallback_cancel is None,
            final(self).mode == AudioMode::Youtube,
            final(self).current_item_id == old(self).current_item_id,
            final(self).skip_votes@ == old(self).skip_votes@,
            final(self).sequence == old(self).sequence,
    {
        let playback = self.playback_cancel.take();
        let fallback = self.fallback_cancel.take();
        self.mode = AudioMode::Youtube;
        (playback, fallback)
    }

    /// The fallback timer has fired: its handle is dropped. Says whether the
    /// queue is still empty, so that the fallback should take over.
    pub fn fallback_elapsed(&mut self) -> (r: bool)
        requires
            old(self).wf(),
        ensures
            final(self).wf(),
            r == (old(self).current_item_id is None),
            final(self).fallback_cancel is None,
            final(self).playback_cancel == old(self).playback_cancel,
            final(self).mode == old(self).mode,
            final(self).current_item_id == old(self).current_item_id,
            final(self).skip_votes@ == old(self).skip_votes@,
            final(self).sequence == old(self).sequence,
    {
        self.fallback_cancel = None;
        self.current_item_id.is_none()
    }

    /// Nothing plays and there is no fallback track: back to the radio.
    pub fn fall_back_to_radio(&mut self)
        requires
            old(self).wf(),
            old(self).current_item_id is None,
        ensures
            final(self).wf(),
            final(self).mode == AudioMode::Icecast,
            final(self).current_item_id is None,
            final(self).playback_cancel == old(self).playback_cancel,
            final(self).fallback_cancel == old(self).fallback_cancel,
            final(self).skip_votes@ == old(self).skip_votes@,
            final(self).sequence == old(self).sequence,
    {
        self.mode = AudioMode::Icecast;
    }
}

// ---------------------------------------------------------------------------
// Who may skip-vote, and what the queue does next

/// Why a skip-vote is refused.
#[derive(Clone, Copy, Debug, PartialEq, Eq, Structural)]
pub enum SkipVoteRefusal {
    /// The voter's session has no paired browser on the YouTube source:
    /// only listeners hearing the track vote on it.
    NoYoutubeListener,
    /// The voter is banned from the audio booth.
    Banned,
    /// No track plays, in memory or in the database.
    NothingPlaying,
    /// The playing track is locked against skipping.
    Unskippable,
}

impl SkipVoteRefusal {
    /// The error text the refusal is reported with.
    pub fn message(self) -> (r: &'static str)
        ensures
            r@ == (match self {
                SkipVoteRefusal::NoYoutubeListener => "switch to youtube to skip-vote"@,
                SkipVoteRefusal::Banned => "audio ban: skip-vote blocked"@,
                SkipVoteRefusal::NothingPlaying => "nothing is playing"@,
                SkipVoteRefusal::Unskippable => "track is unskippable"@,
            }),
    {
        match self {
            SkipVoteRefusal::NoYoutubeListener => "switch to youtube to skip-vote",
            SkipVoteRefusal::Banned => "audio ban: skip-vote blocked",
            SkipVoteRefusal::NothingPlaying => "nothing is playing",
            SkipVoteRefusal::Unskippable => "track is unskippable",
        }
    }
}

/// Whether a skip-vote may be cast, checked in this order: the voter must
/// listen on YouTube, must not be banned, a track must play, and it must
/// not be locked. Gives the playing track's id.
pub open spec fn skip_vote_gate_spec(
    has_youtube_listener: bool,
    banned: bool,
    current: Option<u128>,
    current_unskippable: bool,
) -> Result<u128, SkipVoteRefusal> {
    if !has_youtube_listener {
        Err(SkipVoteRefusal::NoYoutubeListener)
    } else if banned {
        Err(SkipVoteRefusal::Banned)
    } else {
        match current {
            None => Err(SkipVoteRefusal::NothingPlaying),
            Some(id) => if current_unskippable {
                Err(SkipVoteRefusal::Unskippable)
            } else {
                Ok(id)
            },
        }
    }
}

/// Who may skip-vote, asked before every vote is counted. `current` is the playing track
/// (after the database has been asked when memory has none), and
/// `current_unskippable` whether that track is locked.
pub fn skip_vote_gate(
    has_youtube_listener: bool,
    banned: bool,
    current: Option<u128>,
    current_unskippable: bool,
) -> (r: Result<u128, SkipVoteRefusal>)
    ensures
        r == skip_vote_gate_spec(has_youtube_listener, banned, current, current_unskippable),
{
    if !has_youtube_listener {
        Err(SkipVoteRefusal::NoYoutubeListener)
    } else if banned {
        Err(SkipVoteRefusal::Banned)
    } else {
        match current {
            None => Err(SkipVoteRefusal::NothingPlaying),
            Some(id) => if current_unskippable {
                Err(SkipVoteRefusal::Unskippable)
            } else {
                Ok(id)
            },
        }
    }
}

/// What the queue does when the current track is over.
#[derive(Clone, Copy, Debug, PartialEq, Eq, Structural)]
pub enum AdvanceAction {
    /// Play this queued track, now marked playing.
    Play(u128),
    /// The queue is empty: play the YouTube fallback track.
    Fallback,
    /// Nothing to play: (re)start the debounce after which the radio takes
    /// over.
    ArmDebounce,
    /// Nothing to play, and the radio already plays.
    Wait,
}

/// The next step of the queue: the first queued track when the database
/// let it be marked playing (`claimed`); with nothing queued, the fallback
/// track when one is set; otherwise the debounce, unless the radio already
/// plays.
pub open spec fn advance_action_spec<C>(
    s: QueueState<C>,
    first_queued: Option<u128>,
    fallback_available: bool,
    claimed: bool,
) -> AdvanceAction {
    match first_queued {
        Some(id) => if claimed {
            AdvanceAction::Play(id)
        } else if s.mode != AudioMode::Icecast {
            AdvanceAction::ArmDebounce
        } else {
            AdvanceAction::Wait
        },
        None => if fallback_available {
            AdvanceAction::Fallback
        } else if s.mode != AudioMode::Icecast {
            AdvanceAction::ArmDebounce
        } else {
            AdvanceAction::Wait
        },
    }
}

/// What the fallback debounce does when it runs out.
#[derive(Clone, Copy, Debug, PartialEq, Eq, Structural)]
pub enum DebounceAction {
    /// A track started meanwhile: nothing.
    Nothing,
    /// Play the YouTube fallback track.
    Fallback,
    /// Back to the radio.
    Radio,
}

pub open spec fn debounce_action_spec<C>(s: QueueState<C>, fallback_available: bool) -> DebounceAction {
    if s.current_item_id is Some {
        DebounceAction::Nothing
    } else if fallback_available {
        DebounceAction::Fallback
    } else {
        DebounceAction::Radio
    }
}

/// The YouTube fallback track, as the `media_sources` row gives it.
#[derive(Clone, Debug)]
pub struct FallbackSource {
    pub id: u128,
    pub external_id: String,
    pub is_stream: bool,
}

/// The `load_video` message that starts the fallback track.
pub fn fallback_load_event(source: &FallbackSource) -> (r: AudioWsMessage)
    ensures
        r matches AudioWsMessage::LoadVideo { item_id, video_id, is_stream } && item_id
            == source.id && video_id@ == source.external_id@ && is_stream == source.is_stream,
{
    AudioWsMessage::LoadVideo {
        item_id: source.id,
        video_id: source.external_id.clone(),
        is_stream: source.is_stream,
    }
}

impl<C> QueueState<C> {
    /// The queue's next step once the current track is over (see
    /// `advance_action_spec`). `first_queued` is the best queued track,
    /// `claimed` whether marking it playing succeeded, and
    /// `fallback_available` whether a fallback track is set.
    pub fn advance_step(&self, first_queued: Option<u128>, fallback_available: bool, claimed: bool) -> (r:
        AdvanceAction)
        ensures
            r == advance_action_spec(*self, first_queued, fallback_available, claimed),
    {
        let radio = match self.mode {
            AudioMode::Icecast => true,
            AudioMode::Youtube => false,
        };
        match first_queued {
            Some(id) => {
                if claimed {
                    AdvanceAction::Play(id)
                } else if !radio {
                    AdvanceAction::ArmDebounce
                } else {
                    AdvanceAction::Wait
                }
            },
            None => {
                if fallback_available {
                    AdvanceAction::Fallback
                } else if !radio {
                    AdvanceAction::ArmDebounce
                } else {
                    AdvanceAction::Wait
                }
            },
        }
    }

    /// What the fallback debounce does when it runs out.
    pub fn debounce_step(&self, fallback_available: bool) -> (r: DebounceAction)
        ensures
            r == debounce_action_spec(*self, fallback_available),
    {
        if self.current_item_id.is_some() {
            DebounceAction::Nothing
        } else if fallback_available {
            DebounceAction::Fallback
        } else {
            DebounceAction::Radio
        }
    }

    /// A skip-vote by `user_id`: refused as `skip_vote_gate` says (nothing changes),
    /// or counted on the playing track, the skip firing at the threshold
    /// for `youtube_listeners`.
    pub fn cast_skip_vote(
        &mut self,
        user_id: u128,
        has_youtube_listener: bool,
        banned: bool,
        current_unskippable: bool,
        youtube_listeners: usize,
    ) -> (r: Result<CastSkipResult, SkipVoteRefusal>)
        requires
            old(self).wf(),
        ensures
            final(self).wf(),
            match skip_vote_gate_spec(
                has_youtube_listener,
                banned,
                old(self).current_item_id,
                current_unskippable,
            ) {
                Err(why) => r == Err::<CastSkipResult, SkipVoteRefusal>(why) && *final(self)
                    == *old(self),
                Ok(_) => r matches Ok(res) && final(self).voters() == old(self).voters().insert(
                    user_id,
                ) && res.progress.votes == final(self).skip_votes@.len() as u32
                    && final(self).skip_votes@.len() == old(self).voters().insert(user_id).len()
                    && res.progress.threshold == skip_threshold_spec(youtube_listeners)
                    && res.fired == (res.progress.votes >= res.progress.threshold)
                    && final(self).current_item_id == old(self).current_item_id
                    && final(self).mode == old(self).mode && final(self).sequence == old(
                    self,
                ).sequence && final(self).playback_cancel == old(self).playback_cancel
                    && final(self).fallback_cancel == old(self).fallback_cancel,
            },
    {
        match skip_vote_gate(
            has_youtube_listener,
            banned,
            self.current_item_id,
            current_unskippable,
        ) {
            Err(why) => Err(why),
            Ok(_) => Ok(self.record_skip_vote(user_id, youtube_listeners)),
        }
    }
}

/// What the database answered when the queue tried to move on.
#[derive(Clone, Copy, Debug, PartialEq, Eq, Structural)]
pub enum AdvanceEvent {
    /// A row is already marked playing: this track.
    AlreadyPlaying(u128),
    /// The first queued track was marked playing.
    Claimed(u128),
    /// Another writer got there first: marking the first queued track
    /// changed no row, or (`conflict`) the one-playing-row constraint
    /// refused it. `now_playing` is what the database says plays now.
    LostRace { now_playing: Option<u128>, conflict: bool },
    /// Nothing is queued; `fallback_available` says whether a fallback
    /// track is set.
    QueueEmpty { fallback_available: bool },
}

/// What the queue does with that answer.
#[derive(Clone, Copy, Debug, PartialEq, Eq, Structural)]
pub enum AdvanceDecision {
    /// Take over the track the database says plays.
    Adopt(u128),
    /// Start this freshly claimed track.
    Play(u128),
    /// Play the YouTube fallback track.
    Fallback,
    /// Start the debounce before the radio.
    ArmDebounce,
    /// Nothing to do: the radio plays.
    Wait,
    /// The constraint refused the claim and nothing plays: report the error.
    Fail,
}

/// The queue moves on by first taking over whatever the database says
/// plays; otherwise it plays the track it claimed; a lost race takes over
/// the winner's track, or, with none, arms the debounce (a refused claim
/// with none is an error); an empty queue goes to the fallback track or
/// the debounce (`advance_action_spec`).
pub open spec fn advance_decision_spec<C>(s: QueueState<C>, event: AdvanceEvent) -> AdvanceDecision {
    match event {
        AdvanceEvent::AlreadyPlaying(id) => AdvanceDecision::Adopt(id),
        AdvanceEvent::Claimed(id) => AdvanceDecision::Play(id),
        AdvanceEvent::LostRace { now_playing, conflict } => match now_playing {
            Some(id) => AdvanceDecision::Adopt(id),
            None => if conflict {
                AdvanceDecision::Fail
            } else if s.mode != AudioMode::Icecast {
                AdvanceDecision::ArmDebounce
            } else {
                AdvanceDecision::Wait
            },
        },
        AdvanceEvent::QueueEmpty { fallback_available } => match advance_action_spec(
            s,
            None,
            fallback_available,
            false,
        ) {
            AdvanceAction::Fallback => AdvanceDecision::Fallback,
            AdvanceAction::ArmDebounce => AdvanceDecision::ArmDebounce,
            _ => AdvanceDecision::Wait,
        },
    }
}

/// A track the database let the queue claim always starts, whatever the
/// audio mode (a submission played over the radio switches to YouTube).
pub proof fn lemma_claimed_track_plays<C>(s: QueueState<C>, id: u128)
    ensures
        advance_decision_spec(s, AdvanceEvent::Claimed(id)) == AdvanceDecision::Play(id),
{
}

/// What the database says plays is always taken over, whatever the mode
/// and whoever won the race.
pub proof fn lemma_playing_track_adopted<C>(s: QueueState<C>, id: u128, conflict: bool)
    ensures
        advance_decision_spec(s, AdvanceEvent::AlreadyPlaying(id)) == AdvanceDecision::Adopt(id),
        advance_decision_spec(s, AdvanceEvent::LostRace { now_playing: Some(id), conflict })
            == AdvanceDecision::Adopt(id),
{
}

impl<C> QueueState<C> {
    /// The queue's decision on the database's answer (see
    /// `advance_decision_spec`).
    pub fn advance_decision(&self, event: AdvanceEvent) -> (r: AdvanceDecision)
        ensures
            r == advance_decision_spec(*self, event),
    {
        match event {
            AdvanceEvent::AlreadyPlaying(id) => AdvanceDecision::Adopt(id),
            AdvanceEvent::Claimed(id) => AdvanceDecision::Play(id),
            AdvanceEvent::LostRace { now_playing, conflict } => match now_playing {
                Some(id) => AdvanceDecision::Adopt(id),
                None => if conflict {
                    AdvanceDecision::Fail
                } else {
                    match self.advance_step(None, false, false) {
                        AdvanceAction::ArmDebounce => AdvanceDecision::ArmDebounce,
                        _ => AdvanceDecision::Wait,
                    }
                },
            },
            AdvanceEvent::QueueEmpty { fallback_available } => match self.advance_step(
                None,
                fallback_available,
                false,
            ) {
                AdvanceAction::Fallback => AdvanceDecision::Fallback,
                AdvanceAction::ArmDebounce => AdvanceDecision::ArmDebounce,
                _ => AdvanceDecision::Wait,
            },
        }
    }
}

// ---------------------------------------------------------------------------
// What the booth shows

/// One track as the booth and the browsers see it.
#[derive(Clone, Debug)]
pub struct QueueItemView {
    pub id: u128,
    pub video_id: String,
    pub title: Option<String>,
    pub channel: Option<String>,
    pub duration_ms: Option<i32>,
    pub started_at_ms: Option<i64>,
    pub is_stream: bool,
    pub submitter: String,
    pub submitter_id: u128,
    pub vote_score: i32,
    pub unskippable: bool,
}

/// The playing track, the queue behind it and the skip progress.
#[derive(Clone, Debug)]
pub struct QueueSnapshot {
    pub audio_mode: AudioMode,
    pub current: Option<QueueItemView>,
    pub queue: Vec<QueueItemView>,
    pub skip_progress: Option<SkipProgress>,
}

impl QueueSnapshot {
    pub fn skip_progress(&self) -> (r: Option<SkipProgress>)
        ensures
            r == self.skip_progress,
    {
        self.skip_progress
    }
}

/// What a submission answers: the new item and its place in the queue
/// (0 when it plays at once).
#[derive(Clone, Debug)]
pub struct SubmitQueueResponse {
    pub id: u128,
    pub title: Option<String>,
    pub duration_ms: Option<i32>,
    pub position_in_queue: i64,
}

/// A browser's report on its player.
#[derive(Clone, Debug)]
pub struct PlayerStateReport {
    pub item_id: u128,
    pub state: PlayerPlaybackState,
    pub offset_ms: Option<u64>,
    pub duration_ms: Option<u64>,
    pub autoplay_blocked: bool,
    pub error: Option<String>,
}

/// What the service broadcasts to the paired browsers.
#[derive(Clone, Debug)]
pub enum AudioWsMessage {
    LoadVideo { item_id: u128, video_id: String, is_stream: bool },
    SourceChanged { audio_mode: AudioMode },
    QueueUpdate {
        current: Option<QueueItemView>,
        queue: Vec<QueueItemView>,
        sequence: u64,
        skip_progress: Option<SkipProgress>,
    },
}

/// Milliseconds of an instant given in microseconds, rounded down (as
/// `DateTime::timestamp_millis` does).
pub fn micros_to_millis(us: i64) -> (r: i64)
    ensures
        r == us as int / 1000,
{
    if us >= 0 {
        let q = us / 1000;
        assert(q == us as int / 1000);
        q
    } else {
        let a: i64 = -(us + 1);
        let q = a / 1000;
        proof {
            assert(q == a as int / 1000);
            assert((-(a as int) - 1) / 1000 == -(a as int / 1000) - 1) by (nonlinear_arith)
                requires
                    a >= 0,
            {
                let d = a as int / 1000;
                let m = a as int % 1000;
                assert(a == 1000 * d + m);
                assert(-(a as int) - 1 == 1000 * (-d - 1) + (999 - m));
            }
        }
        -q - 1
    }
}

pub open spec fn millis_of(o: Option<i64>) -> Option<i64> {
    match o {
        Some(us) => Some((us as int / 1000) as i64),
        None => None,
    }
}

/// The submitter's name as `usernames` has it, empty when it has none.
pub open spec fn name_of(names: Map<u128, String>, id: u128) -> Seq<char> {
    if names.contains_key(id) {
        names[id]@
    } else {
        Seq::empty()
    }
}

/// Whether `v` shows `item`, with its vote score and its submitter's name.
pub open spec fn is_view_of(
    v: QueueItemView,
    item: MediaQueueItem,
    score: i32,
    names: Map<u128, String>,
) -> bool {
    &&& v.id == item.id
    &&& v.video_id == item.external_id
    &&& v.title == item.title
    &&& v.channel == item.channel
    &&& v.duration_ms == item.duration_ms
    &&& v.started_at_ms == millis_of(item.started_at)
    &&& v.is_stream == item.is_stream
    &&& v.submitter@ == name_of(names, item.submitter_id)
    &&& v.submitter_id == item.submitter_id
    &&& v.vote_score == score
    &&& v.unskippable == item.unskippable
}

/// The booth's view of one track.
pub fn queue_item_view(item: MediaQueueItem, vote_score: i32, usernames: &HashMap<u128, String>) -> (r:
    QueueItemView)
    ensures
        is_view_of(r, item, vote_score, usernames@),
{
    broadcast use vstd::std_specs::hash::group_hash_axioms;

    let submitter = match usernames.get(&item.submitter_id) {
        Some(name) => name.clone(),
        None => String::new(),
    };
    let started_at_ms = match item.started_at {
        Some(us) => Some(micros_to_millis(us)),
        None => None,
    };
    QueueItemView {
        id: item.id,
        video_id: item.external_id,
        title: item.title,
        channel: item.channel,
        duration_ms: item.duration_ms,
        started_at_ms,
        is_stream: item.is_stream,
        submitter,
        submitter_id: item.submitter_id,
        vote_score,
        unskippable: item.unskippable,
    }
}

/// The index of the last row that has started playing.
pub open spec fn last_started(rows: Seq<(MediaQueueItem, i32)>) -> Option<int>
    decreases rows.len(),
{
    if rows.len() == 0 {
        None
    } else if rows.last().0.started_at is Some {
        Some(rows.len() - 1)
    } else {
        last_started(rows.drop_last())
    }
}

/// The indexes of the rows that have not started, in order.
pub open spec fn unstarted(rows: Seq<(MediaQueueItem, i32)>) -> Seq<int>
    decreases rows.len(),
{
    if rows.len() == 0 {
        Seq::empty()
    } else if rows.last().0.started_at is None {
        unstarted(rows.drop_last()).push(rows.len() - 1)
    } else {
        unstarted(rows.drop_last())
    }
}

proof fn lemma_unstarted_bounds(rows: Seq<(MediaQueueItem, i32)>)
    ensures
        forall|j: int|
            0 <= j < unstarted(rows).len() ==> 0 <= #[trigger] unstarted(rows)[j] < rows.len(),
        last_started(rows) matches Some(k) ==> 0 <= k < rows.len(),
    decreases rows.len(),
{
    if rows.len() > 0 {
        let prev = unstarted(rows.drop_last());
        lemma_unstarted_bounds(rows.drop_last());
        assert forall|j: int| 0 <= j < unstarted(rows).len() implies 0 <= #[trigger] unstarted(
            rows,
        )[j] < rows.len() by {
            if j < prev.len() {
                assert(unstarted(rows)[j] == prev[j]);
            }
        }
    }
}

/// The snapshot of the rows the database lists (playing first, then the
/// queue in play order): the started row becomes the current track, the
/// others the queue, in order.
pub fn snapshot_from_rows(
    rows: Vec<(MediaQueueItem, i32)>,
    usernames: &HashMap<u128, String>,
    mode: AudioMode,
) -> (r: QueueSnapshot)
    ensures
        r.audio_mode == mode,
        r.skip_progress is None,
        match last_started(rows@) {
            Some(k) => r.current matches Some(v) && is_view_of(
                v,
                rows@[k].0,
                rows@[k].1,
                usernames@,
            ),
            None => r.current is None,
        },
        r.queue@.len() == unstarted(rows@).len(),
        forall|j: int|
            0 <= j < r.queue@.len() ==> is_view_of(
                #[trigger] r.queue@[j],
                rows@[unstarted(rows@)[j]].0,
                rows@[unstarted(rows@)[j]].1,
                usernames@,
            ),
{
    let ghost all = rows@;
    let n = rows.len();
    let mut rest = rows;
    let mut current: Option<QueueItemView> = None;
    let mut queue: Vec<QueueItemView> = Vec::new();
    let mut i: usize = 0;
    proof {
        lemma_unstarted_bounds(all);
    }
    while rest.len() > 0
        invariant
            n == all.len(),
            i + rest@.len() == all.len(),
            rest@ == all.skip(i as int),
            match last_started(all.take(i as int)) {
                Some(k) => current matches Some(v) && is_view_of(
                    v,
                    all[k].0,
                    all[k].1,
                    usernames@,
                ),
                None => current is None,
            },
            queue@.len() == unstarted(all.take(i as int)).len(),
            forall|j: int|
                0 <= j < queue@.len() ==> is_view_of(
                    #[trigger] queue@[j],
                    all[unstarted(all.take(i as int))[j]].0,
                    all[unstarted(all.take(i as int))[j]].1,
                    usernames@,
                ),
        decreases rest@.len(),
    {
        let ghost pre = all.take(i as int);
        let ghost post = all.take(i + 1);
        let (item, score) = rest.remove(0);
        proof {
            assert(post.drop_last() =~= pre);
            assert(post.last() == all[i as int]);
            assert(all[i as int] == (item, score));
            lemma_unstarted_bounds(pre);
        }
        let started = item.started_at.is_some();
        let view = queue_item_view(item, score, usernames);
        if started {
            current = Some(view);
        } else {
            let ghost before = queue@;
            queue.push(view);
            proof {
                assert(unstarted(post) == unstarted(pre).push(i as int));
                assert forall|j: int| 0 <= j < queue@.len() implies is_view_of(
                    #[trigger] queue@[j],
                    all[unstarted(post)[j]].0,
                    all[unstarted(post)[j]].1,
                    usernames@,
                ) by {
                    if j < before.len() {
                        assert(queue@[j] == before[j]);
                    }
                }
            }
        }
        i = i + 1;
        proof {
            assert(rest@ =~= all.skip(i as int));
        }
    }
    assert(all.take(i as int) =~= all);
    QueueSnapshot { audio_mode: mode, current, queue, skip_progress: None }
}

/// The start of the rate-limit window that ends at `now` (microseconds
/// since the epoch).
pub fn submission_window_start(now: i64) -> (r: i64)
    requires
        now >= i64::MIN + SUBMISSION_WINDOW_US,
    ensures
        r == now - SUBMISSION_WINDOW_US,
{
    now - SUBMISSION_WINDOW_US
}

/// Whether a user who submitted `recent` tracks within the window must
/// wait before submitting another.
pub fn submission_rate_limited(recent: i64) -> (r: bool)
    ensures
        r == (recent >= MAX_SUBMISSIONS_PER_WINDOW),
{
    recent >= MAX_SUBMISSIONS_PER_WINDOW
}

/// Where a submitted item stands: 0 when it plays at once, else one more
/// than the queued items before it.
pub fn queue_position(current_item_id: Option<u128>, item_id: u128, queued_before: i64) -> (r: i64)
    requires
        queued_before < i64::MAX,
    ensures
        r == (if current_item_id == Some(item_id) {
            0
        } else {
            queued_before + 1
        }),
{
    match current_item_id {
        Some(id) => if id == item_id {
            0
        } else {
            queued_before + 1
        },
        None => queued_before + 1,
    }
}

/// Whether a vote value is one of the two the booth takes: +1 or -1.
pub fn vote_value_valid(value: i16) -> (r: bool)
    ensures
        r == (value == 1 || value == -1),
{
    value == 1 || value == -1
}

/// Who may delete a queued track.
#[derive(Clone, Copy, Debug, PartialEq, Eq, Structural)]
pub enum DeleteCheck {
    /// The track is no longer queued.
    NotQueued,
    /// The user submitted it and may delete it.
    Owner,
    /// Only staff may delete it.
    NeedsStaff,
}

/// Who may delete `item` when `user_id` asks: nobody once it left the
/// queue; its submitter; otherwise staff only.
pub fn delete_check(item: &MediaQueueItem, user_id: u128) -> (r: DeleteCheck)
    ensures
        r == (if item.status@ != STATUS_QUEUED@ {
            DeleteCheck::NotQueued
        } else if item.submitter_id == user_id {
            DeleteCheck::Owner
        } else {
            DeleteCheck::NeedsStaff
        }),
{
    if !str_eq(item.status.as_str(), STATUS_QUEUED) {
        DeleteCheck::NotQueued
    } else if item.submitter_id == user_id {
        DeleteCheck::Owner
    } else {
        DeleteCheck::NeedsStaff
    }
}

/// Whether a length a browser reports should be stored for `item`: it has
/// none yet and it is the playing track.
pub fn wants_browser_duration(item: &MediaQueueItem) -> (r: bool)
    ensures
        r == (item.duration_ms is None && item.status@ == STATUS_PLAYING@),
{
    item.duration_ms.is_none() && str_eq(item.status.as_str(), STATUS_PLAYING)
}

/// One link of an error's cause chain, as the database driver reports it.
#[derive(Clone, Debug)]
pub struct ErrorCause {
    /// Whether it is a database error with SQLSTATE `23505` (unique
    /// violation).
    pub unique_violation: bool,
    /// The constraint the database names, if any.
    pub constraint: Option<String>,
    /// The cause's message.
    pub text: String,
}

/// The unique index that allows one playing row at a time.
pub const SINGLE_PLAYING_INDEX: &'static str = "idx_media_queue_single_playing";

pub open spec fn names_single_playing(c: ErrorCause) -> bool {
    (c.unique_violation && (c.constraint matches Some(k) && k@ == SINGLE_PLAYING_INDEX@)) || has_sub(
        c.text@,
        SINGLE_PLAYING_INDEX@,
    )
}

/// Whether an error chain is the database refusing a second playing row.
pub fn is_single_playing_unique_violation(causes: &Vec<ErrorCause>) -> (r: bool)
    ensures
        r == exists|i: int| 0 <= i < causes@.len() && names_single_playing(#[trigger] causes@[i]),
{
    let mut i: usize = 0;
    while i < causes.len()
        invariant
            i <= causes@.len(),
            forall|k: int| 0 <= k < i ==> !names_single_playing(#[trigger] causes@[k]),
        decreases causes@.len() - i,
    {
        let c = &causes[i];
        let by_constraint = c.unique_violation && match &c.constraint {
            Some(k) => str_eq(k.as_str(), SINGLE_PLAYING_INDEX),
            None => false,
        };
        if by_constraint || contains_str(&chars_of(c.text.as_str()), SINGLE_PLAYING_INDEX) {
            assert(names_single_playing(causes@[i as int]));
            return true;
        }
        i = i + 1;
    }
    false
}

} // verus!
