//! User-level rules: the audio source preference, the right-sidebar mode,
//! username sanitising and the suffixed candidates tried when a name is
//! taken, and the ignore list kept in a user's settings.

use vstd::prelude::*;

use crate::json::JsonValue;
use crate::text::{
    char_is_ascii_alnum, chars_of, dec, is_ascii_alnum, is_ws, lemma_trim_by_bounds,
    lemma_trim_by_noop, push_char, push_decimal, push_str, str_eq, string_of, trim_char,
    trim_matching, trim_pred, trim_str, trim_whitespace, trim_ws, TrimSet,
};

verus! {

/// Longest username, in characters.
pub const USERNAME_MAX_LEN: usize = 32;

/// Number of top-level screens (Dashboard, Arcade, Rooms, Artboard).
pub const RIGHT_SIDEBAR_SCREEN_COUNT: u8 = 4;

/// A row of the `users` table. Ids are UUIDs held as `u128`; instants are
/// microseconds since the Unix epoch; `settings` is the preferences
/// document.
#[derive(Debug)]
pub struct User {
    pub id: u128,
    pub created: i64,
    pub updated: i64,
    pub last_seen: i64,
    pub is_admin: bool,
    pub is_moderator: bool,
    pub fingerprint: String,
    pub username: String,
    pub settings: JsonValue,
}

/// Which stream a user's paired browser plays.
#[derive(Clone, Copy, Debug, PartialEq, Eq, Hash, Structural)]
pub enum AudioSource {
    Icecast,
    Youtube,
}

impl Default for AudioSource {
    fn default() -> (r: Self)
        ensures
            r == AudioSource::Icecast,
    {
        AudioSource::Icecast
    }
}

impl AudioSource {
    /// The name stored in `users.settings.audio_source`.
    pub fn as_str(&self) -> (r: &'static str)
        ensures
            r@ == (match *self {
                AudioSource::Icecast => "icecast"@,
                AudioSource::Youtube => "youtube"@,
            }),
    {
        match self {
            AudioSource::Icecast => "icecast",
            AudioSource::Youtube => "youtube",
        }
    }

    /// Reads a stored name back; anything but `"youtube"` means Icecast.
    pub fn from_settings_str(value: &str) -> (r: Self)
        ensures
            r == (if value@ == "youtube"@ {
                AudioSource::Youtube
            } else {
                AudioSource::Icecast
            }),
    {
        if str_eq(value, "youtube") {
            AudioSource::Youtube
        } else {
            AudioSource::Icecast
        }
    }
}

/// Whether the right sidebar shows, hides, or follows a per-screen list.
#[derive(Clone, Copy, Debug, PartialEq, Eq, Hash, Structural)]
pub enum RightSidebarMode {
    On,
    Off,
    Custom,
}

/// The mode after one step of the settings cycle On → Off → Custom → On,
/// or the reverse when `forward` is false.
pub open spec fn cycled(mode: RightSidebarMode, forward: bool) -> RightSidebarMode {
    match (mode, forward) {
        (RightSidebarMode::On, true) => RightSidebarMode::Off,
        (RightSidebarMode::Off, true) => RightSidebarMode::Custom,
        (RightSidebarMode::Custom, true) => RightSidebarMode::On,
        (RightSidebarMode::On, false) => RightSidebarMode::Custom,
        (RightSidebarMode::Off, false) => RightSidebarMode::On,
        (RightSidebarMode::Custom, false) => RightSidebarMode::Off,
    }
}

impl RightSidebarMode {
    /// The name stored in `users.settings.right_sidebar_mode`.
    pub fn as_str(self) -> (r: &'static str)
        ensures
            r@ == (match self {
                RightSidebarMode::On => "on"@,
                RightSidebarMode::Off => "off"@,
                RightSidebarMode::Custom => "custom"@,
            }),
    {
        match self {
            RightSidebarMode::On => "on",
            RightSidebarMode::Off => "off",
            RightSidebarMode::Custom => "custom",
        }
    }

    pub fn cycle(self, forward: bool) -> (r: Self)
        ensures
            r == cycled(self, forward),
    {
        match (self, forward) {
            (RightSidebarMode::On, true) => RightSidebarMode::Off,
            (RightSidebarMode::Off, true) => RightSidebarMode::Custom,
            (RightSidebarMode::Custom, true) => RightSidebarMode::On,
            (RightSidebarMode::On, false) => RightSidebarMode::Custom,
            (RightSidebarMode::Off, false) => RightSidebarMode::On,
            (RightSidebarMode::Custom, false) => RightSidebarMode::Off,
        }
    }
}

/// Cycling back undoes cycling forward, and the reverse.
pub proof fn lemma_cycle_undo(mode: RightSidebarMode, forward: bool)
    ensures
        cycled(cycled(mode, forward), !forward) == mode,
{
}

/// Three steps in one direction return to the starting mode, and no
/// shorter positive number of steps does.
pub proof fn lemma_cycle_period(mode: RightSidebarMode, forward: bool)
    ensures
        cycled(cycled(cycled(mode, forward), forward), forward) == mode,
        cycled(mode, forward) != mode,
        cycled(cycled(mode, forward), forward) != mode,
{
}

// ---------------------------------------------------------------------------
// Usernames
// ---------------------------------------------------------------------------

/// Characters a username keeps as they are.
pub open spec fn username_char(c: char) -> bool {
    is_ascii_alnum(c) || c == '_' || c == '-' || c == '.'
}

pub open spec fn fallback_username() -> Seq<char> {
    seq!['u', 's', 'e', 'r']
}

/// The separator pass over `s`: `@` is dropped, username characters are
/// copied, and each run of other characters becomes a single `_`. The
/// second component says whether the last thing written was such a `_`.
pub open spec fn collapse_separators(s: Seq<char>) -> (Seq<char>, bool)
    decreases s.len(),
{
    if s.len() == 0 {
        (Seq::empty(), false)
    } else {
        let prev = collapse_separators(s.drop_last());
        let c = s.last();
        if c == '@' {
            prev
        } else if username_char(c) {
            (prev.0.push(c), false)
        } else if !prev.1 {
            (prev.0.push('_'), true)
        } else {
            prev
        }
    }
}

/// `value.chars().take(max_len)`.
pub open spec fn take_chars(s: Seq<char>, max_len: nat) -> Seq<char> {
    if s.len() <= max_len {
        s
    } else {
        s.take(max_len as int)
    }
}

/// The username that `sanitize_username_input` makes of `input`: trimmed,
/// separators collapsed, underscores stripped from the ends, cut to
/// `USERNAME_MAX_LEN` characters and stripped again, with `"user"` standing
/// in whenever nothing is left.
pub open spec fn sanitized_username(input: Seq<char>) -> Seq<char> {
    let trimmed = trim_ws(input);
    if trimmed.len() == 0 {
        fallback_username()
    } else {
        let normalized = trim_char(collapse_separators(trimmed).0, '_');
        if normalized.len() == 0 {
            fallback_username()
        } else {
            let truncated = trim_char(take_chars(normalized, USERNAME_MAX_LEN as nat), '_');
            if truncated.len() == 0 {
                fallback_username()
            } else {
                truncated
            }
        }
    }
}

/// `value.chars().take(max_len).collect()`.
pub fn truncate_to_boundary(value: &str, max_len: usize) -> (r: String)
    ensures
        r@ == take_chars(value@, max_len as nat),
{
    let v = chars_of(value);
    let t = truncate_chars(&v, max_len);
    string_of(&t)
}

/// The first `max_len` characters of `v` (all of `v` when shorter).
pub fn truncate_chars(v: &Vec<char>, max_len: usize) -> (r: Vec<char>)
    ensures
        r@ == take_chars(v@, max_len as nat),
{
    let mut r: Vec<char> = Vec::new();
    let mut i: usize = 0;
    while i < v.len() && i < max_len
        invariant
            i <= v.len(),
            i <= max_len,
            r@ == v@.take(i as int),
        decreases v.len() - i,
    {
        r.push(v[i]);
        i = i + 1;
        assert(r@ =~= v@.take(i as int));
    }
    if v.len() <= max_len {
        assert(v@.take(v.len() as int) =~= v@);
    }
    r
}

fn fallback_username_string() -> (r: String)
    ensures
        r@ == fallback_username(),
{
    let r = String::from_str("user");
    proof {
        reveal_strlit("user");
        assert(r@ =~= fallback_username());
    }
    r
}

/// Turns whatever a user typed into a valid username (see
/// `sanitized_username`).
pub fn sanitize_username_input(username: &str) -> (r: String)
    ensures
        r@ == sanitized_username(username@),
{
    let raw = chars_of(username);
    let trimmed = trim_whitespace(&raw);
    if trimmed.len() == 0 {
        return fallback_username_string();
    }
    let mut normalized: Vec<char> = Vec::new();
    let mut previous_was_separator = false;
    let mut i: usize = 0;
    while i < trimmed.len()
        invariant
            i <= trimmed.len(),
            (normalized@, previous_was_separator) == collapse_separators(trimmed@.take(i as int)),
        decreases trimmed.len() - i,
    {
        let ch = trimmed[i];
        proof {
            assert(trimmed@.take(i + 1).drop_last() =~= trimmed@.take(i as int));
            assert(trimmed@.take(i + 1).last() == ch);
        }
        if ch == '@' {
        } else if char_is_ascii_alnum(ch) || ch == '_' || ch == '-' || ch == '.' {
            normalized.push(ch);
            previous_was_separator = false;
        } else if !previous_was_separator {
            normalized.push('_');
            previous_was_separator = true;
        }
        i = i + 1;
    }
    assert(trimmed@.take(trimmed.len() as int) =~= trimmed@);
    let normalized = trim_matching(&normalized, '_');
    if normalized.len() == 0 {
        return fallback_username_string();
    }
    let truncated = truncate_chars(&normalized, USERNAME_MAX_LEN);
    let truncated = trim_matching(&truncated, '_');
    if truncated.len() == 0 {
        fallback_username_string()
    } else {
        string_of(&truncated)
    }
}

/// Every character of the separator pass is a username character.
proof fn lemma_collapse_chars(s: Seq<char>)
    ensures
        forall|i: int|
            0 <= i < collapse_separators(s).0.len() ==> username_char(
                #[trigger] collapse_separators(s).0[i],
            ),
    decreases s.len(),
{
    if s.len() > 0 {
        let prev = collapse_separators(s.drop_last()).0;
        lemma_collapse_chars(s.drop_last());
        let out = collapse_separators(s).0;
        assert forall|i: int| 0 <= i < out.len() implies username_char(#[trigger] out[i]) by {
            if i < prev.len() {
                assert(out[i] == prev[i]);
            }
        }
    }
}

/// The separator pass leaves a string of username characters unchanged.
proof fn lemma_collapse_noop(s: Seq<char>)
    requires
        forall|i: int| 0 <= i < s.len() ==> username_char(#[trigger] s[i]),
    ensures
        collapse_separators(s).0 == s,
    decreases s.len(),
{
    if s.len() > 0 {
        let t = s.drop_last();
        assert forall|i: int| 0 <= i < t.len() implies username_char(#[trigger] t[i]) by {
            assert(t[i] == s[i]);
        }
        lemma_collapse_noop(t);
        assert(username_char(s[s.len() - 1]));
        assert(s.last() != '@');
        assert(t.push(s.last()) =~= s);
    }
}

/// A sanitized username is `"user"` or a non-empty run of at most
/// `USERNAME_MAX_LEN` username characters that neither starts nor ends
/// with `_`.
pub open spec fn username_well_formed(u: Seq<char>) -> bool {
    &&& 0 < u.len() <= USERNAME_MAX_LEN
    &&& forall|i: int| 0 <= i < u.len() ==> username_char(#[trigger] u[i])
    &&& u[0] != '_'
    &&& u.last() != '_'
}

/// Every result of sanitizing is well formed.
pub proof fn lemma_sanitized_username_well_formed(input: Seq<char>)
    ensures
        username_well_formed(sanitized_username(input)),
{
    let u = sanitized_username(input);
    let trimmed = trim_ws(input);
    if u == fallback_username() {
        assert(username_char(u[0]));
        assert(username_char(u[1]));
        assert(username_char(u[2]));
        assert(username_char(u[3]));
        return;
    }
    let collapsed = collapse_separators(trimmed).0;
    lemma_collapse_chars(trimmed);
    let p = trim_pred(TrimSet::Only('_'));
    let (a, b) = lemma_trim_by_bounds(collapsed, p);
    let normalized = trim_char(collapsed, '_');
    assert forall|i: int| 0 <= i < normalized.len() implies username_char(
        #[trigger] normalized[i],
    ) by {
        assert(normalized[i] == collapsed[i + a]);
    }
    let cut = take_chars(normalized, USERNAME_MAX_LEN as nat);
    assert forall|i: int| 0 <= i < cut.len() implies username_char(#[trigger] cut[i]) by {
        assert(cut[i] == normalized[i]);
    }
    let (c, d) = lemma_trim_by_bounds(cut, p);
    assert(u == cut.subrange(c, d));
    assert forall|i: int| 0 <= i < u.len() implies username_char(#[trigger] u[i]) by {
        assert(u[i] == cut[i + c]);
    }
    assert(u[0] == cut[c]);
    assert(u.last() == cut[d - 1]);
}

/// Sanitizing an already sanitized username changes nothing.
pub proof fn lemma_sanitize_idempotent(input: Seq<char>)
    ensures
        sanitized_username(sanitized_username(input)) == sanitized_username(input),
{
    let u = sanitized_username(input);
    lemma_sanitized_username_well_formed(input);
    let ws = trim_pred(TrimSet::Whitespace);
    let us = trim_pred(TrimSet::Only('_'));
    assert(!is_ws(u[0]));
    assert(!is_ws(u.last())) by {
        assert(username_char(u[u.len() - 1]));
    }
    lemma_trim_by_noop(u, ws);
    assert(trim_ws(u) == u);
    lemma_collapse_noop(u);
    lemma_trim_by_noop(u, us);
    assert(trim_char(u, '_') == u);
    assert(take_chars(u, USERNAME_MAX_LEN as nat) == u);
}

/// The name tried after `base` is taken: `base` cut short enough that
/// `-{suffix}` still fits within `USERNAME_MAX_LEN`, then `-{suffix}`.
pub open spec fn username_candidate_spec(base: Seq<char>, suffix: nat) -> Seq<char> {
    let suffix_text = seq!['-'] + dec(suffix);
    let room = if suffix_text.len() <= USERNAME_MAX_LEN {
        (USERNAME_MAX_LEN - suffix_text.len()) as nat
    } else {
        0
    };
    take_chars(base, room) + suffix_text
}

/// The candidate `next_available_username` tries for a given suffix.
pub fn username_candidate(base: &str, suffix: u64) -> (r: String)
    ensures
        r@ == username_candidate_spec(base@, suffix as nat),
{
    let mut suffix_text = String::new();
    push_char(&mut suffix_text, '-');
    push_decimal(&mut suffix_text, suffix);
    let suffix_len = suffix_text.as_str().unicode_len();
    let room = if suffix_len <= USERNAME_MAX_LEN {
        USERNAME_MAX_LEN - suffix_len
    } else {
        0
    };
    let mut r = truncate_to_boundary(base, room);
    push_str(&mut r, suffix_text.as_str());
    proof {
        assert(suffix_text@ =~= seq!['-'] + dec(suffix as nat));
    }
    r
}

/// The name a user is shown by: the stored one when it is not blank,
/// else `someone`.
pub open spec fn display_name_spec(stored: Option<Seq<char>>) -> Seq<char> {
    match stored {
        Some(s) => if trim_ws(s).len() > 0 {
            s
        } else {
            "someone"@
        },
        None => "someone"@,
    }
}

/// The display name for what the `users` row holds (nothing when the
/// lookup failed).
pub fn display_username(stored: Option<&str>) -> (r: String)
    ensures
        r@ == display_name_spec(
            match stored {
                Some(s) => Some(s@),
                None => None,
            },
        ),
{
    match stored {
        Some(s) => {
            if trim_str(s).len() > 0 {
                s.to_owned()
            } else {
                "someone".to_owned()
            }
        },
        None => "someone".to_owned(),
    }
}

/// The name tried at the `attempt`-th look-up for a free username: the
/// sanitised base first, then `base-2`, `base-3`, ... each cut to fit.
pub open spec fn attempt_candidate_spec(base: Seq<char>, attempt: nat) -> Seq<char> {
    if attempt == 0 {
        base
    } else {
        username_candidate_spec(base, attempt + 1)
    }
}

/// One step of the search for a free username: the name to look up at
/// attempt `attempt` (the search stops at the first name nobody has).
pub fn attempt_candidate(base: &str, attempt: u64) -> (r: String)
    requires
        attempt < u64::MAX,
    ensures
        r@ == attempt_candidate_spec(base@, attempt as nat),
{
    if attempt == 0 {
        base.to_owned()
    } else {
        username_candidate(base, attempt + 1)
    }
}

/// The search for a free username: the sanitised desired name and how
/// many names were found taken so far. The caller asks the database about
/// `candidate()` and hands the answer to `answer`.
#[derive(Clone, Debug)]
pub struct UsernameSearch {
    pub base: String,
    pub attempt: u64,
}

impl UsernameSearch {
    /// Starts with the sanitised `desired` name.
    pub fn new(desired: &str) -> (r: UsernameSearch)
        ensures
            r.base@ == sanitized_username(desired@),
            r.attempt == 0,
    {
        UsernameSearch { base: sanitize_username_input(desired), attempt: 0 }
    }

    /// The name to look up now.
    pub fn candidate(&self) -> (r: String)
        requires
            self.attempt < u64::MAX,
        ensures
            r@ == attempt_candidate_spec(self.base@, self.attempt as nat),
    {
        attempt_candidate(self.base.as_str(), self.attempt)
    }

    /// Takes the answer for `candidate()`: a name nobody has ends the
    /// search with it; a taken one moves on to the next candidate.
    pub fn answer(&mut self, taken: bool) -> (r: Option<String>)
        requires
            old(self).attempt < u64::MAX - 1,
        ensures
            !taken ==> (r matches Some(name) && name@ == attempt_candidate_spec(
                old(self).base@,
                old(self).attempt as nat,
            )) && final(self).attempt == old(self).attempt,
            taken ==> r is None && final(self).attempt == old(self).attempt + 1,
            final(self).base == old(self).base,
    {
        if taken {
            self.attempt = self.attempt + 1;
            None
        } else {
            Some(self.candidate())
        }
    }
}

} // verus!
