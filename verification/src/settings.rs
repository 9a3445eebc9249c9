//! The settings modal: its tabs and rows, how each row's value cycles, and
//! the edits it makes to the draft profile before saving it.

use vstd::prelude::*;

use crate::profile::{is_default_profile, Profile, ProfileParams};
use crate::tags::{normalize_profile_tags, normalized_tags, string_views};
use crate::text::{
    char_is_control, chars_of, is_control, is_ws, push_char, push_str, str_eq, string_of, trim_end_whitespace, trim_end_ws,
    trim_str, trim_ws,
};
use crate::user::{cycled, sanitize_username_input, sanitized_username, RightSidebarMode};

verus! {

/// Longest username the settings editor takes, in characters.
pub const USERNAME_INPUT_MAX_LEN: usize = 12;

/// Longest IDE, terminal, OS or languages entry, in characters.
pub const SYSTEM_FIELD_MAX_LEN: usize = 48;

/// Longest feed URL, in characters.
pub const FEED_URL_MAX_LEN: usize = 2000;

/// Longest bio, in characters (newlines included).
pub const BIO_MAX_LEN: usize = 1000;

pub const DELETE_CONFIRM_MISMATCH: &'static str = "Typed username does not match current username.";

#[derive(Clone, Copy, Debug, PartialEq, Eq, Structural)]
pub enum PickerKind {
    Country,
    Timezone,
}

/// The rows of the Settings tab, top to bottom.
#[derive(Clone, Copy, Debug, PartialEq, Eq, Structural)]
pub enum Row {
    Username,
    Ide,
    Terminal,
    Os,
    Langs,
    Theme,
    BackgroundColor,
    RightSidebar,
    RoomListSidebar,
    LoungeInfo,
    WireBox,
    Country,
    Timezone,
    DirectMessages,
    Mentions,
    GameEvents,
    Bell,
    Cooldown,
    NotifyFormat,
}

/// Rows on the Settings tab.
pub const ROW_COUNT: usize = 19;

/// The row at `index`, top to bottom.
pub open spec fn row_at(index: int) -> Row {
    if index <= 0 {
        Row::Username
    } else if index == 1 {
        Row::Ide
    } else if index == 2 {
        Row::Terminal
    } else if index == 3 {
        Row::Os
    } else if index == 4 {
        Row::Langs
    } else if index == 5 {
        Row::Theme
    } else if index == 6 {
        Row::BackgroundColor
    } else if index == 7 {
        Row::RightSidebar
    } else if index == 8 {
        Row::RoomListSidebar
    } else if index == 9 {
        Row::LoungeInfo
    } else if index == 10 {
        Row::WireBox
    } else if index == 11 {
        Row::Country
    } else if index == 12 {
        Row::Timezone
    } else if index == 13 {
        Row::DirectMessages
    } else if index == 14 {
        Row::Mentions
    } else if index == 15 {
        Row::GameEvents
    } else if index == 16 {
        Row::Bell
    } else if index == 17 {
        Row::Cooldown
    } else {
        Row::NotifyFormat
    }
}

impl Row {
    /// Every row, top to bottom.
    pub fn all() -> (r: [Row; 19])
        ensures
            forall|i: int| 0 <= i < 19 ==> #[trigger] r@[i] == row_at(i),
    {
        [
            Row::Username,
            Row::Ide,
            Row::Terminal,
            Row::Os,
            Row::Langs,
            Row::Theme,
            Row::BackgroundColor,
            Row::RightSidebar,
            Row::RoomListSidebar,
            Row::LoungeInfo,
            Row::WireBox,
            Row::Country,
            Row::Timezone,
            Row::DirectMessages,
            Row::Mentions,
            Row::GameEvents,
            Row::Bell,
            Row::Cooldown,
            Row::NotifyFormat,
        ]
    }
}

/// The free-text rows edited in place.
#[derive(Clone, Copy, Debug, PartialEq, Eq, Structural)]
pub enum SystemField {
    Ide,
    Terminal,
    Os,
    Langs,
}

pub open spec fn system_field_of(row: Row) -> Option<SystemField> {
    match row {
        Row::Ide => Some(SystemField::Ide),
        Row::Terminal => Some(SystemField::Terminal),
        Row::Os => Some(SystemField::Os),
        Row::Langs => Some(SystemField::Langs),
        _ => None,
    }
}

/// `, `-joined strings.
pub open spec fn joined(items: Seq<Seq<char>>) -> Seq<char>
    decreases items.len(),
{
    if items.len() == 0 {
        Seq::empty()
    } else if items.len() == 1 {
        items[0]
    } else {
        joined(items.drop_last()) + ", "@ + items.last()
    }
}

impl SystemField {
    pub fn from_row(row: Row) -> (r: Option<Self>)
        ensures
            r == system_field_of(row),
    {
        match row {
            Row::Ide => Some(SystemField::Ide),
            Row::Terminal => Some(SystemField::Terminal),
            Row::Os => Some(SystemField::Os),
            Row::Langs => Some(SystemField::Langs),
            _ => None,
        }
    }

    /// The text the field's editor starts from: the stored value, or the
    /// languages joined with `, ` (none when there are none).
    pub fn value(self, profile: &Profile) -> (r: Option<String>)
        ensures
            match self {
                SystemField::Ide => r == profile.ide,
                SystemField::Terminal => r == profile.terminal,
                SystemField::Os => r == profile.os,
                SystemField::Langs => if profile.langs@.len() == 0 {
                    r is None
                } else {
                    r matches Some(t) && t@ == joined(string_views(profile.langs@))
                },
            },
    {
        match self {
            SystemField::Ide => profile.ide.clone(),
            SystemField::Terminal => profile.terminal.clone(),
            SystemField::Os => profile.os.clone(),
            SystemField::Langs => {
                if profile.langs.len() == 0 {
                    return None;
                }
                let mut out = String::new();
                let mut i: usize = 0;
                while i < profile.langs.len()
                    invariant
                        0 < profile.langs@.len(),
                        i <= profile.langs@.len(),
                        out@ == joined(string_views(profile.langs@.take(i as int))),
                    decreases profile.langs@.len() - i,
                {
                    let ghost before = out@;
                    if i > 0 {
                        push_str(&mut out, ", ");
                    }
                    push_str(&mut out, profile.langs[i].as_str());
                    proof {
                        let pre = string_views(profile.langs@.take(i as int));
                        let post = string_views(profile.langs@.take(i + 1));
                        assert(post.drop_last() =~= pre);
                        assert(post.last() == profile.langs@[i as int]@);
                        if i == 0 {
                            assert(post.len() == 1);
                            assert(out@ =~= joined(post));
                        } else {
                            assert(out@ =~= joined(post));
                        }
                    }
                    i = i + 1;
                }
                assert(profile.langs@.take(profile.langs@.len() as int) =~= profile.langs@);
                Some(out)
            },
        }
    }

    /// Stores an edited text: IDE, terminal and OS with their whitespace
    /// collapsed (blank clears them), languages as normalised tags.
    pub fn set_value(self, profile: &mut Profile, text: String)
        ensures
            match self {
                SystemField::Ide => opt_text(final(profile).ide) == optional_text(text@),
                SystemField::Terminal => opt_text(final(profile).terminal) == optional_text(
                    text@,
                ),
                SystemField::Os => opt_text(final(profile).os) == optional_text(text@),
                SystemField::Langs => string_views(final(profile).langs@) == normalized_tags(
                    seq![text@],
                ),
            },
            self != SystemField::Ide ==> final(profile).ide == old(profile).ide,
            self != SystemField::Terminal ==> final(profile).terminal == old(profile).terminal,
            self != SystemField::Os ==> final(profile).os == old(profile).os,
            self != SystemField::Langs ==> final(profile).langs == old(profile).langs,
            match self {
                SystemField::Ide => *final(profile) == (Profile {
                    ide: final(profile).ide,
                    ..*old(profile)
                }),
                SystemField::Terminal => *final(profile) == (Profile {
                    terminal: final(profile).terminal,
                    ..*old(profile)
                }),
                SystemField::Os => *final(profile) == (Profile {
                    os: final(profile).os,
                    ..*old(profile)
                }),
                SystemField::Langs => *final(profile) == (Profile {
                    langs: final(profile).langs,
                    ..*old(profile)
                }),
            },
    {
        match self {
            SystemField::Ide => profile.ide = normalize_optional_text(text.as_str()),
            SystemField::Terminal => profile.terminal = normalize_optional_text(text.as_str()),
            SystemField::Os => profile.os = normalize_optional_text(text.as_str()),
            SystemField::Langs => {
                let mut v: Vec<String> = Vec::new();
                v.push(text);
                assert(string_views(v@) =~= seq![v@[0]@]);
                profile.langs = normalize_profile_tags(&v);
            },
        }
    }
}

/// Top-level tab in the settings modal.
#[derive(Clone, Copy, Debug, PartialEq, Eq, Structural)]
pub enum Tab {
    Settings,
    Bio,
    Themes,
    Account,
    Feeds,
    /// Hidden until the user has filled out at least one of bio, country,
    /// or timezone.
    Special,
}

pub open spec fn tab_label(tab: Tab) -> Seq<char> {
    match tab {
        Tab::Settings => "Settings"@,
        Tab::Bio => "Bio"@,
        Tab::Themes => "Themes"@,
        Tab::Account => "Account"@,
        Tab::Feeds => "RSS"@,
        Tab::Special => "Special"@,
    }
}

/// The tabs in strip order.
pub open spec fn all_tabs() -> Seq<Tab> {
    seq![Tab::Settings, Tab::Bio, Tab::Themes, Tab::Feeds, Tab::Account, Tab::Special]
}

impl Tab {
    /// Every tab, in strip order.
    pub fn all() -> (r: [Tab; 6])
        ensures
            r@ == all_tabs(),
    {
        let r = [Tab::Settings, Tab::Bio, Tab::Themes, Tab::Feeds, Tab::Account, Tab::Special];
        assert(r@ =~= all_tabs());
        r
    }

    pub fn label(self) -> (r: &'static str)
        ensures
            r@ == tab_label(self),
    {
        match self {
            Tab::Settings => "Settings",
            Tab::Bio => "Bio",
            Tab::Themes => "Themes",
            Tab::Account => "Account",
            Tab::Feeds => "RSS",
            Tab::Special => "Special",
        }
    }
}

// ---------------------------------------------------------------------------
// Cycling values

/// The notification formats in cycle order.
pub open spec fn notify_formats() -> Seq<Seq<char>> {
    seq!["both"@, "osc777"@, "osc9"@]
}

/// Where `current` stands among the formats (an unknown or missing one
/// counts as the first).
pub open spec fn format_index(current: Option<Seq<char>>) -> int {
    match current {
        Some(c) => if c == "both"@ {
            0
        } else if c == "osc777"@ {
            1
        } else if c == "osc9"@ {
            2
        } else {
            0
        },
        None => 0,
    }
}

/// The next notification format, or the previous one when `forward` is
/// false, wrapping around.
pub fn cycle_notify_format(current: Option<&str>, forward: bool) -> (r: &'static str)
    ensures
        r@ == notify_formats()[(if forward {
            format_index(
                match current {
                    Some(c) => Some(c@),
                    None => None,
                },
            ) + 1
        } else {
            format_index(
                match current {
                    Some(c) => Some(c@),
                    None => None,
                },
            ) + 2
        }) % 3],
{
    let idx: usize = match current {
        Some(c) => if str_eq(c, "both") {
            0
        } else if str_eq(c, "osc777") {
            1
        } else if str_eq(c, "osc9") {
            2
        } else {
            0
        },
        None => 0,
    };
    let next = if forward {
        (idx + 1) % 3
    } else {
        (idx + 3 - 1) % 3
    };
    if next == 0 {
        "both"
    } else if next == 1 {
        "osc777"
    } else {
        "osc9"
    }
}

/// The cooldown choices, in minutes, in cycle order.
pub open spec fn cooldown_options() -> Seq<i32> {
    seq![0i32, 1, 2, 5, 10, 15, 30, 60, 120, 240]
}

/// Where `current` stands among the cooldown choices (an unlisted value
/// counts as the first).
pub open spec fn cooldown_index(current: i32) -> int {
    if current == 1 {
        1
    } else if current == 2 {
        2
    } else if current == 5 {
        3
    } else if current == 10 {
        4
    } else if current == 15 {
        5
    } else if current == 30 {
        6
    } else if current == 60 {
        7
    } else if current == 120 {
        8
    } else if current == 240 {
        9
    } else {
        0
    }
}

/// Cycling a listed cooldown (0, 1, 2, 5, 10, 15, 30, 60, 120, 240
/// minutes) forward gives the next one in that list, and backward the one
/// before, wrapping around; it never stays on the same value.
pub proof fn lemma_cooldown_cycle_steps(k: int)
    requires
        0 <= k < 10,
    ensures
        ({
            let choices = seq![0i32, 1, 2, 5, 10, 15, 30, 60, 120, 240];
            &&& cooldown_options()[(cooldown_index(choices[k]) + 1) % 10] == choices[(k + 1) % 10]
            &&& cooldown_options()[(cooldown_index(choices[k]) + 9) % 10] == choices[(k + 9) % 10]
            &&& cooldown_options()[(cooldown_index(choices[k]) + 1) % 10] != choices[k]
            &&& cooldown_options()[(cooldown_index(choices[k]) + 9) % 10] != choices[k]
        }),
{
    let choices = seq![0i32, 1, 2, 5, 10, 15, 30, 60, 120, 240];
    assert(choices =~= cooldown_options());
    if k == 0 {
        assert(cooldown_index(choices[k]) == 0);
    } else if k == 1 {
        assert(cooldown_index(choices[k]) == 1);
    } else if k == 2 {
        assert(cooldown_index(choices[k]) == 2);
    } else if k == 3 {
        assert(cooldown_index(choices[k]) == 3);
    } else if k == 4 {
        assert(cooldown_index(choices[k]) == 4);
    } else if k == 5 {
        assert(cooldown_index(choices[k]) == 5);
    } else if k == 6 {
        assert(cooldown_index(choices[k]) == 6);
    } else if k == 7 {
        assert(cooldown_index(choices[k]) == 7);
    } else if k == 8 {
        assert(cooldown_index(choices[k]) == 8);
    } else {
        assert(cooldown_index(choices[k]) == 9);
    }
}

/// The next cooldown choice, or the previous one when `forward` is false,
/// wrapping around.
pub fn cycle_cooldown_value(current: i32, forward: bool) -> (r: i32)
    ensures
        r == cooldown_options()[(if forward {
            cooldown_index(current) + 1
        } else {
            cooldown_index(current) + 9
        }) % 10],
{
    let options: [i32; 10] = [0, 1, 2, 5, 10, 15, 30, 60, 120, 240];
    assert(options@ =~= cooldown_options());
    let idx: usize = if current == 1 {
        1
    } else if current == 2 {
        2
    } else if current == 5 {
        3
    } else if current == 10 {
        4
    } else if current == 15 {
        5
    } else if current == 30 {
        6
    } else if current == 60 {
        7
    } else if current == 120 {
        8
    } else if current == 240 {
        9
    } else {
        0
    };
    let next = if forward {
        (idx + 1) % 10
    } else {
        (idx + 10 - 1) % 10
    };
    options[next]
}

/// Turns a notification kind on or off: removes its first occurrence, or
/// appends it when absent.
pub fn toggle_kind(kinds: &mut Vec<String>, kind: &str)
    ensures
        (exists|i: int| 0 <= i < old(kinds)@.len() && old(kinds)@[i]@ == kind@) ==> {
            let i = choose|i: int|
                0 <= i < old(kinds)@.len() && old(kinds)@[i]@ == kind@ && forall|j: int|
                    0 <= j < i ==> old(kinds)@[j]@ != kind@;
            final(kinds)@ == old(kinds)@.remove(i)
        },
        (forall|i: int| 0 <= i < old(kinds)@.len() ==> old(kinds)@[i]@ != kind@) ==> (
        final(kinds)@.len() == old(kinds)@.len() + 1 && final(kinds)@.drop_last() == old(kinds)@
            && final(kinds)@.last()@ == kind@),
{
    let mut i: usize = 0;
    while i < kinds.len()
        invariant
            kinds@ == old(kinds)@,
            i <= kinds@.len(),
            forall|j: int| 0 <= j < i ==> kinds@[j]@ != kind@,
        decreases kinds@.len() - i,
    {
        if str_eq(kinds[i].as_str(), kind) {
            let ghost pos = i as int;
            kinds.remove(i);
            proof {
                let c = choose|c: int|
                    0 <= c < old(kinds)@.len() && old(kinds)@[c]@ == kind@ && forall|j: int|
                        0 <= j < c ==> old(kinds)@[j]@ != kind@;
                assert(0 <= pos < old(kinds)@.len() && old(kinds)@[pos]@ == kind@ && forall|j: int|
                    0 <= j < pos ==> old(kinds)@[j]@ != kind@);
                if c < pos {
                } else if c > pos {
                    assert(old(kinds)@[pos]@ != kind@);
                }
                assert(c == pos);
            }
            return;
        }
        i = i + 1;
    }
    let ghost before = kinds@;
    kinds.push(kind.to_owned());
    assert(kinds@.drop_last() =~= before);
}

/// `text.split_whitespace().collect::<Vec<_>>().join(" ")`, as a fold over
/// the characters: the text so far, and whether a gap awaits its space.
pub open spec fn squeeze(s: Seq<char>) -> (Seq<char>, bool)
    decreases s.len(),
{
    if s.len() == 0 {
        (Seq::empty(), false)
    } else {
        let (o, gap) = squeeze(s.drop_last());
        let c = s.last();
        if is_ws(c) {
            (o, o.len() > 0)
        } else if gap {
            (o.push(' ').push(c), false)
        } else {
            (o.push(c), false)
        }
    }
}

/// The words of `s` joined by single spaces.
pub open spec fn collapsed(s: Seq<char>) -> Seq<char> {
    squeeze(s).0
}

/// The text with its whitespace collapsed, `None` when nothing is left.
pub open spec fn optional_text(s: Seq<char>) -> Option<Seq<char>> {
    if collapsed(s).len() > 0 {
        Some(collapsed(s))
    } else {
        None
    }
}

pub open spec fn opt_text(o: Option<String>) -> Option<Seq<char>> {
    match o {
        Some(s) => Some(s@),
        None => None,
    }
}

/// The words of `text` joined by single spaces, or `None` when it has
/// none.
pub fn normalize_optional_text(text: &str) -> (r: Option<String>)
    ensures
        opt_text(r) == optional_text(text@),
{
    let n = text.unicode_len();
    let mut out = String::new();
    let mut gap = false;
    let mut i: usize = 0;
    while i < n
        invariant
            n == text@.len(),
            i <= n,
            (out@, gap) == squeeze(text@.take(i as int)),
        decreases n - i,
    {
        let c = text.get_char(i);
        proof {
            assert(text@.take(i + 1).drop_last() =~= text@.take(i as int));
            assert(text@.take(i + 1).last() == c);
        }
        if crate::text::char_is_whitespace(c) {
            gap = out.as_str().unicode_len() > 0;
        } else {
            if gap {
                push_char(&mut out, ' ');
            }
            push_char(&mut out, c);
            gap = false;
        }
        i = i + 1;
    }
    assert(text@.take(n as int) =~= text@);
    if out.as_str().unicode_len() > 0 {
        Some(out)
    } else {
        None
    }
}

// ---------------------------------------------------------------------------
// Typing and pasting into the text editors

/// The modal's text editors, each with its own length limit.
#[derive(Clone, Copy, Debug, PartialEq, Eq, Structural)]
pub enum TextField {
    Username,
    /// IDE, terminal, OS or languages.
    System,
    Bio,
    FeedUrl,
    /// The username typed to confirm an account deletion.
    DeleteConfirm,
}

/// How many characters an editor holds at most; a bio's newlines count.
pub open spec fn field_limit(f: TextField) -> usize {
    match f {
        TextField::Username => USERNAME_INPUT_MAX_LEN,
        TextField::System => SYSTEM_FIELD_MAX_LEN,
        TextField::Bio => BIO_MAX_LEN,
        TextField::FeedUrl => FEED_URL_MAX_LEN,
        TextField::DeleteConfirm => crate::user::USERNAME_MAX_LEN,
    }
}

/// Whether a pasted character goes in: no control characters, except the
/// newlines of a bio.
pub open spec fn pasteable(f: TextField, c: char) -> bool {
    match f {
        TextField::Bio => c == '\n' || !is_control(c),
        _ => !is_control(c),
    }
}

/// `\r\n` and lone `\r` turned into `\n`.
pub open spec fn newlines_normalized(s: Seq<char>) -> Seq<char>
    decreases s.len(),
{
    if s.len() == 0 {
        Seq::empty()
    } else if s[0] == '\r' && s.len() >= 2 && s[1] == '\n' {
        seq!['\n'] + newlines_normalized(s.subrange(2, s.len() as int))
    } else if s[0] == '\r' {
        seq!['\n'] + newlines_normalized(s.drop_first())
    } else {
        seq![s[0]] + newlines_normalized(s.drop_first())
    }
}

/// The characters of `s` a paste inserts into an editor that holds `count`:
/// the pasteable ones, in order, until the editor is full.
pub open spec fn fitted_paste(f: TextField, count: int, s: Seq<char>) -> Seq<char>
    decreases s.len(),
{
    if s.len() == 0 || count >= field_limit(f) {
        Seq::empty()
    } else if pasteable(f, s[0]) {
        seq![s[0]] + fitted_paste(f, count + 1, s.drop_first())
    } else {
        fitted_paste(f, count, s.drop_first())
    }
}

/// What a paste into `f` reads: a bio's line endings are normalised first.
pub open spec fn paste_source(f: TextField, text: Seq<char>) -> Seq<char> {
    match f {
        TextField::Bio => newlines_normalized(text),
        _ => text,
    }
}

/// A paste never takes an editor past its limit, and inserts only
/// pasteable characters.
pub proof fn lemma_fitted_paste_fits(f: TextField, count: int, s: Seq<char>)
    requires
        0 <= count <= field_limit(f),
    ensures
        count + fitted_paste(f, count, s).len() <= field_limit(f),
        forall|k: int|
            0 <= k < fitted_paste(f, count, s).len() ==> pasteable(
                f,
                #[trigger] fitted_paste(f, count, s)[k],
            ),
    decreases s.len(),
{
    if s.len() == 0 || count >= field_limit(f) {
    } else {
        let rest = s.drop_first();
        if pasteable(f, s[0]) {
            lemma_fitted_paste_fits(f, count + 1, rest);
            let r = fitted_paste(f, count, s);
            assert forall|k: int| 0 <= k < r.len() implies pasteable(f, #[trigger] r[k]) by {
                if k > 0 {
                    assert(r[k] == fitted_paste(f, count + 1, rest)[k - 1]);
                }
            }
        } else {
            lemma_fitted_paste_fits(f, count, rest);
        }
    }
}

proof fn lemma_line_chars_prefix(lines: Seq<String>, n: int)
    requires
        0 <= n <= lines.len(),
    ensures
        line_chars(lines.take(n)) <= line_chars(lines),
    decreases lines.len(),
{
    if n < lines.len() {
        assert(lines.drop_last().take(n) =~= lines.take(n));
        lemma_line_chars_prefix(lines.drop_last(), n);
    } else {
        assert(lines.take(n) =~= lines);
    }
}

fn normalize_newlines(v: &Vec<char>) -> (r: Vec<char>)
    ensures
        r@ == newlines_normalized(v@),
{
    let mut out: Vec<char> = Vec::new();
    let mut i: usize = 0;
    assert(v@.skip(0) =~= v@);
    while i < v.len()
        invariant
            i <= v@.len(),
            out@ + newlines_normalized(v@.skip(i as int)) == newlines_normalized(v@),
        decreases v@.len() - i,
    {
        let ghost rest = v@.skip(i as int);
        let c = v[i];
        assert(rest[0] == c);
        if c == '\r' && i + 1 < v.len() && v[i + 1] == '\n' {
            assert(rest[1] == '\n');
            assert(rest.subrange(2, rest.len() as int) =~= v@.skip(i + 2));
            out.push('\n');
            i = i + 2;
        } else {
            assert(rest.drop_first() =~= v@.skip(i + 1));
            if c == '\r' {
                out.push('\n');
            } else {
                out.push(c);
            }
            i = i + 1;
        }
        assert(out@ + newlines_normalized(v@.skip(i as int)) =~= newlines_normalized(v@));
    }
    assert(v@.skip(i as int) =~= Seq::<char>::empty());
    assert(out@ =~= newlines_normalized(v@));
    out
}

/// The characters of the lines.
pub open spec fn line_chars(lines: Seq<String>) -> nat
    decreases lines.len(),
{
    if lines.len() == 0 {
        0
    } else {
        line_chars(lines.drop_last()) + lines.last()@.len()
    }
}

/// How many characters an editor holding `lines` counts: its characters,
/// and for a bio the line breaks between its lines as well.
pub open spec fn editor_count(f: TextField, lines: Seq<String>) -> nat {
    match f {
        TextField::Bio => line_chars(lines) + if lines.len() > 0 {
            (lines.len() - 1) as nat
        } else {
            0nat
        },
        _ => line_chars(lines),
    }
}

impl TextField {
    /// The editor's length limit.
    pub fn limit(self) -> (r: usize)
        ensures
            r == field_limit(self),
    {
        match self {
            TextField::Username => USERNAME_INPUT_MAX_LEN,
            TextField::System => SYSTEM_FIELD_MAX_LEN,
            TextField::Bio => BIO_MAX_LEN,
            TextField::FeedUrl => FEED_URL_MAX_LEN,
            TextField::DeleteConfirm => crate::user::USERNAME_MAX_LEN,
        }
    }

    /// The characters an editor holding `lines` counts toward its limit.
    pub fn char_count(self, lines: &Vec<String>) -> (r: usize)
        requires
            editor_count(self, lines@) <= usize::MAX,
        ensures
            r == editor_count(self, lines@),
    {
        let mut total: usize = 0;
        let mut i: usize = 0;
        while i < lines.len()
            invariant
                i <= lines@.len(),
                total == line_chars(lines@.take(i as int)),
                line_chars(lines@) <= usize::MAX,
            decreases lines@.len() - i,
        {
            proof {
                assert(lines@.take(i + 1).drop_last() =~= lines@.take(i as int));
                lemma_line_chars_prefix(lines@, i + 1);
            }
            total = total + lines[i].as_str().unicode_len();
            i = i + 1;
        }
        assert(lines@.take(lines@.len() as int) =~= lines@);
        match self {
            TextField::Bio => {
                if lines.len() > 0 {
                    total + (lines.len() - 1)
                } else {
                    total
                }
            },
            _ => total,
        }
    }

    /// Whether a typed character goes into an editor holding `count`.
    pub fn accepts_typed(self, count: usize) -> (r: bool)
        ensures
            r == (count < field_limit(self)),
    {
        count < self.limit()
    }

    /// The characters of a pasted `text` that go into an editor holding
    /// `count`, in the order they are inserted.
    pub fn fit_paste(self, count: usize, text: &str) -> (r: String)
        ensures
            r@ == fitted_paste(self, count as int, paste_source(self, text@)),
            count <= field_limit(self) ==> count + r@.len() <= field_limit(self),
    {
        let raw = chars_of(text);
        let src = match self {
            TextField::Bio => normalize_newlines(&raw),
            _ => raw,
        };
        let limit = self.limit();
        let ghost whole = src@;
        let mut out = String::new();
        let mut n: usize = count;
        let mut i: usize = 0;
        assert(src@.skip(0) =~= src@);
        while i < src.len() && n < limit
            invariant
                whole == src@,
                limit == field_limit(self),
                i <= src@.len(),
                out@ + fitted_paste(self, n as int, src@.skip(i as int)) == fitted_paste(
                    self,
                    count as int,
                    whole,
                ),
            decreases src@.len() - i,
        {
            let c = src[i];
            let ghost rest = src@.skip(i as int);
            assert(rest[0] == c);
            assert(rest.drop_first() =~= src@.skip(i + 1));
            let ok = match self {
                TextField::Bio => c == '\n' || !char_is_control(c),
                _ => !char_is_control(c),
            };
            if ok {
                let ghost before = out@;
                push_char(&mut out, c);
                n = n + 1;
                assert(out@ + fitted_paste(self, n as int, src@.skip(i + 1)) =~= before
                    + fitted_paste(self, (n - 1) as int, rest));
            }
            i = i + 1;
        }
        assert(fitted_paste(self, n as int, src@.skip(i as int)) == Seq::<char>::empty());
        assert(out@ =~= fitted_paste(self, count as int, whole));
        proof {
            if count <= field_limit(self) {
                lemma_fitted_paste_fits(self, count as int, whole);
            }
        }
        out
    }
}

// ---------------------------------------------------------------------------
// The modal's state

/// The country or timezone picker: its query, selection and scroll.
#[derive(Clone, Debug)]
pub struct PickerState {
    pub kind: Option<PickerKind>,
    pub query: String,
    pub selected_index: usize,
    pub scroll_offset: usize,
    pub visible_height: usize,
}

impl PickerState {
    /// A closed picker.
    pub fn closed() -> (r: PickerState)
        ensures
            r.kind is None,
            r.query@.len() == 0,
            r.selected_index == 0,
            r.scroll_offset == 0,
            r.visible_height == 0,
    {
        PickerState {
            kind: None,
            query: String::new(),
            selected_index: 0,
            scroll_offset: 0,
            visible_height: 0,
        }
    }
}

/// The delete-account dialog apart from its text editor.
#[derive(Clone, Debug)]
pub struct DeleteAccountStatus {
    pub open: bool,
    pub status: Option<String>,
    pub pending: bool,
}

/// What leaving the current tab for the next asks of the editors.
#[derive(Clone, Copy, Debug, PartialEq, Eq, Structural)]
pub struct TabSwitch {
    /// The tab to show.
    pub next: Tab,
    /// End the bio edit (storing its text) and save.
    pub finish_bio: bool,
    /// Commit the username being typed and save.
    pub commit_username: bool,
    /// Commit the field being typed and save.
    pub commit_system_field: bool,
    /// Drop the feed URL being typed.
    pub cancel_feed_url: bool,
    /// Move the theme list to the draft's theme.
    pub sync_theme: bool,
}

/// The settings modal apart from its text editors, feeds and services:
/// the draft profile, where the cursor is, and which editor or dialog is
/// open.
#[derive(Clone, Debug)]
pub struct SettingsNav {
    pub draft: Profile,
    pub selected_tab: Tab,
    pub row_index: usize,
    pub right_sidebar_custom_open: bool,
    pub right_sidebar_custom_index: usize,
    pub picker: PickerState,
    pub feed_index: usize,
    pub editing_username: bool,
    pub editing_system_field: Option<SystemField>,
    pub editing_bio: bool,
    pub editing_feed_url: bool,
    pub delete_account: DeleteAccountStatus,
}

/// Whether a text has something besides whitespace.
pub open spec fn filled(s: Seq<char>) -> bool {
    trim_ws(s).len() > 0
}

/// The tabs shown, in strip order: all but Special until it is unlocked.
pub open spec fn visible_tabs_spec(unlocked: bool) -> Seq<Tab> {
    if unlocked {
        all_tabs()
    } else {
        all_tabs().drop_last()
    }
}

/// A tab's place in the strip: Settings, Bio, Themes, RSS, Account, then
/// Special.
pub open spec fn strip_place(t: Tab) -> int {
    match t {
        Tab::Settings => 0,
        Tab::Bio => 1,
        Tab::Themes => 2,
        Tab::Feeds => 3,
        Tab::Account => 4,
        Tab::Special => 5,
    }
}

/// The tabs shown are every tab but Special, and Special too once it is
/// unlocked, each once and in strip order.
pub proof fn lemma_visible_tabs(unlocked: bool)
    ensures
        forall|t: Tab|
            #[trigger] visible_tabs_spec(unlocked).contains(t) <==> (t != Tab::Special
                || unlocked),
        forall|i: int, j: int|
            0 <= i < j < visible_tabs_spec(unlocked).len() ==> strip_place(
                #[trigger] visible_tabs_spec(unlocked)[i],
            ) < strip_place(#[trigger] visible_tabs_spec(unlocked)[j]),
{
    let v = visible_tabs_spec(unlocked);
    assert(v[0] == Tab::Settings && v[1] == Tab::Bio && v[2] == Tab::Themes && v[3] == Tab::Feeds
        && v[4] == Tab::Account);
    assert(unlocked ==> v.len() == 6 && v[5] == Tab::Special);
    assert(!unlocked ==> v.len() == 5);
    assert forall|t: Tab| #[trigger] v.contains(t) <==> (t != Tab::Special || unlocked) by {
        match t {
            Tab::Settings => assert(v[0] == t),
            Tab::Bio => assert(v[1] == t),
            Tab::Themes => assert(v[2] == t),
            Tab::Feeds => assert(v[3] == t),
            Tab::Account => assert(v[4] == t),
            Tab::Special => if unlocked {
                assert(v[5] == t);
            },
        }
    }
}

/// `value.clamp(0, last)`.
pub open spec fn clamp_int(value: int, last: int) -> int {
    if value < 0 {
        0
    } else if value > last {
        last
    } else {
        value
    }
}

fn clamp_index(index: usize, delta: isize, last: usize) -> (r: usize)
    requires
        last <= isize::MAX,
        index <= isize::MAX,
    ensures
        r == clamp_int(index + delta, last as int),
{
    let moved: i128 = index as i128 + delta as i128;
    if moved < 0 {
        0
    } else if moved > last as i128 {
        last
    } else {
        moved as usize
    }
}

/// The scroll offset that keeps row `selected` of `total` in a view
/// `visible` rows tall: unchanged when the row shows, else just far enough
/// to show it, and never past the last full screen.
pub open spec fn keep_visible_spec(selected: usize, scroll: usize, visible: usize, total: usize) -> int {
    let v = if visible > 1 {
        visible as int
    } else {
        1
    };
    let max_scroll = if total > v {
        total - v
    } else {
        0
    };
    let s = if selected < scroll {
        selected as int
    } else if selected >= scroll + v {
        selected - (v - 1)
    } else {
        scroll as int
    };
    if s < max_scroll {
        s
    } else {
        max_scroll
    }
}

/// The scroll offset that keeps the selected row in view.
pub fn keep_cursor_visible(selected: usize, scroll: usize, visible: usize, total: usize) -> (r: usize)
    ensures
        r == keep_visible_spec(selected, scroll, visible, total),
{
    let v = if visible > 1 {
        visible
    } else {
        1
    };
    let max_scroll = if total > v {
        total - v
    } else {
        0
    };
    let s = if selected < scroll {
        selected
    } else if selected as u128 >= scroll as u128 + v as u128 {
        selected - (v - 1)
    } else {
        scroll
    };
    if s < max_scroll {
        s
    } else {
        max_scroll
    }
}

/// Whether the Special tab shows: the bio, the country or the timezone
/// holds something besides whitespace.
pub open spec fn special_unlocked_spec(draft: Profile) -> bool {
    filled(draft.bio@) || (draft.country matches Some(c) && filled(c@)) || (
    draft.timezone matches Some(t) && filled(t@))
}

/// Where `current` stands among `tabs` (the first when it is not there).
pub open spec fn tab_index(tabs: Seq<Tab>, current: Tab) -> int {
    if tabs.contains(current) {
        tabs.index_of(current)
    } else {
        0
    }
}

/// The tab after `current` among `tabs`, or before it when `forward` is
/// false, wrapping around.
pub open spec fn neighbour_tab(tabs: Seq<Tab>, current: Tab, forward: bool) -> Tab {
    tabs[(if forward {
        tab_index(tabs, current) + 1
    } else {
        tab_index(tabs, current) + tabs.len() - 1
    }) % (tabs.len() as int)]
}

impl SettingsNav {
    /// The cursor rests on a row and on one of the four sidebar screens.
    pub open spec fn wf(&self) -> bool {
        &&& self.row_index < ROW_COUNT
        &&& self.right_sidebar_custom_index < 4
    }

    /// A closed modal over the default profile.
    pub fn new() -> (r: SettingsNav)
        ensures
            r.wf(),
            r.selected_tab == Tab::Settings,
            r.row_index == 0,
            !r.editing_username && r.editing_system_field is None && !r.editing_bio
                && !r.editing_feed_url,
            is_default_profile(r.draft),
            !r.right_sidebar_custom_open,
            r.right_sidebar_custom_index == 0,
            r.feed_index == 0,
            r.picker.kind is None,
            r.picker.query@.len() == 0,
            r.picker.selected_index == 0,
            r.picker.scroll_offset == 0,
            r.picker.visible_height == 0,
            !r.delete_account.open,
            r.delete_account.status is None,
            !r.delete_account.pending,
    {
        SettingsNav {
            draft: Profile::default(),
            selected_tab: Tab::Settings,
            row_index: 0,
            right_sidebar_custom_open: false,
            right_sidebar_custom_index: 0,
            picker: PickerState::closed(),
            feed_index: 0,
            editing_username: false,
            editing_system_field: None,
            editing_bio: false,
            editing_feed_url: false,
            delete_account: DeleteAccountStatus { open: false, status: None, pending: false },
        }
    }

    /// Opens the modal on a copy of the saved profile, at the first row of
    /// the Settings tab, with no editor, picker or dialog open.
    pub fn open_from_profile(&mut self, profile: Profile)
        ensures
            final(self).wf(),
            *final(self) == (SettingsNav {
                draft: final(self).draft,
                selected_tab: final(self).selected_tab,
                row_index: final(self).row_index,
                editing_username: final(self).editing_username,
                editing_system_field: final(self).editing_system_field,
                editing_bio: final(self).editing_bio,
                picker: final(self).picker,
                delete_account: final(self).delete_account,
                right_sidebar_custom_open: final(self).right_sidebar_custom_open,
                right_sidebar_custom_index: final(self).right_sidebar_custom_index,
                ..*old(self)
            }),
            final(self).draft == profile,
            final(self).selected_tab == Tab::Settings,
            final(self).row_index == 0,
            !final(self).editing_username && final(self).editing_system_field is None
                && !final(self).editing_bio,
            final(self).picker.kind is None,
            !final(self).delete_account.open && !final(self).delete_account.pending,
            !final(self).right_sidebar_custom_open,
            final(self).right_sidebar_custom_index == 0,
            final(self).feed_index == old(self).feed_index,
            final(self).editing_feed_url == old(self).editing_feed_url,
    {
        self.draft = profile;
        self.selected_tab = Tab::Settings;
        self.row_index = 0;
        self.editing_username = false;
        self.editing_system_field = None;
        self.editing_bio = false;
        self.picker = PickerState::closed();
        self.delete_account = DeleteAccountStatus { open: false, status: None, pending: false };
        self.right_sidebar_custom_open = false;
        self.right_sidebar_custom_index = 0;
    }

    pub fn selected_row(&self) -> (r: Row)
        requires
            self.wf(),
        ensures
            r == row_at(self.row_index as int),
    {
        let rows = Row::all();
        rows[self.row_index]
    }

    /// Moves the row cursor by `delta`, stopping at the first and last rows.
    pub fn move_row(&mut self, delta: isize)
        requires
            old(self).wf(),
        ensures
            final(self).wf(),
            *final(self) == (SettingsNav {
                row_index: final(self).row_index,
                ..*old(self)
            }),
            final(self).row_index == clamp_int(old(self).row_index + delta, ROW_COUNT - 1),
            final(self).draft == old(self).draft,
            final(self).selected_tab == old(self).selected_tab,
    {
        self.row_index = clamp_index(self.row_index, delta, ROW_COUNT - 1);
    }

    /// The Special tab unlocks once the bio, the country or the timezone
    /// holds something besides whitespace.
    pub fn special_tab_unlocked(&self) -> (r: bool)
        ensures
            r == (filled(self.draft.bio@) || (self.draft.country matches Some(c) && filled(c@))
                || (self.draft.timezone matches Some(t) && filled(t@))),
    {
        let bio_filled = trim_str(self.draft.bio.as_str()).len() > 0;
        let country_filled = match &self.draft.country {
            Some(c) => trim_str(c.as_str()).len() > 0,
            None => false,
        };
        let timezone_filled = match &self.draft.timezone {
            Some(t) => trim_str(t.as_str()).len() > 0,
            None => false,
        };
        bio_filled || country_filled || timezone_filled
    }

    /// Tabs to show in the tab strip in display order.
    pub fn visible_tabs(&self) -> (r: Vec<Tab>)
        ensures
            r@ == visible_tabs_spec(
                filled(self.draft.bio@) || (self.draft.country matches Some(c) && filled(c@))
                    || (self.draft.timezone matches Some(t) && filled(t@)),
            ),
    {
        let unlocked = self.special_tab_unlocked();
        let mut r: Vec<Tab> = Vec::new();
        r.push(Tab::Settings);
        r.push(Tab::Bio);
        r.push(Tab::Themes);
        r.push(Tab::Feeds);
        r.push(Tab::Account);
        if unlocked {
            r.push(Tab::Special);
        }
        proof {
            if unlocked {
                assert(r@ =~= all_tabs());
            } else {
                assert(r@ =~= all_tabs().drop_last());
            }
        }
        r
    }

    /// The neighbouring visible tab (wrapping around), and what leaving the
    /// current one asks of the editors: a bio being edited is finished, a
    /// username or field being typed is committed, a feed URL being typed
    /// is dropped; arriving on Themes moves its list to the draft's theme.
    pub fn tab_switch(&self, forward: bool) -> (r: TabSwitch)
        ensures
            r.next == neighbour_tab(
                visible_tabs_spec(special_unlocked_spec(self.draft)),
                self.selected_tab,
                forward,
            ),
            r.finish_bio == (self.selected_tab == Tab::Bio && r.next != Tab::Bio && self.editing_bio),
            r.commit_username == (self.selected_tab == Tab::Settings && self.editing_username),
            r.commit_system_field == (self.selected_tab == Tab::Settings
                && self.editing_system_field is Some),
            r.cancel_feed_url == (self.selected_tab == Tab::Feeds && self.editing_feed_url),
            r.sync_theme == (r.next == Tab::Themes),
    {
        let visible = self.visible_tabs();
        let ghost tabs = visible@;
        let n = visible.len();
        let mut idx: usize = 0;
        let mut i: usize = 0;
        let mut found = false;
        while i < n
            invariant
                n == tabs.len(),
                visible@ == tabs,
                5 <= n <= 6,
                idx < n,
                !found ==> idx == 0,
                i <= n,
                !found ==> forall|k: int| 0 <= k < i ==> tabs[k] != self.selected_tab,
                found ==> idx < n && tabs[idx as int] == self.selected_tab,
            decreases n - i,
        {
            if !found && visible[i] == self.selected_tab {
                idx = i;
                found = true;
            }
            i = i + 1;
        }
        proof {
            if found {
                assert(tabs.contains(self.selected_tab));
                let j = tabs.index_of(self.selected_tab);
                assert(tabs[j] == self.selected_tab);
                assert(tabs.no_duplicates());
                assert(j == idx as int);
            } else {
                assert(!tabs.contains(self.selected_tab));
            }
            assert(idx as int == tab_index(tabs, self.selected_tab));
        }
        let next_idx = if forward {
            (idx + 1) % n
        } else {
            (idx + n - 1) % n
        };
        let next = visible[next_idx];
        TabSwitch {
            next,
            finish_bio: self.selected_tab == Tab::Bio && next != Tab::Bio && self.editing_bio,
            commit_username: self.selected_tab == Tab::Settings && self.editing_username,
            commit_system_field: self.selected_tab == Tab::Settings
                && self.editing_system_field.is_some(),
            cancel_feed_url: self.selected_tab == Tab::Feeds && self.editing_feed_url,
            sync_theme: next == Tab::Themes,
        }
    }

    pub fn select_tab(&mut self, tab: Tab)
        requires
            old(self).wf(),
        ensures
            final(self).wf(),
            *final(self) == (SettingsNav {
                selected_tab: final(self).selected_tab,
                ..*old(self)
            }),
            final(self).selected_tab == tab,
            final(self).draft == old(self).draft,
            final(self).row_index == old(self).row_index,
    {
        self.selected_tab = tab;
    }

    /// Flips the "show settings on connect" toggle, the sole control on the
    /// Special tab. The draft is then saved.
    pub fn toggle_show_settings_on_connect(&mut self)
        requires
            old(self).wf(),
        ensures
            final(self).wf(),
            *final(self) == (SettingsNav {
                draft: (Profile {
                    show_settings_on_connect: !old(self).draft.show_settings_on_connect,
                    ..old(self).draft
                }),
                ..*old(self)
            }),
    {
        self.draft.show_settings_on_connect = !self.draft.show_settings_on_connect;
    }

    pub fn open_right_sidebar_custom(&mut self)
        requires
            old(self).wf(),
        ensures
            final(self).wf(),
            *final(self) == (SettingsNav {
                right_sidebar_custom_open: final(self).right_sidebar_custom_open,
                right_sidebar_custom_index: final(self).right_sidebar_custom_index,
                ..*old(self)
            }),
            final(self).right_sidebar_custom_open,
            final(self).right_sidebar_custom_index == 0,
            final(self).draft == old(self).draft,
    {
        self.right_sidebar_custom_open = true;
        self.right_sidebar_custom_index = 0;
    }

    pub fn close_right_sidebar_custom(&mut self)
        requires
            old(self).wf(),
        ensures
            final(self).wf(),
            *final(self) == (SettingsNav {
                right_sidebar_custom_open: final(self).right_sidebar_custom_open,
                ..*old(self)
            }),
            !final(self).right_sidebar_custom_open,
            final(self).right_sidebar_custom_index == old(self).right_sidebar_custom_index,
            final(self).draft == old(self).draft,
    {
        self.right_sidebar_custom_open = false;
    }

    /// Moves the screen cursor of the custom sidebar list by `delta`,
    /// stopping at the first and fourth screens.
    pub fn move_right_sidebar_custom(&mut self, delta: isize)
        requires
            old(self).wf(),
        ensures
            final(self).wf(),
            *final(self) == (SettingsNav {
                right_sidebar_custom_index: final(self).right_sidebar_custom_index,
                ..*old(self)
            }),
            final(self).right_sidebar_custom_index == clamp_int(
                old(self).right_sidebar_custom_index + delta,
                3,
            ),
            final(self).draft == old(self).draft,
    {
        self.right_sidebar_custom_index = clamp_index(self.right_sidebar_custom_index, delta, 3);
    }

    pub fn right_sidebar_screen_enabled(&self, screen_number: u8) -> (r: bool)
        ensures
            r == self.draft.right_sidebar_screens@.contains(screen_number),
    {
        crate::frame::contains_u8(self.draft.right_sidebar_screens.as_slice(), screen_number)
    }

    /// Shows or hides the sidebar on the screen under the cursor: removes
    /// it from the list, or adds it and sorts the list. The draft is then
    /// saved.
    pub fn toggle_right_sidebar_custom_screen(&mut self)
        requires
            old(self).wf(),
        ensures
            final(self).wf(),
            toggled_screens(
                old(self).draft.right_sidebar_screens@,
                (old(self).right_sidebar_custom_index + 1) as u8,
                final(self).draft.right_sidebar_screens@,
            ),
            sorted_unique(old(self).draft.right_sidebar_screens@) ==> sorted_unique(
                final(self).draft.right_sidebar_screens@,
            ),
            sorted_unique(old(self).draft.right_sidebar_screens@) ==> forall|k: u8|
                #[trigger] final(self).draft.right_sidebar_screens@.contains(k) == (if k == (
                old(self).right_sidebar_custom_index + 1) as u8 {
                    !old(self).draft.right_sidebar_screens@.contains(k)
                } else {
                    old(self).draft.right_sidebar_screens@.contains(k)
                }),
            *final(self) == (SettingsNav {
                draft: (Profile {
                    right_sidebar_screens: final(self).draft.right_sidebar_screens,
                    ..old(self).draft
                }),
                ..*old(self)
            }),
    {
        let screen = (self.right_sidebar_custom_index + 1) as u8;
        toggle_screen(&mut self.draft.right_sidebar_screens, screen);
    }

    pub fn open_delete_account_dialog(&mut self)
        requires
            old(self).wf(),
        ensures
            final(self).wf(),
            *final(self) == (SettingsNav {
                delete_account: final(self).delete_account,
                ..*old(self)
            }),
            final(self).delete_account.open,
            final(self).delete_account.status is None,
            !final(self).delete_account.pending,
            final(self).draft == old(self).draft,
    {
        self.delete_account = DeleteAccountStatus { open: true, status: None, pending: false };
    }

    pub fn close_delete_account_dialog(&mut self)
        requires
            old(self).wf(),
        ensures
            final(self).wf(),
            *final(self) == (SettingsNav {
                delete_account: final(self).delete_account,
                ..*old(self)
            }),
            !final(self).delete_account.open,
            final(self).delete_account.status is None,
            !final(self).delete_account.pending,
            final(self).draft == old(self).draft,
    {
        self.delete_account = DeleteAccountStatus { open: false, status: None, pending: false };
    }

    /// Checks the typed confirmation: nothing while a deletion is pending;
    /// a mismatch message when it is not the draft's username; otherwise
    /// the deletion becomes pending and `true` asks for it to be made.
    pub fn submit_delete_account_confirmation(&mut self, typed: &str) -> (r: bool)
        requires
            old(self).wf(),
        ensures
            final(self).wf(),
            *final(self) == (SettingsNav {
                delete_account: final(self).delete_account,
                ..*old(self)
            }),
            r == (!old(self).delete_account.pending && typed@ == old(self).draft.username@),
            old(self).delete_account.pending ==> final(self).delete_account
                == old(self).delete_account,
            !old(self).delete_account.pending && typed@ != old(self).draft.username@ ==> (
            final(self).delete_account.status matches Some(m) && m@ == DELETE_CONFIRM_MISMATCH@
                && !final(self).delete_account.pending),
            r ==> final(self).delete_account.pending && (final(self).delete_account.status matches Some(
                m,
            ) && m@ == "Deleting account..."@),
            final(self).delete_account.open == old(self).delete_account.open,
            final(self).draft == old(self).draft,
    {
        if self.delete_account.pending {
            return false;
        }
        if !str_eq(typed, self.draft.username.as_str()) {
            self.delete_account.status = Some(DELETE_CONFIRM_MISMATCH.to_owned());
            return false;
        }
        self.delete_account.pending = true;
        self.delete_account.status = Some("Deleting account...".to_owned());
        true
    }

    /// After an edit of the confirmation text the old message goes.
    pub fn delete_account_edited(&mut self)
        requires
            old(self).wf(),
        ensures
            final(self).wf(),
            *final(self) == (SettingsNav {
                delete_account: final(self).delete_account,
                ..*old(self)
            }),
            final(self).delete_account.status is None,
            final(self).delete_account.open == old(self).delete_account.open,
            final(self).delete_account.pending == old(self).delete_account.pending,
            final(self).draft == old(self).draft,
    {
        self.delete_account.status = None;
    }

    /// Opens the picker with an empty query at the top of its list.
    pub fn open_picker(&mut self, kind: PickerKind)
        requires
            old(self).wf(),
        ensures
            final(self).wf(),
            *final(self) == (SettingsNav {
                picker: final(self).picker,
                ..*old(self)
            }),
            final(self).picker.kind == Some(kind),
            final(self).picker.query@.len() == 0,
            final(self).picker.selected_index == 0,
            final(self).picker.scroll_offset == 0,
            final(self).picker.visible_height == old(self).picker.visible_height,
            final(self).draft == old(self).draft,
            final(self).picker == (PickerState {
                kind: final(self).picker.kind,
                query: final(self).picker.query,
                selected_index: final(self).picker.selected_index,
                scroll_offset: final(self).picker.scroll_offset,
                ..old(self).picker
            }),
    {
        self.picker.kind = Some(kind);
        self.picker.query = String::new();
        self.picker.selected_index = 0;
        self.picker.scroll_offset = 0;
    }

    pub fn close_picker(&mut self)
        requires
            old(self).wf(),
        ensures
            final(self).wf(),
            *final(self) == (SettingsNav {
                picker: final(self).picker,
                ..*old(self)
            }),
            final(self).picker.kind is None,
            final(self).picker.query@.len() == 0,
            final(self).picker.selected_index == 0,
            final(self).picker.scroll_offset == 0,
            final(self).draft == old(self).draft,
    {
        self.picker = PickerState::closed();
    }

    /// Moves the picker's selection by `delta` within its `len` options,
    /// scrolling just enough to keep it in view.
    pub fn picker_move(&mut self, delta: isize, len: usize)
        requires
            old(self).wf(),
            len <= isize::MAX,
            old(self).picker.selected_index <= isize::MAX,
        ensures
            final(self).wf(),
            *final(self) == (SettingsNav {
                picker: final(self).picker,
                ..*old(self)
            }),
            len == 0 ==> final(self).picker.selected_index == 0 && final(self).picker.scroll_offset
                == 0,
            len > 0 ==> final(self).picker.selected_index == clamp_int(
                old(self).picker.selected_index + delta,
                len - 1,
            ),
            len > 0 ==> final(self).picker.scroll_offset == ({
                let v = if old(self).picker.visible_height > 1 {
                    old(self).picker.visible_height as int
                } else {
                    1
                };
                let sel = final(self).picker.selected_index as int;
                let scroll = old(self).picker.scroll_offset as int;
                if sel < scroll {
                    sel
                } else if sel >= scroll + v {
                    sel - (v - 1)
                } else {
                    scroll
                }
            }),
            final(self).picker.kind == old(self).picker.kind,
            final(self).picker.query == old(self).picker.query,
            final(self).draft == old(self).draft,
            final(self).picker == (PickerState {
                selected_index: final(self).picker.selected_index,
                scroll_offset: final(self).picker.scroll_offset,
                ..old(self).picker
            }),
    {
        if len == 0 {
            self.picker.selected_index = 0;
            self.picker.scroll_offset = 0;
            return;
        }
        self.picker.selected_index = clamp_index(self.picker.selected_index, delta, len - 1);
        let visible = if self.picker.visible_height > 1 {
            self.picker.visible_height
        } else {
            1
        };
        if self.picker.selected_index < self.picker.scroll_offset {
            self.picker.scroll_offset = self.picker.selected_index;
        } else if self.picker.selected_index as u128 >= self.picker.scroll_offset as u128
            + visible as u128 {
            self.picker.scroll_offset = self.picker.selected_index - (visible - 1);
        }
    }

    /// Adds a character to the picker's query and goes back to the top.
    pub fn picker_push(&mut self, ch: char)
        requires
            old(self).wf(),
        ensures
            final(self).wf(),
            *final(self) == (SettingsNav {
                picker: final(self).picker,
                ..*old(self)
            }),
            final(self).picker.query@ == old(self).picker.query@.push(ch),
            final(self).picker.selected_index == 0,
            final(self).picker.scroll_offset == 0,
            final(self).picker.kind == old(self).picker.kind,
            final(self).draft == old(self).draft,
            final(self).picker == (PickerState {
                query: final(self).picker.query,
                selected_index: final(self).picker.selected_index,
                scroll_offset: final(self).picker.scroll_offset,
                ..old(self).picker
            }),
    {
        push_char(&mut self.picker.query, ch);
        self.picker.selected_index = 0;
        self.picker.scroll_offset = 0;
    }

    /// Drops the query's last character (if any) and goes back to the top.
    pub fn picker_backspace(&mut self)
        requires
            old(self).wf(),
        ensures
            final(self).wf(),
            *final(self) == (SettingsNav {
                picker: final(self).picker,
                ..*old(self)
            }),
            final(self).picker.query@ == (if old(self).picker.query@.len() > 0 {
                old(self).picker.query@.drop_last()
            } else {
                old(self).picker.query@
            }),
            final(self).picker.selected_index == 0,
            final(self).picker.scroll_offset == 0,
            final(self).picker.kind == old(self).picker.kind,
            final(self).draft == old(self).draft,
            final(self).picker == (PickerState {
                query: final(self).picker.query,
                selected_index: final(self).picker.selected_index,
                scroll_offset: final(self).picker.scroll_offset,
                ..old(self).picker
            }),
    {
        let q = chars_of(self.picker.query.as_str());
        if q.len() > 0 {
            let mut t = q;
            t.pop();
            self.picker.query = string_of(&t);
        }
        self.picker.selected_index = 0;
        self.picker.scroll_offset = 0;
    }

    /// Stores the picked country code or timezone (`choice` is the option
    /// under the selection, if any) and closes the picker; says whether
    /// the draft changed, and so must be saved.
    #[verifier::rlimit(40)]
    pub fn apply_picker_selection(&mut self, choice: Option<String>) -> (r: bool)
        requires
            old(self).wf(),
        ensures
            final(self).wf(),
            r == (old(self).picker.kind is Some && choice is Some),
            old(self).picker.kind == Some(PickerKind::Country) && choice is Some ==> final(self).draft.country == choice,
            old(self).picker.kind == Some(PickerKind::Timezone) && choice is Some ==> final(self).draft.timezone == choice,
            !(old(self).picker.kind == Some(PickerKind::Country) && choice is Some) ==> final(self).draft.country == old(self).draft.country,
            !(old(self).picker.kind == Some(PickerKind::Timezone) && choice is Some) ==> final(self).draft.timezone == old(self).draft.timezone,
            final(self).picker.kind is None,
            final(self).picker.query@.len() == 0,
            final(self).picker.selected_index == 0,
            final(self).picker.scroll_offset == 0,
            final(self).picker.visible_height == 0,
            *final(self) == (SettingsNav {
                draft: (Profile {
                    country: final(self).draft.country,
                    timezone: final(self).draft.timezone,
                    ..old(self).draft
                }),
                picker: final(self).picker,
                ..*old(self)
            }),
    {
        let mutated = match self.picker.kind {
            Some(PickerKind::Country) => match choice {
                Some(c) => {
                    self.draft.country = Some(c);
                    true
                },
                None => false,
            },
            Some(PickerKind::Timezone) => match choice {
                Some(t) => {
                    self.draft.timezone = Some(t);
                    true
                },
                None => false,
            },
            None => false,
        };
        self.picker = PickerState::closed();
        mutated
    }

    /// Opens the username editor (closing a field editor).
    pub fn start_username_edit(&mut self)
        requires
            old(self).wf(),
        ensures
            final(self).wf(),
            *final(self) == (SettingsNav {
                editing_username: final(self).editing_username,
                editing_system_field: final(self).editing_system_field,
                ..*old(self)
            }),
            final(self).editing_username,
            final(self).editing_system_field is None,
            final(self).draft == old(self).draft,
    {
        self.editing_system_field = None;
        self.editing_username = true;
    }

    pub fn cancel_username_edit(&mut self)
        requires
            old(self).wf(),
        ensures
            final(self).wf(),
            *final(self) == (SettingsNav {
                editing_username: final(self).editing_username,
                ..*old(self)
            }),
            !final(self).editing_username,
            final(self).draft == old(self).draft,
    {
        self.editing_username = false;
    }

    /// Stores the typed username, trimmed and sanitised, and closes the
    /// editor. The draft is then saved.
    pub fn submit_username(&mut self, typed: &str)
        requires
            old(self).wf(),
        ensures
            final(self).wf(),
            !final(self).editing_username,
            final(self).draft.username@ == sanitized_username(trim_ws(typed@)),
            *final(self) == (SettingsNav {
                draft: (Profile { username: final(self).draft.username, ..old(self).draft }),
                editing_username: false,
                ..*old(self)
            }),
    {
        self.editing_username = false;
        let trimmed = string_of(&trim_str(typed));
        self.draft.username = sanitize_username_input(trimmed.as_str());
    }

    /// Opens the editor of `field` (closing the username editor) and gives
    /// the text it starts from.
    pub fn start_system_field_edit(&mut self, field: SystemField) -> (r: Option<String>)
        requires
            old(self).wf(),
        ensures
            final(self).wf(),
            *final(self) == (SettingsNav {
                editing_username: final(self).editing_username,
                editing_system_field: final(self).editing_system_field,
                ..*old(self)
            }),
            !final(self).editing_username,
            final(self).editing_system_field == Some(field),
            final(self).draft == old(self).draft,
            match field {
                SystemField::Ide => r == old(self).draft.ide,
                SystemField::Terminal => r == old(self).draft.terminal,
                SystemField::Os => r == old(self).draft.os,
                SystemField::Langs => if old(self).draft.langs@.len() == 0 {
                    r is None
                } else {
                    r matches Some(t) && t@ == joined(string_views(old(self).draft.langs@))
                },
            },
    {
        self.editing_username = false;
        self.editing_system_field = Some(field);
        field.value(&self.draft)
    }

    pub fn cancel_system_field_edit(&mut self)
        requires
            old(self).wf(),
        ensures
            final(self).wf(),
            *final(self) == (SettingsNav {
                editing_system_field: final(self).editing_system_field,
                ..*old(self)
            }),
            final(self).editing_system_field is None,
            final(self).draft == old(self).draft,
    {
        self.editing_system_field = None;
    }

    /// Stores the typed text in the field being edited and closes its
    /// editor; says whether a field was being edited (then the draft is
    /// saved).
    pub fn submit_system_field(&mut self, typed: String) -> (r: bool)
        requires
            old(self).wf(),
        ensures
            final(self).wf(),
            r == old(self).editing_system_field is Some,
            final(self).editing_system_field is None,
            match old(self).editing_system_field {
                Some(SystemField::Ide) => opt_text(final(self).draft.ide) == optional_text(typed@),
                Some(SystemField::Terminal) => opt_text(final(self).draft.terminal)
                    == optional_text(typed@),
                Some(SystemField::Os) => opt_text(final(self).draft.os) == optional_text(typed@),
                Some(SystemField::Langs) => string_views(final(self).draft.langs@)
                    == normalized_tags(seq![typed@]),
                None => final(self).draft == old(self).draft,
            },
            match old(self).editing_system_field {
                Some(SystemField::Ide) => final(self).draft == (Profile {
                    ide: final(self).draft.ide,
                    ..old(self).draft
                }),
                Some(SystemField::Terminal) => final(self).draft == (Profile {
                    terminal: final(self).draft.terminal,
                    ..old(self).draft
                }),
                Some(SystemField::Os) => final(self).draft == (Profile {
                    os: final(self).draft.os,
                    ..old(self).draft
                }),
                Some(SystemField::Langs) => final(self).draft == (Profile {
                    langs: final(self).draft.langs,
                    ..old(self).draft
                }),
                None => true,
            },
            *final(self) == (SettingsNav {
                draft: final(self).draft,
                editing_system_field: None,
                ..*old(self)
            }),
    {
        let field = match self.editing_system_field {
            Some(f) => f,
            None => {
                return false;
            },
        };
        self.editing_system_field = None;
        field.set_value(&mut self.draft, typed);
        true
    }

    pub fn start_bio_edit(&mut self)
        requires
            old(self).wf(),
        ensures
            final(self).wf(),
            *final(self) == (SettingsNav {
                editing_bio: final(self).editing_bio,
                ..*old(self)
            }),
            final(self).editing_bio,
            final(self).draft == old(self).draft,
    {
        self.editing_bio = true;
    }

    /// Ends the bio edit, storing the typed bio without trailing
    /// whitespace. The draft is then saved.
    pub fn stop_bio_edit(&mut self, typed: &str)
        requires
            old(self).wf(),
        ensures
            final(self).wf(),
            !final(self).editing_bio,
            final(self).draft.bio@ == trim_end_ws(typed@),
            *final(self) == (SettingsNav {
                draft: (Profile { bio: final(self).draft.bio, ..old(self).draft }),
                editing_bio: false,
                ..*old(self)
            }),
    {
        self.editing_bio = false;
        self.draft.bio = string_of(&trim_end_whitespace(&chars_of(typed)));
    }

    /// Moves the feed cursor by `delta` over the `feed_count` feeds and the
    /// add row after them.
    pub fn move_feed_cursor(&mut self, delta: isize, feed_count: usize)
        requires
            old(self).wf(),
            feed_count < isize::MAX,
            old(self).feed_index <= isize::MAX,
        ensures
            final(self).wf(),
            *final(self) == (SettingsNav {
                feed_index: final(self).feed_index,
                ..*old(self)
            }),
            final(self).feed_index == clamp_int(old(self).feed_index + delta, feed_count as int),
            final(self).draft == old(self).draft,
    {
        self.feed_index = clamp_index(self.feed_index, delta, feed_count);
    }

    /// Rows of the feed list: one per feed and the add row.
    pub fn feed_slot_count(feed_count: usize) -> (r: usize)
        requires
            feed_count < usize::MAX,
        ensures
            r == feed_count + 1,
    {
        feed_count + 1
    }

    /// Whether the feed cursor is on the add row.
    pub fn feed_index_is_add_row(&self, feed_count: usize) -> (r: bool)
        ensures
            r == (self.feed_index == feed_count),
    {
        self.feed_index == feed_count
    }

    /// Keeps the feed cursor on the list after it changed to `feed_count`
    /// feeds.
    pub fn feeds_changed(&mut self, feed_count: usize)
        requires
            old(self).wf(),
        ensures
            final(self).wf(),
            *final(self) == (SettingsNav {
                feed_index: final(self).feed_index,
                ..*old(self)
            }),
            final(self).feed_index == (if old(self).feed_index < feed_count {
                old(self).feed_index
            } else {
                feed_count
            }),
            final(self).draft == old(self).draft,
    {
        if self.feed_index > feed_count {
            self.feed_index = feed_count;
        }
    }

    pub fn start_feed_url_edit(&mut self)
        requires
            old(self).wf(),
        ensures
            final(self).wf(),
            *final(self) == (SettingsNav {
                editing_feed_url: final(self).editing_feed_url,
                ..*old(self)
            }),
            final(self).editing_feed_url,
            final(self).draft == old(self).draft,
    {
        self.editing_feed_url = true;
    }

    pub fn cancel_feed_url_edit(&mut self)
        requires
            old(self).wf(),
        ensures
            final(self).wf(),
            *final(self) == (SettingsNav {
                editing_feed_url: final(self).editing_feed_url,
                ..*old(self)
            }),
            !final(self).editing_feed_url,
            final(self).draft == old(self).draft,
    {
        self.editing_feed_url = false;
    }

    /// Closes the feed URL editor and gives the trimmed URL to add, if any.
    pub fn submit_feed_url(&mut self, typed: &str) -> (r: Option<String>)
        requires
            old(self).wf(),
        ensures
            final(self).wf(),
            *final(self) == (SettingsNav {
                editing_feed_url: final(self).editing_feed_url,
                ..*old(self)
            }),
            !final(self).editing_feed_url,
            match r {
                Some(u) => u@ == trim_ws(typed@) && u@.len() > 0,
                None => trim_ws(typed@).len() == 0,
            },
            final(self).draft == old(self).draft,
    {
        let url = trim_str(typed);
        self.editing_feed_url = false;
        if url.len() == 0 {
            None
        } else {
            Some(string_of(&url))
        }
    }

    /// Cycles the value of the selected row; says whether the draft changed
    /// (then it is saved). Toggles flip, the sidebar mode steps through
    /// On, Off and Custom (the sidebar shows unless Off), notification
    /// kinds switch on or off, the cooldown and the format step through
    /// their choices, and the theme becomes `next_theme_id`, the catalog's
    /// neighbour of the draft's theme. Rows that open an editor or a
    /// picker do not cycle.
    #[verifier::rlimit(60)]
    pub fn cycle_setting(&mut self, forward: bool, next_theme_id: &str) -> (r: bool)
        requires
            old(self).wf(),
        ensures
            final(self).wf(),
            *final(self) == (SettingsNav { draft: final(self).draft, ..*old(self) }),
            match row_at(old(self).row_index as int) {
                Row::Theme => r && (final(self).draft.theme_id matches Some(t) && t@
                    == next_theme_id@) && final(self).draft == (Profile {
                    theme_id: final(self).draft.theme_id,
                    ..old(self).draft
                }),
                Row::BackgroundColor => r && final(self).draft == (Profile {
                    enable_background_color: !old(self).draft.enable_background_color,
                    ..old(self).draft
                }),
                Row::RightSidebar => r && final(self).draft == (Profile {
                    right_sidebar_mode: cycled(old(self).draft.right_sidebar_mode, forward),
                    show_right_sidebar: cycled(old(self).draft.right_sidebar_mode, forward)
                        != RightSidebarMode::Off,
                    ..old(self).draft
                }),
                Row::RoomListSidebar => r && final(self).draft == (Profile {
                    show_room_list_sidebar: !old(self).draft.show_room_list_sidebar,
                    ..old(self).draft
                }),
                Row::LoungeInfo => r && final(self).draft == (Profile {
                    show_dashboard_header: !old(self).draft.show_dashboard_header,
                    ..old(self).draft
                }),
                Row::WireBox => r && final(self).draft == (Profile {
                    show_dashboard_wire: !old(self).draft.show_dashboard_wire,
                    ..old(self).draft
                }),
                Row::DirectMessages => r && kind_toggled(
                    old(self).draft.notify_kinds@,
                    final(self).draft.notify_kinds@,
                    "dms"@,
                ) && final(self).draft == (Profile {
                    notify_kinds: final(self).draft.notify_kinds,
                    ..old(self).draft
                }),
                Row::Mentions => r && kind_toggled(
                    old(self).draft.notify_kinds@,
                    final(self).draft.notify_kinds@,
                    "mentions"@,
                ) && final(self).draft == (Profile {
                    notify_kinds: final(self).draft.notify_kinds,
                    ..old(self).draft
                }),
                Row::GameEvents => r && kind_toggled(
                    old(self).draft.notify_kinds@,
                    final(self).draft.notify_kinds@,
                    "game_events"@,
                ) && final(self).draft == (Profile {
                    notify_kinds: final(self).draft.notify_kinds,
                    ..old(self).draft
                }),
                Row::Bell => r && final(self).draft == (Profile {
                    notify_bell: !old(self).draft.notify_bell,
                    ..old(self).draft
                }),
                Row::Cooldown => r && final(self).draft == (Profile {
                    notify_cooldown_mins: cooldown_options()[(if forward {
                        cooldown_index(old(self).draft.notify_cooldown_mins) + 1
                    } else {
                        cooldown_index(old(self).draft.notify_cooldown_mins) + 9
                    }) % 10],
                    ..old(self).draft
                }),
                Row::NotifyFormat => r && (final(self).draft.notify_format matches Some(f) && f@
                    == notify_formats()[(if forward {
                    format_index(opt_text(old(self).draft.notify_format)) + 1
                } else {
                    format_index(opt_text(old(self).draft.notify_format)) + 2
                }) % 3]) && final(self).draft == (Profile {
                    notify_format: final(self).draft.notify_format,
                    ..old(self).draft
                }),
                _ => !r && final(self).draft == old(self).draft,
            },
    {
        let row = self.selected_row();
        match row {
            Row::Theme => {
                self.draft.theme_id = Some(next_theme_id.to_owned());
                true
            },
            Row::BackgroundColor => {
                self.draft.enable_background_color = !self.draft.enable_background_color;
                true
            },
            Row::RightSidebar => {
                self.draft.right_sidebar_mode = self.draft.right_sidebar_mode.cycle(forward);
                self.draft.show_right_sidebar = self.draft.right_sidebar_mode
                    != RightSidebarMode::Off;
                true
            },
            Row::RoomListSidebar => {
                self.draft.show_room_list_sidebar = !self.draft.show_room_list_sidebar;
                true
            },
            Row::LoungeInfo => {
                self.draft.show_dashboard_header = !self.draft.show_dashboard_header;
                true
            },
            Row::WireBox => {
                self.draft.show_dashboard_wire = !self.draft.show_dashboard_wire;
                true
            },
            Row::DirectMessages => {
                toggle_kind(&mut self.draft.notify_kinds, "dms");
                true
            },
            Row::Mentions => {
                toggle_kind(&mut self.draft.notify_kinds, "mentions");
                true
            },
            Row::GameEvents => {
                toggle_kind(&mut self.draft.notify_kinds, "game_events");
                true
            },
            Row::Bell => {
                self.draft.notify_bell = !self.draft.notify_bell;
                true
            },
            Row::Cooldown => {
                self.draft.notify_cooldown_mins = cycle_cooldown_value(
                    self.draft.notify_cooldown_mins,
                    forward,
                );
                true
            },
            Row::NotifyFormat => {
                let current = match &self.draft.notify_format {
                    Some(f) => Some(f.as_str()),
                    None => None,
                };
                let next = cycle_notify_format(current, forward);
                self.draft.notify_format = Some(next.to_owned());
                true
            },
            _ => false,
        }
    }

    /// What saving the draft submits; the theme falls back to
    /// `default_theme_id` when the draft has none.
    pub fn params(&self, default_theme_id: &str) -> (r: ProfileParams)
        ensures
            params_of(self.draft, r, default_theme_id@),
    {
        profile_params_from_profile(&self.draft, default_theme_id)
    }
}

/// Whether `new` is `old` with `kind` switched: its first occurrence
/// removed, or appended when absent.
pub open spec fn kind_toggled(old: Seq<String>, new: Seq<String>, kind: Seq<char>) -> bool {
    if exists|i: int| 0 <= i < old.len() && old[i]@ == kind {
        let i = choose|i: int|
            0 <= i < old.len() && old[i]@ == kind && forall|j: int| 0 <= j < i ==> old[j]@ != kind;
        new == old.remove(i)
    } else {
        new.len() == old.len() + 1 && new.drop_last() == old && new.last()@ == kind
    }
}

/// Ascending, each value once.
pub open spec fn sorted_unique(s: Seq<u8>) -> bool {
    forall|i: int, j: int| 0 <= i < j < s.len() ==> s[i] < s[j]
}

/// Ascending, repeats allowed.
pub open spec fn ascending(s: Seq<u8>) -> bool {
    forall|i: int, j: int| 0 <= i < j < s.len() ==> s[i] <= s[j]
}

/// How many times `v` occurs in `s`.
pub open spec fn occurrences(s: Seq<u8>, v: u8) -> nat
    decreases s.len(),
{
    if s.len() == 0 {
        0
    } else {
        occurrences(s.drop_last(), v) + if s.last() == v {
            1nat
        } else {
            0nat
        }
    }
}

/// The first index of `v` in `s` from `i` on.
pub open spec fn first_index_of(s: Seq<u8>, v: u8, i: int) -> Option<int>
    decreases s.len() - i,
{
    if i < 0 || i >= s.len() {
        None
    } else if s[i] == v {
        Some(i)
    } else {
        first_index_of(s, v, i + 1)
    }
}

/// What toggling `screen` makes of `old`: its first occurrence removed,
/// or, when it has none, `screen` added and the whole list sorted.
pub open spec fn toggled_screens(old: Seq<u8>, screen: u8, new: Seq<u8>) -> bool {
    match first_index_of(old, screen, 0) {
        Some(k) => new == old.remove(k),
        None => ascending(new) && forall|v: u8|
            #[trigger] occurrences(new, v) == occurrences(old, v) + if v == screen {
                1nat
            } else {
                0nat
            },
    }
}

proof fn lemma_occurrences_push(s: Seq<u8>, x: u8, v: u8)
    ensures
        occurrences(s.push(x), v) == occurrences(s, v) + if x == v {
            1nat
        } else {
            0nat
        },
{
    assert(s.push(x).drop_last() =~= s);
}

proof fn lemma_occurrences_contains(s: Seq<u8>, v: u8)
    ensures
        occurrences(s, v) > 0 <==> s.contains(v),
        occurrences(s, v) <= s.len(),
    decreases s.len(),
{
    if s.len() > 0 {
        lemma_occurrences_contains(s.drop_last(), v);
        if s.drop_last().contains(v) {
            let j = choose|j: int| 0 <= j < s.drop_last().len() && s.drop_last()[j] == v;
            assert(s[j] == v);
        }
        if s.contains(v) && s.last() != v {
            let j = choose|j: int| 0 <= j < s.len() && s[j] == v;
            assert(s.drop_last()[j] == v);
        }
        if s.last() == v {
            assert(s[s.len() - 1] == v);
        }
    }
}

proof fn lemma_occurrences_repeat(s: Seq<u8>, i: int, j: int)
    requires
        0 <= i < j < s.len(),
        s[i] == s[j],
    ensures
        occurrences(s, s[i]) >= 2,
    decreases s.len(),
{
    let d = s.drop_last();
    if j == s.len() - 1 {
        assert(d[i] == s[i]);
        lemma_occurrences_contains(d, s[i]);
    } else {
        assert(d[i] == s[i] && d[j] == s[j]);
        lemma_occurrences_repeat(d, i, j);
    }
}

proof fn lemma_sorted_unique_once(s: Seq<u8>, v: u8)
    requires
        sorted_unique(s),
    ensures
        occurrences(s, v) <= 1,
    decreases s.len(),
{
    if s.len() > 0 {
        let d = s.drop_last();
        lemma_sorted_unique_once(d, v);
        if s.last() == v {
            lemma_occurrences_contains(d, v);
            if d.contains(v) {
                let j = choose|j: int| 0 <= j < d.len() && d[j] == v;
                assert(s[j] < s[s.len() - 1]);
            }
        }
    }
}

proof fn lemma_first_index_of(s: Seq<u8>, v: u8, i: int)
    requires
        0 <= i,
    ensures
        first_index_of(s, v, i) matches Some(k) ==> i <= k < s.len() && s[k] == v && forall|j: int|
            i <= j < k ==> s[j] != v,
        first_index_of(s, v, i) is None ==> forall|j: int| i <= j < s.len() ==> s[j] != v,
    decreases s.len() - i,
{
    if i < s.len() && s[i] != v {
        lemma_first_index_of(s, v, i + 1);
    }
}

/// `screens` with `screen` added, sorted (a counting sort: screens are
/// bytes).
fn sorted_with(screens: &Vec<u8>, screen: u8) -> (r: Vec<u8>)
    requires
        !screens@.contains(screen),
    ensures
        ascending(r@),
        forall|v: u8|
            #[trigger] occurrences(r@, v) == occurrences(screens@, v) + if v == screen {
                1nat
            } else {
                0nat
            },
{
    let mut counts: Vec<usize> = Vec::new();
    while counts.len() < 256
        invariant
            counts@.len() <= 256,
            forall|w: int| 0 <= w < counts@.len() ==> counts@[w] == 0,
        decreases 256 - counts@.len(),
    {
        counts.push(0);
    }
    let mut i: usize = 0;
    while i < screens.len()
        invariant
            i <= screens@.len(),
            counts@.len() == 256,
            forall|w: u8| #[trigger] counts@[w as int] == occurrences(screens@.take(i as int), w),
        decreases screens@.len() - i,
    {
        let x = screens[i];
        proof {
            assert(screens@.take(i + 1) =~= screens@.take(i as int).push(x));
            lemma_occurrences_contains(screens@.take(i as int), x);
            assert forall|w: u8| occurrences(screens@.take(i + 1), w) == occurrences(
                screens@.take(i as int),
                w,
            ) + if x == w {
                1nat
            } else {
                0nat
            } by {
                lemma_occurrences_push(screens@.take(i as int), x, w);
            }
        }
        let c = counts[x as usize];
        counts.set(x as usize, c + 1);
        proof {
            assert forall|w: u8| #[trigger] counts@[w as int] == occurrences(
                screens@.take(i + 1),
                w,
            ) by {
                if w != x {
                    assert(w as int != x as int);
                }
            }
        }
        i = i + 1;
    }
    assert(screens@.take(screens@.len() as int) =~= screens@);
    proof {
        lemma_occurrences_contains(screens@, screen);
    }
    let c = counts[screen as usize];
    counts.set(screen as usize, c + 1);
    assert forall|w: u8| #[trigger] counts@[w as int] == occurrences(screens@, w) + if w == screen {
        1nat
    } else {
        0nat
    } by {
        if w != screen {
            assert(w as int != screen as int);
        }
    }
    let mut r: Vec<u8> = Vec::new();
    let mut v: usize = 0;
    while v < 256
        invariant
            v <= 256,
            counts@.len() == 256,
            ascending(r@),
            forall|k: int| 0 <= k < r@.len() ==> (r@[k] as int) < v,
            forall|w: u8|
                #[trigger] occurrences(r@, w) == if (w as int) < v {
                    counts@[w as int] as nat
                } else {
                    0nat
                },
        decreases 256 - v,
    {
        let n = counts[v];
        let mut c: usize = 0;
        while c < n
            invariant
                v < 256,
                c <= n,
                ascending(r@),
                forall|k: int| 0 <= k < r@.len() ==> (r@[k] as int) <= v,
                forall|w: u8|
                    #[trigger] occurrences(r@, w) == if (w as int) < v {
                        counts@[w as int] as nat
                    } else if w as int == v {
                        c as nat
                    } else {
                        0nat
                    },
            decreases n - c,
        {
            let ghost before = r@;
            r.push(v as u8);
            proof {
                assert forall|w: u8| #[trigger] occurrences(r@, w) == occurrences(before, w) + if (
                v as u8) == w {
                    1nat
                } else {
                    0nat
                } by {
                    lemma_occurrences_push(before, v as u8, w);
                }
                assert forall|a: int, b: int| 0 <= a < b < r@.len() implies r@[a] <= r@[b] by {
                    if b == before.len() {
                        assert(before[a] as int <= v);
                    }
                }
            }
            c = c + 1;
        }
        v = v + 1;
    }
    proof {
        assert forall|w: u8| #[trigger] occurrences(r@, w) == occurrences(screens@, w) + if w
            == screen {
            1nat
        } else {
            0nat
        } by {
            assert((w as int) < 256);
        }
    }
    r
}

/// Toggles `screen` in the list: removes its first occurrence, or adds it
/// and sorts the list. On an ascending list without repeats this shows or
/// hides exactly that screen and keeps the list ascending without repeats.
pub fn toggle_screen(screens: &mut Vec<u8>, screen: u8)
    ensures
        toggled_screens(old(screens)@, screen, final(screens)@),
        sorted_unique(old(screens)@) ==> sorted_unique(final(screens)@),
        sorted_unique(old(screens)@) ==> forall|k: u8|
            #[trigger] final(screens)@.contains(k) == (if k == screen {
                !old(screens)@.contains(k)
            } else {
                old(screens)@.contains(k)
            }),
{
    let ghost before = screens@;
    let mut i: usize = 0;
    while i < screens.len() && screens[i] != screen
        invariant
            screens@ == before,
            i <= screens@.len(),
            first_index_of(before, screen, 0) == first_index_of(before, screen, i as int),
        decreases screens@.len() - i,
    {
        i = i + 1;
    }
    proof {
        lemma_first_index_of(before, screen, 0);
    }
    if i < screens.len() {
        screens.remove(i);
        proof {
            assert(first_index_of(before, screen, i as int) == Some(i as int));
            if sorted_unique(before) {
                assert forall|a: int, b: int| 0 <= a < b < screens@.len() implies screens@[a]
                    < screens@[b] by {
                    if a >= i {
                        assert(screens@[a] == before[a + 1]);
                    }
                    if b >= i {
                        assert(screens@[b] == before[b + 1]);
                    }
                }
                assert forall|k: u8| #[trigger] screens@.contains(k) == (if k == screen {
                    !before.contains(k)
                } else {
                    before.contains(k)
                }) by {
                    if screens@.contains(k) {
                        let j = choose|j: int| 0 <= j < screens@.len() && screens@[j] == k;
                        if j < i {
                            assert(before[j] == k);
                        } else {
                            assert(before[j + 1] == k);
                        }
                        if k == screen {
                            if j < i {
                                assert(before[j] != screen);
                            } else {
                                assert(before[i as int] < before[j + 1]);
                            }
                        }
                    }
                    if k != screen && before.contains(k) {
                        let j = choose|j: int| 0 <= j < before.len() && before[j] == k;
                        if j < i {
                            assert(screens@[j] == k);
                        } else {
                            assert(j != i);
                            assert(screens@[j - 1] == k);
                        }
                    }
                    if k == screen {
                        assert(before[i as int] == screen);
                    }
                }
            }
        }
    } else {
        proof {
            assert(first_index_of(before, screen, 0) is None);
            assert(!before.contains(screen));
        }
        let sorted = sorted_with(screens, screen);
        *screens = sorted;
        proof {
            if sorted_unique(before) {
                assert forall|k: u8| #[trigger] screens@.contains(k) == (if k == screen {
                    !before.contains(k)
                } else {
                    before.contains(k)
                }) by {
                    lemma_occurrences_contains(screens@, k);
                    lemma_occurrences_contains(before, k);
                }
                assert forall|a: int, b: int| 0 <= a < b < screens@.len() implies screens@[a]
                    < screens@[b] by {
                    if screens@[a] == screens@[b] {
                        lemma_occurrences_repeat(screens@, a, b);
                        let w = screens@[a];
                        lemma_sorted_unique_once(before, w);
                        lemma_occurrences_contains(before, w);
                        assert(occurrences(screens@, w) == occurrences(before, w) + if w == screen {
                            1nat
                        } else {
                            0nat
                        });
                    }
                }
            }
        }
    }
}

/// Whether `p` submits `draft` as it stands, the theme falling back to
/// `default_theme`.
pub open spec fn params_of(draft: Profile, p: ProfileParams, default_theme: Seq<char>) -> bool {
    &&& p.username == draft.username
    &&& p.bio == draft.bio
    &&& p.country == draft.country
    &&& p.timezone == draft.timezone
    &&& p.ide == draft.ide
    &&& p.terminal == draft.terminal
    &&& p.os == draft.os
    &&& p.langs@ == draft.langs@
    &&& p.notify_kinds@ == draft.notify_kinds@
    &&& p.notify_bell == draft.notify_bell
    &&& p.notify_cooldown_mins == draft.notify_cooldown_mins
    &&& p.notify_format == draft.notify_format
    &&& (p.theme_id matches Some(t) && t@ == match draft.theme_id {
        Some(d) => d@,
        None => default_theme,
    })
    &&& p.enable_background_color == draft.enable_background_color
    &&& p.show_dashboard_header == draft.show_dashboard_header
    &&& p.show_dashboard_wire == draft.show_dashboard_wire
    &&& p.show_right_sidebar == draft.show_right_sidebar
    &&& p.right_sidebar_mode == draft.right_sidebar_mode
    &&& p.right_sidebar_screens@ == draft.right_sidebar_screens@
    &&& p.show_room_list_sidebar == draft.show_room_list_sidebar
    &&& p.show_settings_on_connect == draft.show_settings_on_connect
    &&& p.profile_theming == draft.profile_theming
    &&& p.favorite_room_ids@ == draft.favorite_room_ids@
}

fn clone_strings(v: &Vec<String>) -> (r: Vec<String>)
    ensures
        r@ == v@,
{
    let mut r: Vec<String> = Vec::new();
    let mut i: usize = 0;
    while i < v.len()
        invariant
            i <= v@.len(),
            r@ == v@.take(i as int),
        decreases v@.len() - i,
    {
        r.push(v[i].clone());
        i = i + 1;
        assert(r@ =~= v@.take(i as int));
    }
    assert(v@.take(v@.len() as int) =~= v@);
    r
}

fn clone_opt(o: &Option<String>) -> (r: Option<String>)
    ensures
        r == *o,
{
    match o {
        Some(s) => Some(s.clone()),
        None => None,
    }
}

fn clone_u8s(v: &Vec<u8>) -> (r: Vec<u8>)
    ensures
        r@ == v@,
{
    let mut r: Vec<u8> = Vec::new();
    let mut i: usize = 0;
    while i < v.len()
        invariant
            i <= v@.len(),
            r@ == v@.take(i as int),
        decreases v@.len() - i,
    {
        r.push(v[i]);
        i = i + 1;
        assert(r@ =~= v@.take(i as int));
    }
    assert(v@.take(v@.len() as int) =~= v@);
    r
}

fn clone_ids(v: &Vec<u128>) -> (r: Vec<u128>)
    ensures
        r@ == v@,
{
    let mut r: Vec<u128> = Vec::new();
    let mut i: usize = 0;
    while i < v.len()
        invariant
            i <= v@.len(),
            r@ == v@.take(i as int),
        decreases v@.len() - i,
    {
        r.push(v[i]);
        i = i + 1;
        assert(r@ =~= v@.take(i as int));
    }
    assert(v@.take(v@.len() as int) =~= v@);
    r
}

/// What saving `profile` submits: every field as it stands, the theme
/// falling back to `default_theme_id`.
pub fn profile_params_from_profile(profile: &Profile, default_theme_id: &str) -> (r: ProfileParams)
    ensures
        params_of(*profile, r, default_theme_id@),
{
    ProfileParams {
        username: profile.username.clone(),
        bio: profile.bio.clone(),
        country: clone_opt(&profile.country),
        timezone: clone_opt(&profile.timezone),
        ide: clone_opt(&profile.ide),
        terminal: clone_opt(&profile.terminal),
        os: clone_opt(&profile.os),
        langs: clone_strings(&profile.langs),
        notify_kinds: clone_strings(&profile.notify_kinds),
        notify_bell: profile.notify_bell,
        notify_cooldown_mins: profile.notify_cooldown_mins,
        notify_format: clone_opt(&profile.notify_format),
        theme_id: Some(
            match &profile.theme_id {
                Some(t) => t.clone(),
                None => default_theme_id.to_owned(),
            },
        ),
        enable_background_color: profile.enable_background_color,
        show_dashboard_header: profile.show_dashboard_header,
        show_dashboard_wire: profile.show_dashboard_wire,
        show_right_sidebar: profile.show_right_sidebar,
        right_sidebar_mode: profile.right_sidebar_mode,
        right_sidebar_screens: clone_u8s(&profile.right_sidebar_screens),
        show_room_list_sidebar: profile.show_room_list_sidebar,
        show_settings_on_connect: profile.show_settings_on_connect,
        profile_theming: profile.profile_theming,
        favorite_room_ids: clone_ids(&profile.favorite_room_ids),
    }
}

} // verus!
