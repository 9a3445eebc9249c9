//! A user's profile: the preferences the settings modal shows and edits,
//! read out of the settings document, and the normalised values that an
//! update writes back.

use vstd::prelude::*;

use crate::ids::{uuid_parse, uuid_string, uuid_text};
use crate::json::{field_str, JsonValue};
use crate::prefs::{
    all_screens_vec, extract_bio, extract_country, extract_enable_background_color,
    extract_favorite_room_ids, extract_ide, extract_langs, extract_notify_bell,
    extract_notify_cooldown_mins, extract_notify_format, extract_notify_kinds, extract_os,
    extract_profile_theming, extract_right_sidebar_mode, extract_right_sidebar_screens,
    extract_show_dashboard_header, extract_show_dashboard_wire, extract_show_right_sidebar,
    extract_show_room_list_sidebar, extract_show_settings_on_connect, extract_terminal,
    extract_theme_id, extract_timezone, is_notify_format, raw_langs, stored_bio, stored_country,
    stored_enable_background_color, stored_favorite_room_ids, stored_notify_bell,
    stored_notify_cooldown_mins, stored_notify_format, stored_notify_kinds,
    stored_profile_theming, stored_right_sidebar_mode, stored_right_sidebar_screens,
    stored_show_dashboard_header, stored_show_dashboard_wire, stored_show_right_sidebar,
    stored_show_room_list_sidebar, stored_show_settings_on_connect, stored_theme_id,
    trimmed_text, trimmed_text_of,
};
use crate::tags::{normalize_profile_tags, normalized_tags, string_views};
use crate::text::{
    chars_of, lemma_trim_noop_literal, opt_view, string_of, trim_str, trim_ws, upper_seq,
    upper_vec, vec_chars_eq,
};
use crate::user::{RightSidebarMode, User};

verus! {

/// What the settings modal shows of a user. `created_at` is microseconds
/// since the Unix epoch; room ids are UUIDs held as `u128`.
#[derive(Clone, Debug)]
pub struct Profile {
    pub created_at: Option<i64>,
    pub username: String,
    pub bio: String,
    pub country: Option<String>,
    pub timezone: Option<String>,
    pub ide: Option<String>,
    pub terminal: Option<String>,
    pub os: Option<String>,
    pub langs: Vec<String>,
    pub notify_kinds: Vec<String>,
    pub notify_bell: bool,
    pub notify_cooldown_mins: i32,
    /// One of `"both"`, `"osc777"`, `"osc9"`. `None` falls back to `"both"`.
    pub notify_format: Option<String>,
    pub theme_id: Option<String>,
    pub enable_background_color: bool,
    /// Controls the general-room lounge top info boxes.
    pub show_dashboard_header: bool,
    /// Controls the general-room dashboard wire strip.
    pub show_dashboard_wire: bool,
    pub show_right_sidebar: bool,
    pub right_sidebar_mode: RightSidebarMode,
    /// Per-screen visibility when `right_sidebar_mode == Custom`. Each entry is
    /// a 1-based screen index in `1..=RIGHT_SIDEBAR_SCREEN_COUNT`
    /// (Dashboard=1, Arcade=2, Rooms=3, Artboard=4).
    pub right_sidebar_screens: Vec<u8>,
    pub show_room_list_sidebar: bool,
    /// When false, the settings modal is not auto-opened on connect.
    pub show_settings_on_connect: bool,
    /// When true, other users' profile modals are rendered in the profile owner's theme colours.
    pub profile_theming: bool,
    /// Ordered list of room ids pinned to the dashboard quick-switch strip.
    pub favorite_room_ids: Vec<u128>,
}

/// The profile a user starts with: nothing filled in, every panel shown,
/// the sidebar on for all four screens, no notifications.
pub open spec fn is_default_profile(r: Profile) -> bool {
    &&& r.created_at is None
    &&& r.username@.len() == 0
    &&& r.bio@.len() == 0
    &&& r.country is None
    &&& r.timezone is None
    &&& r.ide is None
    &&& r.terminal is None
    &&& r.os is None
    &&& r.langs@.len() == 0
    &&& r.notify_kinds@.len() == 0
    &&& !r.notify_bell
    &&& r.notify_cooldown_mins == 0
    &&& r.notify_format is None
    &&& r.theme_id is None
    &&& r.enable_background_color
    &&& r.show_dashboard_header
    &&& r.show_dashboard_wire
    &&& r.show_right_sidebar
    &&& r.right_sidebar_mode == RightSidebarMode::On
    &&& r.right_sidebar_screens@ == seq![1u8, 2u8, 3u8, 4u8]
    &&& r.show_room_list_sidebar
    &&& r.show_settings_on_connect
    &&& !r.profile_theming
    &&& r.favorite_room_ids@.len() == 0
}

impl Default for Profile {
    fn default() -> (r: Self)
        ensures
            r.created_at is None,
            r.username@.len() == 0,
            r.bio@.len() == 0,
            r.country is None,
            r.timezone is None,
            r.ide is None,
            r.terminal is None,
            r.os is None,
            r.langs@.len() == 0,
            r.notify_kinds@.len() == 0,
            !r.notify_bell,
            r.notify_cooldown_mins == 0,
            r.notify_format is None,
            r.theme_id is None,
            r.enable_background_color,
            r.show_dashboard_header,
            r.show_dashboard_wire,
            r.show_right_sidebar,
            r.right_sidebar_mode == RightSidebarMode::On,
            r.right_sidebar_screens@ == seq![1u8, 2u8, 3u8, 4u8],
            r.show_room_list_sidebar,
            r.show_settings_on_connect,
            !r.profile_theming,
            r.favorite_room_ids@.len() == 0,
    {
        Profile {
            created_at: None,
            username: String::new(),
            bio: String::new(),
            country: None,
            timezone: None,
            ide: None,
            terminal: None,
            os: None,
            langs: Vec::new(),
            notify_kinds: Vec::new(),
            notify_bell: false,
            notify_cooldown_mins: 0,
            notify_format: None,
            theme_id: None,
            enable_background_color: true,
            show_dashboard_header: true,
            show_dashboard_wire: true,
            show_right_sidebar: true,
            right_sidebar_mode: RightSidebarMode::On,
            right_sidebar_screens: all_screens_vec(),
            show_room_list_sidebar: true,
            show_settings_on_connect: true,
            profile_theming: false,
            favorite_room_ids: Vec::new(),
        }
    }
}

/// What the settings modal submits.
#[derive(Clone, Debug)]
pub struct ProfileParams {
    pub username: String,
    pub bio: String,
    pub country: Option<String>,
    pub timezone: Option<String>,
    pub ide: Option<String>,
    pub terminal: Option<String>,
    pub os: Option<String>,
    pub langs: Vec<String>,
    pub notify_kinds: Vec<String>,
    pub notify_bell: bool,
    pub notify_cooldown_mins: i32,
    pub notify_format: Option<String>,
    pub theme_id: Option<String>,
    pub enable_background_color: bool,
    pub show_dashboard_header: bool,
    pub show_dashboard_wire: bool,
    pub show_right_sidebar: bool,
    pub right_sidebar_mode: RightSidebarMode,
    pub right_sidebar_screens: Vec<u8>,
    pub show_room_list_sidebar: bool,
    pub show_settings_on_connect: bool,
    pub profile_theming: bool,
    pub favorite_room_ids: Vec<u128>,
}

/// Whether `p` holds exactly what the settings document `s` stores, each
/// field read with its documented default.
pub open spec fn reads_settings(p: Profile, s: JsonValue) -> bool {
    &&& p.bio@ == stored_bio(s)
    &&& opt_view(p.country) == stored_country(s)
    &&& opt_view(p.timezone) == trimmed_text(field_str(s, "timezone"@))
    &&& opt_view(p.ide) == trimmed_text(field_str(s, "ide"@))
    &&& opt_view(p.terminal) == trimmed_text(field_str(s, "terminal"@))
    &&& opt_view(p.os) == trimmed_text(field_str(s, "os"@))
    &&& string_views(p.langs@) == normalized_tags(raw_langs(s))
    &&& string_views(p.notify_kinds@) == stored_notify_kinds(s)
    &&& p.notify_bell == stored_notify_bell(s)
    &&& p.notify_cooldown_mins == stored_notify_cooldown_mins(s)
    &&& opt_view(p.notify_format) == stored_notify_format(s)
    &&& opt_view(p.theme_id) == stored_theme_id(s)
    &&& p.enable_background_color == stored_enable_background_color(s)
    &&& p.show_dashboard_header == stored_show_dashboard_header(s)
    &&& p.show_dashboard_wire == stored_show_dashboard_wire(s)
    &&& p.show_right_sidebar == stored_show_right_sidebar(s)
    &&& p.right_sidebar_mode == stored_right_sidebar_mode(s)
    &&& p.right_sidebar_screens@ == stored_right_sidebar_screens(s)
    &&& p.show_room_list_sidebar == stored_show_room_list_sidebar(s)
    &&& p.show_settings_on_connect == stored_show_settings_on_connect(s)
    &&& p.profile_theming == stored_profile_theming(s)
    &&& p.favorite_room_ids@ == stored_favorite_room_ids(s)
}

impl Profile {
    /// The profile of a `users` row: its creation time, its name, and every
    /// preference read out of its settings document.
    pub fn from_user(user: &User) -> (r: Profile)
        ensures
            r.created_at == Some(user.created),
            r.username@ == user.username@,
            reads_settings(r, user.settings),
    {
        let s = &user.settings;
        Profile {
            created_at: Some(user.created),
            username: string_of(&chars_of(user.username.as_str())),
            bio: extract_bio(s),
            country: extract_country(s),
            timezone: extract_timezone(s),
            ide: extract_ide(s),
            terminal: extract_terminal(s),
            os: extract_os(s),
            langs: extract_langs(s),
            notify_kinds: extract_notify_kinds(s),
            notify_bell: extract_notify_bell(s),
            notify_cooldown_mins: extract_notify_cooldown_mins(s),
            notify_format: extract_notify_format(s),
            theme_id: extract_theme_id(s),
            enable_background_color: extract_enable_background_color(s),
            show_dashboard_header: extract_show_dashboard_header(s),
            show_dashboard_wire: extract_show_dashboard_wire(s),
            show_right_sidebar: extract_show_right_sidebar(s),
            right_sidebar_mode: extract_right_sidebar_mode(s),
            right_sidebar_screens: extract_right_sidebar_screens(s),
            show_room_list_sidebar: extract_show_room_list_sidebar(s),
            show_settings_on_connect: extract_show_settings_on_connect(s),
            profile_theming: extract_profile_theming(s),
            favorite_room_ids: extract_favorite_room_ids(s),
        }
    }
}

// ---------------------------------------------------------------------------
// Normalising what an update writes

pub open spec fn screen_pick(s: Seq<u8>, k: u8) -> Seq<u8> {
    if s.contains(k) {
        seq![k]
    } else {
        Seq::empty()
    }
}

/// The screens 1 to 4 that `s` names, ascending, each once.
pub open spec fn chosen_screens(s: Seq<u8>) -> Seq<u8> {
    screen_pick(s, 1) + screen_pick(s, 2) + screen_pick(s, 3) + screen_pick(s, 4)
}

/// The valid screen numbers of `screens` (1 to
/// `RIGHT_SIDEBAR_SCREEN_COUNT`), ascending and without repeats.
pub fn normalize_right_sidebar_screens(screens: &[u8]) -> (r: Vec<u8>)
    ensures
        r@ == chosen_screens(screens@),
{
    let mut seen1 = false;
    let mut seen2 = false;
    let mut seen3 = false;
    let mut seen4 = false;
    let mut i: usize = 0;
    while i < screens.len()
        invariant
            i <= screens@.len(),
            seen1 == screens@.take(i as int).contains(1),
            seen2 == screens@.take(i as int).contains(2),
            seen3 == screens@.take(i as int).contains(3),
            seen4 == screens@.take(i as int).contains(4),
        decreases screens@.len() - i,
    {
        let ghost pre = screens@.take(i as int);
        let ghost post = screens@.take(i + 1);
        let x = screens[i];
        proof {
            assert(post =~= pre.push(x));
            assert forall|k: u8| post.contains(k) == (pre.contains(k) || x == k) by {
                if post.contains(k) {
                    let j = choose|j: int| 0 <= j < post.len() && post[j] == k;
                    if j < i {
                        assert(pre[j] == k);
                    }
                }
                if pre.contains(k) {
                    let j = choose|j: int| 0 <= j < pre.len() && pre[j] == k;
                    assert(post[j] == k);
                }
                if x == k {
                    assert(post[i as int] == k);
                }
            }
        }
        if x == 1 {
            seen1 = true;
        } else if x == 2 {
            seen2 = true;
        } else if x == 3 {
            seen3 = true;
        } else if x == 4 {
            seen4 = true;
        }
        i = i + 1;
    }
    assert(screens@.take(screens@.len() as int) =~= screens@);
    let mut r: Vec<u8> = Vec::new();
    if seen1 {
        r.push(1);
    }
    if seen2 {
        r.push(2);
    }
    if seen3 {
        r.push(3);
    }
    if seen4 {
        r.push(4);
    }
    assert(r@ =~= chosen_screens(screens@));
    r
}

pub open spec fn opt_str_view(o: Option<&str>) -> Option<Seq<char>> {
    match o {
        Some(s) => Some(s@),
        None => None,
    }
}

/// The text trimmed, or `None` when missing or blank.
pub fn normalize_profile_text(value: Option<&str>) -> (r: Option<String>)
    ensures
        opt_view(r) == trimmed_text(opt_str_view(value)),
{
    match value {
        Some(s) => {
            let t = trim_str(s);
            if t.len() > 0 {
                Some(string_of(&t))
            } else {
                None
            }
        },
        None => None,
    }
}

/// The column values that `Profile::update` writes for a submission.
/// Screens and tags are normalised, texts trimmed, the country upper-cased,
/// and room ids given as their hyphenated UUID text.
#[derive(Clone, Debug)]
pub struct ProfileUpdate {
    pub username: String,
    pub bio: String,
    pub country: Option<String>,
    pub timezone: Option<String>,
    pub ide: Option<String>,
    pub terminal: Option<String>,
    pub os: Option<String>,
    pub langs: Vec<String>,
    pub notify_kinds: Vec<String>,
    pub notify_bell: bool,
    pub notify_cooldown_mins: i32,
    pub notify_format: String,
    pub theme_id: String,
    pub enable_background_color: bool,
    pub show_dashboard_header: bool,
    pub show_dashboard_wire: bool,
    pub show_right_sidebar: bool,
    pub right_sidebar_mode: RightSidebarMode,
    pub right_sidebar_screens: Vec<u8>,
    pub show_room_list_sidebar: bool,
    pub show_settings_on_connect: bool,
    pub profile_theming: bool,
    pub favorite_room_ids: Vec<String>,
}

/// The country a submission writes: trimmed and upper-cased, `None` when
/// blank.
pub open spec fn written_country(param: Option<Seq<char>>) -> Option<Seq<char>> {
    match trimmed_text(param) {
        Some(t) => Some(upper_seq(t)),
        None => None,
    }
}

/// The theme a submission writes: the submitted one when not blank, else
/// the one already stored, else `"contrast"`.
pub open spec fn written_theme_id(param: Option<Seq<char>>, current: JsonValue) -> Seq<char> {
    match trimmed_text(param) {
        Some(t) => t,
        None => match stored_theme_id(current) {
            Some(t) => t,
            None => "contrast"@,
        },
    }
}

/// The notification format a submission writes: the submitted one when it
/// names a known format, else the one already stored, else `"both"`.
pub open spec fn written_notify_format(param: Option<Seq<char>>, current: JsonValue) -> Seq<
    char,
> {
    match param {
        Some(raw) if is_notify_format(trim_ws(raw)) => trim_ws(raw),
        _ => match stored_notify_format(current) {
            Some(f) => f,
            None => "both"@,
        },
    }
}

pub open spec fn id_texts(ids: Seq<u128>) -> Seq<Seq<char>> {
    Seq::new(ids.len(), |i: int| uuid_text(ids[i]))
}

fn lit(s: &str) -> (r: Vec<char>)
    ensures
        r@ == s@,
{
    chars_of(s)
}

fn opt_chars(o: &Option<String>) -> (r: Option<Vec<char>>)
    ensures
        match r {
            Some(v) => opt_view(*o) == Some(v@),
            None => o is None,
        },
{
    match o {
        Some(s) => Some(chars_of(s.as_str())),
        None => None,
    }
}

/// What an update writes for `params` when `current` is the settings
/// document stored so far.
pub open spec fn update_of(params: ProfileParams, current: JsonValue, u: ProfileUpdate) -> bool {
    &&& u.username@ == params.username@
    &&& u.bio@ == trim_ws(params.bio@)
    &&& opt_view(u.country) == written_country(opt_view(params.country))
    &&& opt_view(u.timezone) == trimmed_text(opt_view(params.timezone))
    &&& opt_view(u.ide) == trimmed_text(opt_view(params.ide))
    &&& opt_view(u.terminal) == trimmed_text(opt_view(params.terminal))
    &&& opt_view(u.os) == trimmed_text(opt_view(params.os))
    &&& string_views(u.langs@) == normalized_tags(string_views(params.langs@))
    &&& string_views(u.notify_kinds@) == string_views(params.notify_kinds@)
    &&& u.notify_bell == params.notify_bell
    &&& u.notify_cooldown_mins == (if params.notify_cooldown_mins > 0 {
        params.notify_cooldown_mins
    } else {
        0
    })
    &&& u.notify_format@ == written_notify_format(opt_view(params.notify_format), current)
    &&& u.theme_id@ == written_theme_id(opt_view(params.theme_id), current)
    &&& u.enable_background_color == params.enable_background_color
    &&& u.show_dashboard_header == params.show_dashboard_header
    &&& u.show_dashboard_wire == params.show_dashboard_wire
    &&& u.show_right_sidebar == params.show_right_sidebar
    &&& u.right_sidebar_mode == params.right_sidebar_mode
    &&& u.right_sidebar_screens@ == chosen_screens(params.right_sidebar_screens@)
    &&& u.show_room_list_sidebar == params.show_room_list_sidebar
    &&& u.show_settings_on_connect == params.show_settings_on_connect
    &&& u.profile_theming == params.profile_theming
    &&& string_views(u.favorite_room_ids@) == id_texts(params.favorite_room_ids@)
    &&& forall|k: int|
        0 <= k < params.favorite_room_ids@.len() ==> id_text_reads_back(
            #[trigger] params.favorite_room_ids@[k],
        )
}

/// The text of an id is already trimmed and parses back to the id.
pub open spec fn id_text_reads_back(id: u128) -> bool {
    trim_ws(uuid_text(id)) == uuid_text(id) && uuid_parse(uuid_text(id)) == Some(id)
}

impl ProfileUpdate {
    /// What an update of the profile writes, given the submission and the
    /// settings document stored so far (which supplies the theme and the
    /// notification format when the submission leaves them out).
    pub fn from_params(params: &ProfileParams, current: &JsonValue) -> (r: ProfileUpdate)
        ensures
            update_of(*params, *current, r),
    {
        let country = match trimmed_text_of(opt_chars(&params.country)) {
            Some(t) => Some(string_of(&upper_vec(&t))),
            None => None,
        };
        let timezone = normalize_profile_text(
            match &params.timezone {
                Some(s) => Some(s.as_str()),
                None => None,
            },
        );
        let ide = normalize_profile_text(
            match &params.ide {
                Some(s) => Some(s.as_str()),
                None => None,
            },
        );
        let terminal = normalize_profile_text(
            match &params.terminal {
                Some(s) => Some(s.as_str()),
                None => None,
            },
        );
        let os = normalize_profile_text(
            match &params.os {
                Some(s) => Some(s.as_str()),
                None => None,
            },
        );
        let theme_id = match trimmed_text_of(opt_chars(&params.theme_id)) {
            Some(t) => string_of(&t),
            None => match extract_theme_id(current) {
                Some(t) => t,
                None => string_of(&lit("contrast")),
            },
        };
        let submitted_format = match &params.notify_format {
            Some(raw) => {
                let t = trim_str(raw.as_str());
                if vec_chars_eq(&t, &lit("both")) || vec_chars_eq(&t, &lit("osc777"))
                    || vec_chars_eq(&t, &lit("osc9")) {
                    Some(string_of(&t))
                } else {
                    None
                }
            },
            None => None,
        };
        let notify_format = match submitted_format {
            Some(f) => f,
            None => match extract_notify_format(current) {
                Some(f) => f,
                None => string_of(&lit("both")),
            },
        };
        let mut kinds: Vec<String> = Vec::new();
        let mut i: usize = 0;
        while i < params.notify_kinds.len()
            invariant
                i <= params.notify_kinds@.len(),
                string_views(kinds@) == string_views(params.notify_kinds@.take(i as int)),
            decreases params.notify_kinds@.len() - i,
        {
            let ghost before = string_views(kinds@);
            kinds.push(string_of(&chars_of(params.notify_kinds[i].as_str())));
            proof {
                assert(string_views(kinds@) =~= before.push(params.notify_kinds@[i as int]@));
                assert(string_views(params.notify_kinds@.take(i + 1)) =~= string_views(
                    params.notify_kinds@.take(i as int),
                ).push(params.notify_kinds@[i as int]@));
            }
            i = i + 1;
        }
        assert(params.notify_kinds@.take(params.notify_kinds@.len() as int)
            =~= params.notify_kinds@);
        let mut ids: Vec<String> = Vec::new();
        let mut j: usize = 0;
        while j < params.favorite_room_ids.len()
            invariant
                j <= params.favorite_room_ids@.len(),
                string_views(ids@) == id_texts(params.favorite_room_ids@.take(j as int)),
                forall|k: int| 0 <= k < j ==> id_text_reads_back(#[trigger] params.favorite_room_ids@[k]),
            decreases params.favorite_room_ids@.len() - j,
        {
            let ghost before = string_views(ids@);
            let text = uuid_string(params.favorite_room_ids[j]);
            proof {
                lemma_trim_noop_literal(text@);
            }
            ids.push(text);
            proof {
                let x = uuid_text(params.favorite_room_ids@[j as int]);
                assert(string_views(ids@) =~= before.push(x));
                assert(id_texts(params.favorite_room_ids@.take(j + 1)) =~= id_texts(
                    params.favorite_room_ids@.take(j as int),
                ).push(x));
            }
            j = j + 1;
        }
        assert(params.favorite_room_ids@.take(params.favorite_room_ids@.len() as int)
            =~= params.favorite_room_ids@);
        ProfileUpdate {
            username: string_of(&chars_of(params.username.as_str())),
            bio: string_of(&trim_str(params.bio.as_str())),
            country,
            timezone,
            ide,
            terminal,
            os,
            langs: normalize_profile_tags(&params.langs),
            notify_kinds: kinds,
            notify_bell: params.notify_bell,
            notify_cooldown_mins: if params.notify_cooldown_mins > 0 {
                params.notify_cooldown_mins
            } else {
                0
            },
            notify_format,
            theme_id,
            enable_background_color: params.enable_background_color,
            show_dashboard_header: params.show_dashboard_header,
            show_dashboard_wire: params.show_dashboard_wire,
            show_right_sidebar: params.show_right_sidebar,
            right_sidebar_mode: params.right_sidebar_mode,
            right_sidebar_screens: normalize_right_sidebar_screens(
                params.right_sidebar_screens.as_slice(),
            ),
            show_room_list_sidebar: params.show_room_list_sidebar,
            show_settings_on_connect: params.show_settings_on_connect,
            profile_theming: params.profile_theming,
            favorite_room_ids: ids,
        }
    }
}

// ---------------------------------------------------------------------------
// Favourite rooms

/// The first position of `x` in `s`.
pub open spec fn first_index(s: Seq<u128>, x: u128) -> Option<int> {
    if s.contains(x) {
        Some(choose|i: int| 0 <= i < s.len() && s[i] == x && forall|j: int| 0 <= j < i ==> s[j] != x)
    } else {
        None
    }
}

proof fn lemma_first_index(s: Seq<u128>, x: u128)
    ensures
        match first_index(s, x) {
            Some(i) => 0 <= i < s.len() && s[i] == x && forall|j: int| 0 <= j < i ==> s[j] != x,
            None => !s.contains(x),
        },
{
    if s.contains(x) {
        let k = choose|k: int| 0 <= k < s.len() && s[k] == x;
        lemma_has_first(s, x, k);
    }
}

proof fn lemma_has_first(s: Seq<u128>, x: u128, k: int)
    requires
        0 <= k < s.len(),
        s[k] == x,
    ensures
        exists|i: int| 0 <= i < s.len() && s[i] == x && forall|j: int| 0 <= j < i ==> s[j] != x,
    decreases k,
{
    if exists|j: int| 0 <= j < k && s[j] == x {
        let j = choose|j: int| 0 <= j < k && s[j] == x;
        lemma_has_first(s, x, j);
    } else {
        assert(forall|j: int| 0 <= j < k ==> s[j] != x);
    }
}

/// The list after pinning or unpinning `room`: its first occurrence
/// removed, or the room appended when absent.
pub open spec fn toggled_favorites(s: Seq<u128>, room: u128) -> Seq<u128> {
    match first_index(s, room) {
        Some(i) => s.remove(i),
        None => s.push(room),
    }
}

/// Where a room lands when moved by `delta`, when that is inside the list.
pub open spec fn move_target(s: Seq<u128>, room: u128, delta: int) -> Option<(int, int)> {
    match first_index(s, room) {
        Some(i) => if 0 <= i + delta < s.len() {
            Some((i, i + delta))
        } else {
            None
        },
        None => None,
    }
}

/// The list after moving `room` by `delta` places (swapping it with the
/// room there); unchanged when the room is absent or would leave the list.
pub open spec fn moved_favorites(s: Seq<u128>, room: u128, delta: int) -> Seq<u128> {
    match move_target(s, room, delta) {
        Some((i, t)) => s.update(i, s[t]).update(t, s[i]),
        None => s,
    }
}

/// Pins `room_id` to the favourites strip, or unpins it; says whether it
/// was added.
pub fn toggle_favorite_room(ids: &mut Vec<u128>, room_id: u128) -> (added: bool)
    ensures
        final(ids)@ == toggled_favorites(old(ids)@, room_id),
        added == !old(ids)@.contains(room_id),
{
    proof {
        lemma_first_index(ids@, room_id);
    }
    let mut i: usize = 0;
    while i < ids.len()
        invariant
            ids@ == old(ids)@,
            i <= ids@.len(),
            forall|j: int| 0 <= j < i ==> ids@[j] != room_id,
        decreases ids@.len() - i,
    {
        if ids[i] == room_id {
            proof {
                assert(ids@.contains(room_id));
                let f = first_index(ids@, room_id)->0;
                if f < i {
                } else if f > i {
                    assert(ids@[i as int] == room_id);
                }
                assert(f == i);
            }
            ids.remove(i);
            return false;
        }
        i = i + 1;
    }
    ids.push(room_id);
    true
}

/// Moves `room_id` by `delta` places along the favourites strip; says
/// whether it moved.
pub fn move_favorite_room(ids: &mut Vec<u128>, room_id: u128, delta: isize) -> (moved: bool)
    ensures
        final(ids)@ == moved_favorites(old(ids)@, room_id, delta as int),
        moved == (move_target(old(ids)@, room_id, delta as int) is Some),
{
    proof {
        lemma_first_index(ids@, room_id);
    }
    let mut i: usize = 0;
    while i < ids.len()
        invariant
            ids@ == old(ids)@,
            i <= ids@.len(),
            forall|j: int| 0 <= j < i ==> ids@[j] != room_id,
        decreases ids@.len() - i,
    {
        if ids[i] == room_id {
            proof {
                assert(ids@.contains(room_id));
                let f = first_index(ids@, room_id)->0;
                if f < i {
                } else if f > i {
                    assert(ids@[i as int] == room_id);
                }
                assert(f == i);
            }
            let target: i128 = i as i128 + delta as i128;
            if target < 0 || target >= ids.len() as i128 {
                return false;
            }
            let t = target as usize;
            let a = ids[i];
            let b = ids[t];
            ids.set(i, b);
            ids.set(t, a);
            return true;
        }
        i = i + 1;
    }
    false
}

/// Pinning a room that is not pinned and then unpinning it gives the
/// strip back as it was.
pub proof fn lemma_toggle_favorite_undo(s: Seq<u128>, room: u128)
    requires
        !s.contains(room),
    ensures
        toggled_favorites(toggled_favorites(s, room), room) == s,
{
    lemma_first_index(s, room);
    let t = s.push(room);
    lemma_first_index(t, room);
    assert(t.contains(room)) by {
        assert(t[s.len() as int] == room);
    }
    let i = first_index(t, room)->0;
    if i < s.len() {
        assert(s[i] == room);
        assert(s.contains(room));
    }
    assert(t.remove(i) =~= s);
}

/// Moving a pinned room one way and then back by the same distance gives
/// the strip back as it was, when no room is pinned twice.
pub proof fn lemma_move_favorite_undo(s: Seq<u128>, room: u128, delta: int)
    requires
        s.no_duplicates(),
        move_target(s, room, delta) is Some,
    ensures
        moved_favorites(moved_favorites(s, room, delta), room, -delta) == s,
{
    lemma_first_index(s, room);
    let (i, t) = move_target(s, room, delta)->0;
    let m = moved_favorites(s, room, delta);
    assert(m[t] == room);
    lemma_first_index(m, room);
    assert(m.contains(room));
    let k = first_index(m, room)->0;
    if k != t {
        if k == i {
            assert(m[i] == s[t]);
            assert(s[t] == room);
            assert(i == t);
        } else {
            assert(m[k] == s[k]);
            assert(s[k] == s[i]);
        }
    }
    assert(k == t);
    assert(move_target(m, room, -delta) == Some((t, i)));
    assert(m.update(t, m[i]).update(i, m[t]) =~= s);
}

} // verus!
