//! Reading a user's preferences out of the `users.settings` document.
//!
//! Every reader is total: a missing key, a value of the wrong type or a
//! blank string gives the documented default.

use vstd::prelude::*;

use crate::ids::{parse_uuid, uuid_parse};
use crate::json::{as_str, as_u64, field_array, field_bool, field_i64, field_str, JsonValue};
use crate::tags::{normalize_profile_tags, normalized_tags, string_views};
use crate::text::{
    chars_of, opt_string_of, opt_view, string_of, trim_whitespace, trim_ws, upper_seq,
    upper_vec, vec_chars_eq,
};
use crate::user::{AudioSource, RightSidebarMode};

verus! {

/// `s.trim()`, or `None` when that leaves nothing.
pub open spec fn trimmed_text(o: Option<Seq<char>>) -> Option<Seq<char>> {
    match o {
        Some(s) => if trim_ws(s).len() > 0 {
            Some(trim_ws(s))
        } else {
            None
        },
        None => None,
    }
}

pub fn trimmed_text_of(o: Option<Vec<char>>) -> (r: Option<Vec<char>>)
    ensures
        match r {
            Some(v) => trimmed_text(
                match o {
                    Some(x) => Some(x@),
                    None => None,
                },
            ) == Some(v@),
            None => trimmed_text(
                match o {
                    Some(x) => Some(x@),
                    None => None,
                },
            ) is None,
        },
{
    match o {
        Some(v) => {
            let t = trim_whitespace(&v);
            if t.len() > 0 {
                Some(t)
            } else {
                None
            }
        },
        None => None,
    }
}

fn lit(s: &str) -> (r: Vec<char>)
    ensures
        r@ == s@,
{
    chars_of(s)
}

pub open spec fn stored_theme_id(settings: JsonValue) -> Option<Seq<char>> {
    trimmed_text(field_str(settings, "theme_id"@))
}

/// The saved theme id, trimmed; `None` when missing or blank.
pub fn extract_theme_id(settings: &JsonValue) -> (r: Option<String>)
    ensures
        opt_view(r) == stored_theme_id(*settings),
{
    opt_string_of(trimmed_text_of(settings.field_str("theme_id")))
}

pub open spec fn stored_audio_source(settings: JsonValue) -> AudioSource {
    match field_str(settings, "audio_source"@) {
        Some(s) => if s == "youtube"@ {
            AudioSource::Youtube
        } else {
            AudioSource::Icecast
        },
        None => AudioSource::Icecast,
    }
}

/// The saved audio source; Icecast unless the stored name is `"youtube"`.
pub fn extract_audio_source(settings: &JsonValue) -> (r: AudioSource)
    ensures
        r == stored_audio_source(*settings),
{
    match settings.field_str("audio_source") {
        Some(v) => AudioSource::from_settings_str(string_of(&v).as_str()),
        None => AudioSource::default(),
    }
}

/// The trimmed, non-blank strings among `items`, in order.
pub open spec fn nonblank_strings(items: Seq<JsonValue>) -> Seq<Seq<char>>
    decreases items.len(),
{
    if items.len() == 0 {
        Seq::empty()
    } else {
        let prev = nonblank_strings(items.drop_last());
        match as_str(items.last()) {
            Some(s) => if trim_ws(s).len() > 0 {
                prev.push(trim_ws(s))
            } else {
                prev
            },
            None => prev,
        }
    }
}

pub open spec fn stored_notify_kinds(settings: JsonValue) -> Seq<Seq<char>> {
    match field_array(settings, "notify_kinds"@) {
        Some(items) => nonblank_strings(items),
        None => Seq::empty(),
    }
}

/// The notification kinds the user enabled: the trimmed, non-blank strings
/// of the `notify_kinds` array, in order.
pub fn extract_notify_kinds(settings: &JsonValue) -> (r: Vec<String>)
    ensures
        string_views(r@) == stored_notify_kinds(*settings),
{
    let mut r: Vec<String> = Vec::new();
    match settings.field_array("notify_kinds") {
        Some(items) => {
            let mut i: usize = 0;
            while i < items.len()
                invariant
                    i <= items.len(),
                    string_views(r@) == nonblank_strings(items@.take(i as int)),
                decreases items.len() - i,
            {
                proof {
                    assert(items@.take(i + 1).drop_last() =~= items@.take(i as int));
                    assert(items@.take(i + 1).last() == items@[i as int]);
                }
                match items[i].as_str() {
                    Some(s) => {
                        let t = trim_whitespace(&chars_of(s.as_str()));
                        if t.len() > 0 {
                            let ghost before = string_views(r@);
                            r.push(string_of(&t));
                            proof {
                                assert(string_views(r@) =~= before.push(t@));
                            }
                        }
                    },
                    None => {},
                }
                i = i + 1;
            }
            assert(items@.take(items.len() as int) =~= items@);
        },
        None => {},
    }
    r
}

pub open spec fn stored_notify_bell(settings: JsonValue) -> bool {
    match field_bool(settings, "notify_bell"@) {
        Some(b) => b,
        None => false,
    }
}

/// Whether a notification also rings the terminal bell (off by default).
pub fn extract_notify_bell(settings: &JsonValue) -> (r: bool)
    ensures
        r == stored_notify_bell(*settings),
{
    match settings.field_bool("notify_bell") {
        Some(b) => b,
        None => false,
    }
}

pub open spec fn stored_notify_cooldown_mins(settings: JsonValue) -> i32 {
    {
        let v = match field_i64(settings, "notify_cooldown_mins"@) {
            Some(n) => n,
            None => 0,
        };
        (if v > 0 {
            v
        } else {
            0
        }) as i32
    }
}

/// Minutes between desktop notifications: the stored integer, 0 when
/// missing, negative values read as 0, cast to `i32` as `as` does.
pub fn extract_notify_cooldown_mins(settings: &JsonValue) -> (r: i32)
    ensures
        r == stored_notify_cooldown_mins(*settings),
{
    let v = match settings.field_i64("notify_cooldown_mins") {
        Some(n) => n,
        None => 0,
    };
    let m = if v > 0 {
        v
    } else {
        0
    };
    m as i32
}

pub open spec fn is_notify_format(t: Seq<char>) -> bool {
    t == "both"@ || t == "osc777"@ || t == "osc9"@
}

pub open spec fn stored_notify_format(settings: JsonValue) -> Option<Seq<char>> {
    match field_str(settings, "notify_format"@) {
        Some(raw) => if is_notify_format(trim_ws(raw)) {
            Some(trim_ws(raw))
        } else {
            None
        },
        None => None,
    }
}

/// Valid values: `"both"` (default), `"osc777"`, `"osc9"`. `None` for
/// missing, empty, or unrecognized values so the caller can fall back to
/// the default.
pub fn extract_notify_format(settings: &JsonValue) -> (r: Option<String>)
    ensures
        opt_view(r) == stored_notify_format(*settings),
{
    match settings.field_str("notify_format") {
        Some(raw) => {
            let t = trim_whitespace(&raw);
            if vec_chars_eq(&t, &lit("both")) || vec_chars_eq(&t, &lit("osc777")) || vec_chars_eq(
                &t,
                &lit("osc9"),
            ) {
                Some(string_of(&t))
            } else {
                None
            }
        },
        None => None,
    }
}

fn bool_or(settings: &JsonValue, key: &str, default: bool) -> (r: bool)
    ensures
        r == (match field_bool(*settings, key@) {
            Some(b) => b,
            None => default,
        }),
{
    match settings.field_bool(key) {
        Some(b) => b,
        None => default,
    }
}

pub open spec fn stored_enable_background_color(settings: JsonValue) -> bool {
    match field_bool(settings, "enable_background_color"@) {
        Some(b) => b,
        None => true,
    }
}

pub fn extract_enable_background_color(settings: &JsonValue) -> (r: bool)
    ensures
        r == stored_enable_background_color(*settings),
{
    bool_or(settings, "enable_background_color", true)
}

pub open spec fn stored_show_dashboard_header(settings: JsonValue) -> bool {
    match field_bool(settings, "show_dashboard_header"@) {
        Some(b) => b,
        None => true,
    }
}

pub fn extract_show_dashboard_header(settings: &JsonValue) -> (r: bool)
    ensures
        r == stored_show_dashboard_header(*settings),
{
    bool_or(settings, "show_dashboard_header", true)
}

pub open spec fn stored_show_dashboard_wire(settings: JsonValue) -> bool {
    match field_bool(settings, "show_dashboard_wire"@) {
        Some(b) => b,
        None => stored_show_dashboard_header(settings),
    }
}

/// The dashboard wire strip follows the stored flag, and the lounge info
/// flag where none is stored.
pub fn extract_show_dashboard_wire(settings: &JsonValue) -> (r: bool)
    ensures
        r == stored_show_dashboard_wire(*settings),
{
    match settings.field_bool("show_dashboard_wire") {
        Some(b) => b,
        None => extract_show_dashboard_header(settings),
    }
}

/// The trimmed stored sidebar mode name, if any.
pub open spec fn stored_mode(settings: JsonValue) -> Option<Seq<char>> {
    match field_str(settings, "right_sidebar_mode"@) {
        Some(s) => Some(trim_ws(s)),
        None => None,
    }
}

pub open spec fn legacy_show_right_sidebar(settings: JsonValue) -> bool {
    match field_bool(settings, "show_right_sidebar"@) {
        Some(b) => b,
        None => true,
    }
}

pub open spec fn stored_show_right_sidebar(settings: JsonValue) -> bool {
    match stored_mode(settings) {
        Some(m) => if m == "on"@ || m == "custom"@ {
            true
        } else if m == "off"@ {
            false
        } else {
            legacy_show_right_sidebar(settings)
        },
        None => legacy_show_right_sidebar(settings),
    }
}

/// The stored mode decides (`on` and `custom` show, `off` hides); without a
/// recognized mode the legacy `show_right_sidebar` flag does, defaulting to
/// shown.
pub fn extract_show_right_sidebar(settings: &JsonValue) -> (r: bool)
    ensures
        r == stored_show_right_sidebar(*settings),
{
    match settings.field_str("right_sidebar_mode") {
        Some(raw) => {
            let m = trim_whitespace(&raw);
            if vec_chars_eq(&m, &lit("on")) || vec_chars_eq(&m, &lit("custom")) {
                return true;
            }
            if vec_chars_eq(&m, &lit("off")) {
                return false;
            }
        },
        None => {},
    }
    bool_or(settings, "show_right_sidebar", true)
}

pub open spec fn stored_right_sidebar_mode(settings: JsonValue) -> RightSidebarMode {
    match stored_mode(settings) {
        Some(m) => if m == "on"@ {
            RightSidebarMode::On
        } else if m == "off"@ {
            RightSidebarMode::Off
        } else if m == "custom"@ {
            RightSidebarMode::Custom
        } else if legacy_show_right_sidebar(settings) {
            RightSidebarMode::On
        } else {
            RightSidebarMode::Off
        },
        None => if legacy_show_right_sidebar(settings) {
            RightSidebarMode::On
        } else {
            RightSidebarMode::Off
        },
    }
}

/// The stored mode when it is `on`, `off` or `custom`; otherwise On or Off
/// after the legacy `show_right_sidebar` flag (shown by default).
pub fn extract_right_sidebar_mode(settings: &JsonValue) -> (r: RightSidebarMode)
    ensures
        r == stored_right_sidebar_mode(*settings),
{
    match settings.field_str("right_sidebar_mode") {
        Some(raw) => {
            let m = trim_whitespace(&raw);
            if vec_chars_eq(&m, &lit("on")) {
                return RightSidebarMode::On;
            }
            if vec_chars_eq(&m, &lit("off")) {
                return RightSidebarMode::Off;
            }
            if vec_chars_eq(&m, &lit("custom")) {
                return RightSidebarMode::Custom;
            }
        },
        None => {},
    }
    if bool_or(settings, "show_right_sidebar", true) {
        RightSidebarMode::On
    } else {
        RightSidebarMode::Off
    }
}

/// Whether some item of the array is the integer `k`.
pub open spec fn lists_screen(items: Seq<JsonValue>, k: u64) -> bool {
    exists|i: int| 0 <= i < items.len() && as_u64(#[trigger] items[i]) == Some(k)
}

pub open spec fn screen_if(items: Seq<JsonValue>, k: u8) -> Seq<u8> {
    if lists_screen(items, k as u64) {
        seq![k]
    } else {
        Seq::empty()
    }
}

/// The screens 1 to 4 that the array lists, ascending, each once.
pub open spec fn listed_screens(items: Seq<JsonValue>) -> Seq<u8> {
    screen_if(items, 1) + screen_if(items, 2) + screen_if(items, 3) + screen_if(items, 4)
}

pub open spec fn all_screens() -> Seq<u8> {
    seq![1u8, 2u8, 3u8, 4u8]
}

pub fn all_screens_vec() -> (r: Vec<u8>)
    ensures
        r@ == all_screens(),
{
    let mut r: Vec<u8> = Vec::new();
    r.push(1);
    r.push(2);
    r.push(3);
    r.push(4);
    assert(r@ =~= all_screens());
    r
}

pub open spec fn stored_right_sidebar_screens(settings: JsonValue) -> Seq<u8> {
    match field_array(settings, "right_sidebar_screens"@) {
        Some(items) => listed_screens(items),
        None => all_screens(),
    }
}

/// The screens (1-based, ascending, each once) where a Custom sidebar
/// shows; all four when none are stored. Values outside 1..=4 and
/// non-integers are dropped.
pub fn extract_right_sidebar_screens(settings: &JsonValue) -> (r: Vec<u8>)
    ensures
        r@ == stored_right_sidebar_screens(*settings),
{
    let items = match settings.field_array("right_sidebar_screens") {
        Some(items) => items,
        None => {
            return all_screens_vec();
        },
    };
    let mut seen1 = false;
    let mut seen2 = false;
    let mut seen3 = false;
    let mut seen4 = false;
    let mut i: usize = 0;
    while i < items.len()
        invariant
            i <= items.len(),
            seen1 == lists_screen(items@.take(i as int), 1),
            seen2 == lists_screen(items@.take(i as int), 2),
            seen3 == lists_screen(items@.take(i as int), 3),
            seen4 == lists_screen(items@.take(i as int), 4),
        decreases items.len() - i,
    {
        let ghost pre = items@.take(i as int);
        let ghost post = items@.take(i + 1);
        let v = items[i].as_u64();
        proof {
            assert(post[i as int] == items@[i as int]);
            assert forall|k: u64| lists_screen(post, k) == (lists_screen(pre, k) || as_u64(
                items@[i as int],
            ) == Some(k)) by {
                if lists_screen(pre, k) {
                    let j = choose|j: int| 0 <= j < pre.len() && as_u64(#[trigger] pre[j]) == Some(
                        k,
                    );
                    assert(post[j] == pre[j]);
                }
                if lists_screen(post, k) {
                    let j = choose|j: int|
                        0 <= j < post.len() && as_u64(#[trigger] post[j]) == Some(k);
                    if j < i {
                        assert(pre[j] == post[j]);
                    }
                }
            }
        }
        match v {
            Some(raw) => {
                if raw == 1 {
                    seen1 = true;
                } else if raw == 2 {
                    seen2 = true;
                } else if raw == 3 {
                    seen3 = true;
                } else if raw == 4 {
                    seen4 = true;
                }
            },
            None => {},
        }
        i = i + 1;
    }
    assert(items@.take(items.len() as int) =~= items@);
    let mut r: Vec<u8> = Vec::new();
    if seen1 {
        r.push(1);
    }
    if seen2 {
        r.push(2);
    }
    if seen3 {
        r.push(3);
    }
    if seen4 {
        r.push(4);
    }
    assert(r@ =~= listed_screens(items@));
    r
}

pub open spec fn stored_show_room_list_sidebar(settings: JsonValue) -> bool {
    match field_bool(settings, "show_room_list_sidebar"@) {
        Some(b) => b,
        None => true,
    }
}

pub fn extract_show_room_list_sidebar(settings: &JsonValue) -> (r: bool)
    ensures
        r == stored_show_room_list_sidebar(*settings),
{
    bool_or(settings, "show_room_list_sidebar", true)
}

pub open spec fn stored_show_settings_on_connect(settings: JsonValue) -> bool {
    match field_bool(settings, "show_settings_on_connect"@) {
        Some(b) => b,
        None => true,
    }
}

pub fn extract_show_settings_on_connect(settings: &JsonValue) -> (r: bool)
    ensures
        r == stored_show_settings_on_connect(*settings),
{
    bool_or(settings, "show_settings_on_connect", true)
}

pub open spec fn stored_profile_theming(settings: JsonValue) -> bool {
    match field_bool(settings, "profile_theming"@) {
        Some(b) => b,
        None => false,
    }
}

pub fn extract_profile_theming(settings: &JsonValue) -> (r: bool)
    ensures
        r == stored_profile_theming(*settings),
{
    bool_or(settings, "profile_theming", false)
}

/// The id a list entry names: a string that parses as a UUID once trimmed.
pub open spec fn item_id(v: JsonValue) -> Option<u128> {
    match as_str(v) {
        Some(s) => uuid_parse(trim_ws(s)),
        None => None,
    }
}

fn item_id_of(v: &JsonValue) -> (r: Option<u128>)
    ensures
        r == item_id(*v),
{
    match v.as_str() {
        Some(s) => {
            let t = string_of(&trim_whitespace(&chars_of(s.as_str())));
            parse_uuid(t.as_str())
        },
        None => None,
    }
}

/// The ids that `items` name, in order of first appearance, each once.
pub open spec fn first_ids(items: Seq<JsonValue>) -> Seq<u128>
    decreases items.len(),
{
    if items.len() == 0 {
        Seq::empty()
    } else {
        let prev = first_ids(items.drop_last());
        match item_id(items.last()) {
            Some(id) => if prev.contains(id) {
                prev
            } else {
                prev.push(id)
            },
            None => prev,
        }
    }
}

pub fn contains_id(v: &Vec<u128>, id: u128) -> (b: bool)
    ensures
        b == v@.contains(id),
{
    let mut i: usize = 0;
    while i < v.len()
        invariant
            i <= v.len(),
            forall|k: int| 0 <= k < i ==> v@[k] != id,
        decreases v.len() - i,
    {
        if v[i] == id {
            return true;
        }
        i = i + 1;
    }
    false
}

pub open spec fn stored_favorite_room_ids(settings: JsonValue) -> Seq<u128> {
    match field_array(settings, "favorite_room_ids"@) {
        Some(items) => first_ids(items),
        None => Seq::empty(),
    }
}

/// Ordered list of room ids the user has pinned as favorites. Insertion
/// order is preserved (user-chosen ordering); missing/invalid entries are
/// dropped silently. Duplicates are collapsed while keeping the first
/// occurrence.
pub fn extract_favorite_room_ids(settings: &JsonValue) -> (r: Vec<u128>)
    ensures
        r@ == stored_favorite_room_ids(*settings),
{
    let mut r: Vec<u128> = Vec::new();
    match settings.field_array("favorite_room_ids") {
        Some(items) => {
            let mut i: usize = 0;
            while i < items.len()
                invariant
                    i <= items.len(),
                    r@ == first_ids(items@.take(i as int)),
                decreases items.len() - i,
            {
                proof {
                    assert(items@.take(i + 1).drop_last() =~= items@.take(i as int));
                    assert(items@.take(i + 1).last() == items@[i as int]);
                }
                match item_id_of(&items[i]) {
                    Some(id) => {
                        if !contains_id(&r, id) {
                            r.push(id);
                        }
                    },
                    None => {},
                }
                i = i + 1;
            }
            assert(items@.take(items.len() as int) =~= items@);
        },
        None => {},
    }
    r
}

pub open spec fn strictly_ascending(s: Seq<u128>) -> bool {
    forall|i: int, j: int| 0 <= i < j < s.len() ==> s[i] < s[j]
}

/// Whether some entry of `items` names `id`.
pub open spec fn names_id(items: Seq<JsonValue>, id: u128) -> bool {
    exists|i: int| 0 <= i < items.len() && item_id(#[trigger] items[i]) == Some(id)
}

/// Puts `id` into an ascending list, keeping it ascending and without
/// repeats.
#[verifier::spinoff_prover]
pub fn insert_ascending(v: &mut Vec<u128>, id: u128)
    requires
        strictly_ascending(old(v)@),
    ensures
        strictly_ascending(final(v)@),
        forall|x: u128| final(v)@.contains(x) <==> (old(v)@.contains(x) || x == id),
{
    let mut i: usize = 0;
    while i < v.len() && v[i] < id
        invariant
            i <= v.len(),
            forall|k: int| 0 <= k < i ==> v@[k] < id,
        decreases v.len() - i,
    {
        i = i + 1;
    }
    if i < v.len() && v[i] == id {
        assert(v@.contains(id));
        return;
    }
    let ghost before = v@;
    assert(before == old(v)@);
    v.insert(i, id);
    proof {
        assert(v@ =~= before.take(i as int).push(id) + before.skip(i as int));
        assert forall|a: int, b: int| 0 <= a < b < v@.len() implies v@[a] < v@[b] by {
            if b < i {
            } else if b == i {
            } else if a < i {
                assert(before[a] < id);
                assert(id < before[i as int] || i == before.len());
                assert(v@[b] == before[b - 1]);
                if b - 1 > i {
                    assert(before[i as int] < before[b - 1]);
                }
            } else if a == i {
                assert(v@[b] == before[b - 1]);
                assert(id < before[i as int]);
                if b - 1 > i {
                    assert(before[i as int] < before[b - 1]);
                }
            } else {
                assert(v@[a] == before[a - 1]);
                assert(v@[b] == before[b - 1]);
            }
        }
        assert forall|x: u128| v@.contains(x) <==> (before.contains(x) || x == id) by {
            if v@.contains(x) {
                let k = choose|k: int| 0 <= k < v@.len() && v@[k] == x;
                if k < i {
                    assert(before[k] == x);
                } else if k > i {
                    assert(before[k - 1] == x);
                }
            }
            if before.contains(x) {
                let k = choose|k: int| 0 <= k < before.len() && before[k] == x;
                if k < i {
                    assert(v@[k] == x);
                } else {
                    assert(v@[k + 1] == x);
                }
            }
            if x == id {
                assert(v@[i as int] == id);
            }
        }
        assert(forall|x: u128| #[trigger] v@.contains(x) <==> (old(v)@.contains(x) || x == id));
    }
}

/// The ignore list: the ids the `ignored_user_ids` array names, ascending,
/// each once.
pub fn extract_ignored_user_ids(settings: &JsonValue) -> (r: Vec<u128>)
    ensures
        strictly_ascending(r@),
        forall|id: u128|
            r@.contains(id) <==> (match field_array(*settings, "ignored_user_ids"@) {
                Some(items) => names_id(items, id),
                None => false,
            }),
{
    let mut r: Vec<u128> = Vec::new();
    match settings.field_array("ignored_user_ids") {
        Some(items) => {
            let mut i: usize = 0;
            while i < items.len()
                invariant
                    i <= items.len(),
                    strictly_ascending(r@),
                    forall|id: u128| r@.contains(id) <==> names_id(items@.take(i as int), id),
                decreases items.len() - i,
            {
                let ghost pre = items@.take(i as int);
                let ghost post = items@.take(i + 1);
                proof {
                    assert(post[i as int] == items@[i as int]);
                    assert forall|id: u128| names_id(post, id) == (names_id(pre, id) || item_id(
                        items@[i as int],
                    ) == Some(id)) by {
                        if names_id(pre, id) {
                            let j = choose|j: int|
                                0 <= j < pre.len() && item_id(#[trigger] pre[j]) == Some(id);
                            assert(post[j] == pre[j]);
                        }
                        if names_id(post, id) {
                            let j = choose|j: int|
                                0 <= j < post.len() && item_id(#[trigger] post[j]) == Some(id);
                            if j < i {
                                assert(pre[j] == post[j]);
                            }
                        }
                    }
                }
                match item_id_of(&items[i]) {
                    Some(id) => insert_ascending(&mut r, id),
                    None => {},
                }
                i = i + 1;
            }
            assert(items@.take(items.len() as int) =~= items@);
        },
        None => {},
    }
    r
}

pub open spec fn stored_bio(settings: JsonValue) -> Seq<char> {
    match field_str(settings, "bio"@) {
        Some(s) => trim_ws(s),
        None => Seq::empty(),
    }
}

/// The bio, trimmed; empty when missing.
pub fn extract_bio(settings: &JsonValue) -> (r: String)
    ensures
        r@ == stored_bio(*settings),
{
    match settings.field_str("bio") {
        Some(v) => string_of(&trim_whitespace(&v)),
        None => String::new(),
    }
}

pub open spec fn stored_country(settings: JsonValue) -> Option<Seq<char>> {
    match trimmed_text(field_str(settings, "country"@)) {
        Some(s) => Some(upper_seq(s)),
        None => None,
    }
}

/// The country code, trimmed and upper-cased; `None` when missing or blank.
pub fn extract_country(settings: &JsonValue) -> (r: Option<String>)
    ensures
        opt_view(r) == stored_country(*settings),
{
    match trimmed_text_of(settings.field_str("country")) {
        Some(v) => Some(string_of(&upper_vec(&v))),
        None => None,
    }
}

/// The trimmed text stored under `key`; `None` when missing or blank.
pub fn extract_trimmed_profile_text(settings: &JsonValue, key: &str) -> (r: Option<String>)
    ensures
        opt_view(r) == trimmed_text(field_str(*settings, key@)),
{
    opt_string_of(trimmed_text_of(settings.field_str(key)))
}

pub fn extract_timezone(settings: &JsonValue) -> (r: Option<String>)
    ensures
        opt_view(r) == trimmed_text(field_str(*settings, "timezone"@)),
{
    extract_trimmed_profile_text(settings, "timezone")
}

pub fn extract_ide(settings: &JsonValue) -> (r: Option<String>)
    ensures
        opt_view(r) == trimmed_text(field_str(*settings, "ide"@)),
{
    extract_trimmed_profile_text(settings, "ide")
}

pub fn extract_terminal(settings: &JsonValue) -> (r: Option<String>)
    ensures
        opt_view(r) == trimmed_text(field_str(*settings, "terminal"@)),
{
    extract_trimmed_profile_text(settings, "terminal")
}

pub fn extract_os(settings: &JsonValue) -> (r: Option<String>)
    ensures
        opt_view(r) == trimmed_text(field_str(*settings, "os"@)),
{
    extract_trimmed_profile_text(settings, "os")
}

/// The strings of an array, in order.
pub open spec fn array_strings(items: Seq<JsonValue>) -> Seq<Seq<char>>
    decreases items.len(),
{
    if items.len() == 0 {
        Seq::empty()
    } else {
        let prev = array_strings(items.drop_last());
        match as_str(items.last()) {
            Some(s) => prev.push(s),
            None => prev,
        }
    }
}

/// The raw text of the `langs` entry: the strings of an array, a single
/// string, or nothing.
pub open spec fn raw_langs(settings: JsonValue) -> Seq<Seq<char>> {
    match crate::json::json_get(settings, "langs"@) {
        Some(v) => match crate::json::as_array(v) {
            Some(items) => array_strings(items),
            None => match as_str(v) {
                Some(s) => seq![s],
                None => Seq::empty(),
            },
        },
        None => Seq::empty(),
    }
}

/// The languages tag list: the `langs` entry (an array of strings or one
/// string) run through the tag normalization.
pub fn extract_langs(settings: &JsonValue) -> (r: Vec<String>)
    ensures
        string_views(r@) == normalized_tags(raw_langs(*settings)),
{
    let mut raw: Vec<String> = Vec::new();
    match settings.get("langs") {
        Some(value) => match value.as_array() {
            Some(items) => {
                let mut i: usize = 0;
                while i < items.len()
                    invariant
                        i <= items.len(),
                        string_views(raw@) == array_strings(items@.take(i as int)),
                    decreases items.len() - i,
                {
                    proof {
                        assert(items@.take(i + 1).drop_last() =~= items@.take(i as int));
                        assert(items@.take(i + 1).last() == items@[i as int]);
                    }
                    match items[i].as_str() {
                        Some(s) => {
                            let ghost before = string_views(raw@);
                            raw.push(string_of(&chars_of(s.as_str())));
                            proof {
                                assert(string_views(raw@) =~= before.push(s@));
                            }
                        },
                        None => {},
                    }
                    i = i + 1;
                }
                assert(items@.take(items.len() as int) =~= items@);
            },
            None => match value.as_str() {
                Some(s) => {
                    raw.push(string_of(&chars_of(s.as_str())));
                    assert(string_views(raw@) =~= seq![s@]);
                },
                None => {},
            },
        },
        None => {},
    }
    proof {
        if raw@.len() == 0 {
            assert(string_views(raw@) =~= Seq::<Seq<char>>::empty());
        }
    }
    normalize_profile_tags(&raw)
}

} // verus!
