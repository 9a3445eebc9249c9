//! The settings entries a profile update writes, and what reading a
//! document that holds them gives back.
//!
//! The update merges its entries into the stored document (the database
//! does it with `settings || entries`), so keys it does not write keep
//! their values and the ones it writes read back as written.

use vstd::prelude::*;

use crate::json::{as_array, as_str, as_u64, field_str, json_get, lookup, JsonNumber, JsonValue};
use crate::prefs::{
    array_strings, first_ids, is_notify_format, item_id, listed_screens, lists_screen,
    nonblank_strings, raw_langs, stored_mode, trimmed_text,
};
use crate::profile::{
    chosen_screens, id_text_reads_back, id_texts, reads_settings, screen_pick, update_of,
    written_notify_format, written_theme_id, Profile, ProfileParams, ProfileUpdate,
};
use crate::tags::{lemma_normalize_tags_idempotent, string_views};
use crate::text::{
    lemma_trim_idempotent, lemma_trim_noop_literal, lemma_upper_trimmed, opt_view, trim_ws,
};
use crate::user::RightSidebarMode;

verus! {

/// The keys an update writes, in the order it writes them.
pub open spec fn written_keys() -> Seq<Seq<char>> {
    seq![
        "bio"@,
        "country"@,
        "timezone"@,
        "notify_kinds"@,
        "notify_bell"@,
        "notify_cooldown_mins"@,
        "theme_id"@,
        "enable_background_color"@,
        "notify_format"@,
        "show_dashboard_header"@,
        "show_right_sidebar"@,
        "right_sidebar_mode"@,
        "right_sidebar_screens"@,
        "show_room_list_sidebar"@,
        "show_settings_on_connect"@,
        "favorite_room_ids"@,
        "ide"@,
        "terminal"@,
        "os"@,
        "langs"@,
        "show_dashboard_wire"@,
        "profile_theming"@,
    ]
}

pub open spec fn is_text(v: JsonValue, t: Seq<char>) -> bool {
    as_str(v) == Some(t)
}

pub open spec fn is_opt_text(v: JsonValue, o: Option<Seq<char>>) -> bool {
    match o {
        Some(t) => is_text(v, t),
        None => v is Null,
    }
}

/// An array of strings with these texts.
pub open spec fn is_texts(v: JsonValue, ts: Seq<Seq<char>>) -> bool {
    match as_array(v) {
        Some(items) => items.len() == ts.len() && forall|i: int|
            0 <= i < items.len() ==> as_str(#[trigger] items[i]) == Some(ts[i]),
        None => false,
    }
}

/// An array of non-negative integers with these values.
pub open spec fn is_numbers(v: JsonValue, ns: Seq<u8>) -> bool {
    match as_array(v) {
        Some(items) => items.len() == ns.len() && forall|i: int|
            0 <= i < items.len() ==> #[trigger] items[i] == JsonValue::Number(
                JsonNumber::PosInt(ns[i] as u64),
            ),
        None => false,
    }
}

pub open spec fn mode_name(m: RightSidebarMode) -> Seq<char> {
    match m {
        RightSidebarMode::On => "on"@,
        RightSidebarMode::Off => "off"@,
        RightSidebarMode::Custom => "custom"@,
    }
}

/// Whether `e` holds exactly the entries that `u` writes, keyed by
/// `written_keys`.
pub open spec fn writes(u: ProfileUpdate, e: Seq<(String, JsonValue)>) -> bool {
    &&& e.len() == 22
    &&& forall|i: int| 0 <= i < 22 ==> (#[trigger] e[i]).0@ == written_keys()[i]
    &&& is_text(e[0].1, u.bio@)
    &&& is_opt_text(e[1].1, opt_view(u.country))
    &&& is_opt_text(e[2].1, opt_view(u.timezone))
    &&& is_texts(e[3].1, string_views(u.notify_kinds@))
    &&& e[4].1 == JsonValue::Bool(u.notify_bell)
    &&& e[5].1 == JsonValue::Number(JsonNumber::PosInt(u.notify_cooldown_mins as u64))
    &&& is_text(e[6].1, u.theme_id@)
    &&& e[7].1 == JsonValue::Bool(u.enable_background_color)
    &&& is_text(e[8].1, u.notify_format@)
    &&& e[9].1 == JsonValue::Bool(u.show_dashboard_header)
    &&& e[10].1 == JsonValue::Bool(u.show_right_sidebar)
    &&& is_text(e[11].1, mode_name(u.right_sidebar_mode))
    &&& is_numbers(e[12].1, u.right_sidebar_screens@)
    &&& e[13].1 == JsonValue::Bool(u.show_room_list_sidebar)
    &&& e[14].1 == JsonValue::Bool(u.show_settings_on_connect)
    &&& is_texts(e[15].1, string_views(u.favorite_room_ids@))
    &&& is_opt_text(e[16].1, opt_view(u.ide))
    &&& is_opt_text(e[17].1, opt_view(u.terminal))
    &&& is_opt_text(e[18].1, opt_view(u.os))
    &&& is_texts(e[19].1, string_views(u.langs@))
    &&& e[20].1 == JsonValue::Bool(u.show_dashboard_wire)
    &&& e[21].1 == JsonValue::Bool(u.profile_theming)
}

fn text_json(s: &String) -> (r: JsonValue)
    ensures
        is_text(r, s@),
{
    JsonValue::String(s.clone())
}

fn opt_text_json(o: &Option<String>) -> (r: JsonValue)
    ensures
        is_opt_text(r, opt_view(*o)),
{
    match o {
        Some(s) => JsonValue::String(s.clone()),
        None => JsonValue::Null,
    }
}

fn texts_json(v: &Vec<String>) -> (r: JsonValue)
    ensures
        is_texts(r, string_views(v@)),
{
    let mut items: Vec<JsonValue> = Vec::new();
    let mut i: usize = 0;
    while i < v.len()
        invariant
            i <= v@.len(),
            items@.len() == i,
            forall|k: int| 0 <= k < i ==> as_str(#[trigger] items@[k]) == Some(v@[k]@),
        decreases v@.len() - i,
    {
        items.push(JsonValue::String(v[i].clone()));
        i = i + 1;
    }
    JsonValue::Array(items)
}

fn numbers_json(v: &Vec<u8>) -> (r: JsonValue)
    ensures
        is_numbers(r, v@),
{
    let mut items: Vec<JsonValue> = Vec::new();
    let mut i: usize = 0;
    while i < v.len()
        invariant
            i <= v@.len(),
            items@.len() == i,
            forall|k: int|
                0 <= k < i ==> #[trigger] items@[k] == JsonValue::Number(
                    JsonNumber::PosInt(v@[k] as u64),
                ),
        decreases v@.len() - i,
    {
        items.push(JsonValue::Number(JsonNumber::PosInt(v[i] as u64)));
        i = i + 1;
    }
    JsonValue::Array(items)
}

fn entry(key: &str, value: JsonValue) -> (r: (String, JsonValue))
    ensures
        r.0@ == key@,
        r.1 == value,
{
    (key.to_owned(), value)
}

impl ProfileUpdate {
    /// The entries that the update merges into the settings document.
    pub fn settings_entries(&self) -> (r: Vec<(String, JsonValue)>)
        requires
            self.notify_cooldown_mins >= 0,
        ensures
            writes(*self, r@),
    {
        let mut e: Vec<(String, JsonValue)> = Vec::new();
        e.push(entry("bio", text_json(&self.bio)));
        e.push(entry("country", opt_text_json(&self.country)));
        e.push(entry("timezone", opt_text_json(&self.timezone)));
        e.push(entry("notify_kinds", texts_json(&self.notify_kinds)));
        e.push(entry("notify_bell", JsonValue::Bool(self.notify_bell)));
        e.push(
            entry(
                "notify_cooldown_mins",
                JsonValue::Number(JsonNumber::PosInt(self.notify_cooldown_mins as u64)),
            ),
        );
        e.push(entry("theme_id", text_json(&self.theme_id)));
        e.push(entry("enable_background_color", JsonValue::Bool(self.enable_background_color)));
        e.push(entry("notify_format", text_json(&self.notify_format)));
        e.push(entry("show_dashboard_header", JsonValue::Bool(self.show_dashboard_header)));
        e.push(entry("show_right_sidebar", JsonValue::Bool(self.show_right_sidebar)));
        e.push(
            entry(
                "right_sidebar_mode",
                JsonValue::String(self.right_sidebar_mode.as_str().to_owned()),
            ),
        );
        e.push(entry("right_sidebar_screens", numbers_json(&self.right_sidebar_screens)));
        e.push(entry("show_room_list_sidebar", JsonValue::Bool(self.show_room_list_sidebar)));
        e.push(
            entry("show_settings_on_connect", JsonValue::Bool(self.show_settings_on_connect)),
        );
        e.push(entry("favorite_room_ids", texts_json(&self.favorite_room_ids)));
        e.push(entry("ide", opt_text_json(&self.ide)));
        e.push(entry("terminal", opt_text_json(&self.terminal)));
        e.push(entry("os", opt_text_json(&self.os)));
        e.push(entry("langs", texts_json(&self.langs)));
        e.push(entry("show_dashboard_wire", JsonValue::Bool(self.show_dashboard_wire)));
        e.push(entry("profile_theming", JsonValue::Bool(self.profile_theming)));
        e
    }
}

// ---------------------------------------------------------------------------
// Looking the written entries up

proof fn lemma_written_keys_distinct()
    ensures
        written_keys().no_duplicates(),
        written_keys().len() == 22,
{
    reveal_strlit("bio");
    reveal_strlit("country");
    reveal_strlit("timezone");
    reveal_strlit("notify_kinds");
    reveal_strlit("notify_bell");
    reveal_strlit("notify_cooldown_mins");
    reveal_strlit("theme_id");
    reveal_strlit("enable_background_color");
    reveal_strlit("notify_format");
    reveal_strlit("show_dashboard_header");
    reveal_strlit("show_right_sidebar");
    reveal_strlit("right_sidebar_mode");
    reveal_strlit("right_sidebar_screens");
    reveal_strlit("show_room_list_sidebar");
    reveal_strlit("show_settings_on_connect");
    reveal_strlit("favorite_room_ids");
    reveal_strlit("ide");
    reveal_strlit("terminal");
    reveal_strlit("os");
    reveal_strlit("langs");
    reveal_strlit("show_dashboard_wire");
    reveal_strlit("profile_theming");
    let k = written_keys();
    assert forall|i: int, j: int| 0 <= i < j < k.len() implies k[i] != k[j] by {
        if k[i] == k[j] {
            assert(k[i].len() == k[j].len());
            assert(k[i][0] == k[j][0]);
            assert(k[i][k[i].len() - 1] == k[j][k[j].len() - 1]);
            if k[i].len() > 5 {
                assert(k[i][5] == k[j][5]);
                assert(k[i][k[i].len() - 2] == k[j][k[j].len() - 2]);
            }
        }
    }
}

/// In `e + rest`, the first entry with a key is the one found.
proof fn lemma_lookup_prefix(e: Seq<(String, JsonValue)>, rest: Seq<(String, JsonValue)>, i: int)
    requires
        0 <= i < e.len(),
        forall|j: int| 0 <= j < i ==> (#[trigger] e[j]).0@ != e[i].0@,
    ensures
        lookup(e + rest, e[i].0@) == Some(e[i].1),
    decreases i,
{
    let all = e + rest;
    if i == 0 {
        assert(all[0] == e[0]);
    } else {
        assert(all[0] == e[0]);
        assert(all.drop_first() =~= e.drop_first() + rest);
        let t = e.drop_first();
        assert forall|j: int| 0 <= j < i - 1 implies (#[trigger] t[j]).0@ != t[i - 1].0@ by {
            assert(t[j] == e[j + 1]);
            assert(t[i - 1] == e[i]);
        }
        lemma_lookup_prefix(t, rest, i - 1);
        assert(t[i - 1] == e[i]);
    }
}

/// A key that no entry of `e` has is looked up in `rest`.
proof fn lemma_lookup_skip(e: Seq<(String, JsonValue)>, rest: Seq<(String, JsonValue)>, k: Seq<char>)
    requires
        forall|j: int| 0 <= j < e.len() ==> (#[trigger] e[j]).0@ != k,
    ensures
        lookup(e + rest, k) == lookup(rest, k),
    decreases e.len(),
{
    if e.len() == 0 {
        assert(e + rest =~= rest);
    } else {
        let all = e + rest;
        assert(all[0] == e[0]);
        assert(all.drop_first() =~= e.drop_first() + rest);
        let t = e.drop_first();
        assert forall|j: int| 0 <= j < t.len() implies (#[trigger] t[j]).0@ != k by {
            assert(t[j] == e[j + 1]);
        }
        lemma_lookup_skip(t, rest, k);
    }
}

/// Whether `doc` is an object whose entries start with `e`.
pub open spec fn starts_with_entries(doc: JsonValue, e: Seq<(String, JsonValue)>) -> bool {
    match doc {
        JsonValue::Object(v) => v@.len() >= e.len() && v@.subrange(0, e.len() as int) == e,
        _ => false,
    }
}

pub open spec fn rest_of(doc: JsonValue, n: int) -> Seq<(String, JsonValue)> {
    match doc {
        JsonValue::Object(v) => v@.subrange(n, v@.len() as int),
        _ => Seq::empty(),
    }
}

proof fn lemma_written_value(u: ProfileUpdate, e: Seq<(String, JsonValue)>, doc: JsonValue, i: int)
    requires
        writes(u, e),
        starts_with_entries(doc, e),
        0 <= i < 22,
    ensures
        json_get(doc, written_keys()[i]) == Some(e[i].1),
{
    lemma_written_keys_distinct();
    let rest = rest_of(doc, 22);
    if let JsonValue::Object(v) = doc {
        assert(v@ =~= e + rest);
    }
    assert(e[i].0@ == written_keys()[i]);
    assert forall|j: int| 0 <= j < i implies (#[trigger] e[j]).0@ != e[i].0@ by {
        assert(e[j].0@ == written_keys()[j]);
    }
    lemma_lookup_prefix(e, rest, i);
}

/// Merging an update into a settings document leaves every key it does
/// not write as it was: `doc` holds the written entries `e` first and the
/// earlier document's entries `rest` after them.
pub proof fn lemma_update_keeps_other_keys(
    u: ProfileUpdate,
    e: Seq<(String, JsonValue)>,
    rest: Seq<(String, JsonValue)>,
    k: Seq<char>,
)
    requires
        writes(u, e),
        !written_keys().contains(k),
    ensures
        lookup(e + rest, k) == lookup(rest, k),
{
    assert forall|j: int| 0 <= j < e.len() implies (#[trigger] e[j]).0@ != k by {
        assert(e[j].0@ == written_keys()[j]);
        if e[j].0@ == k {
            assert(written_keys().contains(k));
        }
    }
    lemma_lookup_skip(e, rest, k);
}

// ---------------------------------------------------------------------------
// Reading the written entries back

proof fn lemma_array_strings(items: Seq<JsonValue>, ts: Seq<Seq<char>>)
    requires
        items.len() == ts.len(),
        forall|i: int| 0 <= i < items.len() ==> as_str(#[trigger] items[i]) == Some(ts[i]),
    ensures
        array_strings(items) == ts,
    decreases items.len(),
{
    if items.len() > 0 {
        let a = items.drop_last();
        let b = ts.drop_last();
        assert forall|i: int| 0 <= i < a.len() implies as_str(#[trigger] a[i]) == Some(b[i]) by {
            assert(a[i] == items[i]);
        }
        lemma_array_strings(a, b);
        assert(as_str(items.last()) == Some(ts.last()));
        assert(b.push(ts.last()) =~= ts);
    }
}

/// Trimmed and not blank.
pub open spec fn clean_text(t: Seq<char>) -> bool {
    trim_ws(t) == t && t.len() > 0
}

proof fn lemma_nonblank_strings(items: Seq<JsonValue>, ts: Seq<Seq<char>>)
    requires
        items.len() == ts.len(),
        forall|i: int| 0 <= i < items.len() ==> as_str(#[trigger] items[i]) == Some(ts[i]),
        forall|i: int| 0 <= i < ts.len() ==> clean_text(#[trigger] ts[i]),
    ensures
        nonblank_strings(items) == ts,
    decreases items.len(),
{
    if items.len() > 0 {
        let a = items.drop_last();
        let b = ts.drop_last();
        assert forall|i: int| 0 <= i < a.len() implies as_str(#[trigger] a[i]) == Some(b[i]) by {
            assert(a[i] == items[i]);
        }
        assert forall|i: int| 0 <= i < b.len() implies clean_text(#[trigger] b[i]) by {
            assert(b[i] == ts[i]);
        }
        lemma_nonblank_strings(a, b);
        assert(as_str(items.last()) == Some(ts.last()));
        assert(clean_text(ts[ts.len() - 1]));
        assert(b.push(ts.last()) =~= ts);
    }
}

proof fn lemma_listed_screens(items: Seq<JsonValue>, ps: Seq<u8>)
    requires
        items.len() == chosen_screens(ps).len(),
        forall|i: int|
            0 <= i < items.len() ==> #[trigger] items[i] == JsonValue::Number(
                JsonNumber::PosInt(chosen_screens(ps)[i] as u64),
            ),
    ensures
        listed_screens(items) == chosen_screens(ps),
{
    let c = chosen_screens(ps);
    assert forall|k: u8| 1 <= k <= 4 implies lists_screen(items, k as u64) == ps.contains(k) by {
        if ps.contains(k) {
            let j: int = if k == 1 {
                0
            } else if k == 2 {
                screen_pick(ps, 1).len() as int
            } else if k == 3 {
                (screen_pick(ps, 1).len() + screen_pick(ps, 2).len()) as int
            } else {
                (screen_pick(ps, 1).len() + screen_pick(ps, 2).len() + screen_pick(ps, 3).len()) as int
            };
            assert(c[j] == k);
            assert(as_u64(items[j]) == Some(k as u64));
        }
        if lists_screen(items, k as u64) {
            let j = choose|j: int| 0 <= j < items.len() && as_u64(#[trigger] items[j]) == Some(
                k as u64,
            );
            assert(c[j] as u64 == k as u64);
            assert(c.contains(k));
            if !ps.contains(k) {
                assert(!c.contains(k));
            }
        }
    }
    assert(listed_screens(items) =~= c);
}

proof fn lemma_first_ids_distinct(items: Seq<JsonValue>, ids: Seq<u128>)
    requires
        items.len() == ids.len(),
        forall|i: int| 0 <= i < items.len() ==> item_id(#[trigger] items[i]) == Some(ids[i]),
        ids.no_duplicates(),
    ensures
        first_ids(items) == ids,
    decreases items.len(),
{
    if items.len() > 0 {
        let a = items.drop_last();
        let b = ids.drop_last();
        assert forall|i: int| 0 <= i < a.len() implies item_id(#[trigger] a[i]) == Some(b[i]) by {
            assert(a[i] == items[i]);
        }
        assert(b.no_duplicates());
        lemma_first_ids_distinct(a, b);
        assert(item_id(items.last()) == Some(ids.last()));
        assert(!b.contains(ids.last())) by {
            if b.contains(ids.last()) {
                let j = choose|j: int| 0 <= j < b.len() && b[j] == ids.last();
                assert(ids[j] == ids[ids.len() - 1]);
            }
        }
        assert(b.push(ids.last()) =~= ids);
    }
}

proof fn lemma_format_written(param: Option<Seq<char>>, current: JsonValue)
    ensures
        is_notify_format(written_notify_format(param, current)),
        trim_ws(written_notify_format(param, current)) == written_notify_format(param, current),
{
    reveal_strlit("both");
    reveal_strlit("osc777");
    reveal_strlit("osc9");
    let f = written_notify_format(param, current);
    match param {
        Some(raw) if is_notify_format(trim_ws(raw)) => {},
        _ => {},
    }
    assert(f == "both"@ || f == "osc777"@ || f == "osc9"@);
    lemma_trim_noop_literal(f);
}

proof fn lemma_theme_written(param: Option<Seq<char>>, current: JsonValue)
    ensures
        clean_text(written_theme_id(param, current)),
{
    reveal_strlit("contrast");
    match param {
        Some(p) => lemma_trim_idempotent(p),
        None => {},
    }
    match field_str(current, "theme_id"@) {
        Some(t) => lemma_trim_idempotent(t),
        None => {},
    }
    let t = written_theme_id(param, current);
    if t == "contrast"@ {
        lemma_trim_noop_literal(t);
    }
}

proof fn lemma_trimmed_written(o: Option<Seq<char>>)
    ensures
        trimmed_text(trimmed_text(o)) == trimmed_text(o),
{
    match o {
        Some(s) => lemma_trim_idempotent(s),
        None => {},
    }
}

/// What reading the profile back gives after an update: each value as the
/// update wrote it. The notification kinds read back as submitted when
/// each is already trimmed and not blank (the settings modal submits only
/// such), the pinned rooms when none is pinned twice; the sidebar shows
/// unless its mode is Off.
pub open spec fn reads_back(p: Profile, u: ProfileUpdate, params: ProfileParams) -> bool {
    &&& p.bio@ == u.bio@
    &&& opt_view(p.country) == opt_view(u.country)
    &&& opt_view(p.timezone) == opt_view(u.timezone)
    &&& opt_view(p.ide) == opt_view(u.ide)
    &&& opt_view(p.terminal) == opt_view(u.terminal)
    &&& opt_view(p.os) == opt_view(u.os)
    &&& string_views(p.langs@) == string_views(u.langs@)
    &&& (forall|i: int|
        0 <= i < params.notify_kinds@.len() ==> clean_text(#[trigger] params.notify_kinds@[i]@))
        ==> string_views(p.notify_kinds@) == string_views(u.notify_kinds@)
    &&& p.notify_bell == u.notify_bell
    &&& p.notify_cooldown_mins == u.notify_cooldown_mins
    &&& opt_view(p.notify_format) == Some(u.notify_format@)
    &&& opt_view(p.theme_id) == Some(u.theme_id@)
    &&& p.enable_background_color == u.enable_background_color
    &&& p.show_dashboard_header == u.show_dashboard_header
    &&& p.show_dashboard_wire == u.show_dashboard_wire
    &&& p.right_sidebar_mode == u.right_sidebar_mode
    &&& p.show_right_sidebar == (u.right_sidebar_mode != RightSidebarMode::Off)
    &&& p.right_sidebar_screens@ == u.right_sidebar_screens@
    &&& p.show_room_list_sidebar == u.show_room_list_sidebar
    &&& p.show_settings_on_connect == u.show_settings_on_connect
    &&& p.profile_theming == u.profile_theming
    &&& params.favorite_room_ids@.no_duplicates() ==> p.favorite_room_ids@
        == params.favorite_room_ids@
}

/// The profile read out of a document that holds an update's entries
/// (ahead of whatever the document held before) is what the update wrote.
pub proof fn lemma_update_reads_back(
    params: ProfileParams,
    current: JsonValue,
    u: ProfileUpdate,
    e: Seq<(String, JsonValue)>,
    doc: JsonValue,
    p: Profile,
)
    requires
        update_of(params, current, u),
        writes(u, e),
        starts_with_entries(doc, e),
        reads_settings(p, doc),
    ensures
        reads_back(p, u, params),
{
    assert forall|i: int| 0 <= i < 22 implies json_get(doc, #[trigger] written_keys()[i]) == Some(
        e[i].1,
    ) by {
        lemma_written_value(u, e, doc, i);
    }
    let k = written_keys();
    assert(json_get(doc, k[0]) == Some(e[0].1));
    // bio
    lemma_trim_idempotent(params.bio@);
    // country
    match trimmed_text(opt_view(params.country)) {
        Some(t) => {
            lemma_trim_idempotent(params.country->0@);
            lemma_upper_trimmed(t);
        },
        None => {},
    }
    assert(json_get(doc, k[1]) == Some(e[1].1));
    // timezone, ide, terminal, os
    lemma_trimmed_written(opt_view(params.timezone));
    lemma_trimmed_written(opt_view(params.ide));
    lemma_trimmed_written(opt_view(params.terminal));
    lemma_trimmed_written(opt_view(params.os));
    assert(json_get(doc, k[2]) == Some(e[2].1));
    assert(json_get(doc, k[16]) == Some(e[16].1));
    assert(json_get(doc, k[17]) == Some(e[17].1));
    assert(json_get(doc, k[18]) == Some(e[18].1));
    // langs
    assert(json_get(doc, k[19]) == Some(e[19].1));
    let lang_items = as_array(e[19].1)->0;
    lemma_array_strings(lang_items, string_views(u.langs@));
    lemma_normalize_tags_idempotent(string_views(params.langs@));
    assert(raw_langs(doc) == string_views(u.langs@));
    // notify kinds
    assert(json_get(doc, k[3]) == Some(e[3].1));
    if forall|i: int|
        0 <= i < params.notify_kinds@.len() ==> clean_text(#[trigger] params.notify_kinds@[i]@) {
        let kinds = string_views(u.notify_kinds@);
        assert forall|i: int| 0 <= i < kinds.len() implies clean_text(#[trigger] kinds[i]) by {
            assert(kinds[i] == string_views(params.notify_kinds@)[i]);
            assert(string_views(params.notify_kinds@)[i] == params.notify_kinds@[i]@);
        }
        lemma_nonblank_strings(as_array(e[3].1)->0, kinds);
    }
    // flags and numbers
    assert(json_get(doc, k[4]) == Some(e[4].1));
    assert(json_get(doc, k[5]) == Some(e[5].1));
    assert(json_get(doc, k[7]) == Some(e[7].1));
    assert(json_get(doc, k[9]) == Some(e[9].1));
    assert(json_get(doc, k[13]) == Some(e[13].1));
    assert(json_get(doc, k[14]) == Some(e[14].1));
    assert(json_get(doc, k[20]) == Some(e[20].1));
    assert(json_get(doc, k[21]) == Some(e[21].1));
    // notify format and theme
    lemma_format_written(opt_view(params.notify_format), current);
    assert(json_get(doc, k[8]) == Some(e[8].1));
    lemma_theme_written(opt_view(params.theme_id), current);
    assert(json_get(doc, k[6]) == Some(e[6].1));
    // sidebar mode
    reveal_strlit("on");
    reveal_strlit("off");
    reveal_strlit("custom");
    lemma_trim_noop_literal(mode_name(u.right_sidebar_mode));
    assert(json_get(doc, k[11]) == Some(e[11].1));
    assert(stored_mode(doc) == Some(mode_name(u.right_sidebar_mode)));
    // screens
    assert(json_get(doc, k[12]) == Some(e[12].1));
    lemma_listed_screens(as_array(e[12].1)->0, params.right_sidebar_screens@);
    // favourite rooms
    assert(json_get(doc, k[15]) == Some(e[15].1));
    if params.favorite_room_ids@.no_duplicates() {
        let items = as_array(e[15].1)->0;
        let ids = params.favorite_room_ids@;
        assert forall|i: int| 0 <= i < items.len() implies item_id(#[trigger] items[i]) == Some(
            ids[i],
        ) by {
            assert(string_views(u.favorite_room_ids@)[i] == id_texts(ids)[i]);
            assert(id_text_reads_back(ids[i]));
        }
        lemma_first_ids_distinct(items, ids);
    }
}

} // verus!
